use jpeg_blocks::aligned_block::AlignedBlock;
use jpeg_blocks::coefficient_order::{
    ALIGNED_BLOCK_INDEX_DC_INDEX, RASTER_TO_ALIGNED, ZIGZAG_TO_ALIGNED, ZIGZAG_TO_RASTER,
};

#[test]
fn empty_block_is_zero() {
    let b = AlignedBlock::empty();
    assert_eq!(*b.get_block(), [0i16; 64]);
    assert_eq!(b.get_dc(), 0);
    assert_eq!(b.get_count_of_non_zeros_7x7(), 0);
    assert_eq!(b.get_hash(), 0);
}

#[test]
fn dc_lives_in_its_aligned_slot() {
    let mut b = AlignedBlock::empty();
    b.set_dc(-12);
    assert_eq!(b.get_dc(), -12);
    assert_eq!(b.get_coefficient(ALIGNED_BLOCK_INDEX_DC_INDEX), -12);
    assert_eq!(b.get_coefficient_zigzag(0), -12);
    assert_eq!(b.get_coefficient_raster(0), -12);
}

#[test]
fn zigzag_round_trip_every_index() {
    for i in 0..64 {
        let mut b = AlignedBlock::empty();
        b.set_coefficient_zigzag(i, 100 + i as i16);
        assert_eq!(b.get_coefficient_zigzag(i), 100 + i as i16);
        for j in 0..64 {
            if j != i {
                assert_eq!(b.get_coefficient_zigzag(j), 0);
            }
        }
        assert_eq!(b.get_coefficient(ZIGZAG_TO_ALIGNED[i] as usize), 100 + i as i16);
    }
}

#[test]
fn raster_round_trip_every_index() {
    for i in 0..64 {
        let mut b = AlignedBlock::empty();
        b.set_coefficient_raster(i, -(i as i16) - 1);
        assert_eq!(b.get_coefficient_raster(i), -(i as i16) - 1);
        for j in 0..64 {
            if j != i {
                assert_eq!(b.get_coefficient_raster(j), 0);
            }
        }
    }
}

#[test]
fn zigzag_and_raster_views_agree() {
    let mut data = [0i16; 64];
    for i in 0..64 {
        data[i] = i as i16 * 3 - 7;
    }
    let b = AlignedBlock::new(data);
    let mut seen = [false; 64];
    for z in 0..64 {
        let r = ZIGZAG_TO_RASTER[z] as usize;
        assert_eq!(b.get_coefficient_zigzag(z), b.get_coefficient_raster(r));
        let a = ZIGZAG_TO_ALIGNED[z] as usize;
        assert!(!seen[a]);
        seen[a] = true;
    }
    assert!(seen.iter().all(|s| *s));
    // raster index 9 is row 1, column 1: the first slot of the 7x7 square
    assert_eq!(RASTER_TO_ALIGNED[9], 0);
    assert_eq!(b.get_coefficient_raster(9), b.get_coefficient(0));
}

#[test]
fn set_coefficient_zigzag_block_writes_raw_data() {
    let mut raw = [0i16; 64];
    AlignedBlock::set_coefficient_zigzag_block(&mut raw, 0, 5);
    AlignedBlock::set_coefficient_zigzag_block(&mut raw, 63, 6);
    AlignedBlock::set_coefficient_zigzag_block(&mut raw, 4, 7);
    assert_eq!(raw[ALIGNED_BLOCK_INDEX_DC_INDEX], 5);
    assert_eq!(raw[48], 6);
    assert_eq!(raw[0], 7);
    let b = AlignedBlock::new(raw);
    assert_eq!(b.get_coefficient_zigzag(4), 7);
}

#[test]
fn count_of_non_zeros_covers_only_the_7x7_square() {
    let mut b = AlignedBlock::empty();
    b.set_dc(3);
    for a in 49..64 {
        b.set_coefficient(a, 1);
    }
    assert_eq!(b.get_count_of_non_zeros_7x7(), 0);
    b.set_coefficient(0, -1);
    b.set_coefficient(48, 2);
    b.set_coefficient(20, 5);
    assert_eq!(b.get_count_of_non_zeros_7x7(), 3);

    let full = AlignedBlock::new([1i16; 64]);
    assert_eq!(full.get_count_of_non_zeros_7x7(), 49);
}

#[test]
fn hash_sums_all_coefficients() {
    let mut data = [0i16; 64];
    for i in 0..64 {
        data[i] = i as i16;
    }
    assert_eq!(AlignedBlock::new(data).get_hash(), 2016);
    assert_eq!(AlignedBlock::new([i16::MIN; 64]).get_hash(), -32768 * 64);
    assert_eq!(AlignedBlock::new([i16::MAX; 64]).get_hash(), 32767 * 64);
}

#[test]
fn get_block_mut_writes_through() {
    let mut b = AlignedBlock::empty();
    b.get_block_mut()[ALIGNED_BLOCK_INDEX_DC_INDEX] = 9;
    b.get_block_mut()[3] = -4;
    assert_eq!(b.get_dc(), 9);
    assert_eq!(b.get_coefficient(3), -4);
}
