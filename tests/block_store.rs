use jpeg_blocks::aligned_block::AlignedBlock;
use jpeg_blocks::block_based_image::BlockBasedImage;
use jpeg_blocks::coefficient_order::ALIGNED_BLOCK_INDEX_DC_INDEX;

fn block_with_dc(dc: i16) -> [i16; 64] {
    let mut b = AlignedBlock::empty();
    b.set_dc(dc);
    *b.get_block()
}

fn filled_store(block_width: i32, height: i32, y_start: i32, y_end: i32, first_dc: i16) -> BlockBasedImage {
    let mut image = BlockBasedImage::new(block_width, height, height, y_start, y_end);
    let first = image.get_dpos_offset();
    let count = image.get_capacity() as i32;
    for i in 0..count {
        image.set_block_data(first + i, &block_with_dc(first_dc + i as i16));
    }
    image
}

#[test]
fn new_luma_range_is_exact() {
    let top = BlockBasedImage::new(4, 8, 8, 0, 4);
    assert_eq!(top.get_capacity(), 16);
    assert_eq!(top.get_dpos_offset(), 0);
    assert_eq!(top.len(), 0);
    assert_eq!(top.get_block_width(), 4);
    assert_eq!(top.get_original_height(), 8);

    let bottom = BlockBasedImage::new(4, 8, 8, 4, 8);
    assert_eq!(bottom.get_capacity(), 16);
    assert_eq!(bottom.get_dpos_offset(), 16);
}

#[test]
fn new_subsampled_range_rounds_capacity_up_and_offset_down() {
    // a component of 3 blocks against a luma height of 2 rows
    let image = BlockBasedImage::new(3, 1, 2, 1, 2);
    assert_eq!(image.get_capacity(), 2);
    assert_eq!(image.get_dpos_offset(), 1);

    let chroma = BlockBasedImage::new(2, 2, 4, 1, 3);
    assert_eq!(chroma.get_capacity(), 2);
    assert_eq!(chroma.get_dpos_offset(), 1);
}

#[test]
fn new_empty_range_has_no_capacity() {
    let image = BlockBasedImage::new(4, 8, 8, 3, 3);
    assert_eq!(image.get_capacity(), 0);
    assert_eq!(image.get_dpos_offset(), 12);
}

#[test]
fn set_block_data_then_get_block() {
    let mut image = BlockBasedImage::new(4, 2, 2, 0, 2);
    let mut data = [0i16; 64];
    for i in 0..64 {
        data[i] = i as i16 - 20;
    }
    image.set_block_data(0, &data);
    image.set_block_data(3, &block_with_dc(7));
    assert_eq!(image.len(), 4);
    assert_eq!(*image.get_block(0).get_block(), data);
    assert_eq!(image.get_block(3).get_dc(), 7);
    // grown over, never written
    assert_eq!(*image.get_block(1).get_block(), [0i16; 64]);
    assert_eq!(*image.get_block(2).get_block(), [0i16; 64]);
    // beyond what is held, and before the store
    assert_eq!(*image.get_block(4).get_block(), [0i16; 64]);
    assert_eq!(*image.get_block(-1).get_block(), [0i16; 64]);
}

#[test]
fn get_block_mut_grows_and_writes() {
    let mut image = BlockBasedImage::new(4, 2, 2, 0, 2);
    image.set_block_data(0, &block_with_dc(1));
    image.get_block_mut(2).set_coefficient(5, 9);
    assert_eq!(image.len(), 3);
    assert_eq!(image.get_block(2).get_coefficient(5), 9);
    assert_eq!(image.get_block(0).get_dc(), 1);
    assert_eq!(*image.get_block(1).get_block(), [0i16; 64]);
}

#[test]
fn partial_store_reads_by_global_position() {
    let mut image = BlockBasedImage::new(4, 8, 8, 4, 8);
    image.set_block_data(16, &block_with_dc(3));
    image.set_block_data(17, &block_with_dc(4));
    assert_eq!(image.get_block(16).get_dc(), 3);
    assert_eq!(image.get_block(17).get_dc(), 4);
    assert_eq!(image.get_block(15).get_dc(), 0);
    assert_eq!(image.get_block(0).get_dc(), 0);
}

#[test]
fn store_get_blocks_reads_neighbors() {
    let image = filled_store(4, 2, 0, 2, 0);
    let (above, left, above_left, here) = image.get_blocks(1, 4, 0, 5);
    assert_eq!(above[ALIGNED_BLOCK_INDEX_DC_INDEX], 1);
    assert_eq!(left[ALIGNED_BLOCK_INDEX_DC_INDEX], 4);
    assert_eq!(above_left[ALIGNED_BLOCK_INDEX_DC_INDEX], 0);
    assert_eq!(here.get_dc(), 5);
    let (above, left, above_left, _) = image.get_blocks(-1, -1, -1, 6);
    assert_eq!(above, [0i16; 64]);
    assert_eq!(left, [0i16; 64]);
    assert_eq!(above_left, [0i16; 64]);
}

#[test]
fn store_get_blocks_mut_fills_and_writes_here() {
    let mut image = BlockBasedImage::new(4, 2, 2, 0, 2);
    for i in 0..5 {
        image.set_block_data(i, &block_with_dc(10 + i as i16));
    }
    {
        let (above, left, above_left, here) = image.get_blocks_mut(2, 5, 1, 6);
        assert_eq!(above[ALIGNED_BLOCK_INDEX_DC_INDEX], 12);
        // block 5 did not exist yet: the store grew over it with zeros
        assert_eq!(left, [0i16; 64]);
        assert_eq!(above_left[ALIGNED_BLOCK_INDEX_DC_INDEX], 11);
        assert_eq!(here.get_dc(), 0);
        here.set_dc(66);
    }
    assert_eq!(image.len(), 7);
    assert_eq!(image.get_block(6).get_dc(), 66);
    assert_eq!(image.get_block(5).get_dc(), 0);
}

#[test]
fn two_thread_split_merges_in_order() {
    let a = filled_store(4, 8, 0, 4, 0);
    let b = filled_store(4, 8, 4, 8, 100);
    assert_eq!(a.get_dpos_offset(), 0);
    assert_eq!(a.len(), 16);
    assert_eq!(b.get_dpos_offset(), 16);
    assert_eq!(b.len(), 16);
    let b_local_4 = *b.get_block(20).get_block();

    let mut images = vec![vec![a], vec![b]];
    let merged = BlockBasedImage::merge(&mut images, 0);
    assert_eq!(merged.len(), 32);
    assert_eq!(merged.get_dpos_offset(), 0);
    assert_eq!(merged.get_capacity(), 32);
    assert_eq!(merged.get_block_width(), 4);
    assert_eq!(merged.get_original_height(), 8);
    assert_eq!(*merged.get_block(20).get_block(), b_local_4);
    assert_eq!(merged.get_block(20).get_dc(), 104);

    // the same blocks as one store built for the whole component
    let whole = filled_store(4, 8, 0, 8, 0);
    for p in 0..16 {
        assert_eq!(*merged.get_block(p).get_block(), *whole.get_block(p).get_block());
    }
    for p in 16..32 {
        assert_eq!(merged.get_block(p).get_dc(), 100 + (p - 16) as i16);
    }
    // the blocks moved out of the inputs
    assert_eq!(images[0][0].len(), 0);
    assert_eq!(images[1][0].len(), 0);
}

#[test]
fn merge_picks_one_component_of_each_group() {
    let luma_a = filled_store(4, 4, 0, 2, 0);
    let luma_b = filled_store(4, 4, 2, 4, 50);
    // second component: 2 blocks wide, 2 high, against 4 luma rows
    let mut chroma_a = BlockBasedImage::new(2, 2, 4, 0, 2);
    chroma_a.set_block_data(0, &block_with_dc(7));
    chroma_a.set_block_data(1, &block_with_dc(8));
    let mut chroma_b = BlockBasedImage::new(2, 2, 4, 2, 4);
    assert_eq!(chroma_b.get_dpos_offset(), 2);
    chroma_b.set_block_data(2, &block_with_dc(9));
    chroma_b.set_block_data(3, &block_with_dc(10));

    let mut images = vec![vec![luma_a, chroma_a], vec![luma_b, chroma_b]];
    let chroma = BlockBasedImage::merge(&mut images, 1);
    assert_eq!(chroma.len(), 4);
    assert_eq!(chroma.get_block_width(), 2);
    for p in 0..4 {
        assert_eq!(chroma.get_block(p).get_dc(), 7 + p as i16);
    }
    // the other component is untouched
    assert_eq!(images[0][0].len(), 8);
    assert_eq!(images[1][0].len(), 8);
    let luma = BlockBasedImage::merge(&mut images, 0);
    assert_eq!(luma.len(), 16);
    assert_eq!(luma.get_block(9).get_dc(), 51);
}

#[test]
fn merge_single_store() {
    let a = filled_store(3, 2, 0, 2, 5);
    let mut images = vec![vec![a]];
    let merged = BlockBasedImage::merge(&mut images, 0);
    assert_eq!(merged.len(), 6);
    assert_eq!(merged.get_block(5).get_dc(), 10);
}
