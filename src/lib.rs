//! In-memory storage of the 8x8 coefficient blocks of a JPEG image, one
//! store per color component, and a cursor that walks a store in row-major
//! order while tracking each block's neighbors for context modeling.
//!
//! Stores for disjoint row ranges can be built independently and merged, in
//! row order, into one store for the whole component.

pub mod aligned_block;
pub mod block_based_image;
pub mod block_context;
pub mod coefficient_order;
pub mod neighbor_summary;
