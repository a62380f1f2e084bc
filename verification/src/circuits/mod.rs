pub mod license;
pub mod merkle_tree;
