//! Zero-knowledge licence statements over Pedersen Merkle trees: the values the circuits
//! take, the conditions they enforce on those values, and the parsing of scalars.
pub mod bls_field;
pub mod circuits;
pub mod did;
pub mod field;
pub mod files;
pub mod merkle;
pub mod scalar;
