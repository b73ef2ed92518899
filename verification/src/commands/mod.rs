pub mod remap;
pub mod traversal;
