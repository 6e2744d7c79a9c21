use vstd::prelude::*;

pub mod text;
pub mod dataset_splitter;
pub mod dataset_processor;
pub mod args;
pub mod data_saver;
pub mod anime_data;
pub mod shard_processor;
pub mod constants;
pub mod data_transformer;
pub mod cluster;
pub mod enterprise;

verus! {

} // verus!
