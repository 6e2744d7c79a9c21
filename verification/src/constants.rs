//! Limits and sizes used across the dataset processing.
use vstd::prelude::*;

verus! {

/// Default size of I/O buffers.
pub const DEFAULT_BUFFER_SIZE: usize = 1048576;

/// Size of the buffers used when splitting the dataset.
pub const LARGE_BUFFER_SIZE: usize = 8388608;

/// Initial capacity of the per-anime maps.
pub const HASH_MAP_CAPACITY: usize = 10000;

/// Bytes per shard when the dataset is split.
pub const SHARD_SIZE: usize = 52428800;

/// How many animes the ranking by score keeps.
pub const TOP_ANIMES_LIMIT: usize = 3;

/// How many genres the ranking by views keeps.
pub const TOP_GENRES_LIMIT: usize = 5;

/// Initial capacity of the per-genre maps.
pub const GENRE_CAPACITY: usize = 500;

/// Directory where the shards are written.
pub const SHARD_DIR: &'static str = "temp_shards/";

} // verus!
