use vstd::prelude::*;

use crate::partition::ChunkDescriptor;

verus! {

/// Request for one chunk of a task.
#[derive(Clone, Debug)]
pub struct ChunkQuery {
    pub task_id: String,
    pub chunk_index: usize,
    pub session_id: Option<String>,
}

/// Request for the timing records of a session.
#[derive(Clone, Debug)]
pub struct PerformanceQuery {
    pub session_id: String,
}

/// Request to begin ingesting a file of the resource directory.
#[derive(Clone, Debug)]
pub struct PreprocessRequest {
    pub file: String,
    pub chunk_size: usize,
    pub session_id: Option<String>,
}

/// Request to begin ingesting a file, with the chunk size optional.
#[derive(Clone, Debug)]
pub struct VoxelGridQuery {
    pub file: String,
    pub chunk_size: Option<usize>,
}

/// Answer to a successful ingestion request: the new task and its chunk layout.
#[derive(Clone, Debug)]
pub struct PreprocessResponse {
    pub task_id: String,
    pub file: String,
    pub file_size: u64,
    pub shape: [usize; 3],
    pub data_length: usize,
    pub chunk_size: usize,
    pub chunks: Vec<ChunkDescriptor>,
}

} // verus!
