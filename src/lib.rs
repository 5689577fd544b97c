//! Serves large three-dimensional scalar fields in chunks that a client pulls
//! one by one: a registry of ingestion tasks, each with a chunk layout and a
//! take-once store of chunk payloads, expired after a time-to-live.

pub mod api;
mod id_list;
pub mod ingest;
pub mod lifecycle;
pub mod parsers;
pub mod partition;
pub mod performance;
pub mod task;
pub mod task_id;
pub mod vasp_header;
pub mod voxel_grid;
pub mod wire;
