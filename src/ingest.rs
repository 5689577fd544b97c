use vstd::prelude::*;

use crate::api::PreprocessResponse;
use crate::partition::{is_chunk_layout, partition_chunks, ChunkDescriptor};
use crate::parsers::{
    lowered_among, path_extension, strictly_sorted, supports_spec, texts, vasp_extensions,
    ParserRegistry, VaspParser,
};
use crate::task::{id_of_text, CellState, TaskData, TaskStore, TaskView};
use crate::task_id::{format_task_id, uuid_text};
use crate::voxel_grid::{element_count, shape_product};

verus! {

/// Why an ingestion request was refused.
#[derive(Clone, Debug)]
pub enum IngestError {
    /// No format reads files with this name; carries the extensions that are read.
    UnsupportedFormat(Vec<String>),
    /// The file does not exist or cannot be read; carries the reason.
    FileNotFound(String),
    /// The grid dimensions could not be read from the file; carries the reason.
    MetadataReadFailed(String),
    /// The grid has more elements than a `usize` can count.
    GridTooLarge,
    /// The task could not be registered.
    RegistrationFailed,
}

/// The chunk size used for a request: at least one element.
pub fn effective_chunk_size(chunk_size: usize) -> (r: usize)
    ensures
        r == crate::partition::effective_chunk_size(chunk_size as nat),
{
    if chunk_size == 0 {
        1
    } else {
        chunk_size
    }
}

/// The format that reads the file at `file_path`, chosen by its extension, or
/// `UnsupportedFormat` with every extension that some format reads.
pub fn resolve_format<'a>(registry: &'a ParserRegistry, file_path: &str) -> (r: Result<
    &'a VaspParser,
    IngestError,
>)
    ensures
        r is Ok <==> match path_extension(file_path@) {
            Some(ext) => registry.format_count() > 0 && supports_spec(vasp_extensions(), ext),
            None => false,
        },
        match r {
            Ok(_) => true,
            Err(IngestError::UnsupportedFormat(list)) => {
                &&& strictly_sorted(texts(list@))
                &&& forall|t: Seq<char>|
                    #[trigger] texts(list@).contains(t) <==> (registry.format_count() > 0
                        && lowered_among(t, vasp_extensions().len() as int))
            },
            Err(_) => false,
        },
{
    match registry.find_parser_for_file(file_path) {
        Some((parser, _)) => Ok(parser),
        None => Err(IngestError::UnsupportedFormat(registry.supported_extensions())),
    }
}

/// Creates and registers the task for a file whose size and grid shape have
/// been read: all chunks pending, created at `now` (milliseconds). Returns the
/// new task's identifier and the answer to the client, which holds the
/// identifier's text and the full chunk layout.
pub fn register_task(
    store: &mut TaskStore,
    file: &str,
    file_path: String,
    file_size: u64,
    shape: [usize; 3],
    chunk_size: usize,
    now: u64,
) -> (r: Result<(u128, PreprocessResponse), IngestError>)
    ensures
        final(store)@.ttl == old(store)@.ttl,
        shape_product(shape) > usize::MAX ==> (r matches Err(IngestError::GridTooLarge)),
        shape_product(shape) > usize::MAX ==> final(store)@ == old(store)@,
        shape_product(shape) <= usize::MAX && old(store)@.issued == Set::<u128>::empty() ==> r is Ok,
        shape_product(shape) <= usize::MAX ==> match r {
            Ok((id, resp)) => {
                &&& !old(store)@.issued.contains(id)
                &&& !old(store)@.tasks.contains_key(id)
                &&& final(store)@.issued == old(store)@.issued.insert(id)
                &&& final(store)@.tasks == old(store)@.tasks.insert(
                    id,
                    TaskView {
                        shape,
                        chunks: resp.chunks@,
                        cells: Seq::new(resp.chunks@.len(), |i: int| CellState::Pending),
                        created_at: now,
                        file_path: file_path@,
                    },
                )
                &&& resp.task_id@ == uuid_text(id)
                &&& id_of_text(resp.task_id@) == Some(id)
                &&& resp.file@ == file@
                &&& resp.file_size == file_size
                &&& resp.shape == shape
                &&& resp.data_length == shape_product(shape)
                &&& resp.chunk_size == crate::partition::effective_chunk_size(chunk_size as nat)
                &&& is_chunk_layout(resp.chunks@, resp.data_length as nat, chunk_size as nat)
            },
            Err(e) => e is RegistrationFailed && final(store)@ == old(store)@,
        },
{
    let data_length = match element_count(shape) {
        Some(n) => n,
        None => return Err(IngestError::GridTooLarge),
    };
    let size = effective_chunk_size(chunk_size);
    let chunks = partition_chunks(data_length, size);
    let listed = chunks.clone();
    let task = TaskData::new(shape, chunks, file_path, now);
    match store.insert(task) {
        Some(id) => {
            let task_id = format_task_id(id);
            Ok(
                (
                    id,
                    PreprocessResponse {
                        task_id,
                        file: String::from_str(file),
                        file_size,
                        shape,
                        data_length,
                        chunk_size: size,
                        chunks: listed,
                    },
                ),
            )
        },
        None => Err(IngestError::RegistrationFailed),
    }
}

/// A copy of the elements `[d.start, d.end)` of `data`, or `None` when that
/// range does not lie within `data`.
pub fn chunk_values(data: &Vec<u64>, d: &ChunkDescriptor) -> (r: Option<Vec<u64>>)
    ensures
        r is Some <==> d.start <= d.end <= data@.len(),
        r matches Some(v) ==> v@ == data@.subrange(d.start as int, d.end as int),
{
    if d.start > d.end || d.end > data.len() {
        return None;
    }
    let mut out: Vec<u64> = Vec::new();
    let mut i: usize = d.start;
    while i < d.end
        invariant
            d.start <= i <= d.end,
            d.end <= data@.len(),
            out@ == data@.subrange(d.start as int, i as int),
        decreases d.end - i,
    {
        out.push(data[i]);
        assert(data@.subrange(d.start as int, i + 1) =~= data@.subrange(d.start as int, i as int).push(
            data@[i as int],
        ));
        i = i + 1;
    }
    Some(out)
}

} // verus!
