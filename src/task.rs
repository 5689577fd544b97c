use vstd::prelude::*;

use crate::partition::ChunkDescriptor;
use crate::id_list::{
    lemma_occurs_all, lemma_occurs_back, lemma_occurs_front, lemma_occurs_no_duplicate,
    lemma_push_contains, lemma_push_no_duplicates, occurs_in,
};
use crate::task_id::{fresh_task_id, format_task_id, parse_task_id, uuid_parsed, uuid_text};

verus! {

broadcast use vstd::std_specs::hash::group_hash_axioms;

/// The state of one chunk's payload: still being produced, ready to be handed
/// out, or already handed out (and released).
pub enum ChunkCell {
    Pending,
    Ready(Vec<u64>),
    Consumed,
}

/// Mathematical view of a [`ChunkCell`]; payload elements are 64-bit words
/// (the IEEE-754 bit patterns of the grid's values).
pub enum CellState {
    Pending,
    Ready(Seq<u64>),
    Consumed,
}

impl View for ChunkCell {
    type V = CellState;

    open spec fn view(&self) -> CellState {
        match self {
            ChunkCell::Pending => CellState::Pending,
            ChunkCell::Ready(v) => CellState::Ready(v@),
            ChunkCell::Consumed => CellState::Consumed,
        }
    }
}

/// Mathematical view of a task: its grid shape, descriptor list, one cell per
/// descriptor, creation time in milliseconds and source path.
pub struct TaskView {
    pub shape: [usize; 3],
    pub chunks: Seq<ChunkDescriptor>,
    pub cells: Seq<CellState>,
    pub created_at: u64,
    pub file_path: Seq<char>,
}

/// Outcome of asking for one chunk of one task.
pub enum FetchStatus {
    UnknownTask,
    UnknownChunkIndex,
    NotYetReady,
    AlreadyConsumed,
    Ready(ChunkDescriptor, Seq<u64>),
}

/// What a fetch of chunk `index` of task `t` yields.
pub open spec fn task_fetch_status(t: TaskView, index: int) -> FetchStatus {
    if index < 0 || index >= t.chunks.len() {
        FetchStatus::UnknownChunkIndex
    } else {
        match t.cells[index] {
            CellState::Pending => FetchStatus::NotYetReady,
            CellState::Consumed => FetchStatus::AlreadyConsumed,
            CellState::Ready(d) => FetchStatus::Ready(t.chunks[index], d),
        }
    }
}

/// The payload that a take of chunk `index` hands out, if any.
pub open spec fn take_result(t: TaskView, index: int) -> Option<Seq<u64>> {
    if 0 <= index < t.cells.len() {
        match t.cells[index] {
            CellState::Ready(d) => Some(d),
            _ => None,
        }
    } else {
        None
    }
}

/// The task after a take of chunk `index`: a ready cell becomes consumed,
/// anything else is left as it was.
pub open spec fn after_take(t: TaskView, index: int) -> TaskView {
    if take_result(t, index) is Some {
        TaskView { cells: t.cells.update(index, CellState::Consumed), ..t }
    } else {
        t
    }
}

/// Whether a set of chunk `index` takes effect: only a pending cell is filled.
pub open spec fn set_applies(t: TaskView, index: int) -> bool {
    0 <= index < t.cells.len() && t.cells[index] is Pending
}

/// The task after setting the payload of chunk `index` to `data`.
pub open spec fn after_set(t: TaskView, index: int, data: Seq<u64>) -> TaskView {
    if set_applies(t, index) {
        TaskView { cells: t.cells.update(index, CellState::Ready(data)), ..t }
    } else {
        t
    }
}

/// Number of cells that still hold or await a payload.
pub open spec fn remaining_count(cells: Seq<CellState>) -> nat
    decreases cells.len(),
{
    if cells.len() == 0 {
        0
    } else {
        remaining_count(cells.drop_last()) + if cells.last() is Consumed {
            0nat
        } else {
            1nat
        }
    }
}

/// One ingestion job: the grid's shape and chunk layout, and the cell of each
/// chunk. Cells are indexed by descriptor position.
pub struct TaskData {
    shape: [usize; 3],
    chunks: Vec<ChunkDescriptor>,
    chunk_data: Vec<ChunkCell>,
    created_at: u64,
    file_path: String,
}

impl View for TaskData {
    type V = TaskView;

    closed spec fn view(&self) -> TaskView {
        TaskView {
            shape: self.shape,
            chunks: self.chunks@,
            cells: self.chunk_data@.map_values(|c: ChunkCell| c@),
            created_at: self.created_at,
            file_path: self.file_path@,
        }
    }
}

impl TaskData {
    #[verifier::type_invariant]
    spec fn inv(&self) -> bool {
        self.chunk_data.len() == self.chunks.len()
    }

    /// A task whose chunks are all pending, created at `created_at` (milliseconds).
    pub fn new(shape: [usize; 3], chunks: Vec<ChunkDescriptor>, file_path: String, created_at: u64) -> (r:
        TaskData)
        ensures
            r@.shape == shape,
            r@.chunks == chunks@,
            r@.cells == Seq::new(chunks@.len(), |i: int| CellState::Pending),
            r@.created_at == created_at,
            r@.file_path == file_path@,
    {
        let mut chunk_data: Vec<ChunkCell> = Vec::new();
        let n = chunks.len();
        let mut i: usize = 0;
        while i < n
            invariant
                n == chunks.len(),
                i <= n,
                chunk_data@.len() == i,
                forall|j: int| 0 <= j < i ==> #[trigger] chunk_data@[j] is Pending,
            decreases n - i,
        {
            chunk_data.push(ChunkCell::Pending);
            i = i + 1;
        }
        let r = TaskData { shape, chunks, chunk_data, created_at, file_path };
        assert(r@.cells =~= Seq::new(n as nat, |i: int| CellState::Pending));
        r
    }

    pub fn shape(&self) -> (r: [usize; 3])
        ensures
            r == self@.shape,
    {
        self.shape
    }

    pub fn chunks(&self) -> (r: &Vec<ChunkDescriptor>)
        ensures
            r@ == self@.chunks,
    {
        &self.chunks
    }

    pub fn created_at(&self) -> (r: u64)
        ensures
            r == self@.created_at,
    {
        self.created_at
    }

    pub fn file_path(&self) -> (r: &String)
        ensures
            r@ == self@.file_path,
    {
        &self.file_path
    }

    /// Fills chunk `chunk_index` with `data` if that chunk is pending, and says
    /// whether it did; a second fill, or one of an unknown chunk, changes nothing.
    pub fn set_chunk(&mut self, chunk_index: usize, data: Vec<u64>) -> (r: bool)
        ensures
            task_wf(old(self)@),
            r == set_applies(old(self)@, chunk_index as int),
            final(self)@ == after_set(old(self)@, chunk_index as int, data@),
        no_unwind
    {
        proof {
            use_type_invariant(&*self);
        }
        if chunk_index < self.chunk_data.len() {
            let pending = match &self.chunk_data[chunk_index] {
                ChunkCell::Pending => true,
                _ => false,
            };
            if pending {
                let ghost before = self@;
                let mut cell = ChunkCell::Ready(data);
                std::mem::swap(&mut cell, &mut self.chunk_data[chunk_index]);
                assert(self@.cells =~= before.cells.update(
                    chunk_index as int,
                    CellState::Ready(data@),
                ));
                return true;
            }
        }
        false
    }

    /// Hands out the payload of chunk `chunk_index` if it is ready, and marks the
    /// chunk consumed; a pending, consumed or unknown chunk yields `None`.
    pub fn take_chunk(&mut self, chunk_index: usize) -> (r: Option<Vec<u64>>)
        ensures
            task_wf(old(self)@),
            match r {
                Some(v) => take_result(old(self)@, chunk_index as int) == Some(v@),
                None => take_result(old(self)@, chunk_index as int) is None,
            },
            final(self)@ == after_take(old(self)@, chunk_index as int),
        no_unwind
    {
        proof {
            use_type_invariant(&*self);
        }
        if chunk_index < self.chunk_data.len() {
            let ready = match &self.chunk_data[chunk_index] {
                ChunkCell::Ready(_) => true,
                _ => false,
            };
            if ready {
                let ghost before = self@;
                let mut cell = ChunkCell::Consumed;
                std::mem::swap(&mut cell, &mut self.chunk_data[chunk_index]);
                assert(self@.cells =~= before.cells.update(
                    chunk_index as int,
                    CellState::Consumed,
                ));
                return match cell {
                    ChunkCell::Ready(v) => Some(v),
                    _ => None,
                };
            }
        }
        None
    }

    /// Whether chunk `chunk_index` holds a payload not yet handed out.
    pub fn is_chunk_ready(&self, chunk_index: usize) -> (r: bool)
        ensures
            r == (take_result(self@, chunk_index as int) is Some),
    {
        if chunk_index < self.chunk_data.len() {
            match &self.chunk_data[chunk_index] {
                ChunkCell::Ready(_) => true,
                _ => false,
            }
        } else {
            false
        }
    }

    /// Number of chunks not yet handed out (pending or ready).
    pub fn remaining_chunk_count(&self) -> (r: usize)
        ensures
            r == remaining_count(self@.cells),
    {
        let n = self.chunk_data.len();
        let mut count: usize = 0;
        let mut i: usize = 0;
        while i < n
            invariant
                n == self.chunk_data.len(),
                i <= n,
                count <= i,
                count == remaining_count(self@.cells.subrange(0, i as int)),
            decreases n - i,
        {
            let consumed = match &self.chunk_data[i] {
                ChunkCell::Consumed => true,
                _ => false,
            };
            assert(self@.cells.subrange(0, i + 1).drop_last() =~= self@.cells.subrange(
                0,
                i as int,
            ));
            if !consumed {
                count = count + 1;
            }
            i = i + 1;
        }
        assert(self@.cells.subrange(0, n as int) =~= self@.cells);
        count
    }

    /// Whether any chunk is not yet handed out.
    pub fn has_remaining_chunks(&self) -> (r: bool)
        ensures
            r == (remaining_count(self@.cells) > 0),
    {
        self.remaining_chunk_count() > 0
    }

    /// Answers a request for chunk `chunk_index`: the payload and its descriptor
    /// when ready (the chunk is then consumed), otherwise why not.
    pub fn fetch_chunk(&mut self, chunk_index: usize) -> (r: ChunkFetch)
        ensures
            task_wf(old(self)@),
            r.status() == task_fetch_status(old(self)@, chunk_index as int),
            final(self)@ == after_take(old(self)@, chunk_index as int),
    {
        proof {
            use_type_invariant(&*self);
        }
        if chunk_index >= self.chunks.len() {
            return ChunkFetch::UnknownChunkIndex;
        }
        let descriptor = self.chunks[chunk_index];
        match self.take_chunk(chunk_index) {
            Some(data) => ChunkFetch::Ready { descriptor, data },
            None => {
                if self.is_consumed(chunk_index) {
                    ChunkFetch::AlreadyConsumed
                } else {
                    ChunkFetch::NotYetReady
                }
            },
        }
    }

    fn is_consumed(&self, chunk_index: usize) -> (r: bool)
        ensures
            r == (0 <= chunk_index < self@.cells.len() && self@.cells[chunk_index as int] is Consumed),
    {
        if chunk_index < self.chunk_data.len() {
            match &self.chunk_data[chunk_index] {
                ChunkCell::Consumed => true,
                _ => false,
            }
        } else {
            false
        }
    }
}

/// Answer to a chunk request, as handed to the transport layer.
pub enum ChunkFetch {
    UnknownTask,
    UnknownChunkIndex,
    NotYetReady,
    AlreadyConsumed,
    Ready { descriptor: ChunkDescriptor, data: Vec<u64> },
}

impl ChunkFetch {
    pub open spec fn status(&self) -> FetchStatus {
        match self {
            ChunkFetch::UnknownTask => FetchStatus::UnknownTask,
            ChunkFetch::UnknownChunkIndex => FetchStatus::UnknownChunkIndex,
            ChunkFetch::NotYetReady => FetchStatus::NotYetReady,
            ChunkFetch::AlreadyConsumed => FetchStatus::AlreadyConsumed,
            ChunkFetch::Ready { descriptor, data } => FetchStatus::Ready(*descriptor, data@),
        }
    }
}

/// Default time-to-live of a task: 30 minutes, in milliseconds.
pub const DEFAULT_TTL_MS: u64 = 1_800_000;

/// Milliseconds from `created_at` to `now`; zero when `now` is earlier.
pub open spec fn elapsed(now: u64, created_at: u64) -> int {
    if now >= created_at {
        now - created_at
    } else {
        0
    }
}

/// A task is expired at `now` once its age reaches the time-to-live.
pub open spec fn is_expired(t: TaskView, now: u64, ttl: u64) -> bool {
    elapsed(now, t.created_at) >= ttl
}

/// The tasks that a sweep at `now` keeps: exactly those not yet expired.
pub open spec fn swept(m: Map<u128, TaskView>, now: u64, ttl: u64) -> Map<u128, TaskView> {
    Map::new(|k: u128| m.contains_key(k) && !is_expired(m[k], now, ttl), |k: u128| m[k])
}

/// What a fetch of chunk `index` of task `id` yields.
pub open spec fn store_fetch_status(m: Map<u128, TaskView>, id: u128, index: int) -> FetchStatus {
    if m.contains_key(id) {
        task_fetch_status(m[id], index)
    } else {
        FetchStatus::UnknownTask
    }
}

/// The tasks after a fetch of chunk `index` of task `id`.
pub open spec fn store_after_fetch(m: Map<u128, TaskView>, id: u128, index: int) -> Map<
    u128,
    TaskView,
> {
    if m.contains_key(id) {
        m.insert(id, after_take(m[id], index))
    } else {
        m
    }
}

/// The tasks after a set of chunk `index` of task `id` to `data`.
pub open spec fn store_after_set(m: Map<u128, TaskView>, id: u128, index: int, data: Seq<u64>) -> Map<
    u128,
    TaskView,
> {
    if m.contains_key(id) {
        m.insert(id, after_set(m[id], index, data))
    } else {
        m
    }
}

/// A task has exactly one cell per descriptor.
pub open spec fn task_wf(t: TaskView) -> bool {
    t.cells.len() == t.chunks.len()
}

/// Mathematical view of the registry: live tasks by identifier, every
/// identifier ever issued (live or swept), and the time-to-live.
pub struct StoreView {
    pub tasks: Map<u128, TaskView>,
    pub issued: Set<u128>,
    pub ttl: u64,
}

impl StoreView {
    /// Every live task has one cell per descriptor, and its identifier was issued.
    pub open spec fn wf(self) -> bool {
        forall|k: u128| #[trigger]
            self.tasks.contains_key(k) ==> task_wf(self.tasks[k]) && self.issued.contains(k)
    }
}

/// The identifier that `text` names: only the exact text issued for an identifier names it.
pub open spec fn id_of_text(text: Seq<char>) -> Option<u128> {
    match uuid_parsed(text) {
        Some(id) => if uuid_text(id) == text {
            Some(id)
        } else {
            None
        },
        None => None,
    }
}

/// The registry of live tasks, keyed by a 128-bit identifier.
///
/// Every operation is a single step on the registry; callers that share one
/// registry between threads hold it behind one lock, so that each call is one
/// critical section and the contracts below describe the shared behaviour.
pub struct TaskStore {
    tasks: std::collections::HashMap<u128, TaskData>,
    /// The identifiers of the live tasks, in order of insertion.
    order: Vec<u128>,
    /// Every identifier ever registered; none is given out twice.
    issued: std::collections::HashSet<u128>,
    default_ttl: u64,
}

pub open spec fn view_of_tasks(m: Map<u128, TaskData>) -> Map<u128, TaskView> {
    Map::new(|k: u128| m.contains_key(k), |k: u128| m[k]@)
}

impl View for TaskStore {
    type V = StoreView;

    closed spec fn view(&self) -> StoreView {
        StoreView { tasks: view_of_tasks(self.tasks@), issued: self.issued@, ttl: self.default_ttl }
    }
}

impl TaskStore {
    #[verifier::type_invariant]
    spec fn inv(&self) -> bool {
        &&& self.order@.no_duplicates()
        &&& forall|k: u128| #[trigger] self.tasks@.contains_key(k) <==> self.order@.contains(k)
        &&& forall|k: u128| #[trigger]
            self.tasks@.contains_key(k) ==> task_wf(self.tasks@[k]@) && self.issued@.contains(k)
    }

    /// An empty registry whose tasks live for 30 minutes.
    pub fn new() -> (r: TaskStore)
        ensures
            r@.tasks == Map::<u128, TaskView>::empty(),
            r@.issued == Set::<u128>::empty(),
            r@.ttl == DEFAULT_TTL_MS,
    {
        TaskStore::with_ttl(DEFAULT_TTL_MS)
    }

    /// An empty registry whose tasks live for `ttl` milliseconds.
    pub fn with_ttl(ttl: u64) -> (r: TaskStore)
        ensures
            r@.tasks == Map::<u128, TaskView>::empty(),
            r@.issued == Set::<u128>::empty(),
            r@.ttl == ttl,
    {
        let r = TaskStore {
            tasks: std::collections::HashMap::new(),
            order: Vec::new(),
            issued: std::collections::HashSet::new(),
            default_ttl: ttl,
        };
        assert(r@.tasks =~= Map::<u128, TaskView>::empty());
        r
    }

    /// Time-to-live of the tasks, in milliseconds.
    pub fn default_ttl(&self) -> (r: u64)
        ensures
            r == self@.ttl,
    {
        self.default_ttl
    }

    /// Number of live tasks.
    pub fn task_count(&self) -> (r: usize)
        ensures
            r == self@.tasks.len(),
            self@.wf(),
    {
        proof {
            use_type_invariant(self);
        }
        assert(self@.tasks.dom() =~= self.tasks@.dom());
        self.tasks.len()
    }

    /// The task registered under `id`, if it is live.
    pub fn get(&self, id: u128) -> (r: Option<&TaskData>)
        ensures
            match r {
                Some(t) => self@.tasks.contains_key(id) && t@ == self@.tasks[id],
                None => !self@.tasks.contains_key(id),
            },
            self@.wf(),
    {
        proof {
            use_type_invariant(self);
        }
        self.tasks.get(&id)
    }

    /// Moves the registry's contents out, leaving it empty with the same
    /// time-to-live and issued identifiers; mutating operations rebuild the
    /// registry from the parts.
    fn take_parts(&mut self) -> (r: (
        std::collections::HashMap<u128, TaskData>,
        Vec<u128>,
        std::collections::HashSet<u128>,
    ))
        ensures
            r.0@ == old(self).tasks@,
            r.1@ == old(self).order@,
            r.2@ == old(self)@.issued,
            r.1@.no_duplicates(),
            forall|k: u128| #[trigger] r.0@.contains_key(k) <==> r.1@.contains(k),
            forall|k: u128| #[trigger]
                r.0@.contains_key(k) ==> task_wf(r.0@[k]@) && r.2@.contains(k),
            old(self)@.wf(),
            final(self)@.tasks == Map::<u128, TaskView>::empty(),
            final(self)@.ttl == old(self)@.ttl,
    {
        proof {
            use_type_invariant(&*self);
        }
        let mut parts = TaskStore::with_ttl(self.default_ttl);
        std::mem::swap(self, &mut parts);
        let TaskStore { tasks, order, issued, default_ttl: _ } = parts;
        (tasks, order, issued)
    }

    /// Registers `data` under `id` unless `id` was ever issued before (to a live
    /// or a swept task), and says whether it did.
    pub fn insert_with_id(&mut self, id: u128, data: TaskData) -> (r: bool)
        ensures
            old(self)@.wf(),
            final(self)@.wf(),
            r == !old(self)@.issued.contains(id),
            r ==> final(self)@.tasks == old(self)@.tasks.insert(id, data@),
            r ==> final(self)@.issued == old(self)@.issued.insert(id),
            !r ==> final(self)@ == old(self)@,
            final(self)@.ttl == old(self)@.ttl,
    {
        proof {
            use_type_invariant(&*self);
            use_type_invariant(&data);
        }
        if self.issued.contains(&id) {
            return false;
        }
        let ghost before = self@;
        let ttl = self.default_ttl;
        let (mut tasks, mut order, mut issued) = self.take_parts();
        let ghost o0 = order@;
        tasks.insert(id, data);
        order.push(id);
        issued.insert(id);
        proof {
            lemma_push_contains(o0, id);
            lemma_push_no_duplicates(o0, id);
        }
        *self = TaskStore { tasks, order, issued, default_ttl: ttl };
        assert(self@.tasks =~= before.tasks.insert(id, data@));
        true
    }

    /// Registers `data` under a fresh random identifier and returns it. The
    /// identifier was never issued before, so none is reused, even after a sweep.
    /// Should the identifier drawn have been issued already, nothing is
    /// registered and `None` is returned; on a registry that never issued one,
    /// registration always succeeds.
    pub fn insert(&mut self, data: TaskData) -> (r: Option<u128>)
        ensures
            old(self)@.wf(),
            final(self)@.wf(),
            old(self)@.issued == Set::<u128>::empty() ==> r is Some,
            match r {
                Some(id) => {
                    &&& !old(self)@.issued.contains(id)
                    &&& !old(self)@.tasks.contains_key(id)
                    &&& final(self)@.tasks == old(self)@.tasks.insert(id, data@)
                    &&& final(self)@.issued == old(self)@.issued.insert(id)
                },
                None => final(self)@ == old(self)@,
            },
            final(self)@.ttl == old(self)@.ttl,
    {
        let id = fresh_task_id();
        if self.insert_with_id(id, data) {
            Some(id)
        } else {
            None
        }
    }

    /// Answers a request for chunk `chunk_index` of task `id`: the payload and its
    /// descriptor when ready (the chunk is then consumed), otherwise why not.
    pub fn fetch_chunk(&mut self, id: u128, chunk_index: usize) -> (r: ChunkFetch)
        ensures
            old(self)@.wf(),
            final(self)@.wf(),
            r.status() == store_fetch_status(old(self)@.tasks, id, chunk_index as int),
            final(self)@.tasks == store_after_fetch(old(self)@.tasks, id, chunk_index as int),
            final(self)@.issued == old(self)@.issued,
            final(self)@.ttl == old(self)@.ttl,
    {
        proof {
            use_type_invariant(&*self);
        }
        if !self.tasks.contains_key(&id) {
            return ChunkFetch::UnknownTask;
        }
        let ghost before = self@;
        let ttl = self.default_ttl;
        let (mut tasks, order, issued) = self.take_parts();
        let r = match tasks.remove(&id) {
            Some(mut t) => {
                let r = t.fetch_chunk(chunk_index);
                tasks.insert(id, t);
                r
            },
            None => ChunkFetch::UnknownTask,
        };
        *self = TaskStore { tasks, order, issued, default_ttl: ttl };
        assert(self@.tasks =~= store_after_fetch(before.tasks, id, chunk_index as int));
        r
    }

    /// Fills chunk `chunk_index` of task `id` with `data` if the task is live and
    /// that chunk is pending, and says whether it did.
    pub fn set_chunk(&mut self, id: u128, chunk_index: usize, data: Vec<u64>) -> (r: bool)
        ensures
            old(self)@.wf(),
            final(self)@.wf(),
            r == (old(self)@.tasks.contains_key(id) && set_applies(
                old(self)@.tasks[id],
                chunk_index as int,
            )),
            final(self)@.tasks == store_after_set(old(self)@.tasks, id, chunk_index as int, data@),
            final(self)@.issued == old(self)@.issued,
            final(self)@.ttl == old(self)@.ttl,
    {
        proof {
            use_type_invariant(&*self);
        }
        if !self.tasks.contains_key(&id) {
            return false;
        }
        let ghost before = self@;
        let ttl = self.default_ttl;
        let (mut tasks, order, issued) = self.take_parts();
        let r = match tasks.remove(&id) {
            Some(mut t) => {
                let r = t.set_chunk(chunk_index, data);
                tasks.insert(id, t);
                r
            },
            None => false,
        };
        *self = TaskStore { tasks, order, issued, default_ttl: ttl };
        assert(self@.tasks =~= store_after_set(before.tasks, id, chunk_index as int, data@));
        r
    }

    /// Answers a request for chunk `chunk_index` of the task whose identifier text
    /// is `task_id`. Only the exact text issued for an identifier names it; any
    /// other text names no task.
    pub fn fetch_chunk_by_text(&mut self, task_id: &str, chunk_index: usize) -> (r: ChunkFetch)
        ensures
            old(self)@.wf(),
            final(self)@.wf(),
            match id_of_text(task_id@) {
                Some(id) => {
                    &&& r.status() == store_fetch_status(old(self)@.tasks, id, chunk_index as int)
                    &&& final(self)@.tasks == store_after_fetch(
                        old(self)@.tasks,
                        id,
                        chunk_index as int,
                    )
                },
                None => r.status() == FetchStatus::UnknownTask && final(self)@.tasks == old(
                    self,
                )@.tasks,
            },
            final(self)@.issued == old(self)@.issued,
            final(self)@.ttl == old(self)@.ttl,
    {
        proof {
            use_type_invariant(&*self);
        }
        match parse_task_id(task_id) {
            Some(id) => {
                let issued_text = format_task_id(id);
                let given = String::from_str(task_id);
                if issued_text == given {
                    self.fetch_chunk(id, chunk_index)
                } else {
                    ChunkFetch::UnknownTask
                }
            },
            None => ChunkFetch::UnknownTask,
        }
    }

    /// Removes every task (used at shutdown); issued identifiers stay issued.
    pub fn clear_all(&mut self)
        ensures
            final(self)@.tasks == Map::<u128, TaskView>::empty(),
            final(self)@.issued == old(self)@.issued,
            final(self)@.wf(),
            final(self)@.ttl == old(self)@.ttl,
    {
        let ttl = self.default_ttl;
        let (_, _, issued) = self.take_parts();
        *self = TaskStore {
            tasks: std::collections::HashMap::new(),
            order: Vec::new(),
            issued,
            default_ttl: ttl,
        };
        assert(self@.tasks =~= Map::<u128, TaskView>::empty());
    }

    /// Removes every task whose age at `now` (milliseconds) has reached the
    /// time-to-live, keeps the others, and returns how many were removed.
    pub fn cleanup_expired(&mut self, now: u64) -> (r: usize)
        ensures
            old(self)@.wf(),
            final(self)@.wf(),
            final(self)@.tasks == swept(old(self)@.tasks, now, old(self)@.ttl),
            r == old(self)@.tasks.len() - final(self)@.tasks.len(),
            final(self)@.issued == old(self)@.issued,
            final(self)@.ttl == old(self)@.ttl,
    {
        let ghost before = self@;
        let ttl = self.default_ttl;
        let (mut tasks, order, issued) = self.take_parts();
        let ghost m0 = tasks@;
        let ghost o = order@;
        let mut kept: Vec<u128> = Vec::new();
        let mut removed: usize = 0;
        let n = order.len();
        let mut i: usize = 0;
        assert(before.tasks.dom() =~= m0.dom());
        while i < n
            invariant
                n == order@.len(),
                o == order@,
                i <= n,
                o.no_duplicates(),
                forall|k: u128| #[trigger] m0.contains_key(k) <==> o.contains(k),
                m0.dom().finite(),
                forall|k: u128| #[trigger]
                    tasks@.contains_key(k) <==> m0.contains_key(k) && (!is_expired(
                        m0[k]@,
                        now,
                        ttl,
                    ) || occurs_in(o, i as int, n as int, k)),
                forall|k: u128| #[trigger] tasks@.contains_key(k) ==> tasks@[k] == m0[k],
                forall|k: u128| #[trigger]
                    kept@.contains(k) <==> occurs_in(o, 0, i as int, k) && !is_expired(
                        m0[k]@,
                        now,
                        ttl,
                    ),
                kept@.no_duplicates(),
                removed <= i,
                tasks@.len() + removed == m0.len(),
            decreases n - i,
        {
            let id = order[i];
            proof {
                assert(o.contains(id));
                assert(m0.contains_key(id));
                lemma_occurs_front(o, i as int, n as int);
                assert(tasks@.contains_key(id));
                lemma_occurs_no_duplicate(o, i as int);
            }
            let expired = match tasks.get(&id) {
                Some(t) => {
                    let created = t.created_at();
                    if now >= created {
                        now - created >= ttl
                    } else {
                        ttl == 0
                    }
                },
                None => false,
            };
            let ghost kept0 = kept@;
            let ghost tasks0 = tasks@;
            if expired {
                tasks.remove(&id);
                removed = removed + 1;
                proof {
                    assert(tasks@ == tasks0.remove(id));
                    assert(tasks@.len() == tasks0.len() - 1);
                }
            } else {
                kept.push(id);
                proof {
                    lemma_push_contains(kept0, id);
                    lemma_push_no_duplicates(kept0, id);
                }
            }
            proof {
                lemma_occurs_back(o, 0, i as int);
            }
            i = i + 1;
        }
        proof {
            assert forall|k: u128| #[trigger] tasks@.contains_key(k) <==> kept@.contains(k) by {
                lemma_occurs_all(o, k);
            }
        }
        *self = TaskStore { tasks, order: kept, issued, default_ttl: ttl };
        assert(self@.tasks =~= swept(before.tasks, now, ttl));
        assert(self@.tasks.dom() =~= self.tasks@.dom());
        removed
    }
}

} // verus!
