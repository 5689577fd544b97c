use vstd::prelude::*;

use crate::task::{
    after_set, after_take, elapsed, is_expired, set_applies, store_after_fetch,
    store_fetch_status, swept, take_result, task_wf, CellState, FetchStatus, TaskView,
};

verus! {

/// One step on a task's cells: a fill of a chunk, or a take of a chunk.
pub enum CellOp {
    Fill(int, Seq<u64>),
    Take(int),
}

/// The task after one step.
pub open spec fn apply_op(t: TaskView, op: CellOp) -> TaskView {
    match op {
        CellOp::Fill(i, d) => after_set(t, i, d),
        CellOp::Take(i) => after_take(t, i),
    }
}

/// The task after a run of steps, in order.
pub open spec fn apply_ops(t: TaskView, ops: Seq<CellOp>) -> TaskView
    decreases ops.len(),
{
    if ops.len() == 0 {
        t
    } else {
        apply_ops(apply_op(t, ops[0]), ops.drop_first())
    }
}

/// How many steps of a run hand out the payload of chunk `i`.
pub open spec fn deliveries(t: TaskView, ops: Seq<CellOp>, i: int) -> nat
    decreases ops.len(),
{
    if ops.len() == 0 {
        0
    } else {
        let here: nat = match ops[0] {
            CellOp::Take(j) => if j == i && take_result(t, i) is Some {
                1
            } else {
                0
            },
            _ => 0,
        };
        here + deliveries(apply_op(t, ops[0]), ops.drop_first(), i)
    }
}

/// Whether a run of steps holds a fill of chunk `i`.
pub open spec fn sets_chunk(ops: Seq<CellOp>, i: int) -> bool {
    exists|k: int| 0 <= k < ops.len() && (#[trigger] ops[k]) is Fill && ops[k]->Fill_0 == i
}

pub open spec fn may_deliver(t: TaskView, i: int) -> nat {
    if 0 <= i < t.cells.len() && !(t.cells[i] is Consumed) {
        1
    } else {
        0
    }
}

proof fn lemma_deliveries_bounded(t: TaskView, ops: Seq<CellOp>, i: int)
    ensures
        deliveries(t, ops, i) <= may_deliver(t, i),
    decreases ops.len(),
{
    if ops.len() > 0 {
        let t1 = apply_op(t, ops[0]);
        lemma_deliveries_bounded(t1, ops.drop_first(), i);
        match ops[0] {
            CellOp::Take(j) => {
                if j == i && take_result(t, i) is Some {
                    assert(t1.cells[i] is Consumed);
                }
            },
            CellOp::Fill(j, d) => {
                if set_applies(t, j) && j == i {
                    assert(t.cells[i] is Pending);
                }
            },
        }
    }
}

/// Take-once: over any run of fills and takes, by any number of callers, the
/// payload of a chunk is handed out at most once; once handed out, never again.
pub proof fn lemma_take_at_most_once(t: TaskView, ops: Seq<CellOp>, i: int)
    ensures
        deliveries(t, ops, i) <= 1,
        take_result(t, i) is Some ==> deliveries(after_take(t, i), ops, i) == 0,
{
    lemma_deliveries_bounded(t, ops, i);
    if take_result(t, i) is Some {
        lemma_deliveries_bounded(after_take(t, i), ops, i);
    }
}

/// A pending chunk stays pending, and yields nothing to a take, until a fill of
/// that chunk: no chunk is seen ready before it was set.
pub proof fn lemma_ready_only_after_set(t: TaskView, ops: Seq<CellOp>, i: int)
    requires
        0 <= i < t.cells.len(),
        t.cells[i] is Pending,
        !sets_chunk(ops, i),
    ensures
        apply_ops(t, ops).cells.len() == t.cells.len(),
        apply_ops(t, ops).cells[i] is Pending,
        take_result(apply_ops(t, ops), i) is None,
        deliveries(t, ops, i) == 0,
    decreases ops.len(),
{
    if ops.len() > 0 {
        let rest = ops.drop_first();
        assert(!sets_chunk(rest, i)) by {
            if sets_chunk(rest, i) {
                let k = choose|k: int|
                    0 <= k < rest.len() && (#[trigger] rest[k]) is Fill && rest[k]->Fill_0 == i;
                assert(ops[k + 1] == rest[k]);
            }
        }
        match ops[0] {
            CellOp::Fill(j, d) => {
                assert(j != i) by {
                    assert(ops[0] is Fill && ops[0]->Fill_0 == j);
                }
            },
            _ => {},
        }
        lemma_ready_only_after_set(apply_op(t, ops[0]), rest, i);
    }
}

/// After a fill of a pending chunk, a take hands out exactly the data filled in.
pub proof fn lemma_take_returns_set_data(t: TaskView, i: int, data: Seq<u64>)
    requires
        0 <= i < t.cells.len(),
        t.cells[i] is Pending,
    ensures
        take_result(after_set(t, i, data), i) == Some(data),
{
}

/// Identifiers are never given out twice. A registration succeeds only with an
/// identifier not yet issued and adds it to the issued ones. No operation ever
/// removes an issued identifier: sweeps and clears only remove tasks. So an
/// identifier issued earlier (`a`) differs from one issued later (`b`), even
/// when the task of `a` was swept in between. Both tasks stay reachable under
/// their own identifiers while live.
pub proof fn lemma_inserted_ids_distinct(
    issued0: Set<u128>,
    a: u128,
    issued1: Set<u128>,
    b: u128,
    m0: Map<u128, TaskView>,
    ta: TaskView,
    tb: TaskView,
)
    requires
        !issued0.contains(a),
        issued0.insert(a).subset_of(issued1),
        !issued1.contains(b),
    ensures
        a != b,
        m0.insert(a, ta).insert(b, tb)[a] == ta,
        m0.insert(a, ta).insert(b, tb)[b] == tb,
{
    assert(issued0.insert(a).contains(a));
}

/// A chunk index outside a live task's descriptor list is reported as unknown,
/// and leaves every cell as it was, whatever the task's age and whatever the
/// state of its chunks: the same
/// holds with any other cells and creation time in place of the task's own.
pub proof fn lemma_out_of_range_index(
    m: Map<u128, TaskView>,
    id: u128,
    index: int,
    cells: Seq<CellState>,
    created_at: u64,
)
    requires
        m.contains_key(id),
        task_wf(m[id]),
        index < 0 || index >= m[id].chunks.len(),
    ensures
        store_fetch_status(m, id, index) == FetchStatus::UnknownChunkIndex,
        store_after_fetch(m, id, index) == m,
        store_fetch_status(m.insert(id, TaskView { cells, created_at, ..m[id] }), id, index)
            == FetchStatus::UnknownChunkIndex,
{
}

/// An identifier that names no live task, whether never issued or already
/// swept, is reported as an unknown task, whatever chunk is asked for.
pub proof fn lemma_unknown_task(m: Map<u128, TaskView>, id: u128, index: int)
    requires
        !m.contains_key(id),
    ensures
        store_fetch_status(m, id, index) == FetchStatus::UnknownTask,
{
}

/// A sweep at `now` removes a task exactly when its age has reached the
/// time-to-live; afterwards every request for it reports an unknown task.
pub proof fn lemma_sweep_boundary(m: Map<u128, TaskView>, now: u64, ttl: u64, id: u128, index: int)
    requires
        m.contains_key(id),
    ensures
        swept(m, now, ttl).contains_key(id) <==> elapsed(now, m[id].created_at) < ttl,
        is_expired(m[id], now, ttl) ==> store_fetch_status(swept(m, now, ttl), id, index)
            == FetchStatus::UnknownTask,
{
}

} // verus!
