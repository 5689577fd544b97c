use vstd::prelude::*;

verus! {

/// One chunk of a flattened grid: the half-open element range `[start, end)`
/// at position `index` of a task's descriptor list.
#[derive(Clone, Copy, Debug, PartialEq, Eq, Structural)]
pub struct ChunkDescriptor {
    pub index: usize,
    pub start: usize,
    pub end: usize,
}

impl ChunkDescriptor {
    pub open spec fn len_spec(&self) -> int {
        self.end - self.start
    }
}

/// The chunk size actually used: a requested size of zero counts as one.
pub open spec fn effective_chunk_size(chunk_size: nat) -> nat {
    if chunk_size == 0 {
        1
    } else {
        chunk_size
    }
}

/// Number of chunks of `size` elements (the last possibly shorter) that cover `total` elements.
pub open spec fn chunk_count(total: nat, size: nat) -> nat
    recommends
        size > 0,
{
    if total == 0 || size == 0 {
        0
    } else {
        ((total - 1) as nat / size + 1) as nat
    }
}

/// Position in a layout of chunk size `size` of the chunk that holds element `e`.
pub open spec fn chunk_of(e: int, size: nat) -> int {
    e / size as int
}

pub open spec fn min_int(a: int, b: int) -> int {
    if a <= b {
        a
    } else {
        b
    }
}

/// `d` is the descriptor list for `total` elements split into chunks of the
/// (clamped) `chunk_size`: descriptor `i` covers `[i * size, min((i + 1) * size, total))`.
pub open spec fn is_chunk_layout(d: Seq<ChunkDescriptor>, total: nat, chunk_size: nat) -> bool {
    let size = effective_chunk_size(chunk_size);
    &&& d.len() == chunk_count(total, size)
    &&& forall|i: int|
        #![trigger d[i]]
        0 <= i < d.len() ==> {
            &&& d[i].index == i
            &&& d[i].start == i * size
            &&& d[i].end == min_int((i + 1) * size, total as int)
        }
}

proof fn lemma_chunk_count_bounds(total: nat, size: nat, i: nat)
    requires
        size > 0,
    ensures
        i < chunk_count(total, size) <==> i * size < total,
{
    if total > 0 {
        let c = chunk_count(total, size);
        let q = ((total - 1) as nat / size) as nat;
        assert(c == q + 1);
        assert(q * size <= total - 1) by (nonlinear_arith)
            requires
                q == ((total - 1) as nat / size) as nat,
                size > 0,
                total > 0,
        ;
        assert((q + 1) * size > total - 1) by (nonlinear_arith)
            requires
                q == ((total - 1) as nat / size) as nat,
                size > 0,
                total > 0,
        ;
        if i < c {
            assert(i * size <= q * size) by (nonlinear_arith)
                requires
                    i <= q,
            ;
        } else {
            assert(i * size >= (q + 1) * size) by (nonlinear_arith)
                requires
                    i >= q + 1,
            ;
        }
    }
}

/// Splits `[0, total_elements)` into consecutive chunks of `chunk_size` elements;
/// the last chunk holds the remainder. A `chunk_size` of zero is treated as one.
pub fn partition_chunks(total_elements: usize, chunk_size: usize) -> (r: Vec<ChunkDescriptor>)
    ensures
        is_chunk_layout(r@, total_elements as nat, chunk_size as nat),
{
    let size: usize = if chunk_size == 0 {
        1
    } else {
        chunk_size
    };
    let ghost sz = size as nat;
    let ghost total = total_elements as nat;
    let mut chunks: Vec<ChunkDescriptor> = Vec::new();
    let mut start: usize = 0;
    let mut index: usize = 0;
    proof {
        lemma_chunk_count_bounds(total, sz, 0);
    }
    while start < total_elements
        invariant
            sz == effective_chunk_size(chunk_size as nat),
            size == sz,
            total == total_elements as nat,
            start <= total_elements,
            index <= chunk_count(total, sz),
            start < total_elements ==> start == index * sz,
            start < total_elements <==> index < chunk_count(total, sz),
            chunks@.len() == index,
            forall|i: int|
                #![trigger chunks@[i]]
                0 <= i < index ==> {
                    &&& chunks@[i].index == i
                    &&& chunks@[i].start == i * sz
                    &&& chunks@[i].end == min_int((i + 1) * sz, total as int)
                },
        decreases total_elements - start,
    {
        let end: usize = if total_elements - start <= size {
            total_elements
        } else {
            start + size
        };
        let ghost i0 = index as int;
        proof {
            assert((i0 + 1) * sz == i0 * sz + sz) by (nonlinear_arith);
            assert(i0 <= i0 * sz) by (nonlinear_arith)
                requires
                    sz >= 1,
                    i0 >= 0,
            ;
        }
        assert(end == min_int((i0 + 1) * sz, total as int));
        chunks.push(ChunkDescriptor { index, start, end });
        assert(chunks@[i0] == ChunkDescriptor { index, start, end });
        start = end;
        index = index + 1;
        proof {
            lemma_chunk_count_bounds(total, sz, index as nat);
        }
    }
    chunks
}

/// The descriptors of a layout start at zero, follow one another without gap or
/// overlap, end at `total`, and each is non-empty and at most `chunk_size` long;
/// every one but the last is exactly `chunk_size` long, and the last holds the
/// remainder `total % chunk_size` (or a full chunk when that remainder is zero).
/// Every element `e < total` lies in descriptor `chunk_of(e, size)`, that is `e / size`.
pub proof fn lemma_layout_partitions(d: Seq<ChunkDescriptor>, total: nat, chunk_size: nat)
    requires
        is_chunk_layout(d, total, chunk_size),
    ensures
        ({
            let size = effective_chunk_size(chunk_size);
            &&& d.len() > 0 ==> d[0].start == 0 && d.last().end == total
            &&& forall|i: int| 0 <= i < d.len() - 1 ==> #[trigger] d[i].end == d[i + 1].start
            &&& forall|i: int, j: int|
                0 <= i < j < d.len() ==> #[trigger] d[i].end <= #[trigger] d[j].start
            &&& forall|i: int|
                0 <= i < d.len() ==> #[trigger] d[i].start < d[i].end && d[i].len_spec() <= size
            &&& forall|i: int| 0 <= i < d.len() - 1 ==> #[trigger] d[i].len_spec() == size
            &&& d.len() > 0 ==> d.last().len_spec() == (if total % size == 0 {
                size
            } else {
                total % size
            })
            &&& forall|e: int|
                0 <= e < total ==> {
                    let k = #[trigger] chunk_of(e, size);
                    &&& 0 <= k < d.len()
                    &&& d[k].start <= e < d[k].end
                }
        }),
{
    let size = effective_chunk_size(chunk_size);
    let n = d.len();
    assert forall|i: int| 0 <= i < n implies #[trigger] d[i].start < d[i].end && d[i].len_spec()
        <= size by {
        lemma_chunk_count_bounds(total, size, i as nat);
        assert((i + 1) * size == i * size + size) by (nonlinear_arith);
    }
    assert forall|i: int| 0 <= i < n - 1 implies #[trigger] d[i].end == d[i + 1].start by {
        lemma_chunk_count_bounds(total, size, (i + 1) as nat);
    }
    assert forall|i: int| 0 <= i < n - 1 implies #[trigger] d[i].len_spec() == size by {
        lemma_chunk_count_bounds(total, size, (i + 1) as nat);
        assert((i + 1) * size == i * size + size) by (nonlinear_arith);
    }
    assert forall|i: int, j: int| 0 <= i < j < n implies #[trigger] d[i].end <= #[trigger] d[
        j
    ].start by {
        assert((i + 1) * size <= j * size) by (nonlinear_arith)
            requires
                i < j,
        ;
    }
    if n > 0 {
        let l = n - 1;
        lemma_chunk_count_bounds(total, size, n as nat);
        lemma_chunk_count_bounds(total, size, l as nat);
        assert(d[0].start == 0 * size);
        assert(n == (total - 1) as nat / size + 1);
        let q = ((total - 1) as nat / size) as nat;
        assert(l == q);
        assert(total - 1 == q * size + (total - 1) as nat % size) by (nonlinear_arith)
            requires
                q == ((total - 1) as nat / size) as nat,
                size > 0,
                total > 0,
        ;
        assert((l + 1) * size == l * size + size) by (nonlinear_arith);
        assert(d.last().end == total);
        let r = ((total - 1) as nat % size) as nat;
        assert(r < size);
        assert(d.last().len_spec() == r + 1);
        if r + 1 == size {
            assert(total == (q + 1) * size) by (nonlinear_arith)
                requires
                    total - 1 == q * size + r,
                    r + 1 == size,
            ;
            assert(total % size == 0) by (nonlinear_arith)
                requires
                    total == (q + 1) * size,
                    size > 0,
            ;
        } else {
            assert(total % size == r + 1) by (nonlinear_arith)
                requires
                    total == q * size + r + 1,
                    r + 1 < size,
                    size > 0,
            ;
        }
    }
    assert forall|e: int| 0 <= e < total implies ({
        let k = #[trigger] chunk_of(e, size);
        &&& 0 <= k < d.len()
        &&& d[k].start <= e < d[k].end
    }) by {
        let k = e / size as int;
        assert(k * size <= e < (k + 1) * size && k >= 0) by (nonlinear_arith)
            requires
                k == e / size as int,
                size > 0,
                e >= 0,
        ;
        assert(k * size < total);
        lemma_chunk_count_bounds(total, size, k as nat);
    }
}

/// Zero elements give an empty descriptor list.
pub proof fn lemma_empty_layout(d: Seq<ChunkDescriptor>, chunk_size: nat)
    requires
        is_chunk_layout(d, 0, chunk_size),
    ensures
        d.len() == 0,
{
}

} // verus!
