//! Partitioning of work: batches of entries and byte ranges of one file.
use vstd::arithmetic::div_mod::lemma_div_is_ordered_by_denominator;
use vstd::prelude::*;

verus! {

/// The number of workers for `cpus` available processors: one fewer, and
/// at least one.
pub fn pool_size(cpus: usize) -> (r: usize)
    ensures
        r == if cpus > 1 {
            cpus - 1
        } else {
            1
        },
        r >= 1,
{
    if cpus > 1 {
        cpus - 1
    } else {
        1
    }
}

/// The size of each byte range: `file_size / pool` rounded up.
pub open spec fn chunk_len(file_size: int, pool: int) -> int {
    if file_size % pool == 0 {
        file_size / pool
    } else {
        file_size / pool + 1
    }
}

/// The ranges are non-empty, follow one another without gap or overlap, and
/// together cover `[0, file_size)`.
pub open spec fn tiles(ranges: Seq<(u64, u64)>, file_size: int) -> bool {
    &&& forall|k: int| 0 <= k < ranges.len() ==> (#[trigger] ranges[k]).0 < ranges[k].1
    &&& forall|k: int| 0 < k < ranges.len() ==> ranges[k - 1].1 == (#[trigger] ranges[k]).0
    &&& ranges.len() == 0 ==> file_size == 0
    &&& ranges.len() > 0 ==> ranges[0].0 == 0 && ranges.last().1 == file_size
}

proof fn lemma_chunks_reach_end(file_size: int, pool: int)
    requires
        pool > 0,
        file_size >= 0,
    ensures
        pool * chunk_len(file_size, pool) >= file_size,
        chunk_len(file_size, pool) <= file_size,
        file_size > 0 ==> chunk_len(file_size, pool) > 0,
{
    assert(file_size == pool * (file_size / pool) + file_size % pool) by (nonlinear_arith)
        requires
            pool > 0,
    ;
    assert(0 <= file_size % pool < pool) by (nonlinear_arith)
        requires
            pool > 0,
    ;
    assert(file_size / pool <= file_size) by (nonlinear_arith)
        requires
            pool > 0,
            file_size >= 0,
    ;
    if file_size % pool != 0 {
        assert(pool * (file_size / pool + 1) == pool * (file_size / pool) + pool) by (
        nonlinear_arith);
        if file_size / pool + 1 > file_size {
            assert(file_size / pool == file_size);
            assert(pool * file_size >= file_size) by (nonlinear_arith)
                requires
                    pool > 0,
                    file_size >= 0,
            ;
        }
    }
    if file_size > 0 && file_size % pool == 0 {
        let q = file_size / pool;
        if q == 0 {
            assert(pool * q == 0) by (nonlinear_arith)
                requires
                    q == 0,
            ;
        }
    }
}

/// The byte ranges of a file of `file_size` bytes for `pool` workers: ranges
/// of `file_size / pool` bytes rounded up, the last one possibly shorter, at
/// most `pool` of them and none for an empty file.
pub fn chunk_ranges(file_size: u64, pool: usize) -> (r: Vec<(u64, u64)>)
    requires
        pool > 0,
    ensures
        tiles(r@, file_size as int),
        r@.len() <= pool,
        forall|k: int|
            0 <= k < r@.len() ==> (#[trigger] r@[k]).0 == k * chunk_len(file_size as int, pool as int),
        forall|k: int|
            0 <= k < r@.len() ==> (#[trigger] r@[k]).1 - r@[k].0 <= chunk_len(
                file_size as int,
                pool as int,
            ),
{
    let p = pool as u64;
    let chunk: u64 = if file_size % p == 0 {
        file_size / p
    } else {
        proof {
            if p == 1 {
                assert(file_size as int % 1 == 0) by (nonlinear_arith);
            }
            lemma_div_is_ordered_by_denominator(file_size as int, 2, p as int);
        }
        file_size / p + 1
    };
    proof {
        lemma_chunks_reach_end(file_size as int, pool as int);
    }
    let ghost c = chunk_len(file_size as int, pool as int);
    let mut ranges: Vec<(u64, u64)> = Vec::new();
    let mut start: u64 = 0;
    let mut i: usize = 0;
    while i < pool
        invariant
            chunk as int == c,
            c <= file_size,
            file_size > 0 ==> c > 0,
            pool * c >= file_size,
            i <= pool,
            start <= file_size,
            start == file_size || start == i * c,
            ranges@.len() <= i,
            forall|k: int| 0 <= k < ranges@.len() ==> (#[trigger] ranges@[k]).0 == k * c,
            forall|k: int| 0 <= k < ranges@.len() ==> (#[trigger] ranges@[k]).1 - ranges@[k].0 <= c,
            forall|k: int| 0 <= k < ranges@.len() ==> (#[trigger] ranges@[k]).0 < ranges@[k].1,
            forall|k: int|
                0 < k < ranges@.len() ==> ranges@[k - 1].1 == (#[trigger] ranges@[k]).0,
            ranges@.len() == 0 ==> start == 0,
            ranges@.len() > 0 ==> ranges@[0].0 == 0 && ranges@.last().1 == start,
            start < file_size ==> ranges@.len() == i,
        ensures
            i == pool || start >= file_size,
        decreases pool - i,
    {
        if start >= file_size {
            break;
        }
        let end: u64 = if file_size - start < chunk {
            file_size
        } else {
            start + chunk
        };
        proof {
            assert(start == i * c);
            assert((i + 1) * c == i * c + c) by (nonlinear_arith);
        }
        ranges.push((start, end));
        start = end;
        i += 1;
    }
    proof {
        if start < file_size {
            assert(start == pool * c);
        }
    }
    ranges
}

/// The entries of `batches`, one batch after the other.
pub open spec fn concat_all<T>(batches: Seq<Seq<T>>) -> Seq<T>
    decreases batches.len(),
{
    if batches.len() == 0 {
        seq![]
    } else {
        concat_all(batches.drop_last()) + batches.last()
    }
}

/// Groups entries, as they come, into batches of a fixed capacity.
pub struct Batcher<T> {
    batch: Vec<T>,
    capacity: usize,
    pushed: Ghost<Seq<T>>,
    handed_out: Ghost<Seq<Seq<T>>>,
}

impl<T> Batcher<T> {
    /// The entries pushed since the last batch was handed out.
    pub closed spec fn pending(&self) -> Seq<T> {
        self.batch@
    }

    /// Every entry pushed so far.
    pub closed spec fn seen(&self) -> Seq<T> {
        self.pushed@
    }

    /// Every batch handed out so far.
    pub closed spec fn sent(&self) -> Seq<Seq<T>> {
        self.handed_out@
    }

    /// The capacity of a batch.
    pub closed spec fn capacity(&self) -> nat {
        self.capacity as nat
    }

    /// What was handed out, followed by what is pending, is what was pushed;
    /// every batch handed out is full, and the pending one is not.
    pub open spec fn wf(&self) -> bool {
        &&& self.capacity() > 0
        &&& self.pending().len() < self.capacity()
        &&& concat_all(self.sent()) + self.pending() == self.seen()
        &&& forall|k: int|
            0 <= k < self.sent().len() ==> (#[trigger] self.sent()[k]).len() == self.capacity()
    }

    /// An empty batcher whose batches hold `capacity` entries.
    pub fn new(capacity: usize) -> (r: Self)
        requires
            capacity > 0,
        ensures
            r.wf(),
            r.capacity() == capacity,
            r.pending() == Seq::<T>::empty(),
            r.seen() == Seq::<T>::empty(),
            r.sent() == Seq::<Seq<T>>::empty(),
    {
        let r = Batcher {
            batch: Vec::new(),
            capacity,
            pushed: Ghost(Seq::empty()),
            handed_out: Ghost(Seq::empty()),
        };
        assert(concat_all(r.sent()) + r.pending() =~= r.seen());
        r
    }

    /// Adds an entry; hands out the batch once it is full.
    pub fn push(&mut self, entry: T) -> (r: Option<Vec<T>>)
        requires
            old(self).wf(),
        ensures
            final(self).wf(),
            final(self).capacity() == old(self).capacity(),
            final(self).seen() == old(self).seen().push(entry),
            match r {
                Some(b) => b@ == old(self).pending().push(entry) && b@.len() == old(self).capacity()
                    && final(self).pending().len() == 0 && final(self).sent() == old(
                    self,
                ).sent().push(b@),
                None => final(self).pending() == old(self).pending().push(entry)
                    && final(self).sent() == old(self).sent(),
            },
    {
        let ghost before = self.batch@;
        self.batch.push(entry);
        self.pushed = Ghost(self.pushed@.push(entry));
        if self.batch.len() == self.capacity {
            let mut full: Vec<T> = Vec::new();
            core::mem::swap(&mut full, &mut self.batch);
            self.handed_out = Ghost(self.handed_out@.push(full@));
            proof {
                let s = self.sent();
                assert(s.drop_last() == old(self).sent());
                assert(concat_all(s) + self.pending() =~= self.seen());
            }
            Some(full)
        } else {
            assert(concat_all(self.sent()) + self.pending() =~= self.seen());
            None
        }
    }

    /// Hands out the last batch, if any entries are pending. Afterwards the
    /// batches handed out hold every entry pushed, each exactly once and in
    /// the order pushed.
    pub fn finish(&mut self) -> (r: Option<Vec<T>>)
        requires
            old(self).wf(),
        ensures
            final(self).seen() == old(self).seen(),
            final(self).pending().len() == 0,
            concat_all(final(self).sent()) == final(self).seen(),
            match r {
                Some(b) => b@ == old(self).pending() && b@.len() > 0 && final(self).sent() == old(
                    self,
                ).sent().push(b@),
                None => old(self).pending().len() == 0 && final(self).sent() == old(self).sent(),
            },
    {
        if self.batch.len() == 0 {
            assert(concat_all(self.sent()) =~= self.seen());
            None
        } else {
            let mut last: Vec<T> = Vec::new();
            core::mem::swap(&mut last, &mut self.batch);
            self.handed_out = Ghost(self.handed_out@.push(last@));
            proof {
                assert(self.sent().drop_last() == old(self).sent());
            }
            Some(last)
        }
    }
}

/// However entries are batched, the number of entries over all batches
/// handed out equals the number of entries pushed.
pub proof fn lemma_batches_count_entries<T>(b: Batcher<T>)
    requires
        b.pending().len() == 0,
        concat_all(b.sent()) == b.seen(),
    ensures
        total_len(b.sent()) == b.seen().len(),
{
    lemma_total_len(b.sent());
}

/// The sum of the lengths of the batches.
pub open spec fn total_len<T>(batches: Seq<Seq<T>>) -> int
    decreases batches.len(),
{
    if batches.len() == 0 {
        0
    } else {
        total_len(batches.drop_last()) + batches.last().len()
    }
}

proof fn lemma_total_len<T>(batches: Seq<Seq<T>>)
    ensures
        total_len(batches) == concat_all(batches).len(),
    decreases batches.len(),
{
    if batches.len() > 0 {
        lemma_total_len(batches.drop_last());
    }
}

} // verus!
