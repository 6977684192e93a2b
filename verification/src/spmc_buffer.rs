//! The bookkeeping of a single-producer, multiple-consumer buffer pool.
//!
//! A pool holds `2 + readers` buffers. One shared 16-bit word, the *shared index*, names the
//! latest buffer published by the producer and counts the readers that acquired it:
//!
//! ```text
//!   bit (high-order first):       15 .. 10  9  8 .. 0
//!                                +--------+--+-------+
//!   Contents:                    |BUFFERID|OF|READCNT|
//!                                +--------+--+-------+
//! ```
//!
//! Each buffer also counts the readers that are done with it. The producer writes into a buffer
//! of its own, publishes it by swapping its id into the shared index, and then looks for a buffer
//! whose readers are all done to write into next. The atomic operations on the shared words are
//! made by the caller; the types here decide what to do with the values they give.

use vstd::prelude::*;
use vstd::multiset::Multiset;

verus! {

/// Mask of the reader count of a shared index.
pub const SHARED_READCOUNT_MASK: u16 = 0b0000_0001_1111_1111;

/// Bit set when the reader count of a shared index has overflowed.
pub const SHARED_OVERFLOW_BIT: u16 = 0b0000_0010_0000_0000;

/// Mask of the buffer id of a shared index.
pub const SHARED_INDEX_MASK: u16 = 0b1111_1100_0000_0000;

/// Weight of the buffer id in a shared index.
pub const SHARED_INDEX_MULTIPLIER: u16 = 0b0000_0100_0000_0000;

/// Most buffers a pool can have.
pub const MAX_BUFFERS: usize = 64;

/// Most read buffers a pool can have (beyond the two of the producer).
pub const MAX_READ_BUFFERS: usize = 62;

/// Reader count of the buffer that is currently published: "unknown", so that it is never taken
/// for a free buffer.
pub const INFINITE_REFCOUNT: u16 = 0xffff;

/// Initial shared index: buffer 0, with one reader.
pub const INITIAL_LATEST_INFO: u16 = 1;

/// Buffer id held by a shared index.
pub open spec fn info_buffer(info: u16) -> int {
    info as int / 1024
}

/// Reader count held by a shared index.
pub open spec fn info_readcount(info: u16) -> int {
    info as int % 512
}

/// The shared index that publishes `buffer` with no readers.
pub fn shared_index_of(buffer: u16) -> (info: u16)
    requires
        (buffer as int) < MAX_BUFFERS,
    ensures
        info == buffer * 1024,
        info_buffer(info) == buffer,
        info_readcount(info) == 0,
        info & SHARED_OVERFLOW_BIT == 0,
{
    let info = buffer * SHARED_INDEX_MULTIPLIER;
    assert(info & SHARED_OVERFLOW_BIT == 0) by (bit_vector)
        requires info == buffer * 1024, buffer < 64;
    info
}

/// The buffer id held by a shared index.
pub fn buffer_of_info(info: u16) -> (buffer: u16)
    ensures
        buffer == info_buffer(info),
        (buffer as int) < MAX_BUFFERS,
{
    let buffer = (info & SHARED_INDEX_MASK) / SHARED_INDEX_MULTIPLIER;
    assert(buffer == info / 1024) by (bit_vector)
        requires buffer == (info & 0xfc00) / 1024;
    buffer
}

/// The reader count held by a shared index.
pub fn readcount_of_info(info: u16) -> (count: u16)
    ensures
        count == info_readcount(info),
{
    let count = info & SHARED_READCOUNT_MASK;
    assert(count == info % 512) by (bit_vector)
        requires count == info & 0x1ff;
    count
}

/// The producer's side of a pool: how many readers each buffer that is no longer published had
/// when it was replaced, and the buffer the producer writes into.
pub struct Input {
    reader_counts: Vec<u16>,
    write_idx: u16,
}

/// A consumer's side of a pool: the buffer it reads.
pub struct Output {
    read_idx: u16,
}

/// The two sides of a new pool with `read_buffers` read buffers: buffer 0 starts out published
/// with one reader (see [`INITIAL_LATEST_INFO`]), and that reader is the first consumer; the
/// producer writes into buffer 1.
pub fn spmc_buffer(read_buffers: usize) -> (sides: (Input, Output))
    requires
        read_buffers <= MAX_READ_BUFFERS,
    ensures
        sides.0.wf(),
        sides.0.reader_counts() == Seq::new((2 + read_buffers) as nat, |i: int| 0u16),
        sides.0.write_index() == 1,
        sides.1.read_index() == info_buffer(INITIAL_LATEST_INFO),
        sides.1.read_index() == 0,
{
    // Compute the actual buffer count
    let num_buffers = 2 + read_buffers;
    let mut reader_counts: Vec<u16> = Vec::new();
    let mut i: usize = 0;
    while i < num_buffers
        invariant
            num_buffers == 2 + read_buffers,
            i <= num_buffers,
            reader_counts@ == Seq::new(i as nat, |k: int| 0u16),
        decreases num_buffers - i,
    {
        reader_counts.push(0);
        proof {
            assert(reader_counts@ =~= Seq::new((i + 1) as nat, |k: int| 0u16));
        }
        i += 1;
    }
    (Input { reader_counts, write_idx: 1 }, Output { read_idx: 0 })
}

impl Input {
    /// Reader counts of the buffers, by buffer id.
    pub closed spec fn reader_counts(self) -> Seq<u16> {
        self.reader_counts@
    }

    /// The buffer the producer writes into.
    pub closed spec fn write_index(self) -> int {
        self.write_idx as int
    }

    /// The pool has between 2 and 64 buffers and the producer writes into one of them.
    pub open spec fn wf(self) -> bool {
        &&& 2 <= self.reader_counts().len() <= MAX_BUFFERS
        &&& 0 <= self.write_index() < self.reader_counts().len()
    }

    /// The buffer the producer writes into.
    pub fn write_buffer(&self) -> (buffer: usize)
        ensures
            buffer == self.write_index(),
    {
        self.write_idx as usize
    }

    /// The shared index that publishes the producer's buffer.
    pub fn published_info(&self) -> (info: u16)
        requires
            self.wf(),
        ensures
            info == self.write_index() * 1024,
            info_buffer(info) == self.write_index(),
            info_readcount(info) == 0,
            info & SHARED_OVERFLOW_BIT == 0,
    {
        shared_index_of(self.write_idx)
    }

    /// Records the shared index that publishing replaced: the buffer it named keeps the reader
    /// count it had, and the buffer just published gets the "unknown" count.
    pub fn record_replaced(&mut self, former_latest_info: u16)
        requires
            old(self).wf(),
            info_buffer(former_latest_info) < old(self).reader_counts().len(),
        ensures
            final(self).wf(),
            final(self).write_index() == old(self).write_index(),
            final(self).reader_counts() == old(self).reader_counts().update(
                info_buffer(former_latest_info),
                info_readcount(former_latest_info) as u16,
            ).update(old(self).write_index(), INFINITE_REFCOUNT),
    {
        let former_idx = buffer_of_info(former_latest_info);
        let former_readcount = readcount_of_info(former_latest_info);
        self.reader_counts.set(former_idx as usize, former_readcount);
        let write_idx = self.write_idx as usize;
        self.reader_counts.set(write_idx, INFINITE_REFCOUNT);
    }

    /// Chooses the first buffer whose readers are all done (its recorded reader count equals
    /// its count of done readers, `done_readers`) to write into next; reports whether there was
    /// one. When there is none the producer keeps its buffer.
    pub fn select_write_buffer(&mut self, done_readers: &Vec<u16>) -> (found: bool)
        requires
            old(self).wf(),
        ensures
            final(self).wf(),
            final(self).reader_counts() == old(self).reader_counts(),
            found ==> {
                let w = final(self).write_index();
                &&& w < done_readers@.len()
                &&& old(self).reader_counts()[w] == done_readers@[w]
                &&& forall|q: int|
                    0 <= q < w ==> old(self).reader_counts()[q] != done_readers@[q]
            },
            !found ==> {
                &&& final(self).write_index() == old(self).write_index()
                &&& forall|q: int|
                    0 <= q < old(self).reader_counts().len() && q < done_readers@.len()
                        ==> old(self).reader_counts()[q] != done_readers@[q]
            },
            // The buffer just published carries the "unknown" count, so it is not picked again
            // while no buffer has been left by that many readers.
            found && old(self).reader_counts()[old(self).write_index()] == INFINITE_REFCOUNT
                && (forall|q: int| 0 <= q < done_readers@.len() ==> done_readers@[q] != INFINITE_REFCOUNT)
                ==> final(self).write_index() != old(self).write_index(),
    {
        let mut i: usize = 0;
        while i < self.reader_counts.len() && i < done_readers.len()
            invariant
                self.wf(),
                self.reader_counts@ == old(self).reader_counts@,
                self.write_idx == old(self).write_idx,
                i <= self.reader_counts@.len(),
                forall|q: int| 0 <= q < i ==> self.reader_counts@[q] != done_readers@[q],
            decreases self.reader_counts@.len() - i,
        {
            if self.reader_counts[i] == done_readers[i] {
                self.write_idx = i as u16;
                return true;
            }
            i += 1;
        }
        false
    }
}

impl Output {
    /// The buffer the consumer reads.
    pub closed spec fn read_index(self) -> int {
        self.read_idx as int
    }

    /// A consumer that acquired the buffer published by `latest_info` (the value of the shared
    /// index before the consumer added itself to its reader count).
    pub fn acquired(latest_info: u16) -> (output: Output)
        ensures
            output.read_index() == info_buffer(latest_info),
            output.read_index() < MAX_BUFFERS,
    {
        Output { read_idx: buffer_of_info(latest_info) }
    }

    /// The buffer the consumer reads.
    pub fn read_buffer(&self) -> (buffer: usize)
        ensures
            buffer == self.read_index(),
    {
        self.read_idx as usize
    }

    /// Whether the shared index `latest_info` publishes a buffer other than the one read.
    pub fn updated(&self, latest_info: u16) -> (is_updated: bool)
        requires
            self.read_index() < MAX_BUFFERS,
        ensures
            is_updated == (info_buffer(latest_info) != self.read_index()),
    {
        let published = latest_info & SHARED_INDEX_MASK;
        let read_idx = self.read_idx;
        assert(published == (latest_info / 1024) * 1024) by (bit_vector)
            requires published == latest_info & 0xfc00;
        published != read_idx * SHARED_INDEX_MULTIPLIER
    }

    /// Moves the consumer to the buffer published by `latest_info` (the value of the shared index
    /// before the consumer added itself to its reader count); returns the buffer it is done with.
    pub fn switch_to(&mut self, latest_info: u16) -> (done_with: usize)
        ensures
            done_with == old(self).read_index(),
            final(self).read_index() == info_buffer(latest_info),
            final(self).read_index() < MAX_BUFFERS,
    {
        let done_with = self.read_idx as usize;
        self.read_idx = buffer_of_info(latest_info);
        done_with
    }
}

/// A shared index names the buffer it was made from, with no readers; adding readers up to the
/// count's capacity leaves the buffer it names unchanged.
pub proof fn lemma_shared_index_roundtrip(buffer: u16, readers: u16)
    requires
        (buffer as int) < MAX_BUFFERS,
        readers < 512,
    ensures
        info_buffer((buffer * 1024) as u16) == buffer,
        info_readcount((buffer * 1024) as u16) == 0,
        info_buffer((buffer * 1024 + readers) as u16) == buffer,
        info_readcount((buffer * 1024 + readers) as u16) == readers,
{
}

/// The state of a whole pool as the producer and the consumers see it: the shared index, each
/// buffer's count of readers that are done with it, the producer's side, and the buffers that
/// the live consumers read (one entry per consumer).
pub struct PoolModel {
    pub latest_info: u16,
    pub done_readers: Seq<u16>,
    pub input: Input,
    pub readers: Multiset<int>,
}

impl PoolModel {
    /// The buffer the shared index publishes.
    pub open spec fn latest(self) -> int {
        info_buffer(self.latest_info)
    }

    /// The producer has published its buffer and not yet found a new one to write into.
    pub open spec fn publishing(self) -> bool {
        self.input.write_index() == self.latest()
    }

    /// How many live consumers the bookkeeping accounts for on buffer `b`: for the published
    /// buffer, those that acquired it and are not done with it; for the producer's own buffer,
    /// none; for any other buffer, those it had when it was replaced and are not done with it.
    pub open spec fn accounted_readers(self, b: int) -> int {
        if b == self.latest() {
            info_readcount(self.latest_info) - self.done_readers[b]
        } else if b == self.input.write_index() {
            0
        } else {
            self.input.reader_counts()[b] - self.done_readers[b]
        }
    }

    /// The invariant of the pool: the shared index names one of its buffers and its reader
    /// count has not overflowed, the producer's buffer differs from the published one unless it
    /// is publishing (and then it carries the "unknown" reader count), and every buffer is read
    /// by exactly as many live consumers as the bookkeeping accounts for.
    pub open spec fn inv(self) -> bool {
        let n = self.input.reader_counts().len();
        &&& self.input.wf()
        &&& self.done_readers.len() == n
        &&& self.latest() < n
        &&& self.latest_info % 1024 < 512
        &&& self.publishing() ==> self.input.reader_counts()[self.input.write_index()]
            == INFINITE_REFCOUNT
        &&& forall|b: int| 0 <= b < n ==> #[trigger] self.readers.count(b) == self.accounted_readers(b)
        &&& forall|b: int| #[trigger] self.readers.count(b) > 0 ==> 0 <= b < n
    }

    /// The pool after the producer publishes its buffer: it resets that buffer's count of done
    /// readers, swaps `published` (what [`Input::published_info`] gives) into the shared index,
    /// and records the replaced index with [`Input::record_replaced`], which gives `input`.
    pub open spec fn published(self, published: u16, input: Input) -> PoolModel {
        PoolModel {
            latest_info: published,
            done_readers: self.done_readers.update(self.input.write_index(), 0),
            input,
            readers: self.readers,
        }
    }

    /// The pool after a consumer acquires the published buffer (adding itself to the shared
    /// index's reader count) and starts reading it.
    pub open spec fn acquired(self) -> PoolModel {
        PoolModel {
            latest_info: (self.latest_info + 1) as u16,
            readers: self.readers.insert(self.latest()),
            ..self
        }
    }

    /// The pool after a consumer reading buffer `r` is done with it.
    pub open spec fn released(self, r: int) -> PoolModel {
        PoolModel {
            done_readers: self.done_readers.update(r, (self.done_readers[r] + 1) as u16),
            readers: self.readers.remove(r),
            ..self
        }
    }
}

/// A new pool, as [`spmc_buffer`] makes it, holds the invariant: buffer 0 is published with its
/// one reader, the first consumer, and the producer's buffer 1 has no reader.
pub proof fn lemma_pool_starts(read_buffers: int, input: Input, output: Output)
    requires
        read_buffers <= MAX_READ_BUFFERS,
        input.wf(),
        input.reader_counts() == Seq::new((2 + read_buffers) as nat, |i: int| 0u16),
        input.write_index() == 1,
        output.read_index() == 0,
    ensures
        (PoolModel {
            latest_info: INITIAL_LATEST_INFO,
            done_readers: Seq::new((2 + read_buffers) as nat, |i: int| 0u16),
            input,
            readers: Multiset::singleton(output.read_index()),
        }).inv(),
{
}

/// Publishing keeps the invariant: the producer's buffer had no reader, so it is published with
/// none, and the replaced buffer keeps the readers that its recorded count accounts for.
pub proof fn lemma_pool_publish(pool: PoolModel, published: u16, input: Input)
    requires
        pool.inv(),
        !pool.publishing(),
        published == pool.input.write_index() * 1024,
        input.wf(),
        input.write_index() == pool.input.write_index(),
        input.reader_counts() == pool.input.reader_counts().update(
            info_buffer(pool.latest_info),
            info_readcount(pool.latest_info) as u16,
        ).update(pool.input.write_index(), INFINITE_REFCOUNT),
    ensures
        pool.published(published, input).inv(),
        pool.published(published, input).publishing(),
{
    let next = pool.published(published, input);
    let w = pool.input.write_index();
    lemma_shared_index_roundtrip(w as u16, 0);
    assert(next.latest() == w);
    assert forall|b: int| 0 <= b < input.reader_counts().len() implies #[trigger] next.readers.count(b)
        == next.accounted_readers(b) by {
        assert(pool.readers.count(b) == pool.accounted_readers(b));
    }
}

/// Choosing a new buffer keeps the invariant, and the buffer chosen by
/// [`Input::select_write_buffer`] (`input`, when it found one in `done_readers`, the counts of
/// done readers it was given) is read by no live consumer and is not the published buffer.
pub proof fn lemma_pool_select(pool: PoolModel, input: Input, found: bool)
    requires
        pool.inv(),
        pool.publishing(),
        input.wf(),
        input.reader_counts() == pool.input.reader_counts(),
        found ==> {
            let w = input.write_index();
            &&& w < pool.done_readers.len()
            &&& pool.input.reader_counts()[w] == pool.done_readers[w]
        },
        !found ==> input.write_index() == pool.input.write_index(),
    ensures
        (PoolModel { input, ..pool }).inv(),
        found ==> !(PoolModel { input, ..pool }).publishing(),
        found ==> pool.readers.count(input.write_index()) == 0,
{
    let next = PoolModel { input, ..pool };
    let l = pool.latest();
    assert(pool.readers.count(l) == pool.accounted_readers(l));
    if found {
        let w = input.write_index();
        assert(pool.readers.count(w) == pool.accounted_readers(w));
        assert(w != l);
        assert forall|b: int| 0 <= b < input.reader_counts().len() implies #[trigger] next.readers.count(b)
            == next.accounted_readers(b) by {
            assert(pool.readers.count(b) == pool.accounted_readers(b));
        }
    }
}

/// A consumer acquiring the published buffer keeps the invariant, as long as the shared index's
/// reader count does not overflow. The buffer it reads is the one [`Output::acquired`] and
/// [`Output::switch_to`] give for the shared index it read.
pub proof fn lemma_pool_acquire(pool: PoolModel)
    requires
        pool.inv(),
        info_readcount(pool.latest_info) < SHARED_READCOUNT_MASK,
    ensures
        pool.acquired().inv(),
        pool.acquired().latest() == pool.latest(),
        pool.acquired().publishing() == pool.publishing(),
{
    let next = pool.acquired();
    assert(next.latest_info == pool.latest_info + 1);
    assert(next.latest() == pool.latest());
    assert(info_readcount(next.latest_info) == info_readcount(pool.latest_info) + 1);
    assert forall|b: int| 0 <= b < pool.input.reader_counts().len() implies #[trigger] next.readers.count(b)
        == next.accounted_readers(b) by {
        assert(pool.readers.count(b) == pool.accounted_readers(b));
    }
    assert forall|b: int| #[trigger] next.readers.count(b) > 0 implies 0 <= b < pool.input.reader_counts().len() by {
        if b != pool.latest() {
            assert(next.readers.count(b) == pool.readers.count(b));
        }
    }
}

/// A consumer that reads buffer `r` and is done with it keeps the invariant.
pub proof fn lemma_pool_release(pool: PoolModel, r: int)
    requires
        pool.inv(),
        pool.readers.count(r) > 0,
    ensures
        pool.released(r).inv(),
        pool.released(r).latest() == pool.latest(),
        pool.released(r).publishing() == pool.publishing(),
{
    let next = pool.released(r);
    assert(pool.readers.count(r) == pool.accounted_readers(r));
    assert(next.done_readers[r] == pool.done_readers[r] + 1);
    assert forall|b: int| 0 <= b < pool.input.reader_counts().len() implies #[trigger] next.readers.count(b)
        == next.accounted_readers(b) by {
        assert(pool.readers.count(b) == pool.accounted_readers(b));
    }
    assert forall|b: int| #[trigger] next.readers.count(b) > 0 implies 0 <= b < pool.input.reader_counts().len() by {
        assert(next.readers.count(b) <= pool.readers.count(b));
    }
}

/// A consumer reading buffer `r` that moves to the published buffer (it acquires it, then is
/// done with `r`, as [`Output::switch_to`] reports) keeps the invariant.
pub proof fn lemma_pool_switch(pool: PoolModel, r: int)
    requires
        pool.inv(),
        pool.readers.count(r) > 0,
        info_readcount(pool.latest_info) < SHARED_READCOUNT_MASK,
    ensures
        pool.acquired().released(r).inv(),
        pool.acquired().released(r).publishing() == pool.publishing(),
{
    lemma_pool_acquire(pool);
    assert(pool.acquired().readers.count(r) >= pool.readers.count(r));
    lemma_pool_release(pool.acquired(), r);
}

/// The producer's buffer is private: while the producer writes into it (it is not publishing),
/// no live consumer reads it and it is not the published buffer.
pub proof fn lemma_pool_write_buffer_private(pool: PoolModel)
    requires
        pool.inv(),
        !pool.publishing(),
    ensures
        pool.readers.count(pool.input.write_index()) == 0,
        pool.input.write_index() != pool.latest(),
{
    assert(pool.readers.count(pool.input.write_index()) == pool.accounted_readers(pool.input.write_index()));
}

} // verus!
