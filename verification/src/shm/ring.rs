//! The single-producer single-consumer ring over a segment: its layout,
//! the checks on create and attach, and the producer's and consumer's
//! cursors. Positions are free-running `u64` counters; a slot is the
//! position masked by the power-of-two capacity.
use vstd::prelude::*;
use vstd::arithmetic::power2::{pow2, lemma_pow2_adds, lemma_pow2_pos, lemma2_to64};
use vstd::arithmetic::div_mod::{lemma_fundamental_div_mod, lemma_mod_mod, lemma_add_mod_noop};
use vstd::bits::{lemma_u64_shl_is_mul, lemma_u64_low_bits_mask_is_mod, lemma_u64_pow2_no_overflow};
use crate::shm::error::ShmError;
use crate::shm::pod::Pod;

verus! {

/// Offset of the tail counter in the payload.
pub const TAIL_OFFSET: usize = 0;

/// Offset of the head counter, a cache line after the tail.
pub const HEAD_OFFSET: usize = 64;

/// Offset of the stored capacity.
pub const CAP_OFFSET: usize = 128;

/// Offset of the stored element size.
pub const ELEM_SIZE_OFFSET: usize = 136;

/// Offset of the first slot.
pub const DATA_OFFSET: usize = 192;

/// Positions wrap at this modulus.
pub open spec fn wrap() -> nat {
    0x1_0000_0000_0000_0000
}

/// `c` is a power of two a `u64` holds.
pub open spec fn is_pow2(c: int) -> bool {
    exists|k: nat| k < 64 && c == pow2(k)
}

/// Whether `c` is a power of two.
pub fn is_power_of_two(c: u64) -> (r: bool)
    ensures
        r == is_pow2(c as int),
{
    let mut k: u64 = 0;
    while k < 64
        invariant
            k <= 64,
            forall|j: nat| j < k ==> pow2(j) != c,
        decreases 64 - k,
    {
        proof {
            lemma_u64_pow2_no_overflow(k as nat);
            lemma_u64_shl_is_mul(1, k);
        }
        if (1u64 << k) == c {
            assert(c == pow2(k as nat));
            return true;
        }
        k = k + 1;
    }
    false
}

/// The exponent of a power of two.
spec fn log2_of(c: int) -> nat
    recommends
        is_pow2(c),
{
    choose|k: nat| k < 64 && c == pow2(k)
}

/// Masking with `c - 1` is taking the remainder by a power of two `c`.
proof fn lemma_mask_is_mod(x: u64, c: u64)
    requires
        is_pow2(c as int),
    ensures
        c > 0,
        x & ((c - 1) as u64) == x % c,
{
    let k = log2_of(c as int);
    lemma_pow2_pos(k);
    lemma_u64_low_bits_mask_is_mod(x, k);
}

/// A power-of-two capacity divides the wrap modulus.
proof fn lemma_pow2_divides_wrap(c: int, x: int)
    requires
        is_pow2(c),
    ensures
        c > 0,
        (x % (wrap() as int)) % c == x % c,
{
    let k = log2_of(c);
    lemma_pow2_pos(k);
    lemma_pow2_pos((64 - k) as nat);
    lemma_pow2_adds(k, (64 - k) as nat);
    lemma2_to64();
    lemma_mod_mod(x, c, pow2((64 - k) as nat) as int);
}

/// The distance between two positions, when less than the modulus, is the
/// wrapping difference of their stored values.
proof fn lemma_wrapping_distance(x: nat, y: nat)
    requires
        y <= x < y + wrap(),
    ensures
        ((x % wrap()) as u64).wrapping_sub((y % wrap()) as u64) == x - y,
{
    let w = wrap() as int;
    lemma_fundamental_div_mod(x as int, w);
    lemma_fundamental_div_mod(y as int, w);
    let qx = x as int / w;
    let qy = y as int / w;
    let rx = x as int % w;
    let ry = y as int % w;
    assert(0 <= rx < w && 0 <= ry < w);
    assert(qx == qy || qx == qy + 1) by (nonlinear_arith)
        requires
            x == w * qx + rx,
            y == w * qy + ry,
            0 <= rx < w,
            0 <= ry < w,
            y <= x < y + w,
    ;
    if qx == qy {
        assert(x - y == rx - ry) by (nonlinear_arith)
            requires
                x == w * qx + rx,
                y == w * qy + ry,
                qx == qy,
        ;
    } else {
        assert(x - y == rx - ry + w) by (nonlinear_arith)
            requires
                x == w * qx + rx,
                y == w * qy + ry,
                qx == qy + 1,
        ;
    }
}

/// Incrementing a stored position stores the next position.
proof fn lemma_wrapping_next(x: nat)
    ensures
        ((x % wrap()) as u64).wrapping_add(1) == (x + 1) % wrap(),
{
    lemma_add_mod_noop(x as int, 1, wrap() as int);
    assert(1int % (wrap() as int) == 1);
}

/// Payload bytes a ring of `capacity` slots of `elem_size` bytes needs:
/// the header words, then the slots; `SizeOverflow` when that does not fit.
pub fn ring_data_len(capacity: usize, elem_size: usize) -> (r: Result<usize, ShmError>)
    ensures
        r is Ok <==> capacity * elem_size + DATA_OFFSET <= usize::MAX,
        r matches Ok(n) ==> n == capacity * elem_size + DATA_OFFSET,
        r is Err ==> (r matches Err(ShmError::SizeOverflow)),
{
    match capacity.checked_mul(elem_size) {
        Some(s) => match s.checked_add(DATA_OFFSET) {
            Some(n) => Ok(n),
            None => Err(ShmError::SizeOverflow),
        },
        None => {
            proof {
                assert(capacity * elem_size + DATA_OFFSET > usize::MAX);
            }
            Err(ShmError::SizeOverflow)
        },
    }
}

/// Checks the header words a reader finds: the capacity must be a power of
/// two and the element size the reader's.
pub fn check_ring_header(capacity: u64, elem_size: u64, expected_elem_size: usize) -> (r: Result<
    (),
    ShmError,
>)
    ensures
        !is_pow2(capacity as int) ==> (r matches Err(ShmError::CorruptHeader)),
        is_pow2(capacity as int) && elem_size as usize != expected_elem_size ==> (r matches Err(
            ShmError::ElemSizeMismatch { written, expected },
        ) && written == elem_size as usize && expected == expected_elem_size),
        r is Ok <==> is_pow2(capacity as int) && elem_size as usize == expected_elem_size,
{
    if !is_power_of_two(capacity) || capacity == 0 {
        proof {
            if capacity == 0 && is_pow2(0) {
                let k = log2_of(0);
                lemma_pow2_pos(k);
            }
        }
        return Err(ShmError::CorruptHeader);
    }
    let written = elem_size as usize;
    if written != expected_elem_size {
        return Err(ShmError::ElemSizeMismatch { written, expected: expected_elem_size });
    }
    Ok(())
}

/// The producer's cursor: its own tail and the last head it saw.
pub struct WriterCursor {
    local_tail: u64,
    cached_head: u64,
    capacity: u64,
    mask: u64,
}

/// The consumer's cursor: its own head and the last tail it saw.
pub struct ReaderCursor {
    local_head: u64,
    cached_tail: u64,
    capacity: u64,
    mask: u64,
}

impl WriterCursor {
    pub closed spec fn spec_tail(&self) -> u64 {
        self.local_tail
    }

    pub closed spec fn spec_cached_head(&self) -> u64 {
        self.cached_head
    }

    pub closed spec fn spec_capacity(&self) -> u64 {
        self.capacity
    }

    pub closed spec fn wf(&self) -> bool {
        is_pow2(self.capacity as int) && self.mask == self.capacity - 1
    }

    /// A cursor at position zero.
    pub fn new(capacity: u64) -> (w: Self)
        requires
            is_pow2(capacity as int),
        ensures
            w.wf(),
            w.spec_tail() == 0,
            w.spec_cached_head() == 0,
            w.spec_capacity() == capacity,
    {
        proof {
            lemma_mask_is_mod(0, capacity);
        }
        WriterCursor { local_tail: 0, cached_head: 0, capacity, mask: capacity - 1 }
    }

    /// Whether the last head seen leaves no free slot.
    pub fn full_by_cache(&self) -> (r: bool)
        ensures
            r == (self.spec_tail().wrapping_sub(self.spec_cached_head()) >= self.spec_capacity()),
    {
        self.local_tail.wrapping_sub(self.cached_head) >= self.capacity
    }

    /// Records the head the consumer published.
    pub fn observe_head(&mut self, head: u64)
        ensures
            final(self).spec_cached_head() == head,
            final(self).spec_tail() == old(self).spec_tail(),
            final(self).spec_capacity() == old(self).spec_capacity(),
            old(self).wf() ==> final(self).wf(),
    {
        self.cached_head = head;
    }

    /// The slot the next item goes to.
    pub fn slot(&self) -> (r: u64)
        requires
            self.wf(),
        ensures
            r == self.spec_tail() % self.spec_capacity(),
            r < self.spec_capacity(),
    {
        proof {
            lemma_mask_is_mod(self.local_tail, self.capacity);
        }
        self.local_tail & self.mask
    }

    /// Moves past the slot just written; returns the tail to publish.
    pub fn advance(&mut self) -> (r: u64)
        ensures
            r == old(self).spec_tail().wrapping_add(1),
            final(self).spec_tail() == r,
            final(self).spec_cached_head() == old(self).spec_cached_head(),
            final(self).spec_capacity() == old(self).spec_capacity(),
            old(self).wf() ==> final(self).wf(),
    {
        self.local_tail = self.local_tail.wrapping_add(1);
        self.local_tail
    }

    pub fn local_tail(&self) -> (r: u64)
        ensures
            r == self.spec_tail(),
    {
        self.local_tail
    }

    pub fn capacity(&self) -> (r: u64)
        ensures
            r == self.spec_capacity(),
    {
        self.capacity
    }
}

impl ReaderCursor {
    pub closed spec fn spec_head(&self) -> u64 {
        self.local_head
    }

    pub closed spec fn spec_cached_tail(&self) -> u64 {
        self.cached_tail
    }

    pub closed spec fn spec_capacity(&self) -> u64 {
        self.capacity
    }

    pub closed spec fn wf(&self) -> bool {
        is_pow2(self.capacity as int) && self.mask == self.capacity - 1
    }

    /// A cursor at position zero.
    pub fn new(capacity: u64) -> (c: Self)
        requires
            is_pow2(capacity as int),
        ensures
            c.wf(),
            c.spec_head() == 0,
            c.spec_cached_tail() == 0,
            c.spec_capacity() == capacity,
    {
        proof {
            lemma_mask_is_mod(0, capacity);
        }
        ReaderCursor { local_head: 0, cached_tail: 0, capacity, mask: capacity - 1 }
    }

    /// Whether the last tail seen leaves nothing to read.
    pub fn empty_by_cache(&self) -> (r: bool)
        ensures
            r == (self.spec_head() == self.spec_cached_tail()),
    {
        self.local_head == self.cached_tail
    }

    /// Records the tail the producer published.
    pub fn observe_tail(&mut self, tail: u64)
        ensures
            final(self).spec_cached_tail() == tail,
            final(self).spec_head() == old(self).spec_head(),
            final(self).spec_capacity() == old(self).spec_capacity(),
            old(self).wf() ==> final(self).wf(),
    {
        self.cached_tail = tail;
    }

    /// The slot the next item is read from.
    pub fn slot(&self) -> (r: u64)
        requires
            self.wf(),
        ensures
            r == self.spec_head() % self.spec_capacity(),
            r < self.spec_capacity(),
    {
        proof {
            lemma_mask_is_mod(self.local_head, self.capacity);
        }
        self.local_head & self.mask
    }

    /// Moves past the slot just read; returns the head to publish.
    pub fn advance(&mut self) -> (r: u64)
        ensures
            r == old(self).spec_head().wrapping_add(1),
            final(self).spec_head() == r,
            final(self).spec_cached_tail() == old(self).spec_cached_tail(),
            final(self).spec_capacity() == old(self).spec_capacity(),
            old(self).wf() ==> final(self).wf(),
    {
        self.local_head = self.local_head.wrapping_add(1);
        self.local_head
    }

    pub fn local_head(&self) -> (r: u64)
        ensures
            r == self.spec_head(),
    {
        self.local_head
    }

    pub fn capacity(&self) -> (r: u64)
        ensures
            r == self.spec_capacity(),
    {
        self.capacity
    }
}

/// A ring with both ends in one place: the shared slots and published
/// counters, and each side's cursor, driven exactly as the two processes
/// drive them.
pub struct SpscRing<T> {
    slots: Vec<T>,
    head: u64,
    tail: u64,
    writer: WriterCursor,
    reader: ReaderCursor,
    pushed: Ghost<nat>,
    popped: Ghost<nat>,
    seen_head: Ghost<nat>,
    seen_tail: Ghost<nat>,
    /// Every value a push accepted, in order.
    accepted: Ghost<Seq<T>>,
    /// Every value a pop returned, in order.
    delivered: Ghost<Seq<T>>,
}

impl<T: Pod> SpscRing<T> {
    pub closed spec fn wf(&self) -> bool {
        let cap = self.writer.capacity as int;
        &&& self.writer.wf()
        &&& self.reader.wf()
        &&& self.reader.capacity == self.writer.capacity
        &&& self.slots@.len() == cap
        &&& cap <= usize::MAX
        &&& self.popped@ <= self.pushed@ <= self.popped@ + cap
        &&& self.seen_head@ <= self.popped@
        &&& self.pushed@ <= self.seen_head@ + cap
        &&& self.popped@ <= self.seen_tail@ <= self.pushed@
        &&& self.tail == self.pushed@ % wrap()
        &&& self.head == self.popped@ % wrap()
        &&& self.writer.local_tail == self.tail
        &&& self.reader.local_head == self.head
        &&& self.writer.cached_head == self.seen_head@ % wrap()
        &&& self.reader.cached_tail == self.seen_tail@ % wrap()
        &&& self.accepted@.len() == self.pushed@
        &&& self.delivered@ == self.accepted@.take(self.popped@ as int)
        &&& self.view() == self.accepted@.subrange(self.popped@ as int, self.pushed@ as int)
    }

    /// Every value a push accepted, in order.
    pub closed spec fn accepted(&self) -> Seq<T> {
        self.accepted@
    }

    /// Every value a pop returned, in order.
    pub closed spec fn delivered(&self) -> Seq<T> {
        self.delivered@
    }

    pub closed spec fn spec_capacity(&self) -> nat {
        self.writer.capacity as nat
    }

    /// The queued items, oldest first.
    pub closed spec fn view(&self) -> Seq<T> {
        Seq::new(
            (self.pushed@ - self.popped@) as nat,
            |i: int| self.slots@[((self.popped@ + i) % (self.writer.capacity as int))],
        )
    }

    /// An empty ring of `capacity` slots, each holding `fill`.
    pub fn new(capacity: usize, fill: T) -> (r: Self)
        requires
            is_pow2(capacity as int),
        ensures
            r.wf(),
            r.view() == Seq::<T>::empty(),
            r.spec_capacity() == capacity,
            r.accepted() == Seq::<T>::empty(),
            r.delivered() == Seq::<T>::empty(),
    {
        let mut slots: Vec<T> = Vec::new();
        let mut i: usize = 0;
        while i < capacity
            invariant
                i <= capacity,
                slots@.len() == i,
            decreases capacity - i,
        {
            slots.push(fill);
            i = i + 1;
        }
        let r = SpscRing {
            slots,
            head: 0,
            tail: 0,
            writer: WriterCursor::new(capacity as u64),
            reader: ReaderCursor::new(capacity as u64),
            pushed: Ghost(0),
            popped: Ghost(0),
            seen_head: Ghost(0),
            seen_tail: Ghost(0),
            accepted: Ghost(Seq::empty()),
            delivered: Ghost(Seq::empty()),
        };
        proof {
            assert(r.view() =~= Seq::<T>::empty());
            assert(r.accepted@.take(0) =~= Seq::<T>::empty());
            assert(r.accepted@.subrange(0, 0) =~= Seq::<T>::empty());
        }
        r
    }

    /// Appends `value` unless the ring is full; the producer looks at the
    /// published head only when its cached one says full.
    pub fn try_push(&mut self, value: T) -> (r: bool)
        requires
            old(self).wf(),
        ensures
            final(self).wf(),
            final(self).spec_capacity() == old(self).spec_capacity(),
            r <==> old(self).view().len() < old(self).spec_capacity(),
            r ==> final(self).view() == old(self).view().push(value),
            !r ==> final(self).view() == old(self).view(),
            r ==> final(self).accepted() == old(self).accepted().push(value),
            !r ==> final(self).accepted() == old(self).accepted(),
            final(self).delivered() == old(self).delivered(),
    {
        let ghost cap = self.writer.capacity as int;
        proof {
            lemma_wrapping_distance(self.pushed@, self.seen_head@);
        }
        if self.writer.full_by_cache() {
            let h = self.head;
            self.writer.observe_head(h);
            proof {
                self.seen_head@ = self.popped@;
                lemma_wrapping_distance(self.pushed@, self.seen_head@);
            }
            if self.writer.full_by_cache() {
                return false;
            }
        }
        let s = self.writer.slot();
        proof {
            lemma_pow2_divides_wrap(cap, self.pushed@ as int);
        }
        let ghost before = self.view();
        self.slots.set(s as usize, value);
        let t = self.writer.advance();
        self.tail = t;
        proof {
            lemma_wrapping_next(self.pushed@);
            self.pushed@ = self.pushed@ + 1;
            assert forall|i: int| 0 <= i < before.len() implies #[trigger] self.view()[i] == before[i] by {
                let p = self.popped@ as int;
                let n = (self.pushed@ - 1) as int;
                assert((p + i) % cap != n % cap) by (nonlinear_arith)
                    requires
                        0 <= i < n - p,
                        n - p < cap,
                        p >= 0,
                        cap > 0,
                ;
            }
            let p = self.popped@ as int;
            let n = (self.pushed@ - 1) as int;
            assert((p + (n - p)) % cap == n % cap);
            assert(self.view() =~= before.push(value));
            let old_acc = self.accepted@;
            self.accepted@ = old_acc.push(value);
            assert(self.accepted@.take(p) =~= old_acc.take(p));
            assert(self.accepted@.subrange(p, n + 1) =~= old_acc.subrange(p, n).push(value));
        }
        true
    }

    /// Removes the oldest item, if any; the consumer looks at the published
    /// tail only when its cached one says empty.
    pub fn try_pop(&mut self) -> (r: Option<T>)
        requires
            old(self).wf(),
        ensures
            final(self).wf(),
            final(self).spec_capacity() == old(self).spec_capacity(),
            old(self).view().len() == 0 <==> r is None,
            r is None ==> final(self).view() == old(self).view(),
            r matches Some(v) ==> v == old(self).view()[0] && final(self).view() == old(self).view().drop_first(),
            r matches Some(v) ==> final(self).delivered() == old(self).delivered().push(v),
            r is None ==> final(self).delivered() == old(self).delivered(),
            final(self).accepted() == old(self).accepted(),
    {
        let ghost cap = self.writer.capacity as int;
        proof {
            lemma_wrapping_distance(self.seen_tail@, self.popped@);
            lemma_pow2_divides_wrap(cap, 0);
        }
        if self.reader.empty_by_cache() {
            let t = self.tail;
            self.reader.observe_tail(t);
            proof {
                self.seen_tail@ = self.pushed@;
                lemma_wrapping_distance(self.seen_tail@, self.popped@);
            }
            if self.reader.empty_by_cache() {
                return None;
            }
        }
        let s = self.reader.slot();
        proof {
            lemma_pow2_divides_wrap(cap, self.popped@ as int);
        }
        let v = self.slots[s as usize];
        let ghost before = self.view();
        let h = self.reader.advance();
        self.head = h;
        proof {
            lemma_wrapping_next(self.popped@);
            self.popped@ = self.popped@ + 1;
            assert forall|i: int| 0 <= i < before.len() - 1 implies #[trigger] self.view()[i] == before[i + 1] by {
                assert(self.popped@ + i == (self.popped@ - 1) + (i + 1));
            }
            assert(self.view() =~= before.drop_first());
            let p = (self.popped@ - 1) as int;
            let acc = self.accepted@;
            assert(before[0] == acc[p]);
            self.delivered@ = self.delivered@.push(v);
            assert(self.delivered@ =~= acc.take(p + 1));
            assert(self.view() =~= acc.subrange(p + 1, self.pushed@ as int));
        }
        Some(v)
    }

    /// Items queued: the published tail minus the published head.
    pub fn len(&self) -> (r: usize)
        requires
            self.wf(),
        ensures
            r == self.view().len(),
    {
        proof {
            lemma_wrapping_distance(self.pushed@, self.popped@);
            lemma_pow2_divides_wrap(self.writer.capacity as int, 0);
            let k = log2_of(self.writer.capacity as int);
            lemma_u64_pow2_no_overflow(k);
        }
        let d = self.tail.wrapping_sub(self.head);
        proof {
            assert(d <= self.writer.capacity);
        }
        d as usize
    }

    pub fn is_empty(&self) -> (r: bool)
        requires
            self.wf(),
        ensures
            r == (self.view().len() == 0),
    {
        self.len() == 0
    }

    pub fn capacity(&self) -> (r: usize)
        requires
            self.wf(),
        ensures
            r == self.spec_capacity(),
    {
        proof {
            let k = log2_of(self.writer.capacity as int);
            lemma_u64_pow2_no_overflow(k);
        }
        self.writer.capacity() as usize
    }
}

/// Whatever the order of pushes and pops: the values popped are exactly
/// the values whose push succeeded, in push order and each once; the ring
/// holds the rest of them, oldest first, never more than its capacity. So
/// the popped values followed by the queued ones are the accepted ones; a
/// pop finds nothing exactly when every accepted value was popped, and a
/// push is refused exactly when a capacity's worth waits unpopped.
pub proof fn lemma_ring_history<T: Pod>(ring: &SpscRing<T>)
    requires
        ring.wf(),
    ensures
        ring.delivered().len() <= ring.accepted().len() <= ring.delivered().len() + ring.spec_capacity(),
        ring.delivered() == ring.accepted().take(ring.delivered().len() as int),
        ring.view() == ring.accepted().skip(ring.delivered().len() as int),
        ring.delivered() + ring.view() == ring.accepted(),
        ring.view().len() == 0 <==> ring.delivered() == ring.accepted(),
        ring.view().len() == ring.spec_capacity() <==> ring.accepted().len() == ring.delivered().len()
            + ring.spec_capacity(),
{
    let d = ring.delivered@;
    let a = ring.accepted@;
    assert(d + a.skip(d.len() as int) =~= a);
    assert(ring.accepted@.skip(ring.popped@ as int) =~= ring.accepted@.subrange(
        ring.popped@ as int,
        ring.pushed@ as int,
    ));
}

/// A ring never holds more items than slots.
pub proof fn lemma_ring_bounded<T: Pod>(ring: &SpscRing<T>)
    requires
        ring.wf(),
    ensures
        ring.view().len() <= ring.spec_capacity(),
        ring.spec_capacity() > 0,
{
    lemma_mask_is_mod(0, ring.writer.capacity);
}

} // verus!
