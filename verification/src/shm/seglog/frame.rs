//! Frame layout of the segmented log: an 8-byte header (commit length and
//! session id, little-endian) followed by the payload, padded to 8 bytes.
use vstd::prelude::*;
use vstd::bytes::{spec_u32_from_le_bytes, spec_u32_to_le_bytes, u32_from_le_bytes, u32_to_le_bytes, lemma_auto_spec_u32_to_from_le_bytes};

verus! {

/// Size of a frame header.
pub const FRAME_HDR: usize = 8;

/// Frame alignment.
pub const ALIGN: usize = 8;

/// `n` rounded up to a multiple of 8.
pub open spec fn spec_align_up(n: int) -> int {
    ((n + 7) / 8) * 8
}

/// Bytes a frame with a `body`-byte payload occupies.
pub open spec fn spec_footprint(body: int) -> int {
    8 + spec_align_up(body)
}

/// Rounds `n` up to the frame alignment.
pub fn align_up(n: usize) -> (r: usize)
    requires
        n + 7 <= usize::MAX,
    ensures
        r == spec_align_up(n as int),
        r % 8 == 0,
        n <= r < n + 8,
{
    let x: usize = n + (ALIGN - 1);
    assert((x & !7usize) == x - x % 8) by (bit_vector);
    x & !(ALIGN - 1)
}

/// Bytes a frame with a `body`-byte payload occupies: header plus padded
/// payload.
pub fn footprint(body: usize) -> (r: usize)
    requires
        body + 15 <= usize::MAX,
    ensures
        r == spec_footprint(body as int),
        r % 8 == 0,
        body + 8 <= r < body + 16,
{
    FRAME_HDR + align_up(body)
}

/// Zero-copy view of a committed record: session tag, global offset and
/// payload.
pub struct Frame<'buf> {
    payload: &'buf [u8],
    offset: u64,
    session_id: u32,
}

impl<'buf> Frame<'buf> {
    pub(crate) fn new(payload: &'buf [u8], offset: u64, session_id: u32) -> (f: Self)
        ensures
            f.spec_payload() == payload@,
            f.spec_offset() == offset,
            f.spec_session_id() == session_id,
    {
        Frame { payload, offset, session_id }
    }

    pub closed spec fn spec_payload(&self) -> Seq<u8> {
        self.payload@
    }

    pub closed spec fn spec_offset(&self) -> u64 {
        self.offset
    }

    pub closed spec fn spec_session_id(&self) -> u32 {
        self.session_id
    }

    /// Session that wrote the record.
    pub fn session_id(&self) -> (r: u32)
        ensures
            r == self.spec_session_id(),
    {
        self.session_id
    }

    /// Global byte position of the record.
    pub fn offset(&self) -> (r: u64)
        ensures
            r == self.spec_offset(),
    {
        self.offset
    }

    /// The record's payload.
    pub fn payload(&self) -> (r: &'buf [u8])
        ensures
            r@ == self.spec_payload(),
    {
        self.payload
    }
}

/// Opaque position of a record: epoch (30 bits), slot (2 bits) and local
/// offset (32 bits), packed as `epoch << 34 | slot << 32 | local_off`.
#[derive(Clone, Copy, Debug, PartialEq, Eq)]
pub struct LogOffset(u64);

impl View for LogOffset {
    type V = u64;

    closed spec fn view(&self) -> u64 {
        self.0
    }
}

/// The packed representation of `(slot, local_off, epoch)`.
pub open spec fn pack_offset(slot: u8, local_off: usize, epoch: u32) -> u64 {
    ((epoch as u64) << 34u64) | ((slot as u64) << 32u64) | (local_off as u64)
}

/// Slot field of a packed offset.
pub open spec fn offset_slot(raw: u64) -> usize {
    ((raw >> 32u64) & 0x3) as usize
}

/// Local-offset field of a packed offset.
pub open spec fn offset_local(raw: u64) -> usize {
    (raw & 0xFFFF_FFFF) as usize
}

/// Epoch field of a packed offset.
pub open spec fn offset_epoch(raw: u64) -> u32 {
    (raw >> 34u64) as u32
}

impl Default for LogOffset {
    /// The all-ones offset: slot 3, which no log uses.
    fn default() -> (o: Self)
        ensures
            o@ == u64::MAX,
    {
        LogOffset(u64::MAX)
    }
}

impl LogOffset {
    /// Packs a slot, a local offset and an epoch.
    pub(crate) fn new(slot: u8, local_off: usize, epoch: u32) -> (o: Self)
        requires
            slot < 4,
            local_off <= u32::MAX,
        ensures
            o@ == pack_offset(slot, local_off, epoch),
            offset_slot(o@) == slot,
            offset_local(o@) == local_off,
            offset_epoch(o@) == epoch as int % 0x4000_0000,
    {
        proof {
            lemma_offset_roundtrip(slot, local_off, epoch);
        }
        LogOffset((epoch as u64) << 34 | (slot as u64) << 32 | local_off as u64)
    }

    /// Monotonic global byte position: `epoch * segment_size + local_off`.
    pub(crate) fn global_offset(self, segment_size: usize) -> (r: u64)
        requires
            offset_epoch(self@) * segment_size + offset_local(self@) <= u64::MAX,
        ensures
            r == offset_epoch(self@) * segment_size + offset_local(self@),
    {
        self.epoch() as u64 * segment_size as u64 + self.local_off() as u64
    }

    /// Physical slot (0 to 3).
    pub(crate) fn slot(self) -> (r: usize)
        ensures
            r == offset_slot(self@),
            r < 4,
    {
        let v = self.0;
        assert(((v >> 32u64) & 0x3) < 4) by (bit_vector);
        ((self.0 >> 32) & 0x3) as usize
    }

    /// Byte offset of the frame within its segment.
    pub(crate) fn local_off(self) -> (r: usize)
        ensures
            r == offset_local(self@),
            r <= u32::MAX,
    {
        let v = self.0;
        assert((v & 0xFFFF_FFFF) <= 0xFFFF_FFFF) by (bit_vector);
        (self.0 & 0xFFFF_FFFF) as usize
    }

    /// Rotation generation the offset was issued in.
    pub(crate) fn epoch(self) -> (r: u32)
        ensures
            r == offset_epoch(self@),
            r < 0x4000_0000,
    {
        let v = self.0;
        assert((v >> 34u64) <= 0x3FFF_FFFF) by (bit_vector);
        (self.0 >> 34) as u32
    }
}

/// Unpacking a packed offset gives back its slot and local offset, and its
/// epoch modulo `2^30` (the bits that fit).
pub proof fn lemma_offset_roundtrip(slot: u8, local_off: usize, epoch: u32)
    requires
        slot < 4,
        local_off <= u32::MAX,
    ensures
        offset_slot(pack_offset(slot, local_off, epoch)) == slot,
        offset_local(pack_offset(slot, local_off, epoch)) == local_off,
        offset_epoch(pack_offset(slot, local_off, epoch)) == epoch as int % 0x4000_0000,
{
    let e = epoch as u64;
    let s = slot as u64;
    let l = local_off as u64;
    assert((((e << 34u64) | (s << 32u64) | l) >> 32u64) & 0x3 == s) by (bit_vector)
        requires
            s < 4,
            l <= 0xFFFF_FFFF,
            e <= 0xFFFF_FFFF,
    ;
    assert(((e << 34u64) | (s << 32u64) | l) & 0xFFFF_FFFF == l) by (bit_vector)
        requires
            s < 4,
            l <= 0xFFFF_FFFF,
            e <= 0xFFFF_FFFF,
    ;
    assert(((e << 34u64) | (s << 32u64) | l) >> 34u64 == e % 0x4000_0000) by (bit_vector)
        requires
            s < 4,
            l <= 0xFFFF_FFFF,
            e <= 0xFFFF_FFFF,
    ;
}

/// The default offset names slot 3, which is never a live slot.
pub proof fn lemma_default_offset_slot()
    ensures
        offset_slot(u64::MAX) == 3,
{
    assert(((0xFFFF_FFFF_FFFF_FFFFu64 >> 32u64) & 0x3) == 3) by (bit_vector);
}

// ---------------------------------------------------------------------------
// Byte-level frame codec
// ---------------------------------------------------------------------------

/// The little-endian `u32` stored at `off`.
pub open spec fn u32_at(seg: Seq<u8>, off: int) -> u32 {
    spec_u32_from_le_bytes(seg.subrange(off, off + 4))
}

/// The committed frame at `off`, as `(payload, session_id)`: none when the
/// commit length is zero or the payload would run past the segment.
pub open spec fn frame_at(seg: Seq<u8>, off: int) -> Option<(Seq<u8>, u32)> {
    if off < 0 || off + 8 > seg.len() {
        None
    } else {
        let stored = u32_at(seg, off);
        if stored == 0 {
            None
        } else {
            let body = stored - 1;
            if off + 8 + body > seg.len() {
                None
            } else {
                Some((seg.subrange(off + 8, off + 8 + body), u32_at(seg, off + 4)))
            }
        }
    }
}

/// Reads the little-endian `u32` at `off`.
pub fn read_u32_at(seg: &[u8], off: usize) -> (r: u32)
    requires
        off + 4 <= seg@.len(),
    ensures
        r == u32_at(seg@, off as int),
{
    let len = seg.len();
    u32_from_le_bytes(&seg[off..off + 4])
}

/// Writes `v` little-endian at `off`; other bytes are untouched.
pub fn write_u32_at(seg: &mut [u8], off: usize, v: u32)
    requires
        off + 4 <= old(seg)@.len(),
    ensures
        final(seg)@.len() == old(seg)@.len(),
        u32_at(final(seg)@, off as int) == v,
        forall|i: int| 0 <= i < old(seg)@.len() && !(off <= i < off + 4) ==> final(seg)@[i] == old(seg)@[i],
{
    let len = seg.len();
    let bytes = u32_to_le_bytes(v);
    let mut i: usize = 0;
    while i < 4
        invariant
            0 <= i <= 4,
            bytes@ == spec_u32_to_le_bytes(v),
            bytes@.len() == 4,
            off + 4 <= seg@.len(),
            seg@.len() == old(seg)@.len(),
            len == seg@.len(),
            forall|j: int| 0 <= j < i ==> seg@[off + j] == bytes@[j],
            forall|j: int| 0 <= j < old(seg)@.len() && !(off <= j < off + i) ==> seg@[j] == old(seg)@[j],
        decreases 4 - i,
    {
        seg[off + i] = bytes[i];
        i = i + 1;
    }
    proof {
        lemma_auto_spec_u32_to_from_le_bytes();
        assert(seg@.subrange(off as int, off + 4) =~= bytes@);
    }
}

/// Reads the committed frame at `off`: `(payload length, session id)`.
pub fn read_frame(seg: &[u8], off: usize) -> (r: Option<(usize, u32)>)
    requires
        off + 8 <= seg@.len(),
    ensures
        r is None <==> frame_at(seg@, off as int) is None,
        r matches Some((body, sid)) ==> ({
            let f = frame_at(seg@, off as int).unwrap();
            &&& f.0.len() == body
            &&& f.0 == seg@.subrange(off + 8, off + 8 + body)
            &&& f.1 == sid
        }),
{
    let len = seg.len();
    let stored = read_u32_at(seg, off);
    if stored == 0 {
        return None;
    }
    let body = (stored - 1) as usize;
    if body > len - off - FRAME_HDR {
        return None;
    }
    let sid = read_u32_at(seg, off + 4);
    Some((body, sid))
}

/// Writes a complete frame at `off`: payload, session id, a zero commit
/// length after the frame (when it fits), and finally the commit length
/// `payload.len() + 1` that publishes the frame.
pub fn write_frame(seg: &mut [u8], off: usize, payload: &[u8], session_id: u32)
    requires
        payload@.len() < u32::MAX,
        off + spec_footprint(payload@.len() as int) <= old(seg)@.len(),
        old(seg)@.len() + 16 <= usize::MAX,
    ensures
        final(seg)@.len() == old(seg)@.len(),
        frame_at(final(seg)@, off as int) == Some((payload@, session_id)),
        forall|i: int| 0 <= i < off ==> final(seg)@[i] == old(seg)@[i],
        ({
            let next = off + spec_footprint(payload@.len() as int);
            &&& next + 8 <= old(seg)@.len() ==> frame_at(final(seg)@, next) is None && u32_at(final(seg)@, next) == 0
            &&& forall|i: int| next + 8 <= i < old(seg)@.len() ==> final(seg)@[i] == old(seg)@[i]
            &&& next + 8 > old(seg)@.len() ==> forall|i: int| next <= i < old(seg)@.len() ==> final(seg)@[i] == old(seg)@[i]
        }),
{
    let len = seg.len();
    let body = payload.len();
    let foot = footprint(body);
    let ghost s0 = seg@;
    let mut i: usize = 0;
    while i < body
        invariant
            0 <= i <= body,
            body == payload@.len(),
            off + 8 + body <= seg@.len(),
            seg@.len() == s0.len(),
            len == seg@.len(),
            forall|j: int| 0 <= j < i ==> seg@[off + 8 + j] == payload@[j],
            forall|j: int| 0 <= j < s0.len() && !(off + 8 <= j < off + 8 + i) ==> seg@[j] == s0[j],
        decreases body - i,
    {
        seg[off + FRAME_HDR + i] = payload[i];
        i = i + 1;
    }
    let ghost s1 = seg@;
    write_u32_at(seg, off + 4, session_id);
    let ghost s2 = seg@;
    let next = off + foot;
    if next + FRAME_HDR <= seg.len() {
        write_u32_at(seg, next, 0);
    }
    let ghost s3 = seg@;
    write_u32_at(seg, off, (body as u32) + 1);
    proof {
        assert(seg@.subrange(off + 8, off + 8 + body) =~= payload@);
        assert(seg@.subrange(off + 4, off + 8) =~= s2.subrange(off + 4, off + 8));
        if next + 8 <= s0.len() {
            assert(seg@.subrange(next as int, next + 4) =~= s3.subrange(next as int, next + 4));
        }
    }
}

/// The offset a scan from `cur` stops at: it follows committed frames as
/// long as each one fits in the segment.
pub open spec fn scan_tail(seg: Seq<u8>, cur: int) -> int
    decreases seg.len() - cur,
{
    if cur < 0 || cur + 8 > seg.len() {
        cur
    } else {
        let stored = u32_at(seg, cur);
        if stored == 0 {
            cur
        } else if stored - 1 > seg.len() {
            cur
        } else if cur + spec_footprint(stored - 1) > seg.len() {
            cur
        } else {
            scan_tail(seg, cur + spec_footprint(stored - 1))
        }
    }
}

/// Committed frames lead from `x` to `c`, each one wholly before `c`.
pub open spec fn reaches(seg: Seq<u8>, x: int, c: int) -> bool
    decreases c - x,
{
    if x == c {
        true
    } else if x > c {
        false
    } else {
        match frame_at(seg, x) {
            Some((p, _)) => x + spec_footprint(p.len() as int) <= c && reaches(
                seg,
                x + spec_footprint(p.len() as int),
                c,
            ),
            None => false,
        }
    }
}

/// Bytes that agree on a frame's extent decode to the same frame.
pub proof fn lemma_frame_stable(a: Seq<u8>, b: Seq<u8>, off: int, limit: int)
    requires
        a.len() == b.len(),
        frame_at(a, off) is Some,
        off + spec_footprint(frame_at(a, off).unwrap().0.len() as int) <= limit,
        forall|i: int| 0 <= i < limit ==> a[i] == b[i],
    ensures
        frame_at(b, off) == frame_at(a, off),
{
    let body = frame_at(a, off).unwrap().0.len() as int;
    assert(a.subrange(off, off + 4) =~= b.subrange(off, off + 4));
    assert(a.subrange(off + 4, off + 8) =~= b.subrange(off + 4, off + 8));
    assert(a.subrange(off + 8, off + 8 + body) =~= b.subrange(off + 8, off + 8 + body));
}

/// A chain of frames below `c` survives any change at or above `c`.
pub proof fn lemma_reaches_stable(a: Seq<u8>, b: Seq<u8>, x: int, c: int)
    requires
        a.len() == b.len(),
        reaches(a, x, c),
        forall|i: int| 0 <= i < c ==> a[i] == b[i],
    ensures
        reaches(b, x, c),
    decreases c - x,
{
    if x < c {
        let p = frame_at(a, x).unwrap().0;
        lemma_frame_stable(a, b, x, c);
        lemma_reaches_stable(a, b, x + spec_footprint(p.len() as int), c);
    }
}

/// A chain to `c` extends by a committed frame at `c` that fits.
pub proof fn lemma_reaches_extend(seg: Seq<u8>, x: int, c: int)
    requires
        reaches(seg, x, c),
        x <= c,
        frame_at(seg, c) is Some,
        c + spec_footprint(frame_at(seg, c).unwrap().0.len() as int) <= seg.len(),
    ensures
        reaches(seg, x, c + spec_footprint(frame_at(seg, c).unwrap().0.len() as int)),
    decreases c - x,
{
    let fc = spec_footprint(frame_at(seg, c).unwrap().0.len() as int);
    assert(fc >= 8);
    if x < c {
        let p = frame_at(seg, x).unwrap().0;
        lemma_reaches_extend(seg, x + spec_footprint(p.len() as int), c);
    } else {
        assert(reaches(seg, c + fc, c + fc));
    }
}

/// A scan passes straight through a chain of committed frames.
pub proof fn lemma_scan_follows_chain(seg: Seq<u8>, x: int, c: int)
    requires
        0 <= x,
        reaches(seg, x, c),
        c <= seg.len(),
    ensures
        scan_tail(seg, x) == scan_tail(seg, c),
    decreases c - x,
{
    if x < c {
        let p = frame_at(seg, x).unwrap().0;
        let stored = u32_at(seg, x);
        assert(stored - 1 == p.len());
        lemma_scan_follows_chain(seg, x + spec_footprint(p.len() as int), c);
    }
}

/// A scan from `x` walks a chain of committed frames.
pub proof fn lemma_scan_reaches(seg: Seq<u8>, x: int)
    requires
        0 <= x <= seg.len(),
    ensures
        reaches(seg, x, scan_tail(seg, x)),
        x <= scan_tail(seg, x) <= seg.len(),
    decreases seg.len() - x,
{
    if x + 8 <= seg.len() {
        let stored = u32_at(seg, x);
        if stored != 0 && stored - 1 <= seg.len() && x + spec_footprint(stored - 1) <= seg.len() {
            let next = x + spec_footprint(stored - 1);
            lemma_scan_reaches(seg, next);
            assert(frame_at(seg, x) is Some);
            assert(frame_at(seg, x).unwrap().0.len() == stored - 1);
        }
    }
}

/// Scans committed frames from the start of a segment and returns the
/// offset of the first uncommitted one: the write tail after recovery.
pub fn recover_tail(seg: &[u8]) -> (r: usize)
    requires
        seg@.len() + 16 <= usize::MAX,
    ensures
        r <= seg@.len(),
        r % 8 == 0,
        r == scan_tail(seg@, 0),
        r + 8 <= seg@.len() ==> frame_at(seg@, r as int) is None || spec_footprint(
            frame_at(seg@, r as int).unwrap().0.len() as int,
        ) + r > seg@.len(),
{
    let size = seg.len();
    let mut cur: usize = 0;
    while cur + FRAME_HDR <= size
        invariant
            size == seg@.len(),
            size + 16 <= usize::MAX,
            cur <= size,
            cur % 8 == 0,
            scan_tail(seg@, cur as int) == scan_tail(seg@, 0),
        ensures
            cur <= size,
            cur % 8 == 0,
            cur == scan_tail(seg@, 0),
            cur + 8 <= size ==> frame_at(seg@, cur as int) is None || spec_footprint(
                frame_at(seg@, cur as int).unwrap().0.len() as int,
            ) + cur > size,
        decreases size - cur,
    {
        let stored = read_u32_at(seg, cur);
        if stored == 0 {
            break;
        }
        let body = (stored - 1) as usize;
        if body > size {
            break;
        }
        let foot = footprint(body);
        if foot > size - cur {
            break;
        }
        cur = cur + foot;
    }
    cur
}

} // verus!
