//! The segmented log itself: three fixed segments that rotate roles
//! (current for appends, prev for reads, standby being cleaned), with
//! global-offset addressing `epoch * segment_size + local_offset`.
use vstd::prelude::*;
use vstd::string::StringSliceAdditionalSpecFns;
use vstd::utf8::valid_utf8;
use vstd::bytes::{u16_from_le_bytes, u32_from_le_bytes, u64_from_le_bytes};
use crate::shm::seglog::frame::{
    FRAME_HDR, spec_footprint, footprint, align_up, spec_align_up, frame_at, u32_at, read_frame,
    write_frame, write_u32_at, recover_tail, LogOffset, Frame, offset_slot, offset_local,
    offset_epoch, lemma_offset_roundtrip, lemma_frame_stable, reaches, scan_tail,
    lemma_reaches_stable, lemma_reaches_extend, lemma_scan_follows_chain, lemma_scan_reaches,
};
use crate::shm::seglog::error::{LogError, OpenError};
use crate::shm::seglog::manifest::{
    Manifest, header_epoch, header_segment_size, header_session_id, header_name_len,
    header_error, header_magic, header_version, kept_name_len, lemma_set_epoch_keeps_config,
    lemma_manifest_roundtrip, MANIFEST_MAGIC, MANIFEST_VERSION, MANIFEST_HEADER_LEN,
};
use crate::shm::error::ShmError;

verus! {

/// Calls `std::str::from_utf8`: it gives a text with the same bytes
/// exactly when they are well-formed UTF-8 (no overlong forms, no
/// surrogates, nothing past U+10FFFF), and fails otherwise.
#[verifier::external_body]
fn str_from_utf8(bytes: &[u8]) -> (r: Option<&str>)
    ensures
        r is Some <==> valid_utf8(bytes@),
        r matches Some(s) ==> s.spec_bytes() == bytes@,
{
    std::str::from_utf8(bytes).ok()
}

/// The manifest bytes hold a valid header recording this epoch, segment
/// size and session.
#[verifier::opaque]
pub open spec fn manifest_agrees(m: Seq<u8>, epoch: u64, size: usize, session_id: u32) -> bool {
    &&& m.len() >= MANIFEST_HEADER_LEN
    &&& header_error(m) is None
    &&& header_epoch(m) == epoch
    &&& header_segment_size(m) == size
    &&& header_session_id(m) == session_id
}

/// Longest session name kept.
pub const SESSION_NAME_LEN: usize = 64;

/// Abstract state of a segmented log.
pub struct LogModel {
    pub segment_size: nat,
    pub session_id: u32,
    /// The three segments' bytes, indexed by slot.
    pub segs: Seq<Seq<u8>>,
    pub current: nat,
    pub prev: nat,
    pub standby: nat,
    pub cursor: nat,
    pub epoch: nat,
    /// Rotation generation stamped into offsets issued per slot.
    pub gens: Seq<u32>,
    pub standby_ready: bool,
}

/// The generation stamped for an epoch: its low 32 bits.
pub open spec fn gen_of_epoch(epoch: int) -> int {
    epoch % 0x1_0000_0000
}

/// Slot roles for an epoch: the rotation visits slots `0, 1, 2, 0, ...`,
/// the previous slot is one behind and the standby one ahead.
pub open spec fn slots_for_epoch(epoch: nat) -> (nat, nat, nat) {
    ((epoch % 3) as nat, ((epoch + 2) % 3) as nat, ((epoch + 1) % 3) as nat)
}

impl LogModel {
    pub open spec fn wf(self) -> bool {
        &&& self.segs.len() == 3
        &&& forall|i: int| 0 <= i < 3 ==> #[trigger] self.segs[i].len() == self.segment_size
        &&& 64 <= self.segment_size <= u32::MAX
        &&& self.segment_size + 16 <= usize::MAX
        &&& self.segment_size % 8 == 0
        &&& (self.current, self.prev, self.standby) == slots_for_epoch(self.epoch)
        &&& self.gens.len() == 3
        &&& self.gens[self.current as int] as int == gen_of_epoch(self.epoch as int)
        &&& (self.epoch > 0 ==> self.gens[self.prev as int] as int == gen_of_epoch(self.epoch - 1))
        &&& (self.epoch == 0 ==> self.gens[self.prev as int] == u32::MAX)
        &&& self.cursor <= self.segment_size
        &&& self.cursor % 8 == 0
        &&& (self.epoch + 1) * self.segment_size <= u64::MAX
    }

    /// What reading the raw offset yields: the payload and session id of
    /// the frame it names, if its slot is current or previous and its epoch
    /// matches the slot's generation.
    pub open spec fn read_at(self, raw: u64) -> Option<(Seq<u8>, u32)> {
        let slot = offset_slot(raw) as nat;
        if slot != self.current && slot != self.prev {
            None
        } else if offset_epoch(raw) != self.gens[slot as int] {
            None
        } else {
            frame_at(self.segs[slot as int], offset_local(raw) as int)
        }
    }

    /// The offset names a frame that is readable and, when in the current
    /// segment, lies wholly below the write cursor.
    pub open spec fn committed(self, raw: u64) -> bool {
        &&& self.read_at(raw) is Some
        &&& (offset_slot(raw) as nat == self.current ==> offset_local(raw) + spec_footprint(
            self.read_at(raw).unwrap().0.len() as int,
        ) <= self.cursor)
    }

    /// The previous segment holds a chain of committed frames from its
    /// start, ended by an empty commit length or the segment's end.
    pub open spec fn prev_sealed(self) -> bool {
        self.epoch > 0 ==> exists|end: int| #[trigger] self.prev_chain_end(end)
    }

    pub open spec fn prev_chain_end(self, end: int) -> bool {
        &&& 0 <= end <= self.segment_size
        &&& reaches(self.segs[self.prev as int], 0, end)
        &&& (end + 8 <= self.segment_size ==> u32_at(self.segs[self.prev as int], end) == 0)
    }

    /// Repeated `read_next` calls lead from `from` to `to`: every step
    /// yields a frame and moves forward, except possibly a last step that
    /// yields nothing but lands exactly on `to`.
    pub open spec fn drains_to(self, from: int, to: int) -> bool
        decreases to - from,
    {
        if from == to {
            true
        } else if from > to {
            false
        } else {
            let (r, next) = self.scan(from);
            &&& from < next <= to
            &&& match r {
                Some(_) => self.drains_to(next, to),
                None => next == to,
            }
        }
    }

    /// The current segment's committed frames lead from its start to the
    /// cursor, and a zero commit length marks the cursor: what recovery and
    /// a sequential scan rely on.
    pub open spec fn tail_marked(self) -> bool {
        &&& reaches(self.segs[self.current as int], 0, self.cursor as int)
        &&& (self.cursor + 8 <= self.segment_size ==> u32_at(self.segs[self.current as int], self.cursor as int) == 0)
    }

    /// The current segment's committed frames lead from its start to the
    /// cursor, and no committed frame is found at the cursor: what a
    /// recovered log's scan guarantees.
    pub open spec fn tail_found(self) -> bool {
        &&& reaches(self.segs[self.current as int], 0, self.cursor as int)
        &&& (self.cursor + 8 <= self.segment_size ==> frame_at(self.segs[self.current as int], self.cursor as int) is None)
    }

    /// The tail is marked, and a cleaned standby starts with a zero commit
    /// length, so the next rotation starts a marked segment.
    pub open spec fn sealed(self) -> bool {
        &&& self.tail_marked()
        &&& (self.standby_ready ==> u32_at(self.segs[self.standby as int], 0) == 0)
    }

    /// Global write position.
    pub open spec fn write_pos(self) -> int {
        (self.epoch * self.segment_size + self.cursor) as int
    }

    /// Global position of the oldest readable segment.
    pub open spec fn read_start(self) -> int {
        if self.epoch == 0 { 0 } else { (self.epoch - 1) * (self.segment_size as int) }
    }

    /// Whether appending `body` bytes needs a rotation first.
    pub open spec fn needs_rotation(self, body: nat) -> bool {
        self.cursor + spec_footprint(body as int) > self.segment_size
    }

    /// The successful append of `payload`, issued as `raw`.
    pub open spec fn appended(self, new: LogModel, payload: Seq<u8>, raw: u64) -> bool {
        let foot = spec_footprint(payload.len() as int);
        &&& new.segment_size == self.segment_size
        &&& new.session_id == self.session_id
        &&& (new.epoch < 0x4000_0000 ==> new.read_at(raw) == Some((payload, self.session_id)))
        &&& frame_at(new.segs[new.current as int], offset_local(raw) as int) == Some((payload, self.session_id))
        &&& offset_epoch(raw) == new.gens[new.current as int] as int % 0x4000_0000
        &&& offset_slot(raw) as nat == new.current
        &&& offset_local(raw) + foot == new.cursor
        &&& new.segs[new.current as int].len() == self.segs[new.current as int].len()
        &&& (new.cursor + 8 <= new.segment_size ==> u32_at(new.segs[new.current as int], new.cursor as int) == 0)
        &&& forall|i: int| 0 <= i < offset_local(raw) ==> #[trigger] new.segs[new.current as int][i]
            == self.segs[new.current as int][i]
        &&& if self.needs_rotation(payload.len()) {
            &&& new.epoch == self.epoch + 1
            &&& new.current == self.standby
            &&& new.prev == self.current
            &&& new.standby == self.prev
            &&& new.segs[new.prev as int] == self.segs[self.current as int]
            &&& new.gens[new.prev as int] == self.gens[self.current as int]
            &&& offset_local(raw) == 0
            &&& !new.standby_ready
        } else {
            &&& new.epoch == self.epoch
            &&& new.current == self.current
            &&& new.prev == self.prev
            &&& new.standby == self.standby
            &&& new.segs[new.prev as int] == self.segs[self.prev as int]
            &&& new.segs[new.standby as int] == self.segs[self.standby as int]
            &&& new.gens == self.gens
            &&& offset_local(raw) == self.cursor
            &&& new.standby_ready == self.standby_ready
        }
    }
}

/// Three-segment bounded append log over in-memory segment bytes.
pub struct SegmentedLog {
    seg0: Vec<u8>,
    seg1: Vec<u8>,
    seg2: Vec<u8>,
    manifest: Manifest,
    segment_size: usize,
    session_id: u32,
    current: usize,
    prev: usize,
    standby: usize,
    cursor: usize,
    epoch: u64,
    gen0: u32,
    gen1: u32,
    gen2: u32,
    standby_ready: bool,
}

impl View for SegmentedLog {
    type V = LogModel;

    closed spec fn view(&self) -> LogModel {
        LogModel {
            segment_size: self.segment_size as nat,
            session_id: self.session_id,
            segs: seq![self.seg0@, self.seg1@, self.seg2@],
            current: self.current as nat,
            prev: self.prev as nat,
            standby: self.standby as nat,
            cursor: self.cursor as nat,
            epoch: self.epoch as nat,
            gens: seq![self.gen0, self.gen1, self.gen2],
            standby_ready: self.standby_ready,
        }
    }
}

/// A segment of `size` zero bytes.
fn zeroed_segment(size: usize) -> (v: Vec<u8>)
    ensures
        v@.len() == size,
        forall|i: int| 0 <= i < size ==> v@[i] == 0,
{
    let mut v: Vec<u8> = Vec::new();
    let mut i: usize = 0;
    while i < size
        invariant
            i <= size,
            v@.len() == i,
            forall|j: int| 0 <= j < i ==> v@[j] == 0,
        decreases size - i,
    {
        v.push(0);
        i = i + 1;
    }
    v
}

/// The segment size a request rounds to: at least eight headers, aligned.
pub open spec fn effective_segment_size(requested: int) -> int {
    spec_align_up(if requested < 64 { 64 } else { requested })
}

/// Rounds a requested segment size up to at least eight frame headers and
/// to the frame alignment.
pub fn round_segment_size(requested: usize) -> (r: usize)
    requires
        requested + 32 <= usize::MAX,
    ensures
        r == effective_segment_size(requested as int),
{
    let floor = if requested < FRAME_HDR * 8 { FRAME_HDR * 8 } else { requested };
    align_up(floor)
}

impl SegmentedLog {
    /// The fields agree with the model and the manifest; the write tail may
    /// be anywhere in a freshly rotated segment.
    closed spec fn inv(&self) -> bool {
        &&& self@.wf()
        &&& self.current < 3
        &&& self.prev < 3
        &&& self.standby < 3
        &&& manifest_agrees(self.manifest@, self.epoch, self.segment_size, self.session_id)
    }

    pub closed spec fn wf(&self) -> bool {
        &&& self.inv()
        &&& self@.tail_found()
    }

    /// A well-formed log has a well-formed model (three segments of the
    /// segment size, slot roles and generations set by the epoch, the cursor
    /// aligned within the current segment) whose committed frames lead to
    /// the cursor, where no further frame is found.
    pub proof fn lemma_model_wf(&self)
        requires
            self.wf(),
        ensures
            self@.wf(),
            self@.tail_found(),
    {
    }

    /// Draining a well-formed log with `read_next` from its read start
    /// yields every committed frame of the previous and current segments, in
    /// order, and ends at the write position, where the reader has caught
    /// up. This needs the previous segment's frames to end in an empty
    /// commit length or at the segment's end, as `create`, `append` and
    /// `complete_clean` keep it.
    pub proof fn lemma_drain(&self)
        requires
            self.wf(),
            self@.prev_sealed(),
        ensures
            self@.drains_to(self@.read_start(), self@.write_pos()),
            self@.scan(self@.write_pos()) == (None::<(Seq<u8>, u32, int)>, self@.write_pos()),
    {
        lemma_drain_reaches_write_pos(self@);
    }

    /// The manifest bytes the log keeps in step with its epoch.
    pub closed spec fn spec_manifest(&self) -> Seq<u8> {
        self.manifest@
    }

    /// Whether the stored name length is within the name field.
    pub open spec fn name_readable(&self) -> bool {
        header_name_len(self.spec_manifest()) <= SESSION_NAME_LEN
    }

    /// Session name bytes, at most [`SESSION_NAME_LEN`].
    pub open spec fn spec_name(&self) -> Seq<u8> {
        let n = header_name_len(self.spec_manifest()) as int;
        self.spec_manifest().subrange(0, if n < 64 { n } else { 64 })
    }

    /// A fresh log: zeroed segments, slot 0 current, slot 2 previous (never
    /// written), slot 1 standby.
    pub fn create(segment_size: usize, session_id: u32, name: &[u8]) -> (r: Result<Self, OpenError>)
        requires
            segment_size + 32 <= usize::MAX,
        ensures
            effective_segment_size(segment_size as int) > u32::MAX <==> r is Err,
            r matches Err(e) ==> e == (OpenError::SegmentTooLarge {
                size: effective_segment_size(segment_size as int) as usize,
            }),
            r matches Ok(log) ==> ({
                &&& log.wf()
                &&& log@.wf()
                &&& log@.segment_size == effective_segment_size(segment_size as int)
                &&& log@.session_id == session_id
                &&& log@.epoch == 0
                &&& log@.cursor == 0
                &&& log@.gens == seq![0u32, u32::MAX, u32::MAX]
                &&& log@.standby_ready
                &&& log@.sealed()
                &&& log@.prev_sealed()
                &&& forall|s: int| 0 <= s < 3 ==> #[trigger] u32_at(log@.segs[s], 0) == 0
                &&& log.spec_name() == name@.subrange(0, kept_name_len(name@))
                &&& log.name_readable()
                &&& log.spec_manifest().len() == crate::shm::seglog::manifest::MANIFEST_FILE_SIZE
                &&& log.spec_manifest().subrange(0, 96) == crate::shm::seglog::manifest::manifest_header(log@.segment_size as u64, session_id, name@)
            }),
    {
        let size = round_segment_size(segment_size);
        if size > 0xFFFF_FFFF {
            return Err(OpenError::SegmentTooLarge { size });
        }
        let manifest = Manifest::create(size as u64, session_id, name);
        proof {
            lemma_manifest_roundtrip(size as u64, session_id, name@);
            let h = crate::shm::seglog::manifest::manifest_header(size as u64, session_id, name@);
            assert(manifest@.subrange(64, 72) =~= h.subrange(64, 72));
            assert(manifest@.subrange(72, 80) =~= h.subrange(72, 80));
            assert(manifest@.subrange(84, 88) =~= h.subrange(84, 88));
            assert(manifest@.subrange(80, 84) =~= h.subrange(80, 84));
            assert(manifest@.subrange(88, 90) =~= h.subrange(88, 90));
            assert(manifest@[90] == h[90]);
            assert(manifest@.subrange(0, manifest@[90] as int) =~= h.subrange(0, h[90] as int));
        }
        let mut seg0 = zeroed_segment(size);
        let mut seg1 = zeroed_segment(size);
        let mut seg2 = zeroed_segment(size);
        write_u32_at(seg0.as_mut_slice(), 0, 0);
        write_u32_at(seg1.as_mut_slice(), 0, 0);
        write_u32_at(seg2.as_mut_slice(), 0, 0);
        let log = SegmentedLog {
            seg0,
            seg1,
            seg2,
            manifest,
            segment_size: size,
            session_id,
            current: 0,
            prev: 2,
            standby: 1,
            cursor: 0,
            epoch: 0,
            gen0: 0,
            gen1: u32::MAX,
            gen2: u32::MAX,
            standby_ready: true,
        };
        proof {
            reveal(manifest_agrees);
            assert(log@.segs[0] == log.seg0@);
            assert(log@.segs[1] == log.seg1@);
            assert(log@.segs[2] == log.seg2@);
            assert forall|s: int| 0 <= s < 3 implies #[trigger] u32_at(log@.segs[s], 0) == 0 by {
                if s == 0 {
                } else if s == 1 {
                } else {
                }
            }
            assert((0nat + 1) * log@.segment_size <= u64::MAX) by (nonlinear_arith)
                requires
                    log@.segment_size <= u32::MAX,
            ;
        }
        Ok(log)
    }

    /// Bytes per segment.
    pub fn segment_size(&self) -> (r: usize)
        ensures
            r == self@.segment_size,
    {
        self.segment_size
    }

    /// Session that owns the log.
    pub fn session_id(&self) -> (r: u32)
        ensures
            r == self@.session_id,
    {
        self.session_id
    }

    /// Session name bytes as stored (at most 64).
    pub fn session_name_bytes(&self) -> (r: &[u8])
        requires
            self.wf(),
            self.name_readable(),
        ensures
            r@ == self.spec_name(),
    {
        proof {
            reveal(manifest_agrees);
        }
        self.manifest.name()
    }

    /// The stored session name as text; empty when it is not UTF-8.
    pub fn session_name(&self) -> (r: &str)
        requires
            self.wf(),
            self.name_readable(),
        ensures
            valid_utf8(self.spec_name()) ==> r.spec_bytes() == self.spec_name(),
            !valid_utf8(self.spec_name()) ==> r@.len() == 0,
    {
        proof {
            reveal(manifest_agrees);
            reveal_strlit("");
        }
        match str_from_utf8(self.manifest.name()) {
            Some(text) => text,
            None => "",
        }
    }

    /// Slot of the current segment.
    pub fn current(&self) -> (r: usize)
        ensures
            r == self@.current,
    {
        self.current
    }

    /// Slot of the previous segment.
    pub fn prev(&self) -> (r: usize)
        ensures
            r == self@.prev,
    {
        self.prev
    }

    /// Write offset within the current segment.
    pub fn cursor(&self) -> (r: usize)
        ensures
            r == self@.cursor,
    {
        self.cursor
    }

    /// The bytes of the segment in `slot`, for persisting.
    pub fn segment_bytes(&self, slot: usize) -> (r: &[u8])
        requires
            slot < 3,
        ensures
            r@ == self@.segs[slot as int],
    {
        self.seg_of(slot).as_slice()
    }

    /// The manifest, with the current epoch, for persisting.
    pub fn manifest(&self) -> (r: &Manifest)
        ensures
            r@ == self.spec_manifest(),
            self.wf() ==> manifest_agrees(r@, self@.epoch as u64, self@.segment_size as usize, self@.session_id),
    {
        &self.manifest
    }

    /// Rotation generation: the number of rotations so far.
    pub fn epoch(&self) -> (r: u64)
        ensures
            r == self@.epoch,
    {
        self.epoch
    }

    /// Whether the standby segment has been cleaned since the last rotation.
    pub fn standby_ready(&self) -> (r: bool)
        ensures
            r == self@.standby_ready,
    {
        self.standby_ready
    }

    fn gen_of(&self, slot: usize) -> (r: u32)
        requires
            slot < 3,
        ensures
            r == self@.gens[slot as int],
    {
        if slot == 0 {
            self.gen0
        } else if slot == 1 {
            self.gen1
        } else {
            self.gen2
        }
    }

    fn seg_of(&self, slot: usize) -> (r: &Vec<u8>)
        requires
            slot < 3,
        ensures
            r@ == self@.segs[slot as int],
    {
        if slot == 0 {
            &self.seg0
        } else if slot == 1 {
            &self.seg1
        } else {
            &self.seg2
        }
    }

    /// Marks the standby segment clean, as the conductor does after a
    /// rotation: its first commit length is zeroed and rotation is allowed
    /// again.
    pub fn complete_clean(&mut self)
        requires
            old(self).wf(),
        ensures
            final(self).wf(),
            final(self)@.wf(),
            final(self)@.standby_ready,
            u32_at(final(self)@.segs[final(self)@.standby as int], 0) == 0,
            old(self)@.sealed() ==> final(self)@.sealed(),
            old(self)@.tail_marked() ==> final(self)@.tail_marked(),
            old(self)@.prev_sealed() ==> final(self)@.prev_sealed(),
            final(self)@.segs[final(self)@.current as int] == old(self)@.segs[old(self)@.current as int],
            final(self)@.segs[final(self)@.prev as int] == old(self)@.segs[old(self)@.prev as int],
            final(self)@ == (LogModel {
                segs: final(self)@.segs,
                standby_ready: true,
                ..old(self)@
            }),
    {
        if self.standby == 0 {
            write_u32_at(self.seg0.as_mut_slice(), 0, 0);
        } else if self.standby == 1 {
            write_u32_at(self.seg1.as_mut_slice(), 0, 0);
        } else {
            write_u32_at(self.seg2.as_mut_slice(), 0, 0);
        }
        self.standby_ready = true;
        proof {
            assert(self@.segs[self.current as int] =~= old(self)@.segs[self.current as int]);
            assert(self@.segs[self.prev as int] =~= old(self)@.segs[self.prev as int]);
            if old(self)@.prev_sealed() {
                lemma_clean_keeps_prev_sealed(old(self)@, self@);
            }
        }
    }

    fn rotate(&mut self) -> (r: Result<(), LogError>)
        requires
            old(self).inv(),
            (old(self)@.epoch + 2) * old(self)@.segment_size <= u64::MAX,
        ensures
            !old(self)@.standby_ready ==> r == Err::<(), LogError>(LogError::StandbyNotReady) && final(self)@ == old(self)@,
            old(self)@.standby_ready ==> r is Ok && final(self).inv() && final(self)@ == (LogModel {
                current: old(self)@.standby,
                prev: old(self)@.current,
                standby: old(self)@.prev,
                cursor: 0,
                epoch: old(self)@.epoch + 1,
                gens: old(self)@.gens.update(old(self)@.standby as int, gen_of_epoch(old(self)@.epoch + 1int) as u32),
                standby_ready: false,
                ..old(self)@
            }),
            final(self).inv(),
            final(self).spec_name() == old(self).spec_name(),
            final(self).name_readable() == old(self).name_readable(),
    {
        if !self.standby_ready {
            return Err(LogError::StandbyNotReady);
        }
        proof {
            let e = old(self)@.epoch;
            let sz = old(self)@.segment_size;
            assert(e + 2 <= u64::MAX) by (nonlinear_arith)
                requires
                    (e + 2) * sz <= u64::MAX,
                    sz >= 64,
            ;
        }
        let old_prev = self.prev;
        self.prev = self.current;
        self.current = self.standby;
        self.standby = old_prev;
        self.cursor = 0;
        self.epoch = self.epoch + 1;
        let g = self.epoch as u32;
        proof {
            lemma_truncate_u32(self.epoch);
        }
        if self.current == 0 {
            self.gen0 = g;
        } else if self.current == 1 {
            self.gen1 = g;
        } else {
            self.gen2 = g;
        }
        self.standby_ready = false;
        let ghost m0 = self.manifest@;
        proof {
            reveal(manifest_agrees);
        }
        self.manifest.set_epoch(self.epoch);
        proof {
            reveal(manifest_agrees);
            lemma_set_epoch_keeps_config(m0, self.manifest@, self.epoch);
            assert(self.manifest@.subrange(0, 64) =~= m0.subrange(0, 64));
            assert(self@.gens =~= old(self)@.gens.update(old(self)@.standby as int, gen_of_epoch(old(self)@.epoch + 1int) as u32));
            let e0 = old(self)@.epoch;
            let sz = old(self)@.segment_size;
            assert((self@.epoch + 1) * self@.segment_size <= u64::MAX) by {
                assert(self@.epoch + 1 == e0 + 2);
                assert(self@.segment_size == sz);
            }
        }
        Ok(())
    }

    /// Writes a frame for `payload` at the cursor, where it fits.
    #[verifier::rlimit(30)]
    fn place(&mut self, payload: &[u8]) -> (o: LogOffset)
        requires
            old(self).inv(),
            payload@.len() + 16 <= usize::MAX,
            !old(self)@.needs_rotation(payload@.len()),
        ensures
            final(self).inv(),
            old(self)@.appended(final(self)@, payload@, o@),
            final(self).spec_manifest() == old(self).spec_manifest(),
    {
        let body = payload.len();
        let foot = footprint(body);
        let off = self.cursor;
        if self.current == 0 {
            write_frame(self.seg0.as_mut_slice(), off, payload, self.session_id);
        } else if self.current == 1 {
            write_frame(self.seg1.as_mut_slice(), off, payload, self.session_id);
        } else {
            write_frame(self.seg2.as_mut_slice(), off, payload, self.session_id);
        }
        self.cursor = self.cursor + foot;
        let g = self.gen_of(self.current);
        let o = LogOffset::new(self.current as u8, off, g);
        proof {
            lemma_offset_roundtrip(self.current as u8, off, g);
            assert(g as int == gen_of_epoch(self@.epoch as int));
            if self@.epoch < 0x4000_0000 {
                assert(g as int % 0x4000_0000 == g as int);
            }
        }
        o
    }

    /// Appends `payload`, rotating first when it does not fit in the
    /// current segment. Returns the record's offset.
    #[verifier::rlimit(30)]
    pub fn append(&mut self, payload: &[u8]) -> (r: Result<LogOffset, LogError>)
        requires
            old(self).wf(),
            payload@.len() + 16 <= usize::MAX,
            (old(self)@.epoch + 2) * old(self)@.segment_size <= u64::MAX,
        ensures
            final(self).wf(),
            final(self)@.wf(),
            spec_footprint(payload@.len() as int) > old(self)@.segment_size ==> r == Err::<LogOffset, LogError>(
                (LogError::RecordTooLarge { max: (old(self)@.segment_size - 8) as usize }),
            ) && final(self)@ == old(self)@,
            spec_footprint(payload@.len() as int) <= old(self)@.segment_size && old(self)@.needs_rotation(payload@.len())
                && !old(self)@.standby_ready ==> r == Err::<LogOffset, LogError>(LogError::StandbyNotReady)
                && final(self)@ == old(self)@,
            r is Ok <==> (spec_footprint(payload@.len() as int) <= old(self)@.segment_size && (
                !old(self)@.needs_rotation(payload@.len()) || old(self)@.standby_ready)),
            r matches Ok(o) ==> old(self)@.appended(final(self)@, payload@, o@),
            old(self)@.sealed() ==> final(self)@.sealed(),
            old(self)@.tail_marked() ==> final(self)@.tail_marked(),
            r is Ok ==> final(self)@.tail_marked(),
            old(self)@.tail_marked() && old(self)@.prev_sealed() ==> final(self)@.prev_sealed(),
            final(self).spec_name() == old(self).spec_name(),
            final(self).name_readable() == old(self).name_readable(),
    {
        let body = payload.len();
        let foot = footprint(body);
        if foot > self.segment_size {
            return Err(LogError::RecordTooLarge { max: self.segment_size.saturating_sub(FRAME_HDR) });
        }
        let ghost before = self@;
        if foot > self.segment_size - self.cursor {
            match self.rotate() {
                Ok(()) => {},
                Err(e) => return Err(e),
            }
        }
        let ghost mid = self@;
        let o = self.place(payload);
        proof {
            if before.needs_rotation(payload@.len()) {
                lemma_rotated_append(before, mid, self@, payload@, o@);
            }
            lemma_appended_sealed(before, self@, payload@, o@);
            if before.tail_marked() && before.prev_sealed() {
                lemma_appended_prev_sealed(before, self@, payload@, o@);
            }
        }
        Ok(o)
    }
}


/// `x as u32` keeps the low 32 bits.
proof fn lemma_truncate_u32(x: u64)
    ensures
        (x as u32) as int == gen_of_epoch(x as int),
        gen_of_epoch(x as int) <= x,
{
    assert((x as u32) as u64 == x % 0x1_0000_0000) by (bit_vector);
}

impl SegmentedLog {
    /// The frame at `offset`, if its segment is still readable (current or
    /// previous) and its generation matches.
    pub fn read(&self, offset: LogOffset) -> (r: Option<Frame<'_>>)
        requires
            self.wf(),
        ensures
            r is Some <==> self@.read_at(offset@) is Some,
            r matches Some(f) ==> ({
                &&& f.spec_payload() == self@.read_at(offset@).unwrap().0
                &&& f.spec_session_id() == self@.read_at(offset@).unwrap().1
                &&& f.spec_offset() == offset_epoch(offset@) * self@.segment_size + offset_local(offset@)
            }),
    {
        let slot = offset.slot();
        if slot != self.current && slot != self.prev {
            return None;
        }
        let ep = offset.epoch();
        if ep != self.gen_of(slot) {
            return None;
        }
        let off = offset.local_off();
        let seg = self.seg_of(slot);
        if off > self.segment_size - FRAME_HDR {
            return None;
        }
        match read_frame(seg.as_slice(), off) {
            None => None,
            Some((body, sid)) => {
                proof {
                    let e = self@.epoch;
                    let ep = ep as int;
                    if slot == self.current {
                        lemma_truncate_u32(self.epoch);
                        assert(ep == gen_of_epoch(e as int));
                    } else {
                        assert(e > 0);
                        lemma_truncate_u32((self.epoch - 1) as u64);
                        assert(ep == gen_of_epoch(e - 1));
                    }
                    let sz = self@.segment_size as int;
                    assert(ep * sz + off <= u64::MAX) by (nonlinear_arith)
                        requires
                            ep <= e,
                            off < sz,
                            (e + 1) * sz <= u64::MAX,
                            0 <= ep,
                            0 <= off,
                    ;
                }
                let payload = &seg.as_slice()[off + FRAME_HDR..off + FRAME_HDR + body];
                Some(Frame::new(payload, offset.global_offset(self.segment_size), sid))
            },
        }
    }

    /// Global offset of the next append.
    pub fn write_pos(&self) -> (r: u64)
        requires
            self.wf(),
        ensures
            r == self@.write_pos(),
    {
        proof {
            let e = self@.epoch as int;
            let sz = self@.segment_size as int;
            let c = self@.cursor as int;
            assert(e * sz + c <= u64::MAX) by (nonlinear_arith)
                requires
                    c <= sz,
                    (e + 1) * sz <= u64::MAX,
                    0 <= e,
            ;
        }
        self.epoch * self.segment_size as u64 + self.cursor as u64
    }

    /// Global offset of the start of the oldest readable segment.
    pub fn read_start(&self) -> (r: u64)
        requires
            self.wf(),
        ensures
            r == self@.read_start(),
    {
        if self.epoch == 0 {
            0
        } else {
            proof {
                let e = self@.epoch as int;
                let sz = self@.segment_size as int;
                assert((e - 1) * sz <= u64::MAX) by (nonlinear_arith)
                    requires
                        (e + 1) * sz <= u64::MAX,
                        e >= 1,
                        sz >= 0,
                ;
            }
            (self.epoch - 1) * self.segment_size as u64
        }
    }
}


/// One step of a sequential scan at a global position.
pub enum ScanStep {
    /// A committed frame: payload, session id, its position, the next
    /// position.
    Found(Seq<u8>, u32, int, int),
    /// Nothing more at this position in an older segment: continue at the
    /// start of the next one.
    Skip(int),
    /// Caught up with the writer, or the position was evicted.
    Stop,
}

impl LogModel {
    /// What the scan finds at global position `pos`.
    pub open spec fn scan_step(self, pos: int) -> ScanStep {
        let sz = self.segment_size as int;
        let seg = pos / sz;
        let local = pos % sz;
        if seg > self.epoch || (self.epoch > 0 && seg + 1 < self.epoch) {
            ScanStep::Stop
        } else {
            let bytes = self.segs[seg % 3];
            if local + 8 > sz {
                if seg < self.epoch { ScanStep::Skip((seg + 1) * sz) } else { ScanStep::Stop }
            } else {
                let stored = u32_at(bytes, local);
                if stored == 0 {
                    if seg < self.epoch { ScanStep::Skip((seg + 1) * sz) } else { ScanStep::Stop }
                } else if local + 8 + (stored - 1) > sz {
                    ScanStep::Stop
                } else {
                    ScanStep::Found(
                        bytes.subrange(local + 8, local + 8 + (stored - 1)),
                        u32_at(bytes, local + 4),
                        pos,
                        pos + spec_footprint(stored - 1),
                    )
                }
            }
        }
    }

    /// What `read_next` returns at `pos` and where it leaves the position:
    /// one step, repeated once after a skip.
    pub open spec fn scan(self, pos: int) -> (Option<(Seq<u8>, u32, int)>, int) {
        match self.scan_step(pos) {
            ScanStep::Found(p, s, f, n) => (Some((p, s, f)), n),
            ScanStep::Stop => (None, pos),
            ScanStep::Skip(q) => match self.scan_step(q) {
                ScanStep::Found(p, s, f, n) => (Some((p, s, f)), n),
                ScanStep::Stop => (None, q),
                ScanStep::Skip(r) => (None, r),
            },
        }
    }
}

enum ExecStep {
    Found(usize, usize, u32, u64),
    Skip(u64),
    Stop,
}

impl SegmentedLog {
    fn scan_step_exec(&self, pos: u64) -> (r: ExecStep)
        requires
            self.wf(),
            pos % 8 == 0,
        ensures
            match (r, self@.scan_step(pos as int)) {
                (ExecStep::Found(slot, local, sid, next), ScanStep::Found(p, s, f, n)) => {
                    &&& slot == ((pos as int) / (self@.segment_size as int)) % 3
                    &&& local + 8 + p.len() <= self@.segment_size
                    &&& slot < 3
                    &&& u32_at(self@.segs[slot as int], local as int) == p.len() + 1
                    &&& p == self@.segs[slot as int].subrange(local + 8, local + 8 + p.len())
                    &&& sid == s
                    &&& f == pos
                    &&& next == n
                },
                (ExecStep::Skip(q), ScanStep::Skip(q2)) => q == q2 && q % 8 == 0,
                (ExecStep::Stop, ScanStep::Stop) => true,
                _ => false,
            },
    {
        let sz = self.segment_size as u64;
        let seg = pos / sz;
        let local = (pos % sz) as usize;
        let epoch = self.epoch;
        if seg > epoch || (epoch > 0 && seg < epoch - 1) {
            return ExecStep::Stop;
        }
        let slot = (seg % 3) as usize;
        proof {
            let e = epoch as int;
            let z = sz as int;
            assert((seg + 1) * z <= u64::MAX) by (nonlinear_arith)
                requires
                    seg <= e,
                    (e + 1) * z <= u64::MAX,
                    0 <= seg,
                    0 <= z,
            ;
        }
        proof {
            vstd::arithmetic::div_mod::lemma_fundamental_div_mod(sz as int, 8);
            vstd::arithmetic::div_mod::lemma_mod_multiples_basic((seg + 1) * ((sz as int) / 8), 8);
            assert((seg + 1) * (sz as int) == (seg + 1) * ((sz as int) / 8) * 8) by (nonlinear_arith)
                requires
                    sz as int == 8 * ((sz as int) / 8),
            ;
        }
        if local > self.segment_size - FRAME_HDR {
            if seg < epoch {
                return ExecStep::Skip((seg + 1) * sz);
            }
            return ExecStep::Stop;
        }
        let bytes = self.seg_of(slot);
        let stored = crate::shm::seglog::frame::read_u32_at(bytes.as_slice(), local);
        if stored == 0 {
            if seg < epoch {
                return ExecStep::Skip((seg + 1) * sz);
            }
            return ExecStep::Stop;
        }
        let body = (stored - 1) as usize;
        if body > self.segment_size - FRAME_HDR - local {
            return ExecStep::Stop;
        }
        let sid = crate::shm::seglog::frame::read_u32_at(bytes.as_slice(), local + 4);
        let foot = footprint(body);
        proof {
            let e = epoch as int;
            let z = sz as int;
            vstd::arithmetic::div_mod::lemma_fundamental_div_mod(pos as int, z);
            let l = local as int;
            let sg = seg as int;
            assert(pos as int == z * sg + l);
            let kz = z / 8;
            let kp = (pos as int) / 8;
            vstd::arithmetic::div_mod::lemma_fundamental_div_mod(z, 8);
            vstd::arithmetic::div_mod::lemma_fundamental_div_mod(pos as int, 8);
            assert(l == 8 * (kp - kz * sg)) by (nonlinear_arith)
                requires
                    pos as int == z * sg + l,
                    pos as int == 8 * kp,
                    z == 8 * kz,
            ;
            vstd::arithmetic::div_mod::lemma_mod_multiples_basic(kp - kz * sg, 8);
            let b = body as int;
            assert(spec_align_up(b) <= z - l - 8) by (nonlinear_arith)
                requires
                    b <= z - l - 8,
                    (z - l - 8) % 8 == 0,
                    0 <= b,
            ;
            assert(z * sg + z <= u64::MAX) by (nonlinear_arith)
                requires
                    sg <= e,
                    (e + 1) * z <= u64::MAX,
                    0 <= sg,
                    0 <= z,
            ;
        }
        ExecStep::Found(slot, local, sid, pos + foot as u64)
    }
}


impl SegmentedLog {
    fn frame_from_step(&self, slot: usize, local: usize, sid: u32, pos: u64, len: Ghost<nat>) -> (f: Frame<'_>)
        requires
            self.wf(),
            slot < 3,
            local + 8 + len@ <= self@.segment_size,
            crate::shm::seglog::frame::u32_at(self@.segs[slot as int], local as int) == len@ + 1,
        ensures
            f.spec_payload() == self@.segs[slot as int].subrange(local + 8, local + 8 + len@),
            f.spec_session_id() == sid,
            f.spec_offset() == pos,
    {
        let bytes = self.seg_of(slot);
        let stored = crate::shm::seglog::frame::read_u32_at(bytes.as_slice(), local);
        let body = (stored - 1) as usize;
        let payload = &bytes.as_slice()[local + FRAME_HDR..local + FRAME_HDR + body];
        Frame::new(payload, pos, sid)
    }

    /// Reads the next committed frame at global position `pos` and advances
    /// `pos` past it; `None` when caught up with the writer or when `pos`
    /// names an evicted segment.
    pub fn read_next(&self, pos: &mut u64) -> (r: Option<Frame<'_>>)
        requires
            self.wf(),
            *old(pos) % 8 == 0,
        ensures
            ({
                let (found, next) = self@.scan(*old(pos) as int);
                &&& *final(pos) as int == next
                &&& (r is Some <==> found is Some)
                &&& (r matches Some(f) ==> ({
                    let (p, sid, at) = found.unwrap();
                    &&& f.spec_payload() == p
                    &&& f.spec_session_id() == sid
                    &&& f.spec_offset() == at
                }))
            }),
    {
        match self.scan_step_exec(*pos) {
            ExecStep::Found(slot, local, sid, next) => {
                let ghost len: nat = match self@.scan_step(*old(pos) as int) {
                    ScanStep::Found(p, _, _, _) => p.len(),
                    _ => 0,
                };
                let at = *pos;
                *pos = next;
                Some(self.frame_from_step(slot, local, sid, at, Ghost(len)))
            },
            ExecStep::Stop => None,
            ExecStep::Skip(q) => {
                *pos = q;
                match self.scan_step_exec(q) {
                    ExecStep::Found(slot, local, sid, next) => {
                        let ghost len: nat = match self@.scan_step(q as int) {
                            ScanStep::Found(p, _, _, _) => p.len(),
                            _ => 0,
                        };
                        *pos = next;
                        Some(self.frame_from_step(slot, local, sid, q, Ghost(len)))
                    },
                    ExecStep::Stop => None,
                    ExecStep::Skip(r) => {
                        *pos = r;
                        None
                    },
                }
            },
        }
    }
}


/// The slot roles recovery derives from a stored epoch.
pub open spec fn recovered_slots(epoch: nat) -> (nat, nat, nat) {
    if epoch == 0 {
        (0, 2, 1)
    } else if epoch == 1 {
        (1, 0, 2)
    } else {
        let c = (epoch % 3) as nat;
        let p = ((epoch - 1) % 3) as nat;
        (c, p, (3 - c - p) as nat)
    }
}

/// What `recover` returns for a request and stored bytes: the magic, then
/// the version, then the session, then (when `strict`) the segment size are
/// checked; a log that passes holds the bytes, with slot roles derived from
/// the epoch and the write tail found by scanning the current segment.
pub open spec fn recover_outcome(
    requested: usize,
    strict: bool,
    expected_session: u32,
    m: Seq<u8>,
    s0: Seq<u8>,
    s1: Seq<u8>,
    s2: Seq<u8>,
    r: Result<SegmentedLog, OpenError>,
) -> bool {
    &&& (header_magic(m) != MANIFEST_MAGIC ==> (r matches Err(OpenError::Shm(ShmError::BadMagic { found }))
        && found == header_magic(m)))
    &&& (header_magic(m) == MANIFEST_MAGIC && header_version(m) != MANIFEST_VERSION ==> (r matches Err(
        OpenError::Shm(ShmError::UnsupportedLayout { found, expected }),
    ) && found == header_version(m) && expected == MANIFEST_VERSION))
    &&& (header_error(m) is None && header_session_id(m) != expected_session ==> r == Err::<SegmentedLog, OpenError>(
        OpenError::ConfigMismatch {
            field: "session_id",
            expected: expected_session as u64,
            found: header_session_id(m) as u64,
        },
    ))
    &&& (header_error(m) is None && header_session_id(m) == expected_session && strict
        && header_segment_size(m) != requested ==> r == Err::<SegmentedLog, OpenError>(
        OpenError::ConfigMismatch {
            field: "segment_size",
            expected: requested as u64,
            found: header_segment_size(m),
        },
    ))
    &&& (r is Ok <==> (header_error(m) is None && header_session_id(m) == expected_session && (!strict
        || header_segment_size(m) == requested)))
    &&& (r matches Ok(log) ==> ({
        &&& log.wf()
        &&& log@.wf()
        &&& log@.tail_found()
        &&& log@.segment_size == header_segment_size(m)
        &&& log@.session_id == header_session_id(m)
        &&& log@.epoch == header_epoch(m)
        &&& log@.segs == seq![s0, s1, s2]
        &&& (log@.current, log@.prev, log@.standby) == recovered_slots(log@.epoch)
        &&& log@.cursor == scan_tail(log@.segs[log@.current as int], 0)
        &&& log@.cursor <= log@.segment_size
        &&& log@.standby_ready
        &&& log.spec_manifest() == m
        &&& log@.gens[log@.standby as int] == u32::MAX
    }))
}

impl SegmentedLog {
    /// Reopens a log from a manifest's fields and the three segments'
    /// bytes: checks the session (and, when `strict`, the segment size)
    /// against the request, derives the slot roles from the epoch and finds
    /// the write tail of the current segment.
    pub fn recover(
        requested_size: usize,
        strict: bool,
        expected_session_id: u32,
        manifest_bytes: Vec<u8>,
        seg0: Vec<u8>,
        seg1: Vec<u8>,
        seg2: Vec<u8>,
    ) -> (r: Result<Self, OpenError>)
        requires
            manifest_bytes@.len() >= MANIFEST_HEADER_LEN,
            64 <= header_segment_size(manifest_bytes@) <= u32::MAX,
            header_segment_size(manifest_bytes@) % 8 == 0,
            header_segment_size(manifest_bytes@) + 16 <= usize::MAX,
            (header_epoch(manifest_bytes@) + 1) * header_segment_size(manifest_bytes@) <= u64::MAX,
            seg0@.len() == header_segment_size(manifest_bytes@),
            seg1@.len() == header_segment_size(manifest_bytes@),
            seg2@.len() == header_segment_size(manifest_bytes@),
        ensures
            recover_outcome(requested_size, strict, expected_session_id, manifest_bytes@, seg0@, seg1@, seg2@, r),
    {
        let manifest = match Manifest::open(manifest_bytes) {
            Ok(m) => m,
            Err(e) => return Err(OpenError::from(e)),
        };
        let manifest_size = manifest.segment_size();
        let manifest_session_id = manifest.session_id();
        let epoch = manifest.epoch();
        if manifest_session_id != expected_session_id {
            return Err(OpenError::ConfigMismatch {
                field: "session_id",
                expected: expected_session_id as u64,
                found: manifest_session_id as u64,
            });
        }
        let size = manifest_size as usize;
        if strict && size != requested_size {
            return Err(OpenError::ConfigMismatch {
                field: "segment_size",
                expected: requested_size as u64,
                found: manifest_size,
            });
        }
        let (current, prev, standby): (usize, usize, usize) = if epoch == 0 {
            (0, 2, 1)
        } else if epoch == 1 {
            (1, 0, 2)
        } else {
            let c = (epoch % 3) as usize;
            let p = ((epoch - 1) % 3) as usize;
            (c, p, 3 - c - p)
        };
        let cursor = if current == 0 {
            recover_tail(seg0.as_slice())
        } else if current == 1 {
            recover_tail(seg1.as_slice())
        } else {
            recover_tail(seg2.as_slice())
        };
        let g = epoch as u32;
        proof {
            lemma_truncate_u32(epoch);
        }
        let gp = if epoch > 0 {
            proof {
                lemma_truncate_u32((epoch - 1) as u64);
            }
            (epoch - 1) as u32
        } else {
            u32::MAX
        };
        let gen0 = if current == 0 { g } else if prev == 0 { gp } else { u32::MAX };
        let gen1 = if current == 1 { g } else if prev == 1 { gp } else { u32::MAX };
        let gen2 = if current == 2 { g } else if prev == 2 { gp } else { u32::MAX };
        let log = SegmentedLog {
            seg0,
            seg1,
            seg2,
            manifest,
            segment_size: size,
            session_id: manifest_session_id,
            current,
            prev,
            standby,
            cursor,
            epoch,
            gen0,
            gen1,
            gen2,
            standby_ready: true,
        };
        proof {
            reveal(manifest_agrees);
            lemma_recovered_slots(epoch as nat);
            assert(log@.segs[0] == log.seg0@);
            assert(log@.segs[1] == log.seg1@);
            assert(log@.segs[2] == log.seg2@);
            lemma_recovered_tail_found(log@.segs[current as int], cursor as int);
        }
        Ok(log)
    }
}

/// A header's segment size and epoch fit this log: the size is 64 to
/// `u32::MAX` bytes, a multiple of 8 and leaves room for a frame header in
/// a `usize`, and global positions up to the end of the epoch's segment
/// fit a `u64`.
pub open spec fn manifest_layout_ok(m: Seq<u8>) -> bool {
    &&& 64 <= header_segment_size(m) <= u32::MAX
    &&& header_segment_size(m) % 8 == 0
    &&& header_segment_size(m) + 16 <= usize::MAX
    &&& (header_epoch(m) + 1) * header_segment_size(m) <= u64::MAX
}

/// What checking stored manifest bytes gives: a short header is corrupt,
/// then the magic and the version are checked, then the layout; a manifest
/// that passes yields its segment size.
pub open spec fn manifest_check(m: Seq<u8>) -> Result<usize, OpenError> {
    if m.len() < MANIFEST_HEADER_LEN {
        Err(OpenError::Shm(ShmError::CorruptHeader))
    } else if header_magic(m) != MANIFEST_MAGIC {
        Err(OpenError::Shm(ShmError::BadMagic { found: header_magic(m) }))
    } else if header_version(m) != MANIFEST_VERSION {
        Err(OpenError::Shm(ShmError::UnsupportedLayout { found: header_version(m), expected: MANIFEST_VERSION }))
    } else if !manifest_layout_ok(m) {
        Err(OpenError::Shm(ShmError::CorruptHeader))
    } else {
        Ok(header_segment_size(m) as usize)
    }
}

/// Checks stored manifest bytes before the segments are read, and returns
/// the segment size they record.
pub fn check_manifest(m: &[u8]) -> (r: Result<usize, OpenError>)
    ensures
        r == manifest_check(m@),
{
    if m.len() < MANIFEST_HEADER_LEN {
        return Err(OpenError::Shm(ShmError::CorruptHeader));
    }
    let magic = u32_from_le_bytes(&m[80..84]);
    if magic != MANIFEST_MAGIC {
        return Err(OpenError::Shm(ShmError::BadMagic { found: magic }));
    }
    let version = u16_from_le_bytes(&m[88..90]);
    if version != MANIFEST_VERSION {
        return Err(OpenError::Shm(ShmError::UnsupportedLayout { found: version, expected: MANIFEST_VERSION }));
    }
    let size = u64_from_le_bytes(&m[64..72]);
    let epoch = u64_from_le_bytes(&m[72..80]);
    if size < 64 || size > 0xFFFF_FFFF || size % 8 != 0 {
        return Err(OpenError::Shm(ShmError::CorruptHeader));
    }
    if size > (usize::MAX - 16) as u64 {
        return Err(OpenError::Shm(ShmError::CorruptHeader));
    }
    let q = u64::MAX / size;
    proof {
        let s = size as int;
        let e = epoch as int;
        let mx = u64::MAX as int;
        vstd::arithmetic::div_mod::lemma_fundamental_div_mod(mx, s);
        assert(((e + 1) * s <= mx) == (e < q)) by (nonlinear_arith)
            requires
                s > 0,
                mx == s * (q as int) + mx % s,
                0 <= mx % s < s,
                e >= 0,
                q >= 0,
        ;
    }
    if epoch >= q {
        return Err(OpenError::Shm(ShmError::CorruptHeader));
    }
    Ok(size as usize)
}

impl SegmentedLog {
    /// Reopens a log from stored bytes, checking first what recovery
    /// relies on: the manifest (see [`check_manifest`]), then each
    /// segment's length against the recorded segment size.
    pub fn reopen(
        requested_size: usize,
        strict: bool,
        expected_session_id: u32,
        manifest_bytes: Vec<u8>,
        seg0: Vec<u8>,
        seg1: Vec<u8>,
        seg2: Vec<u8>,
    ) -> (r: Result<Self, OpenError>)
        ensures
            manifest_check(manifest_bytes@) matches Err(e) ==> r == Err::<Self, OpenError>(e),
            manifest_check(manifest_bytes@) matches Ok(n) ==> (if seg0@.len() != n {
                r == Err::<Self, OpenError>(OpenError::Shm(ShmError::MappingTooSmall { required: n, actual: seg0@.len() as usize }))
            } else if seg1@.len() != n {
                r == Err::<Self, OpenError>(OpenError::Shm(ShmError::MappingTooSmall { required: n, actual: seg1@.len() as usize }))
            } else if seg2@.len() != n {
                r == Err::<Self, OpenError>(OpenError::Shm(ShmError::MappingTooSmall { required: n, actual: seg2@.len() as usize }))
            } else {
                recover_outcome(requested_size, strict, expected_session_id, manifest_bytes@, seg0@, seg1@, seg2@, r)
            }),
    {
        let size = match check_manifest(manifest_bytes.as_slice()) {
            Ok(n) => n,
            Err(e) => return Err(e),
        };
        if seg0.len() != size {
            return Err(OpenError::Shm(ShmError::MappingTooSmall { required: size, actual: seg0.len() }));
        }
        if seg1.len() != size {
            return Err(OpenError::Shm(ShmError::MappingTooSmall { required: size, actual: seg1.len() }));
        }
        if seg2.len() != size {
            return Err(OpenError::Shm(ShmError::MappingTooSmall { required: size, actual: seg2.len() }));
        }
        Self::recover(requested_size, strict, expected_session_id, manifest_bytes, seg0, seg1, seg2)
    }
}

/// The tail a recovery scan finds: committed frames lead to it, and in an
/// aligned segment nothing committed is found there, since a frame whose
/// payload fits also fits with its padding.
proof fn lemma_recovered_tail_found(seg: Seq<u8>, c: int)
    requires
        seg.len() % 8 == 0,
        c == scan_tail(seg, 0),
        c % 8 == 0,
        c + 8 <= seg.len() ==> frame_at(seg, c) is None || spec_footprint(
            frame_at(seg, c).unwrap().0.len() as int,
        ) + c > seg.len(),
    ensures
        reaches(seg, 0, c),
        c + 8 <= seg.len() ==> frame_at(seg, c) is None,
{
    lemma_scan_reaches(seg, 0);
    if c + 8 <= seg.len() && frame_at(seg, c) is Some {
        let b = frame_at(seg, c).unwrap().0.len() as int;
        let z = seg.len() as int;
        assert((z - c - 8) % 8 == 0) by (nonlinear_arith)
            requires
                z % 8 == 0,
                c % 8 == 0,
        ;
        assert(spec_align_up(b) <= z - c - 8) by (nonlinear_arith)
            requires
                b <= z - c - 8,
                (z - c - 8) % 8 == 0,
                0 <= b,
        ;
    }
}

/// Rotation visits the slots cyclically: the next epoch's current slot is
/// this epoch's standby, its previous slot this epoch's current, and its
/// standby this epoch's previous.
pub proof fn lemma_rotation_cycle(epoch: nat)
    ensures
        slots_for_epoch(epoch + 1).0 == slots_for_epoch(epoch).2,
        slots_for_epoch(epoch + 1).1 == slots_for_epoch(epoch).0,
        slots_for_epoch(epoch + 1).2 == slots_for_epoch(epoch).1,
        slots_for_epoch(epoch).0 != slots_for_epoch(epoch).1,
        slots_for_epoch(epoch).0 != slots_for_epoch(epoch).2,
        slots_for_epoch(epoch).1 != slots_for_epoch(epoch).2,
{
}

/// Recovery derives from the stored epoch exactly the slot roles that
/// rotation had reached.
pub proof fn lemma_recovered_slots(epoch: nat)
    ensures
        recovered_slots(epoch) == slots_for_epoch(epoch),
{
}

/// A record just appended reads back as written, both by its offset and by
/// a sequential scan at its global position, while epochs fit the offset's
/// 30-bit generation field.
pub proof fn lemma_read_after_append(old: LogModel, new: LogModel, payload: Seq<u8>, raw: u64)
    requires
        old.wf(),
        new.wf(),
        old.appended(new, payload, raw),
        new.epoch < 0x4000_0000,
    ensures
        new.read_at(raw) == Some((payload, old.session_id)),
        new.committed(raw),
        ({
            let pos = new.epoch * new.segment_size + offset_local(raw);
            new.scan(pos) == (Some((payload, old.session_id, pos)), pos + spec_footprint(payload.len() as int))
        }),
{
    let sz = new.segment_size as int;
    let off = offset_local(raw) as int;
    let e = new.epoch as int;
    let pos = e * sz + off;
    assert(off < sz);
    vstd::arithmetic::div_mod::lemma_fundamental_div_mod_converse(pos, sz, e, off);
    let bytes = new.segs[new.current as int];
    assert(frame_at(bytes, off) == Some((payload, old.session_id)));
    let stored = u32_at(bytes, off);
    assert(stored - 1 == payload.len());
}

/// A readable record is found again by a sequential scan at its global
/// position, `epoch * segment_size + local offset`, while epochs fit the
/// offset's 30-bit generation field.
pub proof fn lemma_scan_finds_readable(m: LogModel, raw: u64)
    requires
        m.wf(),
        m.epoch < 0x4000_0000,
        m.read_at(raw) is Some,
    ensures
        ({
            let pos = offset_epoch(raw) * m.segment_size + offset_local(raw);
            let (p, sid) = m.read_at(raw).unwrap();
            m.scan(pos) == (Some((p, sid, pos)), pos + spec_footprint(p.len() as int))
        }),
{
    let sz = m.segment_size as int;
    let off = offset_local(raw) as int;
    let e = offset_epoch(raw) as int;
    assert((raw >> 34u64) <= 0x3FFF_FFFF) by (bit_vector);
    assert(e < 0x4000_0000);
    if offset_slot(raw) as nat == m.current {
        assert(e == m.epoch);
    } else {
        assert(m.epoch > 0);
        assert(e == m.epoch - 1);
    }
    let pos = e * sz + off;
    assert(off < sz);
    vstd::arithmetic::div_mod::lemma_fundamental_div_mod_converse(pos, sz, e, off);
    let bytes = m.segs[offset_slot(raw) as int];
    let p = m.read_at(raw).unwrap().0;
    let stored = u32_at(bytes, off);
    assert(stored - 1 == p.len());
}

/// Appending never disturbs a committed record: without a rotation it reads
/// the same; across a rotation a record of the old current segment reads the
/// same from the previous slot, and a record of the old previous segment is
/// evicted.
pub proof fn lemma_append_keeps_committed(old: LogModel, new: LogModel, payload: Seq<u8>, raw: u64, x: u64)
    requires
        old.wf(),
        new.wf(),
        old.appended(new, payload, raw),
        old.committed(x),
    ensures
        !old.needs_rotation(payload.len()) ==> new.read_at(x) == old.read_at(x) && new.committed(x),
        old.needs_rotation(payload.len()) && offset_slot(x) as nat == old.current ==> new.read_at(x)
            == old.read_at(x) && new.committed(x),
        old.needs_rotation(payload.len()) && offset_slot(x) as nat == old.prev ==> new.read_at(x) is None,
{
    let slot = offset_slot(x) as int;
    let off = offset_local(x) as int;
    if !old.needs_rotation(payload.len()) {
        if slot == old.current {
            let body = old.read_at(x).unwrap().0.len() as int;
            assert(off + spec_footprint(body) <= old.cursor);
            lemma_frame_stable(old.segs[slot], new.segs[slot], off, old.cursor as int);
        }
    } else {
        lemma_rotation_cycle(old.epoch);
    }
}

/// A successful append leaves the tail marked, and a sealed log sealed: the
/// new frame extends the chain of committed frames to the new cursor, which
/// it marks with a zero commit length.
pub proof fn lemma_appended_sealed(old: LogModel, new: LogModel, payload: Seq<u8>, raw: u64)
    requires
        old.wf(),
        new.wf(),
        old.tail_found(),
        old.appended(new, payload, raw),
    ensures
        new.tail_marked(),
        old.sealed() ==> new.sealed(),
{
    let off = offset_local(raw) as int;
    let a = old.segs[new.current as int];
    let b = new.segs[new.current as int];
    if !old.needs_rotation(payload.len()) {
        lemma_reaches_stable(a, b, 0, off);
    } else {
        assert(reaches(b, 0, 0));
    }
    lemma_reaches_extend(b, 0, off);
}

/// Recovery finds the write tail: when the tail is marked, scanning the current
/// segment from its start stops exactly at the cursor.
pub proof fn lemma_recovery_finds_tail(m: LogModel)
    requires
        m.wf(),
        m.tail_found(),
    ensures
        scan_tail(m.segs[m.current as int], 0) == m.cursor,
{
    let seg = m.segs[m.current as int];
    lemma_scan_follows_chain(seg, 0, m.cursor as int);
}

/// Reopening a log whose tail is marked, from its manifest fields and
/// segment bytes, gives back the same log: the same write position, the
/// same answer for every offset, a marked tail and, where the previous
/// segment was sealed, a sealed previous segment.
pub proof fn lemma_recover_restores(m: LogModel, r: LogModel)
    requires
        m.wf(),
        m.tail_found(),
        r.wf(),
        r.segs == m.segs,
        r.epoch == m.epoch,
        r.segment_size == m.segment_size,
        (r.current, r.prev, r.standby) == recovered_slots(m.epoch),
        r.cursor == scan_tail(r.segs[r.current as int], 0),
    ensures
        r.cursor == m.cursor,
        r.write_pos() == m.write_pos(),
        forall|raw: u64| #[trigger] r.read_at(raw) == m.read_at(raw),
        r.tail_found(),
        m.tail_marked() ==> r.tail_marked(),
        m.prev_sealed() ==> r.prev_sealed(),
{
    lemma_recovered_slots(m.epoch);
    lemma_recovery_finds_tail(m);
    if m.prev_sealed() && m.epoch > 0 {
        let end = choose|end: int| #[trigger] m.prev_chain_end(end);
        assert(r.prev_chain_end(end));
    }
    assert forall|raw: u64| #[trigger] r.read_at(raw) == m.read_at(raw) by {
        let slot = offset_slot(raw) as int;
        if slot == m.current as int || slot == m.prev as int {
            if m.epoch == 0 && slot == m.prev as int {
                assert(m.gens[slot] == r.gens[slot]);
            }
        }
    }
}

/// An offset stamped two or more rotations ago reads nothing: its slot has
/// been handed back for cleaning or reused under a newer stamp.
pub proof fn lemma_evicted_offset_unreadable(m: LogModel, raw: u64, e: nat)
    requires
        m.wf(),
        m.epoch < 0x4000_0000,
        e + 2 <= m.epoch,
        offset_epoch(raw) == e,
    ensures
        m.read_at(raw) is None,
        !m.committed(raw),
{
    assert(gen_of_epoch(m.epoch as int) == m.epoch);
    assert(gen_of_epoch(m.epoch - 1) == m.epoch - 1);
}

/// Every append moves the global write position forward, across rotations
/// too.
pub proof fn lemma_write_pos_increases(old: LogModel, new: LogModel, payload: Seq<u8>, raw: u64)
    requires
        old.wf(),
        new.wf(),
        old.appended(new, payload, raw),
    ensures
        new.write_pos() > old.write_pos(),
{
    let sz = old.segment_size as int;
    let e = old.epoch as int;
    assert((e + 1) * sz == e * sz + sz) by (nonlinear_arith);
}

/// A reader at the write position has caught up: the scan finds nothing
/// and stays put.
pub proof fn lemma_scan_caught_up(m: LogModel)
    requires
        m.wf(),
        m.tail_found(),
    ensures
        m.scan(m.write_pos()) == (None::<(Seq<u8>, u32, int)>, m.write_pos()),
{
    let sz = m.segment_size as int;
    let e = m.epoch as int;
    let c = m.cursor as int;
    let pos = m.write_pos();
    if c < sz {
        vstd::arithmetic::div_mod::lemma_fundamental_div_mod_converse(pos, sz, e, c);
        assert(m.current as int == e % 3);
    } else {
        assert(pos == (e + 1) * sz) by (nonlinear_arith)
            requires
                pos == e * sz + c,
                c == sz,
        ;
        vstd::arithmetic::div_mod::lemma_fundamental_div_mod_converse(pos, sz, e + 1, 0);
    }
}

/// Following a chain of committed frames in the segment of `seg_no`
/// yields each frame in turn, from offset `x` up to `c`.
proof fn lemma_drain_chain(m: LogModel, seg_no: int, x: int, c: int, to: int)
    requires
        m.wf(),
        seg_no == m.epoch || (m.epoch > 0 && seg_no == m.epoch - 1),
        0 <= x <= c <= m.segment_size,
        reaches(m.segs[seg_no % 3], x, c),
        seg_no * m.segment_size + c <= to,
        m.drains_to(seg_no * m.segment_size + c, to),
    ensures
        m.drains_to(seg_no * m.segment_size + x, to),
    decreases c - x,
{
    if x < c {
        let sz = m.segment_size as int;
        let bytes = m.segs[seg_no % 3];
        let p = frame_at(bytes, x).unwrap().0;
        let foot = spec_footprint(p.len() as int);
        let pos = seg_no * sz + x;
        assert(seg_no >= 0);
        vstd::arithmetic::div_mod::lemma_fundamental_div_mod_converse(pos, sz, seg_no, x);
        let stored = u32_at(bytes, x);
        assert(stored - 1 == p.len());
        assert(m.scan_step(pos) == ScanStep::Found(p, frame_at(bytes, x).unwrap().1, pos, pos + foot));
        lemma_drain_chain(m, seg_no, x + foot, c, to);
    }
}

/// The current segment is drained from its start to the write position.
proof fn lemma_drain_current(m: LogModel)
    requires
        m.wf(),
        m.tail_found(),
    ensures
        m.drains_to(m.epoch * (m.segment_size as int), m.write_pos()),
{
    assert(m.current as int == (m.epoch as int) % 3);
    lemma_drain_chain(m, m.epoch as int, 0, m.cursor as int, m.write_pos());
}

/// At the end of the previous segment's chain, a reader skips to the start
/// of the current segment and drains it.
#[verifier::rlimit(40)]
#[verifier::spinoff_prover]
proof fn lemma_drain_from_prev_end(m: LogModel, end: int)
    requires
        m.wf(),
        m.tail_found(),
        m.epoch > 0,
        m.prev_chain_end(end),
    ensures
        m.drains_to((m.epoch - 1) * (m.segment_size as int) + end, m.write_pos()),
{
    let sz = m.segment_size as int;
    let e = m.epoch as int;
    let wp = m.write_pos();
    let q = (e - 1) * sz + end;
    assert((e - 1) * sz + sz == e * sz) by (nonlinear_arith);
    lemma_drain_current(m);
    if end < sz {
        assert(m.prev as int == (e - 1) % 3);
        vstd::arithmetic::div_mod::lemma_fundamental_div_mod_converse(q, sz, e - 1, end);
        vstd::arithmetic::div_mod::lemma_fundamental_div_mod_converse(e * sz, sz, e, 0);
        assert(m.scan_step(q) == ScanStep::Skip(e * sz));
        let cur = m.segs[m.current as int];
        assert(m.current as int == e % 3);
        if m.cursor == 0 {
            assert(m.scan_step(e * sz) == ScanStep::Stop);
        } else {
            let p0 = frame_at(cur, 0).unwrap().0;
            let f0 = spec_footprint(p0.len() as int);
            assert(u32_at(cur, 0) - 1 == p0.len());
            assert(m.scan_step(e * sz) == ScanStep::Found(p0, frame_at(cur, 0).unwrap().1, e * sz, e * sz + f0));
            lemma_drain_chain(m, e, f0, m.cursor as int, wp);
        }
    }
}

/// Reading a log with a marked tail and a sealed previous segment from its
/// read start yields every committed frame
/// of the previous and current segments and ends at the write position,
/// where the reader has caught up.
#[verifier::rlimit(40)]
#[verifier::spinoff_prover]
pub proof fn lemma_drain_reaches_write_pos(m: LogModel)
    requires
        m.wf(),
        m.tail_found(),
        m.prev_sealed(),
    ensures
        m.drains_to(m.read_start(), m.write_pos()),
        m.scan(m.write_pos()) == (None::<(Seq<u8>, u32, int)>, m.write_pos()),
{
    lemma_scan_caught_up(m);
    lemma_drain_current(m);
    let sz = m.segment_size as int;
    if m.epoch > 0 {
        let end = choose|end: int| #[trigger] m.prev_chain_end(end);
        lemma_drain_from_prev_end(m, end);
        assert(m.prev as int == (m.epoch - 1) % 3);
        lemma_drain_chain(m, m.epoch - 1, 0, end, m.write_pos());
        assert((m.epoch - 1) * sz + 0 == m.read_start());
    } else {
        assert(m.epoch * sz == 0) by (nonlinear_arith)
            requires
                m.epoch == 0,
        ;
    }
}

/// Appends keep the previous segment sealed: a rotation hands over the
/// current segment, whose chain ends at the old cursor.
pub proof fn lemma_appended_prev_sealed(old: LogModel, new: LogModel, payload: Seq<u8>, raw: u64)
    requires
        old.wf(),
        new.wf(),
        old.tail_marked(),
        old.prev_sealed(),
        old.appended(new, payload, raw),
    ensures
        new.prev_sealed(),
{
    if old.needs_rotation(payload.len()) {
        assert(new.prev_chain_end(old.cursor as int));
    } else if new.epoch > 0 {
        let end = choose|end: int| #[trigger] old.prev_chain_end(end);
        assert(new.prev_chain_end(end));
    }
}

/// Cleaning the standby segment keeps the previous segment's chain.
pub proof fn lemma_clean_keeps_prev_sealed(old: LogModel, new: LogModel)
    requires
        old.wf(),
        old.prev_sealed(),
        new == (LogModel { segs: new.segs, standby_ready: true, ..old }),
        new.segs[new.prev as int] == old.segs[old.prev as int],
    ensures
        new.prev_sealed(),
{
    if new.epoch > 0 {
        let end = choose|end: int| #[trigger] old.prev_chain_end(end);
        assert(new.prev_chain_end(end));
    }
}

/// An append that rotates first: the frame lands at the start of the
/// segment that was standby.
proof fn lemma_rotated_append(before: LogModel, mid: LogModel, after: LogModel, payload: Seq<u8>, raw: u64)
    requires
        before.wf(),
        before.needs_rotation(payload.len()),
        mid == (LogModel {
            current: before.standby,
            prev: before.current,
            standby: before.prev,
            cursor: 0,
            epoch: before.epoch + 1,
            gens: before.gens.update(before.standby as int, gen_of_epoch(before.epoch + 1int) as u32),
            standby_ready: false,
            ..before
        }),
        mid.appended(after, payload, raw),
        !mid.needs_rotation(payload.len()),
    ensures
        before.appended(after, payload, raw),
{
}

/// Reopening a log whose tail is marked from its own manifest and segment
/// bytes: the manifest passes recovery's checks with the log's own session
/// and size, and the recovered log has the same write position, answers
/// every offset as the original did, and can be drained as it could.
pub proof fn lemma_reopen_restores(m: LogModel, manifest: Seq<u8>, r: LogModel)
    requires
        m.wf(),
        m.tail_found(),
        manifest_agrees(manifest, m.epoch as u64, m.segment_size as usize, m.session_id),
        r.wf(),
        r.segs == m.segs,
        r.epoch == header_epoch(manifest),
        r.segment_size == header_segment_size(manifest),
        (r.current, r.prev, r.standby) == recovered_slots(r.epoch),
        r.cursor == scan_tail(r.segs[r.current as int], 0),
    ensures
        header_error(manifest) is None,
        header_session_id(manifest) == m.session_id,
        header_segment_size(manifest) == m.segment_size,
        r.cursor == m.cursor,
        r.write_pos() == m.write_pos(),
        forall|raw: u64| #[trigger] r.read_at(raw) == m.read_at(raw),
        r.tail_found(),
        m.tail_marked() ==> r.tail_marked(),
        m.prev_sealed() ==> r.prev_sealed(),
{
    reveal(manifest_agrees);
    let e = m.epoch as int;
    let sz = m.segment_size as int;
    assert(e <= u64::MAX) by (nonlinear_arith)
        requires
            (e + 1) * sz <= u64::MAX,
            sz >= 64,
            e >= 0,
    ;
    lemma_recover_restores(m, r);
}

} // verus!
