//! The session manifest: a fixed 96-byte little-endian header at the start
//! of `journal.manifest`, holding the structural config (segment size,
//! session id, name) and the rotation epoch.
//!
//! ```text
//!  offset  size  field
//!    0      64   name             (zero padded)
//!   64       8   segment_size
//!   72       8   epoch
//!   80       4   magic            ("NXLG")
//!   84       4   session_id
//!   88       2   version          (1)
//!   90       1   name_len
//!   91       5   padding
//! ```
use vstd::prelude::*;
use vstd::bytes::{
    spec_u16_from_le_bytes, spec_u16_to_le_bytes, spec_u32_from_le_bytes, spec_u32_to_le_bytes,
    spec_u64_from_le_bytes, spec_u64_to_le_bytes, u16_from_le_bytes, u16_to_le_bytes,
    u32_from_le_bytes, u32_to_le_bytes, u64_from_le_bytes, u64_to_le_bytes,
    lemma_auto_spec_u16_to_from_le_bytes, lemma_auto_spec_u32_to_from_le_bytes,
    lemma_auto_spec_u64_to_from_le_bytes,
};
use crate::shm::error::ShmError;
use crate::shm::seglog::frame::u32_at;

verus! {

/// `"NXLG"` read as a little-endian `u32`.
pub const MANIFEST_MAGIC: u32 = 0x474C_584E;

/// Manifest format version.
pub const MANIFEST_VERSION: u16 = 1;

/// Bytes of the manifest header.
pub const MANIFEST_HEADER_LEN: usize = 96;

/// Size of the manifest file.
pub const MANIFEST_FILE_SIZE: usize = 4096;

/// Bytes of the name field.
pub const MANIFEST_NAME_LEN: usize = 64;

/// The little-endian `u64` stored at `off`.
pub open spec fn u64_at(buf: Seq<u8>, off: int) -> u64 {
    spec_u64_from_le_bytes(buf.subrange(off, off + 8))
}

/// The little-endian `u16` stored at `off`.
pub open spec fn u16_at(buf: Seq<u8>, off: int) -> u16 {
    spec_u16_from_le_bytes(buf.subrange(off, off + 2))
}

/// How many bytes of `name` the header keeps.
pub open spec fn kept_name_len(name: Seq<u8>) -> int {
    if name.len() < 64 { name.len() as int } else { 64 }
}

/// The 64-byte name field: the kept bytes, then zeros.
pub open spec fn name_field(name: Seq<u8>) -> Seq<u8> {
    name.subrange(0, kept_name_len(name)) + Seq::new((64 - kept_name_len(name)) as nat, |i: int| 0u8)
}

/// The header a fresh manifest holds: epoch zero, the current magic and
/// version, the name truncated to 64 bytes.
pub open spec fn manifest_header(segment_size: u64, session_id: u32, name: Seq<u8>) -> Seq<u8> {
    name_field(name) + spec_u64_to_le_bytes(segment_size) + spec_u64_to_le_bytes(0) + spec_u32_to_le_bytes(
        MANIFEST_MAGIC,
    ) + spec_u32_to_le_bytes(session_id) + spec_u16_to_le_bytes(MANIFEST_VERSION) + seq![
        kept_name_len(name) as u8,
    ] + Seq::new(5, |i: int| 0u8)
}

/// Field readers over the header bytes.
pub open spec fn header_segment_size(h: Seq<u8>) -> u64 {
    u64_at(h, 64)
}

pub open spec fn header_epoch(h: Seq<u8>) -> u64 {
    u64_at(h, 72)
}

pub open spec fn header_magic(h: Seq<u8>) -> u32 {
    u32_at(h, 80)
}

pub open spec fn header_session_id(h: Seq<u8>) -> u32 {
    u32_at(h, 84)
}

pub open spec fn header_version(h: Seq<u8>) -> u16 {
    u16_at(h, 88)
}

pub open spec fn header_name_len(h: Seq<u8>) -> u8 {
    h[90]
}

pub open spec fn header_name(h: Seq<u8>) -> Seq<u8> {
    h.subrange(0, h[90] as int)
}

/// The error a header is rejected with, if any: the magic is checked
/// first, then the version.
pub open spec fn header_error(h: Seq<u8>) -> Option<(u32, u16)> {
    if header_magic(h) != MANIFEST_MAGIC {
        Some((header_magic(h), 0))
    } else if header_version(h) != MANIFEST_VERSION {
        Some((0, header_version(h)))
    } else {
        None
    }
}

/// Persistent metadata of one session: the manifest file's bytes.
pub struct Manifest {
    bytes: Vec<u8>,
}

impl View for Manifest {
    type V = Seq<u8>;

    closed spec fn view(&self) -> Seq<u8> {
        self.bytes@
    }
}

/// Copies `src` into `buf` at `off`; other bytes are untouched.
fn copy_at(buf: &mut Vec<u8>, off: usize, src: &[u8])
    requires
        off + src@.len() <= old(buf)@.len(),
    ensures
        final(buf)@ == old(buf)@.subrange(0, off as int) + src@ + old(buf)@.subrange(
            off + src@.len(),
            old(buf)@.len() as int,
        ),
{
    let len = buf.len();
    let mut i: usize = 0;
    while i < src.len()
        invariant
            len == buf@.len(),
            off + src@.len() <= buf@.len(),
            buf@.len() == old(buf)@.len(),
            i <= src@.len(),
            forall|j: int| 0 <= j < i ==> buf@[off + j] == src@[j],
            forall|j: int| 0 <= j < buf@.len() && !(off <= j < off + i) ==> buf@[j] == old(buf)@[j],
        decreases src@.len() - i,
    {
        buf.set(off + i, src[i]);
        i = i + 1;
    }
    assert(buf@ =~= old(buf)@.subrange(0, off as int) + src@ + old(buf)@.subrange(
        off + src@.len(),
        old(buf)@.len() as int,
    ));
}

/// Lengths of the encoded integers.
proof fn lemma_le_lengths(a: u64, b: u32, c: u16)
    ensures
        spec_u64_to_le_bytes(a).len() == 8,
        spec_u32_to_le_bytes(b).len() == 4,
        spec_u16_to_le_bytes(c).len() == 2,
        spec_u64_from_le_bytes(spec_u64_to_le_bytes(a)) == a,
        spec_u32_from_le_bytes(spec_u32_to_le_bytes(b)) == b,
        spec_u16_from_le_bytes(spec_u16_to_le_bytes(c)) == c,
{
    lemma_auto_spec_u64_to_from_le_bytes();
    lemma_auto_spec_u32_to_from_le_bytes();
    lemma_auto_spec_u16_to_from_le_bytes();
}

/// Reading a fresh header back gives the fields it was written with.
pub proof fn lemma_manifest_roundtrip(segment_size: u64, session_id: u32, name: Seq<u8>)
    ensures
        manifest_header(segment_size, session_id, name).len() == MANIFEST_HEADER_LEN,
        header_segment_size(manifest_header(segment_size, session_id, name)) == segment_size,
        header_epoch(manifest_header(segment_size, session_id, name)) == 0,
        header_magic(manifest_header(segment_size, session_id, name)) == MANIFEST_MAGIC,
        header_session_id(manifest_header(segment_size, session_id, name)) == session_id,
        header_version(manifest_header(segment_size, session_id, name)) == MANIFEST_VERSION,
        header_name(manifest_header(segment_size, session_id, name)) == name.subrange(
            0,
            kept_name_len(name),
        ),
        header_error(manifest_header(segment_size, session_id, name)) is None,
{
    let h = manifest_header(segment_size, session_id, name);
    lemma_le_lengths(segment_size, session_id, MANIFEST_VERSION);
    lemma_le_lengths(0, MANIFEST_MAGIC, MANIFEST_VERSION);
    let nf = name_field(name);
    assert(nf.len() == 64);
    assert(h.len() == 96);
    assert(h.subrange(64, 72) =~= spec_u64_to_le_bytes(segment_size));
    assert(h.subrange(72, 80) =~= spec_u64_to_le_bytes(0));
    assert(h.subrange(80, 84) =~= spec_u32_to_le_bytes(MANIFEST_MAGIC));
    assert(h.subrange(84, 88) =~= spec_u32_to_le_bytes(session_id));
    assert(h.subrange(88, 90) =~= spec_u16_to_le_bytes(MANIFEST_VERSION));
    assert(h[90] == kept_name_len(name) as u8);
    assert(h.subrange(0, h[90] as int) =~= name.subrange(0, kept_name_len(name)));
}

impl Manifest {
    /// Long enough to hold the header.
    pub open spec fn wf(&self) -> bool {
        self@.len() >= MANIFEST_HEADER_LEN
    }

    /// A fresh manifest file: the header for these fields, then zeros.
    pub fn create(segment_size: u64, session_id: u32, name: &[u8]) -> (m: Self)
        ensures
            m@.len() == MANIFEST_FILE_SIZE,
            m@.subrange(0, 96) == manifest_header(segment_size, session_id, name@),
            forall|i: int| 96 <= i < MANIFEST_FILE_SIZE ==> m@[i] == 0,
            m.wf(),
            header_name_len(m@) <= 64,
    {
        let n: usize = if name.len() < MANIFEST_NAME_LEN { name.len() } else { MANIFEST_NAME_LEN };
        let mut h: Vec<u8> = Vec::new();
        let mut i: usize = 0;
        while i < MANIFEST_NAME_LEN
            invariant
                i <= 64,
                n == kept_name_len(name@),
                n <= name@.len(),
                h@.len() == i,
                forall|j: int| 0 <= j < i ==> h@[j] == name_field(name@)[j],
            decreases 64 - i,
        {
            if i < n {
                h.push(name[i]);
            } else {
                h.push(0);
            }
            i = i + 1;
        }
        let mut a = u64_to_le_bytes(segment_size);
        h.append(&mut a);
        let mut b = u64_to_le_bytes(0);
        h.append(&mut b);
        let mut c = u32_to_le_bytes(MANIFEST_MAGIC);
        h.append(&mut c);
        let mut d = u32_to_le_bytes(session_id);
        h.append(&mut d);
        let mut e = u16_to_le_bytes(MANIFEST_VERSION);
        h.append(&mut e);
        h.push(n as u8);
        let ghost h91 = h@;
        let mut k: usize = 0;
        while k < MANIFEST_FILE_SIZE - 91
            invariant
                k <= MANIFEST_FILE_SIZE - 91,
                h@.len() == 91 + k,
                forall|j: int| 91 <= j < 91 + k ==> h@[j] == 0,
                h91.len() == 91,
                h@.subrange(0, 91) == h91,
            decreases MANIFEST_FILE_SIZE - 91 - k,
        {
            h.push(0);
            k = k + 1;
        }
        proof {
            lemma_le_lengths(segment_size, session_id, MANIFEST_VERSION);
            lemma_le_lengths(0, MANIFEST_MAGIC, MANIFEST_VERSION);
            assert(h91.subrange(0, 64) =~= name_field(name@));
            let full = manifest_header(segment_size, session_id, name@);
            assert(h@.subrange(0, 64) =~= name_field(name@));
            assert(h@.subrange(0, 96) =~= full);
        }
        let m = Manifest { bytes: h };
        proof {
            lemma_manifest_roundtrip(segment_size, session_id, name@);
            assert(m@.subrange(0, 96) =~= manifest_header(segment_size, session_id, name@));
            assert(header_name_len(m@) == header_name_len(manifest_header(segment_size, session_id, name@)));
        }
        m
    }
}


impl Manifest {
    /// Adopts existing manifest bytes after checking the magic, then the
    /// version.
    pub fn open(bytes: Vec<u8>) -> (r: Result<Self, ShmError>)
        requires
            bytes@.len() >= MANIFEST_HEADER_LEN,
        ensures
            header_magic(bytes@) != MANIFEST_MAGIC ==> (r matches Err(ShmError::BadMagic { found })
                && found == header_magic(bytes@)),
            header_magic(bytes@) == MANIFEST_MAGIC && header_version(bytes@) != MANIFEST_VERSION
                ==> (r matches Err(ShmError::UnsupportedLayout { found, expected }) && found
                == header_version(bytes@) && expected == MANIFEST_VERSION),
            r is Ok <==> header_error(bytes@) is None,
            r matches Ok(m) ==> m@ == bytes@ && m.wf(),
    {
        let magic = u32_from_le_bytes(&bytes.as_slice()[80..84]);
        if magic != MANIFEST_MAGIC {
            return Err(ShmError::BadMagic { found: magic });
        }
        let version = u16_from_le_bytes(&bytes.as_slice()[88..90]);
        if version != MANIFEST_VERSION {
            return Err(ShmError::UnsupportedLayout { found: version, expected: MANIFEST_VERSION });
        }
        Ok(Manifest { bytes })
    }

    /// Bytes per segment file.
    pub fn segment_size(&self) -> (r: u64)
        requires
            self.wf(),
        ensures
            r == header_segment_size(self@),
    {
        u64_from_le_bytes(&self.bytes.as_slice()[64..72])
    }

    /// The session this manifest belongs to.
    pub fn session_id(&self) -> (r: u32)
        requires
            self.wf(),
        ensures
            r == header_session_id(self@),
    {
        u32_from_le_bytes(&self.bytes.as_slice()[84..88])
    }

    /// The rotation counter.
    pub fn epoch(&self) -> (r: u64)
        requires
            self.wf(),
        ensures
            r == header_epoch(self@),
    {
        u64_from_le_bytes(&self.bytes.as_slice()[72..80])
    }

    /// The stored name length.
    pub fn name_len(&self) -> (r: u8)
        requires
            self.wf(),
        ensures
            r == header_name_len(self@),
    {
        self.bytes[90]
    }

    /// The stored name bytes.
    pub fn name(&self) -> (r: &[u8])
        requires
            self.wf(),
            header_name_len(self@) <= MANIFEST_NAME_LEN,
        ensures
            r@ == header_name(self@),
    {
        let n = self.bytes[90] as usize;
        &self.bytes.as_slice()[0..n]
    }

    /// Records a new epoch; every other byte is kept.
    pub fn set_epoch(&mut self, epoch: u64)
        requires
            old(self).wf(),
        ensures
            final(self).wf(),
            final(self)@.len() == old(self)@.len(),
            header_epoch(final(self)@) == epoch,
            forall|i: int| 0 <= i < old(self)@.len() && !(72 <= i < 80) ==> final(self)@[i] == old(self)@[i],
    {
        let enc = u64_to_le_bytes(epoch);
        copy_at(&mut self.bytes, 72, enc.as_slice());
        proof {
            lemma_le_lengths(epoch, 0, 0);
            assert(self@.subrange(72, 80) =~= spec_u64_to_le_bytes(epoch));
        }
    }

    /// The file's bytes, for writing back.
    pub fn as_bytes(&self) -> (r: &[u8])
        ensures
            r@ == self@,
    {
        self.bytes.as_slice()
    }
}

/// Setting the epoch changes no other field: a read gives back what was set
/// and the structural config stays.
pub proof fn lemma_set_epoch_keeps_config(old: Seq<u8>, new: Seq<u8>, epoch: u64)
    requires
        old.len() >= MANIFEST_HEADER_LEN,
        new.len() == old.len(),
        header_epoch(new) == epoch,
        forall|i: int| 0 <= i < old.len() && !(72 <= i < 80) ==> new[i] == old[i],
    ensures
        header_epoch(new) == epoch,
        header_segment_size(new) == header_segment_size(old),
        header_session_id(new) == header_session_id(old),
        header_magic(new) == header_magic(old),
        header_version(new) == header_version(old),
        header_name_len(new) == header_name_len(old),
        header_name_len(old) <= MANIFEST_NAME_LEN ==> header_name(new) == header_name(old),
        header_error(new) == header_error(old),
{
    assert(new.subrange(64, 72) =~= old.subrange(64, 72));
    assert(new.subrange(80, 84) =~= old.subrange(80, 84));
    assert(new.subrange(84, 88) =~= old.subrange(84, 88));
    assert(new.subrange(88, 90) =~= old.subrange(88, 90));
    assert(new[90] == old[90]);
    if old[90] as int <= 64 {
        assert(new.subrange(0, new[90] as int) =~= old.subrange(0, old[90] as int));
    }
}

} // verus!
