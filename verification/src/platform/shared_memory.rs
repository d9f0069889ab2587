//! Options for POSIX shared-memory mappings, the naming rule, and the size
//! decisions of creating and opening them.
use vstd::prelude::*;
use crate::platform::mapping::{MapError, MapOptions, MmapRequest, Protection, Sharing, invalid_input};

verus! {

/// Builder state for a shared-memory mapping.
#[derive(Debug, Clone, Copy)]
pub struct SharedMemoryOptions {
    pub(crate) protection: Protection,
    pub(crate) sharing: Sharing,
    pub(crate) pretouch: bool,
    pub(crate) huge_pages: bool,
    pub(crate) unlink_on_drop: bool,
}

/// Abstract builder state.
pub struct SharedMemoryOptionsModel {
    pub protection: Protection,
    pub sharing: Sharing,
    pub pretouch: bool,
    pub huge_pages: bool,
    pub unlink_on_drop: bool,
}

impl View for SharedMemoryOptions {
    type V = SharedMemoryOptionsModel;

    closed spec fn view(&self) -> SharedMemoryOptionsModel {
        SharedMemoryOptionsModel {
            protection: self.protection,
            sharing: self.sharing,
            pretouch: self.pretouch,
            huge_pages: self.huge_pages,
            unlink_on_drop: self.unlink_on_drop,
        }
    }
}

impl SharedMemoryOptions {
    /// Defaults: read-write, shared, no hints, name kept on drop.
    pub fn new() -> (o: Self)
        ensures
            o@ == (SharedMemoryOptionsModel {
                protection: Protection::ReadWrite,
                sharing: Sharing::Shared,
                pretouch: false,
                huge_pages: false,
                unlink_on_drop: false,
            }),
    {
        SharedMemoryOptions {
            protection: Protection::ReadWrite,
            sharing: Sharing::Shared,
            pretouch: false,
            huge_pages: false,
            unlink_on_drop: false,
        }
    }

    /// Read-write protection.
    pub fn read_write(&mut self) -> (r: &mut Self)
        ensures
            r@ == (SharedMemoryOptionsModel { protection: Protection::ReadWrite, ..old(self)@ }),
            final(self)@ == final(r)@,
    {
        self.protection = Protection::ReadWrite;
        self
    }

    /// Read-only protection.
    pub fn read_only(&mut self) -> (r: &mut Self)
        ensures
            r@ == (SharedMemoryOptionsModel { protection: Protection::ReadOnly, ..old(self)@ }),
            final(self)@ == final(r)@,
    {
        self.protection = Protection::ReadOnly;
        self
    }

    /// Shared mapping.
    pub fn shared(&mut self) -> (r: &mut Self)
        ensures
            r@ == (SharedMemoryOptionsModel { sharing: Sharing::Shared, ..old(self)@ }),
            final(self)@ == final(r)@,
    {
        self.sharing = Sharing::Shared;
        self
    }

    /// Private copy-on-write mapping.
    pub fn private(&mut self) -> (r: &mut Self)
        ensures
            r@ == (SharedMemoryOptionsModel { sharing: Sharing::Private, ..old(self)@ }),
            final(self)@ == final(r)@,
    {
        self.sharing = Sharing::Private;
        self
    }

    /// Pre-fault pages on creation.
    pub fn pretouch(&mut self, pretouch: bool) -> (r: &mut Self)
        ensures
            r@ == (SharedMemoryOptionsModel { pretouch, ..old(self)@ }),
            final(self)@ == final(r)@,
    {
        self.pretouch = pretouch;
        self
    }

    /// Request huge-page backing.
    pub fn huge_pages(&mut self, huge_pages: bool) -> (r: &mut Self)
        ensures
            r@ == (SharedMemoryOptionsModel { huge_pages, ..old(self)@ }),
            final(self)@ == final(r)@,
    {
        self.huge_pages = huge_pages;
        self
    }

    /// Remove the name from the namespace when the mapping is dropped.
    pub fn unlink_on_drop(&mut self, unlink: bool) -> (r: &mut Self)
        ensures
            r@ == (SharedMemoryOptionsModel { unlink_on_drop: unlink, ..old(self)@ }),
            final(self)@ == final(r)@,
    {
        self.unlink_on_drop = unlink;
        self
    }

    /// The mapping hints these options carry.
    pub fn map_options(&self) -> (o: MapOptions)
        ensures
            o.pretouch == self@.pretouch,
            o.huge_pages == self@.huge_pages,
    {
        MapOptions { pretouch: self.pretouch, huge_pages: self.huge_pages }
    }

    /// Whether the object must be opened read-write: only a shared,
    /// writable mapping propagates writes.
    pub fn opens_for_write(&self) -> (r: bool)
        ensures
            r == (self@.sharing == Sharing::Shared && self@.protection == Protection::ReadWrite),
    {
        match (self.sharing, self.protection) {
            (Sharing::Shared, Protection::ReadWrite) => true,
            _ => false,
        }
    }

    /// The object is extended to `len` when smaller, never truncated.
    pub fn plan_create(&self, len: usize, current: u64) -> (r: Option<u64>)
        ensures
            r == (if len as u64 > current { Some(len as u64) } else { None::<u64> }),
    {
        if (len as u64) > current {
            Some(len as u64)
        } else {
            None
        }
    }

    /// Opening maps the object's whole size, which must fit `usize` and be
    /// non-zero.
    pub fn plan_open(&self, size: u64) -> (r: Result<usize, MapError>)
        ensures
            size > usize::MAX ==> r matches Err(MapError::OutOfBounds),
            size == 0 ==> r matches Err(MapError::EmptyFile),
            0 < size <= usize::MAX ==> r == Ok::<usize, MapError>(size as usize),
    {
        if size > usize::MAX as u64 {
            return Err(MapError::OutOfBounds);
        }
        let len = size as usize;
        if len == 0 {
            return Err(MapError::EmptyFile);
        }
        Ok(len)
    }

    /// The `mmap` arguments these options call for; shared memory maps
    /// from offset zero.
    pub fn mmap_request(&self) -> (r: MmapRequest)
        ensures
            r == (MmapRequest {
                writable: self@.protection == Protection::ReadWrite,
                shared: self@.sharing == Sharing::Shared,
                populate: self@.pretouch,
                hugetlb: self@.huge_pages,
                offset: 0,
            }),
    {
        let writable = match self.protection {
            Protection::ReadOnly => false,
            Protection::ReadWrite => true,
        };
        let shared = match self.sharing {
            Sharing::Shared => true,
            Sharing::Private => false,
        };
        MmapRequest { writable, shared, populate: self.pretouch, hugetlb: self.huge_pages, offset: 0 }
    }

    /// Whether the name is unlinked when the mapping is dropped.
    pub fn unlinks_on_drop(&self) -> (r: bool)
        ensures
            r == self@.unlink_on_drop,
    {
        self.unlink_on_drop
    }
}

/// The POSIX name for a requested one: a leading `/` is added when missing.
pub open spec fn normalized_name(name: Seq<u8>) -> Seq<u8> {
    if name.len() > 0 && name[0] == 0x2f { name } else { seq![0x2fu8] + name }
}

/// Whether `name` is accepted: non-empty, not just `/`, no further `/`
/// after the leading one, and no NUL byte.
pub open spec fn name_ok(name: Seq<u8>) -> bool {
    let n = normalized_name(name);
    &&& name.len() > 0
    &&& name != seq![0x2fu8]
    &&& forall|i: int| 1 <= i < n.len() ==> n[i] != 0x2f
    &&& forall|i: int| 0 <= i < n.len() ==> n[i] != 0
}

/// Validates and normalizes a shared-memory name given as UTF-8 bytes.
pub fn validate_name(name: &[u8]) -> (r: Result<Vec<u8>, MapError>)
    requires
        name@.len() < usize::MAX,
    ensures
        r is Ok <==> name_ok(name@),
        r matches Ok(v) ==> v@ == normalized_name(name@),
        r matches Err(e) ==> e is Io,
{
    let len = name.len();
    if len == 0 || (len == 1 && name[0] == 0x2f) {
        proof {
            if len == 1 {
                assert(name@ =~= seq![0x2fu8]);
            }
        }
        return Err(MapError::Io(invalid_input("shared memory name cannot be empty")));
    }
    let mut normalized: Vec<u8> = Vec::new();
    if name[0] != 0x2f {
        normalized.push(0x2f);
    }
    let mut i: usize = 0;
    while i < len
        invariant
            i <= len,
            len == name@.len(),
            len > 0,
            normalized@ == (if name@[0] == 0x2f { name@.subrange(0, i as int) } else { seq![0x2fu8] + name@.subrange(0, i as int) }),
        decreases len - i,
    {
        normalized.push(name[i]);
        i = i + 1;
        proof {
            if name@[0] == 0x2f {
                assert(normalized@ =~= name@.subrange(0, i as int));
            } else {
                assert(normalized@ =~= seq![0x2fu8] + name@.subrange(0, i as int));
            }
        }
    }
    proof {
        assert(name@.subrange(0, len as int) =~= name@);
        assert(normalized@ == normalized_name(name@));
        if name@ =~= seq![0x2fu8] {
            assert(len == 1 && name@[0] == 0x2f);
        }
    }
    let n = normalized.len();
    let mut j: usize = 1;
    while j < n
        invariant
            1 <= j <= n,
            n == normalized@.len(),
            normalized@ == normalized_name(name@),
            forall|k: int| 1 <= k < j ==> normalized@[k] != 0x2f,
        decreases n - j,
    {
        if normalized[j] == 0x2f {
            assert(normalized_name(name@)[j as int] == 0x2f);
            return Err(MapError::Io(invalid_input("shared memory name must not contain '/' after the leading slash")));
        }
        j = j + 1;
    }
    let mut k: usize = 0;
    while k < n
        invariant
            k <= n,
            n == normalized@.len(),
            normalized@ == normalized_name(name@),
            forall|m: int| 0 <= m < k ==> normalized@[m] != 0,
        decreases n - k,
    {
        if normalized[k] == 0 {
            assert(normalized_name(name@)[k as int] == 0);
            return Err(MapError::Io(invalid_input("shared memory name contains null byte")));
        }
        k = k + 1;
    }
    Ok(normalized)
}

} // verus!
