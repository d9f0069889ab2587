//! Options for file-backed mappings and the length and bounds decisions of
//! creating and opening them.
use vstd::prelude::*;
use crate::platform::mapping::{MapError, MapOptions, MmapRequest, Protection, Sharing, mmap_request};

verus! {

/// Builder state for a file-backed mapping, in the style of
/// `std::fs::OpenOptions`.
#[derive(Debug, Clone, Copy)]
pub struct MappedFileOptions {
    pub(crate) protection: Protection,
    pub(crate) sharing: Sharing,
    pub(crate) pretouch: bool,
    pub(crate) huge_pages: bool,
    pub(crate) offset: u64,
}

/// Abstract builder state.
pub struct MappedFileOptionsModel {
    pub protection: Protection,
    pub sharing: Sharing,
    pub pretouch: bool,
    pub huge_pages: bool,
    pub offset: u64,
}

impl View for MappedFileOptions {
    type V = MappedFileOptionsModel;

    closed spec fn view(&self) -> MappedFileOptionsModel {
        MappedFileOptionsModel {
            protection: self.protection,
            sharing: self.sharing,
            pretouch: self.pretouch,
            huge_pages: self.huge_pages,
            offset: self.offset,
        }
    }
}

/// Result of a create request: the mapping length, and the length the file
/// must first be extended to, if it is too short.
pub struct CreatePlan {
    pub map_len: usize,
    pub extend_to: Option<u64>,
}

impl MappedFileOptions {
    /// Defaults: read-write, shared, no hints, offset 0.
    pub fn new() -> (o: Self)
        ensures
            o@ == (MappedFileOptionsModel {
                protection: Protection::ReadWrite,
                sharing: Sharing::Shared,
                pretouch: false,
                huge_pages: false,
                offset: 0,
            }),
    {
        MappedFileOptions {
            protection: Protection::ReadWrite,
            sharing: Sharing::Shared,
            pretouch: false,
            huge_pages: false,
            offset: 0,
        }
    }

    /// Read-write protection.
    pub fn read_write(&mut self) -> (r: &mut Self)
        ensures
            r@ == (MappedFileOptionsModel { protection: Protection::ReadWrite, ..old(self)@ }),
            final(self)@ == final(r)@,
    {
        self.protection = Protection::ReadWrite;
        self
    }

    /// Read-only protection.
    pub fn read_only(&mut self) -> (r: &mut Self)
        ensures
            r@ == (MappedFileOptionsModel { protection: Protection::ReadOnly, ..old(self)@ }),
            final(self)@ == final(r)@,
    {
        self.protection = Protection::ReadOnly;
        self
    }

    /// Shared mapping: writes reach the file.
    pub fn shared(&mut self) -> (r: &mut Self)
        ensures
            r@ == (MappedFileOptionsModel { sharing: Sharing::Shared, ..old(self)@ }),
            final(self)@ == final(r)@,
    {
        self.sharing = Sharing::Shared;
        self
    }

    /// Private copy-on-write mapping.
    pub fn private(&mut self) -> (r: &mut Self)
        ensures
            r@ == (MappedFileOptionsModel { sharing: Sharing::Private, ..old(self)@ }),
            final(self)@ == final(r)@,
    {
        self.sharing = Sharing::Private;
        self
    }

    /// Pre-fault pages on creation.
    pub fn pretouch(&mut self, pretouch: bool) -> (r: &mut Self)
        ensures
            r@ == (MappedFileOptionsModel { pretouch, ..old(self)@ }),
            final(self)@ == final(r)@,
    {
        self.pretouch = pretouch;
        self
    }

    /// Request huge-page backing.
    pub fn huge_pages(&mut self, huge_pages: bool) -> (r: &mut Self)
        ensures
            r@ == (MappedFileOptionsModel { huge_pages, ..old(self)@ }),
            final(self)@ == final(r)@,
    {
        self.huge_pages = huge_pages;
        self
    }

    /// Byte offset in the file where the mapping begins (page-aligned).
    pub fn offset(&mut self, offset: u64) -> (r: &mut Self)
        ensures
            r@ == (MappedFileOptionsModel { offset, ..old(self)@ }),
            final(self)@ == final(r)@,
    {
        self.offset = offset;
        self
    }

    /// The mapping hints these options carry.
    pub fn map_options(&self) -> (o: MapOptions)
        ensures
            o.pretouch == self@.pretouch,
            o.huge_pages == self@.huge_pages,
    {
        MapOptions { pretouch: self.pretouch, huge_pages: self.huge_pages }
    }

    /// Whether a read-write file handle is needed to open.
    pub fn opens_for_write(&self) -> (r: bool)
        ensures
            r == (self@.protection == Protection::ReadWrite),
    {
        match self.protection {
            Protection::ReadWrite => true,
            Protection::ReadOnly => false,
        }
    }

    /// Creating `len` bytes at the offset over a file currently
    /// `file_len` bytes long: the file must cover `offset + len`, and is
    /// extended when shorter.
    pub fn plan_create(&self, len: usize, file_len: u64) -> (r: Result<CreatePlan, MapError>)
        requires
            len > 0,
        ensures
            self@.offset + len > u64::MAX ==> r matches Err(MapError::OutOfBounds),
            self@.offset + len <= u64::MAX ==> (r matches Ok(p) && p.map_len == len && p.extend_to == (
                if self@.offset + len > file_len {
                    Some((self@.offset + len) as u64)
                } else {
                    None
                })),
    {
        let total = match self.offset.checked_add(len as u64) {
            Some(t) => t,
            None => return Err(MapError::OutOfBounds),
        };
        let extend_to = if total > file_len { Some(total) } else { None };
        Ok(CreatePlan { map_len: len, extend_to })
    }

    /// Opening a `file_len`-byte file maps everything past the offset.
    pub fn plan_open(&self, file_len: u64) -> (r: Result<usize, MapError>)
        ensures
            file_len < self@.offset ==> r matches Err(MapError::OutOfBounds),
            file_len >= self@.offset && ((file_len - self@.offset) as usize) == 0 ==> r matches Err(MapError::EmptyFile),
            file_len >= self@.offset && ((file_len - self@.offset) as usize) != 0 ==> r == Ok::<usize, MapError>(((file_len - self@.offset) as usize)),
    {
        let remaining = match file_len.checked_sub(self.offset) {
            Some(r) => r,
            None => return Err(MapError::OutOfBounds),
        };
        let len = remaining as usize;
        if len == 0 {
            return Err(MapError::EmptyFile);
        }
        Ok(len)
    }

    /// A mapping of `len` bytes at the offset must end within the file.
    pub fn check_bounds(&self, len: usize, file_len: u64) -> (r: Result<(), MapError>)
        ensures
            r is Ok <==> self@.offset + len <= file_len,
            r matches Err(e) ==> e is OutOfBounds,
    {
        let end = match self.offset.checked_add(len as u64) {
            Some(e) => e,
            None => return Err(MapError::OutOfBounds),
        };
        if end > file_len {
            return Err(MapError::OutOfBounds);
        }
        Ok(())
    }

    /// The `mmap` arguments these options call for.
    pub fn mmap_request(&self) -> (r: Result<MmapRequest, MapError>)
        ensures
            self@.offset > i64::MAX ==> (r matches Err(MapError::Io(_))),
            self@.offset <= i64::MAX ==> (r matches Ok(q) && q == (MmapRequest {
                writable: self@.protection == Protection::ReadWrite,
                shared: self@.sharing == Sharing::Shared,
                populate: self@.pretouch,
                hugetlb: self@.huge_pages,
                offset: self@.offset as i64,
            })),
    {
        mmap_request(self.protection, self.sharing, self.map_options(), self.offset)
    }
}

} // verus!
