//! Per-connection TLS buffer sizing.
use vstd::prelude::*;

verus! {

/// Abstract buffer sizing: inbound chunk, outbound buffer, and the optional
/// cap on rustls's outbound plaintext queue.
pub struct CapacitiesModel {
    pub read_chunk: usize,
    pub pending_write: usize,
    pub rustls_plaintext_limit: Option<usize>,
}

/// Default inbound chunk: 18 KiB, a maximal TLS record with header and tag.
pub const DEFAULT_READ_CHUNK: usize = 18 * 1024;

/// Default outbound buffer: 16 KiB.
pub const DEFAULT_PENDING_WRITE: usize = 16 * 1024;

/// Per-connection TLS buffer sizing; both capacities are positive.
#[derive(Debug, Clone, Copy)]
pub struct TlsBufferCapacities {
    read_chunk: usize,
    pending_write: usize,
    rustls_plaintext_limit: Option<usize>,
}

/// Builder for [`TlsBufferCapacities`].
#[derive(Debug, Clone, Copy)]
pub struct TlsBufferCapacitiesBuilder {
    read_chunk: usize,
    pending_write: usize,
    rustls_plaintext_limit: Option<usize>,
}

impl View for TlsBufferCapacities {
    type V = CapacitiesModel;

    closed spec fn view(&self) -> CapacitiesModel {
        CapacitiesModel {
            read_chunk: self.read_chunk,
            pending_write: self.pending_write,
            rustls_plaintext_limit: self.rustls_plaintext_limit,
        }
    }
}

impl View for TlsBufferCapacitiesBuilder {
    type V = CapacitiesModel;

    closed spec fn view(&self) -> CapacitiesModel {
        CapacitiesModel {
            read_chunk: self.read_chunk,
            pending_write: self.pending_write,
            rustls_plaintext_limit: self.rustls_plaintext_limit,
        }
    }
}

/// The builder's starting point: 18 KiB in, 16 KiB out, rustls's default
/// queue limit.
pub open spec fn default_capacities() -> CapacitiesModel {
    CapacitiesModel {
        read_chunk: DEFAULT_READ_CHUNK,
        pending_write: DEFAULT_PENDING_WRITE,
        rustls_plaintext_limit: None,
    }
}

impl TlsBufferCapacities {
    /// A builder holding the defaults.
    pub fn builder() -> (b: TlsBufferCapacitiesBuilder)
        ensures
            b@ == default_capacities(),
    {
        TlsBufferCapacitiesBuilder {
            read_chunk: DEFAULT_READ_CHUNK,
            pending_write: DEFAULT_PENDING_WRITE,
            rustls_plaintext_limit: None,
        }
    }

    /// Inbound buffer capacity; also the transport read chunk.
    pub fn read_chunk(&self) -> (r: usize)
        ensures
            r == self@.read_chunk,
    {
        self.read_chunk
    }

    /// Outbound buffer capacity.
    pub fn pending_write(&self) -> (r: usize)
        ensures
            r == self@.pending_write,
    {
        self.pending_write
    }

    /// Cap on rustls's outbound plaintext queue (`None`: rustls's default).
    pub fn rustls_plaintext_limit(&self) -> (r: Option<usize>)
        ensures
            r == self@.rustls_plaintext_limit,
    {
        self.rustls_plaintext_limit
    }
}

impl Default for TlsBufferCapacities {
    /// Same as `builder().build()`.
    fn default() -> (c: Self)
        ensures
            c@ == default_capacities(),
    {
        Self::builder().build()
    }
}

impl TlsBufferCapacitiesBuilder {
    /// Sets the inbound buffer capacity.
    pub fn read_chunk(self, bytes: usize) -> (b: Self)
        ensures
            b@ == (CapacitiesModel { read_chunk: bytes, ..self@ }),
    {
        TlsBufferCapacitiesBuilder { read_chunk: bytes, ..self }
    }

    /// Sets the outbound buffer capacity.
    pub fn pending_write(self, bytes: usize) -> (b: Self)
        ensures
            b@ == (CapacitiesModel { pending_write: bytes, ..self@ }),
    {
        TlsBufferCapacitiesBuilder { pending_write: bytes, ..self }
    }

    /// Sets the cap on rustls's outbound plaintext queue.
    pub fn rustls_plaintext_limit(self, bytes: Option<usize>) -> (b: Self)
        ensures
            b@ == (CapacitiesModel { rustls_plaintext_limit: bytes, ..self@ }),
    {
        TlsBufferCapacitiesBuilder { rustls_plaintext_limit: bytes, ..self }
    }

    /// Materializes the capacities; both must be positive.
    pub fn build(self) -> (c: TlsBufferCapacities)
        requires
            self@.read_chunk > 0,
            self@.pending_write > 0,
        ensures
            c@ == self@,
    {
        TlsBufferCapacities {
            read_chunk: self.read_chunk,
            pending_write: self.pending_write,
            rustls_plaintext_limit: self.rustls_plaintext_limit,
        }
    }
}

} // verus!
