//! Sans-IO TLS codec over a rustls client connection: raw TLS bytes in,
//! plaintext out; plaintext in, encrypted bytes out. The connection's
//! cryptography and state are rustls's; this layer decides how buffered
//! input is fed in and how results map to [`TlsError`].
use vstd::prelude::*;
use std::sync::Arc;
use rustls::ClientConnection;
use rustls::ClientConfig;
use rustls::pki_types::ServerName;

verus! {

/// Declares `rustls::ClientConnection`; its state is rustls's own.
#[verifier::external_type_specification]
#[verifier::external_body]
pub struct ExClientConnection(rustls::ClientConnection);

/// Declares `rustls::ClientConfig`.
#[verifier::external_type_specification]
#[verifier::external_body]
pub struct ExClientConfig(rustls::ClientConfig);

/// Declares `rustls::pki_types::ServerName`.
#[verifier::external_type_specification]
#[verifier::external_body]
pub struct ExServerName<'a>(rustls::pki_types::ServerName<'a>);

/// Declares `rustls::Error`.
#[verifier::external_type_specification]
#[verifier::external_body]
pub struct ExRustlsError(rustls::Error);

/// Errors of the TLS layer.
#[derive(Debug)]
pub enum TlsError {
    /// The hostname is neither a DNS name nor an IP address.
    InvalidHostname(String),
    /// rustls rejected the configuration or the peer's records.
    Rustls(rustls::Error),
    /// Reading or writing buffered bytes failed.
    Io(std::io::Error),
}

/// Whether `ServerName::try_from` accepts the hostname: a syntactically
/// valid DNS name or an IP address literal.
pub uninterp spec fn is_server_name(hostname: Seq<char>) -> bool;

/// Calls `ServerName::try_from` on an owned copy of `hostname`. The result
/// is present exactly when the name is accepted, which depends on the text
/// alone.
#[verifier::external_body]
fn server_name(hostname: &str) -> (r: Option<ServerName<'static>>)
    ensures
        r is Some <==> is_server_name(hostname@),
{
    ServerName::try_from(hostname.to_owned()).ok()
}

/// Calls `ClientConnection::new`, which starts a handshake (the
/// ClientHello is buffered for writing). Whether it succeeds depends on the
/// configuration, so nothing is stated of the result.
#[verifier::external_body]
fn client_connection(config: &Arc<ClientConfig>, name: ServerName<'static>) -> Result<ClientConnection, rustls::Error> {
    ClientConnection::new(config.clone(), name)
}

/// Calls `ClientConnection::read_tls` with a cursor over `src`: rustls
/// pulls at most one read's worth of the slice into its deframer buffer,
/// so the count consumed is at most the slice's length.
#[verifier::external_body]
fn conn_read_tls(conn: &mut ClientConnection, src: &[u8]) -> (r: Result<usize, std::io::Error>)
    ensures
        r matches Ok(n) ==> n <= src@.len(),
{
    conn.read_tls(&mut std::io::Cursor::new(src))
}

/// Calls `ClientConnection::process_new_packets`, which decrypts and
/// handles the buffered records; its outcome depends on the peer's bytes.
#[verifier::external_body]
fn conn_process_new_packets(conn: &mut ClientConnection) -> Result<(), rustls::Error> {
    conn.process_new_packets().map(|_| ())
}

/// Calls `Read::read` on the connection's plaintext reader: it copies at
/// most `dst.len()` buffered plaintext bytes into `dst`.
#[verifier::external_body]
fn conn_read_plaintext(conn: &mut ClientConnection, dst: &mut [u8]) -> (r: Result<usize, std::io::Error>)
    ensures
        r matches Ok(n) ==> n <= old(dst)@.len(),
        final(dst)@.len() == old(dst)@.len(),
{
    std::io::Read::read(&mut conn.reader(), dst)
}

/// Calls `Write::write_all` on the connection's plaintext writer, which
/// queues the bytes for encryption.
#[verifier::external_body]
fn conn_write_plaintext(conn: &mut ClientConnection, plaintext: &[u8]) -> Result<(), std::io::Error> {
    std::io::Write::write_all(&mut conn.writer(), plaintext)
}

/// Calls `std::io::Error::kind` and compares it with `WouldBlock`.
#[verifier::external_body]
fn is_would_block(e: &std::io::Error) -> bool {
    e.kind() == std::io::ErrorKind::WouldBlock
}

/// Calls `std::io::Error::new` with kind `InvalidData` and the given
/// message.
#[verifier::external_body]
fn invalid_data(msg: &'static str) -> std::io::Error {
    std::io::Error::new(std::io::ErrorKind::InvalidData, msg)
}

/// What a plaintext read gives back, from what the reader returned and
/// whether an error was `WouldBlock`: a count passes through, a
/// `WouldBlock` error means no plaintext yet (0), and any other error is an
/// I/O error.
pub fn plaintext_outcome(read: Result<usize, std::io::Error>, would_block: bool) -> (r: Result<usize, TlsError>)
    ensures
        read matches Ok(n) ==> r == Ok::<usize, TlsError>(n),
        read is Err && would_block ==> r == Ok::<usize, TlsError>(0),
        read matches Err(e) ==> (!would_block ==> r == Err::<usize, TlsError>(TlsError::Io(e))),
{
    match read {
        Ok(n) => Ok(n),
        Err(e) => {
            if would_block {
                Ok(0)
            } else {
                Err(TlsError::Io(e))
            }
        },
    }
}

/// How one chunk read by `read_and_process_tls` is handled: a positive
/// count is taken, a zero count means the deframer cannot progress (an I/O
/// error), and an error passes through unchanged.
pub fn chunk_outcome(read: Result<usize, TlsError>) -> (r: Result<usize, TlsError>)
    ensures
        read matches Ok(n) ==> (n > 0 ==> r == Ok::<usize, TlsError>(n)),
        read == Ok::<usize, TlsError>(0) ==> (r matches Err(TlsError::Io(_))),
        read is Err ==> r == read,
{
    match read {
        Ok(n) => {
            if n == 0 {
                Err(
                    TlsError::Io(
                        invalid_data(
                            "TLS codec stopped before consuming buffered input (rustls deframer cannot make progress)",
                        ),
                    ),
                )
            } else {
                Ok(n)
            }
        },
        Err(e) => Err(e),
    }
}

/// A call the codec made on its rustls connection, as recorded for its
/// contracts.
pub enum TlsStep {
    /// `read_tls` was offered `offered` and answered `result`.
    Read { offered: Seq<u8>, result: Result<usize, TlsError> },
    /// `process_new_packets` answered `result`.
    Process { result: Result<(), TlsError> },
}

/// The bytes taken by the reads among `steps`.
pub open spec fn taken(steps: Seq<TlsStep>) -> int
    decreases steps.len(),
{
    if steps.len() == 0 {
        0
    } else {
        let t = taken(steps.drop_last());
        match steps.last() {
            TlsStep::Read { offered: _, result: Ok(n) } => t + n,
            _ => t,
        }
    }
}

/// `steps` feed `src` from its start in chunks: each is a read offered the
/// rest of `src` that took at least one byte of it, followed by a
/// successful processing of the records.
pub open spec fn fed_in_chunks(steps: Seq<TlsStep>, src: Seq<u8>) -> bool
    decreases steps.len(),
{
    if steps.len() == 0 {
        true
    } else if steps.len() < 2 {
        false
    } else {
        let pre = steps.take(steps.len() - 2);
        &&& fed_in_chunks(pre, src)
        &&& match steps[steps.len() - 2] {
            TlsStep::Read { offered, result: Ok(n) } => 0 < n <= offered.len() && offered == src.skip(taken(pre)),
            _ => false,
        }
        &&& steps.last() == (TlsStep::Process { result: Ok(()) })
    }
}

/// Every chunk takes at least one byte, so chunks that took nothing are
/// none.
pub proof fn lemma_chunks_take_bytes(steps: Seq<TlsStep>, src: Seq<u8>)
    requires
        fed_in_chunks(steps, src),
    ensures
        steps.len() > 0 ==> taken(steps) > 0,
        taken(steps) >= 0,
    decreases steps.len(),
{
    if steps.len() > 0 {
        let pre = steps.take(steps.len() - 2);
        let d = steps.drop_last();
        lemma_chunks_take_bytes(pre, src);
        assert(d.drop_last() =~= pre);
        assert(d.last() == steps[steps.len() - 2]);
        assert(taken(steps) == taken(d));
        match steps[steps.len() - 2] {
            TlsStep::Read { offered: _, result: Ok(n) } => {
                assert(taken(d) == taken(pre) + n);
            },
            _ => {},
        }
    }
}

/// What feeding `src` through `steps` returned: success once every byte was
/// taken and processed; otherwise, after feeding a prefix in chunks, the
/// error of the last read (a zero-byte take being an I/O error) or of the
/// last processing, returned as it came.
pub open spec fn feed_outcome(steps: Seq<TlsStep>, src: Seq<u8>, r: Result<usize, TlsError>) -> bool {
    match r {
        Ok(n) => n == src.len() && fed_in_chunks(steps, src) && taken(steps) == src.len(),
        Err(e) => {
            &&& steps.len() >= 1
            &&& match steps.last() {
                TlsStep::Read { offered, result } => {
                    let pre = steps.drop_last();
                    &&& fed_in_chunks(pre, src)
                    &&& taken(pre) < src.len()
                    &&& offered == src.skip(taken(pre))
                    &&& (result == Err::<usize, TlsError>(e) || (result == Ok::<usize, TlsError>(0)
                        && e is Io))
                },
                TlsStep::Process { result } => {
                    let pre = steps.take(steps.len() - 2);
                    &&& steps.len() >= 2
                    &&& result == Err::<(), TlsError>(e)
                    &&& fed_in_chunks(pre, src)
                    &&& taken(pre) < src.len()
                    &&& match steps[steps.len() - 2] {
                        TlsStep::Read { offered, result: Ok(n) } => 0 < n <= offered.len() && offered
                            == src.skip(taken(pre)),
                        _ => false,
                    }
                },
            }
        },
    }
}

/// Sans-IO TLS client codec.
pub struct TlsCodec {
    inner: ClientConnection,
    /// The reads and processings made on the connection, in order.
    steps: Ghost<Seq<TlsStep>>,
}

impl TlsCodec {
    /// The reads and processings made on the connection so far, in order.
    pub closed spec fn steps(&self) -> Seq<TlsStep> {
        self.steps@
    }

    /// A codec for `hostname`, used for SNI and certificate checks.
    pub fn new(config: &Arc<ClientConfig>, hostname: &str) -> (r: Result<Self, TlsError>)
        ensures
            !is_server_name(hostname@) ==> (r matches Err(TlsError::InvalidHostname(h)) && h@
                == hostname@),
            is_server_name(hostname@) ==> (r is Ok || r matches Err(TlsError::Rustls(_))),
            r matches Ok(c) ==> c.steps() == Seq::<TlsStep>::empty(),
    {
        let name = match server_name(hostname) {
            Some(n) => n,
            None => return Err(TlsError::InvalidHostname(hostname.to_string())),
        };
        match client_connection(config, name) {
            Ok(conn) => Ok(TlsCodec { inner: conn, steps: Ghost(Seq::empty()) }),
            Err(e) => Err(TlsError::Rustls(e)),
        }
    }

    /// Feeds raw TLS bytes from a slice; returns how many were taken, which
    /// may be fewer than `src.len()`: the first `n` bytes of `src`.
    pub fn read_tls(&mut self, src: &[u8]) -> (r: Result<usize, TlsError>)
        ensures
            final(self).steps() == old(self).steps().push(TlsStep::Read { offered: src@, result: r }),
            r matches Ok(n) ==> n <= src@.len(),
            r is Err ==> (r matches Err(TlsError::Io(_))),
    {
        let r = match conn_read_tls(&mut self.inner, src) {
            Ok(n) => Ok(n),
            Err(e) => Err(TlsError::Io(e)),
        };
        proof {
            self.steps = Ghost(self.steps@.push(TlsStep::Read { offered: src@, result: r }));
        }
        r
    }

    /// Feeds the whole slice, processing records after each chunk rustls
    /// takes, so that every read after the first follows a successful
    /// processing; succeeds only once every byte is consumed. A chunk of
    /// zero bytes means the deframer cannot progress, an `InvalidData`
    /// error; errors of reads and processing are returned as they come.
    pub fn read_and_process_tls(&mut self, src: &[u8]) -> (r: Result<usize, TlsError>)
        ensures
            final(self).steps().len() >= old(self).steps().len(),
            final(self).steps().take(old(self).steps().len() as int) == old(self).steps(),
            feed_outcome(final(self).steps().skip(old(self).steps().len() as int), src@, r),
            src@.len() == 0 ==> r == Ok::<usize, TlsError>(0) && final(self).steps() == old(self).steps(),
    {
        let ghost l0 = self.steps().len() as int;
        let len = src.len();
        let mut consumed: usize = 0;
        while consumed < len
            invariant
                len == src@.len(),
                consumed <= len,
                self.steps().len() >= l0,
                l0 == old(self).steps().len(),
                self.steps().take(l0) == old(self).steps(),
                fed_in_chunks(self.steps().skip(l0), src@),
                taken(self.steps().skip(l0)) == consumed,
            decreases len - consumed,
        {
            let ghost pre = self.steps().skip(l0);
            let rest = &src[consumed..len];
            assert(rest@ =~= src@.skip(consumed as int));
            let read = self.read_tls(rest);
            let ghost after_read = self.steps();
            proof {
                assert(after_read.skip(l0) =~= pre.push(TlsStep::Read { offered: rest@, result: read }));
                assert(after_read.skip(l0).drop_last() =~= pre);
                assert(after_read.take(l0) =~= old(self).steps());
            }
            let n = match chunk_outcome(read) {
                Ok(n) => n,
                Err(e) => {
                    return Err(e);
                },
            };
            proof {
                assert(taken(after_read.skip(l0)) == consumed + n);
            }
            consumed = consumed + n;
            let pr = self.process_new_packets();
            proof {
                let all = self.steps().skip(l0);
                assert(all =~= after_read.skip(l0).push(TlsStep::Process { result: pr }));
                assert(all.take(all.len() - 2) =~= pre);
                assert(all.drop_last() =~= after_read.skip(l0));
                assert(self.steps().take(l0) =~= old(self).steps());
            }
            match pr {
                Ok(u) => {
                    proof {
                        assert(pr == Ok::<(), TlsError>(u));
                        let all = self.steps().skip(l0);
                        assert(read == Ok::<usize, TlsError>(n));
                        assert(all[all.len() - 2] == (TlsStep::Read { offered: rest@, result: read }));
                        assert(all.last() == (TlsStep::Process { result: pr }));
                        assert(fed_in_chunks(all, src@));
                    }
                },
                Err(e) => {
                    return Err(e);
                },
            }
        }
        proof {
            if len == 0 {
                lemma_chunks_take_bytes(self.steps().skip(l0), src@);
                assert(self.steps().skip(l0).len() == 0);
                assert(self.steps() =~= old(self).steps());
            }
        }
        Ok(consumed)
    }

    /// Reads raw TLS bytes from a reader; 0 on end of stream.
    #[verifier::external_body]
    pub fn read_tls_from<R: std::io::Read>(&mut self, src: &mut R) -> std::io::Result<usize> {
        self.inner.read_tls(src)
    }

    /// Decrypts the buffered records.
    pub fn process_new_packets(&mut self) -> (r: Result<(), TlsError>)
        ensures
            r is Err ==> (r matches Err(TlsError::Rustls(_))),
            final(self).steps() == old(self).steps().push(TlsStep::Process { result: r }),
    {
        let r = match conn_process_new_packets(&mut self.inner) {
            Ok(()) => Ok(()),
            Err(e) => Err(TlsError::Rustls(e)),
        };
        proof {
            self.steps = Ghost(self.steps@.push(TlsStep::Process { result: r }));
        }
        r
    }

    /// Copies decrypted plaintext into `dst`; 0 when none is buffered.
    pub fn read_plaintext(&mut self, dst: &mut [u8]) -> (r: Result<usize, TlsError>)
        ensures
            r matches Ok(n) ==> n <= old(dst)@.len(),
            final(dst)@.len() == old(dst)@.len(),
            r is Err ==> (r matches Err(TlsError::Io(_))),
            final(self).steps() == old(self).steps(),
    {
        let read = conn_read_plaintext(&mut self.inner, dst);
        let would_block = match &read {
            Ok(_) => false,
            Err(e) => is_would_block(e),
        };
        plaintext_outcome(read, would_block)
    }

    /// Queues plaintext for encryption.
    pub fn encrypt(&mut self, plaintext: &[u8]) -> (r: Result<(), TlsError>)
        ensures
            r is Err ==> (r matches Err(TlsError::Io(_))),
            final(self).steps() == old(self).steps(),
    {
        match conn_write_plaintext(&mut self.inner, plaintext) {
            Ok(()) => Ok(()),
            Err(e) => Err(TlsError::Io(e)),
        }
    }

    /// Writes buffered encrypted bytes to a writer; returns the count.
    #[verifier::external_body]
    pub fn write_tls_to<W: std::io::Write>(&mut self, dst: &mut W) -> std::io::Result<usize> {
        self.inner.write_tls(dst)
    }

    /// Whether the handshake is still in progress.
    #[verifier::external_body]
    pub fn is_handshaking(&self) -> bool {
        self.inner.is_handshaking()
    }

    /// Whether rustls wants more TLS bytes.
    #[verifier::external_body]
    pub fn wants_read(&self) -> bool {
        self.inner.wants_read()
    }

    /// Whether encrypted bytes wait to be written.
    #[verifier::external_body]
    pub fn wants_write(&self) -> bool {
        self.inner.wants_write()
    }
}

} // verus!
