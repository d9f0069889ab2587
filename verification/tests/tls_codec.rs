use std::io::Cursor;
use std::sync::Arc;

use nexus::net::codec::{chunk_outcome, plaintext_outcome, TlsCodec, TlsError};
use rustls::client::danger::{HandshakeSignatureValid, ServerCertVerified, ServerCertVerifier};
use rustls::pki_types::{CertificateDer, PrivateKeyDer, ServerName, UnixTime};
use rustls::{DigitallySignedStruct, SignatureScheme};

/// A self-signed certificate for `localhost` (P-256).
const CERT_DER: [u8; 408] = [
    0x30, 0x82, 0x01, 0x94, 0x30, 0x82, 0x01, 0x3b, 0xa0, 0x03, 0x02, 0x01, 0x02, 0x02, 0x14, 0x0f,
    0xa9, 0x4c, 0x50, 0x29, 0x81, 0x87, 0x78, 0x7d, 0xbe, 0xd3, 0x37, 0x5a, 0xe0, 0x68, 0x0c, 0x6d,
    0x07, 0x21, 0xba, 0x30, 0x0a, 0x06, 0x08, 0x2a, 0x86, 0x48, 0xce, 0x3d, 0x04, 0x03, 0x02, 0x30,
    0x14, 0x31, 0x12, 0x30, 0x10, 0x06, 0x03, 0x55, 0x04, 0x03, 0x0c, 0x09, 0x6c, 0x6f, 0x63, 0x61,
    0x6c, 0x68, 0x6f, 0x73, 0x74, 0x30, 0x20, 0x17, 0x0d, 0x32, 0x36, 0x31, 0x31, 0x31, 0x37, 0x30,
    0x33, 0x31, 0x39, 0x34, 0x31, 0x5a, 0x18, 0x0f, 0x32, 0x31, 0x32, 0x36, 0x31, 0x30, 0x32, 0x34,
    0x30, 0x33, 0x31, 0x39, 0x34, 0x31, 0x5a, 0x30, 0x14, 0x31, 0x12, 0x30, 0x10, 0x06, 0x03, 0x55,
    0x04, 0x03, 0x0c, 0x09, 0x6c, 0x6f, 0x63, 0x61, 0x6c, 0x68, 0x6f, 0x73, 0x74, 0x30, 0x59, 0x30,
    0x13, 0x06, 0x07, 0x2a, 0x86, 0x48, 0xce, 0x3d, 0x02, 0x01, 0x06, 0x08, 0x2a, 0x86, 0x48, 0xce,
    0x3d, 0x03, 0x01, 0x07, 0x03, 0x42, 0x00, 0x04, 0x59, 0x7b, 0x76, 0xbf, 0xe3, 0xa9, 0x70, 0x19,
    0x11, 0xca, 0xa5, 0x71, 0x21, 0x80, 0x30, 0x0e, 0x3d, 0x71, 0x22, 0x42, 0x6e, 0x04, 0x0f, 0x6f,
    0xb5, 0xf4, 0x24, 0x9e, 0xa5, 0xdb, 0x12, 0xef, 0x7c, 0x0f, 0x3c, 0x68, 0x58, 0x90, 0x6d, 0x1b,
    0x33, 0xd3, 0x12, 0x77, 0xb3, 0x37, 0x44, 0x9d, 0x06, 0x63, 0xd6, 0x2f, 0x1d, 0xc2, 0xd4, 0x03,
    0xfe, 0x76, 0xc1, 0xd9, 0xda, 0xaf, 0x41, 0x11, 0xa3, 0x69, 0x30, 0x67, 0x30, 0x1d, 0x06, 0x03,
    0x55, 0x1d, 0x0e, 0x04, 0x16, 0x04, 0x14, 0xb1, 0x18, 0x8e, 0x30, 0x11, 0x66, 0x92, 0x25, 0xb4,
    0xb1, 0x09, 0xf0, 0x35, 0x9c, 0x1e, 0x17, 0xf1, 0xb4, 0x17, 0xec, 0x30, 0x1f, 0x06, 0x03, 0x55,
    0x1d, 0x23, 0x04, 0x18, 0x30, 0x16, 0x80, 0x14, 0xb1, 0x18, 0x8e, 0x30, 0x11, 0x66, 0x92, 0x25,
    0xb4, 0xb1, 0x09, 0xf0, 0x35, 0x9c, 0x1e, 0x17, 0xf1, 0xb4, 0x17, 0xec, 0x30, 0x0f, 0x06, 0x03,
    0x55, 0x1d, 0x13, 0x01, 0x01, 0xff, 0x04, 0x05, 0x30, 0x03, 0x01, 0x01, 0xff, 0x30, 0x14, 0x06,
    0x03, 0x55, 0x1d, 0x11, 0x04, 0x0d, 0x30, 0x0b, 0x82, 0x09, 0x6c, 0x6f, 0x63, 0x61, 0x6c, 0x68,
    0x6f, 0x73, 0x74, 0x30, 0x0a, 0x06, 0x08, 0x2a, 0x86, 0x48, 0xce, 0x3d, 0x04, 0x03, 0x02, 0x03,
    0x47, 0x00, 0x30, 0x44, 0x02, 0x20, 0x3d, 0xa7, 0x4c, 0x95, 0xa6, 0xd9, 0x80, 0x1b, 0x4c, 0xe3,
    0xdf, 0xce, 0xa2, 0x6f, 0xf0, 0x05, 0x60, 0x10, 0xe0, 0x76, 0x13, 0x0e, 0x4b, 0x49, 0x43, 0xd2,
    0x2a, 0x1f, 0x76, 0x42, 0x00, 0x77, 0x02, 0x20, 0x1c, 0x81, 0x72, 0x30, 0xb6, 0x73, 0x10, 0x29,
    0x77, 0xfc, 0xd4, 0xc2, 0xd2, 0x64, 0xbd, 0xf9, 0xd0, 0x5a, 0x42, 0xe1, 0x83, 0x96, 0x91, 0xdd,
    0x24, 0xf1, 0xe6, 0xbf, 0x87, 0x30, 0x42, 0x29,
];

/// Its PKCS#8 private key.
const KEY_DER: [u8; 138] = [
    0x30, 0x81, 0x87, 0x02, 0x01, 0x00, 0x30, 0x13, 0x06, 0x07, 0x2a, 0x86, 0x48, 0xce, 0x3d, 0x02,
    0x01, 0x06, 0x08, 0x2a, 0x86, 0x48, 0xce, 0x3d, 0x03, 0x01, 0x07, 0x04, 0x6d, 0x30, 0x6b, 0x02,
    0x01, 0x01, 0x04, 0x20, 0x55, 0x1b, 0x6f, 0x9e, 0x08, 0x4e, 0xae, 0x50, 0xe0, 0x3b, 0x58, 0xf2,
    0x2f, 0x8a, 0xce, 0xf2, 0x74, 0x25, 0x77, 0x62, 0x0d, 0xca, 0x28, 0x1b, 0xfd, 0x07, 0xe0, 0xbf,
    0x45, 0x27, 0x0b, 0xbe, 0xa1, 0x44, 0x03, 0x42, 0x00, 0x04, 0x59, 0x7b, 0x76, 0xbf, 0xe3, 0xa9,
    0x70, 0x19, 0x11, 0xca, 0xa5, 0x71, 0x21, 0x80, 0x30, 0x0e, 0x3d, 0x71, 0x22, 0x42, 0x6e, 0x04,
    0x0f, 0x6f, 0xb5, 0xf4, 0x24, 0x9e, 0xa5, 0xdb, 0x12, 0xef, 0x7c, 0x0f, 0x3c, 0x68, 0x58, 0x90,
    0x6d, 0x1b, 0x33, 0xd3, 0x12, 0x77, 0xb3, 0x37, 0x44, 0x9d, 0x06, 0x63, 0xd6, 0x2f, 0x1d, 0xc2,
    0xd4, 0x03, 0xfe, 0x76, 0xc1, 0xd9, 0xda, 0xaf, 0x41, 0x11,
];

/// Accepts any server certificate: the tests exercise framing, not trust.
#[derive(Debug)]
struct NoVerify;

impl ServerCertVerifier for NoVerify {
    fn verify_server_cert(
        &self,
        _end_entity: &CertificateDer<'_>,
        _intermediates: &[CertificateDer<'_>],
        _server_name: &ServerName<'_>,
        _ocsp_response: &[u8],
        _now: UnixTime,
    ) -> Result<ServerCertVerified, rustls::Error> {
        Ok(ServerCertVerified::assertion())
    }

    fn verify_tls12_signature(
        &self,
        _message: &[u8],
        _cert: &CertificateDer<'_>,
        _dss: &DigitallySignedStruct,
    ) -> Result<HandshakeSignatureValid, rustls::Error> {
        Ok(HandshakeSignatureValid::assertion())
    }

    fn verify_tls13_signature(
        &self,
        _message: &[u8],
        _cert: &CertificateDer<'_>,
        _dss: &DigitallySignedStruct,
    ) -> Result<HandshakeSignatureValid, rustls::Error> {
        Ok(HandshakeSignatureValid::assertion())
    }

    fn supported_verify_schemes(&self) -> Vec<SignatureScheme> {
        rustls::crypto::ring::default_provider()
            .signature_verification_algorithms
            .supported_schemes()
    }
}

fn no_verify_config() -> Arc<rustls::ClientConfig> {
    Arc::new(
        rustls::ClientConfig::builder()
            .dangerous()
            .with_custom_certificate_verifier(Arc::new(NoVerify))
            .with_no_client_auth(),
    )
}

/// In-memory pipe for handshake bytes.
struct MemPipe {
    buf: Vec<u8>,
}

impl MemPipe {
    fn new() -> Self {
        Self { buf: Vec::new() }
    }

    fn write_to(&mut self, data: &[u8]) {
        self.buf.extend_from_slice(data);
    }

    fn read_from(&mut self, dst: &mut [u8]) -> usize {
        let n = dst.len().min(self.buf.len());
        dst[..n].copy_from_slice(&self.buf[..n]);
        self.buf.drain(..n);
        n
    }

    fn len(&self) -> usize {
        self.buf.len()
    }
}

/// Builds the server side and captures its first multi-record handshake
/// burst, the slice fed to the client codec.
fn setup_and_capture_server_burst() -> (TlsCodec, rustls::ServerConnection, Vec<u8>) {
    let cert = CertificateDer::from(CERT_DER.to_vec());
    let key = PrivateKeyDer::try_from(KEY_DER.to_vec()).unwrap();
    let server_config = Arc::new(
        rustls::ServerConfig::builder()
            .with_no_client_auth()
            .with_single_cert(vec![cert], key)
            .unwrap(),
    );
    let mut server = rustls::ServerConnection::new(server_config).unwrap();

    let client_config = no_verify_config();
    let mut client = TlsCodec::new(&client_config, "localhost").unwrap();

    let mut c2s = MemPipe::new();
    let mut s2c = MemPipe::new();

    let mut cursor = Cursor::new(Vec::new());
    client.write_tls_to(&mut cursor).unwrap();
    c2s.write_to(cursor.get_ref());

    let mut tmp = vec![0u8; 16384];
    let n = c2s.read_from(&mut tmp);
    server
        .read_tls(&mut Cursor::new(&tmp[..n]))
        .expect("server reads ClientHello");
    server.process_new_packets().unwrap();

    while server.wants_write() {
        let mut cursor = Cursor::new(Vec::new());
        server.write_tls(&mut cursor).unwrap();
        s2c.write_to(cursor.get_ref());
    }

    let mut server_out = vec![0u8; s2c.len()];
    let n = s2c.read_from(&mut server_out);
    assert!(n > 0, "server should have produced handshake bytes");
    server_out.truncate(n);

    (client, server, server_out)
}

#[test]
fn read_and_process_tls_consumes_full_slice() {
    let (mut client, _server, server_out) = setup_and_capture_server_burst();

    let consumed = client
        .read_and_process_tls(&server_out)
        .expect("helper must consume the full slice");

    assert_eq!(consumed, server_out.len(), "helper must consume every byte");
    assert!(
        client.wants_write(),
        "client should have produced its handshake response"
    );
}

#[test]
fn read_and_process_tls_byte_at_a_time() {
    let (mut client, _server, server_out) = setup_and_capture_server_burst();

    for byte in &server_out {
        client
            .read_and_process_tls(std::slice::from_ref(byte))
            .expect("byte-at-a-time must succeed");
    }

    assert!(
        client.wants_write(),
        "client should have produced its handshake response after byte-at-a-time consumption"
    );
}

#[test]
fn bare_read_tls_partially_consumes_large_slice() {
    let client_config = no_verify_config();
    let mut client = TlsCodec::new(&client_config, "localhost").unwrap();

    let oversize = vec![0u8; 8192];

    let consumed = client
        .read_tls(&oversize)
        .expect("read_tls buffers without validating");

    assert!(
        consumed < oversize.len(),
        "expected partial consumption: consumed {consumed} of {} bytes in one call",
        oversize.len(),
    );
}

#[test]
fn new_codec_is_handshaking_and_wants_write() {
    let client = TlsCodec::new(&no_verify_config(), "localhost").unwrap();
    assert!(client.is_handshaking());
    assert!(client.wants_write());
}

#[test]
fn invalid_hostname_rejected() {
    let r = TlsCodec::new(&no_verify_config(), "not a host name!");
    match r {
        Err(TlsError::InvalidHostname(h)) => assert_eq!(h, "not a host name!"),
        _ => panic!("expected InvalidHostname"),
    }
}

#[test]
fn empty_input_consumes_nothing() {
    let mut client = TlsCodec::new(&no_verify_config(), "localhost").unwrap();
    assert_eq!(client.read_and_process_tls(&[]).unwrap(), 0);
}

#[test]
fn no_plaintext_before_handshake() {
    let mut client = TlsCodec::new(&no_verify_config(), "localhost").unwrap();
    let mut buf = [0u8; 64];
    assert_eq!(client.read_plaintext(&mut buf).unwrap(), 0);
}

#[test]
fn garbage_records_rejected() {
    let mut client = TlsCodec::new(&no_verify_config(), "localhost").unwrap();
    let garbage = [0x16u8, 0x03, 0x03, 0x00, 0x05, 0xff, 0xff, 0xff, 0xff, 0xff];
    assert!(client.read_and_process_tls(&garbage).is_err());
}

#[test]
fn plaintext_outcome_maps_each_read_result() {
    assert!(matches!(plaintext_outcome(Ok(7), false), Ok(7)));
    assert!(matches!(plaintext_outcome(Ok(7), true), Ok(7)));
    let wb = std::io::Error::new(std::io::ErrorKind::WouldBlock, "later");
    assert!(matches!(plaintext_outcome(Err(wb), true), Ok(0)));
    let other = std::io::Error::new(std::io::ErrorKind::UnexpectedEof, "gone");
    match plaintext_outcome(Err(other), false) {
        Err(TlsError::Io(e)) => assert_eq!(e.kind(), std::io::ErrorKind::UnexpectedEof),
        _ => panic!("expected an I/O error"),
    }
}

#[test]
fn chunk_outcome_maps_each_read_result() {
    assert!(matches!(chunk_outcome(Ok(5)), Ok(5)));
    match chunk_outcome(Ok(0)) {
        Err(TlsError::Io(e)) => assert_eq!(e.kind(), std::io::ErrorKind::InvalidData),
        _ => panic!("expected an InvalidData error"),
    }
    let err = std::io::Error::new(std::io::ErrorKind::BrokenPipe, "closed");
    match chunk_outcome(Err(TlsError::Io(err))) {
        Err(TlsError::Io(e)) => assert_eq!(e.kind(), std::io::ErrorKind::BrokenPipe),
        _ => panic!("expected the error passed through"),
    }
}
