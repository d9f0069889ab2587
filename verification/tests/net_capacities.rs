use nexus::net::capacities::TlsBufferCapacities;

#[test]
fn defaults_match_builder_no_overrides() {
    let a = TlsBufferCapacities::default();
    let b = TlsBufferCapacities::builder().build();
    assert_eq!(a.read_chunk(), b.read_chunk());
    assert_eq!(a.pending_write(), b.pending_write());
    assert_eq!(a.rustls_plaintext_limit(), b.rustls_plaintext_limit());
    assert_eq!(a.read_chunk(), 18 * 1024);
    assert_eq!(a.pending_write(), 16 * 1024);
    assert!(a.rustls_plaintext_limit().is_none());
}

#[test]
fn builder_overrides() {
    let c = TlsBufferCapacities::builder()
        .read_chunk(4096)
        .pending_write(32 * 1024)
        .rustls_plaintext_limit(Some(16 * 1024))
        .build();
    assert_eq!(c.read_chunk(), 4096);
    assert_eq!(c.pending_write(), 32 * 1024);
    assert_eq!(c.rustls_plaintext_limit(), Some(16 * 1024));
}

#[test]
fn builder_setters_are_independent() {
    let c = TlsBufferCapacities::builder().pending_write(8 * 1024).build();
    assert_eq!(c.read_chunk(), 18 * 1024);
    assert_eq!(c.pending_write(), 8 * 1024);
    assert_eq!(c.rustls_plaintext_limit(), None);
}
