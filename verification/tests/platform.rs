use nexus::platform::mapped_file::MappedFileOptions;
use nexus::platform::mapping::{transfer_len, MapError};
use nexus::platform::shared_memory::{validate_name, SharedMemoryOptions};

fn shm_name(suffix: &str) -> String {
    format!("/nexus-test-{}", suffix)
}

#[test]
fn name_normalization() {
    let name = shm_name("normalize");
    let bare = name.trim_start_matches('/');
    let normalized = validate_name(bare.as_bytes()).unwrap();
    assert_eq!(normalized, name.as_bytes());
}

#[test]
fn empty_name_rejected() {
    assert!(validate_name(b"").is_err());
}

#[test]
fn bare_slash_rejected() {
    assert!(validate_name(b"/").is_err());
}

#[test]
fn embedded_slash_rejected() {
    assert!(validate_name(b"foo/bar").is_err());
}

#[test]
fn nul_byte_rejected() {
    assert!(matches!(validate_name(b"a\0b"), Err(MapError::Io(_))));
}

#[test]
fn leading_slash_kept() {
    assert_eq!(validate_name(b"/seg").unwrap(), b"/seg");
}

#[test]
fn mapped_file_create_extends_short_file() {
    let mut opts = MappedFileOptions::new();
    opts.offset(4096);
    let plan = opts.plan_create(100, 1000).unwrap();
    assert_eq!(plan.map_len, 100);
    assert_eq!(plan.extend_to, Some(4196));
    let plan = opts.plan_create(100, 10_000).unwrap();
    assert_eq!(plan.extend_to, None);
}

#[test]
fn mapped_file_open_maps_past_offset() {
    let mut opts = MappedFileOptions::new();
    opts.offset(100);
    assert_eq!(opts.plan_open(4196).unwrap(), 4096);
    assert!(matches!(opts.plan_open(100), Err(MapError::EmptyFile)));
    assert!(matches!(opts.plan_open(50), Err(MapError::OutOfBounds)));
}

#[test]
fn mapped_file_bounds() {
    let mut opts = MappedFileOptions::new();
    opts.offset(u64::MAX);
    assert!(matches!(opts.plan_create(1, 0), Err(MapError::OutOfBounds)));
    let opts = MappedFileOptions::new();
    assert!(opts.check_bounds(10, 10).is_ok());
    assert!(opts.check_bounds(11, 10).is_err());
}

#[test]
fn mapped_file_builders_chain() {
    let mut opts = MappedFileOptions::new();
    opts.read_only().private().pretouch(true).huge_pages(true);
    assert!(!opts.opens_for_write());
    let hints = opts.map_options();
    assert!(hints.pretouch && hints.huge_pages);
    opts.read_write();
    assert!(opts.opens_for_write());
}

#[test]
fn shared_memory_plans() {
    let mut opts = SharedMemoryOptions::new();
    assert!(opts.opens_for_write());
    opts.private();
    assert!(!opts.opens_for_write());
    assert_eq!(opts.plan_create(128, 64), Some(128));
    assert_eq!(opts.plan_create(64, 128), None);
    assert_eq!(opts.plan_open(64).unwrap(), 64);
    assert!(matches!(opts.plan_open(0), Err(MapError::EmptyFile)));
}

#[test]
fn transfer_len_clamps_to_mapping() {
    assert_eq!(transfer_len(100, 0, 50), 50);
    assert_eq!(transfer_len(100, 80, 50), 20);
    assert_eq!(transfer_len(100, 100, 50), 0);
    assert_eq!(transfer_len(100, 200, 50), 0);
}
