use nexus::shm::seglog::error::{LogError, OpenError};
use nexus::shm::seglog::frame::footprint;
use nexus::shm::error::ShmError;
use nexus::shm::seglog::log::{check_manifest, round_segment_size, SegmentedLog};
use nexus::shm::seglog::session_ids::{
    counter_text, next_session_id, parse_counter, raised_counter, session_ids,
};

fn open(size: usize) -> SegmentedLog {
    SegmentedLog::create(size, 1, b"").unwrap()
}

fn open_id(size: usize, id: u32) -> SegmentedLog {
    SegmentedLog::create(size, id, b"").unwrap()
}

/// The conductor's work after a rotation: the standby segment is cleaned.
fn wait_conductor(log: &mut SegmentedLog) {
    if !log.standby_ready() {
        log.complete_clean();
    }
}

/// What a restart reads back: the manifest and the three segments.
fn reopen(log: &SegmentedLog, size: usize, strict: bool, id: u32) -> Result<SegmentedLog, OpenError> {
    SegmentedLog::reopen(
        size,
        strict,
        id,
        log.manifest().as_bytes().to_vec(),
        log.segment_bytes(0).to_vec(),
        log.segment_bytes(1).to_vec(),
        log.segment_bytes(2).to_vec(),
    )
}

/// A conductor's counter file: claims bump it, explicit ids raise it.
struct Counter(String);

impl Counter {
    fn claim(&mut self) -> u32 {
        let id = next_session_id(parse_counter(&self.0));
        self.0 = counter_text(id);
        id
    }

    fn register(&mut self, id: u32) {
        if let Some(v) = raised_counter(parse_counter(&self.0), id) {
            self.0 = counter_text(v);
        }
    }
}

// ---- basic operations ----

#[test]
fn roundtrip() {
    let mut log = open(1 << 16);
    let off = log.append(b"hello").unwrap();
    let frame = log.read(off).unwrap();
    assert_eq!(frame.payload(), b"hello");
}

#[test]
fn multiple_records_in_one_segment() {
    let mut log = open(1 << 16);
    let o1 = log.append(b"aaa").unwrap();
    let o2 = log.append(b"bb").unwrap();
    let o3 = log.append(b"cccc").unwrap();
    assert_eq!(log.read(o1).unwrap().payload(), b"aaa");
    assert_eq!(log.read(o2).unwrap().payload(), b"bb");
    assert_eq!(log.read(o3).unwrap().payload(), b"cccc");
}

#[test]
fn empty_payload_roundtrip() {
    let mut log = open(1 << 16);
    let off = log.append(&[]).unwrap();
    assert_eq!(log.read(off).unwrap().payload(), b"");
}

#[test]
fn record_too_large_rejected() {
    let mut log = open(64);
    assert!(log.append(&[0u8; 1024]).is_err());
}

// ---- rotation ----

#[test]
fn rotation_makes_prev_slot_readable() {
    let mut log = open_id(64, 1);
    let o0 = log.append(&[0u8; 8]).unwrap();
    let _o1 = log.append(&[1u8; 8]).unwrap();
    let _o2 = log.append(&[2u8; 8]).unwrap();
    let o3 = log.append(&[3u8; 8]).unwrap();
    let o4 = log.append(&[4u8; 8]).unwrap();
    assert_eq!(log.read(o0).unwrap().payload(), &[0u8; 8]);
    assert_eq!(log.read(o3).unwrap().payload(), &[3u8; 8]);
    assert_eq!(log.read(o4).unwrap().payload(), &[4u8; 8]);
}

#[test]
fn evicted_slot_returns_none() {
    let mut log = open_id(64, 1);
    let o0 = log.append(&[0u8; 8]).unwrap();
    for _ in 0..3 {
        log.append(&[0u8; 8]).unwrap();
    }
    for _ in 0..4 {
        log.append(&[0u8; 8]).unwrap();
    }
    wait_conductor(&mut log);
    log.append(&[0u8; 1]).unwrap();
    assert!(log.read(o0).is_none());
}

#[test]
fn stale_offset_after_full_cycle_returns_none() {
    let mut log = open_id(64, 1);
    let stale = log.append(&[0u8; 8]).unwrap();
    for _ in 0..3 {
        log.append(&[0u8; 8]).unwrap();
    }
    for _ in 0..4 {
        log.append(&[0u8; 8]).unwrap();
    }
    wait_conductor(&mut log);
    for _ in 0..4 {
        log.append(&[0u8; 8]).unwrap();
    }
    wait_conductor(&mut log);
    log.append(&[0u8; 8]).unwrap();
    assert!(log.read(stale).is_none());
}

#[test]
fn slot_order_is_sequential() {
    let mut log = open_id(64, 1);
    assert_eq!(log.current(), 0);
    for _ in 0..4 {
        log.append(&[0u8; 8]).unwrap();
    }
    log.append(&[0u8; 8]).unwrap();
    assert_eq!(log.current(), 1);
    for _ in 0..3 {
        log.append(&[0u8; 8]).unwrap();
    }
    wait_conductor(&mut log);
    log.append(&[0u8; 8]).unwrap();
    assert_eq!(log.current(), 2);
}

// ---- session ID ----

#[test]
fn session_id_in_frames() {
    let mut log = open_id(1 << 16, 42);
    assert_eq!(log.session_id(), 42);
    let o1 = log.append(b"hello").unwrap();
    let o2 = log.append(b"world").unwrap();
    assert_eq!(log.read(o1).unwrap().session_id(), 42);
    assert_eq!(log.read(o2).unwrap().session_id(), 42);
}

#[test]
fn session_id_survives_rotation() {
    let mut log = open_id(64, 10);
    let o0 = log.append(&[0u8; 8]).unwrap();
    for _ in 0..3 {
        log.append(&[0u8; 8]).unwrap();
    }
    log.append(&[1u8; 8]).unwrap();
    assert_eq!(log.read(o0).unwrap().session_id(), 10);
}

#[test]
fn scan_returns_session_id() {
    let mut log = open_id(1 << 16, 7);
    log.append(b"aaa").unwrap();
    log.append(b"bbb").unwrap();

    let mut pos = log.read_start();
    let f1 = log.read_next(&mut pos).unwrap();
    assert_eq!(f1.session_id(), 7);
    let f2 = log.read_next(&mut pos).unwrap();
    assert_eq!(f2.session_id(), 7);
    assert!(log.read_next(&mut pos).is_none());
}

// ---- session name ----

#[test]
fn session_name_roundtrip() {
    let log = SegmentedLog::create(1 << 16, 1, b"fix-binance-prod").unwrap();
    assert_eq!(log.session_name(), "fix-binance-prod");
}

#[test]
fn session_name_empty_by_default() {
    let log = open_id(1 << 16, 1);
    assert_eq!(log.session_name(), "");
}

#[test]
fn session_name_survives_recovery() {
    let mut first = SegmentedLog::create(1 << 16, 1, b"fix-session-alpha").unwrap();
    first.append(b"data").unwrap();

    let log = reopen(&first, 1 << 16, false, 1).unwrap();
    assert_eq!(log.session_name(), "fix-session-alpha");
}

// ---- sequential scan ----

#[test]
fn scan_single_segment() {
    let mut log = open(1 << 16);
    log.append(b"aaa").unwrap();
    log.append(b"bb").unwrap();
    log.append(b"cccc").unwrap();

    let mut pos = log.read_start();
    assert_eq!(log.read_next(&mut pos).unwrap().payload(), b"aaa");
    assert_eq!(log.read_next(&mut pos).unwrap().payload(), b"bb");
    assert_eq!(log.read_next(&mut pos).unwrap().payload(), b"cccc");
    assert!(log.read_next(&mut pos).is_none());
}

#[test]
fn scan_across_rotation() {
    let mut log = open_id(64, 1);
    log.append(&[1u8; 8]).unwrap();
    log.append(&[2u8; 8]).unwrap();
    log.append(&[3u8; 8]).unwrap();
    log.append(&[4u8; 8]).unwrap();
    log.append(&[5u8; 8]).unwrap();
    log.append(&[6u8; 8]).unwrap();

    let mut pos = log.read_start();
    assert_eq!(log.read_next(&mut pos).unwrap().payload(), &[1u8; 8]);
    assert_eq!(log.read_next(&mut pos).unwrap().payload(), &[2u8; 8]);
    assert_eq!(log.read_next(&mut pos).unwrap().payload(), &[3u8; 8]);
    assert_eq!(log.read_next(&mut pos).unwrap().payload(), &[4u8; 8]);
    assert_eq!(log.read_next(&mut pos).unwrap().payload(), &[5u8; 8]);
    assert_eq!(log.read_next(&mut pos).unwrap().payload(), &[6u8; 8]);
    assert!(log.read_next(&mut pos).is_none());
}

#[test]
fn scan_resumes_after_append() {
    let mut log = open(1 << 16);
    log.append(b"first").unwrap();

    let mut pos = log.read_start();
    assert_eq!(log.read_next(&mut pos).unwrap().payload(), b"first");
    assert!(log.read_next(&mut pos).is_none());

    log.append(b"second").unwrap();
    assert_eq!(log.read_next(&mut pos).unwrap().payload(), b"second");
    assert!(log.read_next(&mut pos).is_none());
}

#[test]
fn scan_evicted_returns_none() {
    let mut log = open_id(64, 1);
    let start = log.read_start();
    for _ in 0..4 {
        log.append(&[0u8; 8]).unwrap();
    }
    for _ in 0..4 {
        log.append(&[0u8; 8]).unwrap();
    }
    wait_conductor(&mut log);
    log.append(&[0u8; 8]).unwrap();

    let mut pos = start;
    assert!(log.read_next(&mut pos).is_none());
}

#[test]
fn scan_empty_log() {
    let log = open(1 << 16);
    let mut pos = log.read_start();
    assert_eq!(pos, 0);
    assert!(log.read_next(&mut pos).is_none());
    assert_eq!(log.write_pos(), 0);
}

#[test]
fn scan_empty_payloads() {
    let mut log = open(1 << 16);
    log.append(&[]).unwrap();
    log.append(&[]).unwrap();
    log.append(b"x").unwrap();

    let mut pos = log.read_start();
    assert_eq!(log.read_next(&mut pos).unwrap().payload(), b"");
    assert_eq!(log.read_next(&mut pos).unwrap().payload(), b"");
    assert_eq!(log.read_next(&mut pos).unwrap().payload(), b"x");
    assert!(log.read_next(&mut pos).is_none());
}

#[test]
fn scan_variable_size_records() {
    let mut log = open(1 << 16);
    log.append(b"a").unwrap();
    log.append(b"bb").unwrap();
    log.append(b"ccccccccc").unwrap();
    log.append(b"dd").unwrap();

    let mut pos = log.read_start();
    assert_eq!(log.read_next(&mut pos).unwrap().payload(), b"a");
    assert_eq!(log.read_next(&mut pos).unwrap().payload(), b"bb");
    assert_eq!(log.read_next(&mut pos).unwrap().payload(), b"ccccccccc");
    assert_eq!(log.read_next(&mut pos).unwrap().payload(), b"dd");
    assert!(log.read_next(&mut pos).is_none());
}

#[test]
fn scan_cursor_matches_write_pos_after_drain() {
    let mut log = open_id(64, 1);
    log.append(&[1u8; 8]).unwrap();
    log.append(&[2u8; 8]).unwrap();
    log.append(&[3u8; 8]).unwrap();

    let mut pos = log.read_start();
    while log.read_next(&mut pos).is_some() {}
    assert_eq!(pos, log.write_pos());

    log.append(&[4u8; 8]).unwrap();
    log.append(&[5u8; 8]).unwrap();
    while log.read_next(&mut pos).is_some() {}
    assert_eq!(pos, log.write_pos());
}

// ---- write_pos / read_start ----

#[test]
fn write_pos_increases_monotonically() {
    let mut log = open(1 << 16);
    let mut prev_pos = log.write_pos();
    assert_eq!(prev_pos, 0);
    for _ in 0..12 {
        log.append(&[0u8; 8]).unwrap();
        let wp = log.write_pos();
        assert!(wp > prev_pos, "write_pos must increase: {wp} <= {prev_pos}");
        prev_pos = wp;
    }
}

#[test]
fn write_pos_increases_across_rotation() {
    let mut log = open_id(64, 1);
    let mut prev_pos = 0u64;
    for i in 0..4 {
        log.append(&[i as u8; 8]).unwrap();
        let wp = log.write_pos();
        assert!(wp > prev_pos, "write_pos must increase: {wp} <= {prev_pos}");
        prev_pos = wp;
    }
    log.append(&[4u8; 8]).unwrap();
    let wp = log.write_pos();
    assert!(
        wp > prev_pos,
        "write_pos must increase after rotation: {wp} <= {prev_pos}"
    );
}

#[test]
fn read_start_advances_after_rotation() {
    let mut log = open_id(64, 1);
    assert_eq!(log.read_start(), 0);

    for _ in 0..4 {
        log.append(&[0u8; 8]).unwrap();
    }
    log.append(&[0u8; 8]).unwrap();
    assert_eq!(log.read_start(), 0);

    for _ in 0..3 {
        log.append(&[0u8; 8]).unwrap();
    }
    wait_conductor(&mut log);
    log.append(&[0u8; 8]).unwrap();
    assert_eq!(log.read_start(), 64);
}

#[test]
fn frame_offset_matches_global_position() {
    let mut log = open(1 << 16);
    log.append(b"aaa").unwrap();
    log.append(b"bbb").unwrap();

    let mut pos = log.read_start();
    let f1 = log.read_next(&mut pos).unwrap();
    assert_eq!(f1.offset(), 0);
    let f2 = log.read_next(&mut pos).unwrap();
    assert_eq!(f2.offset(), footprint(3) as u64);
}

// ---- crash recovery ----

#[test]
fn recover_after_clean_shutdown() {
    let mut first = open_id(1 << 16, 1);
    first.append(b"first").unwrap();
    first.append(b"second").unwrap();

    let log = reopen(&first, 1 << 16, false, 1).unwrap();
    let mut pos = log.read_start();
    assert_eq!(log.read_next(&mut pos).unwrap().payload(), b"first");
    assert_eq!(log.read_next(&mut pos).unwrap().payload(), b"second");
    assert!(log.read_next(&mut pos).is_none());
}

#[test]
fn recover_after_rotation() {
    let mut first = open_id(64, 1);
    for i in 0..5u8 {
        first.append(&[i; 8]).unwrap();
    }
    assert_eq!(first.epoch(), 1);

    let log = reopen(&first, 64, false, 1).unwrap();
    assert_eq!(log.epoch(), 1);
    assert_eq!(log.current(), 1);
    let mut pos = log.read_start();
    assert_eq!(log.read_next(&mut pos).unwrap().payload(), &[0u8; 8]);
    assert_eq!(log.read_next(&mut pos).unwrap().payload(), &[1u8; 8]);
    assert_eq!(log.read_next(&mut pos).unwrap().payload(), &[2u8; 8]);
    assert_eq!(log.read_next(&mut pos).unwrap().payload(), &[3u8; 8]);
    assert_eq!(log.read_next(&mut pos).unwrap().payload(), &[4u8; 8]);
    assert!(log.read_next(&mut pos).is_none());
}

#[test]
fn recover_after_multiple_rotations() {
    let mut first = open_id(64, 1);
    for i in 0..4u8 {
        first.append(&[i; 8]).unwrap();
    }
    assert_eq!(first.epoch(), 0);
    for i in 4..8u8 {
        first.append(&[i; 8]).unwrap();
    }
    assert_eq!(first.epoch(), 1);
    wait_conductor(&mut first);
    for i in 8..12u8 {
        first.append(&[i; 8]).unwrap();
    }
    assert_eq!(first.epoch(), 2);

    let log = reopen(&first, 64, false, 1).unwrap();
    assert_eq!(log.epoch(), 2);
    assert_eq!(log.current(), 2);
    let mut pos = log.read_start();
    assert_eq!(log.read_next(&mut pos).unwrap().payload(), &[4u8; 8]);
    assert_eq!(log.read_next(&mut pos).unwrap().payload(), &[5u8; 8]);
    assert_eq!(log.read_next(&mut pos).unwrap().payload(), &[6u8; 8]);
    assert_eq!(log.read_next(&mut pos).unwrap().payload(), &[7u8; 8]);
    assert_eq!(log.read_next(&mut pos).unwrap().payload(), &[8u8; 8]);
    assert_eq!(log.read_next(&mut pos).unwrap().payload(), &[9u8; 8]);
    assert_eq!(log.read_next(&mut pos).unwrap().payload(), &[10u8; 8]);
    assert_eq!(log.read_next(&mut pos).unwrap().payload(), &[11u8; 8]);
    assert!(log.read_next(&mut pos).is_none());
}

#[test]
fn recover_continues_appending() {
    let mut first = open_id(1 << 16, 1);
    first.append(b"before").unwrap();

    let mut log = reopen(&first, 1 << 16, false, 1).unwrap();
    log.append(b"after").unwrap();

    let mut pos = log.read_start();
    assert_eq!(log.read_next(&mut pos).unwrap().payload(), b"before");
    assert_eq!(log.read_next(&mut pos).unwrap().payload(), b"after");
    assert!(log.read_next(&mut pos).is_none());
}

#[test]
fn recover_continues_appending_after_rotation() {
    let mut first = open_id(64, 1);
    for i in 0..5u8 {
        first.append(&[i; 8]).unwrap();
    }

    let mut log = reopen(&first, 64, false, 1).unwrap();
    log.append(&[99u8; 8]).unwrap();

    let mut pos = log.read_start();
    for i in 0..4u8 {
        assert_eq!(log.read_next(&mut pos).unwrap().payload(), &[i; 8]);
    }
    assert_eq!(log.read_next(&mut pos).unwrap().payload(), &[4u8; 8]);
    assert_eq!(log.read_next(&mut pos).unwrap().payload(), &[99u8; 8]);
    assert!(log.read_next(&mut pos).is_none());
}

// ---- builder options ----

#[test]
fn open_strict_rejects_mismatch() {
    let first = open_id(1 << 16, 1);

    let result = reopen(&first, 1 << 20, true, 1);
    assert!(matches!(result, Err(OpenError::ConfigMismatch { .. })));
}

#[test]
fn open_non_strict_uses_manifest_config() {
    let first = open_id(64, 1);

    let mut log = reopen(&first, 1024, false, 1).unwrap();
    assert_eq!(log.segment_size(), 64);
    log.append(&[0u8; 8]).unwrap();
}

#[test]
fn builder_creates_fresh() {
    let mut log = open(128);
    let off = log.append(b"test").unwrap();
    assert_eq!(log.read(off).unwrap().payload(), b"test");
}

// ---- sessions ----

#[test]
fn conductor_multiple_sessions() {
    let mut log1 = open_id(1 << 16, 1);
    let mut log2 = open_id(1 << 16, 2);

    let o1 = log1.append(b"session-1-data").unwrap();
    let o2 = log2.append(b"session-2-data").unwrap();

    assert_eq!(log1.read(o1).unwrap().payload(), b"session-1-data");
    assert_eq!(log1.read(o1).unwrap().session_id(), 1);
    assert_eq!(log2.read(o2).unwrap().payload(), b"session-2-data");
    assert_eq!(log2.read(o2).unwrap().session_id(), 2);
}

#[test]
fn conductor_auto_assigns_session_id() {
    let mut counter = Counter(String::new());

    let log1 = open_id(1 << 16, counter.claim());
    let id1 = log1.session_id();
    assert!(id1 > 0);

    let log2 = open_id(1 << 16, counter.claim());
    let id2 = log2.session_id();
    assert_ne!(id1, id2);
}

#[test]
fn conductor_sessions_on_disk() {
    let names = vec!["7".to_string(), "3".to_string()];
    let ids = session_ids(&names);
    assert_eq!(ids, vec![3, 7]);
}

#[test]
fn conductor_auto_id_skips_existing_on_disk() {
    let mut counter = Counter(String::new());
    counter.register(5);

    let log = open_id(1 << 16, counter.claim());
    assert!(log.session_id() > 5);
}

#[test]
fn two_conductors_no_id_collision() {
    let mut shared = Counter(String::new());

    let id1 = shared.claim();
    let id2 = shared.claim();
    let log1 = open_id(1 << 16, id1);
    let log2 = open_id(1 << 16, id2);

    assert_ne!(log1.session_id(), log2.session_id());
}

#[test]
fn two_conductors_explicit_then_auto() {
    let mut shared = Counter(String::new());

    shared.register(10);
    let _log1 = open_id(1 << 16, 10);

    let log2 = open_id(1 << 16, shared.claim());
    assert!(log2.session_id() > 10);
}

#[test]
fn conductor_shared_cleanup_thread() {
    let mut log1 = open_id(64, 1);
    let mut log2 = open_id(64, 2);

    for _ in 0..5 {
        log1.append(&[0u8; 8]).unwrap();
    }
    assert_eq!(log1.epoch(), 1);
    wait_conductor(&mut log1);

    for _ in 0..5 {
        log2.append(&[0u8; 8]).unwrap();
    }
    assert_eq!(log2.epoch(), 1);
    wait_conductor(&mut log2);

    log1.append(&[1u8; 8]).unwrap();
    log2.append(&[2u8; 8]).unwrap();
}

// ---- edge cases ----

#[test]
fn recover_empty_session() {
    let first = open_id(1 << 16, 1);

    let mut log = reopen(&first, 1 << 16, false, 1).unwrap();
    assert_eq!(log.write_pos(), 0);
    assert_eq!(log.epoch(), 0);
    log.append(b"post-recovery").unwrap();
    let mut pos = log.read_start();
    assert_eq!(log.read_next(&mut pos).unwrap().payload(), b"post-recovery");
}

#[test]
fn recover_high_epoch() {
    let mut first = open_id(64, 1);
    for epoch in 0..6u64 {
        for _ in 0..4 {
            first.append(&[epoch as u8; 8]).unwrap();
        }
        if epoch < 5 {
            wait_conductor(&mut first);
        }
    }
    assert_eq!(first.epoch(), 5);

    let log = reopen(&first, 64, false, 1).unwrap();
    assert_eq!(log.epoch(), 5);
    assert_eq!(log.current(), 2);
    assert_eq!(log.prev(), 1);

    let mut pos = log.read_start();
    for _ in 0..4 {
        assert_eq!(log.read_next(&mut pos).unwrap().payload(), &[4u8; 8]);
    }
    for _ in 0..4 {
        assert_eq!(log.read_next(&mut pos).unwrap().payload(), &[5u8; 8]);
    }
    assert!(log.read_next(&mut pos).is_none());
}

// ---- stress tests ----

#[test]
fn stress_many_rotations_single_session() {
    let mut log = open_id(64, 1);

    let total_records = 400;
    for i in 0u32..total_records {
        if !log.standby_ready() {
            wait_conductor(&mut log);
        }
        log.append(&i.to_le_bytes()).unwrap();
    }

    assert!(log.epoch() >= 99);

    let mut pos = log.read_start();
    let mut count = 0;
    while log.read_next(&mut pos).is_some() {
        count += 1;
    }
    assert!(
        count >= 4 && count <= 8,
        "expected 4-8 readable, got {count}"
    );
    assert_eq!(pos, log.write_pos());
}

#[test]
fn stress_many_sessions_one_conductor() {
    let mut logs: Vec<SegmentedLog> = Vec::new();
    for i in 1..=20u32 {
        logs.push(open_id(1 << 16, i));
    }

    for (idx, log) in logs.iter_mut().enumerate() {
        for j in 0..10u32 {
            let payload = format!("session-{}-record-{}", idx + 1, j);
            log.append(payload.as_bytes()).unwrap();
        }
    }

    for (idx, log) in logs.iter().enumerate() {
        let mut pos = log.read_start();
        let mut count = 0;
        while let Some(frame) = log.read_next(&mut pos) {
            assert_eq!(frame.session_id(), (idx + 1) as u32);
            count += 1;
        }
        assert_eq!(count, 10);
    }
}

#[test]
fn stress_rotation_then_recovery() {
    let mut first = open_id(64, 1);
    for i in 0u32..50 {
        if !first.standby_ready() {
            wait_conductor(&mut first);
        }
        first.append(&i.to_le_bytes()).unwrap();
    }

    let mut log = reopen(&first, 64, false, 1).unwrap();
    log.append(b"post-recovery").unwrap();

    let mut pos = log.read_start();
    let mut found_post = false;
    while let Some(frame) = log.read_next(&mut pos) {
        if frame.payload() == b"post-recovery" {
            found_post = true;
        }
    }
    assert!(found_post, "post-recovery record not found after drain");
}

#[test]
fn stress_interleaved_sessions_with_rotation() {
    let mut log1 = open_id(64, 1);
    let mut log2 = open_id(64, 2);

    for i in 0u32..40 {
        if !log1.standby_ready() {
            wait_conductor(&mut log1);
        }
        if !log2.standby_ready() {
            wait_conductor(&mut log2);
        }
        log1.append(&i.to_le_bytes()).unwrap();
        if i % 2 == 0 {
            log2.append(&i.to_le_bytes()).unwrap();
        }
    }

    assert!(log1.epoch() >= 9, "log1 epoch: {}", log1.epoch());
    assert!(log2.epoch() >= 4, "log2 epoch: {}", log2.epoch());

    let mut pos1 = log1.read_start();
    let mut count1 = 0;
    while log1.read_next(&mut pos1).is_some() {
        count1 += 1;
    }
    assert!(count1 > 0);

    let mut pos2 = log2.read_start();
    let mut count2 = 0;
    while log2.read_next(&mut pos2).is_some() {
        count2 += 1;
    }
    assert!(count2 > 0);
}

#[test]
fn stress_fill_segment_exactly() {
    let mut log = open_id(64, 1);

    for i in 0..4u8 {
        log.append(&[i; 8]).unwrap();
    }
    assert_eq!(log.epoch(), 0);
    assert_eq!(log.cursor(), 64);

    log.append(&[4u8; 8]).unwrap();
    assert_eq!(log.epoch(), 1);
    assert_eq!(log.cursor(), 16);
}

#[test]
fn stress_rapid_open_close_cycles() {
    let mut log = open_id(1 << 16, 1);
    log.append(&0u32.to_le_bytes()).unwrap();
    for cycle in 1u32..20 {
        let mut next = reopen(&log, 1 << 16, false, 1).unwrap();
        next.append(&cycle.to_le_bytes()).unwrap();
        log = next;
    }

    let log = reopen(&log, 1 << 16, false, 1).unwrap();
    let mut pos = log.read_start();
    let mut count = 0;
    while let Some(frame) = log.read_next(&mut pos) {
        let val = u32::from_le_bytes(frame.payload().try_into().unwrap());
        assert_eq!(val, count);
        count += 1;
    }
    assert_eq!(count, 20);
}

#[test]
fn stress_large_payloads() {
    let mut log = open_id(1 << 20, 1);
    let big = vec![0xABu8; 100_000];

    for _ in 0..20 {
        if !log.standby_ready() {
            wait_conductor(&mut log);
        }
        log.append(&big).unwrap();
    }

    let mut pos = log.read_start();
    while let Some(frame) = log.read_next(&mut pos) {
        assert_eq!(frame.payload().len(), 100_000);
        assert!(frame.payload().iter().all(|&b| b == 0xAB));
    }
}

#[test]
fn session_id_mismatch_on_corrupted_directory() {
    let first = open_id(1 << 16, 10);

    let result = reopen(&first, 1 << 16, false, 20);
    assert!(matches!(
        result,
        Err(OpenError::ConfigMismatch {
            field: "session_id",
            ..
        })
    ));
}

#[test]
fn log_error_messages() {
    assert_eq!(
        LogError::RecordTooLarge { max: 56 }.message(),
        "payload exceeds segment capacity (56 bytes max)"
    );
    assert_eq!(
        LogError::StandbyNotReady.message(),
        "conductor has not finished cleaning the standby segment"
    );
}

#[test]
fn record_too_large_reports_max() {
    let mut log = open(64);
    match log.append(&[0u8; 1024]) {
        Err(LogError::RecordTooLarge { max }) => assert_eq!(max, 56),
        _ => panic!("expected RecordTooLarge"),
    }
}

#[test]
fn standby_not_ready_blocks_second_rotation() {
    let mut log = open_id(64, 1);
    for _ in 0..8 {
        log.append(&[0u8; 8]).unwrap();
    }
    assert!(matches!(
        log.append(&[0u8; 8]),
        Err(LogError::StandbyNotReady)
    ));
    log.complete_clean();
    assert!(log.append(&[0u8; 8]).is_ok());
}

fn stored(log: &SegmentedLog) -> (Vec<u8>, Vec<u8>, Vec<u8>, Vec<u8>) {
    (
        log.manifest().as_bytes().to_vec(),
        log.segment_bytes(0).to_vec(),
        log.segment_bytes(1).to_vec(),
        log.segment_bytes(2).to_vec(),
    )
}

#[test]
fn check_manifest_reads_segment_size() {
    let log = open(256);
    let (m, _, _, _) = stored(&log);
    assert_eq!(check_manifest(&m).unwrap(), 256);
}

#[test]
fn check_manifest_rejects_short_foreign_and_out_of_layout_headers() {
    let log = open(256);
    let (m, _, _, _) = stored(&log);
    assert!(matches!(check_manifest(&m[..95]), Err(OpenError::Shm(ShmError::CorruptHeader))));
    let mut bad_magic = m.clone();
    bad_magic[80] ^= 0xFF;
    assert!(matches!(check_manifest(&bad_magic), Err(OpenError::Shm(ShmError::BadMagic { .. }))));
    let mut bad_version = m.clone();
    bad_version[88] = 9;
    assert!(matches!(
        check_manifest(&bad_version),
        Err(OpenError::Shm(ShmError::UnsupportedLayout { found: 9, expected: 1 }))
    ));
    let mut small = m.clone();
    small[64..72].copy_from_slice(&60u64.to_le_bytes());
    assert!(matches!(check_manifest(&small), Err(OpenError::Shm(ShmError::CorruptHeader))));
    let mut unaligned = m.clone();
    unaligned[64..72].copy_from_slice(&100u64.to_le_bytes());
    assert!(matches!(check_manifest(&unaligned), Err(OpenError::Shm(ShmError::CorruptHeader))));
    let mut huge = m.clone();
    huge[64..72].copy_from_slice(&(1u64 << 33).to_le_bytes());
    assert!(matches!(check_manifest(&huge), Err(OpenError::Shm(ShmError::CorruptHeader))));
    let mut late = m.clone();
    late[72..80].copy_from_slice(&(u64::MAX / 256).to_le_bytes());
    assert!(matches!(check_manifest(&late), Err(OpenError::Shm(ShmError::CorruptHeader))));
    let mut last = m.clone();
    last[72..80].copy_from_slice(&(u64::MAX / 256 - 1).to_le_bytes());
    assert_eq!(check_manifest(&last).unwrap(), 256);
}

#[test]
fn reopen_rejects_segments_of_the_wrong_length() {
    let log = open(256);
    let (m, s0, s1, s2) = stored(&log);
    let short = s1[..128].to_vec();
    assert!(matches!(
        SegmentedLog::reopen(256, true, 1, m.clone(), s0.clone(), short, s2.clone()),
        Err(OpenError::Shm(ShmError::MappingTooSmall { required: 256, actual: 128 }))
    ));
    assert!(SegmentedLog::reopen(256, true, 1, m, s0, s1, s2).is_ok());
}

#[test]
fn requested_segment_sizes_round_up() {
    assert_eq!(round_segment_size(0), 64);
    assert_eq!(round_segment_size(63), 64);
    assert_eq!(round_segment_size(65), 72);
    assert_eq!(round_segment_size(4096), 4096);
    assert_eq!(open(65).segment_size(), 72);
}
