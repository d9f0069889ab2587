use nexus::shm::control::{ControlBlock, LAYOUT_VERSION, MAGIC, STATUS_ALIVE, STATUS_DEAD, STATUS_UNINIT};
use nexus::shm::error::ShmError;
use nexus::shm::region::MapOptions;
use nexus::shm::ring::{check_ring_header, is_power_of_two, ring_data_len, ReaderCursor, SpscRing, WriterCursor};
use nexus::shm::seglog::manifest::{Manifest, MANIFEST_FILE_SIZE, MANIFEST_MAGIC};
use nexus::shm::seglog::session_ids::{
    counter_text, next_session_id, parse_counter, parse_session_dir, raised_counter, session_ids,
};
use nexus::shm::segment::{check_attach, check_create, flags, init_control, next_generation, status_of, total_size, Status};

fn fresh() -> ControlBlock {
    ControlBlock::zeroed()
}

// ---- control block ----

#[test]
fn write_then_validate_roundtrips() {
    let mut cb = fresh();
    assert_eq!(cb.status(), STATUS_UNINIT);
    cb.write_header(0b10, 7, 4242, 1 << 20);
    cb.validate().unwrap();
    assert_eq!(cb.magic, MAGIC);
    assert_eq!(cb.layout_ver, LAYOUT_VERSION);
    assert_eq!(cb.flags, 0b10);
    assert_eq!(cb.generation(), 7);
    assert_eq!(cb.status(), STATUS_ALIVE);
    assert_eq!(cb.data_len(), 1 << 20);
}

#[test]
fn rejects_foreign_segment() {
    let cb = fresh();
    assert!(matches!(cb.validate(), Err(ShmError::BadMagic { found: 0 })));
}

#[test]
fn liveness_transitions() {
    let mut cb = fresh();
    cb.write_header(0, 3, 1, 0);
    assert_eq!(cb.status(), STATUS_ALIVE);
    assert_eq!(cb.generation(), 3);
    cb.mark_dead();
    assert_eq!(cb.status(), STATUS_DEAD);
}

#[test]
fn magic_spells_nxsm() {
    assert_eq!(MAGIC, u32::from_le_bytes(*b"NXSM"));
}

#[test]
fn wrong_layout_version_rejected() {
    let mut cb = fresh();
    cb.write_header(0, 1, 1, 64);
    cb.layout_ver = 9;
    assert!(matches!(
        cb.validate(),
        Err(ShmError::UnsupportedLayout { found: 9, expected: 1 })
    ));
}

// ---- segment decisions ----

#[test]
fn status_words_map_to_status() {
    assert_eq!(status_of(0), Status::Uninit);
    assert_eq!(status_of(1), Status::Alive);
    assert_eq!(status_of(2), Status::Dead);
    assert_eq!(status_of(77), Status::Uninit);
}

#[test]
fn flags_pack_hints() {
    assert_eq!(flags(MapOptions { pretouch: false, huge_pages: false }), 0);
    assert_eq!(flags(MapOptions { pretouch: true, huge_pages: false }), 1);
    assert_eq!(flags(MapOptions { pretouch: false, huge_pages: true }), 2);
    assert_eq!(flags(MapOptions { pretouch: true, huge_pages: true }), 3);
}

#[test]
fn generation_wraps() {
    assert_eq!(next_generation(0), 1);
    assert_eq!(next_generation(41), 42);
    assert_eq!(next_generation(u64::MAX), 0);
}

#[test]
fn total_size_adds_header_or_overflows() {
    let n = total_size(4096).unwrap();
    assert!(n >= 4096 + 32);
    assert!(matches!(total_size(usize::MAX), Err(ShmError::SizeOverflow)));
}

#[test]
fn total_size_is_padded_block_plus_payload() {
    let header = std::mem::size_of::<crossbeam_utils::CachePadded<[u64; 4]>>();
    assert_eq!(total_size(0).unwrap(), header);
    assert_eq!(total_size(100).unwrap(), header + 100);
    assert!(matches!(total_size(usize::MAX - header + 1), Err(ShmError::SizeOverflow)));
    assert_eq!(total_size(usize::MAX - header).unwrap(), usize::MAX);
}

#[test]
fn ring_pops_accepted_values_in_order_under_interleaving() {
    let mut ring: SpscRing<u64> = SpscRing::new(4, 0);
    let mut accepted = Vec::new();
    let mut popped = Vec::new();
    let mut next = 1u64;
    for round in 0..20u64 {
        for _ in 0..(round % 3 + 1) {
            let full = ring.len() == ring.capacity();
            let ok = ring.try_push(next);
            assert_eq!(ok, !full);
            if ok {
                accepted.push(next);
            }
            next += 1;
        }
        for _ in 0..(round % 2 + 1) {
            let empty = popped.len() == accepted.len();
            match ring.try_pop() {
                Some(v) => popped.push(v),
                None => assert!(empty),
            }
        }
        assert_eq!(&accepted[..popped.len()], &popped[..]);
        assert!(accepted.len() - popped.len() <= 4);
    }
    while let Some(v) = ring.try_pop() {
        popped.push(v);
    }
    assert_eq!(accepted, popped);
}

#[test]
fn create_checks_payload_and_mapping() {
    assert!(matches!(check_create(128, 0, 4096), Err(ShmError::EmptySegment)));
    assert!(matches!(
        check_create(128, 4096, 4000),
        Err(ShmError::MappingTooSmall { required: 4224, actual: 4000 })
    ));
    assert!(check_create(128, 4096, 4224).is_ok());
}

#[test]
fn init_control_stamps_next_generation() {
    let mut cb = fresh();
    cb.write_header(0, 6, 1, 64);
    cb.mark_dead();
    let hints = MapOptions { pretouch: true, huge_pages: false };
    init_control(&mut cb, 128, 64, 192, hints, 4242, true).unwrap();
    assert_eq!(cb.generation(), 7);
    assert_eq!(cb.status(), STATUS_ALIVE);
    assert_eq!(cb.owner_pid(), 4242);
    assert_eq!(cb.flags, 1);
    assert_eq!(cb.data_len(), 64);
}

#[test]
fn init_control_refuses_live_owner() {
    let mut cb = fresh();
    let before = cb;
    let r = init_control(&mut cb, 128, 64, 192, MapOptions::default(), 1, false);
    assert!(matches!(r, Err(ShmError::OwnerActive)));
    assert_eq!(cb, before);
}

#[test]
fn attach_checks_block_and_mapping() {
    let mut cb = fresh();
    assert!(matches!(check_attach(&cb, 128, 4096), Err(ShmError::BadMagic { found: 0 })));
    cb.write_header(0, 1, 1, 4096);
    assert!(check_attach(&cb, 128, 4224).is_ok());
    assert!(matches!(
        check_attach(&cb, 128, 4223),
        Err(ShmError::MappingTooSmall { required: 4224, actual: 4223 })
    ));
}

// ---- ring ----

#[test]
fn power_of_two_detection() {
    assert!(!is_power_of_two(0));
    assert!(is_power_of_two(1));
    assert!(is_power_of_two(256));
    assert!(!is_power_of_two(6));
    assert!(is_power_of_two(1 << 63));
}

#[test]
fn ring_data_len_layout() {
    assert_eq!(ring_data_len(4, 8).unwrap(), 192 + 32);
    assert!(matches!(ring_data_len(usize::MAX, 8), Err(ShmError::SizeOverflow)));
}

#[test]
fn ring_header_checks() {
    assert!(check_ring_header(8, 8, 8).is_ok());
    assert!(matches!(check_ring_header(0, 8, 8), Err(ShmError::CorruptHeader)));
    assert!(matches!(check_ring_header(6, 8, 8), Err(ShmError::CorruptHeader)));
    assert!(matches!(
        check_ring_header(8, 4, 8),
        Err(ShmError::ElemSizeMismatch { written: 4, expected: 8 })
    ));
}

#[test]
fn empty_on_create() {
    let mut ring = SpscRing::<u64>::new(4, 0);
    assert!(ring.is_empty());
    assert!(ring.try_pop().is_none());
}

#[test]
fn push_pop_roundtrip() {
    let mut ring = SpscRing::<u64>::new(4, 0);
    assert!(ring.try_push(42));
    assert_eq!(ring.try_pop(), Some(42));
    assert!(ring.try_pop().is_none());
}

#[test]
fn fifo_ordering() {
    let mut ring = SpscRing::<u32>::new(8, 0);
    for i in 0..8u32 {
        assert!(ring.try_push(i));
    }
    for i in 0..8u32 {
        assert_eq!(ring.try_pop(), Some(i));
    }
    assert!(ring.try_pop().is_none());
}

#[test]
fn full_returns_false() {
    let mut ring = SpscRing::<u64>::new(2, 0);
    assert!(ring.try_push(1));
    assert!(ring.try_push(2));
    assert!(!ring.try_push(3));
    assert_eq!(ring.len(), 2);
    assert_eq!(ring.capacity(), 2);
}

#[test]
fn wrap_around() {
    let mut ring = SpscRing::<u64>::new(4, 0);
    for round in 0..8u64 {
        for i in 0..4u64 {
            let val = round * 4 + i;
            assert!(ring.try_push(val), "push failed at val={val}");
        }
        for i in 0..4u64 {
            let expected = round * 4 + i;
            assert_eq!(ring.try_pop(), Some(expected));
        }
    }
}

#[test]
fn cursors_track_positions_and_slots() {
    let mut w = WriterCursor::new(4);
    let mut r = ReaderCursor::new(4);
    assert!(!w.full_by_cache());
    for _ in 0..4 {
        w.advance();
    }
    assert_eq!(w.local_tail(), 4);
    assert!(w.full_by_cache());
    assert_eq!(w.slot(), 0);
    w.observe_head(1);
    assert!(!w.full_by_cache());
    assert!(r.empty_by_cache());
    r.observe_tail(4);
    assert!(!r.empty_by_cache());
    assert_eq!(r.slot(), 0);
    assert_eq!(r.advance(), 1);
    assert_eq!(r.slot(), 1);
}

// ---- manifest ----

#[test]
fn manifest_roundtrip_fields() {
    let m = Manifest::create(4096, 42, b"fix-session");
    assert_eq!(m.as_bytes().len(), MANIFEST_FILE_SIZE);
    let reopened = Manifest::open(m.as_bytes().to_vec()).unwrap();
    assert_eq!(reopened.segment_size(), 4096);
    assert_eq!(reopened.session_id(), 42);
    assert_eq!(reopened.epoch(), 0);
    assert_eq!(reopened.name(), b"fix-session");
}

#[test]
fn manifest_layout_offsets() {
    let m = Manifest::create(0x0102_0304_0506_0708, 0x0A0B_0C0D, b"ab");
    let b = m.as_bytes();
    assert_eq!(&b[0..2], b"ab");
    assert!(b[2..64].iter().all(|&x| x == 0));
    assert_eq!(u64::from_le_bytes(b[64..72].try_into().unwrap()), 0x0102_0304_0506_0708);
    assert_eq!(u64::from_le_bytes(b[72..80].try_into().unwrap()), 0);
    assert_eq!(&b[80..84], b"NXLG");
    assert_eq!(u32::from_le_bytes(b[80..84].try_into().unwrap()), MANIFEST_MAGIC);
    assert_eq!(u32::from_le_bytes(b[84..88].try_into().unwrap()), 0x0A0B_0C0D);
    assert_eq!(u16::from_le_bytes(b[88..90].try_into().unwrap()), 1);
    assert_eq!(b[90], 2);
}

#[test]
fn manifest_name_truncated_to_64() {
    let long = [b'x'; 100];
    let m = Manifest::create(64, 1, &long);
    assert_eq!(m.name().len(), 64);
}

#[test]
fn manifest_set_epoch_reads_back() {
    let mut m = Manifest::create(64, 3, b"n");
    m.set_epoch(17);
    assert_eq!(m.epoch(), 17);
    assert_eq!(m.segment_size(), 64);
    assert_eq!(m.session_id(), 3);
    assert_eq!(m.name(), b"n");
}

#[test]
fn manifest_rejects_foreign_bytes() {
    assert!(matches!(
        Manifest::open(vec![0u8; 4096]),
        Err(ShmError::BadMagic { found: 0 })
    ));
    let mut bytes = Manifest::create(64, 1, b"").as_bytes().to_vec();
    bytes[88] = 2;
    assert!(matches!(
        Manifest::open(bytes),
        Err(ShmError::UnsupportedLayout { found: 2, expected: 1 })
    ));
}

// ---- session ids ----

#[test]
fn counter_parses_like_trimmed_u32() {
    assert_eq!(parse_counter(""), 0);
    assert_eq!(parse_counter("42"), 42);
    assert_eq!(parse_counter("  42\n"), 42);
    assert_eq!(parse_counter("+7"), 7);
    assert_eq!(parse_counter("-1"), 0);
    assert_eq!(parse_counter("4x"), 0);
    assert_eq!(parse_counter("+"), 0);
    assert_eq!(parse_counter("4294967295"), u32::MAX);
    assert_eq!(parse_counter("4294967296"), 0);
    assert_eq!(parse_counter("\u{3000}12\u{a0}"), 12);
    assert_eq!(parse_counter("007"), 7);
}

#[test]
fn counter_text_reads_back() {
    for v in [0u32, 9, 10, 1234, u32::MAX] {
        let t = counter_text(v);
        assert_eq!(t, v.to_string());
        assert_eq!(parse_counter(&t), v);
    }
}

#[test]
fn claims_and_registrations() {
    assert_eq!(next_session_id(0), 1);
    assert_eq!(next_session_id(41), 42);
    assert_eq!(raised_counter(3, 10), Some(10));
    assert_eq!(raised_counter(10, 10), None);
    assert_eq!(raised_counter(12, 10), None);
}

#[test]
fn session_dirs_parse_without_trimming() {
    assert_eq!(parse_session_dir("17"), Some(17));
    assert_eq!(parse_session_dir(" 17"), None);
    assert_eq!(parse_session_dir("archive"), None);
    let names: Vec<String> = ["12", "x", "3", "3", "99999999999"].iter().map(|s| s.to_string()).collect();
    assert_eq!(session_ids(&names), vec![3, 3, 12]);
}
