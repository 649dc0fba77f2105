use chip8_hw::Hardware;
use chip8_hw::KeyEvent;

fn timer() -> u64 {
    std::time::SystemTime::now()
        .duration_since(std::time::UNIX_EPOCH)
        .unwrap()
        .as_nanos() as u64
}

fn hw() -> Hardware {
    Hardware::new(rand::rngs::JitterRng::new_with_timer(timer))
}

#[test]
fn grid_starts_dark() {
    let h = hw();
    for y in 0..32 {
        for x in 0..64 {
            assert!(!h.vram_get(x, y));
        }
    }
}

#[test]
fn grid_set_get_roundtrip() {
    let mut h = hw();
    h.vram_set(3, 5, true);
    assert!(h.vram_get(3, 5));
    h.vram_set(3, 5, false);
    assert!(!h.vram_get(3, 5));
}

#[test]
fn grid_set_leaves_other_cells() {
    let mut h = hw();
    h.vram_set(3, 5, true);
    for y in 0..32 {
        for x in 0..64 {
            if (x, y) != (3, 5) {
                assert!(!h.vram_get(x, y));
            }
        }
    }
    assert!(h.vram_get(3, 5));
}

#[test]
fn resolution_bookkeeping() {
    let mut h = hw();
    assert_eq!(h.vram_size(), (0, 0));
    h.vram_setsize((64, 32));
    assert_eq!(h.vram_size(), (64, 32));
}

#[test]
fn no_key_pressed_at_start() {
    let h = hw();
    for k in 0..=255u8 {
        assert!(!h.key(k));
    }
}

#[test]
fn key_table_mapping() {
    let table = [
        (0u8, 'x'),
        (1, '1'),
        (2, '2'),
        (3, '3'),
        (4, 'q'),
        (5, 'w'),
        (6, 'e'),
        (7, 'a'),
        (8, 's'),
        (9, 'd'),
        (0xa, 'z'),
        (0xb, 'c'),
        (0xc, '4'),
        (0xd, 'e'),
        (0xe, 'd'),
        (0xf, 'c'),
    ];
    for &(idx, c) in table.iter() {
        let mut h = hw();
        assert!(!h.sched(KeyEvent::Printable(c), 1000));
        assert!(h.key(idx), "index {idx} should match {c}");
    }
}

#[test]
fn key_table_collisions() {
    let mut h = hw();
    h.sched(KeyEvent::Printable('e'), 1000);
    assert!(h.key(6));
    assert!(h.key(0xd));
    h.sched(KeyEvent::Printable('c'), 2000);
    assert!(h.key(0xb));
    assert!(h.key(0xf));
    assert!(!h.key(6));
}

#[test]
fn unmapped_index_never_matches() {
    let mut h = hw();
    h.sched(KeyEvent::Printable('a'), 1000);
    for k in 16..=255u8 {
        assert!(!h.key(k));
    }
}

#[test]
fn debounce_holds_through_window() {
    let mut h = hw();
    h.sched(KeyEvent::Printable('a'), 1000);
    assert!(h.key(7));
    assert!(!h.sched(KeyEvent::Quiet, 1000 + 200_000_000));
    assert!(h.key(7));
}

#[test]
fn debounce_releases_past_window() {
    let mut h = hw();
    h.sched(KeyEvent::Printable('a'), 1000);
    assert!(!h.sched(KeyEvent::Quiet, 1000 + 200_000_001));
    assert!(!h.key(7));
}

#[test]
fn new_press_resets_window() {
    let mut h = hw();
    h.sched(KeyEvent::Printable('a'), 1000);
    h.sched(KeyEvent::Printable('a'), 150_000_000);
    // the window now starts at the second press time
    h.sched(KeyEvent::Quiet, 150_000_000 + 200_000_000);
    assert!(h.key(7));
}

#[test]
fn press_overwrites_previous_key() {
    let mut h = hw();
    h.sched(KeyEvent::Printable('a'), 1000);
    assert!(h.key(7));
    h.sched(KeyEvent::Printable('s'), 2000);
    assert!(!h.key(7));
    assert!(h.key(8));
}

#[test]
fn debounce_tolerates_counter_wraparound() {
    let mut h = hw();
    h.sched(KeyEvent::Printable('a'), u64::MAX - 50);
    assert!(!h.sched(KeyEvent::Quiet, 149));
    assert!(h.key(7));
    assert!(!h.sched(KeyEvent::Quiet, 200_000_000));
    assert!(!h.key(7));
}

#[test]
fn escape_halts_and_keeps_record() {
    let mut h = hw();
    h.sched(KeyEvent::Printable('a'), 1000);
    assert!(h.sched(KeyEvent::Escape, 400_000_000));
    assert!(h.key(7));
}

#[test]
fn escape_halts_from_idle() {
    let mut h = hw();
    assert!(h.sched(KeyEvent::Escape, 0));
    assert!(!h.key(7));
}

#[test]
fn stall_duration_is_600hz_step() {
    assert_eq!(chip8_hw::hardware::STALL_MICROS, 1666);
}

#[test]
fn random_bytes_come_out() {
    let mut h = hw();
    let mut bytes = Vec::new();
    for _ in 0..8 {
        bytes.push(h.rand());
    }
    assert_eq!(bytes.len(), 8);
}
