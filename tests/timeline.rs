use keyoverlay::blocks::{column_blocks, elapsed_nanos, interval_block, nanos_to_px, Block};
use keyoverlay::config::{Config, K};
use keyoverlay::timeline::{KeyColumn, TimelineStore, HISTORY_CAPACITY};
use std::collections::VecDeque;

const SEC: u64 = 1_000_000_000;

fn store() -> TimelineStore {
    TimelineStore::new(&Config::default().keys)
}

fn z() -> String {
    String::from("KeyZ")
}

#[test]
fn never_pressed_has_no_blocks() {
    let s = store();
    let view = s.display(SEC, 360, 1000);
    assert_eq!(view.len(), 2);
    assert!(!view[0].pressed);
    assert!(view[0].blocks.is_empty());
    assert!(view[1].blocks.is_empty());
}

#[test]
fn press_release_gives_one_block() {
    let mut s = store();
    s.handle(&z(), true, 0);
    s.handle(&z(), false, SEC / 2);
    let view = s.display(SEC, 360, 1000);
    assert!(!view[0].pressed);
    assert_eq!(view[0].blocks, vec![Block { offset: 180, height: 180 }]);
    assert!(view[1].blocks.is_empty());
}

#[test]
fn held_key_gives_in_progress_block_at_key_cap() {
    let mut s = store();
    s.handle(&z(), true, 0);
    let view = s.display(SEC, 360, 1000);
    assert!(view[0].pressed);
    assert_eq!(view[0].blocks, vec![Block { offset: 0, height: 360 }]);
}

#[test]
fn duplicate_notifications_are_ignored() {
    let mut c = KeyColumn::new(z(), String::from("K1"));
    c.record(true, 10);
    c.record(true, 20);
    c.record(true, 30);
    assert!(c.pressed);
    assert_eq!(c.events, VecDeque::from(vec![10]));
    c.record(false, 40);
    c.record(false, 50);
    assert!(!c.pressed);
    assert_eq!(c.events, VecDeque::from(vec![40, 10]));
}

#[test]
fn release_of_released_key_records_nothing() {
    let mut c = KeyColumn::new(z(), String::from("K1"));
    c.record(false, 5);
    assert!(!c.pressed);
    assert!(c.events.is_empty());
}

#[test]
fn pressed_follows_last_notification() {
    let mut c = KeyColumn::new(z(), String::from("K1"));
    let notes = [(true, 1), (false, 2), (false, 3), (true, 4), (true, 5)];
    for (p, t) in notes {
        c.record(p, t);
    }
    assert!(c.pressed);
    assert_eq!(c.events, VecDeque::from(vec![4, 2, 1]));
}

#[test]
fn sixty_five_transitions_keep_newest_sixty_four() {
    let mut c = KeyColumn::new(z(), String::from("K1"));
    for t in 0..65u64 {
        c.record(t % 2 == 0, t + 1);
    }
    assert_eq!(c.events.len(), HISTORY_CAPACITY);
    assert_eq!(c.events[0], 65);
    assert_eq!(c.events[63], 2);
    assert!(!c.events.contains(&1));
    c.record(false, 66);
    assert_eq!(c.events.len(), 64);
    assert_eq!(c.events[0], 66);
    assert_eq!(c.events[63], 3);
}

#[test]
fn sixty_five_transitions_reconstruct_from_newest_sixty_four() {
    let mut c = KeyColumn::new(z(), String::from("K1"));
    for t in 0..65u64 {
        c.record(t % 2 == 0, (t + 1) * SEC);
    }
    assert!(c.pressed);
    let blocks = column_blocks(c.pressed, &c.events, 66 * SEC, 10, 1_000_000);
    assert_eq!(blocks.len(), 32);
    assert_eq!(blocks[0], Block { offset: 0, height: 10 });
    assert_eq!(blocks[31], Block { offset: 620, height: 10 });
}

#[test]
fn untracked_key_changes_nothing() {
    let mut s = store();
    s.handle(&String::from("KeyQ"), true, 7);
    assert!(!s.columns[0].pressed);
    assert!(!s.columns[1].pressed);
    assert!(s.columns[0].events.is_empty());
    assert!(s.columns[1].events.is_empty());
}

#[test]
fn event_goes_to_its_own_column_only() {
    let mut s = store();
    s.handle(&String::from("KeyX"), true, 7);
    assert!(!s.columns[0].pressed);
    assert!(s.columns[1].pressed);
    assert_eq!(s.columns[1].events, VecDeque::from(vec![7]));
    assert_eq!(s.columns[1].label, "K2");
}

#[test]
fn odd_history_drops_oldest_boundary() {
    let odd = VecDeque::from(vec![3 * SEC, 2 * SEC, SEC]);
    let even = VecDeque::from(vec![3 * SEC, 2 * SEC, SEC, 0]);
    let a = column_blocks(false, &odd, 4 * SEC, 100, 10_000);
    let b = column_blocks(false, &even, 4 * SEC, 100, 10_000);
    assert_eq!(a, vec![Block { offset: 100, height: 100 }]);
    assert_eq!(b.len(), a.len() + 1);
    assert_eq!(b[0], a[0]);
    assert_eq!(b[1], Block { offset: 300, height: 100 });
}

#[test]
fn blocks_past_viewport_are_cut() {
    let ev = VecDeque::from(vec![9 * SEC, 8 * SEC, 5 * SEC, 4 * SEC, SEC, 0]);
    let all = column_blocks(false, &ev, 10 * SEC, 100, 10_000);
    assert_eq!(all.len(), 3);
    let cut = column_blocks(false, &ev, 10 * SEC, 100, 500);
    assert_eq!(
        cut,
        vec![Block { offset: 100, height: 100 }, Block { offset: 500, height: 100 }]
    );
    for blk in &cut {
        assert!(blk.offset <= 500);
    }
    let none = column_blocks(false, &ev, 10 * SEC, 100, 99);
    assert!(none.is_empty());
}

#[test]
fn clock_going_backwards_clamps_to_zero() {
    assert_eq!(elapsed_nanos(3, 5), 0);
    assert_eq!(elapsed_nanos(5, 3), 2);
    let b = interval_block(5 * SEC, 6 * SEC, 4 * SEC, 360);
    assert_eq!(b, Block { offset: 0, height: 0 });
}

#[test]
fn pixel_conversion_is_exact() {
    assert_eq!(nanos_to_px(SEC / 2, 360), 180);
    assert_eq!(nanos_to_px(SEC / 3, 360), 119);
    assert_eq!(nanos_to_px(u64::MAX, u64::MAX), (u64::MAX as u128 * u64::MAX as u128) / 1_000_000_000);
}

#[test]
fn store_starts_released_and_empty() {
    let keys = vec![
        K { key: String::from("KeyA"), label: String::from("A") },
        K { key: String::from("KeyS"), label: String::from("S") },
        K { key: String::from("KeyD"), label: String::from("D") },
    ];
    let s = TimelineStore::new(&keys);
    assert_eq!(s.columns.len(), 3);
    assert_eq!(s.columns[2].key, "KeyD");
    assert_eq!(s.columns[2].label, "D");
    assert!(s.columns.iter().all(|c| !c.pressed && c.events.is_empty()));
}
