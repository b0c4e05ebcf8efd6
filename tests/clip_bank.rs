use keyclack::bank::{clip_fits, ClipBank, DEFAULT_TOTAL_KEYS, MAX_CLIP_NANOS};
use keyclack::error::SoundError;
use keyclack::tracker::KeyTracker;

const SECOND: u128 = 1_000_000_000;

#[test]
fn long_clip_is_discarded() {
    let mut bank: ClipBank<&str> = ClipBank::new(1, DEFAULT_TOTAL_KEYS);
    assert!(bank.offer(Some("short"), Some(2 * SECOND)));
    assert!(!bank.offer(Some("long"), Some(6 * SECOND)));
    assert_eq!(bank.len(), 1);
    assert_eq!(bank.clip_for(1), Ok(&"short"));
}

#[test]
fn undecodable_file_is_skipped() {
    let mut bank: ClipBank<&str> = ClipBank::new(1, DEFAULT_TOTAL_KEYS);
    assert!(!bank.offer(None, None));
    assert!(bank.offer(Some("valid"), Some(SECOND)));
    assert_eq!(bank.len(), 1);
}

#[test]
fn clip_length_ceiling() {
    assert!(clip_fits(None));
    assert!(clip_fits(Some(0)));
    assert!(clip_fits(Some(MAX_CLIP_NANOS)));
    assert!(!clip_fits(Some(MAX_CLIP_NANOS + 1)));
    assert_eq!(MAX_CLIP_NANOS, 5 * SECOND);
}

#[test]
fn unknown_length_is_kept() {
    let mut bank: ClipBank<u8> = ClipBank::new(3, DEFAULT_TOTAL_KEYS);
    assert!(bank.offer(Some(1), None));
    assert_eq!(bank.len(), 1);
}

#[test]
fn total_files_counts_paths_not_clips() {
    let mut bank: ClipBank<u8> = ClipBank::new(2, 50);
    bank.offer(Some(1), Some(SECOND));
    bank.offer(Some(2), Some(SECOND));
    bank.offer(Some(3), Some(SECOND));
    assert_eq!(bank.total_files(), 2);
    assert_eq!(bank.total_keys(), 50);
    assert_eq!(bank.len(), 3);
}

#[test]
fn empty_bank_fails_selection() {
    let bank: ClipBank<u8> = ClipBank::new(0, DEFAULT_TOTAL_KEYS);
    assert_eq!(bank.select_index(7), Err(SoundError::EmptyBank));
    assert_eq!(bank.clip_for(7), Err(SoundError::EmptyBank));
}

#[test]
fn key_seven_with_three_clips_plays_index_two() {
    let mut bank: ClipBank<&str> = ClipBank::new(1, 104);
    bank.offer(Some("a"), Some(SECOND));
    bank.offer(Some("b"), Some(SECOND));
    bank.offer(Some("c"), Some(SECOND));
    let mut tracker = KeyTracker::new();
    let events = tracker.observe(&vec![7]);
    assert_eq!(events.len(), 1);
    let renders: Vec<&str> = events.iter().map(|k| *bank.clip_for(*k).unwrap()).collect();
    assert_eq!(bank.select_index(events[0]), Ok(2));
    assert_eq!(renders, vec!["c"]);
}
