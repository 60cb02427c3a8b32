//! Buffer trimming.

use hexrust::ui::{lines_to_drop, MAX_BUFFER_LINES};

#[test]
fn the_shipped_cap_is_a_sane_size() {
    assert!(
        (500..=100_000).contains(&MAX_BUFFER_LINES),
        "cap of {MAX_BUFFER_LINES} is outside anything reasonable"
    );
}

/// Appends `n` lines one at a time, trimming as the client does, and
/// returns the numbers of the lines left.
fn fill(n: usize, max: i32) -> Vec<usize> {
    let mut kept: Vec<usize> = Vec::new();
    for i in 0..n {
        kept.push(i);
        let drop = lines_to_drop(kept.len(), max);
        kept.drain(..drop);
    }
    kept
}

#[test]
fn a_buffer_under_the_cap_is_untouched() {
    let kept = fill(10, 100);
    assert_eq!(kept.first(), Some(&0));
    assert_eq!(kept.last(), Some(&9));
}

#[test]
fn the_oldest_lines_are_dropped_once_the_cap_is_passed() {
    let kept = fill(250, 100);
    assert!(!kept.contains(&0), "oldest line survived the trim");
    assert!(kept.contains(&249), "newest line was trimmed away");
    let lines = kept.len();
    assert!(lines <= 100, "buffer kept {lines} lines, over the cap of 100");
    assert!(lines >= 95, "trimmed far more than needed: {lines} lines left");
    assert_eq!(lines, 100);
}

#[test]
fn the_newest_lines_are_always_the_ones_kept() {
    let kept = fill(500, 50);
    for i in 490..500 {
        assert!(kept.contains(&i), "recent line {i} missing");
    }
}

#[test]
fn a_nonpositive_cap_disables_trimming() {
    assert!(fill(20, 0).contains(&0), "trimmed despite a disabled cap");
    assert_eq!(fill(20, 0).len(), 20);
    assert_eq!(lines_to_drop(20, -5), 0);
    assert_eq!(lines_to_drop(120, 100), 20);
    assert_eq!(lines_to_drop(100, 100), 0);
}
