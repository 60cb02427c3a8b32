//! Nick mentions.

use hexrust::util::contains_nick_word;

#[test]
fn a_mention_is_found_whatever_its_case() {
    assert!(contains_nick_word("hey Alice, look", "alice"));
    assert!(contains_nick_word("ALICE: ping", "alice"));
    assert!(contains_nick_word("hi alice", "ALICE"));
    assert!(!contains_nick_word("malice aforethought", "alice"));
    assert!(!contains_nick_word("alice_b here", "alice"));
}
