//! Buffer keys and their text form.

use hexrust::model::BufferKey;

#[test]
fn a_key_reads_back_from_its_text() {
    let k = BufferKey::new(12, "#a|b");
    assert_eq!(k.as_string(), "12|#a|b");
    assert_eq!(BufferKey::from_string(&k.as_string()), Some(k));
}

#[test]
fn malformed_keys_are_refused() {
    assert_eq!(BufferKey::from_string("no-separator"), None);
    assert_eq!(BufferKey::from_string("x|name"), None);
    assert_eq!(BufferKey::from_string("|name"), None);
    assert_eq!(BufferKey::from_string("+7|n"), Some(BufferKey::new(7, "n")));
}
