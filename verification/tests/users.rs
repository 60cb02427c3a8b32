//! Channel user lists.

use hexrust::users::{dedupe_users, insert_nick, sorted_rows, user_panel, UserRows};

fn v(xs: &[&str]) -> Vec<String> {
    xs.iter().map(|s| s.to_string()).collect()
}

#[test]
fn names_keep_one_variant_per_person_the_highest_ranked() {
    let set = dedupe_users(v(&["bob", "+Bob", "@alice", "alice", "carol", "~carol"]));
    assert_eq!(set, v(&["+Bob", "@alice", "~carol"]));
}

#[test]
fn equal_ranks_keep_the_first_seen() {
    assert_eq!(dedupe_users(v(&["+dave", "+Dave"])), v(&["+dave"]));
}

#[test]
fn the_set_is_ordered_and_without_repeats() {
    let mut s = v(&["b", "d"]);
    insert_nick(&mut s, "c".into());
    insert_nick(&mut s, "a".into());
    insert_nick(&mut s, "c".into());
    assert_eq!(s, v(&["a", "b", "c", "d"]));
}

#[test]
fn the_list_shows_higher_status_first_then_by_name() {
    let rows = sorted_rows(&v(&["+bob", "@zed", "alice", "@Amy", "~owner"]));
    assert_eq!(rows, v(&["~owner", "@Amy", "@zed", "+bob", "alice"]));
}

#[test]
fn the_panel_explains_an_empty_list() {
    let p = user_panel(0, "Status", None);
    assert_eq!(p.title, "Users");
    assert!(matches!(p.rows, UserRows::Placeholder(ref t) if t == "Select a channel tab to show users"));
    let p = user_panel(1, "#c", None);
    assert_eq!(p.title, "Users [0] #c");
    assert!(matches!(p.rows, UserRows::Placeholder(ref t) if t == "Waiting for NAMES (353)…"));
    let empty = Vec::new();
    assert!(matches!(user_panel(1, "#c", Some(&empty)).rows, UserRows::Placeholder(ref t) if t == "No users (yet)"));
    let set = v(&["b", "@a"]);
    let p = user_panel(1, "#c", Some(&set));
    assert_eq!(p.title, "Users [2] #c");
    assert!(matches!(p.rows, UserRows::Users(ref r) if r == &v(&["@a", "b"])));
}
