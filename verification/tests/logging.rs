//! Where logs go: hostile names stay in the log directory.

use hexrust::logging::{log_file_in, log_path, log_path_display, logs_base_dir, logs_dir_in, sanitize_component};

fn text(b: &[u8]) -> &str {
    std::str::from_utf8(b).unwrap()
}

/// Buffer names arrive straight from the network, so path separators and
/// traversal must not escape the log directory.
#[test]
fn hostile_buffer_names_stay_inside_the_log_dir() {
    let base = logs_base_dir().unwrap();
    for nasty in ["../../etc/passwd", "a/b", "..", "/abs"] {
        let p = log_path("srv", nasty).unwrap();
        assert!(
            std::path::Path::new(text(&p)).starts_with(text(&base)),
            "buffer name {nasty:?} escaped the log dir: {}",
            text(&p)
        );
    }
}

#[test]
fn the_log_dir_is_under_the_data_dir() {
    let base = logs_base_dir().unwrap();
    assert!(base.ends_with(b"/hexrust/logs"), "{base:?}");
}

#[test]
fn separators_and_odd_characters_become_underscores() {
    assert_eq!(sanitize_component("../../etc/passwd"), ".._.._etc_passwd");
    assert_eq!(sanitize_component("a/b"), "a_b");
    assert_eq!(sanitize_component("#rust-beginners"), "#rust-beginners");
    assert_eq!(sanitize_component("nick@host+x"), "nick@host+x");
    assert_eq!(sanitize_component("tab\there"), "tab_here");
    assert_eq!(sanitize_component("é"), "_");
}

#[test]
fn sanitized_components_are_trimmed() {
    assert_eq!(sanitize_component("  spaced  "), "spaced");
    assert_eq!(sanitize_component(""), "");
}

#[test]
fn the_file_is_server_then_buffer_dot_log() {
    assert_eq!(
        log_file_in(b"/data/hexrust/logs", "irc.libera.chat", "#rust"),
        b"/data/hexrust/logs/irc.libera.chat/#rust.log".to_vec()
    );
    assert_eq!(
        log_file_in(b"/d", "srv", "../../etc/passwd"),
        b"/d/srv/.._.._etc_passwd.log".to_vec()
    );
}

#[test]
fn a_log_directory_that_is_not_utf8_is_kept_as_it_is() {
    assert_eq!(logs_dir_in(b"/home/\xff"), b"/home/\xff/hexrust/logs".to_vec());
    assert_eq!(log_file_in(b"/\xfe", "s", "b"), b"/\xfe/s/b.log".to_vec());
}

#[test]
fn the_displayed_path_is_the_log_path() {
    assert_eq!(
        log_path_display("srv", "#c").map(String::into_bytes),
        log_path("srv", "#c")
    );
}

#[test]
fn the_log_directory_sits_under_the_data_directory() {
    assert_eq!(logs_dir_in(b"/home/u/.local/share"), b"/home/u/.local/share/hexrust/logs".to_vec());
    if let Some(d) = logs_base_dir() {
        assert!(d.ends_with(b"/hexrust/logs"));
    }
}
