//! Saved profiles.

use hexrust::profiles::{build_znc_pass, profile_from_form, seed_example_if_empty, Profile, ProfilesFile};

fn profile(name: &str) -> Profile {
    Profile {
        name: name.into(),
        server: "irc.example.net".into(),
        port: 6697,
        tls: true,
        nick: "n".into(),
        initial_channel: "#c".into(),
        znc_username: None,
        znc_network: None,
        znc_password: None,
        sasl_username: None,
        sasl_password: None,
    }
}

#[test]
fn znc_pass_has_the_network_when_there_is_one() {
    assert_eq!(build_znc_pass(Some("user"), Some("libera"), Some("pw")).as_deref(), Some("user/libera:pw"));
    assert_eq!(build_znc_pass(Some(" user "), None, Some("pw ")).as_deref(), Some("user:pw"));
    assert_eq!(build_znc_pass(Some("user"), Some("  "), Some("pw")).as_deref(), Some("user:pw"));
}

#[test]
fn znc_pass_needs_user_and_password() {
    assert_eq!(build_znc_pass(None, Some("net"), Some("pw")), None);
    assert_eq!(build_znc_pass(Some("user"), Some("net"), Some("   ")), None);
}

#[test]
fn a_profile_connects_with_its_settings() {
    let mut p = profile("znc");
    p.znc_username = Some("user".into());
    p.znc_network = Some("net".into());
    p.znc_password = Some("pw".into());
    p.sasl_username = Some("acct".into());
    let cfg = p.to_irc_config();
    assert_eq!(cfg.server, "irc.example.net");
    assert_eq!(cfg.server_password.as_deref(), Some("user/net:pw"));
    assert_eq!(cfg.sasl_username.as_deref(), Some("acct"));
    assert_eq!(cfg.sasl_password, None);
    assert!(p.is_znc());
    assert!(!profile("x").is_znc());
}

#[test]
fn an_empty_file_is_seeded_once() {
    let mut pf = ProfilesFile::default();
    assert!(seed_example_if_empty(&mut pf));
    assert_eq!(pf.profiles.len(), 1);
    assert_eq!(pf.profiles[0].name, "Libera (example)");
    assert_eq!(pf.profiles[0].server, "irc.libera.chat");
    assert!(!seed_example_if_empty(&mut pf));
    assert_eq!(pf.profiles.len(), 1);
}

#[test]
fn saving_replaces_by_name_and_keeps_the_list_sorted() {
    let mut pf = ProfilesFile::default();
    pf.upsert(profile("beta"));
    pf.upsert(profile("Alpha"));
    pf.upsert(profile("gamma"));
    let mut changed = profile("beta");
    changed.port = 7000;
    pf.upsert(changed);
    let names: Vec<&str> = pf.profiles.iter().map(|p| p.name.as_str()).collect();
    assert_eq!(names, vec!["Alpha", "beta", "gamma"]);
    assert_eq!(pf.find_named("beta").map(|p| p.port), Some(7000));
    assert!(pf.find_named("delta").is_none());
}

#[test]
fn deleting_removes_by_name() {
    let mut pf = ProfilesFile::default();
    pf.upsert(profile("a"));
    pf.upsert(profile("b"));
    pf.remove_named("a");
    assert_eq!(pf.profiles.len(), 1);
    assert_eq!(pf.profiles[0].name, "b");
}

#[test]
fn the_editor_trims_and_fills_defaults() {
    let p = profile_from_form(" Home ", " irc.x.net ", "notaport", "TRUE", " me ", " #c ", "", "", "", " acct ", "pw")
        .unwrap();
    assert_eq!(p.name, "Home");
    assert_eq!(p.server, "irc.x.net");
    assert_eq!(p.port, 6697);
    assert!(p.tls);
    assert_eq!(p.nick, "me");
    assert_eq!(p.znc_username, None);
    assert_eq!(p.sasl_username.as_deref(), Some("acct"));
    let q = profile_from_form("n", "s", " 6667 ", "no", "k", "#c", "", "", "", "", "").unwrap();
    assert_eq!(q.port, 6667);
    assert!(!q.tls);
    let big = profile_from_form("n", "s", "70000", "true", "k", "#c", "", "", "", "", "").unwrap();
    assert_eq!(big.port, 6697);
}

#[test]
fn the_editor_requires_name_server_nick_and_channel() {
    let e = profile_from_form("n", "  ", "6697", "true", "k", "#c", "", "", "", "", "").unwrap_err();
    assert_eq!(e, "Missing required fields: name, server, nick, initial channel.");
}

#[test]
fn summaries_tell_znc_from_regular() {
    let mut p = profile("home");
    assert_eq!(p.summary(), "home  →  irc.example.net:6697  TLS  nick=n  chan=#c  sasl=no");
    p.znc_username = Some("u".into());
    p.znc_password = Some("pw".into());
    p.tls = false;
    assert_eq!(p.summary(), "home  →  irc.example.net:6697  PLAINTEXT  nick=n  chan=#c  znc_user=u  net=");
}

#[test]
fn profiles_live_in_the_config_dir() {
    let p = hexrust::profiles::default_path().unwrap();
    assert!(p.ends_with(b"/hexrust/profiles.toml"), "{p:?}");
}

#[test]
fn the_profiles_file_sits_under_the_config_directory() {
    assert_eq!(
        hexrust::profiles::profiles_file_in(b"/home/u/.config"),
        b"/home/u/.config/hexrust/profiles.toml".to_vec()
    );
}

#[test]
fn a_config_directory_that_is_not_utf8_is_kept_as_it_is() {
    assert_eq!(
        hexrust::profiles::profiles_file_in(b"/home/\xff"),
        b"/home/\xff/hexrust/profiles.toml".to_vec()
    );
}
