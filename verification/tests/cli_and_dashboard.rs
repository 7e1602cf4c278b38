use braid::cli::{
    choose_session_id, host_link, manifest_file_name, manifest_source, peer_launch_inputs, publish_step,
    short_session_id, should_negotiate, state_output_path, ManifestSource, OutputPath, PublishAction, PublishEvent,
};
use braid::dashboard::{
    cli_binary_name, extract_signal_url_from_link, is_blank, is_whitespace, latency_target, replace_text, u16_decimal,
    DashboardForm,
};
use braid::session_link::SessionLink;

#[test]
fn session_ids() {
    assert_eq!(short_session_id("67e55044-10b1-426f-9247-bb680e5fe0c8"), "67e55044-10b");
    assert_eq!(choose_session_id(Some("mine".to_string())), "mine");
    let a = choose_session_id(None);
    let b = choose_session_id(None);
    assert_eq!(a.chars().count(), 12);
    assert_eq!(a.as_bytes()[8], b'-');
    for (i, c) in a.chars().enumerate() {
        if i != 8 {
            assert!(c.is_ascii_digit() || ('a'..='f').contains(&c));
        }
    }
    assert_ne!(a, b);
}

#[test]
fn manifest_file_names() {
    assert_eq!(manifest_file_name("abc"), "abc.json");
}

#[test]
fn host_link_prefers_signaling() {
    let l = host_link("id", Some("http://s".to_string()), "./sessions/id.json");
    assert_eq!(l.signal_url.as_deref(), Some("http://s"));
    assert_eq!(l.manifest_path, None);
    let l = host_link("id", None, "./sessions/id.json");
    assert_eq!(l.signal_url, None);
    assert_eq!(l.manifest_path.as_deref(), Some("./sessions/id.json"));
    assert_eq!(l.to_uri().unwrap(), "braid://id?manifest=.%2Fsessions%2Fid.json");
}

#[test]
fn manifest_sources() {
    let l = SessionLink { session_id: "i".into(), signal_url: Some("u".into()), manifest_path: Some("p".into()) };
    assert!(matches!(manifest_source(&l), Ok(ManifestSource::Signal(u)) if u == "u"));
    let l = SessionLink { session_id: "i".into(), signal_url: None, manifest_path: Some("p".into()) };
    assert!(matches!(manifest_source(&l), Ok(ManifestSource::File(p)) if p == "p"));
    let l = SessionLink { session_id: "i".into(), signal_url: None, manifest_path: None };
    assert_eq!(manifest_source(&l).unwrap_err(), "invalid SessionLink: no signaling URL or manifest path");
}

#[test]
fn state_output_paths() {
    assert!(matches!(state_output_path::<std::path::PathBuf>(None, "abc"), OutputPath::Named(n) if n == "abc.state"));
    let given = std::path::PathBuf::from("/tmp/x");
    assert!(matches!(state_output_path(Some(given.clone()), "abc"), OutputPath::Given(p) if p == given));
}

#[test]
fn negotiation_only_without_address() {
    assert!(should_negotiate(&None, &Some("1.2.3.4:40000".into())));
    assert!(!should_negotiate(&Some("h".into()), &Some("1.2.3.4:40000".into())));
    assert!(!should_negotiate(&None, &None));
}

#[test]
fn peer_launch_requirements() {
    assert_eq!(
        peer_launch_inputs::<String>(None, Some("h".into())).unwrap_err(),
        "cannot launch emulator without verified --rom"
    );
    assert_eq!(
        peer_launch_inputs(Some("rom".to_string()), None).unwrap_err(),
        "--connect-address or --nat-server is required when launching the peer emulator"
    );
    assert_eq!(peer_launch_inputs::<String>(None, None).unwrap_err(), "cannot launch emulator without verified --rom");
    assert_eq!(peer_launch_inputs(Some("rom".to_string()), Some("h".into())).unwrap(), ("rom".to_string(), "h".to_string()));
    let p = std::path::PathBuf::from("/roms/g.sfc");
    assert_eq!(peer_launch_inputs(Some(p.clone()), Some("h".into())).unwrap().0, p);
}

#[test]
fn whitespace_and_blank() {
    assert!(is_whitespace(' '));
    assert!(is_whitespace('\u{3000}'));
    assert!(is_whitespace('\u{85}'));
    assert!(!is_whitespace('x'));
    assert!(!is_whitespace('\u{200B}'));
    for c in ['\t', '\n', '\u{a0}', '\u{2009}', 'a', '\u{180e}', '\u{feff}'] {
        assert_eq!(is_whitespace(c), c.is_whitespace());
    }
    assert!(is_blank(""));
    assert!(is_blank(" \t\n"));
    assert!(!is_blank(" a "));
}

#[test]
fn signal_url_from_link() {
    assert_eq!(
        extract_signal_url_from_link("braid://abc?signal=http%3A%2F%2Flocalhost%3A8080").as_deref(),
        Some("http://localhost:8080")
    );
    assert_eq!(extract_signal_url_from_link("braid://abc?signal=&signal=a&signal=b").as_deref(), Some("a"));
    assert_eq!(extract_signal_url_from_link("braid://abc?manifest=m"), None);
    assert_eq!(extract_signal_url_from_link("   "), None);
    assert_eq!(extract_signal_url_from_link("garbage"), None);
}

#[test]
fn latency_targets() {
    assert_eq!(latency_target("http://localhost:8080").as_deref(), Some("localhost:8080"));
    assert_eq!(latency_target("https://example.com/x").as_deref(), Some("example.com:443"));
    assert_eq!(latency_target("http://127.0.0.1").as_deref(), Some("127.0.0.1:80"));
    assert_eq!(latency_target("foo://example.com"), None);
    assert_eq!(latency_target(""), None);
    assert_eq!(latency_target("nonsense"), None);
}

#[test]
fn decimal_rendering() {
    assert_eq!(u16_decimal(0), "0");
    assert_eq!(u16_decimal(7), "7");
    assert_eq!(u16_decimal(40000), "40000");
    assert_eq!(u16_decimal(65535), "65535");
}

#[test]
fn dashboard_starts_idle() {
    let f = DashboardForm::new();
    assert!(f.host_dry_run && f.join_dry_run);
    assert!(!f.host_launch && !f.join_launch);
    assert_eq!(f.host_status, "Idle");
    assert_eq!(f.join_status, "Idle");
    assert!(f.log.is_empty());
}

#[test]
fn dashboard_host_and_join_args() {
    let mut f = DashboardForm::new();
    assert_eq!(f.host_args(), vec!["host", "--dry-run"]);
    f.host_rom = "/r/game.sfc".into();
    f.host_signal_url = "http://localhost:8080".into();
    f.host_nat_server = "1.2.3.4:40000".into();
    f.host_launch = true;
    f.host_dry_run = false;
    assert_eq!(
        f.host_args(),
        vec!["host", "/r/game.sfc", "--signal-url", "http://localhost:8080", "--nat-server", "1.2.3.4:40000", "--launch-emulator"]
    );
    f.join_link = "braid://x?signal=y".into();
    f.join_rom = "/r/game.sfc".into();
    f.join_launch = true;
    assert_eq!(
        f.join_args(),
        vec!["join", "braid://x?signal=y", "--rom", "/r/game.sfc", "--launch-emulator", "--dry-run"]
    );
}

#[test]
fn dashboard_drop_fills_host_then_join() {
    let mut f = DashboardForm::new();
    f.drop_path("/a.sfc");
    f.drop_path("/b.sfc");
    f.drop_path("/c.sfc");
    assert_eq!(f.host_rom, "/a.sfc");
    assert_eq!(f.join_rom, "/b.sfc");
}

#[test]
fn dashboard_log() {
    let mut f = DashboardForm::new();
    f.log = "old".into();
    f.start_log(&["host".to_string(), "--dry-run".to_string()]);
    assert_eq!(f.log, "$ braid-rs host --dry-run\n");
    f.append_log("line\n");
    assert_eq!(f.log, "$ braid-rs host --dry-run\nline\n");
}

#[test]
fn cli_binary_names() {
    assert_eq!(cli_binary_name("braid-rs-gui").as_deref(), Some("braid-rs"));
    assert_eq!(cli_binary_name("braid-rs-gui.exe").as_deref(), Some("braid-rs.exe"));
    assert_eq!(cli_binary_name("braid-rs"), None);
    assert_eq!(replace_text("aXbXc", "X", "--"), ("a--b--c".to_string(), true));
    assert_eq!(replace_text("aaa", "aa", "b"), ("ba".to_string(), true));
    assert_eq!(replace_text("abc", "z", "y"), ("abc".to_string(), false));
}

#[test]
fn dashboard_ping_statuses() {
    let mut f = DashboardForm::new();
    f.record_host_ping(true);
    assert_eq!(f.host_status, "Signaling reachable");
    f.record_host_ping(false);
    assert_eq!(f.host_status, "Signaling unreachable");
    f.record_join_ping(false, true);
    assert_eq!(f.join_status, "Invalid or missing braid:// link");
    f.record_join_ping(true, true);
    assert_eq!(f.join_status, "Signaling reachable");
    f.record_join_ping(true, false);
    assert_eq!(f.join_status, "Signaling unreachable");
    assert_eq!(f.host_status, "Signaling unreachable");
}

#[test]
fn dashboard_ping_keeps_other_fields() {
    let mut f = DashboardForm::new();
    f.host_rom = "/a.sfc".into();
    f.join_link = "braid://x?signal=y".into();
    f.log = "log".into();
    f.record_host_ping(true);
    f.record_join_ping(true, false);
    assert_eq!(f.host_rom, "/a.sfc");
    assert_eq!(f.join_link, "braid://x?signal=y");
    assert_eq!(f.log, "log");
    assert!(f.host_dry_run);
}

#[test]
fn dashboard_drops_fill_empty_fields_in_order() {
    let mut f = DashboardForm::new();
    f.join_rom = "/set.sfc".into();
    for p in ["/1.sfc", "/2.sfc", "/3.sfc"] {
        f.drop_path(p);
    }
    assert_eq!(f.host_rom, "/1.sfc");
    assert_eq!(f.join_rom, "/set.sfc");
}

#[test]
fn dashboard_log_lines_append_in_order() {
    let mut f = DashboardForm::new();
    f.start_log(&["join".to_string()]);
    for line in ["a\n", "b\n", "c\n"] {
        f.append_log(line);
    }
    assert_eq!(f.log, "$ braid-rs join\na\nb\nc\n");
}

fn step(url: Option<&str>, state: bool, e: PublishEvent) -> PublishAction {
    publish_step(&url.map(|u| u.to_string()), state, e)
}

#[test]
fn publishing_without_signaling_does_nothing() {
    assert!(matches!(step(None, true, PublishEvent::Start), PublishAction::Finish(None)));
}

#[test]
fn publishing_posts_manifest_then_state() {
    let u = Some("http://s");
    assert!(matches!(step(u, true, PublishEvent::Start), PublishAction::PostManifest(x) if x == "http://s"));
    assert!(matches!(step(u, true, PublishEvent::ManifestPosted(true)), PublishAction::ReadStateFile));
    assert!(matches!(step(u, true, PublishEvent::StateFileRead(true)), PublishAction::PostState(x) if x == "http://s"));
    assert!(matches!(step(u, true, PublishEvent::StatePosted(true)), PublishAction::Finish(Some(x)) if x == "http://s"));
    assert!(matches!(step(u, false, PublishEvent::ManifestPosted(true)), PublishAction::Finish(Some(x)) if x == "http://s"));
}

#[test]
fn publishing_failures_only_end_early() {
    let u = Some("http://s");
    assert!(matches!(step(u, true, PublishEvent::ManifestPosted(false)), PublishAction::Finish(None)));
    assert!(matches!(step(u, true, PublishEvent::StateFileRead(false)), PublishAction::Finish(Some(_))));
    assert!(matches!(step(u, true, PublishEvent::StatePosted(false)), PublishAction::Finish(Some(_))));
}
