use braid::session_link::{LinkError, SessionLink};

fn link(id: &str, signal: Option<&str>, manifest: Option<&str>) -> SessionLink {
    SessionLink {
        session_id: id.to_string(),
        signal_url: signal.map(|s| s.to_string()),
        manifest_path: manifest.map(|s| s.to_string()),
    }
}

#[test]
fn readme_link_is_produced() {
    let l = link("abc123", Some("http://localhost:8080"), None);
    assert_eq!(l.to_uri().unwrap(), "braid://abc123?signal=http%3A%2F%2Flocalhost%3A8080");
}

#[test]
fn readme_link_is_parsed() {
    let l = SessionLink::parse("braid://abc123?signal=http%3A%2F%2Flocalhost%3A8080").unwrap();
    assert_eq!(l.session_id, "abc123");
    assert_eq!(l.signal_url.as_deref(), Some("http://localhost:8080"));
    assert_eq!(l.manifest_path, None);
}

#[test]
fn both_parameters_round_trip() {
    let l = link("0f3e5c1a-9b2d", Some("http://h:1/x y"), Some("./sessions/0f3e5c1a-9b2d.json"));
    let uri = l.to_uri().unwrap();
    assert_eq!(
        uri,
        "braid://0f3e5c1a-9b2d?signal=http%3A%2F%2Fh%3A1%2Fx+y&manifest=.%2Fsessions%2F0f3e5c1a-9b2d.json"
    );
    let back = SessionLink::parse(&uri).unwrap();
    assert_eq!(back.session_id, l.session_id);
    assert_eq!(back.signal_url, l.signal_url);
    assert_eq!(back.manifest_path, l.manifest_path);
}

#[test]
fn manifest_only_round_trip() {
    let l = link("s1", None, Some("/tmp/s1.json"));
    let uri = l.to_uri().unwrap();
    assert_eq!(uri, "braid://s1?manifest=%2Ftmp%2Fs1.json");
    let back = SessionLink::parse(&uri).unwrap();
    assert_eq!(back.session_id, "s1");
    assert_eq!(back.signal_url, None);
    assert_eq!(back.manifest_path.as_deref(), Some("/tmp/s1.json"));
}

#[test]
fn link_without_parameters_has_no_uri() {
    assert!(matches!(link("s", None, None).to_uri(), Err(LinkError::MissingParameters)));
}

#[test]
fn empty_parameter_is_dropped_when_read_back() {
    let uri = link("s", Some(""), Some("m")).to_uri().unwrap();
    assert_eq!(uri, "braid://s?signal=&manifest=m");
    let back = SessionLink::parse(&uri).unwrap();
    assert_eq!(back.signal_url, None);
    assert_eq!(back.manifest_path.as_deref(), Some("m"));
}

#[test]
fn wrong_scheme_is_refused() {
    match SessionLink::parse("http://abc?signal=x") {
        Err(LinkError::InvalidScheme(s)) => assert_eq!(s, "http"),
        other => panic!("unexpected {:?}", other),
    }
}

#[test]
fn missing_parameters_are_refused() {
    assert!(matches!(SessionLink::parse("braid://abc"), Err(LinkError::MissingParameters)));
    assert!(matches!(SessionLink::parse("braid://abc?signal=&manifest="), Err(LinkError::MissingParameters)));
    assert!(matches!(SessionLink::parse("braid://abc?other=1"), Err(LinkError::MissingParameters)));
}

#[test]
fn unparsable_link_is_refused() {
    assert!(matches!(SessionLink::parse("not a link"), Err(LinkError::Parse(_))));
    assert!(matches!(SessionLink::parse(""), Err(LinkError::Parse(_))));
}

#[test]
fn last_nonempty_parameter_wins() {
    let l = SessionLink::parse("braid://abc?signal=a&signal=b&signal=").unwrap();
    assert_eq!(l.signal_url.as_deref(), Some("b"));
}

#[test]
fn session_id_from_path_when_host_is_empty() {
    let l = SessionLink::parse("braid:///abc?manifest=m").unwrap();
    assert_eq!(l.session_id, "abc");
    let l = SessionLink::parse("braid:abc?manifest=m").unwrap();
    assert_eq!(l.session_id, "abc");
}

#[test]
fn scheme_is_case_insensitive() {
    let l = SessionLink::parse("BRAID://abc?signal=x").unwrap();
    assert_eq!(l.session_id, "abc");
}

#[test]
fn error_messages() {
    assert_eq!(LinkError::InvalidScheme("http".to_string()).message(), "unsupported scheme: http");
    assert_eq!(
        LinkError::MissingParameters.message(),
        "missing both 'signal' and 'manifest' parameters in braid link"
    );
    assert_eq!(LinkError::Parse("bad".to_string()).message(), "invalid link: bad");
}

#[test]
fn parameters_are_form_urlencoded() {
    let l = link("id", Some("a b&c=d/é*-._~"), None);
    assert_eq!(l.to_uri().unwrap(), "braid://id?signal=a+b%26c%3Dd%2F%C3%A9*-._%7E");
    let back = SessionLink::parse(&l.to_uri().unwrap()).unwrap();
    assert_eq!(back.signal_url.as_deref(), Some("a b&c=d/é*-._~"));
}

#[test]
fn from_url_parts_reads_host_then_path() {
    let parts = braid::session_link::UrlParts {
        scheme: "braid".to_string(),
        host: Some(String::new()),
        port: None,
        path: "//id7".to_string(),
        query_pairs: vec![("manifest".to_string(), "m".to_string())],
    };
    let l = SessionLink::from_url_parts(parts).unwrap();
    assert_eq!(l.session_id, "id7");
}

#[test]
fn plain_links_read_back_through_the_parser() {
    let cases = [
        link("67e55044-10b", Some("http://localhost:8080/"), None),
        link("abc", None, Some("./sessions/abc.json")),
        link("x-1", Some("http://h:9/a?b=c&d=e#f"), Some("C:\\roms\\ä ö.json")),
        link("0", Some("+%&= "), Some("~")),
    ];
    for l in cases.iter() {
        let back = SessionLink::parse(&l.to_uri().unwrap()).unwrap();
        assert_eq!(back.session_id, l.session_id);
        assert_eq!(back.signal_url, l.signal_url);
        assert_eq!(back.manifest_path, l.manifest_path);
    }
}

#[test]
fn parser_error_text_is_carried() {
    match SessionLink::parse("not a link") {
        Err(LinkError::Parse(msg)) => assert_eq!(msg, "relative URL without a base"),
        other => panic!("unexpected {:?}", other),
    }
}
