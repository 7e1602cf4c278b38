use braid::rendezvous::{
    NatRegistry, Negotiation, NegotiationAction, NegotiationEvent, PunchResponse, NEGOTIATION_ROUNDS,
};
use braid::signaling::{classify_state_status, is_success_status, sessions_url, state_url, StateFetchStatus, StatePayload};

#[test]
fn endpoint_urls() {
    assert_eq!(sessions_url("http://localhost:8080", "abc"), "http://localhost:8080/sessions/abc");
    assert_eq!(state_url("http://localhost:8080", "abc"), "http://localhost:8080/state/abc");
}

#[test]
fn trailing_slashes_are_ignored() {
    assert_eq!(sessions_url("http://localhost:8080/", "abc"), "http://localhost:8080/sessions/abc");
    assert_eq!(state_url("http://h///", "x"), "http://h/state/x");
    assert_eq!(sessions_url("", "x"), "/sessions/x");
}

#[test]
fn status_classes() {
    assert!(is_success_status(200));
    assert!(is_success_status(204));
    assert!(!is_success_status(199));
    assert!(!is_success_status(300));
    assert_eq!(classify_state_status(404), StateFetchStatus::Missing);
    assert_eq!(classify_state_status(500), StateFetchStatus::Failed);
    assert_eq!(classify_state_status(302), StateFetchStatus::Failed);
    assert_eq!(classify_state_status(200), StateFetchStatus::Ready);
}

#[test]
fn state_payload_encoding() {
    assert_eq!(StatePayload::from_state(b"hello").state, "aGVsbG8=");
    assert_eq!(StatePayload::from_state(b"").state, "");
    assert_eq!(StatePayload::from_state(&[0xff, 0xfe, 0x00]).state, "//4A");
    assert_eq!(StatePayload::from_state(b"ab").state, "YWI=");
}

#[test]
fn state_payload_round_trip() {
    let blob: Vec<u8> = (0..=255u8).cycle().take(1000).collect();
    let payload = StatePayload::from_state(&blob);
    assert_eq!(payload.decode_state().unwrap(), blob);
    for n in 0..8usize {
        let b: Vec<u8> = (0..n as u8).collect();
        assert_eq!(StatePayload::from_state(&b).decode_state().unwrap(), b);
    }
}

#[test]
fn bad_state_payload_is_refused() {
    let payload = StatePayload { state: "not base64!".to_string() };
    let err = payload.decode_state().unwrap_err();
    assert!(err.starts_with("failed to decode base64 state blob: "));
}

fn deliveries(r: &[braid::rendezvous::Delivery]) -> Vec<(String, Option<String>)> {
    r.iter().map(|d| (d.to.clone(), d.peer.clone())).collect()
}

#[test]
fn first_peer_is_told_to_wait() {
    let mut reg = NatRegistry::new();
    let out = reg.register("s", "1.1.1.1:5000");
    assert_eq!(deliveries(&out), vec![("1.1.1.1:5000".to_string(), None)]);
    assert_eq!(reg.peers_of("s"), vec!["1.1.1.1:5000".to_string()]);
    assert!(reg.peers_of("other").is_empty());
}

#[test]
fn second_peer_introduces_both() {
    let mut reg = NatRegistry::new();
    reg.register("s", "A:1");
    let out = reg.register("s", "B:2");
    assert_eq!(
        deliveries(&out),
        vec![
            ("A:1".to_string(), Some("B:2".to_string())),
            ("B:2".to_string(), Some("A:1".to_string())),
        ]
    );
    let out = out[0].response();
    assert_eq!(out.peer.as_deref(), Some("B:2"));
}

#[test]
fn third_peer_is_told_about_the_first() {
    let mut reg = NatRegistry::new();
    reg.register("s", "A");
    reg.register("s", "B");
    let out = reg.register("s", "C");
    assert_eq!(
        deliveries(&out),
        vec![
            ("A".to_string(), Some("B".to_string())),
            ("B".to_string(), Some("A".to_string())),
            ("C".to_string(), Some("A".to_string())),
        ]
    );
}

#[test]
fn repeated_request_does_not_duplicate() {
    let mut reg = NatRegistry::new();
    reg.register("s", "A");
    let out = reg.register("s", "A");
    assert_eq!(deliveries(&out), vec![("A".to_string(), None)]);
    assert_eq!(reg.peers_of("s"), vec!["A".to_string()]);
    reg.register("s", "B");
    reg.register("s", "B");
    assert_eq!(reg.peers_of("s"), vec!["A".to_string(), "B".to_string()]);
}

#[test]
fn sessions_are_separate() {
    let mut reg = NatRegistry::new();
    reg.register("s1", "A");
    let out = reg.register("s2", "B");
    assert_eq!(deliveries(&out), vec![("B".to_string(), None)]);
    assert_eq!(reg.peers_of("s1"), vec!["A".to_string()]);
    assert_eq!(reg.peers_of("s2"), vec!["B".to_string()]);
}

#[test]
fn negotiation_finds_a_peer() {
    let mut n = Negotiation::new();
    assert_eq!(n.requests_sent(), 1);
    assert!(!n.finished());
    assert!(matches!(n.step(NegotiationEvent::Timeout), NegotiationAction::Resend));
    assert!(matches!(n.step(NegotiationEvent::Reply(PunchResponse { peer: None })), NegotiationAction::Listen));
    match n.step(NegotiationEvent::Reply(PunchResponse { peer: Some("5.6.7.8:9".to_string()) })) {
        NegotiationAction::PeerFound(p) => assert_eq!(p, "5.6.7.8:9"),
        other => panic!("unexpected {:?}", other),
    }
}

#[test]
fn negotiation_gives_up_after_its_rounds() {
    let mut n = Negotiation::new();
    let mut rounds = 0;
    while !n.finished() {
        n.step(NegotiationEvent::Timeout);
        rounds += 1;
    }
    assert_eq!(rounds, NEGOTIATION_ROUNDS);
    assert_eq!(rounds, 10);
    assert_eq!(n.requests_sent(), 11);
}

#[test]
fn interleaved_sessions_do_not_mix() {
    let mut reg = NatRegistry::new();
    let mut only_s1 = NatRegistry::new();
    let requests = [("s1", "A"), ("s2", "X"), ("s1", "B"), ("s2", "Y"), ("s1", "C"), ("s2", "X")];
    for (s, a) in requests.iter() {
        let out = deliveries(&reg.register(s, a));
        if *s == "s1" {
            let alone = deliveries(&only_s1.register(s, a));
            assert_eq!(out, alone);
        }
        for (to, peer) in out.iter() {
            let members: Vec<&str> = requests.iter().filter(|(s2, _)| s2 == s).map(|(_, a2)| *a2).collect();
            assert!(members.contains(&to.as_str()));
            if let Some(p) = peer {
                assert!(members.contains(&p.as_str()));
                assert_ne!(p, to);
            }
        }
    }
    assert_eq!(reg.peers_of("s2"), vec!["X".to_string(), "Y".to_string()]);
}

#[test]
fn replies_without_peer_send_no_requests() {
    let mut n = Negotiation::new();
    while !n.finished() {
        n.step(NegotiationEvent::Reply(PunchResponse { peer: None }));
    }
    assert_eq!(n.requests_sent(), 1);
}

#[test]
fn non_canonical_base64_is_refused() {
    for bad in ["YWI", "YWJ=", "YQ==YQ==", " YWI="] {
        let p = StatePayload { state: bad.to_string() };
        assert!(p.decode_state().is_err(), "{bad}");
    }
}
