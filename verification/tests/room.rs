use godrinking::peer_signal::{PeerSignal, PeerSignalKind};
use godrinking::room::{
    answer_line, code_from, direct_candidates, find_query, host_reply, ice_ip_for_peer,
    is_find_request, local_addresses, offer_line, parse_port, random_code, read_discovery_reply,
    read_offer_line, read_request, LanRoom, PeerAddress, RoomRequest,
};

fn address(text: &str, loopback: bool) -> Option<PeerAddress> {
    Some(PeerAddress {
        rendered: text.to_string(),
        loopback,
    })
}

#[test]
fn room_codes_are_short_and_uppercase() {
    let code = random_code();
    assert_eq!(code.len(), 6);
    assert!(code.chars().all(|ch| ch.is_ascii_alphanumeric()));
    assert_eq!(code, code.to_ascii_uppercase());
}

#[test]
fn codes_are_drawn_anew() {
    let codes: Vec<String> = (0..8).map(|_| random_code()).collect();
    assert!(codes.iter().any(|code| code != &codes[0]));
}

#[test]
fn a_code_is_what_was_drawn() {
    assert_eq!(code_from(&b"A1B2C3".to_vec()), "A1B2C3");
    assert_eq!(code_from(&Vec::new()), "");
}

#[test]
fn codes_use_digits_and_capital_letters_alike() {
    let drawn: String = (0..400).map(|_| random_code()).collect();
    for ch in ('0'..='9').chain('A'..='Z') {
        assert!(drawn.contains(ch), "{ch} was never drawn");
    }
    assert!(!drawn.chars().any(|ch| ch.is_ascii_lowercase()));
}

#[test]
fn requests_and_replies_are_found_again() {
    assert_eq!(read_request("GET_OFFER\n"), RoomRequest::GetOffer);
    assert_eq!(
        read_request(&answer_line(r#"{"type":"answer"}"#)),
        RoomRequest::Answer(r#"{"type":"answer"}"#.to_string())
    );
    assert_eq!(read_request("HELLO"), RoomRequest::Unsupported);
    assert_eq!(read_request(""), RoomRequest::Unsupported);
    assert_eq!(
        read_offer_line(&offer_line(r#"{"type":"offer"}"#)).as_deref(),
        Ok(r#"{"type":"offer"}"#)
    );
    assert_eq!(
        read_offer_line("NOPE").unwrap_err(),
        "host did not return an offer"
    );
}

#[test]
fn rooms_are_found_by_their_code() {
    assert_eq!(find_query("AB12CD"), "GOLIVE1 FIND AB12CD");
    assert!(is_find_request(&find_query("AB12CD"), "AB12CD"));
    assert!(!is_find_request(&find_query("AB12CD"), "AB12CE"));
    assert!(!is_find_request("GOLIVE1 FIND", "AB12CD"));
    let reply = host_reply("AB12CD", 47_999);
    assert_eq!(reply, "GOLIVE1 HOST AB12CD 47999");
    assert_eq!(read_discovery_reply(&reply, "AB12CD"), Ok(47_999));
    assert_eq!(
        read_discovery_reply("HTTP/1.1 200", "AB12CD").unwrap_err(),
        "invalid room discovery reply"
    );
    assert_eq!(
        read_discovery_reply(&reply, "ZZ12CD").unwrap_err(),
        "room code mismatch"
    );
    assert_eq!(
        read_discovery_reply("GOLIVE1 HOST AB12CD", "AB12CD").unwrap_err(),
        "room reply is missing a port"
    );
    assert_eq!(
        read_discovery_reply("GOLIVE1 HOST AB12CD 70000", "AB12CD").unwrap_err(),
        "room reply is missing a port"
    );
    assert_eq!(parse_port("65535"), Some(65_535));
    assert_eq!(parse_port("65536"), None);
    assert_eq!(parse_port(""), None);
}

#[test]
fn local_peers_are_reached_over_loopback() {
    let local = local_addresses(address("192.168.1.4", false));
    assert_eq!(local, vec!["192.168.1.4".to_string()]);
    assert_eq!(local_addresses(None), vec!["127.0.0.1".to_string()]);
    assert_eq!(ice_ip_for_peer(None, &local), "127.0.0.1");
    assert_eq!(ice_ip_for_peer(address("::1", true), &local), "127.0.0.1");
    assert_eq!(
        ice_ip_for_peer(address("192.168.1.4", false), &local),
        "127.0.0.1"
    );
    assert_eq!(
        ice_ip_for_peer(address("192.168.1.9", false), &local),
        "192.168.1.9"
    );
}

#[test]
fn a_room_hands_out_its_offer_and_keeps_an_answer() {
    let mut room = LanRoom::new("AB12CD".into(), 9);
    assert_eq!(room.current_offer().unwrap_err(), "offer is not ready");
    let offer = PeerSignal {
        kind: PeerSignalKind::Offer,
        sdp: "v=0".into(),
        id: None,
    };
    room.publish_offer(offer.clone());
    assert_eq!(room.current_offer(), Ok(offer));
    let answer = PeerSignal {
        kind: PeerSignalKind::Answer,
        sdp: "a=candidate:1 1 udp 1 abc.local 9 typ host\r\n".into(),
        id: None,
    };
    room.store_answer(answer, address("10.0.0.9", false), &Vec::new());
    let stored = room.take_answer().expect("an answer");
    assert!(stored.sdp.contains("10.0.0.9"));
    assert!(!stored.sdp.contains("abc.local"));
    assert_eq!(room.take_answer(), None);
}

#[test]
fn direct_addresses_need_a_host() {
    for host in [None, Some("  ".to_string())] {
        assert_eq!(
            direct_candidates(host, Some(9)).unwrap_err(),
            "Could not reach that address."
        );
    }
    assert_eq!(
        direct_candidates(Some(" 10.0.0.9 ".into()), Some(9)),
        Ok(("10.0.0.9".to_string(), Some("10.0.0.9:9".to_string())))
    );
    assert_eq!(
        direct_candidates(Some("10.0.0.9:7".into()), None),
        Ok(("10.0.0.9:7".to_string(), None))
    );
    // An address with a colon has its port already.
    for host in ["10.0.0.9:7", "[2001:db8::1]:41234", "[2001:db8::1]"] {
        assert_eq!(
            direct_candidates(Some(host.into()), Some(9)),
            Ok((host.to_string(), None))
        );
    }
}
