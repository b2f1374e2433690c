use godrinking::inbox::{apply_ws_message, read_message, Mailbox, WsInbox};
use godrinking::peer_signal::{PeerSignal, PeerSignalKind};
use godrinking::rendezvous::{
    answer_signal, ask_body, decide_body, endpoint, frame_text, host_body, host_signal,
    member_body, mode_name, normalize_base, open_body, outgoing_frame, raw_error,
    read_ask_reply, read_error, read_open_reply, request_result, rotate_body, viewer_handshake, viewer_signal, ws_url,
    HandshakeInput, HandshakeStep, HostDecision, HostLink, LinkPhase, Outgoing, SendStep,
    SocketEvent, SocketReply, ViewerLink, WsFrame, COULD_NOT_JOIN, DECLINED, UNREACHABLE,
};
use godrinking::room_mode::SessionMode;
use godrinking::types::StunarState;

fn signal(kind: PeerSignalKind, sdp: &str, id: Option<&str>) -> PeerSignal {
    PeerSignal {
        kind,
        sdp: sdp.to_string(),
        id: id.map(|text| text.to_string()),
    }
}

#[test]
fn room_offer_from_a_member_is_an_incoming_offer_not_an_answer() {
    let mut inbox = WsInbox::default();
    apply_ws_message(
        r#"{"t":"signal","from":"cyd","to":"ada","payload":{"type":"offer","sdp":"v=0"}}"#,
        &mut inbox,
    );
    assert_eq!(inbox.offers.len(), 1);
    assert_eq!(inbox.offers[0].from, "cyd");
    assert!(inbox.answers.is_empty());
}

#[test]
fn broadcast_answer_uses_viewer_id() {
    let mut inbox = WsInbox::default();
    apply_ws_message(
        r#"{"t":"signal","viewer_id":"bob","payload":{"type":"answer","sdp":"v=0"}}"#,
        &mut inbox,
    );
    assert_eq!(inbox.answers.len(), 1);
    assert_eq!(inbox.answers[0].id.as_deref(), Some("bob"));
    assert!(inbox.offers.is_empty());
}

#[test]
fn roster_carries_master_and_share() {
    let mut inbox = WsInbox::default();
    apply_ws_message(
        r#"{"t":"roster","master_id":"ada","mode":"room","entries":[{"id":"ada","nickname":"Ada","state":"sharing","master":true,"share":true},{"id":"bob","nickname":"Bob","state":"accepted","master":false,"share":false}]}"#,
        &mut inbox,
    );
    let roster = inbox.roster.expect("roster");
    let ada = roster.get("ada").expect("ada");
    let bob = roster.get("bob").expect("bob");
    assert!(ada.master && ada.share);
    assert!(!bob.master && !bob.share);
    assert_eq!(inbox.master_id.as_deref(), Some("ada"));
}

#[test]
fn watch_request_carries_the_asker() {
    let mut inbox = WsInbox::default();
    apply_ws_message(r#"{"t":"watch","from":"bob","to":"ada"}"#, &mut inbox);
    assert_eq!(inbox.watch_from, vec!["bob".to_string()]);
    apply_ws_message(r#"{"t":"unwatch","from":"bob","to":"ada"}"#, &mut inbox);
    assert_eq!(inbox.unwatch_from, vec!["bob".to_string()]);
}

#[test]
fn messages_are_read_from_documents() {
    assert!(read_message("not a document").is_none());
    let message = read_message(
        r#"{"t":"signal","from":"bob","extra":1,"payload":{"type":"answer","sdp":"v=0"}}"#,
    )
    .expect("a document");
    assert_eq!(message.t.as_deref(), Some("signal"));
    assert_eq!(message.from.as_deref(), Some("bob"));
    assert_eq!(message.payload_type.as_deref(), Some("answer"));
    assert_eq!(message.payload_sdp.as_deref(), Some("v=0"));
    assert!(message.viewer_id.is_none() && message.entries.is_empty());
    let empty = read_message("{}").expect("an empty document");
    assert!(empty.t.is_none());
    let mistyped = read_message(r#"{"t":7,"entries":"none"}"#).expect("a document");
    assert!(mistyped.t.is_none() && mistyped.entries.is_empty());
    let mut inbox = WsInbox::default();
    apply_ws_message("broken", &mut inbox);
    assert!(inbox.roster.is_none() && inbox.answers.is_empty());
}

#[test]
fn gone_and_kicked_are_noted() {
    let mut inbox = WsInbox::default();
    apply_ws_message(r#"{"t":"gone"}"#, &mut inbox);
    assert!(inbox.gone && !inbox.kicked);
    let mut other = WsInbox::default();
    apply_ws_message(r#"{"t":"kicked"}"#, &mut other);
    assert!(other.kicked && !other.gone);
}

#[test]
fn a_roster_message_replaces_the_roster() {
    let mut mailbox = Mailbox::default();
    mailbox.handle_message(
        r#"{"t":"roster","entries":[{"id":"ada","nickname":"Ada","state":"accepted"},{"id":"bob","nickname":"Bob","state":"pending"}]}"#,
    );
    assert_eq!(
        mailbox.accepted_roster(),
        vec![("ada".to_string(), "Ada".to_string())]
    );
    assert_eq!(
        mailbox.pending_roster(),
        vec![("bob".to_string(), "Bob".to_string())]
    );
    assert_eq!(mailbox.pending_nickname("bob").as_deref(), Some("Bob"));
    assert_eq!(mailbox.pending_nickname("ada"), None);
    assert_eq!(mailbox.nickname_of("ada").as_deref(), Some("Ada"));
    mailbox.handle_message(
        r#"{"t":"roster","entries":[{"id":"cyd","nickname":"Cyd","state":"accepted"}]}"#,
    );
    assert_eq!(mailbox.nickname_of("ada"), None);
    assert_eq!(mailbox.room_roster().len(), 1);
}

#[test]
fn decisions_move_a_waiting_member() {
    let mut mailbox = Mailbox::default();
    mailbox.handle_message(r#"{"t":"pending","viewer_id":"bob","nickname":"Bob"}"#);
    assert_eq!(
        mailbox.pending_roster(),
        vec![("bob".to_string(), "Bob".to_string())]
    );
    mailbox.handle_message(
        r#"{"t":"roster","entries":[{"id":"bob","nickname":"Bob","state":"pending"},{"id":"cyd","nickname":"Cyd","state":"pending"}]}"#,
    );
    assert_eq!(mailbox.pending_roster().len(), 2);
    mailbox.note_decision("bob", true);
    mailbox.note_decision("cyd", false);
    assert_eq!(
        mailbox.accepted_roster(),
        vec![("bob".to_string(), "Bob".to_string())]
    );
    assert!(mailbox.pending_roster().is_empty());
    assert_eq!(mailbox.nickname_of("cyd"), None);
}

#[test]
fn mail_is_fetched_once_and_in_order() {
    let mut mailbox = Mailbox::default();
    for sdp in ["one", "two"] {
        mailbox.handle_message(&format!(
            r#"{{"t":"signal","from":"bob","payload":{{"type":"answer","sdp":"{sdp}"}}}}"#
        ));
    }
    mailbox.handle_message(r#"{"t":"signal","from":"cyd","payload":{"type":"offer","sdp":"o"}}"#);
    mailbox.handle_message(r#"{"t":"watch","from":"cyd"}"#);
    let answers = mailbox.take_answers();
    assert_eq!(answers.len(), 2);
    assert_eq!(answers[0].sdp, "one");
    assert_eq!(answers[1].sdp, "two");
    assert!(mailbox.take_answers().is_empty());
    assert_eq!(mailbox.take_incoming_offers().len(), 1);
    assert!(mailbox.take_incoming_offers().is_empty());
    let (watch, unwatch) = mailbox.take_watch_requests(true);
    assert_eq!(watch, vec!["cyd".to_string()]);
    assert!(unwatch.is_empty());
    assert!(mailbox.take_watch_requests(true).0.is_empty());
}

#[test]
fn addresses_are_built_from_the_base() {
    assert_eq!(normalize_base("  https://stunar.example//  "), "https://stunar.example");
    assert_eq!(
        endpoint("https://stunar.example/", "/v1/open"),
        "https://stunar.example/v1/open"
    );
    assert_eq!(
        ws_url("https://stunar.example/", "host", "abc").as_deref(),
        Ok("wss://stunar.example/v1/ws?role=host&token=abc")
    );
    assert_eq!(
        ws_url("http://127.0.0.1:8787", "viewer", "t").as_deref(),
        Ok("ws://127.0.0.1:8787/v1/ws?role=viewer&token=t")
    );
    assert_eq!(
        ws_url("ftp://x", "host", "t").unwrap_err(),
        "invalid rendezvous URL"
    );
    assert_eq!(mode_name(SessionMode::Room), "room");
    assert_eq!(mode_name(SessionMode::Broadcast), "broadcast");
    assert_eq!(request_result(Some(true)), Ok(()));
    assert_eq!(request_result(Some(false)), Err(UNREACHABLE.to_string()));
    assert_eq!(request_result(None), Err(UNREACHABLE.to_string()));
}

#[test]
fn open_replies_need_token_and_code() {
    let room = read_open_reply(true, r#"{"ok":true,"host_token":"h","code":"AB12","member_id":"m"}"#)
        .expect("opened");
    assert_eq!(room.host_token, "h");
    assert_eq!(room.code, "AB12");
    assert_eq!(room.member_id.as_deref(), Some("m"));
    for (success, body) in [
        (false, r#"{"ok":true,"host_token":"h","code":"AB12"}"#),
        (true, r#"{"ok":false,"host_token":"h","code":"AB12"}"#),
        (true, r#"{"ok":true,"code":"AB12"}"#),
        (true, r#"{"ok":true,"host_token":"h"}"#),
        (true, "oops"),
    ] {
        assert_eq!(read_open_reply(success, body), Err(UNREACHABLE.to_string()));
    }
}

#[test]
fn refusals_are_worded_for_the_viewer() {
    let grant = read_ask_reply(true, r#"{"ok":true,"viewer_token":"v","mode":"room"}"#)
        .expect("granted");
    assert_eq!(grant.token, "v");
    assert_eq!(grant.mode, "room");
    let plain = read_ask_reply(true, r#"{"ok":true,"viewer_token":"v"}"#).expect("granted");
    assert_eq!(plain.mode, "broadcast");
    for (error, text) in [
        ("full", "This session is full."),
        (
            "invalid",
            "Could not join. (server: invalid \u{2014} check the password)",
        ),
        (
            "busy",
            "Could not join. (server: busy \u{2014} too many attempts, wait a bit)",
        ),
        (
            "denied",
            "Could not join. (server: denied \u{2014} wrong code or password)",
        ),
        ("other", COULD_NOT_JOIN),
    ] {
        let body = format!(r#"{{"ok":false,"error":"{error}"}}"#);
        assert_eq!(read_ask_reply(false, &body), Err(text.to_string()));
    }
    assert_eq!(
        read_ask_reply(true, r#"{"ok":true}"#),
        Err(COULD_NOT_JOIN.to_string())
    );
    assert_eq!(read_ask_reply(true, "?"), Err(UNREACHABLE.to_string()));
}

#[test]
fn refusals_keep_the_code_of_the_server_for_the_log() {
    assert_eq!(
        read_error(false, r#"{"ok":false,"error":"denied"}"#).as_deref(),
        Some("denied")
    );
    assert_eq!(
        read_error(true, r#"{"ok":false,"error":"busy"}"#).as_deref(),
        Some("busy")
    );
    assert_eq!(read_error(false, r#"{"ok":true}"#).as_deref(), Some("unknown"));
    assert_eq!(read_error(true, r#"{"ok":true,"error":"full"}"#), None);
    assert_eq!(read_error(false, "?"), None);
    assert_eq!(raw_error(false, true, Some("full".into())).as_deref(), Some("full"));
    assert_eq!(raw_error(true, true, Some("full".into())), None);
}

#[test]
fn frames_say_who_gets_them() {
    let offer = signal(PeerSignalKind::Offer, "v=0", None);
    let frame = outgoing_frame(host_signal("bob", &offer)).expect("a frame");
    assert_eq!(
        frame,
        WsFrame {
            t: "signal".into(),
            viewer_id: Some("bob".into()),
            to: Some("bob".into()),
            payload: Some(("offer".into(), "v=0".into())),
        }
    );
    let nameless = outgoing_frame(viewer_signal("", &offer)).expect("a frame");
    assert_eq!(nameless.to, None);
    assert_eq!(nameless.viewer_id.as_deref(), Some(""));
    let answer = signal(PeerSignalKind::Answer, "a", Some("ada"));
    let reply = outgoing_frame(answer_signal(&answer)).expect("a frame");
    assert_eq!(reply.to.as_deref(), Some("ada"));
    assert_eq!(reply.payload, Some(("answer".into(), "a".into())));
    let shares: Vec<String> = [true, false]
        .into_iter()
        .map(|start| outgoing_frame(Outgoing::Share { start }).expect("a frame").t)
        .collect();
    assert_eq!(shares, vec!["share-start".to_string(), "share-stop".to_string()]);
    let watch = outgoing_frame(Outgoing::Watch {
        to: "ada".into(),
        start: false,
    })
    .expect("a frame");
    assert_eq!(watch.t, "unwatch");
    assert_eq!(outgoing_frame(Outgoing::Close), None);
}

#[test]
fn frames_are_written_as_documents() {
    let offer = signal(PeerSignalKind::Offer, "v=0\r\n\"quoted\"", None);
    let frame = outgoing_frame(host_signal("bob", &offer)).expect("a frame");
    let document: serde_json::Value = serde_json::from_str(&frame_text(&frame)).expect("JSON");
    assert_eq!(document["t"], "signal");
    assert_eq!(document["viewer_id"], "bob");
    assert_eq!(document["to"], "bob");
    assert_eq!(document["payload"]["type"], "offer");
    assert_eq!(document["payload"]["sdp"], "v=0\r\n\"quoted\"");
    let share = outgoing_frame(Outgoing::Share { start: true }).expect("a frame");
    assert_eq!(frame_text(&share), r#"{"t":"share-start"}"#);
    let nameless = outgoing_frame(viewer_signal("", &offer)).expect("a frame");
    assert!(!frame_text(&nameless).contains(r#""to""#));
}

#[test]
fn what_one_member_writes_another_one_reads() {
    let answer = signal(PeerSignalKind::Answer, "v=0\n", Some("ada"));
    let frame = outgoing_frame(answer_signal(&answer)).expect("a frame");
    let mut document: serde_json::Value =
        serde_json::from_str(&frame_text(&frame)).expect("JSON");
    document["from"] = serde_json::Value::from("bob");
    let mut mailbox = Mailbox::default();
    mailbox.handle_message(&document.to_string());
    assert_eq!(
        mailbox.take_answers(),
        vec![signal(PeerSignalKind::Answer, "v=0\n", Some("bob"))]
    );
    let watch = outgoing_frame(Outgoing::Watch {
        to: "ada".into(),
        start: true,
    })
    .expect("a frame");
    let mut wish: serde_json::Value = serde_json::from_str(&frame_text(&watch)).expect("JSON");
    wish["from"] = serde_json::Value::from("bob");
    mailbox.handle_message(&wish.to_string());
    assert_eq!(
        mailbox.take_watch_requests(true),
        (vec!["bob".to_string()], Vec::new())
    );
}

#[test]
fn requests_carry_what_the_server_asks_for() {
    let open: serde_json::Value =
        serde_json::from_str(&open_body("pw", "Ada", true, SessionMode::Room)).expect("JSON");
    assert_eq!(open["password"], "pw");
    assert_eq!(open["nickname"], "Ada");
    assert_eq!(open["admission"], true);
    assert_eq!(open["mode"], "room");
    let ask: serde_json::Value =
        serde_json::from_str(&ask_body("ABC123", "pw", "Bob")).expect("JSON");
    assert_eq!(ask["code"], "ABC123");
    assert_eq!(ask["password"], "pw");
    assert_eq!(ask["nickname"], "Bob");
    assert_eq!(host_body("h"), r#"{"host_token":"h"}"#);
    assert_eq!(member_body("m"), r#"{"token":"m"}"#);
    let decisions: Vec<String> = [
        HostDecision::Accept,
        HostDecision::Reject,
        HostDecision::Kick,
    ]
    .into_iter()
    .map(|decision| {
        let body: serde_json::Value =
            serde_json::from_str(&decide_body("h", "bob", decision)).expect("JSON");
        assert_eq!(body["host_token"], "h");
        assert_eq!(body["viewer_id"], "bob");
        body["action"].as_str().expect("an action").to_string()
    })
    .collect();
    assert_eq!(decisions, vec!["accept", "reject", "kick"]);
    assert_eq!(rotate_body("h", None), r#"{"host_token":"h"}"#);
    let rotate: serde_json::Value =
        serde_json::from_str(&rotate_body("h", Some("new"))).expect("JSON");
    assert_eq!(rotate["password"], "new");
}

#[test]
fn a_host_keeps_its_mail_through_a_lost_socket() {
    let mut host = HostLink::new(true);
    assert_eq!(host.phase, LinkPhase::Connecting);
    assert_eq!(host.state, StunarState::Calling);
    host.on_connect(true);
    assert_eq!(host.state, StunarState::Live);
    assert_eq!(host.on_event(SocketEvent::Ping), SocketReply::Pong);
    host.on_event(SocketEvent::Text(
        r#"{"t":"signal","from":"bob","payload":{"type":"answer","sdp":"v=0"}}"#.into(),
    ));
    host.on_event(SocketEvent::Ended);
    assert_eq!(host.phase, LinkPhase::Waiting);
    assert_eq!(host.mailbox.answers.len(), 1);
    host.on_delay(false);
    assert_eq!(host.phase, LinkPhase::Connecting);
    host.on_connect(false);
    assert_eq!(host.state, StunarState::Unreachable);
    host.on_delay(true);
    assert_eq!(host.phase, LinkPhase::Stopped);
    assert_eq!(HostLink::new(false).phase, LinkPhase::Stopped);
}

#[test]
fn a_host_stops_when_it_is_told_to_close() {
    let mut host = HostLink::new(true);
    host.on_connect(true);
    assert!(matches!(
        host.on_outgoing(Some(Outgoing::Share { start: true })),
        SendStep::Send(_)
    ));
    host.on_sent(true);
    assert_eq!(host.phase, LinkPhase::Connected);
    host.on_sent(false);
    assert_eq!(host.phase, LinkPhase::Waiting);
    host.on_connect(true);
    host.on_heartbeat(true);
    assert_eq!(host.state, StunarState::Live);
    host.on_heartbeat(false);
    assert_eq!(host.state, StunarState::Unreachable);
    assert_eq!(host.on_outgoing(Some(Outgoing::Close)), SendStep::CloseSocket);
    assert_eq!(host.phase, LinkPhase::Stopped);
    let mut other = HostLink::new(true);
    assert_eq!(other.on_outgoing(None), SendStep::Stop);
}

#[test]
fn a_viewer_leaves_when_the_room_is_gone() {
    let mut viewer = ViewerLink::new(Mailbox::default());
    viewer.on_event(SocketEvent::Text(r#"{"t":"watch","from":"bob"}"#.into()));
    assert_eq!(viewer.phase, LinkPhase::Connected);
    assert_eq!(viewer.mailbox.watch_from.len(), 1);
    viewer.on_event(SocketEvent::Text(r#"{"t":"gone"}"#.into()));
    assert_eq!(viewer.phase, LinkPhase::Stopped);
    let mut lost = ViewerLink::new(Mailbox::default());
    lost.on_sent(false);
    assert_eq!(lost.phase, LinkPhase::Stopped);
}

#[test]
fn a_broadcast_waits_for_the_offer() {
    let mut mailbox = Mailbox::default();
    let accepted = HandshakeInput::Text(r#"{"t":"accepted"}"#.into());
    assert_eq!(
        viewer_handshake("broadcast", &mut mailbox, accepted),
        HandshakeStep::Wait
    );
    let offer = HandshakeInput::Text(
        r#"{"t":"signal","from":"ada","payload":{"type":"offer","sdp":"v=0"}}"#.into(),
    );
    assert_eq!(
        viewer_handshake("broadcast", &mut mailbox, offer),
        HandshakeStep::Ready(signal(PeerSignalKind::Offer, "v=0", Some("ada")))
    );
    assert!(mailbox.incoming_offers.is_empty());
}

#[test]
fn a_room_is_entered_without_an_offer() {
    let mut mailbox = Mailbox::default();
    let early = HandshakeInput::Text(
        r#"{"t":"signal","from":"ada","payload":{"type":"offer","sdp":"v=0"}}"#.into(),
    );
    assert_eq!(viewer_handshake("room", &mut mailbox, early), HandshakeStep::Wait);
    assert_eq!(mailbox.incoming_offers.len(), 1);
    let accepted = HandshakeInput::Text(r#"{"t":"accepted"}"#.into());
    assert_eq!(
        viewer_handshake("room", &mut mailbox, accepted),
        HandshakeStep::Ready(signal(PeerSignalKind::Offer, "", None))
    );
}

#[test]
fn handshakes_fail_for_a_reason() {
    let mut mailbox = Mailbox::default();
    for (input, text) in [
        (HandshakeInput::Text(r#"{"t":"rejected"}"#.into()), DECLINED),
        (HandshakeInput::Text(r#"{"t":"gone"}"#.into()), COULD_NOT_JOIN),
        (HandshakeInput::Ended, UNREACHABLE),
        (HandshakeInput::TimedOut, DECLINED),
    ] {
        assert_eq!(
            viewer_handshake("broadcast", &mut mailbox, input),
            HandshakeStep::Failed(text.to_string())
        );
    }
    assert_eq!(
        viewer_handshake("broadcast", &mut mailbox, HandshakeInput::Other),
        HandshakeStep::Wait
    );
    assert_eq!(
        viewer_handshake("broadcast", &mut mailbox, HandshakeInput::Text("?".into())),
        HandshakeStep::Wait
    );
}
