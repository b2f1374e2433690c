use godrinking::capabilities::{detect, Platform, ScreenRecordingAuthorization};
use godrinking::commands::{
    discover_media_room, run_media_benchmark, send_stunar_room_answer, source_id_update, JoinPlan,
    PermissionReport,
};
use godrinking::control_plane::{OfferEpochFence, SessionEpoch};
use godrinking::engine::EngineState;
use godrinking::engine_error::MediaEngineError;
use godrinking::in_place::{
    format_frame_rate, format_resolution, CaptureStop, ShareRestartReports, ShareStartReports,
};
use godrinking::inbox::RoomEntry;
use godrinking::mint::{MediaOffer, MintOutcome, MAX_VIEWERS};
use godrinking::peer_signal::{PeerSignal, PeerSignalKind};
use godrinking::peer_transport::PeerTransportStatus;
use godrinking::registry::Registry;
use godrinking::pipeline::EncoderControl;
use godrinking::room_mode::SessionMode;
use godrinking::session::SessionRecord;
use godrinking::snapshot::{
    merge_viewer_roster, CaptureLifecycle, MediaSessionSnapshot, Observed, RosterEntry,
    StunarFacts, ViewerFacts,
};
use godrinking::transactions::log_transaction;
use godrinking::types::{
    CaptureSource, CreateMediaSessionRequest, FrameRate, JoinMode, MediaLifecycleState,
    PeerTransportState, SourceIdUpdate, StunarState, TransmissionQuality,
    UpdateCredentialsRequest, UpdateMediaSessionRequest, VideoCodec, VideoEncoder,
    VideoResolution,
};
use godrinking::viewers::{
    AcceptFacts, AdmitPlan, WatchRequest, MAX_OFFER_RESENDS, OFFER_RESEND_AFTER,
};

type State = EngineState<u32, (), ()>;

fn request(session_mode: SessionMode) -> CreateMediaSessionRequest {
    CreateMediaSessionRequest {
        source: CaptureSource::Screen,
        source_id: None,
        resolution: VideoResolution::P1080,
        frame_rate: FrameRate::Fps60,
        system_audio: false,
        excluded_apps: Vec::new(),
        quality: TransmissionQuality::High,
        bitrate_bps: None,
        min_bitrate_bps: None,
        codec: VideoCodec::H264,
        encoder: VideoEncoder::Auto,
        password: "secret".into(),
        nickname: "Host".into(),
        admission: false,
        join_mode: JoinMode::Stunar,
        rendezvous_url: Some("https://stunar.example".into()),
        session_mode,
        attach_only: false,
        share_on_start: true,
    }
}

/// A session that shares its screen in a room on the rendezvous server.
fn state(session_mode: SessionMode) -> State {
    let mut state: State = EngineState::new(detect(&Platform::Windows));
    let request = request(session_mode);
    let ticket = state
        .create_in_state(&request, CaptureStop::Stopped)
        .expect("the session begins");
    let session = SessionRecord {
        id: ticket.id,
        generation: 1,
        session_epoch: ticket.session_epoch,
        share_epoch: ticket.share_epoch,
        request,
        viewers: Registry::new(),
        has_fanout: true,
        has_audio_tap: false,
        has_audio_channel: false,
        native_capture_active: true,
        has_lan_room: false,
        has_direct_room: false,
        has_stunar: true,
        password: "secret".into(),
        admission: false,
        resources: (),
    };
    state.commit_in_state(session, "running".into());
    state
}

fn offer(id: &str) -> PeerSignal {
    PeerSignal {
        kind: PeerSignalKind::Offer,
        sdp: "v=0".into(),
        id: Some(id.to_string()),
    }
}

fn answer(id: &str) -> PeerSignal {
    PeerSignal {
        kind: PeerSignalKind::Answer,
        sdp: "v=0".into(),
        id: Some(id.to_string()),
    }
}

fn add(state: &mut State, id: &str, peer: u32) -> OfferEpochFence {
    let ticket = state.begin_mint(id, None).expect("an offer is reserved");
    let mut control = EncoderControl::new(4_000_000, 1_000_000);
    match state.mint_viewer_offer_fenced(ticket, id, "Viewer", peer, offer(id), 0, &mut control) {
        MintOutcome::Published(_) => {
            assert!(control.take_keyframe());
            assert_eq!(control, EncoderControl::new(4_000_000, 1_000_000));
            ticket.offer_fence
        }
        MintOutcome::Discarded { .. } => panic!("the share stands"),
    }
}

fn observed(viewers: usize) -> Observed {
    Observed {
        capture: CaptureLifecycle::Running,
        capture_failure: None,
        pipeline_failure: None,
        bitrate_target: 5,
        preview_callback_count: 0,
        preview_frame_count: 0,
        preview_dropped_count: 0,
        preview_error: None,
        peers: (0..viewers)
            .map(|_| PeerTransportStatus {
                state: PeerTransportState::New,
                detail: "new".into(),
            })
            .collect(),
        waiting: Vec::new(),
        lan: None,
        direct: None,
        stunar: None,
        viewer: None,
    }
}

#[test]
fn viewers_are_capped() {
    let mut state = state(SessionMode::Broadcast);
    for i in 0..MAX_VIEWERS {
        add(&mut state, &format!("viewer-{i}"), i as u32);
    }
    assert_eq!(
        state.begin_mint("one-more", None).unwrap_err(),
        "session is full"
    );
    assert_eq!(state.session.expect("a session").viewers.len(), MAX_VIEWERS);
}

#[test]
fn offers_are_refused_for_a_reason() {
    let mut none: State = EngineState::new(detect(&Platform::Windows));
    assert_eq!(
        none.begin_mint("a", None).unwrap_err(),
        "no media session is active"
    );
    let mut state = state(SessionMode::Broadcast);
    add(&mut state, "a", 1);
    assert_eq!(
        state.begin_mint("a", None).unwrap_err(),
        "viewer already has a link"
    );
    let origin = state.actor.fence(None);
    state.actor.begin_share();
    assert_eq!(
        state.begin_mint("b", Some(origin)).unwrap_err(),
        "stale room offer"
    );
    let mut bare = self::state(SessionMode::Broadcast);
    bare.session.as_mut().expect("a session").has_fanout = false;
    assert_eq!(
        bare.begin_mint("a", None).unwrap_err(),
        "peer transport is unavailable"
    );
}

#[test]
fn published_offers_are_answered_once() {
    let mut state = state(SessionMode::Broadcast);
    let fence = add(&mut state, "a", 1);
    assert_eq!(state.set_peer_answer_in_state(&answer("a"), fence), Ok(()));
    let mut control = EncoderControl::new(4_000_000, 1_000_000);
    assert!(state.apply_room_answer(&answer("a"), fence, &mut control));
    assert!(control.take_keyframe());
    assert_eq!(
        state.set_peer_answer_in_state(&answer("b"), fence),
        Err(MediaEngineError::NativePeer("unknown viewer".into()))
    );
    let mut nameless = answer("a");
    nameless.id = None;
    assert_eq!(
        state.set_peer_answer_in_state(&nameless, fence),
        Err(MediaEngineError::NativePeer("answer is missing viewer id".into()))
    );
    state.actor.begin_share();
    assert_eq!(
        state.set_peer_answer_in_state(&answer("a"), fence),
        Err(MediaEngineError::NativePeer("stale viewer answer".into()))
    );
    assert!(!state.apply_room_answer(&answer("a"), fence, &mut control));
    assert!(!control.take_keyframe());
}

#[test]
fn an_offer_does_not_outlive_its_share() {
    let mut state = state(SessionMode::Broadcast);
    let ticket = state.begin_mint("a", None).expect("an offer is reserved");
    let epoch = state.actor.begin_share();
    state
        .session
        .as_mut()
        .expect("a session")
        .set_share_epoch(epoch);
    let mut control = EncoderControl::new(4_000_000, 1_000_000);
    let outcome =
        state.mint_viewer_offer_fenced(ticket, "a", "Viewer", 7, offer("a"), 0, &mut control);
    assert!(!control.take_keyframe());
    match outcome {
        MintOutcome::Discarded {
            peer,
            unsubscribe,
            error,
        } => {
            assert_eq!(error, "viewer offer became stale or session is full");
            assert_eq!(peer, 7);
            assert!(!unsubscribe);
        }
        MintOutcome::Published(_) => panic!("the share is gone"),
    }
    assert!(!state.actor.accepts_offer(ticket.offer_fence));
}

#[test]
fn given_up_offers_leave_nothing() {
    let mut state = state(SessionMode::Broadcast);
    let ticket = state.begin_mint("a", None).expect("an offer is reserved");
    assert!(state.actor.accepts_offer(ticket.offer_fence));
    assert!(state.abort_mint(ticket));
    assert!(!state.actor.accepts_offer(ticket.offer_fence));
    assert!(!state.actor.accepts(ticket.fence));
    let deferred = state.begin_mint("a", None).expect("an offer is reserved");
    let (unsubscribe, error) = state.defer_mint(deferred, 4);
    assert!(unsubscribe);
    assert_eq!(error, "WebRTC peer initialization cleanup is pending");
    assert_eq!(state.take_pending_peers(), vec![4]);
    state.retain_pending_peers(vec![5]);
    assert_eq!(state.take_pending_peers(), vec![5]);
    assert!(state.take_pending_peers().is_empty());
}

#[test]
fn kicking_touches_one_viewer() {
    let mut state = state(SessionMode::Broadcast);
    let first = add(&mut state, "a", 1);
    let second = add(&mut state, "b", 2);
    let link = state.kick_viewer_in_state("a").expect("a session");
    assert_eq!(link.expect("a link").peer, 1);
    assert!(!state.actor.accepts_offer(first));
    assert!(state.actor.accepts_offer(second));
    assert!(state.kick_viewer_in_state("a").expect("a session").is_none());
    let gone = state.close_peer_transport_in_state().expect("a session");
    assert_eq!(gone.len(), 1);
    assert!(!state.actor.accepts_offer(second));
    let mut none: State = EngineState::new(detect(&Platform::Windows));
    assert!(matches!(
        none.kick_viewer_in_state("a"),
        Err(MediaEngineError::NoActiveSession)
    ));
}

#[test]
fn failed_links_are_reaped() {
    let mut state = state(SessionMode::Broadcast);
    add(&mut state, "a", 1);
    add(&mut state, "b", 2);
    let gone = state.reap_failed_links(&vec![
        PeerTransportState::Failed,
        PeerTransportState::Connected,
    ]);
    assert_eq!(gone.len(), 1);
    assert_eq!(gone[0].id, "a");
    assert_eq!(state.session.expect("a session").viewers.len(), 1);
}

#[test]
fn accepted_viewers_get_an_offer_and_lost_ones_go() {
    let mut state = state(SessionMode::Broadcast);
    add(&mut state, "stays", 1);
    add(&mut state, "left", 2);
    let facts = AcceptFacts {
        accepted: vec![
            ("stays".into(), "Stays".into()),
            ("host".into(), "Host".into()),
            ("new".into(), "New".into()),
        ],
        room_ids: Vec::new(),
        self_id: Some("host".into()),
    };
    let states = vec![PeerTransportState::New, PeerTransportState::New];
    let effect = state
        .apply_stunar_accepts(&facts, &states, OFFER_RESEND_AFTER)
        .expect("a room");
    assert_eq!(effect.mint, vec![("new".to_string(), "New".to_string())]);
    assert_eq!(effect.resend.len(), 1);
    assert_eq!(effect.resend[0].id, "stays");
    assert_eq!(effect.dropped.len(), 1);
    assert_eq!(effect.dropped[0].id, "left");
}

#[test]
fn offers_are_sent_again_a_few_times() {
    let mut state = state(SessionMode::Broadcast);
    add(&mut state, "a", 1);
    let facts = AcceptFacts {
        accepted: vec![("a".into(), "A".into())],
        room_ids: Vec::new(),
        self_id: None,
    };
    let states = vec![PeerTransportState::New];
    let mut sent: u8 = 0;
    for round in 1..20u64 {
        let effect = state
            .apply_stunar_accepts(&facts, &states, round * OFFER_RESEND_AFTER)
            .expect("a room");
        sent += effect.resend.len() as u8;
    }
    assert_eq!(sent, MAX_OFFER_RESENDS);
    let connected = vec![PeerTransportState::Connected];
    let gone = AcceptFacts {
        accepted: Vec::new(),
        room_ids: vec!["other".into()],
        self_id: None,
    };
    let effect = state
        .apply_stunar_accepts(&gone, &connected, u64::MAX)
        .expect("a room");
    assert!(effect.dropped.is_empty() && effect.resend.is_empty());
}

#[test]
fn a_room_offers_to_those_who_watch() {
    let mut state = state(SessionMode::Room);
    add(&mut state, "leaves", 1);
    let accepted = AcceptFacts {
        accepted: vec![("bob".into(), "Bob".into())],
        room_ids: vec!["leaves".into()],
        self_id: None,
    };
    let states = vec![PeerTransportState::New];
    let effect = state
        .apply_stunar_accepts(&accepted, &states, 0)
        .expect("a room");
    assert!(effect.mint.is_empty());
    let watch = vec![
        WatchRequest {
            id: "bob".into(),
            host_nickname: None,
            room_nickname: Some("Bob".into()),
        },
        WatchRequest {
            id: "me".into(),
            host_nickname: None,
            room_nickname: None,
        },
    ];
    let effect = state
        .apply_stunar_watches(&watch, &vec!["leaves".into()], &Some("me".into()))
        .expect("a room");
    assert_eq!(effect.mint, vec![("bob".to_string(), "Bob".to_string())]);
    assert_eq!(effect.dropped.len(), 1);
    assert!(!effect.via_joined_room);
}

#[test]
fn viewers_are_admitted_by_whom_they_asked() {
    let state = state(SessionMode::Broadcast);
    match state.admit_viewer_in_state(None).expect("a session") {
        AdmitPlan::Stunar { nickname, .. } => assert_eq!(nickname, "Viewer"),
        AdmitPlan::Gate => panic!("the room is on the server"),
    }
    assert_eq!(state.reject_viewer_in_state(), Ok(true));
    let none: State = EngineState::new(detect(&Platform::Windows));
    assert!(none.admit_viewer_in_state(None).is_err());
    assert_eq!(
        none.reject_viewer_in_state(),
        Err(MediaEngineError::NoActiveSession)
    );
}

#[test]
fn credentials_of_a_server_room_need_a_password() {
    let mut state = state(SessionMode::Broadcast);
    let short = UpdateCredentialsRequest {
        password: Some("abc".into()),
        admission: None,
    };
    assert_eq!(
        state.credentials_to_rotate(&short),
        Err(MediaEngineError::NativePeer(
            "Stunar requires a password (4-64 characters).".into()
        ))
    );
    let fine = UpdateCredentialsRequest {
        password: Some("nova".into()),
        admission: Some(true),
    };
    assert_eq!(state.credentials_to_rotate(&fine), Ok(Some("nova".into())));
    state.update_credentials_in_state(&fine).expect("a session");
    let session = state.session.as_ref().expect("a session");
    assert_eq!(session.password, "nova");
    // Admission is fixed when the room on the server opens.
    assert!(!session.admission);
}

#[test]
fn admission_toggles_live_in_a_room_of_the_local_network() {
    let mut state = state(SessionMode::Broadcast);
    let session = state.session.as_mut().expect("a session");
    session.has_stunar = false;
    session.has_lan_room = true;
    for admission in [true, false] {
        let request = UpdateCredentialsRequest {
            password: None,
            admission: Some(admission),
        };
        assert_eq!(state.credentials_to_rotate(&request), Ok(None));
        state.update_credentials_in_state(&request).expect("a session");
        let session = state.session.as_ref().expect("a session");
        assert_eq!(session.password, "secret");
        assert_eq!(session.admission, admission);
    }
}

#[test]
fn one_room_is_joined_at_a_time() {
    let mut state: State = EngineState::new(detect(&Platform::Windows));
    assert_eq!(
        state.send_stunar_signal(),
        Err(MediaEngineError::NativePeer("no stunar session".into()))
    );
    assert_eq!(state.attach_stunar_viewer(), Ok(()));
    assert_eq!(
        state.attach_stunar_viewer(),
        Err(MediaEngineError::SessionAlreadyActive)
    );
    assert_eq!(state.send_stunar_signal(), Ok(false));
    assert_eq!(state.request_watch(), Ok(false));
    assert_eq!(state.announce_share(), (false, true));
    assert_eq!(state.submit_stunar_answer(), Ok(()));
    assert!(state.close_stunar_viewer());
    assert!(!state.close_stunar_viewer());
    let own = self::state(SessionMode::Room);
    assert_eq!(own.send_stunar_signal(), Ok(true));
    assert_eq!(own.request_watch(), Ok(true));
    assert_eq!(own.announce_share(), (true, false));
    assert_eq!(
        own.submit_stunar_answer(),
        Err(MediaEngineError::NativePeer("no stunar session".into()))
    );
}

#[test]
fn failures_of_the_capture_show() {
    let mut state = state(SessionMode::Broadcast);
    state.refresh_capture_state(CaptureLifecycle::Running, Some("ignored".into()));
    assert_eq!(state.detail, "running");
    state.refresh_capture_state(CaptureLifecycle::CleanupPending, None);
    assert_eq!(state.actor.lifecycle(), MediaLifecycleState::CleanupPending);
    state.refresh_capture_state(CaptureLifecycle::Failed, Some("unplugged".into()));
    assert_eq!(state.actor.lifecycle(), MediaLifecycleState::Failed);
    assert_eq!(state.detail, "unplugged");
}

#[test]
fn rosters_list_viewers_and_members_once() {
    let mut state = state(SessionMode::Room);
    add(&mut state, "bob", 1);
    let mut seen = observed(1);
    seen.stunar = Some(StunarFacts {
        code: "AB12CD".into(),
        state: StunarState::Live,
        self_id: Some("ada".into()),
        pending: Vec::new(),
        room: vec![
            RoomEntry {
                id: "ada".into(),
                nickname: "Ada".into(),
                master: true,
                share: true,
            },
            RoomEntry {
                id: "bob".into(),
                nickname: "Bob".into(),
                master: false,
                share: false,
            },
        ],
    });
    let shown = state.snapshot_from_state(&seen);
    assert_eq!(shown.session_code.as_deref(), Some("AB12CD"));
    assert_eq!(shown.stunar_state, Some(StunarState::Live));
    assert_eq!(shown.roster.iter().filter(|entry| entry.id == "bob").count(), 1);
    assert!(shown.roster.iter().any(|entry| entry.id == "ada" && entry.master));
    let mut roster: Vec<RosterEntry> = Vec::new();
    merge_viewer_roster(
        &mut roster,
        &vec![RoomEntry {
            id: "cyd".into(),
            nickname: "Cyd".into(),
            master: false,
            share: true,
        }],
    );
    assert_eq!(roster.len(), 1);
    assert_eq!(roster[0].state, PeerTransportState::Connected);
}

#[test]
fn a_joined_room_is_shown() {
    let mut state: State = EngineState::new(detect(&Platform::Windows));
    state.attach_stunar_viewer().expect("joined");
    let mut seen = observed(0);
    seen.viewer = Some(ViewerFacts {
        member_id: Some("bob".into()),
        mode: "room".into(),
        room: vec![RoomEntry {
            id: "ada".into(),
            nickname: "Ada".into(),
            master: true,
            share: true,
        }],
    });
    let shown = state.snapshot_from_state(&seen);
    assert_eq!(shown.self_id.as_deref(), Some("bob"));
    assert_eq!(shown.session_mode, SessionMode::Room);
    assert_eq!(shown.roster.len(), 1);
}

#[test]
fn shares_start_and_stop_in_one_piece() {
    let mut state = state(SessionMode::Room);
    add(&mut state, "bob", 1);
    assert_eq!(
        state.stop_share_in_state(Some("busy".into()), None),
        Err(MediaEngineError::NativeCapture("busy".into()))
    );
    assert_eq!(state.actor.lifecycle(), MediaLifecycleState::CleanupPending);
    assert_eq!(state.stop_share_in_state(None, None), Ok(()));
    let session = state.session.as_ref().expect("a session");
    assert!(!session.native_capture_active && session.viewers.len() == 0);
    let before = state.actor.share_epoch();
    let start = |capture_error: Option<String>| ShareStartReports {
        capture: true,
        capture_error,
        tap: false,
    };
    assert_eq!(
        state.start_share_in_state(start(Some("denied".into()))),
        Err(MediaEngineError::NativeCapture("denied".into()))
    );
    assert_eq!(state.start_share_in_state(start(None)), Ok(()));
    assert!(state.actor.share_epoch().0 > before.0);
}

#[test]
fn a_restart_keeps_the_room_and_lets_viewers_go() {
    let mut state = state(SessionMode::Room);
    add(&mut state, "bob", 1);
    let id = state.session.as_ref().expect("a session").id.clone();
    let mut smaller = request(SessionMode::Room);
    smaller.resolution = VideoResolution::P720;
    let reports = || ShareRestartReports {
        stop_error: None,
        old_tap: None,
        generation: 2,
        peers: true,
        tap: false,
        start_error: None,
        undone_tap: None,
    };
    assert_eq!(state.restart_share_slot(&smaller, reports()), Ok(()));
    let session = state.session.as_ref().expect("a session");
    assert_eq!(session.id, id);
    assert!(session.has_stunar && session.native_capture_active);
    assert_eq!(session.viewers.len(), 0);
    assert_eq!(session.request.resolution, VideoResolution::P720);
    let mut failing = reports();
    failing.start_error = Some("denied".into());
    assert_eq!(
        state.restart_share_slot(&smaller, failing),
        Err(MediaEngineError::NativeCapture("denied".into()))
    );
    assert_eq!(state.detail, "Share restart failed: denied");
}

#[test]
fn a_start_is_rolled_back_while_it_is_the_newest() {
    let mut state: State = EngineState::new(detect(&Platform::Windows));
    let ticket = state
        .create_in_state(&request(SessionMode::Room), CaptureStop::Stopped)
        .expect("the session begins");
    assert!(!state.rollback_start(SessionEpoch(99), "old"));
    assert!(state.rollback_start(ticket.session_epoch, "no camera"));
    assert_eq!(state.actor.lifecycle(), MediaLifecycleState::Idle);
    assert_eq!(state.detail, "Session start rolled back: no camera");
    assert!(!state.rollback_start(ticket.session_epoch, "again"));
}

#[test]
fn a_session_whose_capture_does_not_stop_is_not_replaced() {
    let mut state = state(SessionMode::Room);
    let stop = CaptureStop::Failed {
        error: "busy".into(),
        lifecycle: CaptureLifecycle::CleanupPending,
        detail: None,
    };
    assert!(matches!(
        state.create_in_state(&request(SessionMode::Room), stop),
        Err(MediaEngineError::NativeCapture(text)) if text == "busy"
    ));
    assert!(state.session.is_some());
    assert_eq!(state.actor.lifecycle(), MediaLifecycleState::CleanupPending);
    assert_eq!(
        state.detail,
        "Native capture stop failed and is retryable: busy"
    );
}

#[test]
fn pictures_are_named() {
    assert_eq!(format_resolution(VideoResolution::P1440), "1440p");
    assert_eq!(format_resolution(VideoResolution::P480), "480p");
    assert_eq!(format_frame_rate(FrameRate::Fps60), "60fps");
    assert_eq!(FrameRate::Fps30.hertz(), 30);
}

#[test]
fn commands_decide_before_they_act() {
    assert_eq!(run_media_benchmark(&MediaSessionSnapshot::idle("ready")), Ok(()));
    let state = state(SessionMode::Room);
    let busy = state.snapshot_from_state(&observed(0));
    assert!(run_media_benchmark(&busy).is_err());
    let mut update = UpdateMediaSessionRequest {
        source: None,
        source_id: Some(3),
        quality: TransmissionQuality::High,
        bitrate_bps: None,
        min_bitrate_bps: None,
        resolution: None,
        frame_rate: None,
        codec: VideoCodec::H264,
        encoder: VideoEncoder::Auto,
        system_audio: false,
        excluded_apps: Vec::new(),
    };
    assert_eq!(source_id_update(&update), SourceIdUpdate::To(3));
    update.source_id = None;
    assert_eq!(source_id_update(&update), SourceIdUpdate::Unchanged);
    let signal = send_stunar_room_answer(answer("bob"), "ada");
    assert_eq!(signal.id.as_deref(), Some("ada"));
    let exact = MediaOffer::from_exact(offer("bob"), "attempt".into());
    assert_eq!(exact.offer_attempt, "attempt");
    assert!(state.create_peer_offer().is_err());
    assert!(state.accept_peer_offer(&offer("bob")).is_err());
    let line = log_transaction(
        godrinking::control_plane::OperationFence {
            operation: godrinking::control_plane::OperationId(4),
            epoch: state.actor.fence(None),
            kind: godrinking::control_plane::OperationKind::StopShare,
        },
        "done",
    );
    assert!(line.contains('4') && line.contains("done"));
}

#[test]
fn joining_needs_what_its_mode_needs() {
    assert_eq!(
        discover_media_room(JoinMode::Lan, None, None, None),
        Ok(JoinPlan::Lan)
    );
    assert!(discover_media_room(JoinMode::Direct, None, None, None).is_err());
    assert_eq!(
        discover_media_room(JoinMode::Direct, Some("10.0.0.9".into()), Some(7), None),
        Ok(JoinPlan::Direct {
            whole: "10.0.0.9".into(),
            split: Some("10.0.0.9:7".into())
        })
    );
    assert!(discover_media_room(JoinMode::Stunar, None, None, None).is_err());
    assert!(matches!(
        discover_media_room(JoinMode::Stunar, None, None, Some("https://s.example".into())),
        Ok(JoinPlan::Stunar { .. })
    ));
}

#[test]
fn capabilities_follow_the_system() {
    let mut state: State = EngineState::new(detect(&Platform::Windows));
    state.update_capabilities(
        true,
        ScreenRecordingAuthorization::Granted,
        true,
        "ready".into(),
    );
    assert!(state.capabilities.screen_capture_kit);
    assert_eq!(
        state.capabilities.screen_recording_authorization,
        ScreenRecordingAuthorization::Granted
    );
    let shown = state.refresh_screen_recording_capabilities(PermissionReport::Windows {
        process_loopback: true,
    });
    assert!(shown.process_loopback && shown.screen_capture_kit);
    let denied = state.refresh_screen_recording_capabilities(PermissionReport::Framework {
        framework_available: true,
        authorization: ScreenRecordingAuthorization::Denied,
        source_enumeration_available: false,
        detail: "denied".into(),
    });
    assert_eq!(denied, state.capabilities);
    assert_eq!(denied.detail, "denied");
    assert!(denied.process_loopback && !denied.source_enumeration_available);
    assert_eq!(
        state.enumerate_sources::<u32>(Err("no screens".into())),
        Err(MediaEngineError::NativeCapture("no screens".into()))
    );
    assert_eq!(state.enumerate_sources(Ok(vec![1, 2])), Ok(vec![1, 2]));
}

#[test]
fn links_and_rates_are_told() {
    let mut state = state(SessionMode::Room);
    let mut control = EncoderControl::new(4_000_000, 1_000_000);
    control.set_congestion_bitrate(2_000_000, 7);
    add(&mut state, "bob", 1);
    add(&mut state, "cyd", 2);
    let states = vec![PeerTransportState::Connected, PeerTransportState::New];
    let stats = state.viewer_link_stats(&states, &control);
    assert_eq!(stats.links.len(), 2);
    assert_eq!(stats.links[1].id, "cyd");
    assert_eq!(stats.links[0].state, PeerTransportState::Connected);
    assert_eq!(stats.target_bps, 4_000_000);
    assert_eq!(stats.congestion_bps, Some(2_000_000));
    assert_eq!(stats.floor_bps, 1_000_000);
    let idle: State = EngineState::new(detect(&Platform::Windows));
    let nothing = idle.viewer_link_stats(&Vec::new(), &control);
    assert!(nothing.links.is_empty());
    assert_eq!((nothing.target_bps, nothing.congestion_bps, nothing.floor_bps), (0, None, 0));
}
