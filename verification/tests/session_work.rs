use godrinking::capabilities::{detect, MacSystem, MediaCapabilities, Platform, ScreenRecordingAuthorization};
use godrinking::cleanup::{
    cleanup_session_bundle, drop_viewer, shutdown_audio_tap, stop_share_bundle, CleanupLedger,
    SessionReports, ShareReports, StunarReport,
};
use godrinking::control_plane::{SessionEpoch, ShareEpoch};
use godrinking::engine::{build_update_plan, valid_password, validate_start_config};
use godrinking::engine_error::MediaEngineError;
use godrinking::fanout::ShutdownStatus;
use godrinking::pipeline::EncoderControl;
use godrinking::room_mode::SessionMode;
use godrinking::session::SessionRecord;
use godrinking::share_work::{
    begin_update, encoder_change, restart_request, tune_encoder, AudioChange, ShareMove,
    ShareStage, ShareStart, UpdateStep,
};
use godrinking::start::{
    native_capture_available, HostSystem, Rollback, StartMove, StartStage, StartTransaction,
    StunarRollback,
};
use godrinking::types::{
    CaptureSource, CreateMediaSessionRequest, FrameRate, JoinMode, SourceIdUpdate,
    TransmissionQuality, UpdateMediaSessionRequest, VideoCodec, VideoEncoder, VideoResolution,
};

type Session = SessionRecord<u32, ()>;

fn mac() -> MediaCapabilities {
    detect(&Platform::Macos(MacSystem {
        framework_available: true,
        authorization: ScreenRecordingAuthorization::Granted,
        source_enumeration_available: true,
        detail: "ScreenCaptureKit is available.".into(),
        major: 15,
        minor: 0,
        av1_encode_supported: false,
    }))
}

fn request(join_mode: JoinMode) -> CreateMediaSessionRequest {
    CreateMediaSessionRequest {
        source: CaptureSource::Screen,
        source_id: None,
        resolution: VideoResolution::P1080,
        frame_rate: FrameRate::Fps60,
        system_audio: true,
        excluded_apps: Vec::new(),
        quality: TransmissionQuality::High,
        bitrate_bps: None,
        min_bitrate_bps: None,
        codec: VideoCodec::H264,
        encoder: VideoEncoder::Auto,
        password: "secret".into(),
        nickname: "Host".into(),
        admission: false,
        join_mode,
        rendezvous_url: Some("https://stunar.example".into()),
        session_mode: SessionMode::Broadcast,
        attach_only: false,
        share_on_start: true,
    }
}

fn update() -> UpdateMediaSessionRequest {
    UpdateMediaSessionRequest {
        source: None,
        source_id: None,
        quality: TransmissionQuality::High,
        bitrate_bps: None,
        min_bitrate_bps: None,
        resolution: None,
        frame_rate: None,
        codec: VideoCodec::H264,
        encoder: VideoEncoder::Auto,
        system_audio: true,
        excluded_apps: Vec::new(),
    }
}

fn quiet() -> ShutdownStatus {
    ShutdownStatus {
        quiesced: true,
        pending: Vec::new(),
        errors: Vec::new(),
    }
}

fn stuck(owner: &str) -> ShutdownStatus {
    ShutdownStatus {
        quiesced: false,
        pending: vec![owner.to_string()],
        errors: Vec::new(),
    }
}

fn started(join_mode: JoinMode) -> (StartTransaction, Vec<StartStage>) {
    let mut start =
        StartTransaction::new(&request(join_mode), HostSystem::Macos, &mac(), false).expect("begins");
    let mut stages = Vec::new();
    let mut next = start.on_pipeline(true, false);
    loop {
        match next {
            StartMove::Next(stage) => {
                stages.push(stage);
                if stage == StartStage::Ready {
                    return (start, stages);
                }
                next = start.on_step(Ok(()), false);
            }
            StartMove::Failed(error, _) => panic!("{}", error.message()),
        }
    }
}

fn session(join_mode: JoinMode) -> Session {
    let (start, _) = started(join_mode);
    start.create_session_bundle(
        "native-1".into(),
        3,
        SessionEpoch(1),
        ShareEpoch(1),
        &request(join_mode),
        (),
    )
}

#[test]
fn a_start_acquires_what_its_mode_needs() {
    let (stunar, stages) = started(JoinMode::Stunar);
    assert_eq!(
        stages,
        vec![
            StartStage::Capture,
            StartStage::Stunar,
            StartStage::Commit,
            StartStage::Ready
        ]
    );
    assert!(stunar.stunar && stunar.capturing && stunar.tap && !stunar.lan);
    let (lan, stages) = started(JoinMode::Lan);
    assert_eq!(
        stages,
        vec![StartStage::Capture, StartStage::Lan, StartStage::Ready]
    );
    assert!(lan.lan && !lan.stunar);
    let (direct, _) = started(JoinMode::Direct);
    assert!(direct.direct);
    assert!(direct
        .ready_detail()
        .starts_with("Native capture is running. Share your address and port."));
    let built = session(JoinMode::Lan);
    assert!(built.has_lan_room && built.native_capture_active && built.has_audio_tap);
    assert_eq!(built.id, "native-1");
    assert!(native_capture_available(HostSystem::Macos, &mac()));
    assert!(!native_capture_available(HostSystem::Windows, &mac()));
}

#[test]
fn a_failed_start_gives_back_what_it_acquired() {
    let mut start =
        StartTransaction::new(&request(JoinMode::Stunar), HostSystem::Macos, &mac(), false)
            .expect("begins");
    start.on_pipeline(false, false);
    start.on_step(Ok(()), false);
    start.on_step(Ok(()), false);
    assert_eq!(start.stage, StartStage::Commit);
    match start.on_step(Err("lost".into()), false) {
        StartMove::Failed(error, rollback) => {
            assert_eq!(error, MediaEngineError::NativePeer("lost".into()));
            assert_eq!(
                rollback,
                Rollback {
                    stop_capture: true,
                    stunar: StunarRollback::Abort
                }
            );
        }
        StartMove::Next(_) => panic!("the step failed"),
    }
}

#[test]
fn a_start_that_is_called_off_is_never_ready() {
    assert!(matches!(
        StartTransaction::new(&request(JoinMode::Lan), HostSystem::Macos, &mac(), true),
        Err(MediaEngineError::NativeCapture(text)) if text == "session start cancelled"
    ));
    let mut start =
        StartTransaction::new(&request(JoinMode::Stunar), HostSystem::Macos, &mac(), false)
            .expect("begins");
    start.on_pipeline(false, false);
    start.on_step(Ok(()), false);
    match start.on_step(Ok(()), true) {
        StartMove::Failed(_, rollback) => assert_eq!(rollback.stunar, StunarRollback::Close),
        StartMove::Next(_) => panic!("it was called off"),
    }
    let mut capture =
        StartTransaction::new(&request(JoinMode::Lan), HostSystem::Macos, &mac(), false)
            .expect("begins");
    capture.on_pipeline(false, false);
    assert!(matches!(
        capture.on_step(Err("denied".into()), false),
        StartMove::Failed(MediaEngineError::NativeCapture(text), _) if text == "denied"
    ));
}

#[test]
fn requests_are_validated_before_anything_starts() {
    assert_eq!(
        validate_start_config(false, &request(JoinMode::Lan)),
        Err(MediaEngineError::UnsupportedPlatform)
    );
    assert_eq!(validate_start_config(true, &request(JoinMode::Stunar)), Ok(()));
    assert!(!valid_password("abc"));
    assert!(valid_password("abcd"));
    assert!(valid_password(&"x".repeat(64)));
    assert!(!valid_password(&"x".repeat(65)));
    let mut high = request(JoinMode::Lan);
    high.frame_rate = FrameRate::Fps120;
    assert!(matches!(
        validate_start_config(true, &high),
        Err(MediaEngineError::Unsupported(_))
    ));
}

#[test]
fn a_ledger_sums_up_what_is_left() {
    let mut ledger = CleanupLedger::new();
    ledger.status("pipeline", &quiet());
    assert!(ledger.clean());
    ledger.status("fanout", &stuck("worker"));
    ledger.error("capture broke".into());
    assert!(!ledger.clean());
    let summary = ledger.summary();
    assert!(summary.contains("worker") && summary.contains("capture broke"));
}

#[test]
fn a_session_is_gone_only_when_everything_stopped() {
    let reports = |lan: ShutdownStatus| SessionReports {
        capture_error: None,
        peers: Vec::new(),
        fanout: Some(quiet()),
        audio_tap: Some(quiet()),
        pipeline: quiet(),
        lan_room: Some(lan),
        direct_room: None,
        stunar: StunarReport::Absent,
    };
    let done = cleanup_session_bundle(session(JoinMode::Lan), reports(quiet()));
    assert!(done.session.is_none() && done.error.is_none());
    let left = cleanup_session_bundle(session(JoinMode::Lan), reports(stuck("listener")));
    let kept = left.session.expect("the room is left");
    assert!(kept.has_lan_room && !kept.has_fanout && !kept.has_audio_tap);
    assert!(matches!(
        left.error,
        Some(MediaEngineError::NativeCapture(text)) if text.contains("listener")
    ));
}

#[test]
fn a_shared_room_is_not_dropped() {
    let bundle = cleanup_session_bundle(
        session(JoinMode::Stunar),
        SessionReports {
            capture_error: None,
            peers: Vec::new(),
            fanout: Some(quiet()),
            audio_tap: Some(quiet()),
            pipeline: quiet(),
            lan_room: None,
            direct_room: None,
            stunar: StunarReport::Shared,
        },
    );
    assert!(bundle.session.expect("the room is left").has_stunar);
    assert!(matches!(
        bundle.error,
        Some(MediaEngineError::NativeCapture(text))
            if text.contains("Stunar remained shared during cleanup")
    ));
}

#[test]
fn a_share_that_does_not_stop_stays() {
    let reports = |capture_error: Option<String>| ShareReports {
        capture_error,
        audio_tap: Some(quiet()),
        peers: Vec::new(),
        fanout: Some(quiet()),
        pipeline: quiet(),
    };
    match stop_share_bundle(session(JoinMode::Lan), reports(Some("busy".into()))) {
        Err((kept, error)) => {
            assert!(kept.native_capture_active && kept.has_lan_room);
            assert!(error.message().contains("Share cleanup pending: "));
        }
        Ok(_) => panic!("the capture did not stop"),
    }
    match stop_share_bundle(session(JoinMode::Lan), reports(None)) {
        Ok(kept) => assert!(!kept.native_capture_active && kept.has_lan_room),
        Err(_) => panic!("everything stopped"),
    }
}

#[test]
fn taps_and_viewers_are_let_go() {
    let mut kept = session(JoinMode::Lan);
    assert_eq!(
        shutdown_audio_tap(&mut kept, &Some(stuck("tap worker"))),
        Err("tap worker".to_string())
    );
    assert!(kept.has_audio_tap);
    assert_eq!(shutdown_audio_tap(&mut kept, &Some(quiet())), Ok(()));
    assert!(!kept.has_audio_tap);
    assert!(drop_viewer(&mut kept, "nobody").is_none());
}

fn stopped_session() -> Session {
    let mut kept = session(JoinMode::Lan);
    kept.set_capture(false);
    kept.set_tap(false);
    kept
}

fn until_build(session: Session) -> ShareStart<u32, ()> {
    let (mut start, mut next) = ShareStart::start_share_bundle(session, true, true, ShareEpoch(9));
    while !matches!(next, ShareMove::Next(ShareStage::Build)) {
        next = start.on_stopped(quiet());
    }
    start
}

#[test]
fn a_share_starts_with_its_own_epoch() {
    let mut start = until_build(stopped_session());
    assert!(matches!(
        start.on_built(true, false),
        ShareMove::Next(ShareStage::StartCapture)
    ));
    match start.on_capture(Ok(()), false) {
        ShareMove::Started(text) => assert_eq!(text, "Native capture is running."),
        _ => panic!("everything started"),
    }
    assert!(start.session.native_capture_active);
    assert_eq!(start.session.share_epoch, ShareEpoch(9));
    let (_, again) =
        ShareStart::start_share_bundle(session(JoinMode::Lan), true, true, ShareEpoch(9));
    assert!(matches!(again, ShareMove::Started(text) if text == "Share is already running."));
}

#[test]
fn a_share_that_fails_does_not_count_as_running() {
    let mut start = until_build(stopped_session());
    start.on_built(false, false);
    assert!(matches!(
        start.on_capture(Err("denied".into()), false),
        ShareMove::Failed(MediaEngineError::NativeCapture(text)) if text == "denied"
    ));
    assert!(!start.session.native_capture_active && start.session.has_lan_room);
    let mut undone = until_build(stopped_session());
    undone.on_built(false, false);
    assert!(matches!(
        undone.on_capture(Ok(()), false),
        ShareMove::Next(ShareStage::StartTap)
    ));
    assert!(matches!(
        undone.on_tap(true, true),
        ShareMove::Next(ShareStage::UndoAll)
    ));
    assert!(matches!(
        undone.on_undone(Some(quiet())),
        ShareMove::Failed(MediaEngineError::NativeCapture(text))
            if text == "share start cancelled"
    ));
    assert!(!undone.session.native_capture_active && !undone.session.has_audio_tap);
    let mut kept = until_build(stopped_session());
    kept.on_built(true, false);
    assert!(matches!(
        kept.on_capture(Ok(()), true),
        ShareMove::Next(ShareStage::UndoCapture)
    ));
    assert!(matches!(kept.on_undone(None), ShareMove::Failed(_)));
    assert!(!kept.session.native_capture_active && kept.session.has_audio_tap);
    let (mut stuck_start, _) =
        ShareStart::start_share_bundle(stopped_session(), true, true, ShareEpoch(9));
    assert!(matches!(
        stuck_start.on_stopped(stuck("encoder")),
        ShareMove::Failed(MediaEngineError::NativeCapture(text))
            if text == "Share pipeline cleanup is pending"
    ));
}

#[test]
fn a_new_picture_restarts_a_running_share() {
    let running = session(JoinMode::Lan);
    let mut larger = update();
    larger.resolution = Some(VideoResolution::P720);
    let plan = build_update_plan(&running, &larger, SourceIdUpdate::Unchanged).expect("a plan");
    assert!(plan.restart_share);
    let epoch = running.share_epoch;
    let mut control = EncoderControl::new(4_000_000, 1_000_000);
    let before = control;
    match begin_update(running, plan, &mut control, 2_000_000, 500_000, false) {
        UpdateStep::Restart(kept, next) => {
            let restarted = restart_request(kept, next);
            assert_eq!(restarted.request.resolution, VideoResolution::P720);
            assert_eq!(restarted.share_epoch, epoch);
        }
        _ => panic!("the picture changed"),
    }
    let running = session(JoinMode::Lan);
    let plan = build_update_plan(&running, &larger, SourceIdUpdate::Unchanged).expect("a plan");
    assert!(matches!(
        begin_update(running, plan, &mut control, 2_000_000, 500_000, true),
        UpdateStep::CalledOff(_, MediaEngineError::NativeCapture(text))
            if text == "session update cancelled"
    ));
    // The encoder of a share that is replaced is not told.
    assert_eq!(control, before);
}

#[test]
fn live_updates_keep_the_share() {
    let running = session(JoinMode::Lan);
    let plan = build_update_plan(&running, &update(), SourceIdUpdate::Unchanged).expect("a plan");
    assert!(!plan.restart_share);
    let changed = encoder_change(&running.request, &plan.next);
    let mut told = EncoderControl::new(4_000_000, 1_000_000);
    let mut tuned = told;
    tune_encoder(&mut tuned, changed, 2_000_000, 500_000);
    match begin_update(running, plan, &mut told, 2_000_000, 500_000, false) {
        UpdateStep::Live(mut live) => {
            assert_eq!(told, tuned);
            assert_eq!(live.audio(), AudioChange::RestartTap);
            live.on_tap_stopped(Some(quiet())).expect("the tap stops");
            match live.update_session_bundle(Some(Err("no device".into())), false) {
                Ok((kept, detail)) => {
                    assert!(!kept.has_audio_tap && kept.native_capture_active);
                    assert!(detail.ends_with(" System audio tap restart failed: no device"));
                }
                Err(_) => panic!("the update stands"),
            }
        }
        _ => panic!("nothing to restart"),
    }
    let mut quieter = request(JoinMode::Lan);
    quieter.quality = TransmissionQuality::Low;
    quieter.min_bitrate_bps = Some(7);
    let change = encoder_change(&request(JoinMode::Lan), &quieter);
    assert!(change.target && change.floor);
    let same = encoder_change(&quieter, &quieter);
    assert!(!same.target && !same.floor);
    let mut control = EncoderControl::new(4_000_000, 1_000_000);
    let before = control;
    tune_encoder(&mut control, same, 2_000_000, 500_000);
    assert_eq!(control, before);
    tune_encoder(&mut control, change, 2_000_000, 3_000_000);
    assert_eq!((control.target(), control.floor()), (2_000_000, 2_000_000));
    assert!(control.take_keyframe());
    assert_eq!(control.take_bitrate(), Some(2_000_000));
}

#[test]
fn errors_are_worded() {
    for (error, text) in [
        (MediaEngineError::QueueClosed, "media worker is not available"),
        (MediaEngineError::StatePoisoned, "media state is unavailable"),
        (
            MediaEngineError::UnsupportedPlatform,
            "native media sessions are unsupported on this platform",
        ),
        (MediaEngineError::Unsupported("AV1".into()), "AV1"),
        (
            MediaEngineError::SessionAlreadyActive,
            "a media session is already active",
        ),
        (
            MediaEngineError::NoActiveSession,
            "no media session is active",
        ),
        (MediaEngineError::NativeCapture("busy".into()), "busy"),
        (MediaEngineError::NativePeer("lost".into()), "lost"),
    ] {
        assert_eq!(error.message(), text);
    }
}
