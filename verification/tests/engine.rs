use godrinking::capabilities::{
    AppAudioExclusionSupport, MediaCapabilities, ScreenRecordingAuthorization,
};
use godrinking::cleanup::{
    cleanup_session_bundle, stop_share_bundle, SessionReports, ShareReports, StunarReport,
};
use godrinking::commands::source_id_update;
use godrinking::control_plane::{EpochFence, OfferEpochFence, OperationFence};
use godrinking::engine::{EngineState, StartTicket};
use godrinking::engine_error::MediaEngineError;
use godrinking::fanout::ShutdownStatus;
use godrinking::in_place::{CaptureStop, ShareStartReports, TapReports, UpdateOutcome};
use godrinking::mint::MintOutcome;
use godrinking::peer_signal::{PeerSignal, PeerSignalKind};
use godrinking::peer_transport::PeerTransportStatus;
use godrinking::pipeline::{EncoderControl, PreviewFrameEvent};
use godrinking::room_mode::SessionMode;
use godrinking::session::SessionRecord;
use godrinking::share_work::{
    begin_update, AudioChange, ShareMove, ShareStage, ShareStart, UpdateStep,
};
use godrinking::snapshot::{CaptureLifecycle, DirectFacts, MediaSessionSnapshot, Observed};
use godrinking::start::{HostSystem, StartMove, StartStage, StartTransaction};
use godrinking::transactions::{StopStep, TransactionCompletion};
use godrinking::types::{
    CaptureSource, CreateMediaSessionRequest, FrameRate, JoinMode, MediaLifecycleState,
    PeerTransportState, SourceIdUpdate, TransmissionQuality, UpdateCredentialsRequest,
    UpdateMediaSessionRequest, VideoCodec, VideoEncoder, VideoResolution,
};

type State = EngineState<u32, EncoderControl, &'static str>;
type Session = SessionRecord<u32, EncoderControl>;

fn test_capabilities() -> MediaCapabilities {
    MediaCapabilities {
        platform: "test".into(),
        supported: true,
        screen_capture_kit: false,
        screen_recording_authorization: ScreenRecordingAuthorization::Unsupported,
        source_enumeration_available: false,
        windows_graphics_capture: false,
        wasapi: false,
        process_loopback: false,
        app_audio_exclusion: AppAudioExclusionSupport::Unsupported,
        native_capture_implemented: false,
        native_encoder_implemented: false,
        native_peer_transport_implemented: true,
        av1_encode_supported: false,
        detail: "test".into(),
    }
}

fn test_state() -> State {
    let mut state = EngineState::new(test_capabilities());
    state.detail = "idle".into();
    state
}

fn request() -> CreateMediaSessionRequest {
    CreateMediaSessionRequest {
        source: CaptureSource::Screen,
        source_id: None,
        resolution: VideoResolution::P1080,
        frame_rate: FrameRate::Fps60,
        system_audio: false,
        excluded_apps: vec!["Discord".into()],
        quality: TransmissionQuality::High,
        bitrate_bps: None,
        min_bitrate_bps: None,
        codec: VideoCodec::H264,
        encoder: VideoEncoder::Auto,
        password: String::new(),
        nickname: "Host".into(),
        admission: false,
        join_mode: JoinMode::Lan,
        rendezvous_url: None,
        session_mode: SessionMode::Broadcast,
        attach_only: false,
        share_on_start: true,
    }
}

fn open_request() -> CreateMediaSessionRequest {
    let mut open = request();
    open.share_on_start = false;
    open
}

fn update(
    quality: TransmissionQuality,
    bitrate_bps: Option<u32>,
    resolution: Option<VideoResolution>,
    frame_rate: Option<FrameRate>,
    system_audio: bool,
    excluded_apps: Vec<String>,
) -> UpdateMediaSessionRequest {
    UpdateMediaSessionRequest {
        source: None,
        source_id: None,
        quality,
        bitrate_bps,
        min_bitrate_bps: None,
        resolution,
        frame_rate,
        codec: VideoCodec::H264,
        encoder: VideoEncoder::Auto,
        system_audio,
        excluded_apps,
    }
}

/// The rates that settings stand for: the target and the floor.
fn rates(request: &CreateMediaSessionRequest) -> (u32, u32) {
    (
        request.bitrate_bps.unwrap_or(8_000_000),
        request.min_bitrate_bps.unwrap_or(250_000),
    )
}

fn new_control(request: &CreateMediaSessionRequest) -> EncoderControl {
    let (target, floor) = rates(request);
    EncoderControl::new(target, floor)
}

/// What the native parts say of themselves: viewers are new, and the encoder aims at its
/// target.
fn observed(state: &State) -> Observed {
    let (viewers, bitrate, direct) = match &state.session {
        Some(session) => (
            session.viewers.len(),
            session.resources.target(),
            session.has_direct_room,
        ),
        None => (0, 0, false),
    };
    Observed {
        capture: CaptureLifecycle::Unknown,
        capture_failure: None,
        pipeline_failure: None,
        bitrate_target: bitrate,
        preview_callback_count: 0,
        preview_frame_count: 0,
        preview_dropped_count: 0,
        preview_error: None,
        peers: (0..viewers)
            .map(|_| PeerTransportStatus {
                state: PeerTransportState::New,
                detail: "new".into(),
            })
            .collect(),
        waiting: Vec::new(),
        lan: None,
        direct: if direct {
            Some(DirectFacts {
                port: 4_000,
                addresses: Vec::new(),
                mapping: false,
            })
        } else {
            None
        },
        stunar: None,
        viewer: None,
    }
}

fn snapshot(state: &State) -> MediaSessionSnapshot {
    state.snapshot_from_state(&observed(state))
}

fn quiet() -> ShutdownStatus {
    ShutdownStatus {
        quiesced: true,
        pending: Vec::new(),
        errors: Vec::new(),
    }
}

fn stuck() -> ShutdownStatus {
    ShutdownStatus {
        quiesced: false,
        pending: vec!["worker".into()],
        errors: Vec::new(),
    }
}

fn share_reports(session: &Session) -> ShareReports {
    ShareReports {
        capture_error: None,
        audio_tap: session.has_audio_tap.then_some(()).map(|_| quiet()),
        peers: (0..session.viewers.len()).map(|_| quiet()).collect(),
        fanout: session.has_fanout.then_some(()).map(|_| quiet()),
        pipeline: quiet(),
    }
}

fn session_reports(session: &Session, pipeline: ShutdownStatus) -> SessionReports {
    SessionReports {
        capture_error: None,
        peers: (0..session.viewers.len()).map(|_| quiet()).collect(),
        fanout: session.has_fanout.then_some(()).map(|_| quiet()),
        audio_tap: session.has_audio_tap.then_some(()).map(|_| quiet()),
        pipeline,
        lan_room: session.has_lan_room.then_some(()).map(|_| quiet()),
        direct_room: session.has_direct_room.then_some(()).map(|_| quiet()),
        stunar: if session.has_stunar {
            StunarReport::Stopped(quiet())
        } else {
            StunarReport::Absent
        },
    }
}

/// The resources of the session: bundles, capture, audio, pipelines, fanouts, peers and
/// join services.
fn live(state: &State) -> [usize; 7] {
    match &state.session {
        None => [0; 7],
        Some(session) => [
            1,
            session.native_capture_active as usize,
            session.has_audio_tap as usize,
            1,
            session.has_fanout as usize,
            session.viewers.len(),
            session.has_lan_room as usize
                + session.has_direct_room as usize
                + session.has_stunar as usize,
        ],
    }
}

/// The native work of a start: everything that is asked for succeeds, except what
/// `failing` names.
fn build_session(
    ticket: &StartTicket,
    request: &CreateMediaSessionRequest,
    capabilities: &MediaCapabilities,
    cancelled: bool,
    failing: Option<StartStage>,
) -> (Result<Session, MediaEngineError>, String) {
    let mut start =
        match StartTransaction::new(request, HostSystem::Other, capabilities, cancelled) {
            Ok(start) => start,
            Err(error) => return (Err(error), String::new()),
        };
    let mut next = start.on_pipeline(false, cancelled);
    loop {
        match next {
            StartMove::Failed(error, _) => return (Err(error), String::new()),
            StartMove::Next(StartStage::Ready) => break,
            StartMove::Next(stage) => {
                let result = if failing == Some(stage) {
                    Err("unreachable".to_string())
                } else {
                    Ok(())
                };
                next = start.on_step(result, cancelled);
            }
        }
    }
    let session = start.create_session_bundle(
        ticket.id.clone(),
        1,
        ticket.session_epoch,
        ticket.share_epoch,
        request,
        new_control(request),
    );
    (Ok(session), start.ready_detail())
}

/// The worker of the engine, one command at a time.
struct Worker {
    state: State,
    fail_cleanup: bool,
    peers: u32,
}

impl Worker {
    fn new() -> Self {
        Worker {
            state: test_state(),
            fail_cleanup: false,
            peers: 0,
        }
    }

    fn snapshot(&self) -> MediaSessionSnapshot {
        snapshot(&self.state)
    }

    fn complete(
        &mut self,
        completion: TransactionCompletion<u32, EncoderControl, &'static str>,
    ) -> Result<MediaSessionSnapshot, MediaEngineError> {
        let seen = observed(&self.state);
        let effect = self.state.accept_transaction_completion(completion, &seen);
        assert!(effect.stale.is_none());
        match effect.error {
            Some(error) => Err(error),
            None => Ok(self.snapshot()),
        }
    }

    fn create_session(
        &mut self,
        request: CreateMediaSessionRequest,
    ) -> Result<MediaSessionSnapshot, MediaEngineError> {
        self.create_failing_at(request, None)
    }

    fn create_failing_at(
        &mut self,
        request: CreateMediaSessionRequest,
        failing: Option<StartStage>,
    ) -> Result<MediaSessionSnapshot, MediaEngineError> {
        let ticket = self.state.launch_start_session(&request)?;
        let (result, detail) = build_session(
            &ticket,
            &request,
            &self.state.capabilities,
            false,
            failing,
        );
        self.complete(TransactionCompletion::StartSession {
            fence: ticket.operation,
            result,
            detail,
        })
    }

    fn clean(&mut self, fence: OperationFence, session: Session) -> Result<(), MediaEngineError> {
        let pipeline = if self.fail_cleanup { stuck() } else { quiet() };
        let reports = session_reports(&session, pipeline);
        let cleanup = cleanup_session_bundle(session, reports);
        self.complete(TransactionCompletion::StopSession { fence, cleanup })
            .map(|_| ())
    }

    fn stop_session(&mut self) -> Result<MediaSessionSnapshot, MediaEngineError> {
        let seen = observed(&self.state);
        match self.state.request_stop("caller", &seen) {
            StopStep::Cleanup { fence, session, .. } => {
                self.clean(fence, session)?;
                Ok(self.snapshot())
            }
            StopStep::Rejected(_) => Err(MediaEngineError::NoActiveSession),
            StopStep::Waiting => panic!("nothing is out"),
        }
    }

    fn launch_share(&mut self) -> Result<(OperationFence, Session), MediaEngineError> {
        let seen = observed(&self.state);
        self.state.launch_start_share(&seen)
    }

    fn start_share(&mut self) -> Result<MediaSessionSnapshot, MediaEngineError> {
        let (fence, session) = self.launch_share()?;
        let (mut start, mut next) =
            ShareStart::start_share_bundle(session, false, true, fence.epoch.share);
        let (error, detail) = loop {
            next = match next {
                ShareMove::Started(detail) => break (None, detail),
                ShareMove::Failed(error) => break (Some(error), String::new()),
                ShareMove::Next(ShareStage::Build) => {
                    start.session.resources = new_control(&start.session.request);
                    start.on_built(false, false)
                }
                ShareMove::Next(_) => start.on_stopped(quiet()),
            };
        };
        self.complete(TransactionCompletion::StartShare {
            fence,
            session: Some(start.session),
            error,
            detail,
        })
    }

    fn stop_share(&mut self) -> Result<MediaSessionSnapshot, MediaEngineError> {
        let seen = observed(&self.state);
        let (fence, session) = self.state.launch_stop_share(&seen)?;
        let reports = share_reports(&session);
        let (session, error) = match stop_share_bundle(session, reports) {
            Ok(session) => (session, None),
            Err((session, error)) => (session, Some(error)),
        };
        self.complete(TransactionCompletion::StopShare {
            fence,
            session: Some(session),
            error,
        })
    }

    fn update_session_with_source_id(
        &mut self,
        request: UpdateMediaSessionRequest,
        source_id: SourceIdUpdate,
    ) -> Result<MediaSessionSnapshot, MediaEngineError> {
        let seen = observed(&self.state);
        let (fence, session, plan) = self.state.launch_update_session(&request, source_id, &seen)?;
        let (target, floor) = rates(&plan.next);
        let mut control = session.resources;
        let step = begin_update(session, plan, &mut control, target, floor, false);
        let (session, error, detail) = match step {
            UpdateStep::Live(mut live) => {
                live.session.resources = control;
                let tap = match live.audio() {
                    AudioChange::RestartTap => Some(Ok(())),
                    _ => None,
                };
                match live.update_session_bundle(tap, false) {
                    Ok((session, detail)) => (session, None, detail),
                    Err((session, error)) => (session, Some(error), String::new()),
                }
            }
            UpdateStep::CalledOff(session, error) => (session, Some(error), String::new()),
            UpdateStep::Restart(_, _) => panic!("nothing is captured"),
        };
        self.complete(TransactionCompletion::UpdateSession {
            fence,
            session: Some(session),
            error,
            detail,
        })
    }

    fn update_session(
        &mut self,
        request: UpdateMediaSessionRequest,
    ) -> Result<MediaSessionSnapshot, MediaEngineError> {
        let source_id = source_id_update(&request);
        self.update_session_with_source_id(request, source_id)
    }

    fn offer_for_member(
        &mut self,
        id: &str,
        nickname: &str,
    ) -> Result<(PeerSignal, OfferEpochFence), String> {
        let ticket = self.state.begin_mint(id, None)?;
        self.peers += 1;
        let signal = PeerSignal {
            kind: PeerSignalKind::Offer,
            sdp: "v=0".into(),
            id: Some(id.to_string()),
        };
        let mut control = self.state.session.as_ref().expect("a session").resources;
        let outcome = self.state.mint_viewer_offer_fenced(
            ticket,
            id,
            nickname,
            self.peers,
            signal,
            0,
            &mut control,
        );
        self.state.session.as_mut().expect("a session").resources = control;
        match outcome {
            MintOutcome::Published(signal) => {
                assert!(self.take_keyframe(), "a new viewer is owed a keyframe");
                Ok((signal, ticket.offer_fence))
            }
            MintOutcome::Discarded { .. } => Err("discarded".into()),
        }
    }

    /// Hands out the keyframe request of the session's encoder.
    fn take_keyframe(&mut self) -> bool {
        let session = self.state.session.as_mut().expect("a session");
        session.resources.take_keyframe()
    }

    fn apply_room_answer(&mut self, answer: &PeerSignal, fence: OfferEpochFence) -> bool {
        let mut control = self.state.session.as_ref().expect("a session").resources;
        let applies = self.state.apply_room_answer(answer, fence, &mut control);
        self.state.session.as_mut().expect("a session").resources = control;
        applies
    }
}

fn answer(id: Option<&str>) -> PeerSignal {
    PeerSignal {
        kind: PeerSignalKind::Answer,
        sdp: String::new(),
        id: id.map(|text| text.to_string()),
    }
}

/// Begins and commits a session in one piece.
fn create_in_state(
    state: &mut State,
    request: CreateMediaSessionRequest,
) -> Result<MediaSessionSnapshot, MediaEngineError> {
    let ticket = state.create_in_state(&request, CaptureStop::Stopped)?;
    let (result, detail) =
        build_session(&ticket, &request, &state.capabilities, false, None);
    state.commit_in_state(result?, detail);
    Ok(snapshot(state))
}

fn stop_in_state(state: &mut State) -> Result<MediaSessionSnapshot, MediaEngineError> {
    state.stop_in_state(CaptureStop::Stopped)?;
    Ok(snapshot(state))
}

fn update_in_state(
    state: &mut State,
    request: UpdateMediaSessionRequest,
) -> Result<MediaSessionSnapshot, MediaEngineError> {
    let reports = TapReports {
        old_tap: None,
        start_error: None,
    };
    let mut control = match &state.session {
        Some(session) => session.resources,
        None => EncoderControl::new(0, 0),
    };
    let target = request.bitrate_bps.unwrap_or(8_000_000);
    let floor = request.min_bitrate_bps.unwrap_or(250_000);
    let outcome = state.update_in_state(&request, reports, &mut control, target, floor);
    if let Some(session) = state.session.as_mut() {
        session.resources = control;
    }
    match outcome? {
        UpdateOutcome::Updated => Ok(snapshot(state)),
        UpdateOutcome::Restart(_) => panic!("nothing is captured"),
    }
}

#[test]
fn public_worker_stop_during_start_waits_for_stale_completion() {
    let mut state = test_state();
    let open = open_request();
    let ticket = state.launch_start_session(&open).expect("start is reserved");
    assert_eq!(snapshot(&state).state, MediaLifecycleState::Starting);

    let seen = observed(&state);
    assert!(matches!(state.request_stop("stop", &seen), StopStep::Waiting));
    assert_eq!(snapshot(&state).state, MediaLifecycleState::Stopping);
    assert!(state.pending_start.as_ref().expect("a start is out").cancelled);

    let (result, detail) = build_session(&ticket, &open, &state.capabilities, true, None);
    let seen = observed(&state);
    let effect = state.accept_transaction_completion(
        TransactionCompletion::StartSession {
            fence: ticket.operation,
            result,
            detail,
        },
        &seen,
    );
    assert!(effect.error.is_some());
    assert!(effect.stale.is_none());
    assert_eq!(effect.waiters, vec!["stop"]);
    assert_eq!(effect.waiters_error, None);
    assert_eq!(snapshot(&state).state, MediaLifecycleState::Idle);
    assert!(snapshot(&state).session_id.is_none());
}

#[test]
fn public_worker_stop_during_picker_releases_provisional_resources() {
    let mut state = test_state();
    let ticket = state.launch_start_session(&request()).expect("start is reserved");
    let seen = observed(&state);
    assert!(matches!(state.request_stop("stop", &seen), StopStep::Waiting));
    assert_eq!(snapshot(&state).state, MediaLifecycleState::Stopping);

    // The start finished before it looked whether it was called off.
    let (result, detail) = build_session(&ticket, &request(), &state.capabilities, false, None);
    let seen = observed(&state);
    let effect = state.accept_transaction_completion(
        TransactionCompletion::StartSession {
            fence: ticket.operation,
            result,
            detail,
        },
        &seen,
    );
    assert!(effect.error.is_some());
    let stale = effect.stale.expect("the session is given back");
    assert_eq!(stale.waiters, vec!["stop"]);
    assert!(state.session.is_none());

    let reports = session_reports(&stale.session, quiet());
    let cleanup = cleanup_session_bundle(stale.session, reports);
    let seen = observed(&state);
    let done = state.accept_transaction_completion(
        TransactionCompletion::StaleCleanup {
            fence: stale.fence,
            cleanup,
            waiters: stale.waiters,
        },
        &seen,
    );
    assert_eq!(done.waiters, vec!["stop"]);
    assert_eq!(done.waiters_error, None);
    let stopped = snapshot(&state);
    assert_eq!(stopped.state, MediaLifecycleState::Idle);
    assert!(stopped.session_id.is_none());
    assert_eq!(live(&state), [0; 7]);
}

#[test]
fn public_worker_stop_during_cancellable_acquisition_releases_every_resource() {
    let mut state = test_state();
    let ticket = state.launch_start_session(&request()).expect("start is reserved");
    assert_eq!(snapshot(&state).state, MediaLifecycleState::Starting);
    let seen = observed(&state);
    assert!(matches!(state.request_stop("stop", &seen), StopStep::Waiting));
    assert_eq!(snapshot(&state).state, MediaLifecycleState::Stopping);

    let (result, detail) = build_session(&ticket, &request(), &state.capabilities, true, None);
    assert!(result.is_err());
    let seen = observed(&state);
    let effect = state.accept_transaction_completion(
        TransactionCompletion::StartSession {
            fence: ticket.operation,
            result,
            detail,
        },
        &seen,
    );
    assert!(effect.error.is_some());
    assert_eq!(effect.waiters, vec!["stop"]);
    let stopped = snapshot(&state);
    assert_eq!(stopped.state, MediaLifecycleState::Idle);
    assert!(stopped.session_id.is_none());
    assert_eq!(live(&state), [0; 7]);
    assert!(!stopped.native_capture_active);
}

#[test]
fn public_worker_update_preserves_explicit_source_id_intent() {
    let mut engine = Worker::new();
    engine
        .create_session(open_request())
        .expect("session should start without capture");

    let updated = engine
        .update_session_with_source_id(
            update(TransmissionQuality::High, None, None, None, false, Vec::new()),
            SourceIdUpdate::To(7),
        )
        .expect("source ID update should succeed");
    assert_eq!(updated.source_id, Some(7));

    let cleared = engine
        .update_session_with_source_id(
            update(TransmissionQuality::High, None, None, None, false, Vec::new()),
            SourceIdUpdate::Clear,
        )
        .expect("source ID clear should succeed");
    assert_eq!(cleared.source_id, None);
}

#[test]
fn public_worker_cleanup_failure_stays_pending_until_retry() {
    let mut engine = Worker::new();
    engine
        .create_session(open_request())
        .expect("session should start");
    assert_eq!(live(&engine.state), [1, 0, 0, 1, 1, 0, 1]);

    engine.fail_cleanup = true;
    assert!(engine.stop_session().is_err());
    assert_eq!(engine.snapshot().state, MediaLifecycleState::CleanupPending);
    assert_eq!(live(&engine.state)[0], 1);

    engine.fail_cleanup = false;
    engine.stop_session().expect("cleanup retry should succeed");
    assert_eq!(engine.snapshot().state, MediaLifecycleState::Idle);
    assert_eq!(live(&engine.state), [0; 7]);
}

#[test]
fn public_worker_repeated_start_stop_returns_zero_resource_bundles() {
    let mut engine = Worker::new();
    for _ in 0..3 {
        engine
            .create_session(open_request())
            .expect("session should start");
        engine.stop_session().expect("session should stop");
        assert_eq!(live(&engine.state), [0; 7]);
    }
}

#[test]
fn public_worker_rejects_non_h264_and_frame_rates_over_sixty() {
    let mut engine = Worker::new();
    let mut codec_request = request();
    codec_request.codec = VideoCodec::Av1;
    assert!(matches!(
        engine.create_session(codec_request),
        Err(MediaEngineError::Unsupported(_))
    ));

    let mut frame_rate_request = request();
    frame_rate_request.frame_rate = FrameRate::Fps120;
    assert!(matches!(
        engine.create_session(frame_rate_request),
        Err(MediaEngineError::Unsupported(_))
    ));
    assert_eq!(engine.snapshot().state, MediaLifecycleState::Idle);
}

#[test]
fn public_worker_accepts_only_h264_and_at_most_sixty_fps() {
    let mut engine = Worker::new();
    let mut codec = request();
    codec.codec = VideoCodec::Av1;
    assert!(matches!(
        engine.create_session(codec),
        Err(MediaEngineError::Unsupported(_))
    ));

    let mut high_fps = request();
    high_fps.frame_rate = FrameRate::Fps120;
    assert!(matches!(
        engine.create_session(high_fps),
        Err(MediaEngineError::Unsupported(_))
    ));
    assert_eq!(engine.snapshot().state, MediaLifecycleState::Idle);
}

#[test]
fn public_worker_stale_answer_does_not_detach_replacement_link() {
    let mut engine = Worker::new();
    engine
        .create_session(open_request())
        .expect("session should start");

    let (_, old_offer) = engine
        .offer_for_member("viewer-1", "Viewer")
        .expect("first offer should be created");
    engine
        .state
        .kick_viewer_in_state("viewer-1")
        .expect("first link should be removed");
    let (_, new_offer) = engine
        .offer_for_member("viewer-1", "Viewer")
        .expect("replacement offer should be created");

    assert!(engine
        .state
        .set_peer_answer_in_state(&answer(Some("viewer-1")), old_offer)
        .is_err());
    assert!(engine
        .snapshot()
        .roster
        .iter()
        .any(|entry| entry.id == "viewer-1"));
    assert_ne!(old_offer, new_offer);
}

#[test]
fn public_worker_supported_session_start_commits_before_full_stop() {
    let mut engine = Worker::new();
    let started = engine
        .create_session(open_request())
        .expect("supported start commits");
    assert_eq!(started.state, MediaLifecycleState::Running);
    assert!(started.session_id.is_some());
    assert_eq!(live(&engine.state)[0], 1);

    let stopped = engine.stop_session().expect("full stop completes");
    assert_eq!(stopped.state, MediaLifecycleState::Idle);
    assert_eq!(live(&engine.state), [0; 7]);
}

#[test]
fn public_worker_stop_share_completes_share_ledger_and_keeps_session_open() {
    let mut engine = Worker::new();
    engine.create_session(open_request()).expect("session starts");
    let started = engine.start_share().expect("Share start commits");
    assert_eq!(started.state, MediaLifecycleState::Running);
    let stopped_share = engine.stop_share().expect("Stop Share completes");
    assert_eq!(stopped_share.state, MediaLifecycleState::Running);
    assert!(!stopped_share.native_capture_active);
    assert!(
        stopped_share.session_id.is_some(),
        "Stop Share must not stop Session"
    );

    let stopped_session = engine.stop_session().expect("full session stop completes");
    assert_eq!(stopped_session.state, MediaLifecycleState::Idle);
    assert_eq!(live(&engine.state), [0; 7]);
}

#[test]
fn public_worker_stop_during_stop_share_waits_for_the_full_cleanup_transaction() {
    let mut engine = Worker::new();
    engine.create_session(open_request()).expect("session starts");
    engine.start_share().expect("Share starts");

    let seen = observed(&engine.state);
    let (fence, session) = engine.state.launch_stop_share(&seen).expect("stop is reserved");
    assert_eq!(engine.snapshot().state, MediaLifecycleState::Stopping);
    let seen = observed(&engine.state);
    assert!(matches!(
        engine.state.request_stop("stop", &seen),
        StopStep::Waiting
    ));
    assert_eq!(engine.snapshot().state, MediaLifecycleState::Stopping);

    let reports = share_reports(&session);
    let session = match stop_share_bundle(session, reports) {
        Ok(session) => session,
        Err(_) => panic!("the share stops"),
    };
    let seen = observed(&engine.state);
    let effect = engine.state.accept_transaction_completion(
        TransactionCompletion::StopShare {
            fence,
            session: Some(session),
            error: None,
        },
        &seen,
    );
    assert!(effect.error.is_some());
    let stale = effect.stale.expect("the session is given back");
    let reports = session_reports(&stale.session, quiet());
    let cleanup = cleanup_session_bundle(stale.session, reports);
    let seen = observed(&engine.state);
    let done = engine.state.accept_transaction_completion(
        TransactionCompletion::StaleCleanup {
            fence: stale.fence,
            cleanup,
            waiters: stale.waiters,
        },
        &seen,
    );
    assert_eq!(done.waiters, vec!["stop"]);
    assert_eq!(done.waiters_error, None);
    assert_eq!(engine.snapshot().state, MediaLifecycleState::Idle);
    assert_eq!(live(&engine.state), [0; 7]);
}

#[test]
fn public_worker_bitrate_and_audio_only_update_retains_share_epoch() {
    let mut engine = Worker::new();
    engine.create_session(open_request()).expect("session starts");
    engine.start_share().expect("Share starts through worker");
    let before = engine.state.actor.share_epoch();

    let updated = engine
        .update_session(update(
            TransmissionQuality::Low,
            Some(900_000),
            None,
            None,
            true,
            vec!["Discord".into()],
        ))
        .expect("bitrate/audio update succeeds");
    let after = engine.state.actor.share_epoch();
    assert_eq!(
        before, after,
        "live bitrate/audio update changed ShareEpoch"
    );
    assert_eq!(updated.bitrate_bps, 900_000);
    assert!(updated.system_audio);
    assert_eq!(updated.excluded_apps, vec!["Discord"]);
}

#[test]
fn public_worker_source_resolution_fps_replacement_advances_epoch_and_rebuilds_staged_share() {
    let mut engine = Worker::new();
    engine.create_session(open_request()).expect("session starts");
    let before = engine.state.actor.share_epoch();

    engine
        .update_session(update(
            TransmissionQuality::Medium,
            None,
            Some(VideoResolution::P720),
            Some(FrameRate::Fps30),
            true,
            vec!["Music".into()],
        ))
        .expect("replacement settings stage");
    let staged = engine.snapshot();
    assert_eq!(staged.resolution, Some(VideoResolution::P720));
    assert_eq!(staged.frame_rate, Some(FrameRate::Fps30));
    assert!(staged.system_audio);

    let replaced = engine.start_share().expect("replacement Share starts");
    let after = engine.state.actor.share_epoch();
    assert!(
        after.0 > before.0,
        "Share replacement did not advance ShareEpoch"
    );
    assert_eq!(replaced.resolution, Some(VideoResolution::P720));
    assert_eq!(replaced.frame_rate, Some(FrameRate::Fps30));
    assert!(replaced.detail.contains("Share slot") || !replaced.native_capture_active);
}

#[test]
fn public_worker_stale_exact_answer_cannot_affect_replacement_link() {
    let mut engine = Worker::new();
    engine.create_session(open_request()).expect("session starts");
    let (_, old) = engine
        .offer_for_member("viewer-1", "Viewer")
        .expect("old offer");
    engine.stop_share().expect("the share stops");
    engine.start_share().expect("replacement Share starts");
    let (_, replacement) = engine
        .offer_for_member("viewer-1", "Viewer")
        .expect("replacement offer");
    assert_ne!(old, replacement);

    let result = engine
        .state
        .set_peer_answer_in_state(&answer(Some("viewer-1")), old);
    assert!(
        matches!(result, Err(MediaEngineError::NativePeer(message)) if message.contains("stale"))
    );
    assert!(engine
        .snapshot()
        .roster
        .iter()
        .any(|entry| entry.id == "viewer-1"));
}

#[test]
fn public_worker_late_lan_and_direct_joins_use_current_share_fence() {
    for mode in [JoinMode::Lan, JoinMode::Direct] {
        let mut engine = Worker::new();
        let mut open = open_request();
        open.join_mode = mode;
        engine.create_session(open).expect("session starts");
        assert_eq!(
            engine.snapshot().direct_listen_port.is_some(),
            mode == JoinMode::Direct
        );
        let (_, old) = engine
            .offer_for_member("late-viewer", "Viewer")
            .expect("old offer");
        engine.stop_share().expect("the share stops");
        engine.start_share().expect("replacement Share starts");
        let (_, current) = engine
            .offer_for_member("late-viewer", "Viewer")
            .expect("current offer");
        assert!(current.epoch.share.0 > old.epoch.share.0);
        assert!(engine
            .state
            .set_peer_answer_in_state(&answer(None), old)
            .is_err());
        engine
            .state
            .close_peer_transport_in_state()
            .expect("late link cleanup");
        engine.stop_session().expect("session stops");
    }
}

#[test]
fn public_worker_cleanup_failure_is_pending_until_every_ledger_counter_reaches_zero() {
    let mut engine = Worker::new();
    engine.create_session(open_request()).expect("session starts");
    engine.fail_cleanup = true;
    assert!(engine.stop_session().is_err());
    assert_eq!(engine.snapshot().state, MediaLifecycleState::CleanupPending);
    assert_ne!(engine.snapshot().state, MediaLifecycleState::Idle);

    engine.fail_cleanup = false;
    let stopped = engine.stop_session().expect("cleanup retry completes");
    assert_eq!(stopped.state, MediaLifecycleState::Idle);
    assert_eq!(live(&engine.state), [0; 7]);
}

#[test]
fn public_worker_stunar_prepare_failure_aborts_without_publishing_running() {
    let mut engine = Worker::new();
    let mut open = open_request();
    open.join_mode = JoinMode::Stunar;
    open.password = "valid-password".into();
    open.rendezvous_url = Some("http://127.0.0.1:1".into());
    let result = engine.create_failing_at(open, Some(StartStage::Stunar));
    assert!(result.is_err(), "unreachable prepare must fail");
    let snapshot = engine.snapshot();
    assert_ne!(snapshot.state, MediaLifecycleState::Running);
    assert_eq!(snapshot.state, MediaLifecycleState::Idle);
    assert!(snapshot.session_id.is_none());
}

#[test]
fn public_worker_signaling_completes_without_snapshot_polling_and_isolates_viewer_failure() {
    let mut engine = Worker::new();
    let mut open = open_request();
    open.join_mode = JoinMode::Direct;
    engine.create_session(open).expect("session starts");
    assert!(engine.snapshot().direct_listen_port.is_some());
    let (_, first) = engine
        .offer_for_member("viewer-1", "Failed")
        .expect("first Direct join");
    let (_, second) = engine
        .offer_for_member("viewer-2", "Healthy")
        .expect("second Direct join");
    assert!(engine.apply_room_answer(&answer(Some("viewer-1")), first));
    assert!(engine.take_keyframe(), "a viewer that connects is owed a keyframe");
    assert_eq!(
        engine.snapshot().roster.len(),
        2,
        "one Direct Viewer failure must not reap the other"
    );
    assert_eq!(engine.snapshot().state, MediaLifecycleState::Running);
    assert_ne!(second, first);
    let closed = engine
        .state
        .close_peer_transport_in_state()
        .expect("failed link is isolated");
    assert_eq!(closed.len(), 2);
    engine.stop_session().expect("session stops");
}

#[test]
fn state_transitions_create_and_stop_safely() {
    let mut state = test_state();
    let created = create_in_state(&mut state, request()).expect("create should succeed");
    assert_eq!(created.state, MediaLifecycleState::Running);
    assert!(created.session_id.is_some());
    assert!(!created.native_capture_active);
    let recreated =
        create_in_state(&mut state, request()).expect("duplicate create should recover");
    assert_ne!(recreated.session_id, created.session_id);
    let stopped = stop_in_state(&mut state).expect("stop should succeed");
    assert_eq!(stopped.state, MediaLifecycleState::Idle);
    assert!(stopped.session_id.is_none());
    assert_eq!(
        stop_in_state(&mut state),
        Err(MediaEngineError::NoActiveSession)
    );
}

#[test]
fn sala_can_open_without_sharing() {
    let mut state = test_state();
    let mut open = request();
    open.session_mode = SessionMode::Room;
    open.share_on_start = false;
    let created = create_in_state(&mut state, open).expect("open room");
    assert_eq!(created.state, MediaLifecycleState::Running);
    assert!(!created.native_capture_active);
}

#[test]
fn sala_share_later_keeps_the_room() {
    let mut state = test_state();
    let mut open = request();
    open.session_mode = SessionMode::Room;
    open.share_on_start = false;
    let created = create_in_state(&mut state, open).expect("open room");
    state
        .start_share_in_state(ShareStartReports {
            capture: false,
            capture_error: None,
            tap: false,
        })
        .expect("share later");
    let shared = snapshot(&state);
    assert_eq!(shared.session_id, created.session_id);
    assert_eq!(shared.state, MediaLifecycleState::Running);
}

#[test]
fn unsupported_platform_does_not_enter_starting_state() {
    let mut state = test_state();
    state.capabilities.supported = false;
    assert_eq!(
        create_in_state(&mut state, request()),
        Err(MediaEngineError::UnsupportedPlatform)
    );
    assert_eq!(state.actor.lifecycle(), MediaLifecycleState::Idle);
}

#[test]
fn stunar_without_url_is_rejected_before_starting() {
    let mut state = test_state();
    let mut request = request();
    request.join_mode = JoinMode::Stunar;
    request.rendezvous_url = None;
    assert_eq!(
        create_in_state(&mut state, request),
        Err(MediaEngineError::NativePeer(
            "Set the Stunar URL in settings.".into()
        ))
    );
    assert_eq!(state.actor.lifecycle(), MediaLifecycleState::Idle);
}

#[test]
fn session_boundaries_clear_stale_preview_state() {
    let mut state = test_state();
    state.preview.latest = Some(PreviewFrameEvent {
        sequence: 7,
        timestamp_micros: 8,
        width: 2,
        height: 1,
        encoding: "rgb8_thumbnail".into(),
        payload: vec![1, 2, 3],
    });

    create_in_state(&mut state, request()).expect("control session should start");
    assert!(state.preview.latest.is_none());
    stop_in_state(&mut state).expect("control session should stop");
    assert!(state.preview.latest.is_none());
}

#[test]
fn pipeline_failure_is_exposed_as_a_failed_snapshot_detail() {
    let mut state = test_state();
    create_in_state(&mut state, request()).expect("control session should start");
    let failure = "VideoToolbox encode failed: test failure".to_string();
    state.refresh_native_state(Some(failure.clone()));
    let mut seen = observed(&state);
    seen.pipeline_failure = Some(failure);
    let snapshot = state.snapshot_from_state(&seen);
    assert_eq!(snapshot.state, MediaLifecycleState::Failed);
    assert_eq!(snapshot.detail, "VideoToolbox encode failed: test failure");
}

#[test]
fn system_audio_requests_still_start_video_when_the_tap_is_unavailable() {
    let mut state = test_state();
    let mut request = request();
    request.system_audio = true;
    let created = create_in_state(&mut state, request).expect("video session should start");
    assert_eq!(created.state, MediaLifecycleState::Running);
}

#[test]
fn update_session_applies_quality_and_exclusions_without_teardown() {
    let mut state = test_state();
    create_in_state(&mut state, request()).expect("session should start");
    let snapshot = update_in_state(
        &mut state,
        update(
            TransmissionQuality::Low,
            None,
            None,
            None,
            false,
            vec!["Discord".into(), "com.hnc.Discord".into()],
        ),
    )
    .expect("update should succeed");
    assert_eq!(snapshot.state, MediaLifecycleState::Running);
    assert!(snapshot.session_id.is_some());
    assert_eq!(snapshot.resolution, Some(VideoResolution::P1080));
    assert_eq!(snapshot.frame_rate, Some(FrameRate::Fps60));
    assert_eq!(
        snapshot.excluded_apps,
        vec!["Discord".to_string(), "com.hnc.Discord".to_string()]
    );
    assert!(!snapshot.system_audio);
    let stored = &state.session.as_ref().expect("session should exist").request;
    assert_eq!(stored.quality, TransmissionQuality::Low);
    assert_eq!(
        stored.excluded_apps,
        vec!["Discord".to_string(), "com.hnc.Discord".to_string()]
    );
    assert!(!stored.system_audio);
}

#[test]
fn update_session_cannot_add_audio_mid_session_without_a_channel() {
    let mut state = test_state();
    create_in_state(&mut state, request()).expect("session should start");
    let snapshot = update_in_state(
        &mut state,
        update(
            TransmissionQuality::Medium,
            None,
            None,
            None,
            true,
            Vec::new(),
        ),
    )
    .expect("update should not fail the session");
    assert_eq!(snapshot.state, MediaLifecycleState::Running);
    assert!(snapshot.detail.contains("cannot be added mid-session"));
    assert_eq!(snapshot.resolution, Some(VideoResolution::P1080));
    assert_eq!(snapshot.frame_rate, Some(FrameRate::Fps60));
}

#[test]
fn update_session_without_an_active_session_fails() {
    let mut state = test_state();
    assert_eq!(
        update_in_state(
            &mut state,
            update(TransmissionQuality::High, None, None, None, false, Vec::new()),
        ),
        Err(MediaEngineError::NoActiveSession)
    );
}

#[test]
fn rotate_credentials_keeps_the_session_and_updates_the_password() {
    let mut state = test_state();
    create_in_state(&mut state, request()).expect("session should start");
    state
        .update_credentials_in_state(&UpdateCredentialsRequest {
            password: Some("nova".into()),
            admission: None,
        })
        .expect("rotate should succeed");
    let snapshot = snapshot(&state);
    assert_eq!(snapshot.state, MediaLifecycleState::Running);
    assert!(snapshot.password_set);
    let session = state.session.as_ref().expect("session should exist");
    assert!(!session.password.is_empty());
}

#[test]
fn stunar_requires_a_password_before_starting() {
    let mut state = test_state();
    let mut request = request();
    request.join_mode = JoinMode::Stunar;
    request.rendezvous_url = Some("http://127.0.0.1:8787".into());
    request.password = String::new();
    assert_eq!(
        create_in_state(&mut state, request.clone()),
        Err(MediaEngineError::NativePeer(
            "Stunar requires a password (4-64 characters).".into()
        ))
    );
    request.password = "abc".into();
    assert_eq!(
        create_in_state(&mut state, request),
        Err(MediaEngineError::NativePeer(
            "Stunar requires a password (4-64 characters).".into()
        ))
    );
    assert_eq!(state.actor.lifecycle(), MediaLifecycleState::Idle);
}

#[test]
fn snapshot_is_observational_and_does_not_advance_actor_epochs() {
    let mut state = test_state();
    let session = state.actor.begin_session();
    let share = state.actor.begin_share();
    let link = state.actor.begin_link();
    let discarded = state.actor.discarded_events();
    let _ = snapshot(&state);
    assert_eq!(state.actor.session_epoch(), session);
    assert_eq!(state.actor.share_epoch(), share);
    assert!(state.actor.accepts(EpochFence {
        session,
        share,
        link: Some(link)
    }));
    assert_eq!(state.actor.discarded_events(), discarded);
}
