//! Commands that run in one piece: the caller waits for the native work and hands its
//! reports in.

use vstd::prelude::*;
use crate::cleanup::{opt_report, shutdown_audio_tap, tap_shut_down, ReportModel};
use crate::control_plane::{next_of, OperationKind};
use crate::engine::{
    preview_begun, start_begun, start_refusal, validate_start_config, EngineModel, EngineState,
    StartTicket,
};
use crate::engine_error::{ErrorModel, MediaEngineError};
use crate::fanout::ShutdownStatus;
use crate::pipeline::EncoderControl;
use crate::registry::Registry;
use crate::session::{LinkModel, SessionModel, SessionRecord};
use crate::share_work::{change_between, encoder_change, tune_encoder, tuned};
use crate::snapshot::CaptureLifecycle;
use crate::text::{copy_texts, decimal, opt_text, push_decimal, push_text, texts};
use crate::types::{
    CreateMediaSessionRequest, FrameRate, MediaLifecycleState, RequestModel,
    UpdateMediaSessionRequest, VideoResolution,
};

verus! {

/// How the capture of a session that stops reported.
#[derive(Debug)]
pub enum CaptureStop {
    Stopped,
    Failed { error: String, lifecycle: CaptureLifecycle, detail: Option<String> },
}

/// The lifecycle of a session whose capture could not be stopped.
pub open spec fn unstopped(lifecycle: CaptureLifecycle) -> MediaLifecycleState {
    match lifecycle {
        CaptureLifecycle::CleanupPending => MediaLifecycleState::CleanupPending,
        CaptureLifecycle::Failed => MediaLifecycleState::Failed,
        CaptureLifecycle::Stopping => MediaLifecycleState::Stopping,
        _ => MediaLifecycleState::Running,
    }
}

/// The state after a stop in one piece, and the error if any.
pub open spec fn stopped_in_place<P, R, W>(state: EngineModel<P, R, W>, stop: CaptureStop) -> (
    EngineModel<P, R, W>,
    Option<ErrorModel>,
) {
    let actor = if state.actor.lifecycle != MediaLifecycleState::Stopping {
        state.actor.invalidate_session()
    } else {
        state.actor
    };
    if state.session is None {
        (state, Some(ErrorModel::NoActiveSession))
    } else {
        match stop {
            CaptureStop::Failed { error, lifecycle, detail } => (
                EngineModel {
                    actor: actor.with_lifecycle(unstopped(lifecycle)),
                    detail: match detail {
                        Some(text) => text@,
                        None => "Native capture stop failed and is retryable: "@ + error@,
                    },
                    ..state
                },
                Some(ErrorModel::NativeCapture(error@)),
            ),
            CaptureStop::Stopped => (
                EngineModel {
                    session: None,
                    actor: actor.with_lifecycle(MediaLifecycleState::Idle),
                    detail: "Session stopped; native pipeline handles released."@,
                    preview: preview_begun(state.preview),
                    ..state
                },
                None,
            ),
        }
    }
}

/// A result that carries nothing but its error.
pub open spec fn outcome<T>(result: Result<T, MediaEngineError>) -> Option<ErrorModel> {
    match result {
        Ok(_) => None,
        Err(error) => Some(error@),
    }
}

/// The state without its session, which is stopped in one piece, and the error if any.
pub open spec fn cleared_in_place<P, R, W>(state: EngineModel<P, R, W>, stop: CaptureStop) -> (
    EngineModel<P, R, W>,
    Option<ErrorModel>,
) {
    if state.session is Some {
        stopped_in_place(state, stop)
    } else {
        (state, None)
    }
}

/// The state once a session begins in one piece.
pub open spec fn begun_in_place<P, R, W>(state: EngineModel<P, R, W>, share: bool) -> EngineModel<
    P,
    R,
    W,
> {
    let actor = start_begun(state.actor, share);
    EngineModel {
        actor: actor.reserve_operation_kind(actor.fence(None), OperationKind::StartSession),
        next_session_id: next_of(state.next_session_id),
        preview: preview_begun(state.preview),
        ..state
    }
}

/// The ticket of a session that begins in one piece.
pub open spec fn ticket_in_place<P, R, W>(
    state: EngineModel<P, R, W>,
    share: bool,
    ticket: StartTicket,
) -> bool {
    let actor = start_begun(state.actor, share);
    &&& ticket.operation == actor.next_operation_fence(
        actor.fence(None),
        OperationKind::StartSession,
    )
    &&& ticket.session_epoch == actor.session_epoch
    &&& ticket.share_epoch == actor.share_epoch
    &&& ticket.id@ == "native-"@ + decimal(state.next_session_id as nat)
}

/// The state once a start that failed was rolled back, and whether it was.
pub open spec fn start_rolled_back<P, R, W>(
    state: EngineModel<P, R, W>,
    epoch: crate::control_plane::SessionEpoch,
    reason: Seq<char>,
) -> (EngineModel<P, R, W>, bool) {
    if state.actor.session_epoch == epoch && state.actor.lifecycle
        == MediaLifecycleState::Starting {
        (
            EngineModel {
                actor: state.actor.with_lifecycle(MediaLifecycleState::Idle),
                detail: "Session start rolled back: "@ + reason,
                ..state
            },
            true,
        )
    } else {
        (state, false)
    }
}

/// The share start that is out was told to give up.
pub open spec fn share_cancelled<P, R, W>(state: EngineModel<P, R, W>) -> bool {
    state.pending_share matches Some(pending) && pending.cancelled
}

/// How the parts of a share that starts reported.
#[derive(Debug)]
pub struct ShareStartReports {
    /// A screen can be captured natively.
    pub capture: bool,
    /// What the capture says, where it is started.
    pub capture_error: Option<String>,
    /// The tap started, where it was tried.
    pub tap: bool,
}

/// The session of a share that started in one piece, before it gets its epoch.
pub open spec fn sharing<P, R>(
    session: SessionModel<P, R>,
    capture: bool,
    tap: bool,
) -> SessionModel<P, R> {
    SessionModel {
        native_capture_active: capture,
        has_audio_tap: if session.request.system_audio && !session.has_audio_tap
            && session.has_audio_channel {
            tap
        } else {
            session.has_audio_tap
        },
        ..session
    }
}

/// The state after a share start in one piece, and the error if any.
pub open spec fn share_started_in_place<P, R, W>(
    state: EngineModel<P, R, W>,
    reports: ShareStartReports,
) -> (EngineModel<P, R, W>, Option<ErrorModel>) {
    if share_cancelled(state) {
        (state, Some(ErrorModel::NativeCapture("share start cancelled"@)))
    } else {
        match state.session {
            None => (state, Some(ErrorModel::NoActiveSession)),
            Some(session) => if session.native_capture_active {
                (state, None)
            } else if reports.capture && reports.capture_error is Some {
                (state, Some(ErrorModel::NativeCapture(reports.capture_error->0@)))
            } else if reports.capture {
                let actor = state.actor.begin_share();
                (
                    EngineModel {
                        session: Some(
                            SessionModel {
                                share_epoch: actor.share_epoch,
                                ..sharing(session, true, reports.tap)
                            },
                        ),
                        actor,
                        ..state
                    },
                    None,
                )
            } else {
                (
                    EngineModel { session: Some(sharing(session, false, reports.tap)), ..state },
                    None,
                )
            },
        }
    }
}

/// The state after a share stop in one piece, and the error if any.
pub open spec fn share_stopped_in_place<P, R, W>(
    state: EngineModel<P, R, W>,
    capture_error: Option<Seq<char>>,
    tap: Option<ReportModel>,
) -> (EngineModel<P, R, W>, Option<ErrorModel>) {
    match state.session {
        None => (state, Some(ErrorModel::NoActiveSession)),
        Some(session) => {
            let (after, refusal) = tap_shut_down(session, tap);
            let stuck = state.actor.with_lifecycle(MediaLifecycleState::CleanupPending);
            if session.native_capture_active && capture_error is Some {
                (
                    EngineModel {
                        session: Some(after),
                        actor: stuck,
                        detail: "Share cleanup pending: "@ + capture_error->0,
                        ..state
                    },
                    Some(ErrorModel::NativeCapture(capture_error->0)),
                )
            } else if refusal is Some {
                (
                    EngineModel {
                        session: Some(SessionModel { native_capture_active: false, ..after }),
                        actor: stuck,
                        detail: "Share cleanup pending: "@ + refusal->0,
                        ..state
                    },
                    Some(ErrorModel::NativeCapture(refusal->0)),
                )
            } else {
                (
                    EngineModel {
                        session: Some(
                            SessionModel {
                                native_capture_active: false,
                                viewers: Map::empty(),
                                order: Seq::empty(),
                                ..after
                            },
                        ),
                        actor: state.actor.end_share(),
                        ..state
                    },
                    None,
                )
            }
        },
    }
}

/// How the parts of a share that restarts reported.
#[derive(Debug)]
pub struct ShareRestartReports {
    /// Why the capture could not be stopped.
    pub stop_error: Option<String>,
    /// From the old tap, where there is one.
    pub old_tap: Option<ShutdownStatus>,
    /// The generation of the new pipeline.
    pub generation: u64,
    /// Viewers can be connected natively.
    pub peers: bool,
    /// The new tap started, where one was asked for.
    pub tap: bool,
    /// Why the capture could not be started.
    pub start_error: Option<String>,
    /// From the new tap, where the restart was called off.
    pub undone_tap: Option<ShutdownStatus>,
}

/// The session of a share that restarts, with its new parts and without its viewers.
pub open spec fn rebuilt<P, R>(
    session: SessionModel<P, R>,
    request: RequestModel,
    reports: ShareRestartReports,
) -> SessionModel<P, R> {
    SessionModel {
        viewers: Map::empty(),
        order: Seq::empty(),
        generation: reports.generation,
        has_audio_channel: request.system_audio,
        has_audio_tap: request.system_audio && reports.tap,
        has_fanout: reports.peers,
        request,
        native_capture_active: false,
        ..session
    }
}

/// The end of a share restart in one piece: called off, or running as before.
pub open spec fn restart_finished<P, R, W>(
    state: EngineModel<P, R, W>,
    fresh: SessionModel<P, R>,
    active: bool,
    undone_tap: Option<ReportModel>,
) -> (EngineModel<P, R, W>, Option<ErrorModel>) {
    let running = state.actor.with_lifecycle(MediaLifecycleState::Running);
    if share_cancelled(state) {
        (
            EngineModel {
                session: Some(tap_shut_down(fresh, undone_tap).0),
                actor: state.actor.with_lifecycle(MediaLifecycleState::Starting),
                ..state
            },
            Some(ErrorModel::NativeCapture("share restart cancelled"@)),
        )
    } else if active {
        (
            EngineModel {
                session: Some(
                    SessionModel {
                        native_capture_active: true,
                        share_epoch: running.begin_share().share_epoch,
                        ..fresh
                    },
                ),
                actor: running.begin_share(),
                ..state
            },
            None,
        )
    } else {
        (EngineModel { session: Some(fresh), actor: running, ..state }, None)
    }
}

/// A share restart in one piece, once the old share is gone.
pub open spec fn share_rebuilt<P, R, W>(
    state: EngineModel<P, R, W>,
    session: SessionModel<P, R>,
    request: RequestModel,
    reports: ShareRestartReports,
    active: bool,
) -> (EngineModel<P, R, W>, Option<ErrorModel>) {
    let fresh = rebuilt(session, request, reports);
    let begun = EngineModel { preview: preview_begun(state.preview), ..state };
    if active && reports.start_error is Some {
        (
            EngineModel {
                session: Some(fresh),
                actor: state.actor.with_lifecycle(MediaLifecycleState::Running),
                detail: "Share restart failed: "@ + reports.start_error->0@,
                ..begun
            },
            Some(ErrorModel::NativeCapture(reports.start_error->0@)),
        )
    } else {
        restart_finished(begun, fresh, active, opt_report(reports.undone_tap))
    }
}

/// The state after a share restart in one piece, and the error if any.
pub open spec fn share_restarted_in_place<P, R, W>(
    state: EngineModel<P, R, W>,
    request: RequestModel,
    reports: ShareRestartReports,
) -> (EngineModel<P, R, W>, Option<ErrorModel>) {
    match state.session {
        None => (state, Some(ErrorModel::NoActiveSession)),
        Some(session) => {
            let actor = state.actor.end_share();
            let stuck = actor.with_lifecycle(MediaLifecycleState::CleanupPending);
            let (after, refusal) = tap_shut_down(session, opt_report(reports.old_tap));
            if session.native_capture_active && reports.stop_error is Some {
                (
                    EngineModel {
                        actor: stuck,
                        detail: "Share restart cleanup failed: "@ + reports.stop_error->0@,
                        ..state
                    },
                    Some(ErrorModel::NativeCapture(reports.stop_error->0@)),
                )
            } else if refusal is Some {
                (
                    EngineModel {
                        session: Some(after),
                        actor: stuck,
                        detail: "Share restart cleanup pending: "@ + refusal->0,
                        ..state
                    },
                    Some(ErrorModel::NativeCapture(refusal->0)),
                )
            } else {
                share_rebuilt(
                    EngineModel { session: None, actor, ..state },
                    after,
                    request,
                    reports,
                    session.native_capture_active,
                )
            }
        },
    }
}

/// The name of a resolution.
pub open spec fn resolution_text(resolution: VideoResolution) -> Seq<char> {
    match resolution {
        VideoResolution::P2160 => "2160p"@,
        VideoResolution::P1440 => "1440p"@,
        VideoResolution::P1080 => "1080p"@,
        VideoResolution::P720 => "720p"@,
        VideoResolution::P480 => "480p"@,
    }
}

/// The name of a frame rate.
pub open spec fn frame_rate_text(frame_rate: FrameRate) -> Seq<char> {
    match frame_rate {
        FrameRate::Fps120 => "120fps"@,
        FrameRate::Fps60 => "60fps"@,
        FrameRate::Fps30 => "30fps"@,
    }
}

/// The name of a resolution.
pub fn format_resolution(resolution: VideoResolution) -> (text: &'static str)
    ensures
        text@ == resolution_text(resolution),
{
    match resolution {
        VideoResolution::P2160 => "2160p",
        VideoResolution::P1440 => "1440p",
        VideoResolution::P1080 => "1080p",
        VideoResolution::P720 => "720p",
        VideoResolution::P480 => "480p",
    }
}

/// The name of a frame rate.
pub fn format_frame_rate(frame_rate: FrameRate) -> (text: &'static str)
    ensures
        text@ == frame_rate_text(frame_rate),
{
    match frame_rate {
        FrameRate::Fps120 => "120fps",
        FrameRate::Fps60 => "60fps",
        FrameRate::Fps30 => "30fps",
    }
}

/// The resolution that an update asks for.
pub open spec fn asked_resolution(current: RequestModel, update: UpdateMediaSessionRequest) -> VideoResolution {
    match update.resolution {
        Some(resolution) => resolution,
        None => current.resolution,
    }
}

/// The frame rate that an update asks for.
pub open spec fn asked_frame_rate(current: RequestModel, update: UpdateMediaSessionRequest) -> FrameRate {
    match update.frame_rate {
        Some(frame_rate) => frame_rate,
        None => current.frame_rate,
    }
}

/// An update changes the size or the rate of the picture.
pub open spec fn reshapes(current: RequestModel, update: UpdateMediaSessionRequest) -> bool {
    asked_resolution(current, update) != current.resolution || asked_frame_rate(current, update)
        != current.frame_rate
}

/// The request with the new picture, before its audio is settled.
pub open spec fn reshaped(current: RequestModel, update: UpdateMediaSessionRequest) -> RequestModel {
    RequestModel {
        quality: update.quality,
        bitrate_bps: update.bitrate_bps,
        min_bitrate_bps: update.min_bitrate_bps,
        resolution: asked_resolution(current, update),
        frame_rate: asked_frame_rate(current, update),
        ..current
    }
}

/// The request with the new picture and audio.
pub open spec fn refreshed(current: RequestModel, update: UpdateMediaSessionRequest) -> RequestModel {
    RequestModel {
        system_audio: update.system_audio,
        excluded_apps: texts(update.excluded_apps@),
        ..reshaped(current, update)
    }
}

/// What is said of a picture that only the next share will have.
pub open spec fn reshape_note(current: RequestModel, update: UpdateMediaSessionRequest) -> Seq<char> {
    if reshapes(current, update) {
        " Share is stopped; next start will use "@ + resolution_text(
            asked_resolution(current, update),
        ) + " "@ + frame_rate_text(asked_frame_rate(current, update)) + "."@
    } else {
        ""@
    }
}

/// How the tap reported while a session was updated in one piece.
#[derive(Debug)]
pub struct TapReports {
    /// From the old tap, where there is one and it is stopped.
    pub old_tap: Option<ShutdownStatus>,
    /// Why the new tap could not be started.
    pub start_error: Option<String>,
}

/// The tap of the session is stopped by an update.
pub open spec fn stops_tap<P, R>(
    session: SessionModel<P, R>,
    update: UpdateMediaSessionRequest,
) -> bool {
    !update.system_audio || session.has_audio_channel
}

/// A new tap is started by an update.
pub open spec fn starts_tap<P, R>(
    session: SessionModel<P, R>,
    update: UpdateMediaSessionRequest,
) -> bool {
    update.system_audio && session.native_capture_active && session.has_audio_channel
}

/// What an update in one piece leads to.
pub enum UpdateOutcome {
    Updated,
    /// The share has to be restarted with this request.
    Restart(CreateMediaSessionRequest),
}

/// What is said of the system audio after an update in one piece.
pub open spec fn tap_note<P, R>(
    session: SessionModel<P, R>,
    update: UpdateMediaSessionRequest,
    start_error: Option<Seq<char>>,
) -> Seq<char> {
    if starts_tap(session, update) {
        match start_error {
            None => " System audio restarted with updated exclusions."@,
            Some(error) => " System audio tap restart failed: "@ + error,
        }
    } else if update.system_audio && !session.has_audio_channel {
        " System audio cannot be added mid-session; restart the session to enable it."@
    } else {
        ""@
    }
}

/// The session after its old tap, where the update stops it, reported.
pub open spec fn old_tap_stopped<P, R>(
    session: SessionModel<P, R>,
    update: UpdateMediaSessionRequest,
    old_tap: Option<ReportModel>,
) -> (SessionModel<P, R>, Option<Seq<char>>) {
    let shaped = SessionModel { request: reshaped(session.request, update), ..session };
    if stops_tap(session, update) {
        tap_shut_down(shaped, old_tap)
    } else {
        (shaped, None)
    }
}

/// The session with everything that the update asks for.
pub open spec fn fully_updated<P, R>(
    session: SessionModel<P, R>,
    update: UpdateMediaSessionRequest,
    old_tap: Option<ReportModel>,
    start_error: Option<Seq<char>>,
) -> SessionModel<P, R> {
    let after = old_tap_stopped(session, update, old_tap).0;
    SessionModel {
        request: refreshed(session.request, update),
        has_audio_tap: (starts_tap(session, update) && start_error is None) || after.has_audio_tap,
        ..after
    }
}

/// The state after an update in one piece that needs no restart, and the error if any.
pub open spec fn updated_in_place<P, R, W>(
    state: EngineModel<P, R, W>,
    session: SessionModel<P, R>,
    update: UpdateMediaSessionRequest,
    reports: TapReports,
) -> (EngineModel<P, R, W>, Option<ErrorModel>) {
    let old_tap = opt_report(reports.old_tap);
    let start_error = opt_text(reports.start_error);
    match old_tap_stopped(session, update, old_tap).1 {
        Some(refusal) => (
            EngineModel {
                session: Some(old_tap_stopped(session, update, old_tap).0),
                ..state
            },
            Some(ErrorModel::NativeCapture(refusal)),
        ),
        None => (
            EngineModel {
                session: Some(fully_updated(session, update, old_tap, start_error)),
                detail: "Session settings updated; capture and peer transport kept running."@
                    + reshape_note(session.request, update) + tap_note(
                    session,
                    update,
                    start_error,
                ),
                ..state
            },
            None,
        ),
    }
}

fn reshape(current: &CreateMediaSessionRequest, update: &UpdateMediaSessionRequest) -> (request:
    CreateMediaSessionRequest)
    ensures
        request@ == reshaped(current@, *update),
{
    let mut request = current.clone();
    request.resolution = match update.resolution {
        Some(resolution) => resolution,
        None => current.resolution,
    };
    request.frame_rate = match update.frame_rate {
        Some(frame_rate) => frame_rate,
        None => current.frame_rate,
    };
    request.quality = update.quality;
    request.bitrate_bps = update.bitrate_bps;
    request.min_bitrate_bps = update.min_bitrate_bps;
    request
}

fn refresh(current: &CreateMediaSessionRequest, update: &UpdateMediaSessionRequest) -> (request:
    CreateMediaSessionRequest)
    ensures
        request@ == refreshed(current@, *update),
{
    let mut request = reshape(current, update);
    request.system_audio = update.system_audio;
    request.excluded_apps = copy_texts(&update.excluded_apps);
    request
}

fn shape_changes(current: &CreateMediaSessionRequest, update: &UpdateMediaSessionRequest) -> (changes:
    bool)
    ensures
        changes == reshapes(current@, *update),
{
    let next = reshape(current, update);
    next.resolution != current.resolution || next.frame_rate != current.frame_rate
}

fn note_of_shape(current: &CreateMediaSessionRequest, update: &UpdateMediaSessionRequest) -> (note:
    String)
    ensures
        note@ == reshape_note(current@, *update),
{
    if !shape_changes(current, update) {
        return "".to_owned();
    }
    let next = reshape(current, update);
    let mut note = " Share is stopped; next start will use ".to_owned();
    push_text(&mut note, format_resolution(next.resolution));
    push_text(&mut note, " ");
    push_text(&mut note, format_frame_rate(next.frame_rate));
    push_text(&mut note, ".");
    note
}

fn note_of_tap<P, R>(
    session: &SessionRecord<P, R>,
    update: &UpdateMediaSessionRequest,
    start_error: &Option<String>,
) -> (note: String)
    ensures
        note@ == tap_note(session@, *update, opt_text(*start_error)),
{
    if update.system_audio && session.native_capture_active && session.has_audio_channel {
        match start_error {
            None => " System audio restarted with updated exclusions.".to_owned(),
            Some(error) => message_with(" System audio tap restart failed: ", error.as_str()),
        }
    } else if update.system_audio && !session.has_audio_channel {
        " System audio cannot be added mid-session; restart the session to enable it.".to_owned()
    } else {
        "".to_owned()
    }
}

fn refresh_session<P, R>(
    session: &mut SessionRecord<P, R>,
    update: &UpdateMediaSessionRequest,
    old_tap: Option<ShutdownStatus>,
    start_error: &Option<String>,
) -> (result: Result<String, String>)
    requires
        old(session).wf(),
        stops_tap(old(session)@, *update) ==> (old_tap is Some <==> old(session).has_audio_tap),
    ensures
        final(session).wf(),
        match old_tap_stopped(old(session)@, *update, opt_report(old_tap)).1 {
            Some(refusal) => {
                &&& final(session)@ == old_tap_stopped(
                    old(session)@,
                    *update,
                    opt_report(old_tap),
                ).0
                &&& result is Err
                &&& result->Err_0@ == refusal
            },
            None => {
                &&& final(session)@ == fully_updated(
                    old(session)@,
                    *update,
                    opt_report(old_tap),
                    opt_text(*start_error),
                )
                &&& result is Ok
                &&& result->Ok_0@
                    == "Session settings updated; capture and peer transport kept running."@
                    + reshape_note(old(session)@.request, *update) + tap_note(
                    old(session)@,
                    *update,
                    opt_text(*start_error),
                )
            },
        },
{
    let mut detail = "Session settings updated; capture and peer transport kept running.".to_owned();
    push_text(&mut detail, note_of_shape(&session.request, update).as_str());
    push_text(&mut detail, note_of_tap(session, update, start_error).as_str());
    let shaped = reshape(&session.request, update);
    let next = refresh(&session.request, update);
    let starts: bool = update.system_audio && session.native_capture_active
        && session.has_audio_channel && start_error.is_none();
    session.set_request(shaped);
    if !update.system_audio || session.has_audio_channel {
        match shutdown_audio_tap(session, &old_tap) {
            Err(text) => {
                return Err(text);
            },
            Ok(_) => {},
        }
    }
    if starts {
        session.set_tap(true);
    }
    session.set_request(next);
    Ok(detail)
}

fn without_viewers<P, R>(session: &mut SessionRecord<P, R>)
    requires
        old(session).wf(),
    ensures
        final(session).wf(),
        final(session)@ == (SessionModel {
            viewers: Map::<Seq<char>, LinkModel<P>>::empty(),
            order: Seq::empty(),
            ..old(session)@
        }),
{
    session.viewers = Registry::new();
    assert(session@.viewers =~= Map::<Seq<char>, LinkModel<P>>::empty());
}

fn share_session<P, R>(session: &mut SessionRecord<P, R>, capture: bool, tap: bool)
    requires
        old(session).wf(),
    ensures
        final(session).wf(),
        final(session)@ == sharing(old(session)@, capture, tap),
{
    session.set_capture(capture);
    if session.request.system_audio && !session.has_audio_tap && session.has_audio_channel {
        session.set_tap(tap);
    }
}

fn rebuild<P, R>(
    session: &mut SessionRecord<P, R>,
    request: &CreateMediaSessionRequest,
    generation: u64,
    peers: bool,
    tap: bool,
)
    requires
        old(session).wf(),
    ensures
        final(session).wf(),
        final(session)@ == (SessionModel {
            viewers: Map::<Seq<char>, LinkModel<P>>::empty(),
            order: Seq::empty(),
            generation,
            has_audio_channel: request.system_audio,
            has_audio_tap: request.system_audio && tap,
            has_fanout: peers,
            request: request@,
            native_capture_active: false,
            ..old(session)@
        }),
{
    without_viewers(session);
    session.generation = generation;
    session.has_audio_channel = request.system_audio;
    session.has_audio_tap = request.system_audio && tap;
    session.has_fanout = peers;
    session.request = request.clone();
    session.native_capture_active = false;
}

fn message_with(prefix: &str, text: &str) -> (message: String)
    ensures
        message@ == prefix@ + text@,
{
    let mut message = prefix.to_owned();
    push_text(&mut message, text);
    message
}

impl<P, R, W> EngineState<P, R, W> {
    fn begin_in_state(&mut self, request: &CreateMediaSessionRequest) -> (ticket: StartTicket)
        requires
            old(self).wf(),
        ensures
            final(self).wf(),
            final(self)@ == begun_in_place(old(self)@, request.share_on_start),
            ticket_in_place(old(self)@, request.share_on_start, ticket),
    {
        let session_epoch = self.actor.begin_session();
        if request.share_on_start {
            let _ = self.actor.begin_share();
        }
        let epoch = self.actor.fence(None);
        let operation = self.actor.reserve_operation_kind(epoch, OperationKind::StartSession);
        let mut id = "native-".to_owned();
        push_decimal(&mut id, self.next_session_id);
        if self.next_session_id < u64::MAX {
            self.next_session_id = self.next_session_id + 1;
        }
        self.preview.begin_session();
        assert(self.preview == preview_begun(old(self).preview));
        StartTicket { operation, session_epoch, share_epoch: self.actor.share_epoch(), id }
    }

    /// Begins a session in one piece. Nothing changes for a request that is not valid. A
    /// session that is there is stopped first, and `stop` is how its capture reports.
    pub fn create_in_state(&mut self, request: &CreateMediaSessionRequest, stop: CaptureStop) -> (ticket:
        Result<StartTicket, MediaEngineError>)
        requires
            old(self).wf(),
        ensures
            final(self).wf(),
            match start_refusal(old(self)@.capabilities.supported, request@) {
                Some(error) => outcome(ticket) == Some(error) && final(self)@ == old(self)@,
                None => {
                    let (cleared, failure) = cleared_in_place(old(self)@, stop);
                    &&& outcome(ticket) == failure
                    &&& final(self)@ == if failure is Some {
                        cleared
                    } else {
                        begun_in_place(cleared, request.share_on_start)
                    }
                    &&& ticket matches Ok(t) ==> ticket_in_place(
                        cleared,
                        request.share_on_start,
                        t,
                    )
                },
            },
    {
        match validate_start_config(self.capabilities.supported, request) {
            Ok(_) => {},
            Err(error) => {
                return Err(error);
            },
        }
        if self.session.is_some() {
            match self.stop_in_state(stop) {
                Ok(_) => {},
                Err(error) => {
                    return Err(error);
                },
            }
        }
        Ok(self.begin_in_state(request))
    }

    /// The session stands.
    pub fn commit_in_state(&mut self, session: SessionRecord<P, R>, detail: String)
        requires
            old(self).wf(),
            session.wf(),
        ensures
            final(self).wf(),
            final(self)@ == (EngineModel {
                session: Some(session@),
                actor: old(self)@.actor.with_lifecycle(MediaLifecycleState::Running),
                detail: detail@,
                ..old(self)@
            }),
    {
        self.session = Some(session);
        self.actor.set_lifecycle(MediaLifecycleState::Running);
        self.detail = detail;
        assert(self.actor@.wf());
    }

    /// A start that failed while the session is still its own is rolled back.
    pub fn rollback_start(&mut self, epoch: crate::control_plane::SessionEpoch, reason: &str) -> (rolled_back:
        bool)
        requires
            old(self).wf(),
        ensures
            final(self).wf(),
            (final(self)@, rolled_back) == start_rolled_back(old(self)@, epoch, reason@),
            rolled_back == (old(self)@.actor.session_epoch == epoch && old(self)@.actor.lifecycle
                == MediaLifecycleState::Starting),
            final(self)@ == (if rolled_back {
                EngineModel {
                    actor: old(self)@.actor.with_lifecycle(MediaLifecycleState::Idle),
                    detail: "Session start rolled back: "@ + reason@,
                    ..old(self)@
                }
            } else {
                old(self)@
            }),
    {
        if self.actor.session_epoch() == epoch && self.actor.lifecycle()
            == MediaLifecycleState::Starting {
            self.actor.set_lifecycle(MediaLifecycleState::Idle);
            self.detail = message_with("Session start rolled back: ", reason);
            assert(self.actor@.wf());
            return true;
        }
        false
    }

    /// Stops the session in one piece. A capture that cannot be stopped keeps the session
    /// for another try.
    pub fn stop_in_state(&mut self, stop: CaptureStop) -> (result: Result<(), MediaEngineError>)
        requires
            old(self).wf(),
        ensures
            final(self).wf(),
            (final(self)@, outcome(result)) == stopped_in_place(old(self)@, stop),
    {
        if self.session.is_none() {
            return Err(MediaEngineError::NoActiveSession);
        }
        if self.actor.lifecycle() != MediaLifecycleState::Stopping {
            let _ = self.actor.invalidate_session();
        }
        match stop {
            CaptureStop::Failed { error, lifecycle, detail } => {
                let next = match lifecycle {
                    CaptureLifecycle::CleanupPending => MediaLifecycleState::CleanupPending,
                    CaptureLifecycle::Failed => MediaLifecycleState::Failed,
                    CaptureLifecycle::Stopping => MediaLifecycleState::Stopping,
                    _ => MediaLifecycleState::Running,
                };
                self.actor.set_lifecycle(next);
                self.detail = match detail {
                    Some(text) => text,
                    None => message_with(
                        "Native capture stop failed and is retryable: ",
                        error.as_str(),
                    ),
                };
                assert(self.actor@.wf());
                Err(MediaEngineError::NativeCapture(error))
            },
            CaptureStop::Stopped => {
                self.session = None;
                self.actor.set_lifecycle(MediaLifecycleState::Idle);
                self.detail = "Session stopped; native pipeline handles released.".to_owned();
                self.preview.begin_session();
                assert(self.preview == preview_begun(old(self).preview));
                assert(self.actor@.wf());
                Ok(())
            },
        }
    }

    fn put_sharing(&mut self, session: SessionRecord<P, R>, capture: bool, tap: bool)
        requires
            old(self).wf(),
            session.wf(),
        ensures
            final(self).wf(),
            capture ==> final(self)@ == (EngineModel {
                session: Some(
                    SessionModel {
                        share_epoch: old(self)@.actor.begin_share().share_epoch,
                        ..sharing(session@, true, tap)
                    },
                ),
                actor: old(self)@.actor.begin_share(),
                ..old(self)@
            }),
            !capture ==> final(self)@ == (EngineModel {
                session: Some(sharing(session@, false, tap)),
                ..old(self)@
            }),
    {
        let mut session = session;
        share_session(&mut session, capture, tap);
        if capture {
            let epoch = self.actor.begin_share();
            session.set_share_epoch(epoch);
        }
        self.put_session(session);
    }

    fn put_stuck(&mut self, session: SessionRecord<P, R>, detail: String)
        requires
            old(self).wf(),
            session.wf(),
        ensures
            final(self).wf(),
            final(self)@ == (EngineModel {
                session: Some(session@),
                actor: old(self)@.actor.with_lifecycle(MediaLifecycleState::CleanupPending),
                detail: detail@,
                ..old(self)@
            }),
    {
        self.put_session(session);
        self.note(MediaLifecycleState::CleanupPending, detail);
    }

    /// Starts the share in one piece. The room stays as it is.
    pub fn start_share_in_state(&mut self, reports: ShareStartReports) -> (result: Result<
        (),
        MediaEngineError,
    >)
        requires
            old(self).wf(),
        ensures
            final(self).wf(),
            (final(self)@, outcome(result)) == share_started_in_place(old(self)@, reports),
    {
        if let Some(pending) = self.pending_share {
            if pending.cancelled {
                return Err(MediaEngineError::NativeCapture("share start cancelled".to_owned()));
            }
        }
        match self.session.take() {
            None => Err(MediaEngineError::NoActiveSession),
            Some(session) => {
                if session.native_capture_active {
                    self.put_session(session);
                    return Ok(());
                }
                if reports.capture {
                    if let Some(error) = reports.capture_error {
                        self.put_session(session);
                        return Err(MediaEngineError::NativeCapture(error));
                    }
                }
                self.put_sharing(session, reports.capture, reports.tap);
                Ok(())
            },
        }
    }

    /// Stops the share in one piece. What did not stop stays, and the session with it.
    pub fn stop_share_in_state(
        &mut self,
        capture_error: Option<String>,
        tap: Option<ShutdownStatus>,
    ) -> (result: Result<(), MediaEngineError>)
        requires
            old(self).wf(),
            tap is Some <==> old(self).session is Some && old(self).session->0.has_audio_tap,
        ensures
            final(self).wf(),
            (final(self)@, outcome(result)) == share_stopped_in_place(
                old(self)@,
                opt_text(capture_error),
                opt_report(tap),
            ),
    {
        match self.session.take() {
            None => Err(MediaEngineError::NoActiveSession),
            Some(session) => {
                if session.native_capture_active {
                    if let Some(error) = capture_error {
                        self.stop_share_failed(session, tap, error.as_str());
                        return Err(MediaEngineError::NativeCapture(error));
                    }
                }
                self.stop_share_tap(session, tap)
            },
        }
    }

    fn stop_share_failed(
        &mut self,
        session: SessionRecord<P, R>,
        tap: Option<ShutdownStatus>,
        error: &str,
    )
        requires
            old(self).wf(),
            session.wf(),
            tap is Some <==> session.has_audio_tap,
        ensures
            final(self).wf(),
            final(self)@ == (EngineModel {
                session: Some(tap_shut_down(session@, opt_report(tap)).0),
                actor: old(self)@.actor.with_lifecycle(MediaLifecycleState::CleanupPending),
                detail: "Share cleanup pending: "@ + error@,
                ..old(self)@
            }),
    {
        let mut session = session;
        let _ = shutdown_audio_tap(&mut session, &tap);
        self.put_stuck(session, message_with("Share cleanup pending: ", error));
    }

    fn stop_share_tap(&mut self, session: SessionRecord<P, R>, tap: Option<ShutdownStatus>) -> (result:
        Result<(), MediaEngineError>)
        requires
            old(self).wf(),
            session.wf(),
            tap is Some <==> session.has_audio_tap,
        ensures
            final(self).wf(),
            match tap_shut_down(session@, opt_report(tap)).1 {
                Some(text) => {
                    &&& final(self)@ == (EngineModel {
                        session: Some(
                            SessionModel {
                                native_capture_active: false,
                                ..tap_shut_down(session@, opt_report(tap)).0
                            },
                        ),
                        actor: old(self)@.actor.with_lifecycle(MediaLifecycleState::CleanupPending),
                        detail: "Share cleanup pending: "@ + text,
                        ..old(self)@
                    })
                    &&& outcome(result) == Some(ErrorModel::NativeCapture(text))
                },
                None => {
                    &&& final(self)@ == (EngineModel {
                        session: Some(
                            SessionModel {
                                native_capture_active: false,
                                viewers: Map::empty(),
                                order: Seq::empty(),
                                ..tap_shut_down(session@, opt_report(tap)).0
                            },
                        ),
                        actor: old(self)@.actor.end_share(),
                        ..old(self)@
                    })
                    &&& result is Ok
                },
            },
    {
        let mut session = session;
        let result = shutdown_audio_tap(&mut session, &tap);
        session.set_capture(false);
        match result {
            Err(text) => {
                self.put_stuck(session, message_with("Share cleanup pending: ", text.as_str()));
                Err(MediaEngineError::NativeCapture(text))
            },
            Ok(_) => {
                without_viewers(&mut session);
                self.actor.end_share();
                self.put_session(session);
                Ok(())
            },
        }
    }

    fn finish_restart(
        &mut self,
        session: SessionRecord<P, R>,
        active: bool,
        undone_tap: Option<ShutdownStatus>,
    ) -> (result: Result<(), MediaEngineError>)
        requires
            old(self).wf(),
            session.wf(),
            share_cancelled(old(self)@) ==> (undone_tap is Some <==> session.has_audio_tap),
        ensures
            final(self).wf(),
            (final(self)@, outcome(result)) == restart_finished(
                old(self)@,
                session@,
                active,
                opt_report(undone_tap),
            ),
    {
        let cancelled: bool = match self.pending_share {
            Some(pending) => pending.cancelled,
            None => false,
        };
        if cancelled {
            self.put_called_off(session, undone_tap);
            return Err(MediaEngineError::NativeCapture("share restart cancelled".to_owned()));
        }
        self.actor.set_lifecycle(MediaLifecycleState::Running);
        assert(self.actor@.wf());
        self.put_restarted(session, active);
        Ok(())
    }

    fn put_restarted(&mut self, session: SessionRecord<P, R>, active: bool)
        requires
            old(self).wf(),
            session.wf(),
        ensures
            final(self).wf(),
            active ==> final(self)@ == (EngineModel {
                session: Some(
                    SessionModel {
                        native_capture_active: true,
                        share_epoch: old(self)@.actor.begin_share().share_epoch,
                        ..session@
                    },
                ),
                actor: old(self)@.actor.begin_share(),
                ..old(self)@
            }),
            !active ==> final(self)@ == (EngineModel { session: Some(session@), ..old(self)@ }),
    {
        let mut session = session;
        if active {
            session.set_capture(true);
            let epoch = self.actor.begin_share();
            session.set_share_epoch(epoch);
        }
        self.put_session(session);
    }

    fn put_called_off(&mut self, session: SessionRecord<P, R>, undone_tap: Option<ShutdownStatus>)
        requires
            old(self).wf(),
            session.wf(),
            undone_tap is Some <==> session.has_audio_tap,
        ensures
            final(self).wf(),
            final(self)@ == (EngineModel {
                session: Some(tap_shut_down(session@, opt_report(undone_tap)).0),
                actor: old(self)@.actor.with_lifecycle(MediaLifecycleState::Starting),
                ..old(self)@
            }),
    {
        let mut session = session;
        let _ = shutdown_audio_tap(&mut session, &undone_tap);
        self.actor.set_lifecycle(MediaLifecycleState::Starting);
        assert(self.actor@.wf());
        self.put_session(session);
    }

    fn rebuild_share(
        &mut self,
        session: SessionRecord<P, R>,
        request: &CreateMediaSessionRequest,
        reports: ShareRestartReports,
    ) -> (result: Result<(), MediaEngineError>)
        requires
            old(self).wf(),
            session.wf(),
            share_cancelled(old(self)@) ==> (reports.undone_tap is Some <==> request.system_audio
                && reports.tap),
        ensures
            final(self).wf(),
            (final(self)@, outcome(result)) == share_rebuilt(
                old(self)@,
                session@,
                request@,
                reports,
                session.native_capture_active,
            ),
    {
        let mut session = session;
        let active: bool = session.native_capture_active;
        rebuild(&mut session, request, reports.generation, reports.peers, reports.tap);
        self.begin_preview();
        if active {
            if let Some(error) = reports.start_error {
                self.put_session(session);
                self.note(
                    MediaLifecycleState::Running,
                    message_with("Share restart failed: ", error.as_str()),
                );
                return Err(MediaEngineError::NativeCapture(error));
            }
        }
        self.finish_restart(session, active, reports.undone_tap)
    }

    /// Replaces the whole share in one piece. The session and its rooms stay; capture,
    /// audio, pipeline, fanout and viewers do not.
    pub fn restart_share_slot(
        &mut self,
        request: &CreateMediaSessionRequest,
        reports: ShareRestartReports,
    ) -> (result: Result<(), MediaEngineError>)
        requires
            old(self).wf(),
            old(self).session matches Some(session) ==> session.native_capture_active
                && reports.stop_error is Some || (reports.old_tap is Some
                <==> session.has_audio_tap),
            share_cancelled(old(self)@) ==> (reports.undone_tap is Some <==> request.system_audio
                && reports.tap),
        ensures
            final(self).wf(),
            (final(self)@, outcome(result)) == share_restarted_in_place(
                old(self)@,
                request@,
                reports,
            ),
    {
        match self.session.take() {
            None => Err(MediaEngineError::NoActiveSession),
            Some(session) => {
                self.actor.end_share();
                if session.native_capture_active {
                    if let Some(error) = reports.stop_error {
                        self.put_stuck(
                            session,
                            message_with("Share restart cleanup failed: ", error.as_str()),
                        );
                        return Err(MediaEngineError::NativeCapture(error));
                    }
                }
                self.replace_share(session, request, reports)
            },
        }
    }

    fn replace_share(
        &mut self,
        session: SessionRecord<P, R>,
        request: &CreateMediaSessionRequest,
        reports: ShareRestartReports,
    ) -> (result: Result<(), MediaEngineError>)
        requires
            old(self).wf(),
            session.wf(),
            reports.old_tap is Some <==> session.has_audio_tap,
            share_cancelled(old(self)@) ==> (reports.undone_tap is Some <==> request.system_audio
                && reports.tap),
        ensures
            final(self).wf(),
            match tap_shut_down(session@, opt_report(reports.old_tap)).1 {
                Some(text) => {
                    &&& final(self)@ == (EngineModel {
                        session: Some(tap_shut_down(session@, opt_report(reports.old_tap)).0),
                        actor: old(self)@.actor.with_lifecycle(MediaLifecycleState::CleanupPending),
                        detail: "Share restart cleanup pending: "@ + text,
                        ..old(self)@
                    })
                    &&& outcome(result) == Some(ErrorModel::NativeCapture(text))
                },
                None => (final(self)@, outcome(result)) == share_rebuilt(
                    old(self)@,
                    tap_shut_down(session@, opt_report(reports.old_tap)).0,
                    request@,
                    reports,
                    session.native_capture_active,
                ),
            },
    {
        let mut session = session;
        match shutdown_audio_tap(&mut session, &reports.old_tap) {
            Err(text) => {
                self.put_stuck(
                    session,
                    message_with("Share restart cleanup pending: ", text.as_str()),
                );
                Err(MediaEngineError::NativeCapture(text))
            },
            Ok(_) => self.rebuild_share(session, request, reports),
        }
    }

    /// Updates the session in one piece. A running share whose picture changes has to be
    /// restarted; everything else is changed in place, and the encoder is told of it.
    /// `target` and `floor` are the rates that the new settings stand for.
    pub fn update_in_state(
        &mut self,
        update: &UpdateMediaSessionRequest,
        reports: TapReports,
        control: &mut EncoderControl,
        target: u32,
        floor: u32,
    ) -> (result: Result<UpdateOutcome, MediaEngineError>)
        requires
            old(self).wf(),
            old(self).session matches Some(session) ==> session.native_capture_active && reshapes(
                session@.request,
                *update,
            ) || !stops_tap(session@, *update) || (reports.old_tap is Some
                <==> session.has_audio_tap),
        ensures
            final(self).wf(),
            match old(self)@.session {
                None => outcome(result) == Some(ErrorModel::NoActiveSession) && final(self)@
                    == old(self)@ && *final(control) == *old(control),
                Some(session) => if session.native_capture_active && reshapes(
                    session.request,
                    *update,
                ) {
                    &&& final(self)@ == old(self)@
                    &&& *final(control) == *old(control)
                    &&& result matches Ok(UpdateOutcome::Restart(request)) && request@
                        == refreshed(session.request, *update)
                } else {
                    &&& (final(self)@, outcome(result)) == updated_in_place(
                        old(self)@,
                        session,
                        *update,
                        reports,
                    )
                    &&& *final(control) == tuned(
                        *old(control),
                        change_between(session.request, refreshed(session.request, *update)),
                        target,
                        floor,
                    )
                    &&& result is Ok ==> result->Ok_0 is Updated
                },
            },
    {
        match self.session.take() {
            None => Err(MediaEngineError::NoActiveSession),
            Some(session) => {
                if session.native_capture_active && shape_changes(&session.request, update) {
                    let request = refresh(&session.request, update);
                    self.put_session(session);
                    return Ok(UpdateOutcome::Restart(request));
                }
                let next = refresh(&session.request, update);
                let change = encoder_change(&session.request, &next);
                tune_encoder(control, change, target, floor);
                self.update_live(session, update, reports)
            },
        }
    }

    fn update_live(
        &mut self,
        session: SessionRecord<P, R>,
        update: &UpdateMediaSessionRequest,
        reports: TapReports,
    ) -> (result: Result<UpdateOutcome, MediaEngineError>)
        requires
            old(self).wf(),
            session.wf(),
            stops_tap(session@, *update) ==> (reports.old_tap is Some <==> session.has_audio_tap),
        ensures
            final(self).wf(),
            (final(self)@, outcome(result)) == updated_in_place(
                old(self)@,
                session@,
                *update,
                reports,
            ),
            result is Ok ==> result->Ok_0 is Updated,
    {
        let mut session = session;
        let TapReports { old_tap, start_error } = reports;
        match refresh_session(&mut session, update, old_tap, &start_error) {
            Ok(detail) => {
                self.put_session(session);
                self.detail = detail;
                Ok(UpdateOutcome::Updated)
            },
            Err(text) => {
                self.put_session(session);
                Err(MediaEngineError::NativeCapture(text))
            },
        }
    }
}

/// Restarting the share keeps the session and its rooms, and drops every viewer.
pub proof fn law_restart_keeps_the_room<P, R, W>(
    state: EngineModel<P, R, W>,
    request: RequestModel,
    reports: ShareRestartReports,
)
    requires
        state.session is Some,
    ensures
        ({
            let (after, error) = share_restarted_in_place(state, request, reports);
            &&& after.session is Some
            &&& after.session->0.id == state.session->0.id
            &&& after.session->0.has_lan_room == state.session->0.has_lan_room
            &&& after.session->0.has_direct_room == state.session->0.has_direct_room
            &&& after.session->0.has_stunar == state.session->0.has_stunar
            &&& after.session->0.password == state.session->0.password
            &&& error is None ==> after.session->0.order.len() == 0
                && after.session->0.native_capture_active == state.session->0.native_capture_active
        }),
{
}

/// A stop in one piece ends the session where its capture stopped, and keeps it, with the
/// reason, where it did not: the engine then stands as the capture does. Either way the
/// session's epoch is over, unless a stop was under way already.
pub proof fn law_stop_ends_or_keeps_the_session<P, R, W>(
    state: EngineModel<P, R, W>,
    stop: CaptureStop,
)
    requires
        state.session is Some,
    ensures
        ({
            let (after, error) = stopped_in_place(state, stop);
            &&& stop is Stopped ==> {
                &&& after.session is None
                &&& error is None
                &&& after.actor.lifecycle is Idle
                &&& after.detail == "Session stopped; native pipeline handles released."@
                &&& after.preview == preview_begun(state.preview)
            }
            &&& (stop matches CaptureStop::Failed { error: reason, lifecycle, detail } ==> {
                &&& after.session == state.session
                &&& error == Some(ErrorModel::NativeCapture(reason@))
                &&& after.preview == state.preview
                &&& detail is Some ==> after.detail == detail->0@
                &&& detail is None ==> after.detail
                    == "Native capture stop failed and is retryable: "@ + reason@
                &&& lifecycle is CleanupPending ==> after.actor.lifecycle is CleanupPending
                &&& lifecycle is Failed ==> after.actor.lifecycle is Failed
                &&& lifecycle is Stopping ==> after.actor.lifecycle is Stopping
                &&& !(lifecycle is CleanupPending || lifecycle is Failed || lifecycle is Stopping)
                    ==> after.actor.lifecycle is Running
            })
            &&& state.actor.lifecycle is Stopping ==> after.actor.session_epoch
                == state.actor.session_epoch
            &&& !(state.actor.lifecycle is Stopping) ==> after.actor.session_epoch
                == state.actor.invalidate_session().session_epoch && after.actor.links.is_empty()
                && after.actor.operations.is_empty()
        }),
{
}

/// A start in one piece uses the next number up, and its ticket carries the operation and the
/// epochs that the engine then accepts. The session that was there is not touched by it.
pub proof fn law_starts_use_fresh_numbers<P, R, W>(
    state: EngineModel<P, R, W>,
    share: bool,
    ticket: StartTicket,
)
    requires
        ticket_in_place(state, share, ticket),
        state.next_session_id < u64::MAX,
        state.actor.next_operation < u64::MAX,
    ensures
        ({
            let after = begun_in_place(state, share);
            &&& after.next_session_id == state.next_session_id + 1
            &&& ticket.id@ == "native-"@ + decimal(state.next_session_id as nat)
            &&& after.actor.accepts_operation_kind(ticket.operation, OperationKind::StartSession)
            &&& ticket.session_epoch == after.actor.session_epoch
            &&& ticket.share_epoch == after.actor.share_epoch
            &&& after.session == state.session
            &&& after.preview == preview_begun(state.preview)
        }),
{
}

/// Only the start that is still under way in its own session is rolled back.
pub proof fn law_only_the_own_start_is_rolled_back<P, R, W>(
    state: EngineModel<P, R, W>,
    epoch: crate::control_plane::SessionEpoch,
    reason: Seq<char>,
)
    ensures
        ({
            let (after, done) = start_rolled_back(state, epoch, reason);
            &&& done <==> state.actor.session_epoch == epoch && state.actor.lifecycle is Starting
            &&& done ==> after.actor.lifecycle is Idle && after.detail
                == "Session start rolled back: "@ + reason
            &&& !done ==> after == state
            &&& after.session == state.session
        }),
{
}

/// A share that starts in one piece captures from then on, in a new epoch. Its tap starts only
/// where system audio is asked for, a channel is there and no tap is running. One that cannot
/// start, was called off or runs already changes nothing.
pub proof fn law_share_starts_in_place<P, R, W>(
    state: EngineModel<P, R, W>,
    reports: ShareStartReports,
)
    ensures
        ({
            let (after, error) = share_started_in_place(state, reports);
            let off = state.pending_share is Some && state.pending_share->0.cancelled;
            &&& off ==> error == Some(ErrorModel::NativeCapture("share start cancelled"@)) && after
                == state
            &&& !off && state.session is None ==> error == Some(ErrorModel::NoActiveSession) && after
                == state
            &&& !off && state.session is Some ==> {
                let session = state.session->0;
                let runs = session.native_capture_active;
                &&& runs ==> after == state && error is None
                &&& !runs && reports.capture && reports.capture_error is Some ==> after == state
                    && error == Some(ErrorModel::NativeCapture(reports.capture_error->0@))
                &&& !runs && !(reports.capture && reports.capture_error is Some) ==> {
                    let shared = after.session->0;
                    &&& error is None
                    &&& after.session is Some
                    &&& shared.native_capture_active == reports.capture
                    &&& shared.request == session.request && shared.viewers == session.viewers
                    &&& session.request.system_audio && session.has_audio_channel
                        && !session.has_audio_tap ==> shared.has_audio_tap == reports.tap
                    &&& !(session.request.system_audio && session.has_audio_channel)
                        || session.has_audio_tap ==> shared.has_audio_tap == session.has_audio_tap
                    &&& reports.capture ==> shared.share_epoch == after.actor.share_epoch
                        && after.actor == state.actor.begin_share()
                    &&& !reports.capture ==> after.actor == state.actor && shared.share_epoch
                        == session.share_epoch
                }
            }
        }),
{
}

/// A share that stops in one piece lets every viewer go, captures no more, and keeps its
/// epoch. A capture or a tap that did not stop is told, the capture first, and keeps the
/// viewers for another try; what did stop is gone.
pub proof fn law_share_stops_in_place<P, R, W>(
    state: EngineModel<P, R, W>,
    capture_error: Option<Seq<char>>,
    tap: Option<ReportModel>,
)
    requires
        state.session is Some,
    ensures
        ({
            let (after, error) = share_stopped_in_place(state, capture_error, tap);
            let session = state.session->0;
            let stuck = session.native_capture_active && capture_error is Some;
            let refusal = tap_shut_down(session, tap).1;
            &&& after.session is Some
            &&& stuck ==> {
                &&& error == Some(ErrorModel::NativeCapture(capture_error->0))
                &&& after.session->0.native_capture_active
                &&& after.session->0.viewers == session.viewers
                &&& after.actor.lifecycle is CleanupPending
            }
            &&& !stuck && refusal is Some ==> {
                &&& error == Some(ErrorModel::NativeCapture(refusal->0))
                &&& !after.session->0.native_capture_active
                &&& after.session->0.viewers == session.viewers
                &&& after.actor.lifecycle is CleanupPending
            }
            &&& !stuck && refusal is None ==> {
                &&& error is None
                &&& !after.session->0.native_capture_active
                &&& after.session->0.order.len() == 0
                &&& after.actor.links.is_empty()
                &&& after.actor.lifecycle == state.actor.lifecycle
                &&& after.detail == state.detail
            }
            &&& after.actor.share_epoch == state.actor.share_epoch
            &&& after.session->0.request == session.request
            &&& after.session->0.share_epoch == session.share_epoch
        }),
{
}

/// A share that restarts has the new request and the new pipeline, no viewer of the old one,
/// and audio only where the request asks for it. It captures again, in a new epoch, where it
/// did before and nothing went wrong.
pub proof fn law_restart_begins_anew<P, R, W>(
    state: EngineModel<P, R, W>,
    request: RequestModel,
    reports: ShareRestartReports,
)
    requires
        state.session is Some,
        state.actor.next_share < u64::MAX,
    ensures
        ({
            let (after, error) = share_restarted_in_place(state, request, reports);
            let session = state.session->0;
            let fresh = after.session->0;
            &&& after.session is Some
            &&& session.native_capture_active && reports.stop_error is Some ==> {
                &&& error == Some(ErrorModel::NativeCapture(reports.stop_error->0@))
                &&& after.session == state.session
                &&& after.actor.lifecycle is CleanupPending
            }
            &&& error is None ==> {
                &&& fresh.request == request
                &&& fresh.generation == reports.generation
                &&& fresh.order.len() == 0
                &&& fresh.has_fanout == reports.peers
                &&& fresh.has_audio_channel == request.system_audio
                &&& fresh.has_audio_tap ==> request.system_audio
                &&& fresh.has_audio_tap == (request.system_audio && reports.tap)
                &&& fresh.native_capture_active == session.native_capture_active
                &&& after.actor.lifecycle is Running
                &&& session.native_capture_active ==> fresh.share_epoch == after.actor.share_epoch
                    && after.actor.share_epoch.0 == state.actor.next_share + 1
                &&& !session.native_capture_active ==> after.actor.share_epoch
                    == state.actor.share_epoch
                &&& after.preview == preview_begun(state.preview)
            }
            &&& after.actor.links.is_empty()
        }),
{
}

/// An update changes the picture to what it names and leaves what it does not name; quality,
/// rates and audio are as it says. The picture changes exactly where size or rate differ.
pub proof fn law_updates_name_the_picture(current: RequestModel, update: UpdateMediaSessionRequest)
    ensures
        ({
            let next = refreshed(current, update);
            &&& update.resolution is Some ==> next.resolution == update.resolution->0
            &&& update.resolution is None ==> next.resolution == current.resolution
            &&& update.frame_rate is Some ==> next.frame_rate == update.frame_rate->0
            &&& update.frame_rate is None ==> next.frame_rate == current.frame_rate
            &&& next.quality == update.quality
            &&& next.bitrate_bps == update.bitrate_bps
            &&& next.min_bitrate_bps == update.min_bitrate_bps
            &&& next.system_audio == update.system_audio
            &&& next.excluded_apps == texts(update.excluded_apps@)
            &&& next == (RequestModel {
                quality: next.quality,
                bitrate_bps: next.bitrate_bps,
                min_bitrate_bps: next.min_bitrate_bps,
                resolution: next.resolution,
                frame_rate: next.frame_rate,
                system_audio: next.system_audio,
                excluded_apps: next.excluded_apps,
                ..current
            })
            &&& reshapes(current, update) <==> next.resolution != current.resolution
                || next.frame_rate != current.frame_rate
            &&& reshaped(current, update) == (RequestModel {
                system_audio: current.system_audio,
                excluded_apps: current.excluded_apps,
                ..next
            })
        }),
{
}

/// An update in one piece that does not restart the share keeps capture, viewers and epochs.
/// A tap that has to go and does not stop ends it there: the picture is updated and the audio
/// is not. Else everything is, and a new tap runs where one was asked for and could start.
pub proof fn law_update_in_place_keeps_the_share<P, R, W>(
    state: EngineModel<P, R, W>,
    session: SessionModel<P, R>,
    update: UpdateMediaSessionRequest,
    reports: TapReports,
)
    ensures
        ({
            let (after, error) = updated_in_place(state, session, update, reports);
            let next = after.session->0;
            let stops = !update.system_audio || session.has_audio_channel;
            let starts = update.system_audio && session.has_audio_channel
                && session.native_capture_active;
            let stuck = stops && reports.old_tap is Some && !(reports.old_tap->0.quiesced
                && reports.old_tap->0.errors@.len() == 0);
            &&& after.session is Some
            &&& after.actor == state.actor
            &&& next.viewers == session.viewers && next.order == session.order
            &&& next.native_capture_active == session.native_capture_active
            &&& next.share_epoch == session.share_epoch
            &&& error is Some <==> stuck
            &&& stuck ==> {
                &&& next.request == reshaped(session.request, update)
                &&& next.has_audio_tap
                &&& after.detail == state.detail
            }
            &&& !stuck ==> {
                &&& next.request == refreshed(session.request, update)
                &&& starts && reports.start_error is None ==> next.has_audio_tap
                &&& stops && reports.old_tap is Some && !(starts && reports.start_error is None)
                    ==> !next.has_audio_tap
                &&& !stops ==> next.has_audio_tap == session.has_audio_tap
            }
        }),
{
    if let Some(status) = reports.old_tap {
        crate::cleanup::law_taps_stay_until_they_stop(session, crate::cleanup::report(status));
        crate::cleanup::law_taps_stay_until_they_stop(
            SessionModel { request: reshaped(session.request, update), ..session },
            crate::cleanup::report(status),
        );
    }
}

/// What is said of an update tells the picture of the next share where it changes, and of the
/// audio what became of its tap.
pub proof fn law_update_notes_tell_what_waits<P, R>(
    session: SessionModel<P, R>,
    update: UpdateMediaSessionRequest,
    start_error: Option<Seq<char>>,
)
    ensures
        !reshapes(session.request, update) ==> reshape_note(session.request, update) == ""@,
        reshapes(session.request, update) ==> reshape_note(session.request, update)
            == " Share is stopped; next start will use "@ + resolution_text(
            refreshed(session.request, update).resolution,
        ) + " "@ + frame_rate_text(refreshed(session.request, update).frame_rate) + "."@,
        starts_tap(session, update) <==> update.system_audio && session.native_capture_active
            && session.has_audio_channel,
        starts_tap(session, update) && start_error is None ==> tap_note(
            session,
            update,
            start_error,
        ) == " System audio restarted with updated exclusions."@,
        starts_tap(session, update) && start_error is Some ==> tap_note(
            session,
            update,
            start_error,
        ) == " System audio tap restart failed: "@ + start_error->0,
        update.system_audio && !session.has_audio_channel ==> tap_note(session, update, start_error)
            == " System audio cannot be added mid-session; restart the session to enable it."@,
        !update.system_audio ==> tap_note(session, update, start_error) == ""@,
{
}

/// Before a start in one piece the session that is there is stopped, and nothing is done where
/// there is none.
pub proof fn law_starts_clear_the_way<P, R, W>(state: EngineModel<P, R, W>, stop: CaptureStop)
    ensures
        state.session is None ==> cleared_in_place(state, stop) == (state, None::<ErrorModel>),
        state.session is Some ==> cleared_in_place(state, stop) == stopped_in_place(state, stop),
{
}

/// A restart that was called off leaves a session that does not capture and waits in its
/// start, without the new tap where that stopped. A capture that could not be started again
/// counts only where the share captured before: the session then runs without it.
pub proof fn law_restart_may_be_called_off<P, R, W>(
    state: EngineModel<P, R, W>,
    session: SessionModel<P, R>,
    request: RequestModel,
    reports: ShareRestartReports,
    active: bool,
)
    ensures
        ({
            let (after, error) = share_rebuilt(state, session, request, reports, active);
            let off = state.pending_share is Some && state.pending_share->0.cancelled;
            let broken = active && reports.start_error is Some;
            &&& broken ==> {
                &&& error == Some(ErrorModel::NativeCapture(reports.start_error->0@))
                &&& after.session is Some && !after.session->0.native_capture_active
                &&& after.actor.lifecycle is Running
                &&& after.detail == "Share restart failed: "@ + reports.start_error->0@
            }
            &&& !broken && off ==> {
                &&& error == Some(ErrorModel::NativeCapture("share restart cancelled"@))
                &&& after.session is Some && !after.session->0.native_capture_active
                &&& after.actor.lifecycle is Starting
                &&& reports.undone_tap is Some ==> after.session->0.has_audio_tap == !(
                reports.undone_tap->0.quiesced && reports.undone_tap->0.errors@.len() == 0)
            }
            &&& !broken && !off ==> {
                &&& error is None
                &&& after.session is Some && after.session->0.native_capture_active == active
                &&& after.actor.lifecycle is Running
            }
        }),
{
    if let Some(status) = reports.undone_tap {
        crate::cleanup::law_taps_stay_until_they_stop(
            rebuilt(session, request, reports),
            crate::cleanup::report(status),
        );
    }
}

} // verus!
