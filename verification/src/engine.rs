//! The state of the media engine and its commands.
//!
//! Commands reserve an operation and hand its native work out; the work reports back
//! with a completion. Everything here happens in one place at a time and never waits.

use vstd::prelude::*;
use crate::capabilities::{CapabilitiesModel, MediaCapabilities};
use crate::control_plane::{
    ActorModel, OperationFence, OperationKind, SessionActor, SessionEpoch, ShareEpoch,
};
use crate::engine_error::{ErrorModel, MediaEngineError};
use crate::pipeline::{next_generation, PreviewDiagnostics, PreviewState};
use crate::session::{opt_session, SessionModel, SessionRecord};
use crate::snapshot::{
    idle_snapshot, session_snapshot, show_session, show_viewer, viewer_snapshot,
    MediaSessionSnapshot, Observed, SnapshotModel,
};
use crate::text::{chars_of, copy_texts, decimal, push_decimal, push_text, texts};
use crate::types::{
    CreateMediaSessionRequest, JoinMode, MediaLifecycleState, RequestModel, SourceIdUpdate,
    UpdateMediaSessionRequest, VideoCodec,
};

verus! {

/// How many commands may wait.
pub const CONTROL_QUEUE_CAPACITY: usize = 32;

/// A start, stop or update whose native work is still out.
#[derive(Clone, Copy, Debug, PartialEq, Eq, Structural)]
pub struct Pending {
    pub operation: OperationFence,
    /// The work was told to give up.
    pub cancelled: bool,
}

/// The state of the engine. `P` is the handle of a native peer, `R` the other native
/// handles of a session, `W` someone who waits for an answer.
pub struct EngineState<P, R, W> {
    pub capabilities: MediaCapabilities,
    pub actor: SessionActor,
    pub session: Option<SessionRecord<P, R>>,
    pub next_session_id: u64,
    pub detail: String,
    pub preview: PreviewState,
    /// A room on the rendezvous server was joined.
    pub viewer_attached: bool,
    pub pending_start: Option<Pending>,
    pub pending_share: Option<Pending>,
    pub pending_stop_operation: Option<OperationFence>,
    /// What is shown while the session is out with its native work.
    pub transition_snapshot: Option<MediaSessionSnapshot>,
    /// Who asked to stop while native work was out.
    pub stop_waiters: Vec<W>,
    /// Peers whose setup never ended.
    pub pending_peer_cleanup: Vec<P>,
}

/// What an [`EngineState`] holds.
#[verifier::ext_equal]
pub struct EngineModel<P, R, W> {
    pub capabilities: CapabilitiesModel,
    pub actor: ActorModel,
    pub session: Option<SessionModel<P, R>>,
    pub next_session_id: u64,
    pub detail: Seq<char>,
    pub preview: PreviewState,
    pub viewer_attached: bool,
    pub pending_start: Option<Pending>,
    pub pending_share: Option<Pending>,
    pub pending_stop_operation: Option<OperationFence>,
    pub transition: Option<SnapshotModel>,
    pub stop_waiters: Seq<W>,
    pub pending_peer_cleanup: Seq<P>,
}

/// What an optional snapshot shows.
pub open spec fn opt_snapshot(snapshot: Option<MediaSessionSnapshot>) -> Option<SnapshotModel> {
    match snapshot {
        Some(s) => Some(s@),
        None => None,
    }
}

/// What an optional error says.
pub open spec fn opt_error(error: Option<MediaEngineError>) -> Option<ErrorModel> {
    match error {
        Some(e) => Some(e@),
        None => None,
    }
}

impl<P, R, W> View for EngineState<P, R, W> {
    type V = EngineModel<P, R, W>;

    open spec fn view(&self) -> EngineModel<P, R, W> {
        EngineModel {
            capabilities: self.capabilities@,
            actor: self.actor@,
            session: opt_session(self.session),
            next_session_id: self.next_session_id,
            detail: self.detail@,
            preview: self.preview,
            viewer_attached: self.viewer_attached,
            pending_start: self.pending_start,
            pending_share: self.pending_share,
            pending_stop_operation: self.pending_stop_operation,
            transition: opt_snapshot(self.transition_snapshot),
            stop_waiters: self.stop_waiters@,
            pending_peer_cleanup: self.pending_peer_cleanup@,
        }
    }
}

/// A preview before the first session.
pub open spec fn preview_blank() -> PreviewState {
    PreviewState {
        latest: None,
        generation: 0,
        diagnostics: PreviewDiagnostics {
            callback_count: 0,
            frame_count: 0,
            dropped_count: 0,
            error: None,
        },
    }
}

/// A preview whose session begins.
pub open spec fn preview_begun(preview: PreviewState) -> PreviewState {
    PreviewState {
        latest: None,
        generation: next_generation(preview.generation),
        diagnostics: PreviewDiagnostics {
            callback_count: 0,
            frame_count: 0,
            dropped_count: 0,
            error: None,
        },
    }
}

/// The observation speaks of exactly the viewers of the session, if there is one, and of
/// the joined room, if there is one.
pub open spec fn fits<P, R, W>(observed: Observed, state: EngineModel<P, R, W>) -> bool {
    &&& state.session matches Some(session) ==> observed.peers@.len() == session.order.len()
    &&& (observed.viewer is Some) == state.viewer_attached
}

/// What is shown of the engine.
pub open spec fn snapshot_of<P, R, W>(
    state: EngineModel<P, R, W>,
    observed: Observed,
) -> SnapshotModel {
    match state.session {
        Some(session) => session_snapshot(
            session,
            state.actor.lifecycle,
            state.detail,
            observed,
        ),
        None => match state.transition {
            Some(snapshot) => snapshot,
            None => match observed.viewer {
                Some(viewer) => viewer_snapshot(state.detail, viewer),
                None => SnapshotModel {
                    state: state.actor.lifecycle,
                    ..idle_snapshot(state.detail)
                },
            },
        },
    }
}

/// What is shown while native work is out: what was shown before, in another state.
pub open spec fn in_transition<P, R, W>(
    state: EngineModel<P, R, W>,
    observed: Observed,
    lifecycle: MediaLifecycleState,
    detail: Seq<char>,
) -> SnapshotModel {
    SnapshotModel { state: lifecycle, detail, ..snapshot_of(state, observed) }
}

/// Whether a password has 4 to 64 characters.
pub open spec fn password_fits(password: Seq<char>) -> bool {
    4 <= password.len() <= 64
}

/// Whether a password has 4 to 64 characters, counted as Unicode code points.
pub fn valid_password(password: &str) -> (valid: bool)
    ensures
        valid == password_fits(password@),
{
    let len: usize = chars_of(password).len();
    4 <= len && len <= 64
}

/// Why the picture of a request cannot be sent.
pub open spec fn config_refusal(request: RequestModel) -> Option<ErrorModel> {
    if request.codec != VideoCodec::H264 {
        Some(ErrorModel::Unsupported("goDrinking requires H.264 Constrained Baseline."@))
    } else if request.frame_rate.spec_hertz() > 60 {
        Some(ErrorModel::Unsupported("frame rates above 60 fps are not supported."@))
    } else {
        None
    }
}

/// Refuses a request whose picture cannot be sent. Create, share and update share this
/// test.
pub fn validate_canonical_config(request: &CreateMediaSessionRequest) -> (result: Result<
    (),
    MediaEngineError,
>)
    ensures
        match config_refusal(request@) {
            None => result is Ok,
            Some(error) => result is Err && result->Err_0@ == error,
        },
{
    if request.codec != VideoCodec::H264 {
        return Err(
            MediaEngineError::Unsupported(
                "goDrinking requires H.264 Constrained Baseline.".to_owned(),
            ),
        );
    }
    if request.frame_rate.hertz() > 60 {
        return Err(
            MediaEngineError::Unsupported("frame rates above 60 fps are not supported.".to_owned()),
        );
    }
    Ok(())
}

/// Why a session cannot start.
pub open spec fn start_refusal(supported: bool, request: RequestModel) -> Option<ErrorModel> {
    if !supported {
        Some(ErrorModel::UnsupportedPlatform)
    } else if config_refusal(request) is Some {
        config_refusal(request)
    } else if !request.attach_only && request.join_mode == JoinMode::Stunar {
        if request.rendezvous_url is None {
            Some(ErrorModel::NativePeer("Set the Stunar URL in settings."@))
        } else if !password_fits(request.password) {
            Some(ErrorModel::NativePeer("Stunar requires a password (4-64 characters)."@))
        } else {
            None
        }
    } else {
        None
    }
}

/// Refuses a session that cannot start, before anything is acquired for it.
pub fn validate_start_config(supported: bool, request: &CreateMediaSessionRequest) -> (result:
    Result<(), MediaEngineError>)
    ensures
        match start_refusal(supported, request@) {
            None => result is Ok,
            Some(error) => result is Err && result->Err_0@ == error,
        },
{
    if !supported {
        return Err(MediaEngineError::UnsupportedPlatform);
    }
    match validate_canonical_config(request) {
        Ok(_) => {},
        Err(error) => {
            return Err(error);
        },
    }
    if !request.attach_only && request.join_mode == JoinMode::Stunar {
        if request.rendezvous_url.is_none() {
            return Err(
                MediaEngineError::NativePeer("Set the Stunar URL in settings.".to_owned()),
            );
        }
        if !valid_password(request.password.as_str()) {
            return Err(
                MediaEngineError::NativePeer(
                    "Stunar requires a password (4-64 characters).".to_owned(),
                ),
            );
        }
    }
    Ok(())
}

/// What an update leads to.
#[derive(Debug, PartialEq, Eq)]
pub struct UpdatePlan {
    pub next: CreateMediaSessionRequest,
    /// The share has to be stopped and started again.
    pub restart_share: bool,
}

/// The request of a session after an update.
pub open spec fn updated_request(
    current: RequestModel,
    update: UpdateMediaSessionRequest,
    source_id: SourceIdUpdate,
) -> RequestModel {
    RequestModel {
        source: match update.source {
            Some(source) => source,
            None => current.source,
        },
        source_id: match source_id {
            SourceIdUpdate::To(id) => Some(id),
            SourceIdUpdate::Clear => None,
            SourceIdUpdate::Unchanged => current.source_id,
        },
        resolution: match update.resolution {
            Some(resolution) => resolution,
            None => current.resolution,
        },
        frame_rate: match update.frame_rate {
            Some(frame_rate) => frame_rate,
            None => current.frame_rate,
        },
        quality: update.quality,
        bitrate_bps: update.bitrate_bps,
        min_bitrate_bps: update.min_bitrate_bps,
        system_audio: update.system_audio,
        excluded_apps: texts(update.excluded_apps@),
        codec: update.codec,
        encoder: update.encoder,
        ..current
    }
}

/// A change that the running capture or encoder cannot follow.
pub open spec fn needs_restart(current: RequestModel, next: RequestModel) -> bool {
    ||| next.source != current.source
    ||| next.source_id != current.source_id
    ||| next.resolution != current.resolution
    ||| next.frame_rate != current.frame_rate
    ||| next.codec != current.codec
    ||| next.encoder != current.encoder
}

fn same_source_id(a: Option<u64>, b: Option<u64>) -> (same: bool)
    ensures
        same == (a == b),
{
    match a {
        Some(x) => match b {
            Some(y) => x == y,
            None => false,
        },
        None => b.is_none(),
    }
}

fn candidate_request(
    current: &CreateMediaSessionRequest,
    update: &UpdateMediaSessionRequest,
    source_id_update: SourceIdUpdate,
) -> (next: CreateMediaSessionRequest)
    ensures
        next@ == updated_request(current@, *update, source_id_update),
{
    let mut next = current.clone();
    next.source = match update.source {
        Some(source) => source,
        None => current.source,
    };
    next.source_id = match source_id_update {
        SourceIdUpdate::To(id) => Some(id),
        SourceIdUpdate::Clear => None,
        SourceIdUpdate::Unchanged => current.source_id,
    };
    next.resolution = match update.resolution {
        Some(resolution) => resolution,
        None => current.resolution,
    };
    next.frame_rate = match update.frame_rate {
        Some(frame_rate) => frame_rate,
        None => current.frame_rate,
    };
    next.quality = update.quality;
    next.bitrate_bps = update.bitrate_bps;
    next.min_bitrate_bps = update.min_bitrate_bps;
    next.system_audio = update.system_audio;
    next.excluded_apps = copy_texts(&update.excluded_apps);
    next.codec = update.codec;
    next.encoder = update.encoder;
    next
}

fn restart_needed(current: &CreateMediaSessionRequest, next: &CreateMediaSessionRequest) -> (needed:
    bool)
    ensures
        needed == needs_restart(current@, next@),
{
    next.source != current.source || !same_source_id(next.source_id, current.source_id)
        || next.resolution != current.resolution || next.frame_rate != current.frame_rate
        || next.codec != current.codec || next.encoder != current.encoder
}

/// What an [`UpdatePlan`] holds.
pub struct PlanModel {
    pub next: RequestModel,
    pub restart_share: bool,
}

/// The plan of an update of a session that captures or not, or why there is none.
pub open spec fn update_plan(
    current: RequestModel,
    capturing: bool,
    update: UpdateMediaSessionRequest,
    source_id: SourceIdUpdate,
) -> Result<PlanModel, ErrorModel> {
    let next = updated_request(current, update, source_id);
    match config_refusal(next) {
        Some(error) => Err(error),
        None => Ok(PlanModel { next, restart_share: capturing && needs_restart(current, next) }),
    }
}

/// Plans an update: what the session is asked for afterwards, and whether a running
/// share has to be restarted for it.
pub fn build_update_plan<P, R>(
    session: &SessionRecord<P, R>,
    request: &UpdateMediaSessionRequest,
    source_id_update: SourceIdUpdate,
) -> (plan: Result<UpdatePlan, MediaEngineError>)
    ensures
        ({
            let next = updated_request(session@.request, *request, source_id_update);
            match config_refusal(next) {
                Some(error) => plan is Err && plan->Err_0@ == error,
                None => plan is Ok && plan->Ok_0.next@ == next && plan->Ok_0.restart_share == (
                session@.native_capture_active && needs_restart(session@.request, next)),
            }
        }),
        match update_plan(
            session@.request,
            session@.native_capture_active,
            *request,
            source_id_update,
        ) {
            Ok(model) => plan is Ok && plan->Ok_0.next@ == model.next && plan->Ok_0.restart_share
                == model.restart_share,
            Err(error) => plan is Err && plan->Err_0@ == error,
        },
{
    let next = candidate_request(&session.request, request, source_id_update);
    match validate_canonical_config(&next) {
        Ok(_) => {},
        Err(error) => {
            return Err(error);
        },
    }
    let restart_share: bool = session.native_capture_active && restart_needed(
        &session.request,
        &next,
    );
    Ok(UpdatePlan { next, restart_share })
}

/// The actor once a session's start is reserved, with or without a share.
pub open spec fn start_begun(actor: ActorModel, share: bool) -> ActorModel {
    if share {
        actor.begin_session().begin_share()
    } else {
        actor.begin_session()
    }
}

/// Why a session cannot be started now.
pub open spec fn launch_refusal<P, R, W>(
    state: EngineModel<P, R, W>,
    request: RequestModel,
) -> Option<ErrorModel> {
    if start_refusal(state.capabilities.supported, request) is Some {
        start_refusal(state.capabilities.supported, request)
    } else if state.session is Some || state.pending_start is Some || state.pending_share is Some
        || state.actor.lifecycle != MediaLifecycleState::Idle {
        Some(ErrorModel::SessionAlreadyActive)
    } else {
        None
    }
}

/// The state once a session's start is reserved.
pub open spec fn start_launched<P, R, W>(
    state: EngineModel<P, R, W>,
    share: bool,
) -> EngineModel<P, R, W> {
    let actor = start_begun(state.actor, share);
    let fence = actor.next_operation_fence(actor.fence(None), OperationKind::StartSession);
    EngineModel {
        actor: actor.reserve_operation_kind(actor.fence(None), OperationKind::StartSession),
        next_session_id: crate::control_plane::next_of(state.next_session_id),
        preview: preview_begun(state.preview),
        pending_start: Some(Pending { operation: fence, cancelled: false }),
        ..state
    }
}

/// The reserved start of a session.
#[derive(Debug, PartialEq, Eq)]
pub struct StartTicket {
    pub operation: OperationFence,
    pub session_epoch: SessionEpoch,
    pub share_epoch: ShareEpoch,
    pub id: String,
}

impl<P, R, W> EngineState<P, R, W> {
    /// Epochs and viewers are well formed.
    pub open spec fn wf(&self) -> bool {
        &&& self.actor@.wf()
        &&& self.session matches Some(session) ==> session.wf()
    }

    /// An engine without a session.
    pub fn new(capabilities: MediaCapabilities) -> (state: Self)
        ensures
            state.wf(),
            state@.capabilities == capabilities@,
            state@.actor == crate::control_plane::idle_actor(),
            state@.session is None,
            state@.next_session_id == 1,
            state@.detail == if capabilities.supported {
                "Ready; native capture, VideoToolbox H.264 encoding, and local-only WebRTC peer transport are available."@
            } else {
                "Native media is unsupported; WebView capture remains active."@
            },
            state@.preview == preview_blank(),
            !state@.viewer_attached,
            state@.pending_start is None,
            state@.pending_share is None,
            state@.pending_stop_operation is None,
            state@.transition is None,
            state@.stop_waiters == Seq::<W>::empty(),
            state@.pending_peer_cleanup == Seq::<P>::empty(),
    {
        let detail: &str = if capabilities.supported {
            "Ready; native capture, VideoToolbox H.264 encoding, and local-only WebRTC peer transport are available."
        } else {
            "Native media is unsupported; WebView capture remains active."
        };
        EngineState {
            capabilities,
            actor: SessionActor::new(),
            session: None,
            next_session_id: 1,
            detail: detail.to_owned(),
            preview: PreviewState::new(),
            viewer_attached: false,
            pending_start: None,
            pending_share: None,
            pending_stop_operation: None,
            transition_snapshot: None,
            stop_waiters: Vec::new(),
            pending_peer_cleanup: Vec::new(),
        }
    }

    /// Shows the engine. Looking changes nothing.
    pub fn snapshot_from_state(&self, observed: &Observed) -> (snapshot: MediaSessionSnapshot)
        requires
            self.wf(),
            fits(*observed, self@),
        ensures
            snapshot@ == snapshot_of(self@, *observed),
    {
        match &self.session {
            Some(session) => show_session(
                session,
                self.actor.lifecycle(),
                self.detail.as_str(),
                observed,
            ),
            None => match &self.transition_snapshot {
                Some(snapshot) => snapshot.clone(),
                None => match &observed.viewer {
                    Some(viewer) => show_viewer(self.detail.as_str(), viewer),
                    None => {
                        let mut snapshot = MediaSessionSnapshot::idle(self.detail.as_str());
                        snapshot.state = self.actor.lifecycle();
                        snapshot
                    },
                },
            },
        }
    }

    /// What is shown while native work is out.
    pub fn transition_for(
        &self,
        observed: &Observed,
        lifecycle: MediaLifecycleState,
        detail: &str,
    ) -> (snapshot: MediaSessionSnapshot)
        requires
            self.wf(),
            fits(*observed, self@),
        ensures
            snapshot@ == in_transition(self@, *observed, lifecycle, detail@),
    {
        let mut snapshot = self.snapshot_from_state(observed);
        snapshot.state = lifecycle;
        snapshot.detail = detail.to_owned();
        snapshot
    }

    /// Puts a session in its place.
    pub fn put_session(&mut self, session: SessionRecord<P, R>)
        requires
            old(self).wf(),
            session.wf(),
        ensures
            final(self).wf(),
            final(self)@ == (EngineModel { session: Some(session@), ..old(self)@ }),
    {
        self.session = Some(session);
    }

    /// Notes where the engine stands and what is said of it.
    pub fn note(&mut self, lifecycle: MediaLifecycleState, detail: String)
        requires
            old(self).wf(),
        ensures
            final(self).wf(),
            final(self)@ == (EngineModel {
                actor: old(self)@.actor.with_lifecycle(lifecycle),
                detail: detail@,
                ..old(self)@
            }),
    {
        self.actor.set_lifecycle(lifecycle);
        self.detail = detail;
        assert(self.actor@.wf());
    }

    /// The preview of a new session or share begins.
    pub fn begin_preview(&mut self)
        requires
            old(self).wf(),
        ensures
            final(self).wf(),
            final(self)@ == (EngineModel {
                preview: preview_begun(old(self)@.preview),
                ..old(self)@
            }),
    {
        self.preview.begin_session();
        assert(self.preview == preview_begun(old(self).preview));
    }

    /// Reserves the start of a session. Nothing is reserved for a request that is not
    /// valid, nor while another session is there or on its way.
    pub fn launch_start_session(&mut self, request: &CreateMediaSessionRequest) -> (ticket: Result<
        StartTicket,
        MediaEngineError,
    >)
        requires
            old(self).wf(),
        ensures
            final(self).wf(),
            match launch_refusal(old(self)@, request@) {
                Some(error) => ticket is Err && ticket->Err_0@ == error && final(self)@
                    == old(self)@,
                None => {
                    &&& ticket is Ok
                    &&& final(self)@ == start_launched(old(self)@, request.share_on_start)
                    &&& final(self)@.pending_start == Some(
                        (Pending { operation: ticket->Ok_0.operation, cancelled: false }),
                    )
                    &&& ticket->Ok_0.session_epoch == final(self)@.actor.session_epoch
                    &&& ticket->Ok_0.share_epoch == final(self)@.actor.share_epoch
                    &&& ticket->Ok_0.id@ == "native-"@ + decimal(old(self).next_session_id as nat)
                },
            },
    {
        match validate_start_config(self.capabilities.supported, request) {
            Ok(_) => {},
            Err(error) => {
                return Err(error);
            },
        }
        if self.session.is_some() || self.pending_start.is_some() || self.pending_share.is_some()
            || self.actor.lifecycle() != MediaLifecycleState::Idle {
            return Err(MediaEngineError::SessionAlreadyActive);
        }
        let session_epoch = self.actor.begin_session();
        if request.share_on_start {
            let _ = self.actor.begin_share();
        }
        let epoch = self.actor.fence(None);
        let operation = self.actor.reserve_operation_kind(epoch, OperationKind::StartSession);
        let mut id = "native-".to_owned();
        push_decimal(&mut id, self.next_session_id);
        if self.next_session_id < u64::MAX {
            self.next_session_id = self.next_session_id + 1;
        }
        self.pending_start = Some(Pending { operation, cancelled: false });
        self.preview.begin_session();
        assert(self.preview == preview_begun(old(self).preview));
        assert(self@ =~= start_launched(old(self)@, request.share_on_start));
        Ok(StartTicket { operation, session_epoch, share_epoch: self.actor.share_epoch(), id })
    }

    /// The native work of a start could not be handed out.
    pub fn start_not_spawned(&mut self)
        requires
            old(self).wf(),
        ensures
            final(self).wf(),
            final(self)@ == (EngineModel {
                pending_start: None,
                actor: old(self)@.actor.invalidate_session().with_lifecycle(
                    MediaLifecycleState::Idle,
                ),
                ..old(self)@
            }),
    {
        self.pending_start = None;
        let _ = self.actor.invalidate_session();
        self.actor.set_lifecycle(MediaLifecycleState::Idle);
        assert(self.actor@.wf());
    }

    /// The completion of a start could not be delivered: the session is kept for cleanup.
    pub fn start_not_delivered(&mut self, result: Result<SessionRecord<P, R>, MediaEngineError>)
        requires
            old(self).wf(),
            result matches Ok(session) ==> session.wf(),
        ensures
            final(self).wf(),
            match result {
                Ok(session) => final(self)@ == (EngineModel {
                    session: Some(session@),
                    actor: old(self)@.actor.with_lifecycle(MediaLifecycleState::CleanupPending),
                    detail: "Session start completion could not reach actor."@,
                    ..old(self)@
                }),
                Err(error) => final(self)@ == (EngineModel {
                    actor: old(self)@.actor.with_lifecycle(MediaLifecycleState::Idle),
                    detail: "Session start failed: "@ + error@.message(),
                    ..old(self)@
                }),
            },
    {
        match result {
            Ok(session) => {
                self.session = Some(session);
                self.actor.set_lifecycle(MediaLifecycleState::CleanupPending);
                self.detail = "Session start completion could not reach actor.".to_owned();
            },
            Err(error) => {
                self.actor.set_lifecycle(MediaLifecycleState::Idle);
                let mut detail = "Session start failed: ".to_owned();
                push_text(&mut detail, error.message().as_str());
                self.detail = detail;
            },
        }
    }
}

/// A running capture always shows what the session is asked for: a plan that does not
/// restart the share of a capturing session leaves each of source, source id, resolution,
/// frame rate, codec and encoder as it is. A share is restarted only where one of them
/// changes and something is captured.
pub proof fn law_capture_follows_the_request(
    current: RequestModel,
    capturing: bool,
    update: UpdateMediaSessionRequest,
    source_id: SourceIdUpdate,
)
    ensures
        update_plan(current, capturing, update, source_id) matches Ok(plan) ==> {
            &&& capturing && !plan.restart_share ==> plan.next.source == current.source
            &&& capturing && !plan.restart_share ==> plan.next.source_id == current.source_id
            &&& capturing && !plan.restart_share ==> plan.next.resolution == current.resolution
            &&& capturing && !plan.restart_share ==> plan.next.frame_rate == current.frame_rate
            &&& capturing && !plan.restart_share ==> plan.next.codec == current.codec
            &&& capturing && !plan.restart_share ==> plan.next.encoder == current.encoder
            &&& plan.restart_share ==> capturing
            &&& plan.restart_share ==> plan.next.source != current.source || plan.next.source_id
                != current.source_id || plan.next.resolution != current.resolution
                || plan.next.frame_rate != current.frame_rate || plan.next.codec != current.codec
                || plan.next.encoder != current.encoder
        },
        update_plan(current, capturing, update, source_id) matches Ok(plan) ==> {
            &&& (source_id matches SourceIdUpdate::To(id) ==> capturing && current.source_id
                != Some(id) ==> plan.restart_share)
            &&& capturing && source_id == SourceIdUpdate::Clear && current.source_id is Some
                ==> plan.restart_share
            &&& capturing && update.source is Some && update.source->0 != current.source
                ==> plan.restart_share
            &&& capturing && update.resolution is Some && update.resolution->0
                != current.resolution ==> plan.restart_share
            &&& capturing && update.frame_rate is Some && update.frame_rate->0
                != current.frame_rate ==> plan.restart_share
            &&& capturing && update.codec != current.codec ==> plan.restart_share
            &&& capturing && update.encoder != current.encoder ==> plan.restart_share
        },
{
}

/// An update changes what it names and nothing else: what it leaves open stays as it was,
/// and the room of the session is not touched.
pub proof fn law_update_changes_what_it_names(
    current: RequestModel,
    capturing: bool,
    update: UpdateMediaSessionRequest,
    source_id: SourceIdUpdate,
)
    ensures
        update_plan(current, capturing, update, source_id) matches Ok(plan) ==> {
            &&& update.source is Some ==> plan.next.source == update.source->0
            &&& update.source is None ==> plan.next.source == current.source
            &&& update.resolution is Some ==> plan.next.resolution == update.resolution->0
            &&& update.resolution is None ==> plan.next.resolution == current.resolution
            &&& update.frame_rate is Some ==> plan.next.frame_rate == update.frame_rate->0
            &&& update.frame_rate is None ==> plan.next.frame_rate == current.frame_rate
            &&& source_id == SourceIdUpdate::Unchanged ==> plan.next.source_id == current.source_id
            &&& source_id == SourceIdUpdate::Clear ==> plan.next.source_id is None
            &&& source_id matches SourceIdUpdate::To(id) ==> plan.next.source_id == Some(id)
            &&& plan.next.quality == update.quality
            &&& plan.next.bitrate_bps == update.bitrate_bps
            &&& plan.next.min_bitrate_bps == update.min_bitrate_bps
            &&& plan.next.system_audio == update.system_audio
            &&& plan.next.codec == update.codec
            &&& plan.next.encoder == update.encoder
            &&& plan.next.excluded_apps.len() == update.excluded_apps@.len()
            &&& forall|i: int|
                0 <= i < plan.next.excluded_apps.len() ==> #[trigger] plan.next.excluded_apps[i]
                    == update.excluded_apps@[i]@
            &&& plan.next.password == current.password
            &&& plan.next.nickname == current.nickname
            &&& plan.next.admission == current.admission
            &&& plan.next.join_mode == current.join_mode
            &&& plan.next.rendezvous_url == current.rendezvous_url
            &&& plan.next.session_mode == current.session_mode
            &&& plan.next.attach_only == current.attach_only
            &&& plan.next.share_on_start == current.share_on_start
        },
{
}

/// Exactly H.264 at no more than 60 frames per second is accepted, at the start and in every
/// update.
pub proof fn law_only_h264_up_to_sixty(
    request: RequestModel,
    current: RequestModel,
    capturing: bool,
    update: UpdateMediaSessionRequest,
    source_id: SourceIdUpdate,
)
    ensures
        config_refusal(request) is None <==> request.codec == VideoCodec::H264 && (
        request.frame_rate == crate::types::FrameRate::Fps30 || request.frame_rate
            == crate::types::FrameRate::Fps60),
        update_plan(current, capturing, update, source_id) matches Ok(plan) ==> plan.next.codec
            == VideoCodec::H264 && plan.next.frame_rate != crate::types::FrameRate::Fps120,
        update.codec != VideoCodec::H264 ==> update_plan(current, capturing, update, source_id)
            is Err,
        update.frame_rate == Some(crate::types::FrameRate::Fps120) ==> update_plan(
            current,
            capturing,
            update,
            source_id,
        ) is Err,
        update.codec == VideoCodec::H264 && (update.frame_rate == Some(
            crate::types::FrameRate::Fps30,
        ) || update.frame_rate == Some(crate::types::FrameRate::Fps60)) ==> update_plan(
            current,
            capturing,
            update,
            source_id,
        ) is Ok,
{
}

/// A start is refused on a platform that is not supported, for a picture that cannot be
/// sent, and for a room on the server without its address or with a password of fewer than
/// four or more than 64 characters; no other request is.
pub proof fn law_start_needs_its_settings(supported: bool, request: RequestModel)
    ensures
        start_refusal(supported, request) is None <==> {
            &&& supported
            &&& config_refusal(request) is None
            &&& request.attach_only || request.join_mode != JoinMode::Stunar || (
            request.rendezvous_url is Some && request.password.len() > 3 && request.password.len()
                < 65)
        },
        !supported ==> start_refusal(supported, request) == Some(ErrorModel::UnsupportedPlatform),
{
}

/// One session at a time: a start is reserved exactly where the request is valid and neither
/// a session nor a start nor a share is there or on its way. It has fresh epochs, its own
/// operation, and a preview without anything of the last session.
pub proof fn law_one_session_at_a_time<P, R, W>(
    state: EngineModel<P, R, W>,
    request: RequestModel,
    share: bool,
)
    requires
        state.actor.wf(),
        state.actor.next_session < u64::MAX,
        state.actor.next_share < u64::MAX,
        state.actor.next_operation < u64::MAX,
        state.next_session_id < u64::MAX,
    ensures
        launch_refusal(state, request) is None ==> state.session is None && state.pending_start
            is None && state.pending_share is None && state.actor.lifecycle
            == MediaLifecycleState::Idle && start_refusal(state.capabilities.supported, request)
            is None,
        start_refusal(state.capabilities.supported, request) is None && state.session is None
            && state.pending_start is None && state.pending_share is None && state.actor.lifecycle
            == MediaLifecycleState::Idle ==> launch_refusal(state, request) is None,
        ({
            let after = start_launched(state, share);
            &&& after.pending_start is Some
            &&& !after.pending_start->0.cancelled
            &&& after.actor.accepts_operation_kind(
                after.pending_start->0.operation,
                OperationKind::StartSession,
            )
            &&& after.actor.session_epoch.0 > state.actor.session_epoch.0
            &&& after.actor.session_epoch.0 > state.actor.next_session
            &&& share ==> after.actor.share_epoch.0 > state.actor.next_share
            &&& !share ==> after.actor.share_epoch.0 == 0
            &&& after.actor.lifecycle == MediaLifecycleState::Starting
            &&& after.next_session_id > state.next_session_id
            &&& after.preview.latest is None
            &&& after.preview.generation != state.preview.generation
            &&& after.preview.diagnostics.frame_count == 0
            &&& after.preview.diagnostics.error is None
            &&& launch_refusal(after, request) is Some
            &&& after.session == state.session
            &&& after.viewer_attached == state.viewer_attached
            &&& after.stop_waiters == state.stop_waiters
            &&& after.pending_peer_cleanup == state.pending_peer_cleanup
            &&& after.capabilities == state.capabilities
        }),
{
}

/// What is shown of the engine is the session where there is one, the last picture of it
/// while it is out, the joined room where there is only that, and nothing otherwise. While
/// work is out only the state and the text differ.
pub proof fn law_snapshot_shows_what_there_is<P, R, W>(
    state: EngineModel<P, R, W>,
    observed: Observed,
    lifecycle: MediaLifecycleState,
    detail: Seq<char>,
)
    ensures
        state.session is Some ==> snapshot_of(state, observed) == session_snapshot(
            state.session->0,
            state.actor.lifecycle,
            state.detail,
            observed,
        ),
        state.session is None && state.transition is Some ==> snapshot_of(state, observed)
            == state.transition->0,
        state.session is None && state.transition is None && observed.viewer is None
            ==> snapshot_of(state, observed).state == state.actor.lifecycle && snapshot_of(
            state,
            observed,
        ).session_id is None && snapshot_of(state, observed).detail == state.detail,
        in_transition(state, observed, lifecycle, detail).state == lifecycle,
        in_transition(state, observed, lifecycle, detail).detail == detail,
        in_transition(state, observed, lifecycle, detail).session_id == snapshot_of(
            state,
            observed,
        ).session_id,
        in_transition(state, observed, lifecycle, detail).roster == snapshot_of(
            state,
            observed,
        ).roster,
{
}

} // verus!
