//! Share, update and stop commands of the engine, and the completions of the native work
//! that they hand out.

use vstd::prelude::*;
use crate::control_plane::{ActorModel, OperationFence, OperationKind};
use crate::engine::{
    build_update_plan, config_refusal, fits, in_transition, needs_restart, opt_error, preview_begun,
    updated_request, EngineModel, EngineState, Pending, UpdatePlan,
};
use crate::engine_error::{ErrorModel, MediaEngineError};
use crate::session::{opt_session, SessionModel, SessionRecord};
use crate::snapshot::Observed;
use crate::text::{decimal, push_decimal, push_text};
use crate::types::{MediaLifecycleState, SourceIdUpdate, UpdateMediaSessionRequest};

verus! {

/// The state while a share starts: the session is out.
pub open spec fn share_launched<P, R, W>(
    state: EngineModel<P, R, W>,
    observed: Observed,
) -> EngineModel<P, R, W> {
    let actor = state.actor.with_lifecycle(MediaLifecycleState::Starting);
    let fence = actor.begin_share().next_operation_fence(
        actor.begin_share().fence(None),
        OperationKind::StartShare,
    );
    EngineModel {
        session: None,
        actor: actor.reserve_start_share(),
        pending_share: Some(Pending { operation: fence, cancelled: false }),
        transition: Some(
            in_transition(
                state,
                observed,
                MediaLifecycleState::Starting,
                "Share start is acquiring capture resources."@,
            ),
        ),
        ..state
    }
}

/// The state while a share stops: its links and offers are void, the session is out.
pub open spec fn stop_share_launched<P, R, W>(
    state: EngineModel<P, R, W>,
    observed: Observed,
) -> EngineModel<P, R, W> {
    let actor = state.actor.end_share().with_lifecycle(MediaLifecycleState::Stopping);
    let fence = actor.next_operation_fence(actor.fence(None), OperationKind::StopShare);
    EngineModel {
        session: None,
        actor: actor.reserve_operation_kind(actor.fence(None), OperationKind::StopShare),
        pending_share: Some(Pending { operation: fence, cancelled: false }),
        preview: preview_begun(state.preview),
        transition: Some(
            in_transition(
                state,
                observed,
                MediaLifecycleState::Stopping,
                "Share cleanup is waiting for workers to quiesce."@,
            ),
        ),
        ..state
    }
}

/// The state while a session is updated: the session is out, and a share that restarts
/// has a new epoch.
pub open spec fn update_launched<P, R, W>(
    state: EngineModel<P, R, W>,
    restart: bool,
    observed: Observed,
) -> EngineModel<P, R, W> {
    let actor = if restart {
        state.actor.end_share().begin_share()
    } else {
        state.actor
    };
    let fence = actor.next_operation_fence(actor.fence(None), OperationKind::UpdateSession);
    EngineModel {
        session: None,
        actor: actor.reserve_operation_kind(actor.fence(None), OperationKind::UpdateSession),
        pending_share: Some(Pending { operation: fence, cancelled: false }),
        preview: if restart {
            preview_begun(state.preview)
        } else {
            state.preview
        },
        transition: Some(
            in_transition(
                state,
                observed,
                MediaLifecycleState::Starting,
                "Session update is acquiring the requested resources."@,
            ),
        ),
        ..state
    }
}

/// Why a session cannot be updated now.
pub open spec fn update_refusal<P, R, W>(
    state: EngineModel<P, R, W>,
    request: UpdateMediaSessionRequest,
    source_id: SourceIdUpdate,
) -> Option<ErrorModel> {
    match state.session {
        None => Some(ErrorModel::NoActiveSession),
        Some(session) => {
            let next = updated_request(session.request, request, source_id);
            if config_refusal(next) is Some {
                config_refusal(next)
            } else if state.pending_start is Some || state.pending_share is Some {
                Some(ErrorModel::SessionAlreadyActive)
            } else {
                None
            }
        },
    }
}

/// What a request to stop leads to.
pub enum StopStep<P, R, W> {
    /// Native work is out and was told to give up: the answer comes with its completion.
    Waiting,
    /// There is nothing to stop.
    Rejected(W),
    /// The session is handed out for cleanup.
    Cleanup { fence: OperationFence, session: SessionRecord<P, R>, waiter: W },
}

/// The state once a session is on its way to be cleaned up.
pub open spec fn stop_launched<P, R, W>(
    state: EngineModel<P, R, W>,
    observed: Observed,
) -> EngineModel<P, R, W> {
    let actor = state.actor.invalidate_session();
    let fence = actor.next_operation_fence(actor.fence(None), OperationKind::StopSession);
    EngineModel {
        session: None,
        actor: actor.reserve_operation_kind(actor.fence(None), OperationKind::StopSession),
        pending_stop_operation: Some(fence),
        transition: Some(
            in_transition(
                state,
                observed,
                MediaLifecycleState::Stopping,
                "Session cleanup is waiting for resources to quiesce."@,
            ),
        ),
        ..state
    }
}

/// Pending work that was told to give up.
pub open spec fn cancelled(pending: Option<Pending>) -> Option<Pending> {
    match pending {
        Some(p) => Some(Pending { cancelled: true, ..p }),
        None => None,
    }
}

/// The state once a stop was asked for.
pub open spec fn stop_asked<P, R, W>(
    state: EngineModel<P, R, W>,
    waiter: W,
    observed: Observed,
) -> EngineModel<P, R, W> {
    if state.pending_start is Some {
        EngineModel {
            pending_start: cancelled(state.pending_start),
            actor: state.actor.invalidate_session(),
            stop_waiters: state.stop_waiters.push(waiter),
            ..state
        }
    } else if state.pending_share is Some {
        EngineModel {
            pending_share: cancelled(state.pending_share),
            actor: state.actor.invalidate_session(),
            stop_waiters: state.stop_waiters.push(waiter),
            ..state
        }
    } else if state.session is None {
        state
    } else {
        stop_launched(state, observed)
    }
}

/// The state once the peers that still did not end were taken back.
pub open spec fn peers_retained<P, R, W>(state: EngineModel<P, R, W>, peers: Seq<P>) -> EngineModel<
    P,
    R,
    W,
> {
    let kept = state.pending_peer_cleanup + peers;
    if kept.len() == 0 && state.session is None && state.actor.lifecycle
        == MediaLifecycleState::CleanupPending {
        EngineModel {
            actor: state.actor.with_lifecycle(MediaLifecycleState::Idle),
            detail: "Deferred peer cleanup completed; resources quiescent."@,
            pending_peer_cleanup: kept,
            ..state
        }
    } else {
        EngineModel { pending_peer_cleanup: kept, ..state }
    }
}

/// The outcome of cleaning a session up: nothing, or what is left and why.
pub struct CleanupBundle<P, R> {
    pub session: Option<SessionRecord<P, R>>,
    pub error: Option<MediaEngineError>,
}

/// A session whose native work came back too late: it is handed out again, for cleanup,
/// with those who wait for the stop.
pub struct StaleBundle<P, R, W> {
    pub fence: OperationFence,
    pub session: SessionRecord<P, R>,
    pub waiters: Vec<W>,
}

/// What follows a completion.
pub struct CompletionEffect<P, R, W> {
    /// What the command is answered: an error, or the engine as it is then shown.
    pub error: Option<MediaEngineError>,
    /// Those who wait for a stop and are answered now.
    pub waiters: Vec<W>,
    /// What they are answered: an error, or the engine as it is then shown.
    pub waiters_error: Option<MediaEngineError>,
    pub stale: Option<StaleBundle<P, R, W>>,
    /// What is released at once.
    pub released: Option<SessionRecord<P, R>>,
    /// The joined room is told that the share is over.
    pub share_stopped: bool,
}

/// What a [`CompletionEffect`] holds.
#[verifier::ext_equal]
pub struct EffectModel<P, R, W> {
    pub error: Option<ErrorModel>,
    pub waiters: Seq<W>,
    pub waiters_error: Option<ErrorModel>,
    pub stale: Option<(OperationFence, SessionModel<P, R>, Seq<W>)>,
    pub released: Option<SessionModel<P, R>>,
    pub share_stopped: bool,
}

impl<P, R, W> View for CompletionEffect<P, R, W> {
    type V = EffectModel<P, R, W>;

    open spec fn view(&self) -> EffectModel<P, R, W> {
        EffectModel {
            error: opt_error(self.error),
            waiters: self.waiters@,
            waiters_error: opt_error(self.waiters_error),
            stale: match self.stale {
                Some(bundle) => Some((bundle.fence, bundle.session@, bundle.waiters@)),
                None => None,
            },
            released: opt_session(self.released),
            share_stopped: self.share_stopped,
        }
    }
}

/// An effect that answers the command and nobody else.
pub open spec fn answered<P, R, W>(error: Option<ErrorModel>) -> EffectModel<P, R, W> {
    EffectModel {
        error,
        waiters: Seq::empty(),
        waiters_error: None,
        stale: None,
        released: None,
        share_stopped: false,
    }
}

fn answer<P, R, W>(error: Option<MediaEngineError>) -> (effect: CompletionEffect<P, R, W>)
    ensures
        effect@ == answered::<P, R, W>(opt_error(error)),
{
    let effect = CompletionEffect {
        error,
        waiters: Vec::new(),
        waiters_error: None,
        stale: None,
        released: None,
        share_stopped: false,
    };
    assert(effect@ =~= answered::<P, R, W>(opt_error(error)));
    effect
}

/// The texts that tell the kinds of late share work apart.
pub struct StaleTexts {
    /// What is shown while what came back is cleaned up.
    pub transition: Seq<char>,
    /// What is shown where nothing came back.
    pub idle: Seq<char>,
    /// What the command is answered.
    pub error: Seq<char>,
}

/// Late work: what came back goes into cleanup with those who wait for the stop; where
/// nothing came back they are answered at once.
pub open spec fn came_late<P, R, W>(
    settled: EngineModel<P, R, W>,
    session: Option<SessionModel<P, R>>,
    observed: Observed,
    words: StaleTexts,
) -> (EngineModel<P, R, W>, EffectModel<P, R, W>) {
    let error = Some(ErrorModel::NativeCapture(words.error));
    match session {
        Some(found) => {
            let actor = settled.actor.with_lifecycle(MediaLifecycleState::Stopping);
            let fence = actor.next_operation_fence(actor.fence(None), OperationKind::StopSession);
            (
                EngineModel {
                    actor: actor.reserve_operation_kind(
                        actor.fence(None),
                        OperationKind::StopSession,
                    ),
                    pending_stop_operation: Some(fence),
                    transition: Some(
                        in_transition(
                            EngineModel { stop_waiters: Seq::empty(), ..settled },
                            observed,
                            MediaLifecycleState::Stopping,
                            words.transition,
                        ),
                    ),
                    stop_waiters: Seq::empty(),
                    ..settled
                },
                EffectModel { stale: Some((fence, found, settled.stop_waiters)), ..answered(error) },
            )
        },
        None => (
            EngineModel {
                actor: settled.actor.with_lifecycle(MediaLifecycleState::Idle),
                detail: words.idle,
                stop_waiters: Seq::empty(),
                ..settled
            },
            EffectModel { waiters: settled.stop_waiters, ..answered(error) },
        ),
    }
}

/// A completion counts: it is the one that is waited for, and no session or share began
/// or ended meanwhile.
pub open spec fn is_live(
    actor: ActorModel,
    awaited: Option<OperationFence>,
    fence: OperationFence,
    kind: OperationKind,
) -> bool {
    awaited == Some(fence) && actor.accepts_operation_kind(fence, kind)
}

/// The operation of pending work.
pub open spec fn awaited(pending: Option<Pending>) -> Option<OperationFence> {
    match pending {
        Some(p) => Some(p.operation),
        None => None,
    }
}

/// The state once the start of a session has reported back.
pub open spec fn start_settled<P, R, W>(
    state: EngineModel<P, R, W>,
    fence: OperationFence,
) -> EngineModel<P, R, W> {
    EngineModel {
        pending_start: None,
        transition: None,
        actor: state.actor.retire_operation(fence.operation),
        ..state
    }
}

/// The state once share work has reported back.
pub open spec fn share_settled<P, R, W>(
    state: EngineModel<P, R, W>,
    fence: OperationFence,
) -> EngineModel<P, R, W> {
    EngineModel {
        pending_share: None,
        transition: None,
        actor: state.actor.retire_operation(fence.operation),
        ..state
    }
}

/// The state once a cleanup has reported back.
pub open spec fn stop_settled<P, R, W>(
    state: EngineModel<P, R, W>,
    fence: OperationFence,
) -> EngineModel<P, R, W> {
    EngineModel {
        pending_stop_operation: None,
        transition: None,
        actor: state.actor.retire_operation(fence.operation),
        ..state
    }
}

/// The state with a session in the given lifecycle.
pub open spec fn settled_as<P, R, W>(
    state: EngineModel<P, R, W>,
    session: Option<SessionModel<P, R>>,
    lifecycle: MediaLifecycleState,
    detail: Seq<char>,
) -> EngineModel<P, R, W> {
    EngineModel { session, actor: state.actor.with_lifecycle(lifecycle), detail, ..state }
}

/// The texts of a start that came late.
pub open spec fn late_start() -> StaleTexts {
    StaleTexts {
        transition: "Stale session start is cleaning up provisional resources."@,
        idle: "Session start cancelled; resources released."@,
        error: "session start completion became stale"@,
    }
}

/// The texts of a share start that came late.
pub open spec fn late_share() -> StaleTexts {
    StaleTexts {
        transition: "Stale Share start is cleaning up provisional resources."@,
        idle: "Share start cancelled; resources released."@,
        error: "share start completion became stale"@,
    }
}

/// The texts of a share stop that came late.
pub open spec fn late_stop_share() -> StaleTexts {
    StaleTexts {
        transition: "Stale Share cleanup is entering full session cleanup."@,
        idle: "Share cleanup cancelled; resources released."@,
        error: "share cleanup completion became stale"@,
    }
}

/// The texts of an update that came late.
pub open spec fn late_update() -> StaleTexts {
    StaleTexts {
        transition: "Stale Share update is cleaning up provisional resources."@,
        idle: "Session update cancelled; resources released."@,
        error: "session update completion became stale"@,
    }
}

/// What a result holds.
pub open spec fn result_model<P, R>(
    result: Result<SessionRecord<P, R>, MediaEngineError>,
) -> Result<SessionModel<P, R>, ErrorModel> {
    match result {
        Ok(session) => Ok(session@),
        Err(error) => Err(error@),
    }
}

/// The session of a result.
pub open spec fn result_session<P, R>(result: Result<SessionModel<P, R>, ErrorModel>) -> Option<
    SessionModel<P, R>,
> {
    match result {
        Ok(session) => Some(session),
        Err(_) => None,
    }
}

/// The end of a session's start.
pub open spec fn start_completed<P, R, W>(
    state: EngineModel<P, R, W>,
    fence: OperationFence,
    result: Result<SessionModel<P, R>, ErrorModel>,
    detail: Seq<char>,
    observed: Observed,
) -> (EngineModel<P, R, W>, EffectModel<P, R, W>) {
    let settled = start_settled(state, fence);
    if is_live(state.actor, awaited(state.pending_start), fence, OperationKind::StartSession) {
        match result {
            Ok(session) => (
                settled_as(settled, Some(session), MediaLifecycleState::Running, detail),
                answered(None),
            ),
            Err(error) => (
                settled_as(
                    settled,
                    settled.session,
                    MediaLifecycleState::Idle,
                    "Session start failed: "@ + error.message(),
                ),
                answered(Some(error)),
            ),
        }
    } else if state.pending_peer_cleanup.len() > 0 {
        (
            settled_as(
                settled,
                settled.session,
                MediaLifecycleState::CleanupPending,
                "Session stopped; deferred peer cleanup is pending."@,
            ),
            EffectModel {
                released: result_session(result),
                ..answered(
                    Some(ErrorModel::NativePeer("peer initialization cleanup is pending"@)),
                )
            },
        )
    } else {
        came_late(settled, result_session(result), observed, late_start())
    }
}

/// The end of a share's start.
pub open spec fn share_completed<P, R, W>(
    state: EngineModel<P, R, W>,
    fence: OperationFence,
    session: Option<SessionModel<P, R>>,
    error: Option<ErrorModel>,
    detail: Seq<char>,
    observed: Observed,
) -> (EngineModel<P, R, W>, EffectModel<P, R, W>) {
    let settled = share_settled(state, fence);
    if !is_live(state.actor, awaited(state.pending_share), fence, OperationKind::StartShare) {
        came_late(settled, session, observed, late_share())
    } else if error is Some {
        (
            settled_as(
                settled,
                session,
                MediaLifecycleState::Running,
                "Share start failed: "@ + error->0.message(),
            ),
            answered(error),
        )
    } else if session is Some {
        (settled_as(settled, session, MediaLifecycleState::Running, detail), answered(None))
    } else {
        (
            settled_as(
                settled,
                settled.session,
                MediaLifecycleState::Running,
                settled.detail,
            ),
            answered(
                Some(ErrorModel::NativeCapture("share start returned no resource bundle"@)),
            ),
        )
    }
}

/// The end of a share's stop.
pub open spec fn stop_share_completed<P, R, W>(
    state: EngineModel<P, R, W>,
    fence: OperationFence,
    session: Option<SessionModel<P, R>>,
    error: Option<ErrorModel>,
    observed: Observed,
) -> (EngineModel<P, R, W>, EffectModel<P, R, W>) {
    let settled = share_settled(state, fence);
    if !is_live(state.actor, awaited(state.pending_share), fence, OperationKind::StopShare) {
        came_late(settled, session, observed, late_stop_share())
    } else if error is Some {
        (
            settled_as(
                settled,
                session,
                MediaLifecycleState::CleanupPending,
                "Share cleanup pending: "@ + error->0.message(),
            ),
            answered(error),
        )
    } else if session is Some {
        (
            settled_as(
                settled,
                Some(SessionModel { share_epoch: fence.epoch.share, ..session->0 }),
                MediaLifecycleState::Running,
                "Share stopped; resources quiescent."@,
            ),
            EffectModel { share_stopped: true, ..answered(None) },
        )
    } else {
        (
            settled_as(
                settled,
                settled.session,
                MediaLifecycleState::CleanupPending,
                "Share cleanup returned no session bundle."@,
            ),
            answered(
                Some(ErrorModel::NativeCapture("share cleanup returned no resource bundle"@)),
            ),
        )
    }
}

/// The end of an update.
pub open spec fn update_completed<P, R, W>(
    state: EngineModel<P, R, W>,
    fence: OperationFence,
    session: Option<SessionModel<P, R>>,
    error: Option<ErrorModel>,
    detail: Seq<char>,
    observed: Observed,
) -> (EngineModel<P, R, W>, EffectModel<P, R, W>) {
    let settled = share_settled(state, fence);
    if !is_live(state.actor, awaited(state.pending_share), fence, OperationKind::UpdateSession) {
        came_late(settled, session, observed, late_update())
    } else if error is Some {
        (
            settled_as(
                settled,
                session,
                MediaLifecycleState::Running,
                "Session update failed: "@ + error->0.message(),
            ),
            answered(error),
        )
    } else if session is Some {
        (settled_as(settled, session, MediaLifecycleState::Running, detail), answered(None))
    } else {
        (
            settled_as(
                settled,
                settled.session,
                MediaLifecycleState::CleanupPending,
                "Session update returned no resource bundle."@,
            ),
            answered(
                Some(ErrorModel::NativeCapture("session update returned no resource bundle"@)),
            ),
        )
    }
}

/// The end of a session's cleanup.
pub open spec fn stop_completed<P, R, W>(
    state: EngineModel<P, R, W>,
    fence: OperationFence,
    session: Option<SessionModel<P, R>>,
    error: Option<ErrorModel>,
) -> (EngineModel<P, R, W>, EffectModel<P, R, W>) {
    let settled = stop_settled(state, fence);
    if !is_live(state.actor, state.pending_stop_operation, fence, OperationKind::StopSession) {
        (
            settled,
            EffectModel {
                released: session,
                ..answered(
                    Some(ErrorModel::NativeCapture("session cleanup completion became stale"@)),
                )
            },
        )
    } else if error is Some {
        (
            settled_as(
                settled,
                session,
                MediaLifecycleState::CleanupPending,
                "Session cleanup pending: "@ + error->0.message(),
            ),
            answered(error),
        )
    } else {
        (
            EngineModel {
                preview: preview_begun(settled.preview),
                ..settled_as(
                    settled,
                    None,
                    MediaLifecycleState::Idle,
                    "Session stopped; native resources quiescent."@,
                )
            },
            EffectModel { released: session, ..answered(None) },
        )
    }
}

/// The end of the cleanup of late work.
pub open spec fn stale_completed<P, R, W>(
    state: EngineModel<P, R, W>,
    fence: OperationFence,
    session: Option<SessionModel<P, R>>,
    error: Option<ErrorModel>,
    waiters: Seq<W>,
) -> (EngineModel<P, R, W>, EffectModel<P, R, W>) {
    let settled = stop_settled(state, fence);
    let pending = Some(ErrorModel::NativeCapture("stale resource cleanup is pending"@));
    if !is_live(state.actor, state.pending_stop_operation, fence, OperationKind::StopSession) {
        (
            settled,
            EffectModel { released: session, waiters, waiters_error: pending, ..answered(None) },
        )
    } else if error is Some {
        (
            settled_as(
                settled,
                session,
                MediaLifecycleState::CleanupPending,
                "Stale cleanup pending: "@ + error->0.message(),
            ),
            EffectModel { waiters, waiters_error: pending, ..answered(None) },
        )
    } else {
        (
            settled_as(
                settled,
                settled.session,
                MediaLifecycleState::Idle,
                "Session start cancelled; resources released."@,
            ),
            EffectModel { released: session, waiters, ..answered(None) },
        )
    }
}

fn with_message(prefix: &str, error: &MediaEngineError) -> (text: String)
    ensures
        text@ == prefix@ + error@.message(),
{
    let mut text = prefix.to_owned();
    push_text(&mut text, error.message().as_str());
    text
}

impl<P, R, W> EngineState<P, R, W> {
    /// Reserves the start of a share and hands the session out for it.
    pub fn launch_start_share(&mut self, observed: &Observed) -> (launch: Result<
        (OperationFence, SessionRecord<P, R>),
        MediaEngineError,
    >)
        requires
            old(self).wf(),
            fits(*observed, old(self)@),
        ensures
            final(self).wf(),
            match old(self)@.session {
                None => launch is Err && launch->Err_0@ == ErrorModel::NoActiveSession && final(self)@ == old(self)@,
                Some(session) => if old(self).pending_start is Some || old(self).pending_share is Some {
                    launch is Err && launch->Err_0@ == ErrorModel::SessionAlreadyActive && final(self)@ == old(self)@
                } else {
                    &&& launch is Ok
                    &&& launch->Ok_0.1@ == session
                    &&& launch->Ok_0.1.wf()
                    &&& final(self)@ == share_launched(old(self)@, *observed)
                    &&& awaited(final(self).pending_share) == Some(launch->Ok_0.0)
                },
            },
    {
        if self.session.is_none() {
            return Err(MediaEngineError::NoActiveSession);
        }
        if self.pending_start.is_some() || self.pending_share.is_some() {
            return Err(MediaEngineError::SessionAlreadyActive);
        }
        let transition = self.transition_for(
            observed,
            MediaLifecycleState::Starting,
            "Share start is acquiring capture resources.",
        );
        self.transition_snapshot = Some(transition);
        match self.session.take() {
            None => Err(MediaEngineError::NoActiveSession),
            Some(session) => {
                self.actor.set_lifecycle(MediaLifecycleState::Starting);
                assert(self.actor@.wf());
                let (_, operation) = self.actor.reserve_start_share();
                self.pending_share = Some(Pending { operation, cancelled: false });
                assert(self@ =~= share_launched(old(self)@, *observed));
                Ok((operation, session))
            },
        }
    }

    /// Reserves the stop of a share and hands the session out for it. From here on no
    /// viewer of the share is accepted any more.
    pub fn launch_stop_share(&mut self, observed: &Observed) -> (launch: Result<
        (OperationFence, SessionRecord<P, R>),
        MediaEngineError,
    >)
        requires
            old(self).wf(),
            fits(*observed, old(self)@),
        ensures
            final(self).wf(),
            match old(self)@.session {
                None => launch is Err && launch->Err_0@ == ErrorModel::NoActiveSession && final(self)@ == old(self)@,
                Some(session) => {
                    &&& launch is Ok
                    &&& launch->Ok_0.1@ == session
                    &&& launch->Ok_0.1.wf()
                    &&& final(self)@ == stop_share_launched(old(self)@, *observed)
                    &&& awaited(final(self).pending_share) == Some(launch->Ok_0.0)
                },
            },
    {
        if self.session.is_none() {
            return Err(MediaEngineError::NoActiveSession);
        }
        let transition = self.transition_for(
            observed,
            MediaLifecycleState::Stopping,
            "Share cleanup is waiting for workers to quiesce.",
        );
        self.transition_snapshot = Some(transition);
        match self.session.take() {
            None => Err(MediaEngineError::NoActiveSession),
            Some(session) => {
                self.actor.end_share();
                self.actor.set_lifecycle(MediaLifecycleState::Stopping);
                assert(self.actor@.wf());
                let epoch = self.actor.fence(None);
                let operation = self.actor.reserve_operation_kind(epoch, OperationKind::StopShare);
                self.pending_share = Some(Pending { operation, cancelled: false });
                self.preview.begin_session();
                assert(self.preview == preview_begun(old(self).preview));
                assert(self@ =~= stop_share_launched(old(self)@, *observed));
                Ok((operation, session))
            },
        }
    }

    /// Plans an update, reserves it and hands the session out for it.
    pub fn launch_update_session(
        &mut self,
        request: &UpdateMediaSessionRequest,
        source_id_update: SourceIdUpdate,
        observed: &Observed,
    ) -> (launch: Result<(OperationFence, SessionRecord<P, R>, UpdatePlan), MediaEngineError>)
        requires
            old(self).wf(),
            fits(*observed, old(self)@),
        ensures
            final(self).wf(),
            match update_refusal(old(self)@, *request, source_id_update) {
                Some(error) => launch is Err && launch->Err_0@ == error && final(self)@
                    == old(self)@,
                None => {
                    let session = old(self)@.session->0;
                    let next = updated_request(session.request, *request, source_id_update);
                    let restart = session.native_capture_active && needs_restart(
                        session.request,
                        next,
                    );
                    &&& launch is Ok
                    &&& launch->Ok_0.1@ == session
                    &&& launch->Ok_0.1.wf()
                    &&& launch->Ok_0.2.next@ == next
                    &&& launch->Ok_0.2.restart_share == restart
                    &&& final(self)@ == update_launched(old(self)@, restart, *observed)
                    &&& awaited(final(self).pending_share) == Some(launch->Ok_0.0)
                },
            },
    {
        let plan = match &self.session {
            None => {
                return Err(MediaEngineError::NoActiveSession);
            },
            Some(session) => match build_update_plan(session, request, source_id_update) {
                Ok(plan) => plan,
                Err(error) => {
                    return Err(error);
                },
            },
        };
        if self.pending_start.is_some() || self.pending_share.is_some() {
            return Err(MediaEngineError::SessionAlreadyActive);
        }
        let transition = self.transition_for(
            observed,
            MediaLifecycleState::Starting,
            "Session update is acquiring the requested resources.",
        );
        self.transition_snapshot = Some(transition);
        match self.session.take() {
            None => Err(MediaEngineError::NoActiveSession),
            Some(session) => {
                if plan.restart_share {
                    self.actor.end_share();
                    let _ = self.actor.begin_share();
                    self.preview.begin_session();
                    assert(self.preview == preview_begun(old(self).preview));
                }
                let epoch = self.actor.fence(None);
                let operation = self.actor.reserve_operation_kind(
                    epoch,
                    OperationKind::UpdateSession,
                );
                self.pending_share = Some(Pending { operation, cancelled: false });
                assert(self@ =~= update_launched(old(self)@, plan.restart_share, *observed));
                Ok((operation, session, plan))
            },
        }
    }

    /// Share work could not be handed out: the session is back.
    pub fn share_not_spawned(
        &mut self,
        operation: OperationFence,
        session: Option<SessionRecord<P, R>>,
        lifecycle: MediaLifecycleState,
    )
        requires
            old(self).wf(),
            session matches Some(s) ==> s.wf(),
        ensures
            final(self).wf(),
            final(self)@ == (EngineModel {
                session: opt_session(session),
                pending_share: None,
                transition: None,
                actor: old(self)@.actor.retire_operation(operation.operation).with_lifecycle(
                    lifecycle,
                ),
                ..old(self)@
            }),
    {
        self.pending_share = None;
        self.transition_snapshot = None;
        self.actor.retire_operation(operation.operation);
        self.actor.set_lifecycle(lifecycle);
        assert(self.actor@.wf());
        self.session = session;
    }

    /// A completion could not be delivered: the session is kept for cleanup.
    pub fn not_delivered(&mut self, session: Option<SessionRecord<P, R>>, detail: &str)
        requires
            old(self).wf(),
            session matches Some(s) ==> s.wf(),
        ensures
            final(self).wf(),
            final(self)@ == (EngineModel {
                session: opt_session(session),
                actor: old(self)@.actor.with_lifecycle(MediaLifecycleState::CleanupPending),
                detail: detail@,
                ..old(self)@
            }),
    {
        self.session = session;
        self.actor.set_lifecycle(MediaLifecycleState::CleanupPending);
        self.detail = detail.to_owned();
        assert(self.actor@.wf());
    }

    /// Asks for the session to stop. Native work that is out is told to give up, and the
    /// answer waits for it.
    pub fn request_stop(&mut self, waiter: W, observed: &Observed) -> (step: StopStep<P, R, W>)
        requires
            old(self).wf(),
            fits(*observed, old(self)@),
        ensures
            final(self).wf(),
            final(self)@ == stop_asked(old(self)@, waiter, *observed),
            ({
                let state = old(self)@;
                if state.pending_start is Some {
                    &&& step is Waiting
                    &&& final(self)@ == (EngineModel {
                        pending_start: cancelled(state.pending_start),
                        actor: state.actor.invalidate_session(),
                        stop_waiters: state.stop_waiters.push(waiter),
                        ..state
                    })
                } else if state.pending_share is Some {
                    &&& step is Waiting
                    &&& final(self)@ == (EngineModel {
                        pending_share: cancelled(state.pending_share),
                        actor: state.actor.invalidate_session(),
                        stop_waiters: state.stop_waiters.push(waiter),
                        ..state
                    })
                } else if state.session is None {
                    &&& step == StopStep::<P, R, W>::Rejected(waiter)
                    &&& final(self)@ == state
                } else {
                    &&& step matches StopStep::Cleanup { fence, session, waiter: back }
                    &&& back == waiter
                    &&& session@ == state.session->0
                    &&& session.wf()
                    &&& final(self)@ == stop_launched(state, *observed)
                    &&& final(self).pending_stop_operation == Some(fence)
                }
            }),
    {
        if let Some(pending) = self.pending_start {
            self.pending_start = Some(Pending { operation: pending.operation, cancelled: true });
            let _ = self.actor.invalidate_session();
            self.stop_waiters.push(waiter);
            return StopStep::Waiting;
        }
        if let Some(pending) = self.pending_share {
            self.pending_share = Some(Pending { operation: pending.operation, cancelled: true });
            let _ = self.actor.invalidate_session();
            self.stop_waiters.push(waiter);
            return StopStep::Waiting;
        }
        if self.session.is_none() {
            return StopStep::Rejected(waiter);
        }
        let transition = self.transition_for(
            observed,
            MediaLifecycleState::Stopping,
            "Session cleanup is waiting for resources to quiesce.",
        );
        self.transition_snapshot = Some(transition);
        match self.session.take() {
            None => StopStep::Rejected(waiter),
            Some(session) => {
                let _ = self.actor.invalidate_session();
                let epoch = self.actor.fence(None);
                let fence = self.actor.reserve_operation_kind(epoch, OperationKind::StopSession);
                self.pending_stop_operation = Some(fence);
                assert(self@ =~= stop_launched(old(self)@, *observed));
                StopStep::Cleanup { fence, session, waiter }
            },
        }
    }

    /// What came late goes into cleanup.
    fn clean_up_late(
        &mut self,
        session: Option<SessionRecord<P, R>>,
        observed: &Observed,
        transition: &str,
        idle: &str,
        error: &str,
    ) -> (effect: CompletionEffect<P, R, W>)
        requires
            old(self).wf(),
            fits(*observed, old(self)@),
            session matches Some(s) ==> s.wf(),
        ensures
            final(self).wf(),
            effect.stale matches Some(bundle) ==> bundle.session.wf(),
            effect.released is None,
            (final(self)@, effect@) == came_late(
                old(self)@,
                opt_session(session),
                *observed,
                StaleTexts { transition: transition@, idle: idle@, error: error@ },
            ),
    {
        let mut waiters: Vec<W> = Vec::new();
        std::mem::swap(&mut waiters, &mut self.stop_waiters);
        assert(self@ =~= (EngineModel { stop_waiters: Seq::empty(), ..old(self)@ }));
        let refusal = MediaEngineError::NativeCapture(error.to_owned());
        match session {
            Some(found) => {
                let snapshot = self.transition_for(
                    observed,
                    MediaLifecycleState::Stopping,
                    transition,
                );
                self.transition_snapshot = Some(snapshot);
                self.actor.set_lifecycle(MediaLifecycleState::Stopping);
                assert(self.actor@.wf());
                let epoch = self.actor.fence(None);
                let fence = self.actor.reserve_operation_kind(epoch, OperationKind::StopSession);
                self.pending_stop_operation = Some(fence);
                let effect = CompletionEffect {
                    error: Some(refusal),
                    waiters: Vec::new(),
                    waiters_error: None,
                    stale: Some(StaleBundle { fence, session: found, waiters }),
                    released: None,
                    share_stopped: false,
                };
                proof {
                    let late = came_late(
                        old(self)@,
                        Some(found@),
                        *observed,
                        StaleTexts { transition: transition@, idle: idle@, error: error@ },
                    );
                    assert(self@ =~= late.0);
                    assert(effect@ =~= late.1);
                }
                effect
            },
            None => {
                self.actor.set_lifecycle(MediaLifecycleState::Idle);
                assert(self.actor@.wf());
                self.detail = idle.to_owned();
                let effect = CompletionEffect {
                    error: Some(refusal),
                    waiters,
                    waiters_error: None,
                    stale: None,
                    released: None,
                    share_stopped: false,
                };
                proof {
                    let late = came_late(
                        old(self)@,
                        None,
                        *observed,
                        StaleTexts { transition: transition@, idle: idle@, error: error@ },
                    );
                    assert(self@ =~= late.0);
                    assert(effect@ =~= late.1);
                }
                effect
            },
        }
    }

    fn settle(
        &mut self,
        session: Option<SessionRecord<P, R>>,
        lifecycle: MediaLifecycleState,
        detail: String,
    )
        requires
            old(self).wf(),
            session matches Some(s) ==> s.wf(),
        ensures
            final(self).wf(),
            final(self)@ == settled_as(old(self)@, opt_session(session), lifecycle, detail@),
    {
        self.session = session;
        self.actor.set_lifecycle(lifecycle);
        self.detail = detail;
        assert(self.actor@.wf());
    }

    fn settle_without_session(&mut self, lifecycle: MediaLifecycleState, detail: String)
        requires
            old(self).wf(),
        ensures
            final(self).wf(),
            final(self)@ == settled_as(old(self)@, old(self)@.session, lifecycle, detail@),
    {
        self.actor.set_lifecycle(lifecycle);
        self.detail = detail;
        assert(self.actor@.wf());
    }

    /// Takes the end of a session's start.
    pub fn complete_start_session(
        &mut self,
        fence: OperationFence,
        result: Result<SessionRecord<P, R>, MediaEngineError>,
        detail: String,
        observed: &Observed,
    ) -> (effect: CompletionEffect<P, R, W>)
        requires
            old(self).wf(),
            fits(*observed, old(self)@),
            result matches Ok(session) ==> session.wf(),
        ensures
            final(self).wf(),
            effect.stale matches Some(bundle) ==> bundle.session.wf(),
            (final(self)@, effect@) == start_completed(
                old(self)@,
                fence,
                result_model(result),
                detail@,
                *observed,
            ),
    {
        let live: bool = match self.pending_start {
            Some(pending) => pending.operation == fence && self.actor.accepts_operation_kind(
                fence,
                OperationKind::StartSession,
            ),
            None => false,
        };
        assert(live == is_live(
            old(self)@.actor,
            awaited(old(self)@.pending_start),
            fence,
            OperationKind::StartSession,
        ));
        self.pending_start = None;
        self.transition_snapshot = None;
        self.actor.retire_operation(fence.operation);
        assert(self@ =~= start_settled(old(self)@, fence));
        if live {
            match result {
                Ok(session) => {
                    self.settle(Some(session), MediaLifecycleState::Running, detail);
                    answer(None)
                },
                Err(error) => {
                    let text = with_message("Session start failed: ", &error);
                    self.settle_without_session(MediaLifecycleState::Idle, text);
                    answer(Some(error))
                },
            }
        } else if self.pending_peer_cleanup.len() > 0 {
            self.settle_without_session(
                MediaLifecycleState::CleanupPending,
                "Session stopped; deferred peer cleanup is pending.".to_owned(),
            );
            let error = MediaEngineError::NativePeer(
                "peer initialization cleanup is pending".to_owned(),
            );
            let mut effect: CompletionEffect<P, R, W> = answer(Some(error));
            if let Ok(session) = result {
                effect.released = Some(session);
            }
            effect
        } else {
            let session: Option<SessionRecord<P, R>> = match result {
                Ok(session) => Some(session),
                Err(_) => None,
            };
            self.clean_up_late(
                session,
                observed,
                "Stale session start is cleaning up provisional resources.",
                "Session start cancelled; resources released.",
                "session start completion became stale",
            )
        }
    }

    /// Takes the end of a share's start. A share that could not start leaves the session
    /// running.
    pub fn complete_start_share(
        &mut self,
        fence: OperationFence,
        session: Option<SessionRecord<P, R>>,
        error: Option<MediaEngineError>,
        detail: String,
        observed: &Observed,
    ) -> (effect: CompletionEffect<P, R, W>)
        requires
            old(self).wf(),
            fits(*observed, old(self)@),
            session matches Some(s) ==> s.wf(),
        ensures
            final(self).wf(),
            effect.stale matches Some(bundle) ==> bundle.session.wf(),
            (final(self)@, effect@) == share_completed(
                old(self)@,
                fence,
                opt_session(session),
                opt_error(error),
                detail@,
                *observed,
            ),
    {
        let live: bool = match self.pending_share {
            Some(pending) => pending.operation == fence && self.actor.accepts_operation_kind(
                fence,
                OperationKind::StartShare,
            ),
            None => false,
        };
        self.pending_share = None;
        self.transition_snapshot = None;
        self.actor.retire_operation(fence.operation);
        assert(self@ =~= share_settled(old(self)@, fence));
        if !live {
            return self.clean_up_late(
                session,
                observed,
                "Stale Share start is cleaning up provisional resources.",
                "Share start cancelled; resources released.",
                "share start completion became stale",
            );
        }
        if let Some(failure) = error {
            let text = with_message("Share start failed: ", &failure);
            self.settle(session, MediaLifecycleState::Running, text);
            return answer(Some(failure));
        }
        if session.is_some() {
            self.settle(session, MediaLifecycleState::Running, detail);
            return answer(None);
        }
        self.actor.set_lifecycle(MediaLifecycleState::Running);
        assert(self.actor@.wf());
        answer(
            Some(
                MediaEngineError::NativeCapture(
                    "share start returned no resource bundle".to_owned(),
                ),
            ),
        )
    }

    /// Takes the end of a share's stop. What could not be stopped stays in cleanup.
    pub fn complete_stop_share(
        &mut self,
        fence: OperationFence,
        session: Option<SessionRecord<P, R>>,
        error: Option<MediaEngineError>,
        observed: &Observed,
    ) -> (effect: CompletionEffect<P, R, W>)
        requires
            old(self).wf(),
            fits(*observed, old(self)@),
            session matches Some(s) ==> s.wf(),
        ensures
            final(self).wf(),
            effect.stale matches Some(bundle) ==> bundle.session.wf(),
            (final(self)@, effect@) == stop_share_completed(
                old(self)@,
                fence,
                opt_session(session),
                opt_error(error),
                *observed,
            ),
    {
        let live: bool = match self.pending_share {
            Some(pending) => pending.operation == fence && self.actor.accepts_operation_kind(
                fence,
                OperationKind::StopShare,
            ),
            None => false,
        };
        self.pending_share = None;
        self.transition_snapshot = None;
        self.actor.retire_operation(fence.operation);
        assert(self@ =~= share_settled(old(self)@, fence));
        if !live {
            return self.clean_up_late(
                session,
                observed,
                "Stale Share cleanup is entering full session cleanup.",
                "Share cleanup cancelled; resources released.",
                "share cleanup completion became stale",
            );
        }
        if let Some(failure) = error {
            let text = with_message("Share cleanup pending: ", &failure);
            self.settle(session, MediaLifecycleState::CleanupPending, text);
            return answer(Some(failure));
        }
        match session {
            Some(found) => {
                let mut found = found;
                found.share_epoch = fence.epoch.share;
                self.settle(
                    Some(found),
                    MediaLifecycleState::Running,
                    "Share stopped; resources quiescent.".to_owned(),
                );
                let mut effect: CompletionEffect<P, R, W> = answer(None);
                effect.share_stopped = true;
                effect
            },
            None => {
                self.settle_without_session(
                    MediaLifecycleState::CleanupPending,
                    "Share cleanup returned no session bundle.".to_owned(),
                );
                answer(
                    Some(
                        MediaEngineError::NativeCapture(
                            "share cleanup returned no resource bundle".to_owned(),
                        ),
                    ),
                )
            },
        }
    }

    /// Takes the end of an update.
    pub fn complete_update_session(
        &mut self,
        fence: OperationFence,
        session: Option<SessionRecord<P, R>>,
        error: Option<MediaEngineError>,
        detail: String,
        observed: &Observed,
    ) -> (effect: CompletionEffect<P, R, W>)
        requires
            old(self).wf(),
            fits(*observed, old(self)@),
            session matches Some(s) ==> s.wf(),
        ensures
            final(self).wf(),
            effect.stale matches Some(bundle) ==> bundle.session.wf(),
            (final(self)@, effect@) == update_completed(
                old(self)@,
                fence,
                opt_session(session),
                opt_error(error),
                detail@,
                *observed,
            ),
    {
        let live: bool = match self.pending_share {
            Some(pending) => pending.operation == fence && self.actor.accepts_operation_kind(
                fence,
                OperationKind::UpdateSession,
            ),
            None => false,
        };
        self.pending_share = None;
        self.transition_snapshot = None;
        self.actor.retire_operation(fence.operation);
        assert(self@ =~= share_settled(old(self)@, fence));
        if !live {
            return self.clean_up_late(
                session,
                observed,
                "Stale Share update is cleaning up provisional resources.",
                "Session update cancelled; resources released.",
                "session update completion became stale",
            );
        }
        if let Some(failure) = error {
            let text = with_message("Session update failed: ", &failure);
            self.settle(session, MediaLifecycleState::Running, text);
            return answer(Some(failure));
        }
        if session.is_some() {
            self.settle(session, MediaLifecycleState::Running, detail);
            return answer(None);
        }
        self.settle_without_session(
            MediaLifecycleState::CleanupPending,
            "Session update returned no resource bundle.".to_owned(),
        );
        answer(
            Some(
                MediaEngineError::NativeCapture(
                    "session update returned no resource bundle".to_owned(),
                ),
            ),
        )
    }

    /// Takes the end of a session's cleanup. What could not be cleaned up stays, for
    /// another try.
    pub fn complete_stop_session(&mut self, fence: OperationFence, cleanup: CleanupBundle<P, R>) -> (effect:
        CompletionEffect<P, R, W>)
        requires
            old(self).wf(),
            cleanup.session matches Some(s) ==> s.wf(),
        ensures
            final(self).wf(),
            effect.stale is None,
            (final(self)@, effect@) == stop_completed(
                old(self)@,
                fence,
                opt_session(cleanup.session),
                opt_error(cleanup.error),
            ),
    {
        let live: bool = match self.pending_stop_operation {
            Some(operation) => operation == fence && self.actor.accepts_operation_kind(
                fence,
                OperationKind::StopSession,
            ),
            None => false,
        };
        self.pending_stop_operation = None;
        self.transition_snapshot = None;
        self.actor.retire_operation(fence.operation);
        assert(self@ =~= stop_settled(old(self)@, fence));
        if !live {
            let mut effect: CompletionEffect<P, R, W> = answer(
                Some(
                    MediaEngineError::NativeCapture(
                        "session cleanup completion became stale".to_owned(),
                    ),
                ),
            );
            effect.released = cleanup.session;
            return effect;
        }
        if let Some(failure) = cleanup.error {
            let text = with_message("Session cleanup pending: ", &failure);
            self.settle(cleanup.session, MediaLifecycleState::CleanupPending, text);
            return answer(Some(failure));
        }
        self.settle(
            None,
            MediaLifecycleState::Idle,
            "Session stopped; native resources quiescent.".to_owned(),
        );
        self.preview.begin_session();
        assert(self.preview == preview_begun(old(self).preview));
        let mut effect: CompletionEffect<P, R, W> = answer(None);
        effect.released = cleanup.session;
        proof {
            let done = stop_completed(
                old(self)@,
                fence,
                opt_session(cleanup.session),
                opt_error(cleanup.error),
            );
            assert(self@ =~= done.0);
            assert(effect@ =~= done.1);
        }
        effect
    }

    /// Takes the end of the cleanup of late work, and answers those who wait for it.
    pub fn complete_stale_cleanup(
        &mut self,
        fence: OperationFence,
        cleanup: CleanupBundle<P, R>,
        waiters: Vec<W>,
    ) -> (effect: CompletionEffect<P, R, W>)
        requires
            old(self).wf(),
            cleanup.session matches Some(s) ==> s.wf(),
        ensures
            final(self).wf(),
            effect.stale is None,
            (final(self)@, effect@) == stale_completed(
                old(self)@,
                fence,
                opt_session(cleanup.session),
                opt_error(cleanup.error),
                waiters@,
            ),
    {
        let live: bool = match self.pending_stop_operation {
            Some(operation) => operation == fence && self.actor.accepts_operation_kind(
                fence,
                OperationKind::StopSession,
            ),
            None => false,
        };
        self.pending_stop_operation = None;
        self.transition_snapshot = None;
        self.actor.retire_operation(fence.operation);
        assert(self@ =~= stop_settled(old(self)@, fence));
        let mut effect: CompletionEffect<P, R, W> = answer(None);
        effect.waiters = waiters;
        if !live {
            effect.released = cleanup.session;
            effect.waiters_error = Some(
                MediaEngineError::NativeCapture("stale resource cleanup is pending".to_owned()),
            );
            return effect;
        }
        if let Some(failure) = cleanup.error {
            let text = with_message("Stale cleanup pending: ", &failure);
            self.settle(cleanup.session, MediaLifecycleState::CleanupPending, text);
            effect.waiters_error = Some(
                MediaEngineError::NativeCapture("stale resource cleanup is pending".to_owned()),
            );
            return effect;
        }
        self.settle_without_session(
            MediaLifecycleState::Idle,
            "Session start cancelled; resources released.".to_owned(),
        );
        effect.released = cleanup.session;
        effect
    }
}

/// What native work reports when it ends.
pub enum TransactionCompletion<P, R, W> {
    StartSession {
        fence: OperationFence,
        result: Result<SessionRecord<P, R>, MediaEngineError>,
        detail: String,
    },
    StopSession { fence: OperationFence, cleanup: CleanupBundle<P, R> },
    StaleCleanup { fence: OperationFence, cleanup: CleanupBundle<P, R>, waiters: Vec<W> },
    StartShare {
        fence: OperationFence,
        session: Option<SessionRecord<P, R>>,
        error: Option<MediaEngineError>,
        detail: String,
    },
    StopShare {
        fence: OperationFence,
        session: Option<SessionRecord<P, R>>,
        error: Option<MediaEngineError>,
    },
    UpdateSession {
        fence: OperationFence,
        session: Option<SessionRecord<P, R>>,
        error: Option<MediaEngineError>,
        detail: String,
    },
}

impl<P, R, W> TransactionCompletion<P, R, W> {
    pub open spec fn fence(self) -> OperationFence {
        match self {
            TransactionCompletion::StartSession { fence, .. } => fence,
            TransactionCompletion::StopSession { fence, .. } => fence,
            TransactionCompletion::StaleCleanup { fence, .. } => fence,
            TransactionCompletion::StartShare { fence, .. } => fence,
            TransactionCompletion::StopShare { fence, .. } => fence,
            TransactionCompletion::UpdateSession { fence, .. } => fence,
        }
    }

    /// The kind of operation that ends.
    pub open spec fn kind(self) -> OperationKind {
        match self {
            TransactionCompletion::StartSession { .. } => OperationKind::StartSession,
            TransactionCompletion::StopSession { .. } => OperationKind::StopSession,
            TransactionCompletion::StaleCleanup { .. } => OperationKind::StopSession,
            TransactionCompletion::StartShare { .. } => OperationKind::StartShare,
            TransactionCompletion::StopShare { .. } => OperationKind::StopShare,
            TransactionCompletion::UpdateSession { .. } => OperationKind::UpdateSession,
        }
    }

    /// The operation that the engine waits for in this place.
    pub open spec fn awaited_by(self, state: EngineModel<P, R, W>) -> Option<OperationFence> {
        match self {
            TransactionCompletion::StartSession { .. } => awaited(state.pending_start),
            TransactionCompletion::StopSession { .. } => state.pending_stop_operation,
            TransactionCompletion::StaleCleanup { .. } => state.pending_stop_operation,
            _ => awaited(state.pending_share),
        }
    }

    /// The completion counts in this state.
    pub open spec fn live_in(self, state: EngineModel<P, R, W>) -> bool {
        is_live(state.actor, self.awaited_by(state), self.fence(), self.kind())
    }

    /// The session that comes back.
    pub open spec fn session(self) -> Option<SessionModel<P, R>> {
        match self {
            TransactionCompletion::StartSession { result, .. } => result_session(
                result_model(result),
            ),
            TransactionCompletion::StopSession { cleanup, .. } => opt_session(cleanup.session),
            TransactionCompletion::StaleCleanup { cleanup, .. } => opt_session(cleanup.session),
            TransactionCompletion::StartShare { session, .. } => opt_session(session),
            TransactionCompletion::StopShare { session, .. } => opt_session(session),
            TransactionCompletion::UpdateSession { session, .. } => opt_session(session),
        }
    }

    /// Those who wait with the work that ended.
    pub open spec fn carried(self) -> Seq<W> {
        match self {
            TransactionCompletion::StaleCleanup { waiters, .. } => waiters@,
            _ => Seq::empty(),
        }
    }

    /// The session that comes back is in order.
    pub open spec fn wf(self) -> bool {
        match self {
            TransactionCompletion::StartSession { result, .. } => result matches Ok(s) ==> s.wf(),
            TransactionCompletion::StopSession { cleanup, .. } => cleanup.session matches Some(s)
                ==> s.wf(),
            TransactionCompletion::StaleCleanup { cleanup, .. } => cleanup.session matches Some(s)
                ==> s.wf(),
            TransactionCompletion::StartShare { session, .. } => session matches Some(s) ==> s.wf(),
            TransactionCompletion::StopShare { session, .. } => session matches Some(s) ==> s.wf(),
            TransactionCompletion::UpdateSession { session, .. } => session matches Some(s)
                ==> s.wf(),
        }
    }
}

/// The state after a completion, and what follows it.
pub open spec fn completed<P, R, W>(
    state: EngineModel<P, R, W>,
    completion: TransactionCompletion<P, R, W>,
    observed: Observed,
) -> (EngineModel<P, R, W>, EffectModel<P, R, W>) {
    match completion {
        TransactionCompletion::StartSession { fence, result, detail } => start_completed(
            state,
            fence,
            result_model(result),
            detail@,
            observed,
        ),
        TransactionCompletion::StopSession { fence, cleanup } => stop_completed(
            state,
            fence,
            opt_session(cleanup.session),
            opt_error(cleanup.error),
        ),
        TransactionCompletion::StaleCleanup { fence, cleanup, waiters } => stale_completed(
            state,
            fence,
            opt_session(cleanup.session),
            opt_error(cleanup.error),
            waiters@,
        ),
        TransactionCompletion::StartShare { fence, session, error, detail } => share_completed(
            state,
            fence,
            opt_session(session),
            opt_error(error),
            detail@,
            observed,
        ),
        TransactionCompletion::StopShare { fence, session, error } => stop_share_completed(
            state,
            fence,
            opt_session(session),
            opt_error(error),
            observed,
        ),
        TransactionCompletion::UpdateSession { fence, session, error, detail } => update_completed(
            state,
            fence,
            opt_session(session),
            opt_error(error),
            detail@,
            observed,
        ),
    }
}

/// The name under which an operation is logged.
pub open spec fn kind_text(kind: OperationKind) -> Seq<char> {
    match kind {
        OperationKind::Generic => "Generic"@,
        OperationKind::StartSession => "StartSession"@,
        OperationKind::StartShare => "StartShare"@,
        OperationKind::StopShare => "StopShare"@,
        OperationKind::UpdateSession => "UpdateSession"@,
        OperationKind::StopSession => "StopSession"@,
    }
}

/// The line that is logged for an operation.
pub open spec fn operation_line(operation: OperationFence, detail: Seq<char>) -> Seq<char> {
    "session="@ + decimal(operation.epoch.session.0 as nat) + " share="@ + decimal(
        operation.epoch.share.0 as nat,
    ) + " link="@ + (match operation.epoch.link {
        Some(link) => decimal(link.0 as nat),
        None => "none"@,
    }) + " operation="@ + decimal(operation.operation.0 as nat) + " kind="@ + kind_text(
        operation.kind,
    ) + " "@ + detail
}

/// The line that is logged for an operation: its epochs, link, number and kind, and what
/// became of it.
pub fn log_transaction(operation: OperationFence, detail: &str) -> (line: String)
    ensures
        line@ == operation_line(operation, detail@),
{
    let mut line = "session=".to_owned();
    push_decimal(&mut line, operation.epoch.session.0);
    push_text(&mut line, " share=");
    push_decimal(&mut line, operation.epoch.share.0);
    push_text(&mut line, " link=");
    match operation.epoch.link {
        Some(link) => push_decimal(&mut line, link.0),
        None => push_text(&mut line, "none"),
    }
    push_text(&mut line, " operation=");
    push_decimal(&mut line, operation.operation.0);
    push_text(&mut line, " kind=");
    let kind = match operation.kind {
        OperationKind::Generic => "Generic",
        OperationKind::StartSession => "StartSession",
        OperationKind::StartShare => "StartShare",
        OperationKind::StopShare => "StopShare",
        OperationKind::UpdateSession => "UpdateSession",
        OperationKind::StopSession => "StopSession",
    };
    push_text(&mut line, kind);
    push_text(&mut line, " ");
    push_text(&mut line, detail);
    line
}

impl<P, R, W> EngineState<P, R, W> {
    /// Takes the end of native work. Work that came too late never becomes the session:
    /// what it brought back is cleaned up.
    pub fn accept_transaction_completion(
        &mut self,
        completion: TransactionCompletion<P, R, W>,
        observed: &Observed,
    ) -> (effect: CompletionEffect<P, R, W>)
        requires
            old(self).wf(),
            fits(*observed, old(self)@),
            completion.wf(),
        ensures
            final(self).wf(),
            effect.stale matches Some(bundle) ==> bundle.session.wf(),
            (final(self)@, effect@) == completed(old(self)@, completion, *observed),
    {
        match completion {
            TransactionCompletion::StartSession { fence, result, detail } => {
                self.complete_start_session(fence, result, detail, observed)
            },
            TransactionCompletion::StopSession { fence, cleanup } => {
                self.complete_stop_session(fence, cleanup)
            },
            TransactionCompletion::StaleCleanup { fence, cleanup, waiters } => {
                self.complete_stale_cleanup(fence, cleanup, waiters)
            },
            TransactionCompletion::StartShare { fence, session, error, detail } => {
                self.complete_start_share(fence, session, error, detail, observed)
            },
            TransactionCompletion::StopShare { fence, session, error } => {
                self.complete_stop_share(fence, session, error, observed)
            },
            TransactionCompletion::UpdateSession { fence, session, error, detail } => {
                self.complete_update_session(fence, session, error, detail, observed)
            },
        }
    }

    /// The end of a cleanup could not be delivered. Where something was left of the
    /// session, the engine stays in cleanup.
    pub fn cleanup_not_delivered(&mut self, left: bool, detail: &str)
        requires
            old(self).wf(),
        ensures
            final(self).wf(),
            final(self)@ == (if left {
                settled_as(
                    old(self)@,
                    old(self)@.session,
                    MediaLifecycleState::CleanupPending,
                    detail@,
                )
            } else {
                old(self)@
            }),
    {
        if left {
            self.settle_without_session(MediaLifecycleState::CleanupPending, detail.to_owned());
        }
    }

    /// Hands out the peers whose setup never ended, for another try.
    pub fn take_pending_peers(&mut self) -> (peers: Vec<P>)
        requires
            old(self).wf(),
        ensures
            final(self).wf(),
            peers@ == old(self)@.pending_peer_cleanup,
            final(self)@ == (EngineModel { pending_peer_cleanup: Seq::empty(), ..old(self)@ }),
    {
        let mut peers: Vec<P> = Vec::new();
        std::mem::swap(&mut peers, &mut self.pending_peer_cleanup);
        assert(self@ =~= (EngineModel { pending_peer_cleanup: Seq::empty(), ..old(self)@ }));
        peers
    }

    /// Takes back the peers that still did not end. Once none is left, an engine that
    /// only waited for them is idle.
    pub fn retain_pending_peers(&mut self, peers: Vec<P>)
        requires
            old(self).wf(),
        ensures
            final(self).wf(),
            final(self)@ == peers_retained(old(self)@, peers@),
            ({
                let state = old(self)@;
                let kept = state.pending_peer_cleanup + peers@;
                final(self)@ == (if kept.len() == 0 && state.session is None
                    && state.actor.lifecycle == MediaLifecycleState::CleanupPending {
                    EngineModel {
                        actor: state.actor.with_lifecycle(MediaLifecycleState::Idle),
                        detail: "Deferred peer cleanup completed; resources quiescent."@,
                        pending_peer_cleanup: kept,
                        ..state
                    }
                } else {
                    EngineModel { pending_peer_cleanup: kept, ..state }
                })
            }),
    {
        let mut returned = peers;
        self.pending_peer_cleanup.append(&mut returned);
        assert(self.pending_peer_cleanup@ =~= old(self)@.pending_peer_cleanup + peers@);
        if self.pending_peer_cleanup.len() == 0 && self.session.is_none() && self.actor.lifecycle()
            == MediaLifecycleState::CleanupPending {
            self.settle_without_session(
                MediaLifecycleState::Idle,
                "Deferred peer cleanup completed; resources quiescent.".to_owned(),
            );
        }
    }
}

/// Work that came too late changes no session, and never leaves the engine running.
pub proof fn law_late_work_never_commits<P, R, W>(
    state: EngineModel<P, R, W>,
    completion: TransactionCompletion<P, R, W>,
    observed: Observed,
)
    requires
        !completion.live_in(state),
    ensures
        ({
            let (after, effect) = completed(state, completion, observed);
            &&& after.session == state.session
            &&& effect.error is Some || effect.waiters_error is Some
            &&& !effect.share_stopped
            &&& completion.kind() != OperationKind::StopSession ==> after.actor.lifecycle
                != MediaLifecycleState::Running
        }),
{
}

/// A session that comes back is never lost: it becomes the session, goes into cleanup or
/// is released.
pub proof fn law_sessions_are_never_lost<P, R, W>(
    state: EngineModel<P, R, W>,
    completion: TransactionCompletion<P, R, W>,
    observed: Observed,
)
    requires
        completion.session() is Some,
    ensures
        ({
            let (after, effect) = completed(state, completion, observed);
            let session = completion.session()->0;
            ||| after.session == Some(session)
            ||| after.session == Some(
                SessionModel { share_epoch: completion.fence().epoch.share, ..session },
            )
            ||| effect.released == Some(session)
            ||| effect.stale matches Some(bundle) && bundle.1 == session
        }),
{
}

/// Whoever waits for a stop goes on waiting, waits with the session that is cleaned up,
/// or is answered: exactly one of these, and nobody is left out.
pub proof fn law_waiters_are_kept<P, R, W>(
    state: EngineModel<P, R, W>,
    completion: TransactionCompletion<P, R, W>,
    observed: Observed,
)
    ensures
        ({
            let (after, effect) = completed(state, completion, observed);
            let cleaning = match effect.stale {
                Some(bundle) => bundle.2,
                None => Seq::<W>::empty(),
            };
            after.stop_waiters + cleaning + effect.waiters == state.stop_waiters
                + completion.carried()
        }),
{
    let (after, effect) = completed(state, completion, observed);
    let cleaning = match effect.stale {
        Some(bundle) => bundle.2,
        None => Seq::<W>::empty(),
    };
    assert(after.stop_waiters + cleaning + effect.waiters =~= state.stop_waiters
        + completion.carried());
}

/// An operation ends once: after its completion the engine no longer waits for it, and
/// the same completion counts no more.
pub proof fn law_work_completes_once<P, R, W>(
    state: EngineModel<P, R, W>,
    completion: TransactionCompletion<P, R, W>,
    observed: Observed,
)
    requires
        completion.fence().operation.0 <= state.actor.next_operation < u64::MAX,
    ensures
        ({
            let (after, _) = completed(state, completion, observed);
            !completion.live_in(after) && !after.actor.accepts_operation(completion.fence())
        }),
{
}

/// A stop overtakes a start that is out: whatever the start brings back, the engine does
/// not run. Where it brings nothing back and no peer is left over, the engine is idle and
/// everyone who waits is told so.
pub proof fn law_stop_overtakes_a_start<P, R, W>(
    state: EngineModel<P, R, W>,
    waiter: W,
    result: Result<SessionModel<P, R>, ErrorModel>,
    detail: Seq<char>,
    observed: Observed,
)
    requires
        state.pending_start is Some,
    ensures
        ({
            let stopping = EngineModel {
                pending_start: cancelled(state.pending_start),
                actor: state.actor.invalidate_session(),
                stop_waiters: state.stop_waiters.push(waiter),
                ..state
            };
            let (after, effect) = start_completed(
                stopping,
                state.pending_start->0.operation,
                result,
                detail,
                observed,
            );
            &&& after.session == state.session
            &&& after.actor.lifecycle != MediaLifecycleState::Running
            &&& effect.error is Some
            &&& result is Err && state.pending_peer_cleanup.len() == 0 ==> {
                &&& after.actor.lifecycle == MediaLifecycleState::Idle
                &&& effect.waiters == state.stop_waiters.push(waiter)
                &&& effect.waiters_error is None
            }
        }),
{
}

/// A start that counts is taken at its word: the session that it brings back runs, and one
/// that failed leaves the engine idle, with the session as it was and the error as the answer.
pub proof fn law_start_in_time_counts<P, R, W>(
    state: EngineModel<P, R, W>,
    fence: OperationFence,
    result: Result<SessionModel<P, R>, ErrorModel>,
    detail: Seq<char>,
    observed: Observed,
)
    requires
        is_live(state.actor, awaited(state.pending_start), fence, OperationKind::StartSession),
    ensures
        ({
            let (after, effect) = start_completed(state, fence, result, detail, observed);
            &&& (result matches Ok(session) ==> {
                &&& after.session == Some(session)
                &&& after.actor.lifecycle is Running
                &&& after.detail == detail
                &&& effect.error is None
            })
            &&& (result matches Err(error) ==> {
                &&& after.session == state.session
                &&& after.actor.lifecycle is Idle
                &&& effect.error == Some(error)
            })
            &&& effect.stale is None && effect.released is None && effect.waiters.len() == 0
        }),
{
}

/// Share work that counts is taken at its word. What it brings back is the session again, with
/// or without an error, and its error is the answer. A start or an update that failed leaves
/// the session running; a stop that failed leaves it to be cleaned up. Only a share that
/// really stopped is told to the room, and the session knows its epoch.
pub proof fn law_share_work_in_time_counts<P, R, W>(
    state: EngineModel<P, R, W>,
    fence: OperationFence,
    session: Option<SessionModel<P, R>>,
    error: Option<ErrorModel>,
    detail: Seq<char>,
    observed: Observed,
)
    ensures
        is_live(state.actor, awaited(state.pending_share), fence, OperationKind::StartShare) ==> {
            let (after, effect) = share_completed(state, fence, session, error, detail, observed);
            &&& after.actor.lifecycle is Running
            &&& error is Some ==> after.session == session && effect.error == error
            &&& error is None && session is Some ==> after.session == session && effect.error
                is None && after.detail == detail
            &&& error is None && session is None ==> after.session == state.session && effect.error
                is Some
            &&& !effect.share_stopped
        },
        is_live(state.actor, awaited(state.pending_share), fence, OperationKind::StopShare) ==> {
            let (after, effect) = stop_share_completed(state, fence, session, error, observed);
            &&& error is Some ==> after.actor.lifecycle is CleanupPending && after.session
                == session && effect.error == error
            &&& error is None && session is Some ==> {
                &&& after.actor.lifecycle is Running
                &&& after.session is Some
                &&& after.session->0.share_epoch == fence.epoch.share
                &&& after.session->0 == (SessionModel {
                    share_epoch: fence.epoch.share,
                    ..session->0
                })
                &&& effect.error is None
            }
            &&& error is None && session is None ==> after.actor.lifecycle is CleanupPending
                && effect.error is Some
            &&& effect.share_stopped <==> error is None && session is Some
        },
        is_live(state.actor, awaited(state.pending_share), fence, OperationKind::UpdateSession) ==> {
            let (after, effect) = update_completed(state, fence, session, error, detail, observed);
            &&& error is Some ==> after.actor.lifecycle is Running && after.session == session
                && effect.error == error
            &&& error is None && session is Some ==> after.actor.lifecycle is Running
                && after.session == session && effect.error is None && after.detail == detail
            &&& error is None && session is None ==> after.actor.lifecycle is CleanupPending
                && effect.error is Some
            &&& !effect.share_stopped
        },
{
}

/// A cleanup that counts is taken at its word: one that failed keeps what is left of the
/// session and stays pending; one that did its work leaves the engine idle and releases what
/// came back. Those who wait are told so.
pub proof fn law_cleanup_in_time_counts<P, R, W>(
    state: EngineModel<P, R, W>,
    fence: OperationFence,
    session: Option<SessionModel<P, R>>,
    error: Option<ErrorModel>,
    waiters: Seq<W>,
)
    requires
        is_live(state.actor, state.pending_stop_operation, fence, OperationKind::StopSession),
    ensures
        ({
            let (after, effect) = stop_completed(state, fence, session, error);
            &&& effect.error == error
            &&& error is Some ==> after.actor.lifecycle is CleanupPending && after.session
                == session && effect.released is None
            &&& error is None ==> after.actor.lifecycle is Idle && after.session is None
                && effect.released == session && after.preview == preview_begun(state.preview)
        }),
        ({
            let (after, effect) = stale_completed(state, fence, session, error, waiters);
            &&& effect.waiters == waiters
            &&& effect.waiters_error is Some <==> error is Some
            &&& error is Some ==> after.actor.lifecycle is CleanupPending && after.session
                == session && effect.released is None
            &&& error is None ==> after.actor.lifecycle is Idle && after.session == state.session
                && effect.released == session
        }),
{
}

/// Whatever becomes of it, work that reported back is no longer waited for in its place, and
/// the places of other work stay as they were.
pub proof fn law_other_work_goes_on<P, R, W>(
    state: EngineModel<P, R, W>,
    completion: TransactionCompletion<P, R, W>,
    observed: Observed,
)
    requires
        completion.live_in(state),
    ensures
        ({
            let (after, effect) = completed(state, completion, observed);
            let starts = completion is StartSession;
            let stops = completion is StopSession || completion is StaleCleanup;
            &&& after.pending_start == if starts {
                None
            } else {
                state.pending_start
            }
            &&& after.pending_share == if starts || stops {
                state.pending_share
            } else {
                None
            }
            &&& after.pending_stop_operation == if stops {
                None
            } else {
                state.pending_stop_operation
            }
            &&& after.transition is None
            &&& after.pending_peer_cleanup == state.pending_peer_cleanup
            &&& after.next_session_id == state.next_session_id
            &&& after.viewer_attached == state.viewer_attached
            &&& after.actor.session_epoch == state.actor.session_epoch
            &&& after.actor.share_epoch == state.actor.share_epoch
        }),
{
}

/// Work that is handed out is waited for under its own kind and in the epochs that are then
/// current, is accepted when it reports back, and holds the session meanwhile. A share that
/// starts, or starts again, has a new epoch; one that stops accepts no viewer any more.
pub proof fn law_launched_work_is_awaited<P, R, W>(
    state: EngineModel<P, R, W>,
    restart: bool,
    observed: Observed,
)
    requires
        state.actor.next_share < u64::MAX,
        state.actor.next_operation < u64::MAX,
        state.actor.next_session < u64::MAX,
    ensures
        ({
            let share = share_launched(state, observed);
            &&& share.session is None
            &&& share.pending_share is Some
            &&& !share.pending_share->0.cancelled
            &&& share.actor.accepts_operation_kind(
                share.pending_share->0.operation,
                OperationKind::StartShare,
            )
            &&& share.actor.lifecycle is Starting
            &&& share.actor.share_epoch.0 == state.actor.next_share + 1
            &&& share.actor.links == state.actor.links
            &&& share.actor.attempts.is_empty()
            &&& share.preview == state.preview
        }),
        ({
            let stop = stop_share_launched(state, observed);
            &&& stop.session is None
            &&& stop.pending_share is Some
            &&& !stop.pending_share->0.cancelled
            &&& stop.actor.accepts_operation_kind(
                stop.pending_share->0.operation,
                OperationKind::StopShare,
            )
            &&& stop.actor.lifecycle is Stopping
            &&& stop.actor.links.is_empty() && stop.actor.attempts.is_empty()
            &&& stop.actor.share_epoch == state.actor.share_epoch
            &&& stop.preview == preview_begun(state.preview)
        }),
        ({
            let update = update_launched(state, restart, observed);
            &&& update.session is None
            &&& update.pending_share is Some
            &&& !update.pending_share->0.cancelled
            &&& update.actor.accepts_operation_kind(
                update.pending_share->0.operation,
                OperationKind::UpdateSession,
            )
            &&& update.actor.lifecycle == state.actor.lifecycle
            &&& restart ==> update.actor.share_epoch.0 == state.actor.next_share + 1
                && update.actor.links.is_empty() && update.preview == preview_begun(state.preview)
            &&& !restart ==> update.actor.share_epoch == state.actor.share_epoch
                && update.actor.links == state.actor.links && update.actor.attempts
                == state.actor.attempts && update.preview == state.preview
        }),
        ({
            let stop = stop_launched(state, observed);
            &&& stop.session is None
            &&& stop.pending_stop_operation is Some
            &&& stop.actor.accepts_operation_kind(
                stop.pending_stop_operation->0,
                OperationKind::StopSession,
            )
            &&& stop.actor.lifecycle is Stopping
            &&& stop.actor.session_epoch.0 == state.actor.next_session + 1
            &&& stop.pending_share == state.pending_share
            &&& stop.stop_waiters == state.stop_waiters
        }),
{
}

/// A stop cancels the work that is out, and only that: whoever asks waits for it, behind
/// those who asked before. Where nothing is out the session itself is cleaned up, and where
/// there is none nothing changes.
pub proof fn law_stop_reaches_what_is_out<P, R, W>(
    state: EngineModel<P, R, W>,
    waiter: W,
    observed: Observed,
)
    ensures
        ({
            let after = stop_asked(state, waiter, observed);
            let waits = state.pending_start is Some || state.pending_share is Some;
            &&& state.pending_start is Some ==> {
                &&& after.pending_start is Some
                &&& after.pending_start->0.cancelled
                &&& after.pending_start->0.operation == state.pending_start->0.operation
                &&& after.pending_share == state.pending_share
            }
            &&& state.pending_start is None && state.pending_share is Some ==> {
                &&& after.pending_share is Some
                &&& after.pending_share->0.cancelled
                &&& after.pending_share->0.operation == state.pending_share->0.operation
                &&& after.pending_start is None
            }
            &&& waits ==> {
                &&& after.stop_waiters.drop_last() == state.stop_waiters
                &&& after.stop_waiters.last() == waiter
                &&& after.actor == state.actor.invalidate_session()
                &&& after.session == state.session
                &&& after.pending_stop_operation == state.pending_stop_operation
            }
            &&& !waits && state.session is None ==> after == state
            &&& !waits && state.session is Some ==> after.session is None
                && after.pending_stop_operation is Some && after.stop_waiters == state.stop_waiters
        }),
{
    let after = stop_asked(state, waiter, observed);
    if state.pending_start is Some || state.pending_share is Some {
        assert(after.stop_waiters.drop_last() =~= state.stop_waiters);
    }
}

/// An update is refused without a session, for settings that do not fit, and while other work
/// is out, in this order, and for nothing else.
pub proof fn law_updates_are_refused_in_order<P, R, W>(
    state: EngineModel<P, R, W>,
    request: UpdateMediaSessionRequest,
    source_id: SourceIdUpdate,
)
    ensures
        ({
            let refusal = update_refusal(state, request, source_id);
            let busy = state.pending_start is Some || state.pending_share is Some;
            &&& state.session is None ==> refusal == Some(ErrorModel::NoActiveSession)
            &&& state.session is Some ==> {
                let next = updated_request(state.session->0.request, request, source_id);
                &&& config_refusal(next) is Some ==> refusal == config_refusal(next)
                &&& config_refusal(next) is None && busy ==> refusal == Some(
                    ErrorModel::SessionAlreadyActive,
                )
                &&& config_refusal(next) is None && !busy ==> refusal is None
            }
        }),
{
}

/// Peers that did not end are kept behind those that were kept already. Only once none is
/// left, and there is no session, does an engine that waited for them become idle.
pub proof fn law_peers_are_kept_until_they_end<P, R, W>(
    state: EngineModel<P, R, W>,
    peers: Seq<P>,
)
    ensures
        ({
            let after = peers_retained(state, peers);
            let idle = state.pending_peer_cleanup.len() == 0 && peers.len() == 0 && state.session
                is None && state.actor.lifecycle is CleanupPending;
            &&& after.pending_peer_cleanup.take(state.pending_peer_cleanup.len() as int)
                == state.pending_peer_cleanup
            &&& after.pending_peer_cleanup.skip(state.pending_peer_cleanup.len() as int) == peers
            &&& idle ==> after.actor.lifecycle is Idle
            &&& !idle ==> after.actor == state.actor && after.detail == state.detail
            &&& after.session == state.session
        }),
{
    let after = peers_retained(state, peers);
    assert(after.pending_peer_cleanup.take(state.pending_peer_cleanup.len() as int)
        =~= state.pending_peer_cleanup);
    assert(after.pending_peer_cleanup.skip(state.pending_peer_cleanup.len() as int) =~= peers);
}

/// While work is out the engine is shown as before, but for the state and the words of that
/// work: starting or updating, or stopping.
pub proof fn law_work_that_is_out_is_shown<P, R, W>(
    state: EngineModel<P, R, W>,
    restart: bool,
    observed: Observed,
)
    ensures
        ({
            let shown = share_launched(state, observed).transition;
            &&& shown is Some && shown->0.state is Starting
            &&& shown->0.detail == "Share start is acquiring capture resources."@
        }),
        ({
            let shown = stop_share_launched(state, observed).transition;
            &&& shown is Some && shown->0.state is Stopping
            &&& shown->0.detail == "Share cleanup is waiting for workers to quiesce."@
        }),
        ({
            let shown = update_launched(state, restart, observed).transition;
            &&& shown is Some && shown->0.state is Starting
            &&& shown->0.detail == "Session update is acquiring the requested resources."@
        }),
        ({
            let shown = stop_launched(state, observed).transition;
            &&& shown is Some && shown->0.state is Stopping
            &&& shown->0.detail == "Session cleanup is waiting for resources to quiesce."@
        }),
{
}

/// Work that comes too late and brings a session back puts the engine in cleanup: it waits for
/// a stop that it accepts, with those who asked for one. Where nothing came back it is idle.
pub proof fn law_late_work_is_cleaned_up<P, R, W>(
    settled: EngineModel<P, R, W>,
    session: Option<SessionModel<P, R>>,
    observed: Observed,
    words: StaleTexts,
)
    requires
        settled.actor.next_operation < u64::MAX,
    ensures
        ({
            let (after, effect) = came_late(settled, session, observed, words);
            &&& effect.error == Some(ErrorModel::NativeCapture(words.error))
            &&& after.stop_waiters.len() == 0
            &&& after.session == settled.session
            &&& (session matches Some(found) ==> {
                &&& after.actor.lifecycle is Stopping
                &&& after.pending_stop_operation is Some
                &&& after.actor.accepts_operation_kind(
                    after.pending_stop_operation->0,
                    OperationKind::StopSession,
                )
                &&& effect.stale is Some
                &&& effect.stale->0 == (
                    after.pending_stop_operation->0,
                    found,
                    settled.stop_waiters,
                )
                &&& after.transition is Some && after.transition->0.detail == words.transition
                &&& effect.waiters.len() == 0
            })
            &&& session is None ==> {
                &&& after.actor.lifecycle is Idle
                &&& after.detail == words.idle
                &&& effect.waiters == settled.stop_waiters
                &&& effect.stale is None
            }
        }),
{
}

/// Work that comes too late is told by the name of that work.
pub proof fn law_late_work_is_told_by_name<P, R, W>(
    settled: EngineModel<P, R, W>,
    session: Option<SessionModel<P, R>>,
    observed: Observed,
)
    ensures
        came_late(settled, session, observed, late_start()).1.error == Some(
            ErrorModel::NativeCapture("session start completion became stale"@),
        ),
        came_late(settled, session, observed, late_share()).1.error == Some(
            ErrorModel::NativeCapture("share start completion became stale"@),
        ),
        came_late(settled, session, observed, late_stop_share()).1.error == Some(
            ErrorModel::NativeCapture("share cleanup completion became stale"@),
        ),
        came_late(settled, session, observed, late_update()).1.error == Some(
            ErrorModel::NativeCapture("session update completion became stale"@),
        ),
{
}

/// The line on an operation opens with its session and ends with what is said of it, and
/// operations of two kinds are never told by the same word.
pub proof fn law_operations_are_told_apart(
    operation: OperationFence,
    kind: OperationKind,
    detail: Seq<char>,
)
    ensures
        crate::text::begins_with(
            operation_line(operation, detail),
            "session="@ + decimal(operation.epoch.session.0 as nat) + " share="@,
        ),
        crate::text::ends_with(
            operation_line(operation, detail),
            kind_text(operation.kind) + " "@ + detail,
        ),
        kind_text(operation.kind) == kind_text(kind) ==> operation.kind == kind,
{
    let line = operation_line(operation, detail);
    let opening = "session="@ + decimal(operation.epoch.session.0 as nat) + " share="@;
    let closing = kind_text(operation.kind) + " "@ + detail;
    assert(line.subrange(0, opening.len() as int) =~= opening);
    assert(line.subrange(line.len() - closing.len(), line.len() as int) =~= closing);
    reveal_strlit("Generic");
    reveal_strlit("StartSession");
    reveal_strlit("StartShare");
    reveal_strlit("StopShare");
    reveal_strlit("UpdateSession");
    reveal_strlit("StopSession");
    assert("Generic"@.len() == 7 && "StartSession"@.len() == 12 && "StartShare"@.len() == 10);
    assert("StopShare"@.len() == 9 && "UpdateSession"@.len() == 13 && "StopSession"@.len() == 11);
}

} // verus!
