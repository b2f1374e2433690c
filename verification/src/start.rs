//! The native work of a session's start, step by step.
//!
//! Each step acquires one resource and may find that the start was called off. A start
//! that fails says what has to be given back.

use vstd::prelude::*;
use crate::capabilities::{CapabilitiesModel, MediaCapabilities};
use crate::control_plane::{SessionEpoch, ShareEpoch};
use crate::engine::{start_refusal, validate_start_config};
use crate::engine_error::{ErrorModel, MediaEngineError};
use crate::registry::Registry;
use crate::session::{LinkModel, SessionModel, SessionRecord};
use crate::text::push_text;
use crate::types::{CreateMediaSessionRequest, JoinMode, RequestModel};

verus! {

/// The system that the program was built for.
#[derive(Clone, Copy, Debug, PartialEq, Eq, Structural)]
pub enum HostSystem {
    Macos,
    Windows,
    Other,
}

/// A screen can be captured natively.
pub open spec fn captures(host: HostSystem, capabilities: CapabilitiesModel) -> bool {
    match host {
        HostSystem::Macos => capabilities.screen_capture_kit,
        HostSystem::Windows => capabilities.windows_graphics_capture,
        HostSystem::Other => false,
    }
}

/// Whether a screen can be captured natively.
pub fn native_capture_available(host: HostSystem, capabilities: &MediaCapabilities) -> (available:
    bool)
    ensures
        available == captures(host, capabilities@),
{
    match host {
        HostSystem::Macos => capabilities.screen_capture_kit,
        HostSystem::Windows => capabilities.windows_graphics_capture,
        HostSystem::Other => false,
    }
}

/// What a start has to acquire.
#[derive(Clone, Copy, Debug, PartialEq, Eq, Structural)]
pub struct StartPlan {
    /// The share begins with the session.
    pub share: bool,
    /// System audio was asked for.
    pub audio: bool,
    /// No room is opened.
    pub attach_only: bool,
    pub join_mode: JoinMode,
    /// Viewers can be connected natively.
    pub peers: bool,
    /// A screen can be captured natively.
    pub capture: bool,
    pub capture_implemented: bool,
}

/// Where a start is.
#[derive(Clone, Copy, Debug, PartialEq, Eq, Structural)]
pub enum StartStage {
    /// Build the pipeline, the audio channel with its tap, and the fanout.
    Pipeline,
    /// Start the capture.
    Capture,
    /// Open a room on the rendezvous server, not announced yet.
    Stunar,
    /// Open a room on the local network.
    Lan,
    /// Open a room on a direct address.
    Direct,
    /// Announce the room on the rendezvous server.
    Commit,
    /// Everything is there: rooms may let viewers in.
    Ready,
    Failed,
}

impl StartStage {
    /// The place of a stage in the order of the steps.
    pub open spec fn rank(self) -> int {
        match self {
            StartStage::Pipeline => 0,
            StartStage::Capture => 1,
            StartStage::Stunar => 2,
            StartStage::Lan => 3,
            StartStage::Direct => 4,
            StartStage::Commit => 5,
            StartStage::Ready => 6,
            StartStage::Failed => 7,
        }
    }
}

impl StartPlan {
    /// The plan goes through a stage.
    pub open spec fn wants(self, stage: StartStage) -> bool {
        match stage {
            StartStage::Pipeline => true,
            StartStage::Capture => self.share && self.capture,
            StartStage::Stunar => !self.attach_only && self.join_mode == JoinMode::Stunar,
            StartStage::Lan => !self.attach_only && self.join_mode == JoinMode::Lan,
            StartStage::Direct => !self.attach_only && self.join_mode == JoinMode::Direct,
            StartStage::Commit => !self.attach_only && self.join_mode == JoinMode::Stunar,
            StartStage::Ready => true,
            StartStage::Failed => false,
        }
    }

    /// The first stage of the plan after the given one.
    pub open spec fn after(self, done: StartStage) -> StartStage {
        if done.rank() < 1 && self.wants(StartStage::Capture) {
            StartStage::Capture
        } else if done.rank() < 2 && self.wants(StartStage::Stunar) {
            StartStage::Stunar
        } else if done.rank() < 3 && self.wants(StartStage::Lan) {
            StartStage::Lan
        } else if done.rank() < 4 && self.wants(StartStage::Direct) {
            StartStage::Direct
        } else if done.rank() < 5 && self.wants(StartStage::Commit) {
            StartStage::Commit
        } else {
            StartStage::Ready
        }
    }

    fn next(&self, done: StartStage) -> (stage: StartStage)
        requires
            done != StartStage::Ready,
            done != StartStage::Failed,
        ensures
            stage == self.after(done),
    {
        let joins: bool = !self.attach_only;
        match done {
            StartStage::Pipeline => if self.share && self.capture {
                StartStage::Capture
            } else {
                self.first_room()
            },
            StartStage::Capture => self.first_room(),
            StartStage::Stunar => if joins && self.join_mode == JoinMode::Stunar {
                StartStage::Commit
            } else if joins && self.join_mode == JoinMode::Lan {
                StartStage::Lan
            } else if joins && self.join_mode == JoinMode::Direct {
                StartStage::Direct
            } else {
                StartStage::Ready
            },
            StartStage::Lan => if joins && self.join_mode == JoinMode::Direct {
                StartStage::Direct
            } else if joins && self.join_mode == JoinMode::Stunar {
                StartStage::Commit
            } else {
                StartStage::Ready
            },
            StartStage::Direct => if joins && self.join_mode == JoinMode::Stunar {
                StartStage::Commit
            } else {
                StartStage::Ready
            },
            _ => StartStage::Ready,
        }
    }

    fn first_room(&self) -> (stage: StartStage)
        ensures
            stage == self.after(StartStage::Capture),
    {
        if self.attach_only {
            return StartStage::Ready;
        }
        match self.join_mode {
            JoinMode::Stunar => StartStage::Stunar,
            JoinMode::Lan => StartStage::Lan,
            JoinMode::Direct => StartStage::Direct,
        }
    }
}

/// What happens to the room on the rendezvous server when a start fails.
#[derive(Clone, Copy, Debug, PartialEq, Eq, Structural)]
pub enum StunarRollback {
    /// There is none.
    Untouched,
    /// It is closed.
    Close,
    /// It was never announced and is dropped.
    Abort,
}

/// What has to be given back.
#[derive(Clone, Copy, Debug, PartialEq, Eq, Structural)]
pub struct Rollback {
    pub stop_capture: bool,
    pub stunar: StunarRollback,
}

/// What comes next.
#[derive(Debug)]
pub enum StartMove {
    Next(StartStage),
    Failed(MediaEngineError, Rollback),
}

/// What a [`StartMove`] says.
pub enum MoveModel {
    Next(StartStage),
    Failed(ErrorModel, Rollback),
}

impl View for StartMove {
    type V = MoveModel;

    open spec fn view(&self) -> MoveModel {
        match *self {
            StartMove::Next(stage) => MoveModel::Next(stage),
            StartMove::Failed(error, rollback) => MoveModel::Failed(error@, rollback),
        }
    }
}

/// A start and what it acquired so far.
#[derive(Clone, Copy, Debug, PartialEq, Eq, Structural)]
pub struct StartTransaction {
    pub plan: StartPlan,
    pub stage: StartStage,
    /// System audio is captured.
    pub tap: bool,
    pub capturing: bool,
    pub stunar: bool,
    pub lan: bool,
    pub direct: bool,
}

/// The plan of a start.
pub open spec fn plan_of(
    request: RequestModel,
    host: HostSystem,
    capabilities: CapabilitiesModel,
) -> StartPlan {
    StartPlan {
        share: request.share_on_start,
        audio: request.system_audio,
        attach_only: request.attach_only,
        join_mode: request.join_mode,
        peers: capabilities.native_peer_transport_implemented,
        capture: captures(host, capabilities),
        capture_implemented: capabilities.native_capture_implemented,
    }
}

/// The error of a start that was called off.
pub open spec fn start_cancelled() -> ErrorModel {
    ErrorModel::NativeCapture("session start cancelled"@)
}

/// The session that a start leads to.
pub open spec fn session_of<P, R>(
    start: StartTransaction,
    id: Seq<char>,
    generation: u64,
    epochs: (SessionEpoch, ShareEpoch),
    request: RequestModel,
    resources: R,
) -> SessionModel<P, R> {
    SessionModel {
        id,
        generation,
        session_epoch: epochs.0,
        share_epoch: epochs.1,
        request,
        viewers: Map::<Seq<char>, LinkModel<P>>::empty(),
        order: Seq::empty(),
        has_fanout: start.plan.peers,
        has_audio_tap: start.tap,
        has_audio_channel: start.plan.audio,
        native_capture_active: start.plan.wants(StartStage::Capture),
        has_lan_room: start.plan.wants(StartStage::Lan),
        has_direct_room: start.plan.wants(StartStage::Direct),
        has_stunar: start.plan.wants(StartStage::Stunar),
        password: request.password,
        admission: request.admission,
        resources,
    }
}

impl StartTransaction {
    /// What is behind was acquired, and nothing else.
    pub open spec fn wf(self) -> bool {
        &&& self.stage != StartStage::Failed ==> {
            &&& self.capturing == (self.plan.wants(StartStage::Capture) && self.stage.rank() > 1)
            &&& self.stunar == (self.plan.wants(StartStage::Stunar) && self.stage.rank() > 2)
            &&& self.lan == (self.plan.wants(StartStage::Lan) && self.stage.rank() > 3)
            &&& self.direct == (self.plan.wants(StartStage::Direct) && self.stage.rank() > 4)
            &&& self.plan.wants(self.stage)
        }
        &&& self.tap ==> self.plan.share && self.plan.audio
    }

    /// A start of a plan, with nothing acquired.
    pub open spec fn fresh(plan: StartPlan) -> StartTransaction {
        StartTransaction {
            plan,
            stage: StartStage::Pipeline,
            tap: false,
            capturing: false,
            stunar: false,
            lan: false,
            direct: false,
        }
    }

    /// What has to be given back now.
    pub open spec fn rollback(self, cancelled: bool) -> Rollback {
        Rollback {
            stop_capture: self.capturing,
            stunar: if !self.stunar {
                StunarRollback::Untouched
            } else if cancelled {
                StunarRollback::Close
            } else {
                StunarRollback::Abort
            },
        }
    }

    /// The start with the resource of its stage.
    pub open spec fn acquired(self) -> StartTransaction {
        StartTransaction {
            capturing: self.capturing || self.stage == StartStage::Capture,
            stunar: self.stunar || self.stage == StartStage::Stunar,
            lan: self.lan || self.stage == StartStage::Lan,
            direct: self.direct || self.stage == StartStage::Direct,
            ..self
        }
    }

    /// The start goes on, unless it was called off.
    pub open spec fn advanced(self, cancelled: bool) -> (StartTransaction, MoveModel) {
        if cancelled {
            (
                StartTransaction { stage: StartStage::Failed, ..self },
                MoveModel::Failed(start_cancelled(), self.rollback(true)),
            )
        } else {
            let stage = self.plan.after(self.stage);
            (StartTransaction { stage, ..self }, MoveModel::Next(stage))
        }
    }

    /// The start after a step ended. Once the room is announced the start counts, even
    /// if it was called off meanwhile.
    pub open spec fn stepped(self, error: Option<Seq<char>>, cancelled: bool) -> (
        StartTransaction,
        MoveModel,
    ) {
        match error {
            Some(text) => (
                StartTransaction { stage: StartStage::Failed, ..self },
                MoveModel::Failed(
                    if self.stage == StartStage::Capture {
                        ErrorModel::NativeCapture(text)
                    } else {
                        ErrorModel::NativePeer(text)
                    },
                    self.rollback(false),
                ),
            ),
            None => self.acquired().advanced(cancelled && self.stage != StartStage::Commit),
        }
    }

    /// Begins a start: refused outright, called off at once, or on its way.
    pub fn new(
        request: &CreateMediaSessionRequest,
        host: HostSystem,
        capabilities: &MediaCapabilities,
        cancelled: bool,
    ) -> (start: Result<Self, MediaEngineError>)
        ensures
            match start_refusal(capabilities.supported, request@) {
                Some(error) => start is Err && start->Err_0@ == error,
                None => if cancelled {
                    start is Err && start->Err_0@ == start_cancelled()
                } else {
                    &&& start is Ok
                    &&& start->Ok_0.wf()
                    &&& start->Ok_0 == StartTransaction::fresh(
                        plan_of(request@, host, capabilities@),
                    )
                },
            },
    {
        match validate_start_config(capabilities.supported, request) {
            Ok(_) => {},
            Err(error) => {
                return Err(error);
            },
        }
        if cancelled {
            return Err(MediaEngineError::NativeCapture("session start cancelled".to_owned()));
        }
        Ok(
            StartTransaction {
                plan: StartPlan {
                    share: request.share_on_start,
                    audio: request.system_audio,
                    attach_only: request.attach_only,
                    join_mode: request.join_mode,
                    peers: capabilities.native_peer_transport_implemented,
                    capture: native_capture_available(host, capabilities),
                    capture_implemented: capabilities.native_capture_implemented,
                },
                stage: StartStage::Pipeline,
                tap: false,
                capturing: false,
                stunar: false,
                lan: false,
                direct: false,
            },
        )
    }

    /// Whether the tap is started with the pipeline. A tap that cannot start does not
    /// stop the session.
    pub fn starts_tap(&self) -> (starts: bool)
        ensures
            starts == (self.plan.share && self.plan.audio),
    {
        self.plan.share && self.plan.audio
    }

    fn give_back(&self, cancelled: bool) -> (rollback: Rollback)
        ensures
            rollback == self.rollback(cancelled),
    {
        Rollback {
            stop_capture: self.capturing,
            stunar: if !self.stunar {
                StunarRollback::Untouched
            } else if cancelled {
                StunarRollback::Close
            } else {
                StunarRollback::Abort
            },
        }
    }

    fn advance(&mut self, cancelled: bool) -> (next: StartMove)
        requires
            old(self).stage != StartStage::Ready,
            old(self).stage != StartStage::Failed,
        ensures
            (*final(self), next@) == old(self).advanced(cancelled),
    {
        if cancelled {
            let rollback = self.give_back(true);
            self.stage = StartStage::Failed;
            return StartMove::Failed(
                MediaEngineError::NativeCapture("session start cancelled".to_owned()),
                rollback,
            );
        }
        self.stage = self.plan.next(self.stage);
        StartMove::Next(self.stage)
    }

    /// The pipeline is built; the tap may run.
    pub fn on_pipeline(&mut self, tap: bool, cancelled: bool) -> (next: StartMove)
        requires
            old(self).wf(),
            old(self).stage == StartStage::Pipeline,
            tap ==> old(self).plan.share && old(self).plan.audio,
        ensures
            final(self).wf(),
            (*final(self), next@) == (StartTransaction { tap, ..*old(self) }).advanced(cancelled),
    {
        self.tap = tap;
        self.advance(cancelled)
    }

    /// A later step ended, well or with an error.
    pub fn on_step(&mut self, result: Result<(), String>, cancelled: bool) -> (next: StartMove)
        requires
            old(self).wf(),
            old(self).stage != StartStage::Pipeline,
            old(self).stage != StartStage::Ready,
            old(self).stage != StartStage::Failed,
        ensures
            final(self).wf(),
            (*final(self), next@) == old(self).stepped(
                match result {
                    Ok(_) => None,
                    Err(error) => Some(error@),
                },
                cancelled,
            ),
    {
        match result {
            Err(text) => {
                let rollback = self.give_back(false);
                let error = if self.stage == StartStage::Capture {
                    MediaEngineError::NativeCapture(text)
                } else {
                    MediaEngineError::NativePeer(text)
                };
                self.stage = StartStage::Failed;
                StartMove::Failed(error, rollback)
            },
            Ok(_) => {
                let committed: bool = self.stage == StartStage::Commit;
                if self.stage == StartStage::Capture {
                    self.capturing = true;
                }
                if self.stage == StartStage::Stunar {
                    self.stunar = true;
                }
                if self.stage == StartStage::Lan {
                    self.lan = true;
                }
                if self.stage == StartStage::Direct {
                    self.direct = true;
                }
                self.advance(cancelled && !committed)
            },
        }
    }

    /// What is said of the system audio.
    pub open spec fn audio_note(self) -> Seq<char> {
        if self.plan.audio && !self.tap {
            " System audio could not start; video is still sharing."@
        } else if self.plan.audio {
            " System audio is captured with selected apps excluded."@
        } else {
            ""@
        }
    }

    /// What is said of a session that started.
    pub open spec fn detail(self) -> Seq<char> {
        if !self.capturing {
            "Room is open. Share your screen when you want."@ + self.audio_note()
        } else if self.plan.capture_implemented {
            "Native capture is running. "@ + (match self.plan.join_mode {
                JoinMode::Lan => "Share the session code on your LAN."@,
                JoinMode::Direct => "Share your address and port."@,
                JoinMode::Stunar => "Share the session code. Needs the relay."@,
            }) + self.audio_note() + self.audio_note()
        } else {
            "Control session is running; native capture is not implemented on this platform."@
                + self.audio_note()
        }
    }

    /// What is said of a session that started.
    pub fn ready_detail(&self) -> (text: String)
        ensures
            text@ == self.detail(),
    {
        let note = if self.plan.audio && !self.tap {
            " System audio could not start; video is still sharing."
        } else if self.plan.audio {
            " System audio is captured with selected apps excluded."
        } else {
            ""
        };
        let mut text;
        if !self.capturing {
            text = "Room is open. Share your screen when you want.".to_owned();
        } else if self.plan.capture_implemented {
            text = "Native capture is running. ".to_owned();
            let share_note = match self.plan.join_mode {
                JoinMode::Lan => "Share the session code on your LAN.",
                JoinMode::Direct => "Share your address and port.",
                JoinMode::Stunar => "Share the session code. Needs the relay.",
            };
            push_text(&mut text, share_note);
            push_text(&mut text, note);
        } else {
            text =
            "Control session is running; native capture is not implemented on this platform.".to_owned();
        }
        push_text(&mut text, note);
        text
    }

    /// The session that a start leads to.
    pub fn create_session_bundle<P, R>(
        &self,
        id: String,
        generation: u64,
        session_epoch: SessionEpoch,
        share_epoch: ShareEpoch,
        request: &CreateMediaSessionRequest,
        resources: R,
    ) -> (session: SessionRecord<P, R>)
        requires
            self.wf(),
            self.stage == StartStage::Ready,
        ensures
            session.wf(),
            session@ == session_of::<P, R>(
                *self,
                id@,
                generation,
                (session_epoch, share_epoch),
                request@,
                resources,
            ),
            session@ == (SessionModel {
                id: id@,
                generation,
                session_epoch,
                share_epoch,
                request: request@,
                viewers: Map::<Seq<char>, LinkModel<P>>::empty(),
                order: Seq::empty(),
                has_fanout: self.plan.peers,
                has_audio_tap: self.tap,
                has_audio_channel: self.plan.audio,
                native_capture_active: self.plan.wants(StartStage::Capture),
                has_lan_room: self.plan.wants(StartStage::Lan),
                has_direct_room: self.plan.wants(StartStage::Direct),
                has_stunar: self.plan.wants(StartStage::Stunar),
                password: request@.password,
                admission: request@.admission,
                resources,
            }),
    {
        let session = SessionRecord {
            id,
            generation,
            session_epoch,
            share_epoch,
            request: request.clone(),
            viewers: Registry::new(),
            has_fanout: self.plan.peers,
            has_audio_tap: self.tap,
            has_audio_channel: self.plan.audio,
            native_capture_active: self.capturing,
            has_lan_room: self.lan,
            has_direct_room: self.direct,
            has_stunar: self.stunar,
            password: request.password.clone(),
            admission: request.admission,
            resources,
        };
        assert(session@.viewers =~= Map::<Seq<char>, LinkModel<P>>::empty());
        session
    }
}

/// A start that fails gives back exactly what runs outside of the session: the capture,
/// if the capture is behind, and the room on the rendezvous server, if that is behind.
pub proof fn law_failed_start_gives_back(
    start: StartTransaction,
    error: Option<Seq<char>>,
    cancelled: bool,
)
    requires
        start.wf(),
        0 < start.stage.rank() < 6,
    ensures
        start.stepped(error, cancelled).1 matches MoveModel::Failed(_, rollback) ==> {
            let done = start.stage.rank() + if error is None {
                1int
            } else {
                0int
            };
            &&& rollback.stop_capture == (start.plan.wants(StartStage::Capture) && done > 1)
            &&& (rollback.stunar != StunarRollback::Untouched) == (start.plan.wants(
                StartStage::Stunar,
            ) && done > 2)
        },
{
}

/// A start that is called off before its room is announced never becomes a session.
pub proof fn law_cancelled_start_is_never_ready(
    start: StartTransaction,
    error: Option<Seq<char>>,
    tap: bool,
)
    requires
        start.wf(),
        start.stage.rank() < 5,
    ensures
        (StartTransaction { tap, ..start }).advanced(true).0.stage == StartStage::Failed,
        start.stepped(error, true).0.stage == StartStage::Failed,
{
}

/// Every step leads on: a start ends after at most as many steps as there are stages.
pub proof fn law_start_ends(start: StartTransaction, error: Option<Seq<char>>, cancelled: bool)
    requires
        start.wf(),
        start.stage.rank() < 6,
    ensures
        start.advanced(cancelled).0.stage.rank() > start.stage.rank(),
        start.stepped(error, cancelled).0.stage.rank() > start.stage.rank(),
{
}

/// A start that is ready holds everything that its plan asks for, and nothing else.
pub proof fn law_ready_start_is_complete(start: StartTransaction)
    requires
        start.wf(),
        start.stage == StartStage::Ready,
    ensures
        start.capturing == start.plan.wants(StartStage::Capture),
        start.stunar == start.plan.wants(StartStage::Stunar),
        start.lan == start.plan.wants(StartStage::Lan),
        start.direct == start.plan.wants(StartStage::Direct),
{
}

/// A plan is made of what was asked for and of what the computer can do: each system by its
/// own way to capture.
pub proof fn law_plans_follow_the_request(
    request: RequestModel,
    host: HostSystem,
    capabilities: CapabilitiesModel,
)
    ensures
        ({
            let plan = plan_of(request, host, capabilities);
            &&& plan.share == request.share_on_start
            &&& plan.audio == request.system_audio
            &&& plan.attach_only == request.attach_only
            &&& plan.join_mode == request.join_mode
            &&& plan.peers == capabilities.native_peer_transport_implemented
            &&& plan.capture_implemented == capabilities.native_capture_implemented
            &&& host is Macos ==> plan.capture == capabilities.screen_capture_kit
            &&& host is Windows ==> plan.capture == capabilities.windows_graphics_capture
            &&& host is Other ==> !plan.capture
        }),
{
}

/// A start captures where it shares and can; it opens the one room of its mode, and none where
/// it only attaches; it announces exactly a room on the rendezvous server.
pub proof fn law_one_room_is_opened(plan: StartPlan)
    ensures
        plan.wants(StartStage::Capture) <==> plan.share && plan.capture,
        plan.attach_only ==> !plan.wants(StartStage::Stunar) && !plan.wants(StartStage::Lan)
            && !plan.wants(StartStage::Direct),
        !plan.attach_only ==> (plan.wants(StartStage::Stunar) <==> plan.join_mode is Stunar),
        !plan.attach_only ==> (plan.wants(StartStage::Lan) <==> plan.join_mode is Lan),
        !plan.attach_only ==> (plan.wants(StartStage::Direct) <==> plan.join_mode is Direct),
        plan.wants(StartStage::Commit) <==> plan.wants(StartStage::Stunar),
{
}

/// The next stage is the first behind that the plan asks for: none that it asks for is passed
/// over.
pub proof fn law_no_stage_is_passed_over(plan: StartPlan, done: StartStage, between: StartStage)
    requires
        done.rank() < 6,
        done.rank() < between.rank() < plan.after(done).rank(),
    ensures
        !plan.wants(between),
        plan.wants(plan.after(done)),
{
}

/// A step that succeeds adds its own resource and no other. A failed capture is told as one,
/// any other failure as one of the connection. What a start that fails has to give back to
/// the rendezvous server is closed where it was called off, and dropped where it failed.
pub proof fn law_steps_add_their_own(
    start: StartTransaction,
    error: Option<Seq<char>>,
    cancelled: bool,
)
    requires
        0 < start.stage.rank() < 6,
    ensures
        ({
            let (after, next) = start.stepped(error, cancelled);
            let went = error is None && !(cancelled && !(start.stage is Commit));
            &&& after.plan == start.plan && after.tap == start.tap
            &&& error is Some ==> {
                &&& next is Failed
                &&& after.stage is Failed
                &&& start.stage is Capture ==> next->Failed_0 == ErrorModel::NativeCapture(error->0)
                &&& !(start.stage is Capture) ==> next->Failed_0 == ErrorModel::NativePeer(error->0)
                &&& next->Failed_1.stop_capture == start.capturing
                &&& start.stunar ==> next->Failed_1.stunar is Abort
                &&& !start.stunar ==> next->Failed_1.stunar is Untouched
            }
            &&& error is None ==> {
                &&& after.capturing == (start.capturing || start.stage is Capture)
                &&& after.stunar == (start.stunar || start.stage is Stunar)
                &&& after.lan == (start.lan || start.stage is Lan)
                &&& after.direct == (start.direct || start.stage is Direct)
            }
            &&& went ==> next == MoveModel::Next(after.stage) && after.stage == start.plan.after(
                start.stage,
            )
            &&& error is None && !went ==> {
                &&& next is Failed
                &&& after.stage is Failed
                &&& next->Failed_0 == ErrorModel::NativeCapture("session start cancelled"@)
                &&& next->Failed_1.stop_capture == after.capturing
                &&& after.stunar ==> next->Failed_1.stunar is Close
                &&& !after.stunar ==> next->Failed_1.stunar is Untouched
            }
        }),
{
}

/// The session of a start is the one that was asked for, with the parts that the start
/// acquired, nobody in it yet, and the credentials of the request.
pub proof fn law_sessions_hold_what_was_acquired<P, R>(
    start: StartTransaction,
    id: Seq<char>,
    generation: u64,
    epochs: (SessionEpoch, ShareEpoch),
    request: RequestModel,
    resources: R,
)
    requires
        start.wf(),
        start.stage is Ready,
    ensures
        ({
            let session = session_of::<P, R>(start, id, generation, epochs, request, resources);
            &&& session.id == id && session.generation == generation
            &&& session.session_epoch == epochs.0 && session.share_epoch == epochs.1
            &&& session.request == request
            &&& session.order.len() == 0
            &&& session.native_capture_active == start.capturing
            &&& session.has_lan_room == start.lan
            &&& session.has_direct_room == start.direct
            &&& session.has_stunar == start.stunar
            &&& session.has_fanout == start.plan.peers
            &&& session.has_audio_channel == start.plan.audio
            &&& session.has_audio_tap == start.tap
            &&& session.password == request.password && session.admission == request.admission
        }),
{
}

/// What is said of the audio tells whether it was asked for and whether it runs.
pub proof fn law_audio_is_told(start: StartTransaction)
    ensures
        !start.plan.audio ==> start.audio_note() == ""@,
        start.plan.audio && start.tap ==> start.audio_note()
            == " System audio is captured with selected apps excluded."@,
        start.plan.audio && !start.tap ==> start.audio_note()
            == " System audio could not start; video is still sharing."@,
        !start.capturing ==> crate::text::begins_with(
            start.detail(),
            "Room is open. Share your screen when you want."@,
        ),
        start.capturing && start.plan.capture_implemented ==> crate::text::begins_with(
            start.detail(),
            "Native capture is running. "@,
        ),
        crate::text::ends_with(start.detail(), start.audio_note()),
{
    let text = start.detail();
    let note = start.audio_note();
    assert(text.subrange(text.len() - note.len(), text.len() as int) =~= note);
    if !start.capturing {
        let opening = "Room is open. Share your screen when you want."@;
        assert(text.subrange(0, opening.len() as int) =~= opening);
    } else if start.plan.capture_implemented {
        let opening = "Native capture is running. "@;
        assert(text.subrange(0, opening.len() as int) =~= opening);
    }
}

/// A system captures by its own means only: what another system has does not count, and one
/// that is neither captures nothing.
pub proof fn law_systems_capture_by_their_own_means(
    capabilities: CapabilitiesModel,
    other: CapabilitiesModel,
)
    ensures
        capabilities.screen_capture_kit == other.screen_capture_kit ==> captures(
            HostSystem::Macos,
            capabilities,
        ) == captures(HostSystem::Macos, other),
        capabilities.windows_graphics_capture == other.windows_graphics_capture ==> captures(
            HostSystem::Windows,
            capabilities,
        ) == captures(HostSystem::Windows, other),
        capabilities.screen_capture_kit ==> captures(HostSystem::Macos, capabilities),
        capabilities.windows_graphics_capture ==> captures(HostSystem::Windows, capabilities),
        !capabilities.screen_capture_kit && !capabilities.windows_graphics_capture ==> !captures(
            HostSystem::Macos,
            capabilities,
        ) && !captures(HostSystem::Windows, capabilities),
        !captures(HostSystem::Other, capabilities),
{
}

} // verus!
