//! The native work of starting a share and of updating a session, step by step.

use vstd::prelude::*;
use crate::cleanup::{
    opt_report, report, shutdown_audio_tap, tap_refusal, tap_shut_down, ReportModel,
};
use crate::control_plane::ShareEpoch;
use crate::engine::UpdatePlan;
use crate::engine_error::{ErrorModel, MediaEngineError};
use crate::fanout::ShutdownStatus;
use crate::pipeline::{floor_set, rate_set, EncoderControl};
use crate::session::{SessionModel, SessionRecord};
use crate::text::push_text;
use crate::types::{CreateMediaSessionRequest, RequestModel};

verus! {

/// Where the start of a share is.
#[derive(Clone, Copy, Debug, PartialEq, Eq, Structural)]
pub enum ShareStage {
    /// Stop the pipeline of the last share.
    StopPipeline,
    /// Stop the fanout of the last share.
    StopFanout,
    /// Stop the tap of the last share.
    StopTap,
    /// Build the pipeline, the audio channel with its tap, and the fanout.
    Build,
    /// Start the capture.
    StartCapture,
    /// Try again to start the tap.
    StartTap,
    /// Stop the capture again.
    UndoCapture,
    /// Stop the capture again, and the tap if it runs.
    UndoAll,
    Ended,
}

/// What comes next.
#[derive(Debug)]
pub enum ShareMove {
    Next(ShareStage),
    /// The share stands; the text says how.
    Started(String),
    Failed(MediaEngineError),
}

/// What a [`ShareMove`] says.
pub enum ShareMoveModel {
    Next(ShareStage),
    Started(Seq<char>),
    Failed(ErrorModel),
}

impl View for ShareMove {
    type V = ShareMoveModel;

    open spec fn view(&self) -> ShareMoveModel {
        match *self {
            ShareMove::Next(stage) => ShareMoveModel::Next(stage),
            ShareMove::Started(detail) => ShareMoveModel::Started(detail@),
            ShareMove::Failed(error) => ShareMoveModel::Failed(error@),
        }
    }
}

/// The start of a share and the session that it is for.
pub struct ShareStart<P, R> {
    pub session: SessionRecord<P, R>,
    pub stage: ShareStage,
    /// A screen can be captured natively.
    pub capture: bool,
    /// Viewers can be connected natively.
    pub peers: bool,
    /// The epoch of the share.
    pub epoch: ShareEpoch,
}

/// What a [`ShareStart`] holds.
#[verifier::ext_equal]
pub struct ShareModel<P, R> {
    pub session: SessionModel<P, R>,
    pub stage: ShareStage,
    pub capture: bool,
    pub peers: bool,
    pub epoch: ShareEpoch,
}

impl<P, R> View for ShareStart<P, R> {
    type V = ShareModel<P, R>;

    open spec fn view(&self) -> ShareModel<P, R> {
        ShareModel {
            session: self.session@,
            stage: self.stage,
            capture: self.capture,
            peers: self.peers,
            epoch: self.epoch,
        }
    }
}

impl<P, R> ShareModel<P, R> {
    /// The start at another stage.
    pub open spec fn at(self, stage: ShareStage) -> (ShareModel<P, R>, ShareMoveModel) {
        (ShareModel { stage, ..self }, ShareMoveModel::Next(stage))
    }

    /// The start failed; the session is as it is.
    pub open spec fn failed(self, error: ErrorModel) -> (ShareModel<P, R>, ShareMoveModel) {
        (ShareModel { stage: ShareStage::Ended, ..self }, ShareMoveModel::Failed(error))
    }

    /// The share stands.
    pub open spec fn started(self) -> (ShareModel<P, R>, ShareMoveModel) {
        (
            ShareModel {
                session: SessionModel {
                    native_capture_active: self.capture,
                    share_epoch: self.epoch,
                    ..self.session
                },
                stage: ShareStage::Ended,
                ..self
            },
            ShareMoveModel::Started(
                if self.capture {
                    "Native capture is running."@
                } else {
                    "Share slot is open; native capture is unavailable."@
                },
            ),
        )
    }

    /// The start was called off and nothing has to be undone.
    pub open spec fn called_off(self) -> (ShareModel<P, R>, ShareMoveModel) {
        (ShareModel {
            session: SessionModel { native_capture_active: false, ..self.session },
            ..self
        }).failed(ErrorModel::NativeCapture("share start cancelled"@))
    }

    /// The first step after the pipeline stopped.
    pub open spec fn after_pipeline(self) -> (ShareModel<P, R>, ShareMoveModel) {
        if self.session.has_fanout {
            self.at(ShareStage::StopFanout)
        } else {
            self.after_fanout()
        }
    }

    /// The first step after the fanout stopped.
    pub open spec fn after_fanout(self) -> (ShareModel<P, R>, ShareMoveModel) {
        if self.session.has_audio_tap {
            self.at(ShareStage::StopTap)
        } else {
            self.at(ShareStage::Build)
        }
    }

    /// The first step of a start.
    pub open spec fn begun(self) -> (ShareModel<P, R>, ShareMoveModel) {
        if self.session.native_capture_active {
            (
                ShareModel { stage: ShareStage::Ended, ..self },
                ShareMoveModel::Started("Share is already running."@),
            )
        } else {
            self.at(ShareStage::StopPipeline)
        }
    }

    /// The pipeline, the fanout or the tap of the last share reported its shutdown.
    pub open spec fn stopped(self, report: ReportModel) -> (ShareModel<P, R>, ShareMoveModel) {
        let clean = report.quiesced && report.errors.len() == 0;
        match self.stage {
            ShareStage::StopPipeline => if clean {
                self.after_pipeline()
            } else {
                self.failed(ErrorModel::NativeCapture("Share pipeline cleanup is pending"@))
            },
            ShareStage::StopFanout => if clean {
                (ShareModel {
                    session: SessionModel { has_fanout: false, ..self.session },
                    ..self
                }).after_fanout()
            } else {
                self.failed(ErrorModel::NativePeer("Share fanout cleanup is pending"@))
            },
            _ => match tap_refusal(report) {
                None => (ShareModel {
                    session: SessionModel { has_audio_tap: false, ..self.session },
                    ..self
                }).at(ShareStage::Build),
                Some(text) => self.failed(ErrorModel::NativeCapture(text)),
            },
        }
    }

    /// The parts of the share are built; the tap may run.
    pub open spec fn built(self, tap: bool, cancelled: bool) -> (ShareModel<P, R>, ShareMoveModel) {
        let ready = ShareModel {
            session: SessionModel {
                has_audio_channel: self.session.request.system_audio,
                has_audio_tap: tap,
                has_fanout: self.peers,
                ..self.session
            },
            ..self
        };
        if self.capture {
            ready.at(ShareStage::StartCapture)
        } else if cancelled {
            ready.called_off()
        } else {
            ready.started()
        }
    }

    /// The capture started or did not.
    pub open spec fn captured(self, error: Option<Seq<char>>, cancelled: bool) -> (
        ShareModel<P, R>,
        ShareMoveModel,
    ) {
        if error is Some {
            self.failed(ErrorModel::NativeCapture(error->0))
        } else if cancelled {
            self.at(ShareStage::UndoCapture)
        } else if self.session.request.system_audio && !self.session.has_audio_tap {
            self.at(ShareStage::StartTap)
        } else {
            self.started()
        }
    }

    /// The tap was tried again.
    pub open spec fn tapped(self, tap: bool, cancelled: bool) -> (ShareModel<P, R>, ShareMoveModel) {
        let ready = ShareModel {
            session: SessionModel { has_audio_tap: tap, ..self.session },
            ..self
        };
        if cancelled {
            ready.at(ShareStage::UndoAll)
        } else {
            ready.started()
        }
    }

    /// The capture was stopped again, and so was the tap where it reports. A tap that did
    /// not stop stays with the session.
    pub open spec fn undone(self, tap: Option<ReportModel>) -> (ShareModel<P, R>, ShareMoveModel) {
        (ShareModel { session: tap_shut_down(self.session, tap).0, ..self }).called_off()
    }
}

impl<P, R> ShareStart<P, R> {
    /// Begins the start of a share.
    pub fn start_share_bundle(
        session: SessionRecord<P, R>,
        capture: bool,
        peers: bool,
        epoch: ShareEpoch,
    ) -> (begun: (Self, ShareMove))
        requires
            session.wf(),
        ensures
            begun.0.session.wf(),
            (begun.0@, begun.1@) == (ShareModel {
                session: session@,
                stage: ShareStage::StopPipeline,
                capture,
                peers,
                epoch,
            }).begun(),
    {
        if session.native_capture_active {
            return (
                ShareStart { session, stage: ShareStage::Ended, capture, peers, epoch },
                ShareMove::Started("Share is already running.".to_owned()),
            );
        }
        (
            ShareStart { session, stage: ShareStage::StopPipeline, capture, peers, epoch },
            ShareMove::Next(ShareStage::StopPipeline),
        )
    }

    fn go(&mut self, stage: ShareStage) -> (next: ShareMove)
        requires
            old(self).session.wf(),
        ensures
            final(self).session.wf(),
            (final(self)@, next@) == old(self)@.at(stage),
    {
        self.stage = stage;
        ShareMove::Next(stage)
    }

    fn fail(&mut self, error: MediaEngineError) -> (next: ShareMove)
        requires
            old(self).session.wf(),
        ensures
            final(self).session.wf(),
            (final(self)@, next@) == old(self)@.failed(error@),
    {
        self.stage = ShareStage::Ended;
        ShareMove::Failed(error)
    }

    fn call_off(&mut self) -> (next: ShareMove)
        requires
            old(self).session.wf(),
        ensures
            final(self).session.wf(),
            (final(self)@, next@) == old(self)@.called_off(),
    {
        self.session.native_capture_active = false;
        self.fail(MediaEngineError::NativeCapture("share start cancelled".to_owned()))
    }

    fn finish(&mut self) -> (next: ShareMove)
        requires
            old(self).session.wf(),
        ensures
            final(self).session.wf(),
            (final(self)@, next@) == old(self)@.started(),
    {
        self.session.native_capture_active = self.capture;
        self.session.share_epoch = self.epoch;
        self.stage = ShareStage::Ended;
        let detail = if self.capture {
            "Native capture is running."
        } else {
            "Share slot is open; native capture is unavailable."
        };
        ShareMove::Started(detail.to_owned())
    }

    fn leave_fanout(&mut self) -> (next: ShareMove)
        requires
            old(self).session.wf(),
        ensures
            final(self).session.wf(),
            (final(self)@, next@) == old(self)@.after_fanout(),
    {
        if self.session.has_audio_tap {
            self.go(ShareStage::StopTap)
        } else {
            self.go(ShareStage::Build)
        }
    }

    fn set_tap(&mut self, tap: bool)
        requires
            old(self).session.wf(),
        ensures
            final(self).session.wf(),
            final(self).capture == old(self).capture,
            final(self)@ == (ShareModel {
                session: SessionModel { has_audio_tap: tap, ..old(self)@.session },
                ..old(self)@
            }),
    {
        self.session.has_audio_tap = tap;
    }

    fn clear_fanout(&mut self)
        requires
            old(self).session.wf(),
        ensures
            final(self).session.wf(),
            final(self)@ == (ShareModel {
                session: SessionModel { has_fanout: false, ..old(self)@.session },
                ..old(self)@
            }),
    {
        self.session.has_fanout = false;
    }

    fn set_parts(&mut self, tap: bool)
        requires
            old(self).session.wf(),
        ensures
            final(self).session.wf(),
            final(self).capture == old(self).capture,
            final(self)@ == (ShareModel {
                session: SessionModel {
                    has_audio_channel: old(self)@.session.request.system_audio,
                    has_audio_tap: tap,
                    has_fanout: old(self).peers,
                    ..old(self)@.session
                },
                ..old(self)@
            }),
    {
        self.session.has_audio_channel = self.session.request.system_audio;
        self.session.has_audio_tap = tap;
        self.session.has_fanout = self.peers;
    }

    /// Takes the report of what was to be stopped.
    pub fn on_stopped(&mut self, status: ShutdownStatus) -> (next: ShareMove)
        requires
            old(self).session.wf(),
            old(self).stage == ShareStage::StopPipeline || old(self).stage
                == ShareStage::StopFanout || old(self).stage == ShareStage::StopTap,
            old(self).stage == ShareStage::StopTap ==> old(self).session.has_audio_tap,
        ensures
            final(self).session.wf(),
            (final(self)@, next@) == old(self)@.stopped(report(status)),
    {
        let clean: bool = status.quiesced && status.errors.len() == 0;
        match self.stage {
            ShareStage::StopPipeline => {
                if !clean {
                    return self.fail(
                        MediaEngineError::NativeCapture(
                            "Share pipeline cleanup is pending".to_owned(),
                        ),
                    );
                }
                if self.session.has_fanout {
                    self.go(ShareStage::StopFanout)
                } else {
                    self.leave_fanout()
                }
            },
            ShareStage::StopFanout => {
                if !clean {
                    return self.fail(
                        MediaEngineError::NativePeer("Share fanout cleanup is pending".to_owned()),
                    );
                }
                self.clear_fanout();
                self.leave_fanout()
            },
            _ => {
                match shutdown_audio_tap(&mut self.session, &Some(status)) {
                    Ok(_) => self.go(ShareStage::Build),
                    Err(text) => {
                        assert(self.session@ =~= old(self).session@);
                        self.fail(MediaEngineError::NativeCapture(text))
                    },
                }
            },
        }
    }

    /// The parts of the share are built. A tap that cannot start does not stop the share.
    pub fn on_built(&mut self, tap: bool, cancelled: bool) -> (next: ShareMove)
        requires
            old(self).session.wf(),
            old(self).stage == ShareStage::Build,
            tap ==> old(self).session.request.system_audio,
        ensures
            final(self).session.wf(),
            (final(self)@, next@) == old(self)@.built(tap, cancelled),
    {
        self.set_parts(tap);
        if self.capture {
            self.go(ShareStage::StartCapture)
        } else if cancelled {
            self.call_off()
        } else {
            self.finish()
        }
    }

    /// The capture started or did not.
    pub fn on_capture(&mut self, result: Result<(), String>, cancelled: bool) -> (next: ShareMove)
        requires
            old(self).session.wf(),
            old(self).stage == ShareStage::StartCapture,
        ensures
            final(self).session.wf(),
            (final(self)@, next@) == old(self)@.captured(
                match result {
                    Ok(_) => None,
                    Err(error) => Some(error@),
                },
                cancelled,
            ),
    {
        match result {
            Err(error) => self.fail(MediaEngineError::NativeCapture(error)),
            Ok(_) => {
                if cancelled {
                    self.go(ShareStage::UndoCapture)
                } else if self.session.request.system_audio && !self.session.has_audio_tap {
                    self.go(ShareStage::StartTap)
                } else {
                    self.finish()
                }
            },
        }
    }

    /// The tap was tried again.
    pub fn on_tap(&mut self, tap: bool, cancelled: bool) -> (next: ShareMove)
        requires
            old(self).session.wf(),
            old(self).stage == ShareStage::StartTap,
        ensures
            final(self).session.wf(),
            (final(self)@, next@) == old(self)@.tapped(tap, cancelled),
    {
        self.set_tap(tap);
        if cancelled {
            self.go(ShareStage::UndoAll)
        } else {
            self.finish()
        }
    }

    /// The capture was stopped again, and where everything is undone so was the tap, if it
    /// ran.
    pub fn on_undone(&mut self, tap: Option<ShutdownStatus>) -> (next: ShareMove)
        requires
            old(self).session.wf(),
            old(self).stage == ShareStage::UndoCapture || old(self).stage == ShareStage::UndoAll,
            tap is Some <==> old(self).stage == ShareStage::UndoAll
                && old(self).session.has_audio_tap,
        ensures
            final(self).session.wf(),
            (final(self)@, next@) == old(self)@.undone(opt_report(tap)),
    {
        if tap.is_some() {
            let _ = shutdown_audio_tap(&mut self.session, &tap);
        }
        self.call_off()
    }
}

/// What an update does to the system audio.
#[derive(Clone, Copy, Debug, PartialEq, Eq, Structural)]
pub enum AudioChange {
    /// Stop the tap, if it runs, and start one with the new exclusions.
    RestartTap,
    /// There is no channel that a tap could feed.
    Unavailable,
    /// Stop the tap, if it runs.
    StopTap,
    /// Nothing is captured, so nothing changes.
    Keep,
}

/// What an update does to the system audio of a session.
pub open spec fn audio_change<P, R>(session: SessionModel<P, R>, next: RequestModel) -> AudioChange {
    if !next.system_audio {
        AudioChange::StopTap
    } else if !session.native_capture_active {
        AudioChange::Keep
    } else if session.has_audio_channel {
        AudioChange::RestartTap
    } else {
        AudioChange::Unavailable
    }
}

/// The tap that runs has to stop first.
pub open spec fn stops_tap(change: AudioChange) -> bool {
    change == AudioChange::RestartTap || change == AudioChange::StopTap
}

/// What a live update tells the encoder.
#[derive(Clone, Copy, Debug, PartialEq, Eq, Structural)]
pub struct EncoderChange {
    /// A new target, and a keyframe with it.
    pub target: bool,
    /// A new floor.
    pub floor: bool,
}

fn same_rate(a: Option<u32>, b: Option<u32>) -> (same: bool)
    ensures
        same == (a == b),
{
    match a {
        Some(x) => match b {
            Some(y) => x == y,
            None => false,
        },
        None => b.is_none(),
    }
}

/// What new settings tell the encoder.
pub open spec fn change_between(current: RequestModel, next: RequestModel) -> EncoderChange {
    EncoderChange {
        target: current.quality != next.quality || current.bitrate_bps != next.bitrate_bps,
        floor: current.min_bitrate_bps != next.min_bitrate_bps,
    }
}

/// What an update tells the encoder of a running share.
pub fn encoder_change(current: &CreateMediaSessionRequest, next: &CreateMediaSessionRequest) -> (change:
    EncoderChange)
    ensures
        change == change_between(current@, next@),
{
    EncoderChange {
        target: current.quality != next.quality || !same_rate(
            current.bitrate_bps,
            next.bitrate_bps,
        ),
        floor: !same_rate(current.min_bitrate_bps, next.min_bitrate_bps),
    }
}

/// The encoder after an update: a new target comes with a keyframe, and a new floor counts
/// from then on.
pub open spec fn tuned(
    control: EncoderControl,
    change: EncoderChange,
    target: u32,
    floor: u32,
) -> EncoderControl {
    let aimed = if change.target {
        EncoderControl { keyframe_requested: true, ..rate_set(control, target) }
    } else {
        control
    };
    if change.floor {
        floor_set(aimed, floor)
    } else {
        aimed
    }
}

/// Tells the encoder of a running share what changed. `target` and `floor` are the rates
/// that the new settings stand for.
pub fn tune_encoder(control: &mut EncoderControl, change: EncoderChange, target: u32, floor: u32)
    ensures
        *final(control) == tuned(*old(control), change, target, floor),
{
    if change.target {
        control.set_bitrate(target);
        control.request_keyframe();
    }
    if change.floor {
        control.set_floor(floor);
    }
}

/// An update that keeps the share running, and the session that it is for.
pub struct LiveUpdate<P, R> {
    pub session: SessionRecord<P, R>,
    pub next: CreateMediaSessionRequest,
}

/// What is said of a tap that was to be restarted, or of a channel that is missing.
pub open spec fn update_note(change: AudioChange, tap: Option<Result<(), Seq<char>>>) -> Seq<char> {
    match change {
        AudioChange::RestartTap => match tap {
            Some(Err(error)) => " System audio tap restart failed: "@ + error,
            _ => ""@,
        },
        AudioChange::Unavailable =>
            " System audio cannot be added mid-session; restart the session to enable it."@,
        _ => ""@,
    }
}

/// The outcome of starting a tap.
pub open spec fn tap_outcome(tap: Option<Result<(), String>>) -> Option<Result<(), Seq<char>>> {
    match tap {
        None => None,
        Some(Ok(_)) => Some(Ok(())),
        Some(Err(error)) => Some(Err(error@)),
    }
}

/// The session after a live update.
pub open spec fn live_updated<P, R>(
    session: SessionModel<P, R>,
    next: RequestModel,
    tap: Option<Result<(), Seq<char>>>,
) -> SessionModel<P, R> {
    SessionModel {
        request: next,
        has_audio_tap: if tap is Some && tap->0 is Ok {
            true
        } else {
            session.has_audio_tap
        },
        ..session
    }
}

impl<P, R> LiveUpdate<P, R> {
    /// What happens to the system audio.
    pub fn audio(&self) -> (change: AudioChange)
        ensures
            change == audio_change(self.session@, self.next@),
    {
        if !self.next.system_audio {
            AudioChange::StopTap
        } else if !self.session.native_capture_active {
            AudioChange::Keep
        } else if self.session.has_audio_channel {
            AudioChange::RestartTap
        } else {
            AudioChange::Unavailable
        }
    }

    /// Takes the report of the tap, if one runs and was to be stopped. An update whose tap does
    /// not stop ends here.
    pub fn on_tap_stopped(&mut self, status: Option<ShutdownStatus>) -> (result: Result<
        (),
        MediaEngineError,
    >)
        requires
            old(self).session.wf(),
            status is Some <==> old(self).session.has_audio_tap,
        ensures
            final(self).session.wf(),
            final(self).next == old(self).next,
            ({
                let (after, refusal) = tap_shut_down(old(self).session@, opt_report(status));
                &&& final(self).session@ == after
                &&& match refusal {
                    Some(text) => result is Err && result->Err_0@ == ErrorModel::NativeCapture(
                        text,
                    ),
                    None => result is Ok,
                }
            }),
    {
        match shutdown_audio_tap(&mut self.session, &status) {
            Ok(_) => Ok(()),
            Err(text) => Err(MediaEngineError::NativeCapture(text)),
        }
    }

    /// Ends a live update. The new settings stand even where the update was called off
    /// meanwhile.
    pub fn update_session_bundle(self, tap: Option<Result<(), String>>, cancelled: bool) -> (result:
        Result<(SessionRecord<P, R>, String), (SessionRecord<P, R>, MediaEngineError)>)
        requires
            self.session.wf(),
            (tap is Some) == (audio_change(self.session@, self.next@) == AudioChange::RestartTap),
            stops_tap(audio_change(self.session@, self.next@)) ==> !self.session.has_audio_tap,
        ensures
            ({
                let after = live_updated(self.session@, self.next@, tap_outcome(tap));
                if cancelled {
                    &&& result is Err
                    &&& result->Err_0.0.wf()
                    &&& result->Err_0.0@ == after
                    &&& result->Err_0.1@ == ErrorModel::NativeCapture("session update cancelled"@)
                } else {
                    &&& result is Ok
                    &&& result->Ok_0.0.wf()
                    &&& result->Ok_0.0@ == after
                    &&& result->Ok_0.1@
                        == "Session settings updated; capture and peer transport kept running."@
                        + update_note(audio_change(self.session@, self.next@), tap_outcome(tap))
                }
            }),
    {
        let change = self.audio();
        let LiveUpdate { session, next } = self;
        let mut session = session;
        let mut note = String::new();
        proof {
            reveal_strlit("");
            assert(note@ =~= ""@);
        }
        match change {
            AudioChange::RestartTap => {
                match tap {
                    Some(Ok(_)) => {
                        session.has_audio_tap = true;
                    },
                    Some(Err(error)) => {
                        note = " System audio tap restart failed: ".to_owned();
                        push_text(&mut note, error.as_str());
                    },
                    None => {},
                }
            },
            AudioChange::Unavailable => {
                note =
                " System audio cannot be added mid-session; restart the session to enable it.".to_owned();
            },
            _ => {},
        }
        session.request = next;
        if cancelled {
            return Err(
                (
                    session,
                    MediaEngineError::NativeCapture("session update cancelled".to_owned()),
                ),
            );
        }
        let mut detail =
            "Session settings updated; capture and peer transport kept running.".to_owned();
        push_text(&mut detail, note.as_str());
        Ok((session, detail))
    }
}

/// How an update goes on.
pub enum UpdateStep<P, R> {
    /// The share is stopped and started again with the new settings.
    Restart(SessionRecord<P, R>, CreateMediaSessionRequest),
    /// The share goes on.
    Live(LiveUpdate<P, R>),
    /// It was called off before anything was stopped.
    CalledOff(SessionRecord<P, R>, MediaEngineError),
}

/// Begins an update. One that keeps the share running tells the encoder at once what
/// changed; `target` and `floor` are the rates that the new settings stand for.
pub fn begin_update<P, R>(
    session: SessionRecord<P, R>,
    plan: UpdatePlan,
    control: &mut EncoderControl,
    target: u32,
    floor: u32,
    cancelled: bool,
) -> (step: UpdateStep<P, R>)
    requires
        session.wf(),
    ensures
        *final(control) == if plan.restart_share {
            *old(control)
        } else {
            tuned(*old(control), change_between(session@.request, plan.next@), target, floor)
        },
        match step {
            UpdateStep::Restart(kept, next) => plan.restart_share && !cancelled && kept == session
                && next == plan.next,
            UpdateStep::Live(update) => !plan.restart_share && update.session == session
                && update.next == plan.next,
            UpdateStep::CalledOff(kept, error) => plan.restart_share && cancelled && kept == session
                && error@ == ErrorModel::NativeCapture("session update cancelled"@),
        },
{
    if !plan.restart_share {
        let change = encoder_change(&session.request, &plan.next);
        tune_encoder(control, change, target, floor);
        return UpdateStep::Live(LiveUpdate { session, next: plan.next });
    }
    if cancelled {
        return UpdateStep::CalledOff(
            session,
            MediaEngineError::NativeCapture("session update cancelled".to_owned()),
        );
    }
    UpdateStep::Restart(session, plan.next)
}

/// Asks a session whose share was stopped for new settings, before its share starts
/// again.
pub fn restart_request<P, R>(session: SessionRecord<P, R>, next: CreateMediaSessionRequest) -> (restarted:
    SessionRecord<P, R>)
    requires
        session.wf(),
    ensures
        restarted.wf(),
        restarted@ == (SessionModel { request: next@, ..session@ }),
{
    let mut session = session;
    session.request = next;
    session
}

/// A share that ended stands with its capture and epoch, and in every other case the
/// capture does not count as running.
pub open spec fn all_or_nothing<P, R>(
    start: ShareModel<P, R>,
    outcome: (ShareModel<P, R>, ShareMoveModel),
) -> bool {
    match outcome.1 {
        ShareMoveModel::Started(_) => outcome.0.session.native_capture_active == start.capture
            && outcome.0.session.share_epoch == start.epoch,
        _ => !outcome.0.session.native_capture_active,
    }
}

/// A share start never fails with the capture counted as running, and one that stands
/// runs exactly where a screen can be captured.
pub proof fn law_share_start_is_all_or_nothing<P, R>(
    start: ShareModel<P, R>,
    tap: bool,
    error: Option<Seq<char>>,
    undo: Option<ReportModel>,
    cancelled: bool,
)
    requires
        !start.session.native_capture_active,
    ensures
        all_or_nothing(start, start.built(tap, cancelled)),
        all_or_nothing(start, start.captured(error, cancelled)),
        all_or_nothing(start, start.tapped(tap, cancelled)),
        all_or_nothing(start, start.undone(undo)),
{
}

/// Two sessions have the same viewers, rooms and request.
pub open spec fn same_room<P, R>(a: SessionModel<P, R>, b: SessionModel<P, R>) -> bool {
    &&& a.id == b.id
    &&& a.viewers == b.viewers
    &&& a.order == b.order
    &&& a.request == b.request
    &&& a.has_lan_room == b.has_lan_room
    &&& a.has_direct_room == b.has_direct_room
    &&& a.has_stunar == b.has_stunar
    &&& a.password == b.password
    &&& a.admission == b.admission
}

/// Starting a share touches no viewer and no room.
pub proof fn law_share_start_keeps_the_room<P, R>(
    start: ShareModel<P, R>,
    report: ReportModel,
    tap: bool,
    error: Option<Seq<char>>,
    undo: Option<ReportModel>,
    cancelled: bool,
)
    ensures
        same_room(start.session, start.begun().0.session),
        same_room(start.session, start.stopped(report).0.session),
        same_room(start.session, start.built(tap, cancelled).0.session),
        same_room(start.session, start.captured(error, cancelled).0.session),
        same_room(start.session, start.tapped(tap, cancelled).0.session),
        same_room(start.session, start.undone(undo).0.session),
{
}

/// What is left of the last share is stopped in order, the pipeline, the fanout where there is
/// one and the tap where there is one, and only then is the new share built. What does not
/// stop ends the start, with its own reason, and stays; what stopped is gone.
pub proof fn law_leftovers_stop_in_order<P, R>(start: ShareModel<P, R>, report: ReportModel)
    requires
        start.stage is StopPipeline || start.stage is StopFanout || start.stage is StopTap,
    ensures
        ({
            let (after, next) = start.stopped(report);
            let clean = report.quiesced && report.errors.len() == 0;
            &&& !clean ==> {
                &&& next is Failed
                &&& after.session == start.session
                &&& after.stage is Ended
                &&& start.stage is StopFanout <==> next->Failed_0 is NativePeer
            }
            &&& clean ==> {
                &&& next is Next
                &&& next->Next_0 == after.stage
                &&& after.session.has_fanout == (start.session.has_fanout && !(start.stage
                    is StopFanout))
                &&& after.session.has_audio_tap == (start.session.has_audio_tap && !(start.stage
                    is StopTap))
                &&& after.stage is StopFanout <==> start.stage is StopPipeline
                    && start.session.has_fanout
                &&& after.stage is StopTap <==> (start.stage is StopFanout || (start.stage
                    is StopPipeline && !start.session.has_fanout)) && start.session.has_audio_tap
                &&& after.stage is Build <==> start.stage is StopTap || (!start.session.has_audio_tap
                    && (start.stage is StopFanout || !start.session.has_fanout))
            }
            &&& after.capture == start.capture && after.epoch == start.epoch
        }),
{
}

/// A share that is built has a fanout where viewers can be connected, an audio channel where
/// system audio was asked for, and the tap that could be started. It then captures where it
/// can, and stands at once where it cannot, unless it was called off.
pub proof fn law_built_share_has_its_parts<P, R>(start: ShareModel<P, R>, tap: bool, cancelled: bool)
    ensures
        ({
            let (after, next) = start.built(tap, cancelled);
            &&& after.session.has_fanout == start.peers
            &&& after.session.has_audio_channel == start.session.request.system_audio
            &&& after.session.has_audio_tap == tap
            &&& start.capture ==> next == ShareMoveModel::Next(ShareStage::StartCapture)
            &&& !start.capture && !cancelled ==> next is Started
            &&& !start.capture && cancelled ==> next == ShareMoveModel::Failed(
                ErrorModel::NativeCapture("share start cancelled"@),
            )
            &&& start.session.native_capture_active ==> start.begun().1 is Started
                && start.begun().0.session == start.session
            &&& !start.session.native_capture_active ==> start.begun().1 == ShareMoveModel::Next(
                ShareStage::StopPipeline,
            )
        }),
{
}

/// A capture that fails is told in its own words. One that runs stands, after another try at
/// the tap where system audio has none; a start that was called off stops what it started.
pub proof fn law_capture_decides_the_start<P, R>(
    start: ShareModel<P, R>,
    error: Option<Seq<char>>,
    tap: bool,
    report: Option<ReportModel>,
    cancelled: bool,
)
    ensures
        ({
            let (after, next) = start.captured(error, cancelled);
            let wants_tap = start.session.request.system_audio && !start.session.has_audio_tap;
            &&& error is Some ==> next == ShareMoveModel::Failed(ErrorModel::NativeCapture(error->0))
                && after.session == start.session
            &&& error is None && cancelled ==> next == ShareMoveModel::Next(ShareStage::UndoCapture)
            &&& error is None && !cancelled && wants_tap ==> next == ShareMoveModel::Next(
                ShareStage::StartTap,
            )
            &&& error is None && !cancelled && !wants_tap ==> next is Started
                && after.session.native_capture_active == start.capture && after.session.share_epoch
                == start.epoch
        }),
        ({
            let (after, next) = start.tapped(tap, cancelled);
            &&& after.session.has_audio_tap == tap
            &&& cancelled ==> next == ShareMoveModel::Next(ShareStage::UndoAll)
            &&& !cancelled ==> next is Started
        }),
        ({
            let (after, next) = start.undone(report);
            &&& next == ShareMoveModel::Failed(ErrorModel::NativeCapture("share start cancelled"@))
            &&& !after.session.native_capture_active
            &&& report is None ==> after.session.has_audio_tap == start.session.has_audio_tap
            &&& report is Some ==> after.session.has_audio_tap == !(report->0.quiesced
                && report->0.errors.len() == 0)
        }),
{
    if report is Some {
        crate::cleanup::law_taps_stay_until_they_stop(start.session, report->0);
    }
}

/// An update touches the system audio by what it asks for and what runs: none wanted stops the
/// tap, a share that does not capture keeps what it has, and one that does gets a new tap, as
/// far as there is a channel for it.
pub proof fn law_audio_follows_the_update<P, R>(session: SessionModel<P, R>, next: RequestModel)
    ensures
        audio_change(session, next) is StopTap <==> !next.system_audio,
        audio_change(session, next) is Keep <==> next.system_audio && !session.native_capture_active,
        audio_change(session, next) is RestartTap <==> next.system_audio
            && session.native_capture_active && session.has_audio_channel,
        audio_change(session, next) is Unavailable <==> next.system_audio
            && session.native_capture_active && !session.has_audio_channel,
        stops_tap(audio_change(session, next)) <==> !next.system_audio || (
        session.native_capture_active && session.has_audio_channel),
{
}

/// The encoder hears of an update what changed: another quality or rate is a new target and a
/// keyframe, another floor a new floor, and nothing else reaches it.
pub proof fn law_encoder_hears_what_changed(
    control: EncoderControl,
    current: RequestModel,
    next: RequestModel,
    target: u32,
    floor: u32,
)
    ensures
        ({
            let change = change_between(current, next);
            let after = tuned(control, change, target, floor);
            &&& change.target <==> current.quality != next.quality || current.bitrate_bps
                != next.bitrate_bps
            &&& change.floor <==> current.min_bitrate_bps != next.min_bitrate_bps
            &&& !change.target && !change.floor ==> after == control
            &&& change.target ==> after.keyframe_requested
            &&& !change.target ==> after.keyframe_requested == floor_set(
                control,
                floor,
            ).keyframe_requested || after.keyframe_requested == control.keyframe_requested
            &&& change.target && !change.floor ==> after == (EncoderControl {
                keyframe_requested: true,
                ..rate_set(control, target)
            })
            &&& !change.target && change.floor ==> after == floor_set(control, floor)
            &&& change.target && change.floor ==> after == floor_set(
                (EncoderControl { keyframe_requested: true, ..rate_set(control, target) }),
                floor,
            )
        }),
{
}

/// A live update leaves the session as it was but for what it is asked for and a tap that
/// could be started; that one could not, or has no channel, is told.
pub proof fn law_live_update_keeps_the_rest<P, R>(
    session: SessionModel<P, R>,
    next: RequestModel,
    tap: Option<Result<(), Seq<char>>>,
    change: AudioChange,
)
    ensures
        ({
            let after = live_updated(session, next, tap);
            &&& after.request == next
            &&& tap is Some && tap->0 is Ok ==> after.has_audio_tap
            &&& !(tap is Some && tap->0 is Ok) ==> after.has_audio_tap == session.has_audio_tap
            &&& after == (SessionModel {
                request: next,
                has_audio_tap: after.has_audio_tap,
                ..session
            })
        }),
        change is RestartTap && tap is Some && tap->0 is Err ==> update_note(change, tap)
            == " System audio tap restart failed: "@ + tap->0->Err_0,
        change is RestartTap && !(tap is Some && tap->0 is Err) ==> update_note(change, tap) == ""@,
        change is StopTap || change is Keep ==> update_note(change, tap) == ""@,
        change is Unavailable ==> update_note(change, tap)
            == " System audio cannot be added mid-session; restart the session to enable it."@,
{
}

} // verus!
