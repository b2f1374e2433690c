//! The life of one viewer's connection: setting it up, its states, closing it.

use vstd::prelude::*;
use crate::codecs::media_type;
use crate::fanout::ShutdownStatus;
use crate::pipeline::EncoderControl;
use crate::text::{push_text, texts};
use crate::types::{PeerTransportState, VideoCodec};

verus! {

/// Where a connection stands, in a word and in a sentence.
#[derive(Debug, PartialEq, Eq)]
pub struct PeerTransportStatus {
    pub state: PeerTransportState,
    pub detail: String,
}

/// What a [`PeerTransportStatus`] holds.
pub struct PeerStatusModel {
    pub state: PeerTransportState,
    pub detail: Seq<char>,
}

impl View for PeerTransportStatus {
    type V = PeerStatusModel;

    open spec fn view(&self) -> PeerStatusModel {
        PeerStatusModel { state: self.state, detail: self.detail@ }
    }
}

impl Clone for PeerTransportStatus {
    fn clone(&self) -> (copy: Self)
        ensures
            copy@ == self@,
    {
        PeerTransportStatus { state: self.state, detail: self.detail.clone() }
    }
}

/// What an optional status holds.
pub open spec fn opt_status(status: Option<PeerTransportStatus>) -> Option<PeerStatusModel> {
    match status {
        Some(s) => Some(s@),
        None => None,
    }
}

/// The status of a peer whose setup begins.
pub fn starting_status() -> (status: PeerTransportStatus)
    ensures
        status@ == (PeerStatusModel {
            state: PeerTransportState::Starting,
            detail: "Creating local-only WebRTC peer."@,
        }),
{
    PeerTransportStatus {
        state: PeerTransportState::Starting,
        detail: "Creating local-only WebRTC peer.".to_owned(),
    }
}

/// The status as a reader sees it: failed where it cannot be read.
pub fn readable_status(status: Option<PeerTransportStatus>) -> (seen: PeerTransportStatus)
    ensures
        match status {
            Some(s) => seen@ == s@,
            None => seen@ == (PeerStatusModel {
                state: PeerTransportState::Failed,
                detail: "WebRTC peer state is unavailable."@,
            }),
        },
{
    match status {
        Some(s) => s,
        None => PeerTransportStatus {
            state: PeerTransportState::Failed,
            detail: "WebRTC peer state is unavailable.".to_owned(),
        },
    }
}

/// The states of a WebRTC connection.
#[derive(Clone, Copy, Debug, PartialEq, Eq, Structural)]
pub enum ConnectionState {
    Unspecified,
    New,
    Connecting,
    Connected,
    Disconnected,
    Failed,
    Closed,
}

/// How a connection state is shown.
pub open spec fn mapped_state(state: ConnectionState) -> PeerTransportState {
    match state {
        ConnectionState::New => PeerTransportState::New,
        ConnectionState::Connecting => PeerTransportState::Connecting,
        ConnectionState::Connected => PeerTransportState::Connected,
        ConnectionState::Disconnected => PeerTransportState::Disconnected,
        ConnectionState::Failed => PeerTransportState::Failed,
        ConnectionState::Closed => PeerTransportState::Closed,
        ConnectionState::Unspecified => PeerTransportState::Failed,
    }
}

/// The name of a connection state.
pub open spec fn state_name(state: ConnectionState) -> Seq<char> {
    match state {
        ConnectionState::New => "new"@,
        ConnectionState::Connecting => "connecting"@,
        ConnectionState::Connected => "connected"@,
        ConnectionState::Disconnected => "disconnected"@,
        ConnectionState::Failed => "failed"@,
        ConnectionState::Closed => "closed"@,
        ConnectionState::Unspecified => "Unspecified"@,
    }
}

/// Shows a connection state.
pub fn map_peer_state(state: ConnectionState) -> (mapped: PeerTransportState)
    ensures
        mapped == mapped_state(state),
{
    match state {
        ConnectionState::New => PeerTransportState::New,
        ConnectionState::Connecting => PeerTransportState::Connecting,
        ConnectionState::Connected => PeerTransportState::Connected,
        ConnectionState::Disconnected => PeerTransportState::Disconnected,
        ConnectionState::Failed => PeerTransportState::Failed,
        ConnectionState::Closed => PeerTransportState::Closed,
        ConnectionState::Unspecified => PeerTransportState::Failed,
    }
}

/// The encoder's control after a change of the connection.
pub open spec fn connection_noted(control: EncoderControl, state: ConnectionState) -> EncoderControl {
    if state == ConnectionState::Connected {
        EncoderControl { keyframe_requested: true, ..control }
    } else {
        control
    }
}

/// The status after a change of the connection. A viewer that has just connected needs
/// a keyframe.
pub fn on_connection_state(control: &mut EncoderControl, state: ConnectionState) -> (status:
    PeerTransportStatus)
    ensures
        status@ == (PeerStatusModel {
            state: mapped_state(state),
            detail: "WebRTC peer connection state: "@ + state_name(state),
        }),
        *final(control) == connection_noted(*old(control), state),
        *final(control) == if state == ConnectionState::Connected {
            EncoderControl { keyframe_requested: true, ..*old(control) }
        } else {
            *old(control)
        },
{
    let name: &str = match state {
        ConnectionState::New => "new",
        ConnectionState::Connecting => "connecting",
        ConnectionState::Connected => "connected",
        ConnectionState::Disconnected => "disconnected",
        ConnectionState::Failed => "failed",
        ConnectionState::Closed => "closed",
        ConnectionState::Unspecified => "Unspecified",
    };
    let mut detail = "WebRTC peer connection state: ".to_owned();
    push_text(&mut detail, name);
    let mapped = map_peer_state(state);
    if mapped == PeerTransportState::Connected {
        control.request_keyframe();
    }
    PeerTransportStatus { state: mapped, detail }
}

/// How an operation ended that waits for the network.
#[derive(Debug, PartialEq, Eq)]
pub enum OperationEnd<T> {
    Done(T),
    Failed(String),
    /// The peer is shutting down.
    Cancelled,
    TimedOut,
}

/// Why an operation has no result.
pub open spec fn operation_failure<T>(end: OperationEnd<T>, name: Seq<char>) -> Option<Seq<char>> {
    match end {
        OperationEnd::Done(_) => None,
        OperationEnd::Failed(message) => Some(message@),
        OperationEnd::Cancelled => Some(name + " operation cancelled during shutdown"@),
        OperationEnd::TimedOut => Some(name + " operation timed out"@),
    }
}

/// The result of an operation, or why it has none.
pub fn operation_result<T>(end: OperationEnd<T>, name: &str) -> (result: Result<T, String>)
    ensures
        match operation_failure(end, name@) {
            None => result is Ok && end == OperationEnd::Done(result->Ok_0),
            Some(message) => result is Err && result->Err_0@ == message,
        },
{
    match end {
        OperationEnd::Done(value) => Ok(value),
        OperationEnd::Failed(message) => Err(message),
        OperationEnd::Cancelled => {
            let mut message = name.to_owned();
            push_text(&mut message, " operation cancelled during shutdown");
            Err(message)
        },
        OperationEnd::TimedOut => {
            let mut message = name.to_owned();
            push_text(&mut message, " operation timed out");
            Err(message)
        },
    }
}

/// The reply to a request, or that none came in time.
pub fn receive_response<T>(reply: Option<Result<T, String>>, operation: &str) -> (result: Result<
    T,
    String,
>)
    ensures
        match reply {
            Some(answer) => result == answer,
            None => result is Err && result->Err_0@ == operation@ + " timed out"@,
        },
{
    match reply {
        Some(answer) => answer,
        None => {
            let mut message = operation.to_owned();
            push_text(&mut message, " timed out");
            Err(message)
        },
    }
}

/// How the attempt to close a connection ended.
#[derive(Debug, PartialEq, Eq)]
pub enum CloseEnd {
    Closed,
    Failed(String),
    TimedOut,
}

/// Why something named could not be closed.
pub open spec fn close_failure(end: CloseEnd, name: Seq<char>) -> Option<Seq<char>> {
    match end {
        CloseEnd::Closed => None,
        CloseEnd::Failed(error) => Some(name + " failed: "@ + error@),
        CloseEnd::TimedOut => Some(name + " timed out"@),
    }
}

/// The result of the attempt to close something.
pub fn close_result(end: CloseEnd, name: &str) -> (result: Result<(), String>)
    ensures
        match close_failure(end, name@) {
            None => result is Ok,
            Some(message) => result is Err && result->Err_0@ == message,
        },
{
    let mut message = name.to_owned();
    match end {
        CloseEnd::Closed => Ok(()),
        CloseEnd::Failed(error) => {
            push_text(&mut message, " failed: ");
            push_text(&mut message, error.as_str());
            Err(message)
        },
        CloseEnd::TimedOut => {
            push_text(&mut message, " timed out");
            Err(message)
        },
    }
}

/// The last status of a connection that was told to close.
pub fn closing_status(end: CloseEnd) -> (status: PeerTransportStatus)
    ensures
        status@ == match close_failure(end, "WebRTC peer close"@) {
            None => PeerStatusModel {
                state: PeerTransportState::Closed,
                detail: "WebRTC peer closed."@,
            },
            Some(error) => PeerStatusModel {
                state: PeerTransportState::Failed,
                detail: "WebRTC peer teardown failed: "@ + error,
            },
        },
{
    match close_result(end, "WebRTC peer close") {
        Ok(()) => PeerTransportStatus {
            state: PeerTransportState::Closed,
            detail: "WebRTC peer closed.".to_owned(),
        },
        Err(error) => {
            let mut detail = "WebRTC peer teardown failed: ".to_owned();
            push_text(&mut detail, error.as_str());
            PeerTransportStatus { state: PeerTransportState::Failed, detail }
        },
    }
}

/// The status of a peer whose pump gave up.
pub fn pump_failure(write_error: Option<String>) -> (status: PeerTransportStatus)
    ensures
        status@.state == PeerTransportState::Failed,
        status@.detail == match write_error {
            None => "Encoded sample timestamp overflowed."@,
            Some(error) => "WebRTC H.264 sample write failed: "@ + error@,
        },
{
    let detail = match write_error {
        None => "Encoded sample timestamp overflowed.".to_owned(),
        Some(error) => {
            let mut text = "WebRTC H.264 sample write failed: ".to_owned();
            push_text(&mut text, error.as_str());
            text
        },
    };
    PeerTransportStatus { state: PeerTransportState::Failed, detail }
}

/// What the setup of a peer does next.
#[derive(Clone, Copy, Debug, PartialEq, Eq, Structural)]
pub enum SetupStage {
    RegisterVideoCodec,
    RegisterAudioCodec,
    RegisterInterceptors,
    CreatePeer,
    AddVideoTrack,
    AddAudioTrack,
    /// Tell the host that the peer is ready.
    Announce,
    Serving,
    Ended,
}

/// The setup of a peer.
#[derive(Clone, Copy, Debug, PartialEq, Eq, Structural)]
pub struct PeerSetup {
    pub stage: SetupStage,
    pub codec: VideoCodec,
    pub has_audio: bool,
}

/// What follows a step of the setup: a new status, an answer to the host, and whether
/// the connection is closed again.
#[derive(Debug, PartialEq, Eq)]
pub struct SetupMove {
    pub status: Option<PeerTransportStatus>,
    pub ready: Option<Result<(), String>>,
    pub close_peer: bool,
}

/// What the host is told, by its contents.
pub open spec fn opt_ready(ready: Option<Result<(), String>>) -> Option<Option<Seq<char>>> {
    match ready {
        None => None,
        Some(Ok(_)) => Some(None),
        Some(Err(message)) => Some(Some(message@)),
    }
}

/// The message of a step that failed. The two steps that wait for the network may also
/// be cancelled or time out.
pub open spec fn setup_failure(
    stage: SetupStage,
    codec: VideoCodec,
    end: OperationEnd<()>,
) -> Option<Seq<char>> {
    match end {
        OperationEnd::Done(_) => None,
        OperationEnd::Failed(error) => Some(
            match stage {
                SetupStage::RegisterVideoCodec => media_type(codec)
                    + " codec registration failed: "@ + error@,
                SetupStage::RegisterAudioCodec => "Opus codec registration failed: "@ + error@,
                SetupStage::RegisterInterceptors => "WebRTC interceptor registration failed: "@
                    + error@,
                SetupStage::CreatePeer => "WebRTC peer creation failed: "@ + error@,
                SetupStage::AddVideoTrack => "WebRTC video track registration failed: "@ + error@,
                SetupStage::AddAudioTrack => "WebRTC Opus track registration failed: "@ + error@,
                SetupStage::Announce | SetupStage::Serving | SetupStage::Ended => error@,
            },
        ),
        OperationEnd::Cancelled => Some(
            setup_operation(stage) + " operation cancelled during shutdown"@,
        ),
        OperationEnd::TimedOut => Some(setup_operation(stage) + " operation timed out"@),
    }
}

/// The name of the operation behind a step.
pub open spec fn setup_operation(stage: SetupStage) -> Seq<char> {
    match stage {
        SetupStage::AddVideoTrack => "WebRTC track initialization"@,
        _ => "WebRTC peer initialization"@,
    }
}

/// The step behind a successful one.
pub open spec fn next_stage(stage: SetupStage, has_audio: bool) -> SetupStage {
    match stage {
        SetupStage::RegisterVideoCodec => if has_audio {
            SetupStage::RegisterAudioCodec
        } else {
            SetupStage::RegisterInterceptors
        },
        SetupStage::RegisterAudioCodec => SetupStage::RegisterInterceptors,
        SetupStage::RegisterInterceptors => SetupStage::CreatePeer,
        SetupStage::CreatePeer => SetupStage::AddVideoTrack,
        SetupStage::AddVideoTrack => if has_audio {
            SetupStage::AddAudioTrack
        } else {
            SetupStage::Announce
        },
        SetupStage::AddAudioTrack => SetupStage::Announce,
        SetupStage::Announce => SetupStage::Serving,
        SetupStage::Serving | SetupStage::Ended => SetupStage::Ended,
    }
}

/// At this step there is a connection that has to be closed on failure.
pub open spec fn peer_exists(stage: SetupStage) -> bool {
    stage == SetupStage::AddVideoTrack || stage == SetupStage::AddAudioTrack || stage
        == SetupStage::Announce
}

/// What a step of the setup leaves behind: the next step, a new status, what the host is
/// told, and whether the connection is closed.
pub open spec fn setup_moved(setup: PeerSetup, end: OperationEnd<()>) -> (
    SetupStage,
    Option<PeerStatusModel>,
    Option<Option<Seq<char>>>,
    bool,
) {
    match setup_failure(setup.stage, setup.codec, end) {
        None => (
            next_stage(setup.stage, setup.has_audio),
            if setup.stage == SetupStage::AddVideoTrack {
                Some(
                    PeerStatusModel {
                        state: PeerTransportState::New,
                        detail: "Local-only WebRTC peer is ready."@,
                    },
                )
            } else {
                None
            },
            if next_stage(setup.stage, setup.has_audio) == SetupStage::Announce {
                Some(None)
            } else {
                None
            },
            false,
        ),
        Some(message) => (
            SetupStage::Ended,
            if setup.stage == SetupStage::Announce {
                None
            } else {
                Some(PeerStatusModel { state: PeerTransportState::Failed, detail: message })
            },
            if setup.stage == SetupStage::Announce {
                None
            } else {
                Some(Some(message))
            },
            peer_exists(setup.stage),
        ),
    }
}

impl PeerSetup {
    /// A setup before its first step.
    pub fn new(codec: VideoCodec, has_audio: bool) -> (setup: Self)
        ensures
            setup == (PeerSetup { stage: SetupStage::RegisterVideoCodec, codec, has_audio }),
    {
        PeerSetup { stage: SetupStage::RegisterVideoCodec, codec, has_audio }
    }

    fn failure(&self, end: OperationEnd<()>) -> (message: Option<String>)
        ensures
            crate::text::opt_text(message) == setup_failure(self.stage, self.codec, end),
    {
        match end {
            OperationEnd::Done(_) => None,
            OperationEnd::Failed(error) => {
                let mut message = match self.stage {
                    SetupStage::RegisterVideoCodec => {
                        let mut text = self.codec.mime_type().to_owned();
                        push_text(&mut text, " codec registration failed: ");
                        text
                    },
                    SetupStage::RegisterAudioCodec => "Opus codec registration failed: ".to_owned(),
                    SetupStage::RegisterInterceptors => {
                        "WebRTC interceptor registration failed: ".to_owned()
                    },
                    SetupStage::CreatePeer => "WebRTC peer creation failed: ".to_owned(),
                    SetupStage::AddVideoTrack => {
                        "WebRTC video track registration failed: ".to_owned()
                    },
                    SetupStage::AddAudioTrack => {
                        "WebRTC Opus track registration failed: ".to_owned()
                    },
                    SetupStage::Announce | SetupStage::Serving | SetupStage::Ended => {
                        return Some(error);
                    },
                };
                push_text(&mut message, error.as_str());
                Some(message)
            },
            OperationEnd::Cancelled | OperationEnd::TimedOut => {
                let name: &str = match self.stage {
                    SetupStage::AddVideoTrack => "WebRTC track initialization",
                    _ => "WebRTC peer initialization",
                };
                match operation_result(end, name) {
                    Ok(_) => None,
                    Err(message) => Some(message),
                }
            },
        }
    }

    /// Takes the outcome of the current step. A step that fails ends the setup: the host
    /// learns why, and a connection that exists is closed. The host that is no longer
    /// there to be told ends it too.
    pub fn on_step(&mut self, end: OperationEnd<()>) -> (next: SetupMove)
        requires
            old(self).stage != SetupStage::Serving,
            old(self).stage != SetupStage::Ended,
        ensures
            final(self).codec == old(self).codec,
            final(self).has_audio == old(self).has_audio,
            (
                final(self).stage,
                opt_status(next.status),
                opt_ready(next.ready),
                next.close_peer,
            ) == setup_moved(*old(self), end),
            ({
                let stage = old(self).stage;
                match setup_failure(stage, old(self).codec, end) {
                    None => {
                        &&& final(self).stage == next_stage(stage, old(self).has_audio)
                        &&& opt_status(next.status) == if stage == SetupStage::AddVideoTrack {
                            Some(
                                PeerStatusModel {
                                    state: PeerTransportState::New,
                                    detail: "Local-only WebRTC peer is ready."@,
                                },
                            )
                        } else {
                            None
                        }
                        &&& opt_ready(next.ready) == if final(self).stage == SetupStage::Announce {
                            Some(None::<Seq<char>>)
                        } else {
                            None
                        }
                        &&& !next.close_peer
                    },
                    Some(message) => {
                        &&& final(self).stage == SetupStage::Ended
                        &&& opt_status(next.status) == if stage == SetupStage::Announce {
                            None
                        } else {
                            Some(
                                PeerStatusModel {
                                    state: PeerTransportState::Failed,
                                    detail: message,
                                },
                            )
                        }
                        &&& opt_ready(next.ready) == if stage == SetupStage::Announce {
                            None
                        } else {
                            Some(Some(message))
                        }
                        &&& next.close_peer == peer_exists(stage)
                    },
                }
            }),
    {
        let stage = self.stage;
        match self.failure(end) {
            Some(message) => {
                self.stage = SetupStage::Ended;
                let close_peer: bool = stage == SetupStage::AddVideoTrack || stage
                    == SetupStage::AddAudioTrack || stage == SetupStage::Announce;
                if stage == SetupStage::Announce {
                    SetupMove { status: None, ready: None, close_peer }
                } else {
                    let status = PeerTransportStatus {
                        state: PeerTransportState::Failed,
                        detail: message.clone(),
                    };
                    SetupMove { status: Some(status), ready: Some(Err(message)), close_peer }
                }
            },
            None => {
                self.stage = match stage {
                    SetupStage::RegisterVideoCodec => if self.has_audio {
                        SetupStage::RegisterAudioCodec
                    } else {
                        SetupStage::RegisterInterceptors
                    },
                    SetupStage::RegisterAudioCodec => SetupStage::RegisterInterceptors,
                    SetupStage::RegisterInterceptors => SetupStage::CreatePeer,
                    SetupStage::CreatePeer => SetupStage::AddVideoTrack,
                    SetupStage::AddVideoTrack => if self.has_audio {
                        SetupStage::AddAudioTrack
                    } else {
                        SetupStage::Announce
                    },
                    SetupStage::AddAudioTrack => SetupStage::Announce,
                    SetupStage::Announce => SetupStage::Serving,
                    SetupStage::Serving | SetupStage::Ended => SetupStage::Ended,
                };
                let status = if stage == SetupStage::AddVideoTrack {
                    Some(
                        PeerTransportStatus {
                            state: PeerTransportState::New,
                            detail: "Local-only WebRTC peer is ready.".to_owned(),
                        },
                    )
                } else {
                    None
                };
                let ready: Option<Result<(), String>> = if self.stage == SetupStage::Announce {
                    Some(Ok(()))
                } else {
                    None
                };
                SetupMove { status, ready, close_peer: false }
            },
        }
    }
}

/// The number of steps that a setup still has before it serves.
pub open spec fn steps_left(stage: SetupStage, has_audio: bool) -> int {
    match stage {
        SetupStage::RegisterVideoCodec => if has_audio {
            7
        } else {
            5
        },
        SetupStage::RegisterAudioCodec => 6,
        SetupStage::RegisterInterceptors => if has_audio {
            5
        } else {
            4
        },
        SetupStage::CreatePeer => if has_audio {
            4
        } else {
            3
        },
        SetupStage::AddVideoTrack => if has_audio {
            3
        } else {
            2
        },
        SetupStage::AddAudioTrack => 2,
        SetupStage::Announce => 1,
        SetupStage::Serving | SetupStage::Ended => 0,
    }
}

/// Every successful step brings a setup closer to serving, and none is skipped.
pub proof fn law_setup_advances(stage: SetupStage, has_audio: bool)
    requires
        stage != SetupStage::Serving,
        stage != SetupStage::Ended,
        (stage == SetupStage::RegisterAudioCodec || stage == SetupStage::AddAudioTrack)
            ==> has_audio,
    ensures
        steps_left(next_stage(stage, has_audio), has_audio) == steps_left(stage, has_audio) - 1,
        steps_left(stage, has_audio) == 1 <==> next_stage(stage, has_audio) == SetupStage::Serving,
{
}

/// A connection exists exactly between its creation and the service: whichever of those
/// steps fails closes it.
pub proof fn law_created_peer_is_closed_on_failure(stage: SetupStage, has_audio: bool)
    requires
        stage != SetupStage::Serving,
        stage != SetupStage::Ended,
    ensures
        peer_exists(next_stage(stage, has_audio)) <==> stage == SetupStage::CreatePeer || (
        peer_exists(stage) && next_stage(stage, has_audio) != SetupStage::Serving),
{
}

/// What became of the thread of a peer that was told to end.
#[derive(Clone, Copy, Debug, PartialEq, Eq, Structural)]
pub enum PeerWorkerEnd {
    /// There is no thread any more.
    Absent,
    /// Its completion flag cannot be read.
    Poisoned,
    /// Waiting for it failed.
    WaitFailed,
    /// It did not end in time.
    Running,
    /// It ended and was joined.
    Joined,
    /// It panicked.
    Panicked,
}

/// The thread named in a shutdown status.
pub open spec fn worker_name(initializing: bool) -> Seq<char> {
    if initializing {
        "peer initialization worker"@
    } else {
        "peer worker"@
    }
}

/// What the thread left undone.
pub open spec fn worker_pending(end: PeerWorkerEnd, initializing: bool) -> Seq<Seq<char>> {
    match end {
        PeerWorkerEnd::Running => seq![worker_name(initializing)],
        _ => Seq::empty(),
    }
}

/// What went wrong with the thread.
pub open spec fn worker_errors(end: PeerWorkerEnd, initializing: bool) -> Seq<Seq<char>> {
    match end {
        PeerWorkerEnd::Poisoned => seq!["peer completion state is poisoned"@],
        PeerWorkerEnd::WaitFailed => seq!["peer completion wait failed"@],
        PeerWorkerEnd::Panicked => seq![
            if initializing {
                "peer initialization worker panicked"@
            } else {
                "peer worker panicked"@
            },
        ],
        _ => Seq::empty(),
    }
}

/// A thread that needs no further attention.
pub open spec fn worker_quiesced(end: PeerWorkerEnd) -> bool {
    end == PeerWorkerEnd::Absent || end == PeerWorkerEnd::Joined
}

/// The status of a peer that was told to end.
pub fn peer_shutdown(end: PeerWorkerEnd, initializing: bool) -> (status: ShutdownStatus)
    ensures
        status.quiesced == worker_quiesced(end),
        texts(status.pending@) == worker_pending(end, initializing),
        texts(status.errors@) == worker_errors(end, initializing),
{
    let mut status = ShutdownStatus { quiesced: false, pending: Vec::new(), errors: Vec::new() };
    match end {
        PeerWorkerEnd::Absent | PeerWorkerEnd::Joined => {
            status.quiesced = true;
        },
        PeerWorkerEnd::Poisoned => {
            status.errors.push("peer completion state is poisoned".to_owned());
        },
        PeerWorkerEnd::WaitFailed => {
            status.errors.push("peer completion wait failed".to_owned());
        },
        PeerWorkerEnd::Running => {
            let name: &str = if initializing {
                "peer initialization worker"
            } else {
                "peer worker"
            };
            status.pending.push(name.to_owned());
        },
        PeerWorkerEnd::Panicked => {
            let text: &str = if initializing {
                "peer initialization worker panicked"
            } else {
                "peer worker panicked"
            };
            status.errors.push(text.to_owned());
        },
    }
    assert(texts(status.pending@) =~= worker_pending(end, initializing));
    assert(texts(status.errors@) =~= worker_errors(end, initializing));
    status
}

/// The result of waiting for the thread of a peer that could not be set up: it has no
/// owner left, so one that still runs is an error.
pub fn finish_worker(end: PeerWorkerEnd) -> (result: Result<(), String>)
    ensures
        result is Ok <==> worker_quiesced(end),
        result matches Err(message) ==> message@ == match end {
            PeerWorkerEnd::Poisoned => "peer completion state is poisoned"@,
            PeerWorkerEnd::WaitFailed => "peer completion wait failed"@,
            PeerWorkerEnd::Panicked => "peer worker panicked"@,
            _ => "peer worker cleanup pending after deadline"@,
        },
{
    match end {
        PeerWorkerEnd::Absent | PeerWorkerEnd::Joined => Ok(()),
        PeerWorkerEnd::Poisoned => Err("peer completion state is poisoned".to_owned()),
        PeerWorkerEnd::WaitFailed => Err("peer completion wait failed".to_owned()),
        PeerWorkerEnd::Running => Err("peer worker cleanup pending after deadline".to_owned()),
        PeerWorkerEnd::Panicked => Err("peer worker panicked".to_owned()),
    }
}

/// A shutdown that left nothing undone and met no error is quiescent, and no other is.
pub proof fn law_quiescence_is_silence(end: PeerWorkerEnd, initializing: bool)
    ensures
        worker_quiesced(end) <==> worker_pending(end, initializing).len() == 0 && worker_errors(
            end,
            initializing,
        ).len() == 0,
{
}

/// The host hears of a setup exactly once: that it is ready, when every track is in place, or
/// why it failed, at the step that did. A failure ends the setup, shows in the status, and
/// closes the connection where there is one; a step that succeeds closes nothing.
pub proof fn law_setup_is_answered_once(setup: PeerSetup, end: OperationEnd<()>)
    requires
        setup.stage != SetupStage::Serving,
        setup.stage != SetupStage::Ended,
        setup.stage == SetupStage::AddAudioTrack || setup.stage == SetupStage::RegisterAudioCodec
            ==> setup.has_audio,
    ensures
        ({
            let (stage, status, told, closes) = setup_moved(setup, end);
            let last_track = setup.stage == SetupStage::AddAudioTrack || (setup.stage
                == SetupStage::AddVideoTrack && !setup.has_audio);
            &&& end is Done ==> {
                &&& told is Some <==> last_track
                &&& told is Some ==> told->0 is None
                &&& !closes
                &&& stage != SetupStage::Ended
                &&& stage == SetupStage::Serving <==> setup.stage == SetupStage::Announce
                &&& status is Some <==> setup.stage == SetupStage::AddVideoTrack
                &&& status is Some ==> status->0.state == PeerTransportState::New
            }
            &&& !(end is Done) ==> {
                &&& stage == SetupStage::Ended
                &&& closes <==> setup.stage == SetupStage::AddVideoTrack || setup.stage
                    == SetupStage::AddAudioTrack || setup.stage == SetupStage::Announce
                &&& setup.stage == SetupStage::Announce ==> told is None && status is None
                &&& setup.stage != SetupStage::Announce ==> {
                    &&& told is Some && told->0 is Some
                    &&& status is Some && status->0.state == PeerTransportState::Failed
                    &&& status->0.detail == told->0->0
                }
            }
        }),
{
}

/// The audio steps are taken with audio and left out without it; what comes before and behind
/// them is the same.
pub proof fn law_audio_adds_its_steps(stage: SetupStage)
    ensures
        next_stage(SetupStage::RegisterVideoCodec, true) == SetupStage::RegisterAudioCodec,
        next_stage(SetupStage::RegisterVideoCodec, false) == next_stage(
            SetupStage::RegisterAudioCodec,
            true,
        ),
        next_stage(SetupStage::AddVideoTrack, true) == SetupStage::AddAudioTrack,
        next_stage(SetupStage::AddVideoTrack, false) == next_stage(SetupStage::AddAudioTrack, true),
        stage != SetupStage::RegisterVideoCodec && stage != SetupStage::AddVideoTrack
            ==> next_stage(stage, true) == next_stage(stage, false),
        next_stage(SetupStage::RegisterInterceptors, true) == SetupStage::CreatePeer,
        next_stage(SetupStage::CreatePeer, true) == SetupStage::AddVideoTrack,
{
}

/// A failure is told in its own words, behind what failed: the message ends with the error.
/// What was cut short is told by the name of the operation.
pub proof fn law_failures_are_told(name: Seq<char>, error: String, stage: SetupStage, codec: VideoCodec)
    ensures
        operation_failure(OperationEnd::<()>::Failed(error), name) == Some(error@),
        operation_failure(OperationEnd::<()>::Done(()), name) is None,
        operation_failure(OperationEnd::<()>::Cancelled, name) == Some(
            name + " operation cancelled during shutdown"@,
        ),
        operation_failure(OperationEnd::<()>::TimedOut, name) == Some(name + " operation timed out"@),
        close_failure(CloseEnd::Closed, name) is None,
        close_failure(CloseEnd::Failed(error), name) == Some(name + " failed: "@ + error@),
        close_failure(CloseEnd::TimedOut, name) == Some(name + " timed out"@),
        setup_failure(stage, codec, OperationEnd::Failed(error)) is Some,
        crate::text::ends_with(setup_failure(stage, codec, OperationEnd::Failed(error))->0, error@),
{
    let told = setup_failure(stage, codec, OperationEnd::Failed(error))->0;
    assert(told.subrange(told.len() - error@.len(), told.len() as int) =~= error@);
}

/// A connection is shown in its own state; one in no state at all has failed.
pub proof fn law_states_are_shown_as_they_are(state: ConnectionState)
    ensures
        mapped_state(state) == PeerTransportState::Connected <==> state is Connected,
        mapped_state(state) == PeerTransportState::Closed <==> state is Closed,
        mapped_state(state) == PeerTransportState::New <==> state is New,
        mapped_state(state) == PeerTransportState::Connecting <==> state is Connecting,
        mapped_state(state) == PeerTransportState::Disconnected <==> state is Disconnected,
        mapped_state(state) == PeerTransportState::Failed <==> state is Failed || state
            is Unspecified,
{
}

/// A viewer that has just connected is owed a keyframe, and nothing else that happens to a
/// connection reaches the encoder. Every state has a name of its own.
pub proof fn law_connecting_asks_for_a_keyframe(
    control: EncoderControl,
    state: ConnectionState,
    other: ConnectionState,
)
    ensures
        state is Connected ==> connection_noted(control, state).keyframe_requested,
        !(state is Connected) ==> connection_noted(control, state) == control,
        connection_noted(control, state).target == control.target,
        connection_noted(control, state).bitrate == control.bitrate,
        connection_noted(control, state).stop_requested == control.stop_requested,
        state_name(state) == state_name(other) ==> state == other,
{
    reveal_strlit("new");
    reveal_strlit("connecting");
    reveal_strlit("connected");
    reveal_strlit("disconnected");
    reveal_strlit("failed");
    reveal_strlit("closed");
    reveal_strlit("Unspecified");
    assert("new"@.len() == 3 && "connecting"@.len() == 10 && "connected"@.len() == 9);
    assert("disconnected"@.len() == 12 && "failed"@.len() == 6 && "closed"@.len() == 6);
    assert("failed"@[0] == 'f' && "closed"@[0] == 'c' && "Unspecified"@.len() == 11);
}

} // verus!
