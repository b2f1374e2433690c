//! What the user interface asks for, checked before the engine is asked.

use vstd::prelude::*;
use crate::capabilities::{CapabilitiesModel, MediaCapabilities, ScreenRecordingAuthorization};
use crate::engine::{EngineModel, EngineState};
use crate::engine_error::{ErrorModel, MediaEngineError};
use crate::mint::MediaOffer;
use crate::peer_signal::{PeerSignal, SignalModel};
use crate::pipeline::EncoderControl;
use crate::room::{direct_candidates, with_port};
use crate::session::{SessionModel, SessionRecord};
use crate::snapshot::MediaSessionSnapshot;
use crate::text::{opt_text, trimmed};
use crate::types::{
    JoinMode, MediaLifecycleState, PeerTransportState, SourceIdUpdate, UpdateMediaSessionRequest,
};

verus! {

/// Whether this computer may be measured now: not while a session runs.
pub fn run_media_benchmark(snapshot: &MediaSessionSnapshot) -> (result: Result<(), String>)
    ensures
        result is Ok <==> snapshot.state != MediaLifecycleState::Running
            && !snapshot.native_capture_active,
        result matches Err(text) ==> text@ == "Stop the session before measuring this PC."@,
{
    if snapshot.state == MediaLifecycleState::Running || snapshot.native_capture_active {
        return Err("Stop the session before measuring this PC.".to_owned());
    }
    Ok(())
}

/// What a plain update says of the source id: a new one, or nothing.
pub fn source_id_update(request: &UpdateMediaSessionRequest) -> (update: SourceIdUpdate)
    ensures
        update == match request.source_id {
            Some(id) => SourceIdUpdate::To(id),
            None => SourceIdUpdate::Unchanged,
        },
{
    match request.source_id {
        Some(id) => SourceIdUpdate::To(id),
        None => SourceIdUpdate::Unchanged,
    }
}

/// An answer to a member of the room carries the member's id.
pub fn send_stunar_room_answer(answer: PeerSignal, to: &str) -> (signal: PeerSignal)
    ensures
        signal@ == (SignalModel { id: Some(to@), ..answer@ }),
{
    let mut signal = answer;
    signal.id = Some(to.to_owned());
    signal
}

/// How a room is looked for.
#[derive(Debug, PartialEq, Eq)]
pub enum JoinPlan {
    /// By its code, on the local network.
    Lan,
    /// At an address, tried as it is and then with its separate port.
    Direct { whole: String, split: Option<String> },
    /// By its code, on this rendezvous server.
    Stunar { base: String },
}

/// How a room is looked for, or why it cannot be.
pub fn discover_media_room(
    join_mode: JoinMode,
    host: Option<String>,
    port: Option<u16>,
    rendezvous_url: Option<String>,
) -> (plan: Result<JoinPlan, String>)
    ensures
        match join_mode {
            JoinMode::Lan => plan == Ok::<JoinPlan, String>(JoinPlan::Lan),
            JoinMode::Direct => if host is Some && trimmed(host->0@).len() > 0 {
                &&& plan matches Ok(JoinPlan::Direct { whole, split })
                &&& whole@ == trimmed(host->0@)
                &&& opt_text(split) == with_port(trimmed(host->0@), port)
            } else {
                plan matches Err(text) && text@ == "Could not reach that address."@
            },
            JoinMode::Stunar => match rendezvous_url {
                Some(url) => plan matches Ok(JoinPlan::Stunar { base }) && base == url,
                None => plan matches Err(text) && text@ == "Set the Stunar URL in settings."@,
            },
        },
{
    match join_mode {
        JoinMode::Lan => Ok(JoinPlan::Lan),
        JoinMode::Direct => match direct_candidates(host, port) {
            Ok((whole, split)) => Ok(JoinPlan::Direct { whole, split }),
            Err(text) => Err(text),
        },
        JoinMode::Stunar => match rendezvous_url {
            Some(base) => Ok(JoinPlan::Stunar { base }),
            None => Err("Set the Stunar URL in settings.".to_owned()),
        },
    }
}

impl MediaOffer {
    /// An offer with the text that stands for its exact attempt.
    pub fn from_exact(signal: PeerSignal, offer_attempt: String) -> (offer: Self)
        ensures
            offer.signal == signal,
            offer.offer_attempt == offer_attempt,
    {
        MediaOffer { signal, offer_attempt }
    }
}

/// The link of one viewer, for the host's status view.
#[derive(Debug, PartialEq, Eq)]
pub struct ViewerLinkStats {
    pub id: String,
    pub nickname: String,
    pub state: PeerTransportState,
}

/// What is told of one viewer's link.
pub struct LinkStatsModel {
    pub id: Seq<char>,
    pub nickname: Seq<char>,
    pub state: PeerTransportState,
}

/// The links of a session and the rates of its encoder.
#[derive(Debug, PartialEq, Eq)]
pub struct MediaSessionStats {
    pub links: Vec<ViewerLinkStats>,
    pub target_bps: u32,
    pub congestion_bps: Option<u32>,
    pub floor_bps: u32,
}

/// What a list of links tells.
pub open spec fn link_stats(list: Seq<ViewerLinkStats>) -> Seq<LinkStatsModel> {
    Seq::new(
        list.len(),
        |i: int|
            LinkStatsModel { id: list[i].id@, nickname: list[i].nickname@, state: list[i].state },
    )
}

/// What is told of the viewers of a session.
pub open spec fn stats_of_viewers<P, R>(
    session: SessionModel<P, R>,
    states: Seq<PeerTransportState>,
) -> Seq<LinkStatsModel> {
    Seq::new(
        session.order.len(),
        |i: int|
            LinkStatsModel {
                id: session.order[i],
                nickname: session.viewers[session.order[i]].nickname,
                state: states[i],
            },
    )
}

fn stats_for_viewers<P, R>(session: &SessionRecord<P, R>, states: &Vec<PeerTransportState>) -> (list:
    Vec<ViewerLinkStats>)
    requires
        session.wf(),
        states@.len() == session@.order.len(),
    ensures
        link_stats(list@) == stats_of_viewers(session@, states@),
{
    let mut list: Vec<ViewerLinkStats> = Vec::new();
    let ghost wanted = stats_of_viewers(session@, states@);
    proof {
        session.viewers.lemma_items();
    }
    let mut i: usize = 0;
    assert(link_stats(list@) =~= wanted.take(0));
    while i < session.viewers.len()
        invariant
            session.wf(),
            states@.len() == session@.order.len(),
            i <= session@.order.len(),
            wanted == stats_of_viewers(session@, states@),
            forall|j: int|
                0 <= j < session.viewers.order().len() ==> session.viewers@.contains_key(
                    #[trigger] session.viewers.order()[j],
                ) && session.viewers@[session.viewers.order()[j]] == session.viewers.items()[j],
            link_stats(list@) == wanted.take(i as int),
        decreases session@.order.len() - i,
    {
        let ghost before = list@;
        assert(session.viewers@.contains_key(session.viewers.order()[i as int]));
        let viewer = session.viewers.value_at(i);
        let entry = ViewerLinkStats {
            id: session.viewers.key_at(i).clone(),
            nickname: viewer.nickname.clone(),
            state: states[i],
        };
        list.push(entry);
        assert(link_stats(list@) =~= link_stats(before).push(wanted[i as int]));
        assert(wanted.take(i + 1) =~= wanted.take(i as int).push(wanted[i as int]));
        i += 1;
    }
    assert(wanted.take(i as int) =~= wanted);
    list
}

/// What the platform says of the permission to record the screen.
#[derive(Debug, PartialEq, Eq)]
pub enum PermissionReport {
    /// Windows asks for no permission. Whether single processes can be recorded is found
    /// out late, because it takes a while.
    Windows { process_loopback: bool },
    /// What the screen capture framework of macOS says of itself.
    Framework {
        framework_available: bool,
        authorization: ScreenRecordingAuthorization,
        source_enumeration_available: bool,
        detail: String,
    },
}

/// The capabilities once the platform was asked again.
pub open spec fn refreshed(known: CapabilitiesModel, report: PermissionReport) -> CapabilitiesModel {
    match report {
        PermissionReport::Windows { process_loopback } => CapabilitiesModel {
            process_loopback,
            ..known
        },
        PermissionReport::Framework {
            framework_available,
            authorization,
            source_enumeration_available,
            detail,
        } => CapabilitiesModel {
            screen_capture_kit: framework_available,
            screen_recording_authorization: authorization,
            source_enumeration_available,
            detail: detail@,
            ..known
        },
    }
}

impl<P, R, W> EngineState<P, R, W> {
    /// Notes what the platform says, and shows the capabilities.
    pub fn refresh_screen_recording_capabilities(&mut self, report: PermissionReport) -> (shown:
        MediaCapabilities)
        requires
            old(self).wf(),
        ensures
            final(self).wf(),
            final(self)@ == (EngineModel {
                capabilities: refreshed(old(self)@.capabilities, report),
                ..old(self)@
            }),
            shown@ == final(self)@.capabilities,
    {
        match report {
            PermissionReport::Windows { process_loopback } => {
                self.capabilities.process_loopback = process_loopback;
            },
            PermissionReport::Framework {
                framework_available,
                authorization,
                source_enumeration_available,
                detail,
            } => {
                self.update_capabilities(
                    framework_available,
                    authorization,
                    source_enumeration_available,
                    detail,
                );
            },
        }
        self.capabilities.clone()
    }

    /// The sources that can be captured, or why they cannot be listed.
    pub fn enumerate_sources<T>(&self, found: Result<Vec<T>, String>) -> (sources: Result<
        Vec<T>,
        MediaEngineError,
    >)
        ensures
            match found {
                Ok(list) => sources == Ok::<Vec<T>, MediaEngineError>(list),
                Err(text) => sources is Err && sources->Err_0@ == ErrorModel::NativeCapture(text@),
            },
    {
        match found {
            Ok(list) => Ok(list),
            Err(text) => Err(MediaEngineError::NativeCapture(text)),
        }
    }

    /// What is told of the links and of the encoder. `states` holds the state of each peer,
    /// in the order of the viewers. Without a session there is nothing to tell.
    pub fn viewer_link_stats(
        &self,
        states: &Vec<PeerTransportState>,
        control: &EncoderControl,
    ) -> (stats: MediaSessionStats)
        requires
            self.wf(),
            self@.session matches Some(session) ==> states@.len() == session.order.len(),
        ensures
            match self@.session {
                Some(session) => {
                    &&& link_stats(stats.links@) == stats_of_viewers(session, states@)
                    &&& stats.target_bps == control.target
                    &&& stats.congestion_bps == control.congestion
                    &&& stats.floor_bps == control.floor
                },
                None => {
                    &&& stats.links@.len() == 0
                    &&& stats.target_bps == 0
                    &&& stats.congestion_bps is None
                    &&& stats.floor_bps == 0
                },
            },
    {
        match &self.session {
            Some(session) => MediaSessionStats {
                links: stats_for_viewers(session, states),
                target_bps: control.target(),
                congestion_bps: control.congestion_bitrate(),
                floor_bps: control.floor(),
            },
            None => MediaSessionStats {
                links: Vec::new(),
                target_bps: 0,
                congestion_bps: None,
                floor_bps: 0,
            },
        }
    }

    /// Offers are made when a viewer joins, never on demand.
    pub fn create_peer_offer(&self) -> (result: Result<PeerSignal, MediaEngineError>)
        ensures
            result is Err,
            result->Err_0@ == ErrorModel::NativePeer("offers are created when a viewer joins"@),
    {
        Err(MediaEngineError::NativePeer("offers are created when a viewer joins".to_owned()))
    }

    /// The host never answers an offer: viewers are browsers.
    pub fn accept_peer_offer(&self, _offer: &PeerSignal) -> (result: Result<
        PeerSignal,
        MediaEngineError,
    >)
        ensures
            result is Err,
            result->Err_0@ == ErrorModel::NativePeer(
                "native accept_offer is unused; the viewer is browser WebRTC"@,
            ),
    {
        Err(
            MediaEngineError::NativePeer(
                "native accept_offer is unused; the viewer is browser WebRTC".to_owned(),
            ),
        )
    }

    /// Which rooms hear that a share starts or stops: one's own, and the joined one.
    pub fn announce_share(&self) -> (rooms: (bool, bool))
        ensures
            rooms.0 == (self@.session is Some && self@.session->0.has_stunar),
            rooms.1 == self@.viewer_attached,
    {
        let own: bool = match &self.session {
            Some(session) => session.has_stunar,
            None => false,
        };
        (own, self.viewer_attached)
    }

    /// Through which room a wish to watch goes: one's own, or the joined one.
    pub fn request_watch(&self) -> (via_own_room: Result<bool, MediaEngineError>)
        ensures
            if self@.session is Some && self@.session->0.has_stunar {
                via_own_room == Ok::<bool, MediaEngineError>(true)
            } else if self@.viewer_attached {
                via_own_room == Ok::<bool, MediaEngineError>(false)
            } else {
                via_own_room is Err && via_own_room->Err_0@ == ErrorModel::NativePeer(
                    "no stunar session"@,
                )
            },
    {
        self.send_stunar_signal()
    }

    /// Whether an answer can go out: only through a joined room.
    pub fn submit_stunar_answer(&self) -> (result: Result<(), MediaEngineError>)
        ensures
            result is Ok <==> self.viewer_attached,
            result matches Err(error) ==> error@ == ErrorModel::NativePeer("no stunar session"@),
    {
        if !self.viewer_attached {
            return Err(MediaEngineError::NativePeer("no stunar session".to_owned()));
        }
        Ok(())
    }

    /// Notes what the screen capture framework says of itself.
    pub fn update_capabilities(
        &mut self,
        framework_available: bool,
        authorization: ScreenRecordingAuthorization,
        source_enumeration_available: bool,
        detail: String,
    )
        requires
            old(self).wf(),
        ensures
            final(self).wf(),
            final(self)@ == (EngineModel {
                capabilities: CapabilitiesModel {
                    screen_capture_kit: framework_available,
                    screen_recording_authorization: authorization,
                    source_enumeration_available,
                    detail: detail@,
                    ..old(self)@.capabilities
                },
                ..old(self)@
            }),
    {
        self.capabilities.screen_capture_kit = framework_available;
        self.capabilities.screen_recording_authorization = authorization;
        self.capabilities.source_enumeration_available = source_enumeration_available;
        self.capabilities.detail = detail;
    }
}

/// What the platform says of itself replaces what it speaks of and nothing else: on Windows
/// whether single processes can be recorded, on macOS what its framework reports.
pub proof fn law_reports_replace_what_they_speak_of(
    known: CapabilitiesModel,
    report: PermissionReport,
)
    ensures
        ({
            let after = refreshed(known, report);
            &&& (report matches PermissionReport::Windows { process_loopback } ==> {
                &&& after.process_loopback == process_loopback
                &&& after == (CapabilitiesModel { process_loopback, ..known })
            })
            &&& (report matches PermissionReport::Framework {
                framework_available,
                authorization,
                source_enumeration_available,
                detail,
            } ==> {
                &&& after.screen_capture_kit == framework_available
                &&& after.screen_recording_authorization == authorization
                &&& after.source_enumeration_available == source_enumeration_available
                &&& after.detail == detail@
                &&& after.process_loopback == known.process_loopback
                &&& after.supported == known.supported
                &&& after.platform == known.platform
                &&& after.app_audio_exclusion == known.app_audio_exclusion
            })
        }),
{
}

/// Every viewer is told of once, in the order in which they came, by id, nickname and the
/// state of its own peer.
pub proof fn law_every_viewer_is_told_of<P, R>(
    session: SessionModel<P, R>,
    states: Seq<PeerTransportState>,
    i: int,
)
    requires
        0 <= i < session.order.len(),
    ensures
        stats_of_viewers(session, states).len() == session.order.len(),
        stats_of_viewers(session, states)[i].id == session.order[i],
        stats_of_viewers(session, states)[i].nickname
            == session.viewers[session.order[i]].nickname,
        stats_of_viewers(session, states)[i].state == states[i],
{
}

} // verus!
