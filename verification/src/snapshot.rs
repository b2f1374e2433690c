//! What the user is shown of the engine.

use vstd::prelude::*;
use crate::inbox::RoomEntry;
use crate::peer_transport::{PeerStatusModel, PeerTransportStatus};
use crate::room_mode::SessionMode;
use crate::session::{SessionModel, SessionRecord};
use crate::text::{copy_opt_text, copy_texts, opt_text, same_text, texts};
use crate::types::{
    CaptureSource, FrameRate, JoinMode, MediaLifecycleState, PeerTransportState, StunarState,
    VideoResolution,
};

verus! {

/// A member as the user sees it.
#[derive(Debug, PartialEq, Eq)]
pub struct RosterEntry {
    pub id: String,
    pub nickname: String,
    pub state: PeerTransportState,
    pub master: bool,
    pub share: bool,
}

/// What a [`RosterEntry`] holds.
pub struct RosterModel {
    pub id: Seq<char>,
    pub nickname: Seq<char>,
    pub state: PeerTransportState,
    pub master: bool,
    pub share: bool,
}

impl View for RosterEntry {
    type V = RosterModel;

    open spec fn view(&self) -> RosterModel {
        RosterModel {
            id: self.id@,
            nickname: self.nickname@,
            state: self.state,
            master: self.master,
            share: self.share,
        }
    }
}

impl Clone for RosterEntry {
    fn clone(&self) -> (copy: Self)
        ensures
            copy@ == self@,
    {
        RosterEntry {
            id: self.id.clone(),
            nickname: self.nickname.clone(),
            state: self.state,
            master: self.master,
            share: self.share,
        }
    }
}

/// What a roster holds.
pub open spec fn roster_entries(list: Seq<RosterEntry>) -> Seq<RosterModel> {
    Seq::new(list.len(), |i: int| list[i]@)
}

/// What the user is shown.
#[derive(Debug, PartialEq, Eq)]
pub struct MediaSessionSnapshot {
    pub state: MediaLifecycleState,
    pub session_id: Option<String>,
    pub source: Option<CaptureSource>,
    pub source_id: Option<u64>,
    pub resolution: Option<VideoResolution>,
    pub frame_rate: Option<FrameRate>,
    pub bitrate_bps: u32,
    pub system_audio: bool,
    pub excluded_apps: Vec<String>,
    pub native_capture_active: bool,
    pub preview_callback_count: u64,
    pub preview_frame_count: u64,
    pub preview_dropped_count: u64,
    pub preview_error: Option<String>,
    pub detail: String,
    pub peer_state: PeerTransportState,
    pub peer_detail: String,
    pub session_code: Option<String>,
    pub lan_addresses: Vec<String>,
    pub lan_port: Option<u16>,
    pub roster: Vec<RosterEntry>,
    pub self_id: Option<String>,
    pub password_set: bool,
    pub admission: bool,
    pub join_mode: JoinMode,
    pub session_mode: SessionMode,
    pub direct_listen_port: Option<u16>,
    pub direct_addresses: Vec<String>,
    pub direct_mapping: bool,
    pub stunar_state: Option<StunarState>,
}

/// What a [`MediaSessionSnapshot`] holds.
#[verifier::ext_equal]
pub struct SnapshotModel {
    pub state: MediaLifecycleState,
    pub session_id: Option<Seq<char>>,
    pub source: Option<CaptureSource>,
    pub source_id: Option<u64>,
    pub resolution: Option<VideoResolution>,
    pub frame_rate: Option<FrameRate>,
    pub bitrate_bps: u32,
    pub system_audio: bool,
    pub excluded_apps: Seq<Seq<char>>,
    pub native_capture_active: bool,
    pub preview_callback_count: u64,
    pub preview_frame_count: u64,
    pub preview_dropped_count: u64,
    pub preview_error: Option<Seq<char>>,
    pub detail: Seq<char>,
    pub peer_state: PeerTransportState,
    pub peer_detail: Seq<char>,
    pub session_code: Option<Seq<char>>,
    pub lan_addresses: Seq<Seq<char>>,
    pub lan_port: Option<u16>,
    pub roster: Seq<RosterModel>,
    pub self_id: Option<Seq<char>>,
    pub password_set: bool,
    pub admission: bool,
    pub join_mode: JoinMode,
    pub session_mode: SessionMode,
    pub direct_listen_port: Option<u16>,
    pub direct_addresses: Seq<Seq<char>>,
    pub direct_mapping: bool,
    pub stunar_state: Option<StunarState>,
}

impl View for MediaSessionSnapshot {
    type V = SnapshotModel;

    open spec fn view(&self) -> SnapshotModel {
        SnapshotModel {
            state: self.state,
            session_id: opt_text(self.session_id),
            source: self.source,
            source_id: self.source_id,
            resolution: self.resolution,
            frame_rate: self.frame_rate,
            bitrate_bps: self.bitrate_bps,
            system_audio: self.system_audio,
            excluded_apps: texts(self.excluded_apps@),
            native_capture_active: self.native_capture_active,
            preview_callback_count: self.preview_callback_count,
            preview_frame_count: self.preview_frame_count,
            preview_dropped_count: self.preview_dropped_count,
            preview_error: opt_text(self.preview_error),
            detail: self.detail@,
            peer_state: self.peer_state,
            peer_detail: self.peer_detail@,
            session_code: opt_text(self.session_code),
            lan_addresses: texts(self.lan_addresses@),
            lan_port: self.lan_port,
            roster: roster_entries(self.roster@),
            self_id: opt_text(self.self_id),
            password_set: self.password_set,
            admission: self.admission,
            join_mode: self.join_mode,
            session_mode: self.session_mode,
            direct_listen_port: self.direct_listen_port,
            direct_addresses: texts(self.direct_addresses@),
            direct_mapping: self.direct_mapping,
            stunar_state: self.stunar_state,
        }
    }
}

fn copy_roster(roster: &Vec<RosterEntry>) -> (copy: Vec<RosterEntry>)
    ensures
        roster_entries(copy@) == roster_entries(roster@),
{
    let mut copy: Vec<RosterEntry> = Vec::new();
    let mut i: usize = 0;
    while i < roster.len()
        invariant
            i <= roster@.len(),
            copy@.len() == i,
            forall|j: int| 0 <= j < i ==> #[trigger] copy@[j]@ == roster@[j]@,
        decreases roster@.len() - i,
    {
        copy.push(roster[i].clone());
        i += 1;
    }
    assert(roster_entries(copy@) =~= roster_entries(roster@));
    copy
}

impl Clone for MediaSessionSnapshot {
    fn clone(&self) -> (copy: Self)
        ensures
            copy@ == self@,
    {
        MediaSessionSnapshot {
            state: self.state,
            session_id: copy_opt_text(&self.session_id),
            source: self.source,
            source_id: self.source_id,
            resolution: self.resolution,
            frame_rate: self.frame_rate,
            bitrate_bps: self.bitrate_bps,
            system_audio: self.system_audio,
            excluded_apps: copy_texts(&self.excluded_apps),
            native_capture_active: self.native_capture_active,
            preview_callback_count: self.preview_callback_count,
            preview_frame_count: self.preview_frame_count,
            preview_dropped_count: self.preview_dropped_count,
            preview_error: copy_opt_text(&self.preview_error),
            detail: self.detail.clone(),
            peer_state: self.peer_state,
            peer_detail: self.peer_detail.clone(),
            session_code: copy_opt_text(&self.session_code),
            lan_addresses: copy_texts(&self.lan_addresses),
            lan_port: self.lan_port,
            roster: copy_roster(&self.roster),
            self_id: copy_opt_text(&self.self_id),
            password_set: self.password_set,
            admission: self.admission,
            join_mode: self.join_mode,
            session_mode: self.session_mode,
            direct_listen_port: self.direct_listen_port,
            direct_addresses: copy_texts(&self.direct_addresses),
            direct_mapping: self.direct_mapping,
            stunar_state: self.stunar_state,
        }
    }
}

/// What is shown while there is no session.
pub open spec fn idle_snapshot(detail: Seq<char>) -> SnapshotModel {
    SnapshotModel {
        state: MediaLifecycleState::Idle,
        session_id: None,
        source: None,
        source_id: None,
        resolution: None,
        frame_rate: None,
        bitrate_bps: 0,
        system_audio: false,
        excluded_apps: Seq::empty(),
        native_capture_active: false,
        preview_callback_count: 0,
        preview_frame_count: 0,
        preview_dropped_count: 0,
        preview_error: None,
        detail,
        peer_state: PeerTransportState::Disabled,
        peer_detail: "Native peer transport is unavailable."@,
        session_code: None,
        lan_addresses: Seq::empty(),
        lan_port: None,
        roster: Seq::empty(),
        self_id: None,
        password_set: false,
        admission: false,
        join_mode: JoinMode::Lan,
        session_mode: SessionMode::Broadcast,
        direct_listen_port: None,
        direct_addresses: Seq::empty(),
        direct_mapping: false,
        stunar_state: None,
    }
}

impl MediaSessionSnapshot {
    /// What is shown while there is no session.
    pub fn idle(detail: &str) -> (snapshot: Self)
        ensures
            snapshot@ == idle_snapshot(detail@),
    {
        let snapshot = MediaSessionSnapshot {
            state: MediaLifecycleState::Idle,
            session_id: None,
            source: None,
            source_id: None,
            resolution: None,
            frame_rate: None,
            bitrate_bps: 0,
            system_audio: false,
            excluded_apps: Vec::new(),
            native_capture_active: false,
            preview_callback_count: 0,
            preview_frame_count: 0,
            preview_dropped_count: 0,
            preview_error: None,
            detail: detail.to_owned(),
            peer_state: PeerTransportState::Disabled,
            peer_detail: "Native peer transport is unavailable.".to_owned(),
            session_code: None,
            lan_addresses: Vec::new(),
            lan_port: None,
            roster: Vec::new(),
            self_id: None,
            password_set: false,
            admission: false,
            join_mode: JoinMode::Lan,
            session_mode: SessionMode::Broadcast,
            direct_listen_port: None,
            direct_addresses: Vec::new(),
            direct_mapping: false,
            stunar_state: None,
        };
        assert(snapshot@ =~= idle_snapshot(detail@));
        snapshot
    }
}

/// Where the native capture stands.
#[derive(Clone, Copy, Debug, PartialEq, Eq, Structural)]
pub enum CaptureLifecycle {
    /// The platform does not say.
    Unknown,
    Idle,
    Running,
    Stopping,
    Failed,
    CleanupPending,
}

/// The room in the local network.
#[derive(Debug, PartialEq, Eq)]
pub struct LanFacts {
    pub code: String,
    pub addresses: Vec<String>,
    pub port: u16,
}

/// The direct listener.
#[derive(Debug, PartialEq, Eq)]
pub struct DirectFacts {
    pub port: u16,
    pub addresses: Vec<String>,
    pub mapping: bool,
}

/// The room on the rendezvous server.
#[derive(Debug, PartialEq, Eq)]
pub struct StunarFacts {
    pub code: String,
    pub state: StunarState,
    pub self_id: Option<String>,
    /// The members that wait to be let in: id and nickname.
    pub pending: Vec<(String, String)>,
    pub room: Vec<RoomEntry>,
}

/// A room on the rendezvous server that was joined.
#[derive(Debug, PartialEq, Eq)]
pub struct ViewerFacts {
    pub member_id: Option<String>,
    pub mode: String,
    pub room: Vec<RoomEntry>,
}

/// What the native parts of a session say of themselves at one moment.
#[derive(Debug, PartialEq, Eq)]
pub struct Observed {
    pub capture: CaptureLifecycle,
    pub capture_failure: Option<String>,
    pub pipeline_failure: Option<String>,
    pub bitrate_target: u32,
    pub preview_callback_count: u64,
    pub preview_frame_count: u64,
    pub preview_dropped_count: u64,
    pub preview_error: Option<String>,
    /// The status of each viewer's peer, in the order of the viewers.
    pub peers: Vec<PeerTransportStatus>,
    /// The viewers that wait at the local gate: id and nickname.
    pub waiting: Vec<(String, String)>,
    pub lan: Option<LanFacts>,
    pub direct: Option<DirectFacts>,
    pub stunar: Option<StunarFacts>,
    pub viewer: Option<ViewerFacts>,
}

/// What a list of statuses holds.
pub open spec fn status_models(list: Seq<PeerTransportStatus>) -> Seq<PeerStatusModel> {
    Seq::new(list.len(), |i: int| list[i]@)
}

/// A member list as the server gave it, by its contents.
pub open spec fn listed(room: Seq<RoomEntry>) -> Seq<RosterModel> {
    Seq::new(
        room.len(),
        |i: int|
            RosterModel {
                id: room[i].id@,
                nickname: room[i].nickname@,
                state: if room[i].share {
                    PeerTransportState::Connected
                } else {
                    PeerTransportState::New
                },
                master: room[i].master,
                share: room[i].share,
            },
    )
}

/// The position of the first entry with an id.
pub open spec fn entry_position(roster: Seq<RosterModel>, id: Seq<char>) -> Option<int>
    decreases roster.len(),
{
    if roster.len() == 0 {
        None
    } else {
        match entry_position(roster.drop_last(), id) {
            Some(i) => Some(i),
            None => if roster.last().id == id {
                Some(roster.len() - 1)
            } else {
                None
            },
        }
    }
}

/// A roster with one member of the room: one that is known takes over who is master and
/// who shares, a new one is added.
pub open spec fn merged_one(roster: Seq<RosterModel>, member: RosterModel) -> Seq<RosterModel> {
    match entry_position(roster, member.id) {
        Some(i) => roster.update(
            i,
            RosterModel { master: member.master, share: member.share, ..roster[i] },
        ),
        None => roster.push(member),
    }
}

/// A roster with the members of the room.
pub open spec fn merged(roster: Seq<RosterModel>, room: Seq<RosterModel>) -> Seq<RosterModel>
    decreases room.len(),
{
    if room.len() == 0 {
        roster
    } else {
        merged_one(merged(roster, room.drop_last()), room.last())
    }
}

fn position_of(roster: &Vec<RosterEntry>, id: &str) -> (found: Option<usize>)
    ensures
        match found {
            Some(i) => i < roster@.len() && entry_position(roster_entries(roster@), id@) == Some(
                i as int,
            ),
            None => entry_position(roster_entries(roster@), id@) is None,
        },
{
    let ghost models = roster_entries(roster@);
    let mut i: usize = 0;
    assert(models.take(0) =~= Seq::<RosterModel>::empty());
    while i < roster.len()
        invariant
            i <= roster@.len(),
            models == roster_entries(roster@),
            entry_position(models.take(i as int), id@) is None,
        decreases roster@.len() - i,
    {
        assert(models.take(i as int + 1).drop_last() =~= models.take(i as int));
        assert(models.take(i as int + 1).last() == roster@[i as int]@);
        if same_text(roster[i].id.as_str(), id) {
            proof {
                lemma_position_stays(models, id@, i as int + 1, i as int);
            }
            return Some(i);
        }
        i += 1;
    }
    assert(models.take(i as int) =~= models);
    None
}

proof fn lemma_position_stays(roster: Seq<RosterModel>, id: Seq<char>, n: int, at: int)
    requires
        0 <= n <= roster.len(),
        entry_position(roster.take(n), id) == Some(at),
    ensures
        entry_position(roster, id) == Some(at),
    decreases roster.len() - n,
{
    if n == roster.len() {
        assert(roster.take(n) =~= roster);
    } else {
        assert(roster.take(n + 1).drop_last() =~= roster.take(n));
        lemma_position_stays(roster, id, n + 1, at);
    }
}

/// Adds the members of a room to a roster.
pub fn merge_viewer_roster(roster: &mut Vec<RosterEntry>, room: &Vec<RoomEntry>)
    ensures
        roster_entries(final(roster)@) == merged(roster_entries(old(roster)@), listed(room@)),
{
    let ghost start = roster_entries(roster@);
    let ghost members = listed(room@);
    let mut k: usize = 0;
    assert(members.take(0) =~= Seq::<RosterModel>::empty());
    while k < room.len()
        invariant
            k <= room@.len(),
            members == listed(room@),
            start == roster_entries(old(roster)@),
            roster_entries(roster@) == merged(start, members.take(k as int)),
        decreases room@.len() - k,
    {
        let member = &room[k];
        let ghost before = roster_entries(roster@);
        let ghost given = members[k as int];
        assert(members.take(k as int + 1).drop_last() =~= members.take(k as int));
        assert(members.take(k as int + 1).last() == given);
        match position_of(roster, member.id.as_str()) {
            Some(i) => {
                let known = &roster[i];
                let entry = RosterEntry {
                    id: known.id.clone(),
                    nickname: known.nickname.clone(),
                    state: known.state,
                    master: member.master,
                    share: member.share,
                };
                let ghost model = entry@;
                roster.set(i, entry);
                assert(roster_entries(roster@) =~= before.update(i as int, model));
            },
            None => {
                let state = if member.share {
                    PeerTransportState::Connected
                } else {
                    PeerTransportState::New
                };
                let entry = RosterEntry {
                    id: member.id.clone(),
                    nickname: member.nickname.clone(),
                    state,
                    master: member.master,
                    share: member.share,
                };
                roster.push(entry);
                assert(roster_entries(roster@) =~= before.push(given));
            },
        }
        k += 1;
    }
    assert(members.take(k as int) =~= members);
}

/// Members that wait, as they are shown.
pub open spec fn waiting_entries(list: Seq<(String, String)>) -> Seq<RosterModel> {
    Seq::new(
        list.len(),
        |i: int|
            RosterModel {
                id: list[i].0@,
                nickname: list[i].1@,
                state: PeerTransportState::Pending,
                master: false,
                share: false,
            },
    )
}

fn push_waiting(roster: &mut Vec<RosterEntry>, list: &Vec<(String, String)>)
    ensures
        roster_entries(final(roster)@) == roster_entries(old(roster)@) + waiting_entries(list@),
{
    let mut i: usize = 0;
    assert(roster_entries(roster@) =~= roster_entries(old(roster)@) + waiting_entries(list@).take(
        0,
    ));
    while i < list.len()
        invariant
            i <= list@.len(),
            roster_entries(roster@) == roster_entries(old(roster)@) + waiting_entries(list@).take(
                i as int,
            ),
        decreases list@.len() - i,
    {
        let ghost before = roster_entries(roster@);
        let entry = RosterEntry {
            id: list[i].0.clone(),
            nickname: list[i].1.clone(),
            state: PeerTransportState::Pending,
            master: false,
            share: false,
        };
        let ghost model = entry@;
        roster.push(entry);
        assert(roster_entries(roster@) =~= before.push(model));
        i += 1;
        assert(waiting_entries(list@).take(i as int) =~= waiting_entries(list@).take(i - 1).push(
            model,
        ));
        assert(roster_entries(roster@) =~= roster_entries(old(roster)@) + waiting_entries(
            list@,
        ).take(i as int));
    }
    assert(waiting_entries(list@).take(i as int) =~= waiting_entries(list@));
}

/// The viewers of a session, as they are shown.
pub open spec fn viewer_entries<P, R>(
    session: SessionModel<P, R>,
    peers: Seq<PeerStatusModel>,
) -> Seq<RosterModel> {
    Seq::new(
        session.order.len(),
        |i: int|
            RosterModel {
                id: session.viewers[session.order[i]].id,
                nickname: session.viewers[session.order[i]].nickname,
                state: peers[i].state,
                master: false,
                share: false,
            },
    )
}

/// How much a peer's state says of the session.
pub open spec fn peer_rank(state: PeerTransportState) -> int {
    match state {
        PeerTransportState::Connected => 5,
        PeerTransportState::Connecting => 4,
        PeerTransportState::New | PeerTransportState::Starting => 3,
        PeerTransportState::Failed => 2,
        PeerTransportState::Disconnected | PeerTransportState::Closed => 1,
        PeerTransportState::Pending | PeerTransportState::Disabled => 0,
    }
}

fn rank_of(state: PeerTransportState) -> (rank: u8)
    ensures
        rank == peer_rank(state),
{
    match state {
        PeerTransportState::Connected => 5,
        PeerTransportState::Connecting => 4,
        PeerTransportState::New | PeerTransportState::Starting => 3,
        PeerTransportState::Failed => 2,
        PeerTransportState::Disconnected | PeerTransportState::Closed => 1,
        PeerTransportState::Pending | PeerTransportState::Disabled => 0,
    }
}

/// The status that is shown for all peers: the last one of the highest rank.
pub open spec fn leading_status(peers: Seq<PeerStatusModel>) -> Option<PeerStatusModel>
    decreases peers.len(),
{
    if peers.len() == 0 {
        None
    } else {
        match leading_status(peers.drop_last()) {
            Some(best) => if peer_rank(peers.last().state) >= peer_rank(best.state) {
                Some(peers.last())
            } else {
                Some(best)
            },
            None => Some(peers.last()),
        }
    }
}

fn leader(peers: &Vec<PeerTransportStatus>) -> (best: Option<usize>)
    ensures
        match best {
            Some(i) => i < peers@.len() && leading_status(status_models(peers@)) == Some(
                peers@[i as int]@,
            ),
            None => leading_status(status_models(peers@)) is None,
        },
{
    let ghost models = status_models(peers@);
    let mut best: Option<usize> = None;
    let mut i: usize = 0;
    assert(models.take(0) =~= Seq::<PeerStatusModel>::empty());
    while i < peers.len()
        invariant
            i <= peers@.len(),
            models == status_models(peers@),
            match best {
                Some(b) => b < i && leading_status(models.take(i as int)) == Some(
                    peers@[b as int]@,
                ),
                None => leading_status(models.take(i as int)) is None,
            },
        decreases peers@.len() - i,
    {
        assert(models.take(i as int + 1).drop_last() =~= models.take(i as int));
        assert(models.take(i as int + 1).last() == peers@[i as int]@);
        best = match best {
            Some(b) => if rank_of(peers[i].state) >= rank_of(peers[b].state) {
                Some(i)
            } else {
                Some(b)
            },
            None => Some(i),
        };
        i += 1;
    }
    assert(models.take(i as int) =~= models);
    best
}

/// The roster of a session as it is shown: its viewers, those who wait, the members of
/// the room that it opened and of the room that it joined.
pub open spec fn shown_roster<P, R>(session: SessionModel<P, R>, observed: Observed) -> Seq<
    RosterModel,
> {
    let own = viewer_entries(session, status_models(observed.peers@)) + waiting_entries(
        observed.waiting@,
    );
    let hosted = match observed.stunar {
        Some(stunar) => merged(own + waiting_entries(stunar.pending@), listed(stunar.room@)),
        None => own,
    };
    match observed.viewer {
        Some(viewer) => merged(hosted, listed(viewer.room@)),
        None => hosted,
    }
}

fn session_roster<P, R>(session: &SessionRecord<P, R>, observed: &Observed) -> (roster: Vec<
    RosterEntry,
>)
    requires
        session.wf(),
        observed.peers@.len() == session@.order.len(),
    ensures
        roster_entries(roster@) == shown_roster(session@, *observed),
{
    let mut roster: Vec<RosterEntry> = Vec::new();
    let ghost wanted = viewer_entries(session@, status_models(observed.peers@));
    proof {
        session.viewers.lemma_items();
    }
    let mut i: usize = 0;
    assert(roster_entries(roster@) =~= wanted.take(0));
    while i < session.viewers.len()
        invariant
            session.wf(),
            i <= session@.order.len(),
            observed.peers@.len() == session@.order.len(),
            wanted == viewer_entries(session@, status_models(observed.peers@)),
            forall|j: int|
                0 <= j < session.viewers.order().len() ==> session.viewers@.contains_key(
                    #[trigger] session.viewers.order()[j],
                ) && session.viewers@[session.viewers.order()[j]] == session.viewers.items()[j],
            roster_entries(roster@) == wanted.take(i as int),
        decreases session@.order.len() - i,
    {
        let ghost before = roster_entries(roster@);
        let link = session.viewers.value_at(i);
        assert(session.viewers@.contains_key(session.viewers.order()[i as int]));
        assert(session@.viewers[session@.order[i as int]] == link@);
        let entry = RosterEntry {
            id: link.id.clone(),
            nickname: link.nickname.clone(),
            state: observed.peers[i].state,
            master: false,
            share: false,
        };
        assert(entry@ == wanted[i as int]);
        roster.push(entry);
        assert(roster_entries(roster@) =~= before.push(wanted[i as int]));
        i += 1;
        assert(wanted.take(i as int) =~= wanted.take(i - 1).push(wanted[i - 1]));
    }
    assert(wanted.take(i as int) =~= wanted);
    push_waiting(&mut roster, &observed.waiting);
    if let Some(stunar) = &observed.stunar {
        push_waiting(&mut roster, &stunar.pending);
        merge_viewer_roster(&mut roster, &stunar.room);
    }
    if let Some(viewer) = &observed.viewer {
        merge_viewer_roster(&mut roster, &viewer.room);
    }
    roster
}

/// The first of two optional texts that is there.
pub open spec fn first_text(a: Option<Seq<char>>, b: Option<Seq<char>>) -> Option<Seq<char>> {
    match a {
        Some(text) => Some(text),
        None => b,
    }
}

/// The id under which the host or viewer is known in its room.
pub open spec fn own_id(observed: Observed) -> Option<Seq<char>> {
    first_text(
        match observed.stunar {
            Some(stunar) => opt_text(stunar.self_id),
            None => None,
        },
        match observed.viewer {
            Some(viewer) => opt_text(viewer.member_id),
            None => None,
        },
    )
}

/// The state that is shown: what the native parts say overrides where the session
/// stands.
pub open spec fn shown_state(lifecycle: MediaLifecycleState, observed: Observed) -> MediaLifecycleState {
    if observed.capture == CaptureLifecycle::CleanupPending {
        MediaLifecycleState::CleanupPending
    } else if observed.capture == CaptureLifecycle::Failed || observed.pipeline_failure is Some {
        MediaLifecycleState::Failed
    } else {
        lifecycle
    }
}

/// What is shown of a session.
pub open spec fn session_snapshot<P, R>(
    session: SessionModel<P, R>,
    lifecycle: MediaLifecycleState,
    detail: Seq<char>,
    observed: Observed,
) -> SnapshotModel {
    let leading = leading_status(status_models(observed.peers@));
    SnapshotModel {
        state: shown_state(lifecycle, observed),
        session_id: Some(session.id),
        source: Some(session.request.source),
        source_id: session.request.source_id,
        resolution: Some(session.request.resolution),
        frame_rate: Some(session.request.frame_rate),
        bitrate_bps: observed.bitrate_target,
        system_audio: session.request.system_audio,
        excluded_apps: session.request.excluded_apps,
        native_capture_active: session.native_capture_active && (observed.capture
            == CaptureLifecycle::Unknown || observed.capture == CaptureLifecycle::Running),
        preview_callback_count: observed.preview_callback_count,
        preview_frame_count: observed.preview_frame_count,
        preview_dropped_count: observed.preview_dropped_count,
        preview_error: opt_text(observed.preview_error),
        detail: match first_text(
            opt_text(observed.pipeline_failure),
            opt_text(observed.capture_failure),
        ) {
            Some(text) => text,
            None => match leading {
                Some(status) => status.detail,
                None => detail,
            },
        },
        peer_state: match leading {
            Some(status) => status.state,
            None => PeerTransportState::Disabled,
        },
        peer_detail: match leading {
            Some(status) => status.detail,
            None => "Native peer transport is unavailable."@,
        },
        session_code: match observed.lan {
            Some(lan) => Some(lan.code@),
            None => match observed.stunar {
                Some(stunar) => Some(stunar.code@),
                None => None,
            },
        },
        lan_addresses: match observed.lan {
            Some(lan) => texts(lan.addresses@),
            None => Seq::empty(),
        },
        lan_port: match observed.lan {
            Some(lan) => Some(lan.port),
            None => None,
        },
        roster: shown_roster(session, observed),
        self_id: own_id(observed),
        password_set: session.password.len() > 0,
        admission: session.admission,
        join_mode: session.request.join_mode,
        session_mode: session.request.session_mode,
        direct_listen_port: match observed.direct {
            Some(direct) => Some(direct.port),
            None => None,
        },
        direct_addresses: match observed.direct {
            Some(direct) => texts(direct.addresses@),
            None => Seq::empty(),
        },
        direct_mapping: match observed.direct {
            Some(direct) => direct.mapping,
            None => false,
        },
        stunar_state: match observed.stunar {
            Some(stunar) => Some(stunar.state),
            None => None,
        },
    }
}

fn shown_detail(detail: &str, observed: &Observed) -> (text: String)
    ensures
        text@ == match first_text(
            opt_text(observed.pipeline_failure),
            opt_text(observed.capture_failure),
        ) {
            Some(t) => t,
            None => match leading_status(status_models(observed.peers@)) {
                Some(status) => status.detail,
                None => detail@,
            },
        },
{
    if let Some(text) = &observed.pipeline_failure {
        return text.clone();
    }
    if let Some(text) = &observed.capture_failure {
        return text.clone();
    }
    match leader(&observed.peers) {
        Some(i) => observed.peers[i].detail.clone(),
        None => detail.to_owned(),
    }
}

fn shown_id(observed: &Observed) -> (id: Option<String>)
    ensures
        opt_text(id) == own_id(*observed),
{
    if let Some(stunar) = &observed.stunar {
        if let Some(id) = &stunar.self_id {
            return Some(id.clone());
        }
    }
    match &observed.viewer {
        Some(viewer) => copy_opt_text(&viewer.member_id),
        None => None,
    }
}

fn no_texts() -> (list: Vec<String>)
    ensures
        texts(list@) == Seq::<Seq<char>>::empty(),
{
    let list: Vec<String> = Vec::new();
    assert(texts(list@) =~= Seq::<Seq<char>>::empty());
    list
}

/// Shows a session.
pub fn show_session<P, R>(
    session: &SessionRecord<P, R>,
    lifecycle: MediaLifecycleState,
    detail: &str,
    observed: &Observed,
) -> (snapshot: MediaSessionSnapshot)
    requires
        session.wf(),
        observed.peers@.len() == session@.order.len(),
    ensures
        snapshot@ == session_snapshot(session@, lifecycle, detail@, *observed),
{
    let leading = leader(&observed.peers);
    let (peer_state, peer_detail) = match leading {
        Some(i) => (observed.peers[i].state, observed.peers[i].detail.clone()),
        None => (
            PeerTransportState::Disabled,
            "Native peer transport is unavailable.".to_owned(),
        ),
    };
    let state = if observed.capture == CaptureLifecycle::CleanupPending {
        MediaLifecycleState::CleanupPending
    } else if observed.capture == CaptureLifecycle::Failed || observed.pipeline_failure.is_some() {
        MediaLifecycleState::Failed
    } else {
        lifecycle
    };
    let session_code: Option<String> = match &observed.lan {
        Some(lan) => Some(lan.code.clone()),
        None => match &observed.stunar {
            Some(stunar) => Some(stunar.code.clone()),
            None => None,
        },
    };
    let (lan_addresses, lan_port): (Vec<String>, Option<u16>) = match &observed.lan {
        Some(lan) => (copy_texts(&lan.addresses), Some(lan.port)),
        None => (no_texts(), None),
    };
    let (direct_listen_port, direct_addresses, direct_mapping): (
        Option<u16>,
        Vec<String>,
        bool,
    ) = match &observed.direct {
        Some(direct) => (Some(direct.port), copy_texts(&direct.addresses), direct.mapping),
        None => (None, no_texts(), false),
    };
    let stunar_state: Option<StunarState> = match &observed.stunar {
        Some(stunar) => Some(stunar.state),
        None => None,
    };
    let snapshot = MediaSessionSnapshot {
        state,
        session_id: Some(session.id.clone()),
        source: Some(session.request.source),
        source_id: session.request.source_id,
        resolution: Some(session.request.resolution),
        frame_rate: Some(session.request.frame_rate),
        bitrate_bps: observed.bitrate_target,
        system_audio: session.request.system_audio,
        excluded_apps: copy_texts(&session.request.excluded_apps),
        native_capture_active: session.native_capture_active && (observed.capture
            == CaptureLifecycle::Unknown || observed.capture == CaptureLifecycle::Running),
        preview_callback_count: observed.preview_callback_count,
        preview_frame_count: observed.preview_frame_count,
        preview_dropped_count: observed.preview_dropped_count,
        preview_error: copy_opt_text(&observed.preview_error),
        detail: shown_detail(detail, observed),
        peer_state,
        peer_detail,
        session_code,
        lan_addresses,
        lan_port,
        roster: session_roster(session, observed),
        self_id: shown_id(observed),
        password_set: crate::text::chars_of(session.password.as_str()).len() > 0,
        admission: session.admission,
        join_mode: session.request.join_mode,
        session_mode: session.request.session_mode,
        direct_listen_port,
        direct_addresses,
        direct_mapping,
        stunar_state,
    };
    assert(snapshot@ =~= session_snapshot(session@, lifecycle, detail@, *observed));
    snapshot
}

/// What is shown of a room that was joined.
pub open spec fn viewer_snapshot(detail: Seq<char>, viewer: ViewerFacts) -> SnapshotModel {
    SnapshotModel {
        state: MediaLifecycleState::Running,
        roster: merged(Seq::empty(), listed(viewer.room@)),
        self_id: opt_text(viewer.member_id),
        session_mode: if viewer.mode@ == "room"@ {
            SessionMode::Room
        } else {
            SessionMode::Broadcast
        },
        join_mode: JoinMode::Stunar,
        ..idle_snapshot(detail)
    }
}

/// Shows a room that was joined.
pub fn show_viewer(detail: &str, viewer: &ViewerFacts) -> (snapshot: MediaSessionSnapshot)
    ensures
        snapshot@ == viewer_snapshot(detail@, *viewer),
{
    let mut roster: Vec<RosterEntry> = Vec::new();
    assert(roster_entries(roster@) =~= Seq::<RosterModel>::empty());
    merge_viewer_roster(&mut roster, &viewer.room);
    let mut snapshot = MediaSessionSnapshot::idle(detail);
    snapshot.state = MediaLifecycleState::Running;
    snapshot.roster = roster;
    snapshot.self_id = copy_opt_text(&viewer.member_id);
    snapshot.session_mode = if same_text(viewer.mode.as_str(), "room") {
        SessionMode::Room
    } else {
        SessionMode::Broadcast
    };
    snapshot.join_mode = JoinMode::Stunar;
    snapshot
}

/// The status that is shown is that of some peer, and no peer ranks higher.
pub proof fn law_leading_status_leads(peers: Seq<PeerStatusModel>, i: int)
    requires
        0 <= i < peers.len(),
    ensures
        leading_status(peers) is Some,
        peers.contains(leading_status(peers)->0),
        peer_rank(peers[i].state) <= peer_rank(leading_status(peers)->0.state),
    decreases peers.len(),
{
    let rest = peers.drop_last();
    if rest.len() > 0 {
        law_leading_status_leads(rest, if i < rest.len() {
            i
        } else {
            0
        });
        let best = leading_status(rest)->0;
        let k = choose|k: int| 0 <= k < rest.len() && rest[k] == best;
        assert(peers[k] == best);
        assert(peers[peers.len() - 1] == peers.last());
        if i < rest.len() {
            assert(rest[i] == peers[i]);
        }
    } else {
        assert(peers[0] == peers.last());
    }
}

/// Merging the members of a room loses nobody and changes nobody's connection: every
/// entry keeps its place, its id and its state.
pub proof fn law_merging_keeps_entries(roster: Seq<RosterModel>, room: Seq<RosterModel>, i: int)
    requires
        0 <= i < roster.len(),
    ensures
        merged(roster, room).len() >= roster.len(),
        merged(roster, room)[i].id == roster[i].id,
        merged(roster, room)[i].state == roster[i].state,
    decreases room.len(),
{
    if room.len() > 0 {
        law_merging_keeps_entries(roster, room.drop_last(), i);
        let before = merged(roster, room.drop_last());
        lemma_position_is_inside(before, room.last().id);
    }
}

proof fn lemma_position_is_inside(roster: Seq<RosterModel>, id: Seq<char>)
    ensures
        entry_position(roster, id) matches Some(i) ==> 0 <= i < roster.len() && roster[i].id == id,
    decreases roster.len(),
{
    if roster.len() > 0 {
        lemma_position_is_inside(roster.drop_last(), id);
    }
}

/// Peers are ranked by how much they say: one that is connected before one that is about to
/// be, those before new ones, then failures, then what is over, and last what says nothing.
/// Of two that rank alike the later one is shown.
pub proof fn law_ranks_and_ties(peers: Seq<PeerStatusModel>, last: PeerStatusModel)
    ensures
        peer_rank(PeerTransportState::Connected) > peer_rank(PeerTransportState::Connecting),
        peer_rank(PeerTransportState::Connecting) > peer_rank(PeerTransportState::New),
        peer_rank(PeerTransportState::New) == peer_rank(PeerTransportState::Starting),
        peer_rank(PeerTransportState::Starting) > peer_rank(PeerTransportState::Failed),
        peer_rank(PeerTransportState::Failed) > peer_rank(PeerTransportState::Disconnected),
        peer_rank(PeerTransportState::Disconnected) == peer_rank(PeerTransportState::Closed),
        peer_rank(PeerTransportState::Closed) > peer_rank(PeerTransportState::Pending),
        peer_rank(PeerTransportState::Pending) == peer_rank(PeerTransportState::Disabled),
        (forall|i: int|
            0 <= i < peers.len() ==> peer_rank((#[trigger] peers[i]).state) <= peer_rank(
                last.state,
            )) ==> leading_status(peers.push(last)) == Some(last),
        (exists|i: int|
            0 <= i < peers.len() && peer_rank((#[trigger] peers[i]).state) > peer_rank(last.state))
            ==> leading_status(peers.push(last)) == leading_status(peers),
        leading_status(Seq::empty()) is None,
{
    assert(peers.push(last).drop_last() =~= peers);
    if peers.len() > 0 {
        law_leading_status_leads(peers, 0);
        let best = leading_status(peers)->0;
        let k = peers.index_of(best);
        assert(peers[k] == best);
        if exists|i: int|
            0 <= i < peers.len() && peer_rank((#[trigger] peers[i]).state) > peer_rank(last.state) {
            let i = choose|i: int|
                0 <= i < peers.len() && peer_rank((#[trigger] peers[i]).state) > peer_rank(
                    last.state,
                );
            law_leading_status_leads(peers, i);
        }
    }
}

/// A member of the room that is not on the roster yet is added at its end as it is; one that
/// is keeps its name and its connection, and only who is master and who shares is taken over.
pub proof fn law_members_join_the_roster(roster: Seq<RosterModel>, member: RosterModel)
    ensures
        (forall|i: int| 0 <= i < roster.len() ==> (#[trigger] roster[i]).id != member.id)
            ==> merged_one(roster, member) == roster.push(member),
        forall|i: int|
            0 <= i < roster.len() && (#[trigger] roster[i]).id == member.id && (forall|j: int|
                0 <= j < i ==> (#[trigger] roster[j]).id != member.id) ==> {
                let after = merged_one(roster, member);
                &&& after.len() == roster.len()
                &&& after[i].master == member.master
                &&& after[i].share == member.share
                &&& after[i].nickname == roster[i].nickname
                &&& after[i].state == roster[i].state
                &&& forall|k: int| 0 <= k < roster.len() && k != i ==> after[k] == roster[k]
            },
{
    lemma_position_is_inside(roster, member.id);
    assert forall|i: int|
        0 <= i < roster.len() && (#[trigger] roster[i]).id == member.id && (forall|j: int|
            0 <= j < i ==> (#[trigger] roster[j]).id != member.id) implies {
        let after = merged_one(roster, member);
        &&& after.len() == roster.len()
        &&& after[i].master == member.master
        &&& after[i].share == member.share
        &&& after[i].nickname == roster[i].nickname
        &&& after[i].state == roster[i].state
        &&& forall|k: int| 0 <= k < roster.len() && k != i ==> after[k] == roster[k]
    } by {
        lemma_first_position(roster, member.id, i);
    }
}

proof fn lemma_first_position(roster: Seq<RosterModel>, id: Seq<char>, i: int)
    requires
        0 <= i < roster.len(),
        roster[i].id == id,
        forall|j: int| 0 <= j < i ==> (#[trigger] roster[j]).id != id,
    ensures
        entry_position(roster, id) == Some(i),
    decreases roster.len(),
{
    let less = roster.drop_last();
    if i < less.len() {
        assert forall|j: int| 0 <= j < i implies (#[trigger] less[j]).id != id by {
            assert(less[j] == roster[j]);
        }
        lemma_first_position(less, id, i);
    } else {
        lemma_position_is_inside(less, id);
        if let Some(k) = entry_position(less, id) {
            assert(less[k] == roster[k]);
        }
    }
}

/// Everyone is shown under the own id and name: viewers with the state of their own peer,
/// those who wait as waiting, and members of the room as connected where they share.
pub proof fn law_everyone_is_shown_as_they_are<P, R>(
    session: SessionModel<P, R>,
    peers: Seq<PeerStatusModel>,
    waiting: Seq<(String, String)>,
    room: Seq<RoomEntry>,
    i: int,
)
    ensures
        viewer_entries(session, peers).len() == session.order.len(),
        0 <= i < session.order.len() ==> {
            let entry = viewer_entries(session, peers)[i];
            let link = session.viewers[session.order[i]];
            &&& entry.id == link.id && entry.nickname == link.nickname
            &&& entry.state == peers[i].state
            &&& !entry.master && !entry.share
        },
        waiting_entries(waiting).len() == waiting.len(),
        0 <= i < waiting.len() ==> {
            let entry = waiting_entries(waiting)[i];
            &&& entry.id == waiting[i].0@ && entry.nickname == waiting[i].1@
            &&& entry.state == PeerTransportState::Pending
            &&& !entry.master && !entry.share
        },
        listed(room).len() == room.len(),
        0 <= i < room.len() ==> {
            let entry = listed(room)[i];
            &&& entry.id == room[i].id@ && entry.nickname == room[i].nickname@
            &&& entry.master == room[i].master && entry.share == room[i].share
            &&& entry.state == PeerTransportState::Connected <==> room[i].share
            &&& entry.state == PeerTransportState::New <==> !room[i].share
        },
{
}

/// The roster begins with the viewers of the session in their order, and behind them come
/// those who wait to be let in, the own ones before those on the server.
pub proof fn law_roster_begins_with_the_viewers<P, R>(
    session: SessionModel<P, R>,
    observed: Observed,
    i: int,
)
    requires
        observed.peers@.len() == session.order.len(),
    ensures
        ({
            let shown = shown_roster(session, observed);
            let n = session.order.len() as int;
            let w = observed.waiting@.len() as int;
            &&& shown.len() >= n + w
            &&& 0 <= i < n ==> shown[i].id == session.viewers[session.order[i]].id && shown[i].state
                == observed.peers@[i].state
            &&& 0 <= i < w ==> shown[n + i].id == observed.waiting@[i].0@ && shown[n + i].state
                == PeerTransportState::Pending
            &&& observed.stunar is Some && 0 <= i < observed.stunar->0.pending@.len()
                ==> shown.len() >= n + w + observed.stunar->0.pending@.len() && shown[n + w + i].id
                == observed.stunar->0.pending@[i].0@ && shown[n + w + i].state
                == PeerTransportState::Pending
            &&& observed.stunar is None && observed.viewer is None ==> shown.len() == n + w
        }),
{
    let own = viewer_entries(session, status_models(observed.peers@)) + waiting_entries(
        observed.waiting@,
    );
    let n = session.order.len() as int;
    let w = observed.waiting@.len() as int;
    lemma_merging_keeps(own, Seq::empty());
    if let Some(stunar) = observed.stunar {
        let base = own + waiting_entries(stunar.pending@);
        let hosted = merged(base, listed(stunar.room@));
        lemma_merging_keeps(base, listed(stunar.room@));
        if let Some(viewer) = observed.viewer {
            lemma_merging_keeps(hosted, listed(viewer.room@));
        }
        if 0 <= i < n {
            assert(base[i] == own[i]);
        }
        if 0 <= i < w {
            assert(base[n + i] == own[n + i]);
        }
    } else if let Some(viewer) = observed.viewer {
        lemma_merging_keeps(own, listed(viewer.room@));
    }
}

proof fn lemma_merging_keeps(roster: Seq<RosterModel>, room: Seq<RosterModel>)
    ensures
        merged(roster, room).len() >= roster.len(),
        forall|i: int|
            0 <= i < roster.len() ==> (#[trigger] merged(roster, room)[i]).id == roster[i].id
                && merged(roster, room)[i].state == roster[i].state,
    decreases room.len(),
{
    if room.len() > 0 {
        lemma_merging_keeps(roster, room.drop_last());
        lemma_position_is_inside(merged(roster, room.drop_last()), room.last().id);
    }
}

/// What the native parts say comes first: a cleanup that is pending, then a failure of the
/// capture or of the pipeline. Otherwise the session is shown where it stands.
pub proof fn law_native_state_comes_first(lifecycle: MediaLifecycleState, observed: Observed)
    ensures
        observed.capture is CleanupPending ==> shown_state(lifecycle, observed) is CleanupPending,
        observed.capture is Failed ==> shown_state(lifecycle, observed) is Failed,
        observed.pipeline_failure is Some && !(observed.capture is CleanupPending) ==> shown_state(
            lifecycle,
            observed,
        ) is Failed,
        observed.pipeline_failure is None && !(observed.capture is CleanupPending)
            && !(observed.capture is Failed) ==> shown_state(lifecycle, observed) == lifecycle,
{
}

/// A session is shown as it was asked for and as its parts report, each in its own place. The
/// capture runs where the session says so and the platform does not say otherwise. The first
/// failure is told, or else what the leading peer says, or else what the engine says.
pub proof fn law_snapshot_shows_the_session<P, R>(
    session: SessionModel<P, R>,
    lifecycle: MediaLifecycleState,
    detail: Seq<char>,
    observed: Observed,
)
    ensures
        ({
            let shown = session_snapshot(session, lifecycle, detail, observed);
            let leading = leading_status(status_models(observed.peers@));
            &&& shown.state == shown_state(lifecycle, observed)
            &&& shown.session_id == Some(session.id)
            &&& shown.source == Some(session.request.source)
            &&& shown.source_id == session.request.source_id
            &&& shown.resolution == Some(session.request.resolution)
            &&& shown.frame_rate == Some(session.request.frame_rate)
            &&& shown.bitrate_bps == observed.bitrate_target
            &&& shown.system_audio == session.request.system_audio
            &&& shown.excluded_apps == session.request.excluded_apps
            &&& shown.native_capture_active <==> session.native_capture_active
                && !(observed.capture is Idle || observed.capture is Stopping || observed.capture
                is Failed || observed.capture is CleanupPending)
            &&& shown.preview_callback_count == observed.preview_callback_count
            &&& shown.preview_frame_count == observed.preview_frame_count
            &&& shown.preview_dropped_count == observed.preview_dropped_count
            &&& shown.preview_error == opt_text(observed.preview_error)
            &&& observed.pipeline_failure is Some ==> shown.detail == observed.pipeline_failure->0@
            &&& observed.pipeline_failure is None && observed.capture_failure is Some
                ==> shown.detail == observed.capture_failure->0@
            &&& observed.pipeline_failure is None && observed.capture_failure is None && leading
                is Some ==> shown.detail == leading->0.detail
            &&& observed.pipeline_failure is None && observed.capture_failure is None && leading
                is None ==> shown.detail == detail
            &&& leading is Some ==> shown.peer_state == leading->0.state && shown.peer_detail
                == leading->0.detail
            &&& leading is None ==> shown.peer_state == PeerTransportState::Disabled
            &&& shown.roster == shown_roster(session, observed)
            &&& shown.self_id == own_id(observed)
            &&& shown.password_set <==> session.password.len() > 0
            &&& shown.admission == session.admission
            &&& shown.join_mode == session.request.join_mode
            &&& shown.session_mode == session.request.session_mode
        }),
{
}

/// The places of a session are shown where it has them: the local room with its code before
/// the room on the server, the direct listener with its addresses. The own id is that of the
/// room one opened, or else of the room one joined.
pub proof fn law_places_are_shown<P, R>(
    session: SessionModel<P, R>,
    lifecycle: MediaLifecycleState,
    detail: Seq<char>,
    observed: Observed,
)
    ensures
        ({
            let shown = session_snapshot(session, lifecycle, detail, observed);
            &&& observed.lan is Some ==> {
                &&& shown.session_code == Some(observed.lan->0.code@)
                &&& shown.lan_addresses == texts(observed.lan->0.addresses@)
                &&& shown.lan_port == Some(observed.lan->0.port)
            }
            &&& observed.lan is None ==> shown.lan_port is None && shown.lan_addresses.len() == 0
            &&& observed.lan is None && observed.stunar is Some ==> shown.session_code == Some(
                observed.stunar->0.code@,
            )
            &&& observed.lan is None && observed.stunar is None ==> shown.session_code is None
            &&& observed.direct is Some ==> {
                &&& shown.direct_listen_port == Some(observed.direct->0.port)
                &&& shown.direct_addresses == texts(observed.direct->0.addresses@)
                &&& shown.direct_mapping == observed.direct->0.mapping
            }
            &&& observed.direct is None ==> shown.direct_listen_port is None
                && shown.direct_addresses.len() == 0 && !shown.direct_mapping
            &&& observed.stunar is Some ==> shown.stunar_state == Some(observed.stunar->0.state)
            &&& observed.stunar is None ==> shown.stunar_state is None
        }),
        observed.stunar is Some && observed.stunar->0.self_id is Some ==> own_id(observed) == Some(
            observed.stunar->0.self_id->0@,
        ),
        (observed.stunar is None || observed.stunar->0.self_id is None) && observed.viewer is Some
            ==> own_id(observed) == opt_text(observed.viewer->0.member_id),
        (observed.stunar is None || observed.stunar->0.self_id is None) && observed.viewer is None
            ==> own_id(observed) is None,
{
}

/// A room that was joined is shown as running, over the rendezvous server, with its members,
/// the own id and its mode; of a session of one's own nothing is shown.
pub proof fn law_joined_rooms_are_shown(detail: Seq<char>, viewer: ViewerFacts)
    ensures
        ({
            let shown = viewer_snapshot(detail, viewer);
            &&& shown.state is Running
            &&& shown.join_mode is Stunar
            &&& shown.session_mode is Room <==> viewer.mode@ == "room"@
            &&& shown.self_id == opt_text(viewer.member_id)
            &&& shown.roster == merged(Seq::empty(), listed(viewer.room@))
            &&& shown.detail == detail
            &&& shown == (SnapshotModel {
                state: shown.state,
                join_mode: shown.join_mode,
                session_mode: shown.session_mode,
                self_id: shown.self_id,
                roster: shown.roster,
                ..idle_snapshot(detail)
            })
        }),
        ({
            let idle = idle_snapshot(detail);
            &&& idle.state is Idle
            &&& idle.detail == detail
            &&& idle.session_id is None && idle.session_code is None && idle.self_id is None
            &&& idle.roster.len() == 0
            &&& !idle.native_capture_active && !idle.system_audio && !idle.password_set
            &&& idle.peer_state is Disabled
        }),
{
}

} // verus!
