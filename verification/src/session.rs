//! A running session: what it was asked for, its viewers and what it holds.

use vstd::prelude::*;
use crate::control_plane::{EpochFence, LinkId, OfferEpochFence, SessionEpoch, ShareEpoch};
use crate::peer_signal::{PeerSignal, SignalModel};
use crate::registry::Registry;
use crate::room::opt_signal;
use crate::types::{CreateMediaSessionRequest, RequestModel};

verus! {

/// The connection to one viewer. `P` is the handle of the native peer.
pub struct ViewerLink<P> {
    pub id: String,
    pub nickname: String,
    pub peer: P,
    /// The last offer, kept so that one that was lost can be sent again.
    pub last_offer: Option<PeerSignal>,
    /// When the offer was last sent, in nanoseconds.
    pub offered_at: u64,
    pub offer_resends: u8,
    pub fence: EpochFence,
    pub offer_fence: OfferEpochFence,
    pub link_id: LinkId,
}

/// What a [`ViewerLink`] holds.
pub struct LinkModel<P> {
    pub id: Seq<char>,
    pub nickname: Seq<char>,
    pub peer: P,
    pub last_offer: Option<SignalModel>,
    pub offered_at: u64,
    pub offer_resends: u8,
    pub fence: EpochFence,
    pub offer_fence: OfferEpochFence,
    pub link_id: LinkId,
}

impl<P> View for ViewerLink<P> {
    type V = LinkModel<P>;

    open spec fn view(&self) -> LinkModel<P> {
        LinkModel {
            id: self.id@,
            nickname: self.nickname@,
            peer: self.peer,
            last_offer: opt_signal(self.last_offer),
            offered_at: self.offered_at,
            offer_resends: self.offer_resends,
            fence: self.fence,
            offer_fence: self.offer_fence,
            link_id: self.link_id,
        }
    }
}

/// What the links of a session hold.
pub open spec fn link_models<P>(links: Map<Seq<char>, ViewerLink<P>>) -> Map<
    Seq<char>,
    LinkModel<P>,
> {
    links.map_values(|link: ViewerLink<P>| link@)
}

/// What an optional link holds.
pub open spec fn opt_link<P>(link: Option<ViewerLink<P>>) -> Option<LinkModel<P>> {
    match link {
        Some(l) => Some(l@),
        None => None,
    }
}

/// A session. `P` is the handle of a native peer, `R` the handles of everything else
/// that is native.
pub struct SessionRecord<P, R> {
    pub id: String,
    pub generation: u64,
    pub session_epoch: SessionEpoch,
    pub share_epoch: ShareEpoch,
    pub request: CreateMediaSessionRequest,
    pub viewers: Registry<ViewerLink<P>>,
    /// There is a fanout to feed viewers from.
    pub has_fanout: bool,
    /// System audio is captured.
    pub has_audio_tap: bool,
    /// There is a channel that a tap can feed.
    pub has_audio_channel: bool,
    pub native_capture_active: bool,
    /// Viewers join over the local network.
    pub has_lan_room: bool,
    /// Viewers join over a direct address.
    pub has_direct_room: bool,
    /// Viewers join over the rendezvous server.
    pub has_stunar: bool,
    /// What new viewers are asked for.
    pub password: String,
    /// New viewers wait for the host's decision.
    pub admission: bool,
    pub resources: R,
}

/// What a [`SessionRecord`] holds.
#[verifier::ext_equal]
pub struct SessionModel<P, R> {
    pub id: Seq<char>,
    pub generation: u64,
    pub session_epoch: SessionEpoch,
    pub share_epoch: ShareEpoch,
    pub request: RequestModel,
    pub viewers: Map<Seq<char>, LinkModel<P>>,
    /// The viewers in the order in which they came.
    pub order: Seq<Seq<char>>,
    pub has_fanout: bool,
    pub has_audio_tap: bool,
    pub has_audio_channel: bool,
    pub native_capture_active: bool,
    pub has_lan_room: bool,
    pub has_direct_room: bool,
    pub has_stunar: bool,
    pub password: Seq<char>,
    pub admission: bool,
    pub resources: R,
}

impl<P, R> View for SessionRecord<P, R> {
    type V = SessionModel<P, R>;

    open spec fn view(&self) -> SessionModel<P, R> {
        SessionModel {
            id: self.id@,
            generation: self.generation,
            session_epoch: self.session_epoch,
            share_epoch: self.share_epoch,
            request: self.request@,
            viewers: link_models(self.viewers@),
            order: self.viewers.order(),
            has_fanout: self.has_fanout,
            has_audio_tap: self.has_audio_tap,
            has_audio_channel: self.has_audio_channel,
            native_capture_active: self.native_capture_active,
            has_lan_room: self.has_lan_room,
            has_direct_room: self.has_direct_room,
            has_stunar: self.has_stunar,
            password: self.password@,
            admission: self.admission,
            resources: self.resources,
        }
    }
}

/// What an optional session holds.
pub open spec fn opt_session<P, R>(session: Option<SessionRecord<P, R>>) -> Option<
    SessionModel<P, R>,
> {
    match session {
        Some(s) => Some(s@),
        None => None,
    }
}

impl<P, R> SessionModel<P, R> {
    /// The order lists every viewer once.
    pub open spec fn wf(self) -> bool {
        &&& self.order.no_duplicates()
        &&& forall|id: Seq<char>| #[trigger] self.viewers.contains_key(id) <==> self.order.contains(id)
    }

    /// The session without one of its viewers.
    pub open spec fn without_viewer(self, id: Seq<char>) -> SessionModel<P, R> {
        SessionModel {
            viewers: self.viewers.remove(id),
            order: without(self.order, id),
            ..self
        }
    }

    /// The session with one more viewer.
    pub open spec fn with_viewer(self, id: Seq<char>, link: LinkModel<P>) -> SessionModel<P, R> {
        SessionModel {
            viewers: self.viewers.insert(id, link),
            order: if self.viewers.contains_key(id) {
                self.order
            } else {
                self.order.push(id)
            },
            ..self
        }
    }
}

/// A list of names without one of them.
pub open spec fn without(order: Seq<Seq<char>>, id: Seq<char>) -> Seq<Seq<char>> {
    if order.contains(id) {
        order.remove(order.index_of(id))
    } else {
        order
    }
}

impl<P, R> SessionRecord<P, R> {
    /// The registry of the viewers is well formed.
    pub open spec fn wf(&self) -> bool {
        self.viewers.wf()
    }
}

impl<P, R> SessionRecord<P, R> {
    /// Notes whether the capture runs.
    pub fn set_capture(&mut self, active: bool)
        requires
            old(self).wf(),
        ensures
            final(self).wf(),
            final(self)@ == (SessionModel { native_capture_active: active, ..old(self)@ }),
    {
        self.native_capture_active = active;
    }

    /// Notes whether system audio is captured.
    pub fn set_tap(&mut self, tap: bool)
        requires
            old(self).wf(),
        ensures
            final(self).wf(),
            final(self)@ == (SessionModel { has_audio_tap: tap, ..old(self)@ }),
    {
        self.has_audio_tap = tap;
    }

    /// Notes the epoch of the share.
    pub fn set_share_epoch(&mut self, epoch: ShareEpoch)
        requires
            old(self).wf(),
        ensures
            final(self).wf(),
            final(self)@ == (SessionModel { share_epoch: epoch, ..old(self)@ }),
    {
        self.share_epoch = epoch;
    }

    /// Notes what the session is asked for.
    pub fn set_request(&mut self, request: CreateMediaSessionRequest)
        requires
            old(self).wf(),
        ensures
            final(self).wf(),
            final(self)@ == (SessionModel { request: request@, ..old(self)@ }),
    {
        self.request = request;
    }
}

/// A viewer that comes stands behind all others, one that comes again keeps its place, and
/// one that goes leaves the others in their order. Nothing else of the session changes.
pub proof fn law_viewers_keep_their_order<P, R>(
    session: SessionModel<P, R>,
    id: Seq<char>,
    link: LinkModel<P>,
    other: Seq<char>,
)
    requires
        session.wf(),
        other != id,
    ensures
        ({
            let more = session.with_viewer(id, link);
            let less = session.without_viewer(id);
            &&& more.wf()
            &&& more.viewers.contains_key(id)
            &&& more.viewers[id] == link
            &&& more.viewers.contains_key(other) == session.viewers.contains_key(other)
            &&& session.viewers.contains_key(other) ==> more.viewers[other]
                == session.viewers[other]
            &&& !session.viewers.contains_key(id) ==> more.order.drop_last() == session.order
                && more.order.last() == id
            &&& session.viewers.contains_key(id) ==> more.order == session.order
            &&& less.wf()
            &&& !less.viewers.contains_key(id)
            &&& less.viewers.contains_key(other) == session.viewers.contains_key(other)
            &&& session.viewers.contains_key(other) ==> less.viewers[other]
                == session.viewers[other]
            &&& !session.viewers.contains_key(id) ==> less.order == session.order
            &&& session.viewers.contains_key(id) ==> less.order + seq![id]
                == session.order.remove(session.order.index_of(id)).push(id)
            &&& !session.viewers.contains_key(id) ==> more.without_viewer(id) == session
        }),
        ({
            let more = session.with_viewer(id, link);
            let less = session.without_viewer(id);
            &&& more == (SessionModel { viewers: more.viewers, order: more.order, ..session })
            &&& less == (SessionModel { viewers: less.viewers, order: less.order, ..session })
        }),
{
    let more = session.with_viewer(id, link);
    let less = session.without_viewer(id);
    assert(session.viewers.contains_key(id) <==> session.order.contains(id));
    lemma_with(session, id, link);
    lemma_without(session, id);
    if !session.viewers.contains_key(id) {
        assert(more.order.drop_last() =~= session.order);
        let order = more.order;
        assert(order[order.len() - 1] == id);
        assert(order.contains(id));
        let k = order.index_of(id);
        assert(order[k] == id);
        if k < session.order.len() {
            assert(session.order[k] == id);
        }
        assert(order.remove(k) =~= session.order);
        assert(more.viewers.remove(id) =~= session.viewers);
        assert(more.without_viewer(id) =~= session);
    } else {
        assert(less.order + seq![id] =~= session.order.remove(session.order.index_of(id)).push(id));
    }
}

proof fn lemma_with<P, R>(session: SessionModel<P, R>, id: Seq<char>, link: LinkModel<P>)
    requires
        session.wf(),
    ensures
        session.with_viewer(id, link).wf(),
{
    let more = session.with_viewer(id, link);
    assert(session.viewers.contains_key(id) <==> session.order.contains(id));
    if !session.viewers.contains_key(id) {
        let n = session.order.len() as int;
        assert(more.order[n] == id);
        assert forall|a: int, b: int|
            0 <= a < more.order.len() && 0 <= b < more.order.len() && a != b implies more.order[a]
            != more.order[b] by {
            if a == n {
                assert(session.order.contains(more.order[b]));
            } else if b == n {
                assert(session.order.contains(more.order[a]));
            }
        }
        assert forall|key: Seq<char>| #[trigger]
            more.viewers.contains_key(key) <==> more.order.contains(key) by {
            assert(session.viewers.contains_key(key) <==> session.order.contains(key));
            if session.order.contains(key) {
                assert(more.order[session.order.index_of(key)] == key);
            } else if more.order.contains(key) {
                let k = more.order.index_of(key);
                if k < n {
                    assert(session.order[k] == key);
                }
            }
        }
    } else {
        assert forall|key: Seq<char>| #[trigger]
            more.viewers.contains_key(key) <==> more.order.contains(key) by {
            assert(session.viewers.contains_key(key) <==> session.order.contains(key));
        }
    }
}

proof fn lemma_without<P, R>(session: SessionModel<P, R>, id: Seq<char>)
    requires
        session.wf(),
    ensures
        session.without_viewer(id).wf(),
{
    let less = session.without_viewer(id);
    assert(session.viewers.contains_key(id) <==> session.order.contains(id));
    if session.order.contains(id) {
        let i = session.order.index_of(id);
        assert forall|a: int, b: int|
            0 <= a < less.order.len() && 0 <= b < less.order.len() && a != b implies less.order[a]
            != less.order[b] by {
            let a0 = if a < i {
                a
            } else {
                a + 1
            };
            let b0 = if b < i {
                b
            } else {
                b + 1
            };
            assert(less.order[a] == session.order[a0] && less.order[b] == session.order[b0]);
        }
        assert forall|key: Seq<char>| #[trigger]
            less.viewers.contains_key(key) <==> less.order.contains(key) by {
            assert(session.viewers.contains_key(key) <==> session.order.contains(key));
            if session.order.contains(key) && key != id {
                let j = session.order.index_of(key);
                let k = if j < i {
                    j
                } else {
                    j - 1
                };
                assert(less.order[k] == key);
            }
            if less.order.contains(key) {
                let j = less.order.index_of(key);
                let j0 = if j < i {
                    j
                } else {
                    j + 1
                };
                assert(session.order[j0] == key);
            }
        }
    } else {
        assert forall|key: Seq<char>| #[trigger]
            less.viewers.contains_key(key) <==> less.order.contains(key) by {
            assert(session.viewers.contains_key(key) <==> session.order.contains(key));
        }
    }
}

} // verus!
