//! The viewers of a session: letting them in, watching their links and letting them go.

use vstd::prelude::*;
use crate::cleanup::drop_viewer;
use crate::control_plane::{EpochFence, OfferEpochFence};
use crate::engine::{password_fits, valid_password, EngineModel, EngineState};
use crate::engine_error::{ErrorModel, MediaEngineError};
use crate::peer_signal::{PeerSignal, SignalModel};
use crate::room_mode::{auto_mint_on_accept, SessionMode};
use crate::session::{opt_link, LinkModel, SessionModel, SessionRecord, ViewerLink};
use crate::snapshot::{first_text, CaptureLifecycle};
use crate::text::{opt_text, same_text, texts};
use crate::types::{MediaLifecycleState, PeerTransportState, UpdateCredentialsRequest};

verus! {

/// How long an offer may stay unanswered before it is sent again, in nanoseconds.
pub const OFFER_RESEND_AFTER: u64 = 5_000_000_000;

/// How often an offer is sent again.
pub const MAX_OFFER_RESENDS: u8 = 6;

/// The state without one viewer: the link goes, and its number is retired.
pub open spec fn detached<P, R, W>(state: EngineModel<P, R, W>, id: Seq<char>) -> EngineModel<
    P,
    R,
    W,
> {
    match state.session {
        None => state,
        Some(session) => if session.viewers.contains_key(id) {
            EngineModel {
                session: Some(session.without_viewer(id)),
                actor: state.actor.retire_link(session.viewers[id].link_id),
                ..state
            }
        } else {
            state
        },
    }
}

/// The link of a viewer.
pub open spec fn link_under<P, R, W>(state: EngineModel<P, R, W>, id: Seq<char>) -> Option<
    LinkModel<P>,
> {
    match state.session {
        Some(session) => if session.viewers.contains_key(id) {
            Some(session.viewers[id])
        } else {
            None
        },
        None => None,
    }
}

/// The state without a list of viewers.
pub open spec fn all_detached<P, R, W>(
    state: EngineModel<P, R, W>,
    ids: Seq<Seq<char>>,
) -> EngineModel<P, R, W>
    decreases ids.len(),
{
    if ids.len() == 0 {
        state
    } else {
        detached(all_detached(state, ids.drop_last()), ids.last())
    }
}

/// The links that go with a list of viewers.
pub open spec fn links_of_detached<P, R, W>(
    state: EngineModel<P, R, W>,
    ids: Seq<Seq<char>>,
) -> Seq<LinkModel<P>>
    decreases ids.len(),
{
    if ids.len() == 0 {
        Seq::empty()
    } else {
        let before = links_of_detached(state, ids.drop_last());
        match link_under(all_detached(state, ids.drop_last()), ids.last()) {
            Some(link) => before.push(link),
            None => before,
        }
    }
}

/// What a list of links holds.
pub open spec fn links<P>(list: Seq<ViewerLink<P>>) -> Seq<LinkModel<P>> {
    Seq::new(list.len(), |i: int| list[i]@)
}

/// The viewers whose peers failed.
pub open spec fn failed_ids(order: Seq<Seq<char>>, states: Seq<PeerTransportState>) -> Seq<Seq<char>>
    decreases order.len(),
{
    if order.len() == 0 {
        Seq::empty()
    } else {
        let before = failed_ids(order.drop_last(), states);
        if states[order.len() - 1] == PeerTransportState::Failed {
            before.push(order.last())
        } else {
            before
        }
    }
}

/// The names of the viewers, in order.
fn viewer_ids<P, R>(session: &SessionRecord<P, R>) -> (ids: Vec<String>)
    requires
        session.wf(),
    ensures
        texts(ids@) == session@.order,
{
    let mut ids: Vec<String> = Vec::new();
    let mut i: usize = 0;
    while i < session.viewers.len()
        invariant
            session.wf(),
            i <= session.viewers.order().len(),
            texts(ids@) == session.viewers.order().take(i as int),
        decreases session.viewers.order().len() - i,
    {
        let ghost before = ids@;
        ids.push(session.viewers.key_at(i).clone());
        assert(texts(ids@) =~= texts(before).push(session.viewers.order()[i as int]));
        assert(session.viewers.order().take(i + 1) =~= session.viewers.order().take(
            i as int,
        ).push(session.viewers.order()[i as int]));
        i += 1;
    }
    assert(texts(ids@) =~= session@.order);
    ids
}

impl<P, R, W> EngineState<P, R, W> {
    /// Lets a viewer go.
    pub fn detach(&mut self, id: &str) -> (link: Option<ViewerLink<P>>)
        requires
            old(self).wf(),
        ensures
            final(self).wf(),
            final(self)@ == detached(old(self)@, id@),
            opt_link(link) == link_under(old(self)@, id@),
    {
        match self.session.take() {
            None => None,
            Some(session) => {
                let mut session = session;
                let ghost before = session@;
                let link = drop_viewer(&mut session, id);
                proof {
                    if !before.viewers.contains_key(id@) {
                        assert(before.viewers.remove(id@) =~= before.viewers);
                        session.viewers.lemma_items();
                    }
                }
                if let Some(gone) = &link {
                    self.actor.retire_link(gone.link_id);
                }
                self.put_session(session);
                proof {
                    if !before.viewers.contains_key(id@) {
                        lemma_without_stranger(*old(self), id@);
                    }
                }
                link
            },
        }
    }

    /// Lets a list of viewers go.
    pub fn detach_all(&mut self, ids: &Vec<String>) -> (gone: Vec<ViewerLink<P>>)
        requires
            old(self).wf(),
        ensures
            final(self).wf(),
            final(self)@ == all_detached(old(self)@, texts(ids@)),
            links(gone@) == links_of_detached(old(self)@, texts(ids@)),
    {
        let mut gone: Vec<ViewerLink<P>> = Vec::new();
        let ghost all = texts(ids@);
        let mut i: usize = 0;
        assert(all.take(0) =~= Seq::empty());
        assert(links(gone@) =~= Seq::empty());
        while i < ids.len()
            invariant
                self.wf(),
                i <= ids@.len(),
                all == texts(ids@),
                self@ == all_detached(old(self)@, all.take(i as int)),
                links(gone@) == links_of_detached(old(self)@, all.take(i as int)),
            decreases ids@.len() - i,
        {
            let ghost so_far = gone@;
            assert(all.take(i + 1).drop_last() =~= all.take(i as int));
            assert(all.take(i + 1).last() == ids@[i as int]@);
            if let Some(link) = self.detach(ids[i].as_str()) {
                gone.push(link);
                assert(links(gone@) =~= links(so_far).push(link@));
            }
            i += 1;
        }
        assert(all.take(i as int) =~= all);
        gone
    }

    /// Lets a viewer go at the host's wish.
    pub fn kick_viewer_in_state(&mut self, id: &str) -> (result: Result<
        Option<ViewerLink<P>>,
        MediaEngineError,
    >)
        requires
            old(self).wf(),
        ensures
            final(self).wf(),
            final(self)@ == detached(old(self)@, id@),
            match old(self)@.session {
                None => result is Err && result->Err_0@ == ErrorModel::NoActiveSession,
                Some(_) => result is Ok && opt_link(result->Ok_0) == link_under(old(self)@, id@),
            },
    {
        if self.session.is_none() {
            return Err(MediaEngineError::NoActiveSession);
        }
        Ok(self.detach(id))
    }

    /// Lets every viewer go.
    pub fn close_peer_transport_in_state(&mut self) -> (result: Result<
        Vec<ViewerLink<P>>,
        MediaEngineError,
    >)
        requires
            old(self).wf(),
        ensures
            final(self).wf(),
            match old(self)@.session {
                None => result is Err && result->Err_0@ == ErrorModel::NoActiveSession && final(self)@ == old(self)@,
                Some(session) => {
                    &&& result is Ok
                    &&& links(result->Ok_0@) == links_of_detached(old(self)@, session.order)
                    &&& final(self)@ == all_detached(old(self)@, session.order)
                },
            },
    {
        let ids = match &self.session {
            None => {
                return Err(MediaEngineError::NoActiveSession);
            },
            Some(session) => viewer_ids(session),
        };
        Ok(self.detach_all(&ids))
    }

    /// Lets the viewers go whose peers failed. `states` holds the state of each peer, in
    /// the order of the viewers.
    pub fn reap_failed_links(&mut self, states: &Vec<PeerTransportState>) -> (gone: Vec<
        ViewerLink<P>,
    >)
        requires
            old(self).wf(),
            old(self)@.session matches Some(session) ==> states@.len() == session.order.len(),
        ensures
            final(self).wf(),
            match old(self)@.session {
                None => final(self)@ == old(self)@ && gone@.len() == 0,
                Some(session) => {
                    let failed = failed_ids(session.order, states@);
                    &&& final(self)@ == all_detached(old(self)@, failed)
                    &&& links(gone@) == links_of_detached(old(self)@, failed)
                },
            },
    {
        let mut failed: Vec<String> = Vec::new();
        match &self.session {
            None => {
                return Vec::new();
            },
            Some(session) => {
                let ids = viewer_ids(session);
                let ghost order = session@.order;
                let mut i: usize = 0;
                assert(order.take(0) =~= Seq::empty());
                assert(texts(failed@) =~= Seq::empty());
                while i < ids.len()
                    invariant
                        i <= ids@.len(),
                        texts(ids@) == order,
                        ids@.len() == order.len(),
                        states@.len() == order.len(),
                        texts(failed@) == failed_ids(order.take(i as int), states@),
                    decreases ids@.len() - i,
                {
                    let ghost before = failed@;
                    assert(order.take(i + 1).drop_last() =~= order.take(i as int));
                    assert(order.take(i + 1).last() == order[i as int]);
                    assert(order[i as int] == ids@[i as int]@);
                    if states[i] == PeerTransportState::Failed {
                        failed.push(ids[i].clone());
                        assert(texts(failed@) =~= texts(before).push(order[i as int]));
                    }
                    i += 1;
                }
                assert(order.take(i as int) =~= order);
            },
        }
        self.detach_all(&failed)
    }
}

proof fn lemma_without_stranger<P, R, W>(state: EngineState<P, R, W>, id: Seq<char>)
    requires
        state.wf(),
        state@.session is Some,
        !state@.session->0.viewers.contains_key(id),
    ensures
        state@.session->0.without_viewer(id) == state@.session->0,
{
    let session = state@.session->0;
    state.session->0.viewers.lemma_items();
    assert(session.viewers.remove(id) =~= session.viewers);
    assert(!session.order.contains(id)) by {
        if session.order.contains(id) {
            let i = session.order.index_of(id);
            assert(session.order[i] == id);
        }
    }
    assert(session.without_viewer(id) =~= session);
}

/// What a link needs.
#[derive(Clone, Copy, Debug, PartialEq, Eq, Structural)]
pub enum LinkCare {
    Keep,
    /// Its viewer left without ever connecting.
    Drop,
    /// Its offer may be lost and is sent again.
    Resend,
}

/// What a link needs. `known` says that the room's members are known, `listed` that the
/// viewer is one of them.
pub open spec fn care_of<P>(
    link: LinkModel<P>,
    state: PeerTransportState,
    known: bool,
    listed: bool,
    now: u64,
) -> LinkCare {
    if state == PeerTransportState::Connected {
        LinkCare::Keep
    } else if known && !listed {
        LinkCare::Drop
    } else if state == PeerTransportState::New && link.last_offer is Some && link.offer_resends
        < MAX_OFFER_RESENDS && now >= link.offered_at + OFFER_RESEND_AFTER {
        LinkCare::Resend
    } else {
        LinkCare::Keep
    }
}

/// The texts of a list of pairs.
pub open spec fn pairs(list: Seq<(String, String)>) -> Seq<(Seq<char>, Seq<char>)> {
    Seq::new(list.len(), |i: int| (list[i].0@, list[i].1@))
}

/// What the room on the rendezvous server says.
#[derive(Debug)]
pub struct AcceptFacts {
    /// The viewers that were let in: id and nickname.
    pub accepted: Vec<(String, String)>,
    /// The members of the room.
    pub room_ids: Vec<String>,
    pub self_id: Option<String>,
}

impl AcceptFacts {
    /// Anything is known of the room's members.
    pub open spec fn known(&self) -> bool {
        self.room_ids@.len() > 0 || self.accepted@.len() > 0
    }

    /// Someone was let in or is a member.
    pub open spec fn lists(&self, id: Seq<char>) -> bool {
        texts(self.room_ids@).contains(id) || exists|i: int|
            0 <= i < self.accepted@.len() && #[trigger] pairs(self.accepted@)[i].0 == id
    }
}

/// What each link of a session needs.
pub open spec fn cares<P, R>(
    session: SessionModel<P, R>,
    facts: AcceptFacts,
    states: Seq<PeerTransportState>,
    now: u64,
) -> Seq<LinkCare> {
    Seq::new(
        session.order.len(),
        |i: int|
            care_of(
                session.viewers[session.order[i]],
                states[i],
                facts.known(),
                facts.lists(session.order[i]),
                now,
            ),
    )
}

/// The viewers that get an offer: let in, without a link yet, and not the host.
pub open spec fn to_mint<P, R>(
    session: SessionModel<P, R>,
    self_id: Option<Seq<char>>,
    accepted: Seq<(Seq<char>, Seq<char>)>,
) -> Seq<(Seq<char>, Seq<char>)>
    decreases accepted.len(),
{
    if accepted.len() == 0 {
        Seq::empty()
    } else {
        let before = to_mint(session, self_id, accepted.drop_last());
        let id = accepted.last().0;
        if self_id != Some(id) && !session.viewers.contains_key(id) {
            before.push(accepted.last())
        } else {
            before
        }
    }
}

/// The session once the due ones of its first `n` links were sent again.
pub open spec fn resent<P, R>(
    session: SessionModel<P, R>,
    due: Seq<LinkCare>,
    now: u64,
    n: nat,
) -> SessionModel<P, R>
    decreases n,
{
    if n == 0 {
        session
    } else {
        let before = resent(session, due, now, (n - 1) as nat);
        if due[n - 1] == LinkCare::Resend {
            let id = session.order[n - 1];
            SessionModel {
                viewers: before.viewers.insert(
                    id,
                    LinkModel {
                        offered_at: now,
                        offer_resends: (session.viewers[id].offer_resends + 1) as u8,
                        ..session.viewers[id]
                    },
                ),
                ..before
            }
        } else {
            before
        }
    }
}

/// An offer that is sent again.
#[derive(Debug)]
pub struct OfferResend {
    pub id: String,
    pub signal: PeerSignal,
    pub fence: OfferEpochFence,
}

/// What a list of offers holds.
pub open spec fn resend_models(list: Seq<OfferResend>) -> Seq<
    (Seq<char>, SignalModel, OfferEpochFence),
> {
    Seq::new(list.len(), |i: int| (list[i].id@, list[i].signal@, list[i].fence))
}

/// The offers of the due ones of the first `n` links.
pub open spec fn due_offers<P, R>(session: SessionModel<P, R>, due: Seq<LinkCare>, n: nat) -> Seq<
    (Seq<char>, SignalModel, OfferEpochFence),
>
    decreases n,
{
    if n == 0 {
        Seq::empty()
    } else {
        let before = due_offers(session, due, (n - 1) as nat);
        if due[n - 1] == LinkCare::Resend {
            let link = session.viewers[session.order[n - 1]];
            before.push((session.order[n - 1], link.last_offer->0, link.offer_fence))
        } else {
            before
        }
    }
}

/// The viewers among the first `n` whose links go.
pub open spec fn stale_ids(order: Seq<Seq<char>>, due: Seq<LinkCare>, n: nat) -> Seq<Seq<char>>
    decreases n,
{
    if n == 0 {
        Seq::empty()
    } else {
        let before = stale_ids(order, due, (n - 1) as nat);
        if due[n - 1] == LinkCare::Drop {
            before.push(order[n - 1])
        } else {
            before
        }
    }
}

fn care_for<P>(
    link: &ViewerLink<P>,
    state: PeerTransportState,
    known: bool,
    listed: bool,
    now: u64,
) -> (care: LinkCare)
    ensures
        care == care_of(link@, state, known, listed, now),
{
    if state == PeerTransportState::Connected {
        return LinkCare::Keep;
    }
    if known && !listed {
        return LinkCare::Drop;
    }
    if state == PeerTransportState::New && link.last_offer.is_some() && link.offer_resends
        < MAX_OFFER_RESENDS && now >= link.offered_at && now - link.offered_at
        >= OFFER_RESEND_AFTER {
        return LinkCare::Resend;
    }
    LinkCare::Keep
}

fn is_listed(facts: &AcceptFacts, id: &str) -> (listed: bool)
    ensures
        listed == facts.lists(id@),
{
    let mut i: usize = 0;
    while i < facts.accepted.len()
        invariant
            i <= facts.accepted@.len(),
            forall|j: int| 0 <= j < i ==> #[trigger] pairs(facts.accepted@)[j].0 != id@,
        decreases facts.accepted@.len() - i,
    {
        assert(pairs(facts.accepted@)[i as int].0 == facts.accepted@[i as int].0@);
        if same_text(facts.accepted[i].0.as_str(), id) {
            return true;
        }
        i += 1;
    }
    let mut k: usize = 0;
    while k < facts.room_ids.len()
        invariant
            k <= facts.room_ids@.len(),
            forall|j: int| 0 <= j < k ==> #[trigger] texts(facts.room_ids@)[j] != id@,
        decreases facts.room_ids@.len() - k,
    {
        assert(texts(facts.room_ids@)[k as int] == facts.room_ids@[k as int]@);
        if same_text(facts.room_ids[k].as_str(), id) {
            return true;
        }
        k += 1;
    }
    false
}

fn cares_for<P, R>(
    session: &SessionRecord<P, R>,
    facts: &AcceptFacts,
    states: &Vec<PeerTransportState>,
    now: u64,
) -> (due: Vec<LinkCare>)
    requires
        session.wf(),
        states@.len() == session@.order.len(),
    ensures
        due@ == cares(session@, *facts, states@, now),
{
    let known: bool = facts.room_ids.len() > 0 || facts.accepted.len() > 0;
    let mut due: Vec<LinkCare> = Vec::new();
    let ghost all = cares(session@, *facts, states@, now);
    let mut i: usize = 0;
    while i < session.viewers.len()
        invariant
            session.wf(),
            states@.len() == session@.order.len(),
            known == facts.known(),
            i <= session@.order.len(),
            all == cares(session@, *facts, states@, now),
            due@ == all.take(i as int),
        decreases session@.order.len() - i,
    {
        proof {
            session.viewers.lemma_items();
            assert(session.viewers@.contains_key(session.viewers.order()[i as int]));
        }
        let listed: bool = is_listed(facts, session.viewers.key_at(i).as_str());
        due.push(care_for(session.viewers.value_at(i), states[i], known, listed, now));
        assert(due@ =~= all.take(i + 1));
        i += 1;
    }
    assert(due@ =~= all);
    due
}

fn mint_list<P, R>(session: &SessionRecord<P, R>, facts: &AcceptFacts) -> (list: Vec<
    (String, String),
>)
    requires
        session.wf(),
    ensures
        pairs(list@) == to_mint(session@, opt_text(facts.self_id), pairs(facts.accepted@)),
{
    let mut list: Vec<(String, String)> = Vec::new();
    let ghost all = pairs(facts.accepted@);
    let mut i: usize = 0;
    assert(all.take(0) =~= Seq::empty());
    assert(pairs(list@) =~= Seq::empty());
    while i < facts.accepted.len()
        invariant
            session.wf(),
            i <= facts.accepted@.len(),
            all == pairs(facts.accepted@),
            pairs(list@) == to_mint(session@, opt_text(facts.self_id), all.take(i as int)),
        decreases facts.accepted@.len() - i,
    {
        let ghost before = list@;
        assert(all.take(i + 1).drop_last() =~= all.take(i as int));
        assert(all.take(i + 1).last() == all[i as int]);
        let id = facts.accepted[i].0.as_str();
        let own: bool = match &facts.self_id {
            Some(self_id) => same_text(self_id.as_str(), id),
            None => false,
        };
        assert(session@.viewers.contains_key(id@) == session.viewers@.contains_key(id@));
        if !own && !session.viewers.contains(id) {
            list.push((facts.accepted[i].0.clone(), facts.accepted[i].1.clone()));
            assert(pairs(list@) =~= pairs(before).push(all[i as int]));
        }
        i += 1;
    }
    assert(all.take(i as int) =~= all);
    list
}

fn resend_one<P, R>(session: &mut SessionRecord<P, R>, i: usize, now: u64) -> (offer: OfferResend)
    requires
        old(session).wf(),
        i < old(session)@.order.len(),
        old(session)@.viewers[old(session)@.order[i as int]].last_offer is Some,
        old(session)@.viewers[old(session)@.order[i as int]].offer_resends < MAX_OFFER_RESENDS,
    ensures
        final(session).wf(),
        ({
            let id = old(session)@.order[i as int];
            let link = old(session)@.viewers[id];
            &&& final(session)@ == (SessionModel {
                viewers: old(session)@.viewers.insert(
                    id,
                    LinkModel {
                        offered_at: now,
                        offer_resends: (link.offer_resends + 1) as u8,
                        ..link
                    },
                ),
                ..old(session)@
            })
            &&& offer.id@ == id
            &&& offer.signal@ == link.last_offer->0
            &&& offer.fence == link.offer_fence
        }),
{
    let ghost map = session.viewers@;
    let ghost before = session@;
    proof {
        session.viewers.lemma_items();
        assert(map.contains_key(session.viewers.order()[i as int]));
        assert(before.viewers[before.order[i as int]] == session.viewers.items()[i as int]@);
    }
    let id = session.viewers.key_at(i).clone();
    let link = session.viewers.value_mut(i);
    let signal = link.last_offer.as_ref().unwrap().clone();
    link.offered_at = now;
    link.offer_resends = link.offer_resends + 1;
    let fence = link.offer_fence;
    let ghost changed = *link;
    assert(session.viewers@ == map.insert(id@, changed));
    assert(session@.viewers =~= before.viewers.insert(id@, changed@));
    OfferResend { id, signal, fence }
}

fn resend_due<P, R>(session: &mut SessionRecord<P, R>, due: &Vec<LinkCare>, now: u64) -> (offers: Vec<
    OfferResend,
>)
    requires
        old(session).wf(),
        due@.len() == old(session)@.order.len(),
        forall|i: int|
            0 <= i < due@.len() && #[trigger] due@[i] == LinkCare::Resend ==> {
                let link = old(session)@.viewers[old(session)@.order[i]];
                link.last_offer is Some && link.offer_resends < MAX_OFFER_RESENDS
            },
    ensures
        final(session).wf(),
        final(session)@ == resent(old(session)@, due@, now, due@.len()),
        resend_models(offers@) == due_offers(old(session)@, due@, due@.len()),
{
    let ghost start = session@;
    proof {
        session.viewers.lemma_items();
    }
    let mut offers: Vec<OfferResend> = Vec::new();
    assert(resend_models(offers@) =~= Seq::empty());
    let mut i: usize = 0;
    while i < due.len()
        invariant
            session.wf(),
            start == old(session)@,
            start.order.no_duplicates(),
            forall|j: int|
                0 <= j < start.order.len() ==> start.viewers.contains_key(
                    #[trigger] start.order[j],
                ),
            i <= due@.len(),
            due@.len() == start.order.len(),
            session@.order == start.order,
            session@ == resent(start, due@, now, i as nat),
            forall|j: int|
                i <= j < start.order.len() ==> session@.viewers[#[trigger] start.order[j]]
                    == start.viewers[start.order[j]],
            resend_models(offers@) == due_offers(start, due@, i as nat),
            forall|j: int|
                0 <= j < due@.len() && #[trigger] due@[j] == LinkCare::Resend ==> {
                    let link = start.viewers[start.order[j]];
                    link.last_offer is Some && link.offer_resends < MAX_OFFER_RESENDS
                },
        decreases due@.len() - i,
    {
        if due[i] == LinkCare::Resend {
            let ghost listed = offers@;
            assert(session@.viewers[start.order[i as int]] == start.viewers[start.order[i as int]]);
            assert(due@[i as int] == LinkCare::Resend);
            offers.push(resend_one(session, i, now));
            proof {
                assert(session@ =~= resent(start, due@, now, (i + 1) as nat));
                assert(resend_models(offers@) =~= due_offers(start, due@, (i + 1) as nat));
            }
        }
        i += 1;
    }
    offers
}

fn drop_list<P, R>(session: &SessionRecord<P, R>, due: &Vec<LinkCare>) -> (ids: Vec<String>)
    requires
        session.wf(),
        due@.len() == session@.order.len(),
    ensures
        texts(ids@) == stale_ids(session@.order, due@, due@.len()),
{
    let mut ids: Vec<String> = Vec::new();
    assert(texts(ids@) =~= Seq::empty());
    let mut i: usize = 0;
    while i < due.len()
        invariant
            session.wf(),
            i <= due@.len(),
            due@.len() == session@.order.len(),
            texts(ids@) == stale_ids(session@.order, due@, i as nat),
        decreases due@.len() - i,
    {
        let ghost before = ids@;
        if due[i] == LinkCare::Drop {
            ids.push(session.viewers.key_at(i).clone());
            assert(texts(ids@) =~= texts(before).push(session@.order[i as int]));
        }
        i += 1;
    }
    ids
}

/// What follows from what the room says.
pub struct AcceptEffect<P> {
    /// What the offers are reserved for.
    pub origin: EpochFence,
    /// The viewers that get an offer: id and nickname.
    pub mint: Vec<(String, String)>,
    pub resend: Vec<OfferResend>,
    pub dropped: Vec<ViewerLink<P>>,
}

impl<P, R, W> EngineState<P, R, W> {
    /// Follows the room on the rendezvous server: offers for those who were let in,
    /// offers that seem lost once more, and no links for those who left. `states` holds
    /// the state of each peer, in the order of the viewers.
    pub fn apply_stunar_accepts(
        &mut self,
        facts: &AcceptFacts,
        states: &Vec<PeerTransportState>,
        now: u64,
    ) -> (effect: Option<AcceptEffect<P>>)
        requires
            old(self).wf(),
            old(self)@.session matches Some(session) ==> states@.len() == session.order.len(),
        ensures
            final(self).wf(),
            if old(self)@.session is None || !old(self)@.session->0.has_stunar {
                effect is None && final(self)@ == old(self)@
            } else {
                let session = old(self)@.session->0;
                let due = cares(session, *facts, states@, now);
                let tended = EngineModel {
                    session: Some(resent(session, due, now, due.len())),
                    ..old(self)@
                };
                let stale = stale_ids(session.order, due, due.len());
                &&& effect is Some
                &&& effect->0.origin == old(self)@.actor.fence(None)
                &&& pairs(effect->0.mint@) == if session.request.session_mode
                    == SessionMode::Broadcast {
                    to_mint(session, opt_text(facts.self_id), pairs(facts.accepted@))
                } else {
                    Seq::empty()
                }
                &&& resend_models(effect->0.resend@) == due_offers(session, due, due.len())
                &&& final(self)@ == all_detached(tended, stale)
                &&& links(effect->0.dropped@) == links_of_detached(tended, stale)
            },
    {
        let origin = self.actor.fence(None);
        match &self.session {
            None => {
                return None;
            },
            Some(session) => {
                if !session.has_stunar {
                    return None;
                }
            },
        }
        match self.session.take() {
            None => None,
            Some(session) => {
                let mut session = session;
                let mint: Vec<(String, String)> = if auto_mint_on_accept(
                    session.request.session_mode,
                ) {
                    mint_list(&session, facts)
                } else {
                    Vec::new()
                };
                assert(session@.request.session_mode != SessionMode::Broadcast ==> pairs(mint@)
                    =~= Seq::empty());
                let due = cares_for(&session, facts, states, now);
                let stale = drop_list(&session, &due);
                let resend = resend_due(&mut session, &due, now);
                self.put_session(session);
                let dropped = self.detach_all(&stale);
                Some(AcceptEffect { origin, mint, resend, dropped })
            },
        }
    }
}

/// A member that asks to watch the share.
#[derive(Debug)]
pub struct WatchRequest {
    pub id: String,
    /// The nickname that the host's room has for them.
    pub host_nickname: Option<String>,
    /// The nickname that the joined room has for them.
    pub room_nickname: Option<String>,
}

/// The name under which a watching member is listed.
pub open spec fn watcher_name(request: WatchRequest) -> Seq<char> {
    match first_text(opt_text(request.host_nickname), opt_text(request.room_nickname)) {
        Some(nickname) => nickname,
        None => request.id@,
    }
}

/// The members that get an offer: those who ask, without a link yet, and not oneself.
pub open spec fn watchers<P, R>(
    session: SessionModel<P, R>,
    self_id: Option<Seq<char>>,
    requests: Seq<WatchRequest>,
) -> Seq<(Seq<char>, Seq<char>)>
    decreases requests.len(),
{
    if requests.len() == 0 {
        Seq::empty()
    } else {
        let before = watchers(session, self_id, requests.drop_last());
        let id = requests.last().id@;
        if self_id != Some(id) && !session.viewers.contains_key(id) {
            before.push((id, watcher_name(requests.last())))
        } else {
            before
        }
    }
}

fn name_of_watcher(request: &WatchRequest) -> (name: String)
    ensures
        name@ == watcher_name(*request),
{
    match &request.host_nickname {
        Some(nickname) => nickname.clone(),
        None => match &request.room_nickname {
            Some(nickname) => nickname.clone(),
            None => request.id.clone(),
        },
    }
}

fn watch_list<P, R>(
    session: &SessionRecord<P, R>,
    self_id: &Option<String>,
    requests: &Vec<WatchRequest>,
) -> (list: Vec<(String, String)>)
    requires
        session.wf(),
    ensures
        pairs(list@) == watchers(session@, opt_text(*self_id), requests@),
{
    let mut list: Vec<(String, String)> = Vec::new();
    let mut i: usize = 0;
    assert(requests@.take(0) =~= Seq::empty());
    assert(pairs(list@) =~= Seq::empty());
    while i < requests.len()
        invariant
            session.wf(),
            i <= requests@.len(),
            pairs(list@) == watchers(session@, opt_text(*self_id), requests@.take(i as int)),
        decreases requests@.len() - i,
    {
        let ghost before = list@;
        assert(requests@.take(i + 1).drop_last() =~= requests@.take(i as int));
        assert(requests@.take(i + 1).last() == requests@[i as int]);
        let id = requests[i].id.as_str();
        let own: bool = match self_id {
            Some(own_id) => same_text(own_id.as_str(), id),
            None => false,
        };
        assert(session@.viewers.contains_key(id@) == session.viewers@.contains_key(id@));
        if !own && !session.viewers.contains(id) {
            let name = name_of_watcher(&requests[i]);
            list.push((requests[i].id.clone(), name));
            assert(pairs(list@) =~= pairs(before).push((id@, watcher_name(requests@[i as int]))));
        }
        i += 1;
    }
    assert(requests@.take(i as int) =~= requests@);
    list
}

/// What follows from the wishes of a room's members.
pub struct WatchEffect<P> {
    /// What the offers are reserved for.
    pub origin: EpochFence,
    /// The members that get an offer: id and name.
    pub mint: Vec<(String, String)>,
    pub dropped: Vec<ViewerLink<P>>,
    /// The offers go through the joined room, as there is no room of one's own.
    pub via_joined_room: bool,
}

impl<P, R, W> EngineState<P, R, W> {
    /// Follows the wishes of a room's members: those who no longer watch lose their
    /// links, and those who ask to watch a share that runs get an offer.
    pub fn apply_stunar_watches(
        &mut self,
        watch: &Vec<WatchRequest>,
        unwatch: &Vec<String>,
        self_id: &Option<String>,
    ) -> (effect: Option<WatchEffect<P>>)
        requires
            old(self).wf(),
        ensures
            final(self).wf(),
            match old(self)@.session {
                None => effect is None && final(self)@ == old(self)@,
                Some(session) => {
                    let after = all_detached(old(self)@, texts(unwatch@));
                    &&& effect is Some
                    &&& effect->0.origin == old(self)@.actor.fence(None)
                    &&& effect->0.via_joined_room == !session.has_stunar
                    &&& final(self)@ == after
                    &&& links(effect->0.dropped@) == links_of_detached(
                        old(self)@,
                        texts(unwatch@),
                    )
                    &&& pairs(effect->0.mint@) == if session.native_capture_active {
                        watchers(after.session->0, opt_text(*self_id), watch@)
                    } else {
                        Seq::empty()
                    }
                },
            },
    {
        let origin = self.actor.fence(None);
        let (capturing, via_joined_room) = match &self.session {
            None => {
                return None;
            },
            Some(session) => (session.native_capture_active, !session.has_stunar),
        };
        let dropped = self.detach_all(unwatch);
        proof {
            lemma_detaching_keeps_the_session(old(self)@, texts(unwatch@));
        }
        let mint: Vec<(String, String)> = match &self.session {
            Some(session) => if capturing {
                watch_list(session, self_id, watch)
            } else {
                Vec::new()
            },
            None => Vec::new(),
        };
        assert(!capturing ==> pairs(mint@) =~= Seq::empty());
        Some(WatchEffect { origin, mint, dropped, via_joined_room })
    }
}

proof fn lemma_detaching_keeps_the_session<P, R, W>(
    state: EngineModel<P, R, W>,
    ids: Seq<Seq<char>>,
)
    ensures
        (all_detached(state, ids).session is Some) == (state.session is Some),
    decreases ids.len(),
{
    if ids.len() > 0 {
        lemma_detaching_keeps_the_session(state, ids.drop_last());
    }
}

/// A session with new credentials.
pub open spec fn with_credentials<P, R>(
    session: SessionModel<P, R>,
    password: Option<Seq<char>>,
    admission: Option<bool>,
) -> SessionModel<P, R> {
    SessionModel {
        password: match password {
            Some(text) => text,
            None => session.password,
        },
        admission: if session.has_stunar {
            session.admission
        } else {
            match admission {
                Some(asks) => asks,
                None => session.admission,
            }
        },
        ..session
    }
}

/// The state once the pipeline said whether it failed.
pub open spec fn pipeline_noted<P, R, W>(
    state: EngineModel<P, R, W>,
    failure: Option<Seq<char>>,
) -> EngineModel<P, R, W> {
    if state.session is Some && failure is Some {
        EngineModel {
            actor: state.actor.with_lifecycle(MediaLifecycleState::Failed),
            detail: failure->0,
            ..state
        }
    } else {
        state
    }
}

/// The state once the capture said how it stands.
pub open spec fn capture_noted<P, R, W>(
    state: EngineModel<P, R, W>,
    lifecycle: CaptureLifecycle,
    failure: Option<Seq<char>>,
) -> EngineModel<P, R, W> {
    let detail = match failure {
        Some(text) => text,
        None => state.detail,
    };
    if state.session is Some && lifecycle == CaptureLifecycle::Failed {
        EngineModel {
            actor: state.actor.with_lifecycle(MediaLifecycleState::Failed),
            detail,
            ..state
        }
    } else if state.session is Some && lifecycle == CaptureLifecycle::CleanupPending {
        EngineModel {
            actor: state.actor.with_lifecycle(MediaLifecycleState::CleanupPending),
            detail,
            ..state
        }
    } else {
        state
    }
}

/// Who decides on a viewer that waits.
#[derive(Debug, PartialEq, Eq)]
pub enum AdmitPlan {
    /// The rendezvous server is told; a viewer that is let in gets an offer.
    Stunar { nickname: String, origin: EpochFence },
    /// The local gate is told.
    Gate,
}

impl<P, R, W> EngineState<P, R, W> {
    /// How a viewer that waits is let in.
    pub fn admit_viewer_in_state(&self, pending_nickname: Option<String>) -> (plan: Result<
        AdmitPlan,
        MediaEngineError,
    >)
        ensures
            match self@.session {
                None => plan is Err && plan->Err_0@ == ErrorModel::NoActiveSession,
                Some(session) => if session.has_stunar {
                    &&& plan matches Ok(AdmitPlan::Stunar { nickname, origin })
                    &&& nickname@ == match pending_nickname {
                        Some(name) => name@,
                        None => "Viewer"@,
                    }
                    &&& origin == self@.actor.fence(None)
                } else {
                    plan == Ok::<AdmitPlan, MediaEngineError>(AdmitPlan::Gate)
                },
            },
    {
        match &self.session {
            None => Err(MediaEngineError::NoActiveSession),
            Some(session) => if session.has_stunar {
                let nickname = match pending_nickname {
                    Some(name) => name,
                    None => "Viewer".to_owned(),
                };
                Ok(AdmitPlan::Stunar { nickname, origin: self.actor.fence(None) })
            } else {
                Ok(AdmitPlan::Gate)
            },
        }
    }

    /// Whether the rendezvous server or the local gate turns a viewer away.
    pub fn reject_viewer_in_state(&self) -> (via_stunar: Result<bool, MediaEngineError>)
        ensures
            match self@.session {
                None => via_stunar is Err && via_stunar->Err_0@ == ErrorModel::NoActiveSession,
                Some(session) => via_stunar == Ok::<bool, MediaEngineError>(session.has_stunar),
            },
    {
        match &self.session {
            None => Err(MediaEngineError::NoActiveSession),
            Some(session) => Ok(session.has_stunar),
        }
    }

    /// The password that has to be rotated on the rendezvous server before new
    /// credentials count, if any. A room there never goes without one.
    pub fn credentials_to_rotate(&self, request: &UpdateCredentialsRequest) -> (rotate: Result<
        Option<String>,
        MediaEngineError,
    >)
        ensures
            match self@.session {
                None => rotate is Err && rotate->Err_0@ == ErrorModel::NoActiveSession,
                Some(session) => if !session.has_stunar || request.password is None {
                    rotate is Ok && rotate->Ok_0 is None
                } else if !password_fits(request.password->0@) {
                    rotate is Err && rotate->Err_0@ == ErrorModel::NativePeer(
                        "Stunar requires a password (4-64 characters)."@,
                    )
                } else {
                    rotate is Ok && opt_text(rotate->Ok_0) == Some(request.password->0@)
                },
            },
    {
        match &self.session {
            None => Err(MediaEngineError::NoActiveSession),
            Some(session) => {
                if !session.has_stunar {
                    return Ok(None);
                }
                match &request.password {
                    None => Ok(None),
                    Some(password) => {
                        if !valid_password(password.as_str()) {
                            return Err(
                                MediaEngineError::NativePeer(
                                    "Stunar requires a password (4-64 characters).".to_owned(),
                                ),
                            );
                        }
                        Ok(Some(password.clone()))
                    },
                }
            },
        }
    }

    /// New credentials count for those who ask from now on. Nobody who is connected is
    /// touched. Whether a room on the rendezvous server asks for admission was fixed when
    /// it opened.
    pub fn update_credentials_in_state(&mut self, request: &UpdateCredentialsRequest) -> (result:
        Result<(), MediaEngineError>)
        requires
            old(self).wf(),
        ensures
            final(self).wf(),
            match old(self)@.session {
                None => result is Err && result->Err_0@ == ErrorModel::NoActiveSession && final(self)@ == old(self)@,
                Some(session) => {
                    &&& result is Ok
                    &&& final(self)@.session == Some(
                        with_credentials(session, opt_text(request.password), request.admission),
                    )
                    &&& final(self)@ == (EngineModel {
                        session: Some(
                            SessionModel {
                                password: match request.password {
                                    Some(password) => password@,
                                    None => session.password,
                                },
                                admission: if session.has_stunar {
                                    session.admission
                                } else {
                                    match request.admission {
                                        Some(admission) => admission,
                                        None => session.admission,
                                    }
                                },
                                ..session
                            },
                        ),
                        ..old(self)@
                    })
                },
            },
    {
        match self.session.take() {
            None => Err(MediaEngineError::NoActiveSession),
            Some(session) => {
                let mut session = session;
                session.password = match &request.password {
                    Some(password) => password.clone(),
                    None => session.password,
                };
                if !session.has_stunar {
                    session.admission = match request.admission {
                        Some(admission) => admission,
                        None => session.admission,
                    };
                }
                self.put_session(session);
                Ok(())
            },
        }
    }

    /// A room on the rendezvous server was joined. There is one at a time.
    pub fn attach_stunar_viewer(&mut self) -> (result: Result<(), MediaEngineError>)
        requires
            old(self).wf(),
        ensures
            final(self).wf(),
            final(self)@ == (EngineModel { viewer_attached: true, ..old(self)@ }),
            if old(self).viewer_attached {
                result is Err && result->Err_0@ == ErrorModel::SessionAlreadyActive
            } else {
                result is Ok
            },
    {
        if self.viewer_attached {
            return Err(MediaEngineError::SessionAlreadyActive);
        }
        self.viewer_attached = true;
        Ok(())
    }

    /// The joined room is left, if there is one.
    pub fn close_stunar_viewer(&mut self) -> (left: bool)
        requires
            old(self).wf(),
        ensures
            final(self).wf(),
            left == old(self).viewer_attached,
            final(self)@ == (EngineModel { viewer_attached: false, ..old(self)@ }),
    {
        let left: bool = self.viewer_attached;
        self.viewer_attached = false;
        left
    }

    /// Through which room a signal goes: the host's own, or the joined one.
    pub fn send_stunar_signal(&self) -> (via_own_room: Result<bool, MediaEngineError>)
        ensures
            if self@.session is Some && self@.session->0.has_stunar {
                via_own_room == Ok::<bool, MediaEngineError>(true)
            } else if self@.viewer_attached {
                via_own_room == Ok::<bool, MediaEngineError>(false)
            } else {
                via_own_room is Err && via_own_room->Err_0@ == ErrorModel::NativePeer(
                    "no stunar session"@,
                )
            },
    {
        if let Some(session) = &self.session {
            if session.has_stunar {
                return Ok(true);
            }
        }
        if self.viewer_attached {
            return Ok(false);
        }
        Err(MediaEngineError::NativePeer("no stunar session".to_owned()))
    }

    /// Takes what the pipeline says. A pipeline that failed fails the session, and its
    /// capture has to stop.
    pub fn refresh_native_state(&mut self, failure: Option<String>) -> (stop_capture: bool)
        requires
            old(self).wf(),
        ensures
            final(self).wf(),
            stop_capture == (old(self)@.session is Some && failure is Some),
            final(self)@ == pipeline_noted(old(self)@, opt_text(failure)),
            final(self)@ == (if stop_capture {
                EngineModel {
                    actor: old(self)@.actor.with_lifecycle(MediaLifecycleState::Failed),
                    detail: failure->0@,
                    ..old(self)@
                }
            } else {
                old(self)@
            }),
    {
        if self.session.is_none() {
            return false;
        }
        match failure {
            Some(detail) => {
                self.note(MediaLifecycleState::Failed, detail);
                true
            },
            None => false,
        }
    }

    /// Takes what the capture says, on platforms where it says something.
    pub fn refresh_capture_state(&mut self, lifecycle: CaptureLifecycle, failure: Option<String>)
        requires
            old(self).wf(),
        ensures
            final(self).wf(),
            final(self)@ == capture_noted(old(self)@, lifecycle, opt_text(failure)),
            ({
                let state = old(self)@;
                let detail = match failure {
                    Some(text) => text@,
                    None => state.detail,
                };
                final(self)@ == (if state.session is Some && lifecycle == CaptureLifecycle::Failed {
                    EngineModel {
                        actor: state.actor.with_lifecycle(MediaLifecycleState::Failed),
                        detail,
                        ..state
                    }
                } else if state.session is Some && lifecycle == CaptureLifecycle::CleanupPending {
                    EngineModel {
                        actor: state.actor.with_lifecycle(MediaLifecycleState::CleanupPending),
                        detail,
                        ..state
                    }
                } else {
                    state
                })
            }),
    {
        if self.session.is_none() {
            return;
        }
        let next = match lifecycle {
            CaptureLifecycle::Failed => MediaLifecycleState::Failed,
            CaptureLifecycle::CleanupPending => MediaLifecycleState::CleanupPending,
            _ => {
                return;
            },
        };
        let detail = match failure {
            Some(text) => text,
            None => self.detail.clone(),
        };
        self.note(next, detail);
    }
}

proof fn lemma_detached_order<P, R, W>(state: EngineModel<P, R, W>, n: nat)
    requires
        state.session is Some,
        state.session->0.wf(),
        n <= state.session->0.order.len(),
    ensures
        ({
            let order = state.session->0.order;
            let after = all_detached(state, order.take(n as int));
            &&& after.session is Some
            &&& after.session->0.order == order.skip(n as int)
            &&& after.session->0.wf()
            &&& forall|id: Seq<char>| #[trigger]
                after.session->0.viewers.contains_key(id) ==> after.session->0.viewers[id]
                    == state.session->0.viewers[id]
            &&& forall|i: int|
                0 <= i < n ==> !after.actor.links.contains(
                    state.session->0.viewers[#[trigger] order[i]].link_id.0,
                )
            &&& after.actor.links.subset_of(state.actor.links)
        }),
    decreases n,
{
    let order = state.session->0.order;
    if n == 0 {
        assert(order.take(0) =~= Seq::empty());
        assert(order.skip(0) =~= order);
    } else {
        let m = (n - 1) as nat;
        lemma_detached_order(state, m);
        let before = all_detached(state, order.take(m as int));
        let after = all_detached(state, order.take(n as int));
        let id = order[m as int];
        assert(order.take(n as int).drop_last() =~= order.take(m as int));
        assert(order.take(n as int).last() == id);
        let rest = order.skip(m as int);
        assert(rest[0] == id);
        assert(rest.contains(id));
        assert(before.session->0.viewers.contains_key(id));
        let at = rest.index_of(id);
        assert(rest[at] == id);
        assert(order[m + at] == id);
        assert(at == 0);
        assert(crate::session::without(rest, id) =~= order.skip(n as int));
        let left = order.skip(n as int);
        assert forall|other: Seq<char>| #[trigger]
            after.session->0.viewers.contains_key(other) <==> left.contains(other) by {
            if left.contains(other) {
                let k = left.index_of(other);
                assert(left[k] == other);
                assert(rest[k + 1] == other);
                assert(order[n + k] == other);
                assert(other != id);
            } else if rest.contains(other) && other != id {
                let k = rest.index_of(other);
                assert(rest[k] == other);
                assert(left[k - 1] == other);
            }
        }
        assert forall|i: int| 0 <= i < n implies !after.actor.links.contains(
            state.session->0.viewers[#[trigger] order[i]].link_id.0,
        ) by {
            if i < m {
                assert(!before.actor.links.contains(
                    state.session->0.viewers[order[i]].link_id.0,
                ));
            }
        }
    }
}

/// Once every viewer was let go, none is left and none of their links is accepted.
pub proof fn law_nobody_stays_after_closing<P, R, W>(state: EngineModel<P, R, W>)
    requires
        state.session is Some,
        state.session->0.wf(),
    ensures
        ({
            let session = state.session->0;
            let after = all_detached(state, session.order);
            &&& after.session is Some
            &&& after.session->0.order.len() == 0
            &&& forall|id: Seq<char>| !(#[trigger] after.session->0.viewers.contains_key(id))
            &&& forall|id: Seq<char>| #[trigger]
                session.viewers.contains_key(id) ==> !after.actor.links.contains(
                    session.viewers[id].link_id.0,
                )
        }),
{
    let session = state.session->0;
    lemma_detached_order(state, session.order.len());
    assert(session.order.take(session.order.len() as int) =~= session.order);
    let after = all_detached(state, session.order);
    assert(after.session->0.order =~= Seq::empty());
    assert forall|id: Seq<char>| !(#[trigger] after.session->0.viewers.contains_key(id)) by {
        if after.session->0.viewers.contains_key(id) {
            assert(after.session->0.order.contains(id));
        }
    }
    assert forall|id: Seq<char>| #[trigger]
        session.viewers.contains_key(id) implies !after.actor.links.contains(
        session.viewers[id].link_id.0,
    ) by {
        assert(session.order.contains(id));
        let i = session.order.index_of(id);
        assert(session.order[i] == id);
        assert(!after.actor.links.contains(session.viewers[session.order[i]].link_id.0));
    }
}

/// Letting one viewer go touches no other viewer.
pub proof fn law_kicking_touches_one_viewer<P, R, W>(
    state: EngineModel<P, R, W>,
    id: Seq<char>,
    other: Seq<char>,
)
    requires
        state.session is Some,
        id != other,
    ensures
        link_under(detached(state, id), other) == link_under(state, other),
        link_under(detached(state, id), id) is None,
{
}

/// A viewer that is connected is never dropped and never gets its offer again, and an
/// offer is sent again only so many times.
pub proof fn law_connected_viewers_are_left_alone<P>(
    link: LinkModel<P>,
    state: PeerTransportState,
    known: bool,
    listed: bool,
    now: u64,
)
    ensures
        state == PeerTransportState::Connected ==> care_of(link, state, known, listed, now)
            == LinkCare::Keep,
        care_of(link, state, known, listed, now) == LinkCare::Resend ==> link.offer_resends
            < MAX_OFFER_RESENDS,
        listed ==> care_of(link, state, known, listed, now) != LinkCare::Drop,
{
}

/// A link that is not connected goes exactly where the room is known and does not list its
/// viewer. Otherwise its offer is sent again once five seconds went by without an answer, up
/// to six times, as long as the peer is new and there is an offer.
pub proof fn law_links_are_tended<P>(
    link: LinkModel<P>,
    state: PeerTransportState,
    known: bool,
    listed: bool,
    now: u64,
)
    ensures
        ({
            let care = care_of(link, state, known, listed, now);
            &&& care is Drop <==> state != PeerTransportState::Connected && known && !listed
            &&& care is Resend <==> state == PeerTransportState::New && (listed || !known)
                && link.last_offer is Some && link.offer_resends < 6 && now - link.offered_at
                >= 5_000_000_000
        }),
{
}

/// Whoever is let in, has no link yet and is not the host gets an offer, under the own name
/// and in the order of the list; nobody else does.
pub proof fn law_newcomers_get_offers<P, R>(
    session: SessionModel<P, R>,
    self_id: Option<Seq<char>>,
    a: Seq<(Seq<char>, Seq<char>)>,
    b: Seq<(Seq<char>, Seq<char>)>,
)
    ensures
        to_mint(session, self_id, a + b) == to_mint(session, self_id, a) + to_mint(
            session,
            self_id,
            b,
        ),
        a.len() == 1 && self_id != Some(a[0].0) && !session.viewers.contains_key(a[0].0) ==> to_mint(
            session,
            self_id,
            a,
        ) == a,
        a.len() == 1 && (self_id == Some(a[0].0) || session.viewers.contains_key(a[0].0))
            ==> to_mint(session, self_id, a).len() == 0,
    decreases b.len(),
{
    reveal_with_fuel(to_mint, 2);
    if b.len() == 0 {
        assert(a + b =~= a);
        assert(to_mint(session, self_id, a) + to_mint(session, self_id, b) =~= to_mint(
            session,
            self_id,
            a,
        ));
    } else {
        assert((a + b).drop_last() =~= a + b.drop_last());
        law_newcomers_get_offers(session, self_id, a, b.drop_last());
        assert(to_mint(session, self_id, a + b) =~= to_mint(session, self_id, a) + to_mint(
            session,
            self_id,
            b,
        ));
    }
    if a.len() == 1 && self_id != Some(a[0].0) && !session.viewers.contains_key(a[0].0) {
        assert(to_mint(session, self_id, a) =~= a);
    }
}

/// Whoever asks to watch, has no link yet and is not oneself gets an offer, in the order of
/// the wishes: under the nickname of the own room, or else of the joined one, or else the id.
pub proof fn law_watchers_get_offers<P, R>(
    session: SessionModel<P, R>,
    self_id: Option<Seq<char>>,
    a: Seq<WatchRequest>,
    b: Seq<WatchRequest>,
)
    ensures
        watchers(session, self_id, a + b) == watchers(session, self_id, a) + watchers(
            session,
            self_id,
            b,
        ),
        a.len() == 1 ==> {
            let wish = a[0];
            let name = if wish.host_nickname is Some {
                wish.host_nickname->0@
            } else if wish.room_nickname is Some {
                wish.room_nickname->0@
            } else {
                wish.id@
            };
            watchers(session, self_id, a) == if self_id == Some(wish.id@)
                || session.viewers.contains_key(wish.id@) {
                Seq::empty()
            } else {
                seq![(wish.id@, name)]
            }
        },
    decreases b.len(),
{
    reveal_with_fuel(watchers, 2);
    if b.len() == 0 {
        assert(a + b =~= a);
        assert(watchers(session, self_id, a) + watchers(session, self_id, b) =~= watchers(
            session,
            self_id,
            a,
        ));
    } else {
        assert((a + b).drop_last() =~= a + b.drop_last());
        law_watchers_get_offers(session, self_id, a, b.drop_last());
        assert(watchers(session, self_id, a + b) =~= watchers(session, self_id, a) + watchers(
            session,
            self_id,
            b,
        ));
    }
    if a.len() == 1 {
        let wish = a[0];
        let name = if wish.host_nickname is Some {
            wish.host_nickname->0@
        } else if wish.room_nickname is Some {
            wish.room_nickname->0@
        } else {
            wish.id@
        };
        assert(watchers(session, self_id, a) =~= if self_id == Some(wish.id@)
            || session.viewers.contains_key(wish.id@) {
            Seq::empty()
        } else {
            seq![(wish.id@, name)]
        });
    }
}

/// Exactly the viewers whose peers failed are let go.
pub proof fn law_failed_viewers_go(
    order: Seq<Seq<char>>,
    states: Seq<PeerTransportState>,
    k: int,
)
    requires
        order.no_duplicates(),
        states.len() >= order.len(),
        0 <= k < order.len(),
    ensures
        failed_ids(order, states).contains(order[k]) <==> states[k] == PeerTransportState::Failed,
        forall|id: Seq<char>| failed_ids(order, states).contains(id) ==> order.contains(id),
    decreases order.len(),
{
    lemma_failed_ids(order, states, order[k]);
    assert forall|id: Seq<char>| failed_ids(order, states).contains(id) implies order.contains(
        id,
    ) by {
        lemma_failed_ids(order, states, id);
    }
}

proof fn lemma_failed_ids(order: Seq<Seq<char>>, states: Seq<PeerTransportState>, id: Seq<char>)
    requires
        order.no_duplicates(),
        states.len() >= order.len(),
    ensures
        failed_ids(order, states).contains(id) ==> order.contains(id),
        forall|k: int|
            0 <= k < order.len() && #[trigger] order[k] == id ==> (failed_ids(
                order,
                states,
            ).contains(id) <==> states[k] == PeerTransportState::Failed),
    decreases order.len(),
{
    if order.len() > 0 {
        let less = order.drop_last();
        let before = failed_ids(less, states);
        let n = order.len() - 1;
        assert(less.no_duplicates());
        lemma_failed_ids(less, states, id);
        if before.contains(id) {
            let k = less.index_of(id);
            assert(order[k] == id);
        }
        lemma_pushed_name(before, order.last(), id);
        assert forall|k: int| 0 <= k < order.len() && #[trigger] order[k] == id implies (failed_ids(
            order,
            states,
        ).contains(id) <==> states[k] == PeerTransportState::Failed) by {
            if k < n {
                assert(less[k] == id);
                assert(order[k] != order[n]);
            } else if before.contains(id) {
                let j = less.index_of(id);
                assert(order[j] == order[n]);
            }
        }
        if failed_ids(order, states).contains(id) && !before.contains(id) {
            assert(order[n] == id);
        }
    }
}

proof fn lemma_pushed_name(list: Seq<Seq<char>>, name: Seq<char>, id: Seq<char>)
    ensures
        list.push(name).contains(id) <==> list.contains(id) || name == id,
{
    let more = list.push(name);
    assert(more[list.len() as int] == name);
    if list.contains(id) {
        assert(more[list.index_of(id)] == id);
    }
    if more.contains(id) {
        let k = more.index_of(id);
        if k < list.len() {
            assert(list[k] == id);
        }
    }
}

/// An offer that is due is sent again as it was, once more and from now on, and the links that
/// are not due stay as they are, as do the order and all else of the session.
pub proof fn law_due_offers_are_sent_again<P, R>(
    session: SessionModel<P, R>,
    due: Seq<LinkCare>,
    now: u64,
    n: nat,
    k: int,
)
    requires
        session.order.no_duplicates(),
        n <= session.order.len(),
        due.len() == session.order.len(),
        0 <= k < session.order.len(),
    ensures
        ({
            let after = resent(session, due, now, n);
            let id = session.order[k];
            let link = session.viewers[id];
            &&& after.order == session.order
            &&& after == (SessionModel { viewers: after.viewers, ..session })
            &&& k < n && due[k] is Resend ==> {
                &&& after.viewers.contains_key(id)
                &&& after.viewers[id].offered_at == now
                &&& link.offer_resends < u8::MAX ==> after.viewers[id].offer_resends
                    == link.offer_resends + 1
                &&& after.viewers[id].last_offer == link.last_offer
                &&& after.viewers[id].link_id == link.link_id
                &&& after.viewers[id].peer == link.peer
                &&& after.viewers[id].nickname == link.nickname
                &&& after.viewers[id].offer_fence == link.offer_fence
            }
            &&& k >= n || !(due[k] is Resend) ==> after.viewers.contains_key(id)
                == session.viewers.contains_key(id) && after.viewers[id] == link
        }),
    decreases n,
{
    if n > 0 {
        law_due_offers_are_sent_again(session, due, now, (n - 1) as nat, k);
        if k != n - 1 {
            assert(session.order[k] != session.order[n - 1]);
        }
    }
}

/// What is sent again goes to the viewer that it was for, with the offer and the fence that
/// its link keeps, and nothing is sent that is not due.
pub proof fn law_offers_go_where_they_are_due<P, R>(
    session: SessionModel<P, R>,
    due: Seq<LinkCare>,
    n: nat,
    k: int,
)
    requires
        n <= session.order.len(),
        due.len() == session.order.len(),
    ensures
        due_offers(session, due, n).len() <= n,
        0 <= k < due_offers(session, due, n).len() ==> exists|i: int|
            0 <= i < n && #[trigger] due[i] is Resend && due_offers(session, due, n)[k] == (
                session.order[i],
                session.viewers[session.order[i]].last_offer->0,
                session.viewers[session.order[i]].offer_fence,
            ),
        0 <= k < n && due[k] is Resend ==> due_offers(session, due, n).contains(
            (
                session.order[k],
                session.viewers[session.order[k]].last_offer->0,
                session.viewers[session.order[k]].offer_fence,
            ),
        ),
    decreases n,
{
    if n > 0 {
        let before = due_offers(session, due, (n - 1) as nat);
        let all = due_offers(session, due, n);
        law_offers_go_where_they_are_due(session, due, (n - 1) as nat, k);
        if due[n - 1] is Resend {
            assert(all[before.len() as int] == (
                session.order[n - 1],
                session.viewers[session.order[n - 1]].last_offer->0,
                session.viewers[session.order[n - 1]].offer_fence,
            ));
        }
        if 0 <= k < n - 1 && due[k] is Resend {
            let item = (
                session.order[k],
                session.viewers[session.order[k]].last_offer->0,
                session.viewers[session.order[k]].offer_fence,
            );
            let j = before.index_of(item);
            assert(all[j] == item);
        }
    }
}

/// Exactly the viewers whose links are stale lose them.
pub proof fn law_stale_viewers_go(order: Seq<Seq<char>>, due: Seq<LinkCare>, n: nat, id: Seq<char>)
    requires
        n <= order.len(),
        due.len() == order.len(),
    ensures
        stale_ids(order, due, n).contains(id) <==> exists|i: int|
            0 <= i < n && #[trigger] due[i] is Drop && order[i] == id,
    decreases n,
{
    if n > 0 {
        let before = stale_ids(order, due, (n - 1) as nat);
        law_stale_viewers_go(order, due, (n - 1) as nat, id);
        lemma_pushed_name(before, order[n - 1], id);
        if stale_ids(order, due, n).contains(id) && !before.contains(id) {
            assert(due[n - 1] is Drop && order[n - 1] == id);
        }
    }
}

/// A viewer that is let go hands its link back as it was, and its number is retired; nothing
/// happens where there is no such viewer.
pub proof fn law_links_are_handed_back<P, R, W>(state: EngineModel<P, R, W>, id: Seq<char>)
    ensures
        state.session is Some && state.session->0.viewers.contains_key(id) ==> {
            let link = state.session->0.viewers[id];
            &&& link_under(state, id) == Some(link)
            &&& !detached(state, id).actor.links.contains(link.link_id.0)
            &&& detached(state, id).session == Some(state.session->0.without_viewer(id))
            &&& links_of_detached(state, seq![id]) == seq![link]
        },
        state.session is None || !state.session->0.viewers.contains_key(id) ==> {
            &&& link_under(state, id) is None
            &&& detached(state, id) == state
            &&& links_of_detached(state, seq![id]).len() == 0
        },
        detached(state, id) == (EngineModel {
            session: detached(state, id).session,
            actor: detached(state, id).actor,
            ..state
        }),
        all_detached(state, seq![id]) == detached(state, id),
{
    let one = seq![id];
    assert(one.drop_last() =~= Seq::<Seq<char>>::empty());
    reveal_with_fuel(all_detached, 2);
    reveal_with_fuel(links_of_detached, 2);
    if state.session is Some && state.session->0.viewers.contains_key(id) {
        assert(links_of_detached(state, one) =~= seq![state.session->0.viewers[id]]);
    }
}

/// New credentials replace what they name and nothing else: the password where there is one,
/// and whether viewers wait for the host, except in a room on the rendezvous server.
pub proof fn law_credentials_replace_what_they_name<P, R>(
    session: SessionModel<P, R>,
    password: Option<Seq<char>>,
    admission: Option<bool>,
)
    ensures
        ({
            let after = with_credentials(session, password, admission);
            &&& password is Some ==> after.password == password->0
            &&& password is None ==> after.password == session.password
            &&& admission is Some && !session.has_stunar ==> after.admission == admission->0
            &&& admission is None || session.has_stunar ==> after.admission == session.admission
            &&& after == (SessionModel {
                password: after.password,
                admission: after.admission,
                ..session
            })
        }),
{
}

/// A failure fails the session that runs, with its own words, and nothing else counts as one:
/// a capture that is cleaned up is told apart, and without a session nothing changes.
pub proof fn law_failures_fail_the_session<P, R, W>(
    state: EngineModel<P, R, W>,
    lifecycle: CaptureLifecycle,
    failure: Option<Seq<char>>,
)
    ensures
        state.session is Some && failure is Some ==> {
            let after = pipeline_noted(state, failure);
            &&& after.actor.lifecycle == MediaLifecycleState::Failed
            &&& after.detail == failure->0
            &&& after.session == state.session
        },
        state.session is None || failure is None ==> pipeline_noted(state, failure) == state,
        ({
            let after = capture_noted(state, lifecycle, failure);
            let counts = state.session is Some && (lifecycle is Failed || lifecycle
                is CleanupPending);
            &&& counts && lifecycle is Failed ==> after.actor.lifecycle
                == MediaLifecycleState::Failed
            &&& counts && lifecycle is CleanupPending ==> after.actor.lifecycle
                == MediaLifecycleState::CleanupPending
            &&& counts && failure is Some ==> after.detail == failure->0
            &&& counts && failure is None ==> after.detail == state.detail
            &&& !counts ==> after == state
            &&& after.session == state.session
        }),
{
}

/// The room is known as soon as it says anything; whoever was let in or is a member is listed,
/// and nobody else. Each link is tended by what the room says of its own viewer and by the
/// state of its own peer.
pub proof fn law_rooms_list_their_members<P, R>(
    session: SessionModel<P, R>,
    facts: AcceptFacts,
    states: Seq<PeerTransportState>,
    now: u64,
    id: Seq<char>,
    i: int,
)
    ensures
        facts.known() <==> facts.room_ids@.len() + facts.accepted@.len() > 0,
        0 <= i < facts.room_ids@.len() && facts.room_ids@[i]@ == id ==> facts.lists(id),
        0 <= i < facts.accepted@.len() && facts.accepted@[i].0@ == id ==> facts.lists(id),
        (forall|k: int| 0 <= k < facts.room_ids@.len() ==> (#[trigger] facts.room_ids@[k])@ != id)
            && (forall|k: int|
            0 <= k < facts.accepted@.len() ==> (#[trigger] facts.accepted@[k]).0@ != id)
            ==> !facts.lists(id),
        cares(session, facts, states, now).len() == session.order.len(),
        0 <= i < session.order.len() ==> cares(session, facts, states, now)[i] == care_of(
            session.viewers[session.order[i]],
            states[i],
            facts.known(),
            facts.lists(session.order[i]),
            now,
        ),
{
    let ids = texts(facts.room_ids@);
    let let_in = pairs(facts.accepted@);
    if 0 <= i < facts.room_ids@.len() && facts.room_ids@[i]@ == id {
        assert(ids[i] == id);
        assert(ids.contains(id));
    }
    if 0 <= i < facts.accepted@.len() && facts.accepted@[i].0@ == id {
        assert(let_in[i].0 == id);
    }
    if ids.contains(id) {
        let k = ids.index_of(id);
        assert(facts.room_ids@[k]@ == id);
    }
    if exists|k: int| 0 <= k < facts.accepted@.len() && #[trigger] let_in[k].0 == id {
        let k = choose|k: int| 0 <= k < facts.accepted@.len() && #[trigger] let_in[k].0 == id;
        assert(facts.accepted@[k].0@ == id);
    }
}

/// A watching member goes by the name that the host's room has for them, else by that of the
/// joined room, and by their own number only where nobody has a name for them.
pub proof fn law_watchers_go_by_their_name(request: WatchRequest)
    ensures
        request.host_nickname is Some ==> watcher_name(request) == request.host_nickname->0@,
        request.host_nickname is None && request.room_nickname is Some ==> watcher_name(request)
            == request.room_nickname->0@,
        request.host_nickname is None && request.room_nickname is None ==> watcher_name(request)
            == request.id@,
{
}

} // verus!
