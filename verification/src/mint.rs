//! Offers to viewers.
//!
//! An offer is reserved, its native peer is built, and then it is published, unless the
//! session or the share it was reserved for is gone.

use vstd::prelude::*;
use crate::control_plane::{
    ActorModel, EpochFence, LinkId, OfferAttemptId, OfferEpochFence,
};
use crate::engine::{EngineModel, EngineState};
use crate::engine_error::{ErrorModel, MediaEngineError};
use crate::peer_signal::{PeerSignal, SignalModel};
use crate::pipeline::EncoderControl;
use crate::session::{LinkModel, SessionModel, SessionRecord, ViewerLink};
use crate::types::{JoinMode, VideoCodec};

verus! {

/// How many viewers a session has at most.
pub const MAX_VIEWERS: usize = 8;

/// An offer as a viewer gets it, with the text that stands for its exact attempt.
#[derive(Debug, PartialEq, Eq)]
pub struct MediaOffer {
    pub signal: PeerSignal,
    pub offer_attempt: String,
}

/// A reserved offer.
#[derive(Clone, Copy, Debug, PartialEq, Eq, Structural)]
pub struct MintTicket {
    pub fence: EpochFence,
    pub offer_fence: OfferEpochFence,
    pub link_id: LinkId,
    /// How long one frame lasts, in nanoseconds.
    pub frame_nanos: u64,
    pub join_mode: JoinMode,
    pub codec: VideoCodec,
}

/// Why no offer is made, before anything is reserved.
pub open spec fn mint_refusal<P, R, W>(
    state: EngineModel<P, R, W>,
    id: Seq<char>,
    origin: Option<EpochFence>,
) -> Option<Seq<char>> {
    match state.session {
        None => Some("no media session is active"@),
        Some(session) => if origin is Some && origin->0 != state.actor.fence(None) {
            Some("stale room offer"@)
        } else if session.order.len() >= MAX_VIEWERS {
            Some("session is full"@)
        } else if session.viewers.contains_key(id) {
            Some("viewer already has a link"@)
        } else {
            None
        },
    }
}

/// The ticket that a reservation gets.
pub open spec fn ticket_of<P, R>(actor: ActorModel, session: SessionModel<P, R>) -> MintTicket {
    let link = LinkId(actor.begin_link().next_link);
    let fence = actor.fence(Some(link));
    MintTicket {
        fence,
        offer_fence: OfferEpochFence {
            epoch: fence,
            attempt: OfferAttemptId(actor.begin_offer_attempt().next_offer_attempt),
        },
        link_id: link,
        frame_nanos: (1_000_000_000int / (session.request.frame_rate.spec_hertz() as int)) as u64,
        join_mode: session.request.join_mode,
        codec: session.request.codec,
    }
}

/// The state after a reservation, and the ticket or the reason why there is none.
pub open spec fn mint_begun<P, R, W>(
    state: EngineModel<P, R, W>,
    id: Seq<char>,
    origin: Option<EpochFence>,
) -> (EngineModel<P, R, W>, Result<MintTicket, Seq<char>>) {
    let reserved = state.actor.begin_link().begin_offer_attempt();
    match mint_refusal(state, id, origin) {
        Some(text) => (
            if state.session is Some && origin is Some && origin->0 != state.actor.fence(None) {
                EngineModel { actor: state.actor.discard(), ..state }
            } else {
                state
            },
            Err(text),
        ),
        None => if state.actor.next_offer_attempt == u64::MAX {
            (
                EngineModel { actor: state.actor.begin_link(), ..state },
                Err("could not allocate offer attempt"@),
            )
        } else if !state.session->0.has_fanout {
            (
                EngineModel { actor: reserved, ..state },
                Err("peer transport is unavailable"@),
            )
        } else {
            (
                EngineModel { actor: reserved, ..state },
                Ok(ticket_of(state.actor, state.session->0)),
            )
        },
    }
}

/// The session of an offer is still the one it was reserved for.
pub open spec fn same_share<P, R>(session: SessionModel<P, R>, fence: EpochFence) -> bool {
    session.session_epoch == fence.session && session.share_epoch == fence.share
}

/// The viewer has a queue at the fanout that has to go.
pub open spec fn must_unsubscribe<P, R, W>(state: EngineModel<P, R, W>, fence: EpochFence) -> bool {
    state.session matches Some(session) && same_share(session, fence) && session.has_fanout
}

/// The actor without the link and the attempt of an offer.
pub open spec fn given_up(actor: ActorModel, ticket: MintTicket) -> ActorModel {
    actor.retire_offer_attempt(ticket.offer_fence.attempt).retire_link(ticket.link_id)
}

/// The offer can no longer be published.
pub open spec fn mint_stale<P, R, W>(state: EngineModel<P, R, W>, ticket: MintTicket) -> bool {
    match state.session {
        None => true,
        Some(session) => session.order.len() >= MAX_VIEWERS || !same_share(session, ticket.fence)
            || !state.actor.accepts_offer(ticket.offer_fence),
    }
}

/// The link of a published offer.
pub open spec fn link_of<P>(
    ticket: MintTicket,
    id: Seq<char>,
    nickname: Seq<char>,
    peer: P,
    signal: SignalModel,
    now: u64,
) -> LinkModel<P> {
    LinkModel {
        id,
        nickname,
        peer,
        last_offer: Some(SignalModel { id: Some(id), ..signal }),
        offered_at: now,
        offer_resends: 0,
        fence: ticket.fence,
        offer_fence: ticket.offer_fence,
        link_id: ticket.link_id,
    }
}

/// The state once an offer was published, or discarded where it can no longer be.
pub open spec fn offer_settled<P, R, W>(
    state: EngineModel<P, R, W>,
    ticket: MintTicket,
    link: LinkModel<P>,
) -> EngineModel<P, R, W> {
    if mint_stale(state, ticket) {
        EngineModel { actor: given_up(state.actor.discard(), ticket), ..state }
    } else {
        EngineModel { session: Some(state.session->0.with_viewer(link.id, link)), ..state }
    }
}

/// A published offer, or a peer that is not used and has to be closed.
pub enum MintOutcome<P> {
    /// The signal goes to the viewer.
    Published(PeerSignal),
    /// The peer is closed, and whoever asked for the offer is told why.
    Discarded { peer: P, unsubscribe: bool, error: String },
}

impl<P, R, W> EngineState<P, R, W> {
    /// Reserves an offer for a viewer. `origin` is what the room knew when it asked: an
    /// offer for an earlier session or share is refused.
    pub fn begin_mint(&mut self, id: &str, origin: Option<EpochFence>) -> (ticket: Result<
        MintTicket,
        String,
    >)
        requires
            old(self).wf(),
        ensures
            final(self).wf(),
            ({
                let (after, outcome) = mint_begun(old(self)@, id@, origin);
                &&& final(self)@ == after
                &&& match outcome {
                    Ok(expected) => ticket is Ok && ticket->Ok_0 == expected,
                    Err(text) => ticket is Err && ticket->Err_0@ == text,
                }
            }),
    {
        let current = self.actor.fence(None);
        match &self.session {
            None => {
                return Err("no media session is active".to_owned());
            },
            Some(session) => {
                if let Some(asked) = origin {
                    if asked != current {
                        let _ = self.actor.discard("room-offer", asked);
                        return Err("stale room offer".to_owned());
                    }
                }
                proof {
                    session.viewers.lemma_items();
                }
                if session.viewers.len() >= MAX_VIEWERS {
                    return Err("session is full".to_owned());
                }
                if session.viewers.contains(id) {
                    return Err("viewer already has a link".to_owned());
                }
                let link_id = self.actor.begin_link();
                let fence = self.actor.fence(Some(link_id));
                let offer_fence = match self.actor.begin_offer_attempt(link_id) {
                    Some(offer_fence) => offer_fence,
                    None => {
                        return Err("could not allocate offer attempt".to_owned());
                    },
                };
                if !session.has_fanout {
                    return Err("peer transport is unavailable".to_owned());
                }
                let hertz: u64 = session.request.frame_rate.hertz() as u64;
                assert(hertz == 120 || hertz == 60 || hertz == 30);
                Ok(
                    MintTicket {
                        fence,
                        offer_fence,
                        link_id,
                        frame_nanos: 1_000_000_000 / hertz,
                        join_mode: session.request.join_mode,
                        codec: session.request.codec,
                    },
                )
            },
        }
    }

    fn unsubscribes(&self, fence: EpochFence) -> (unsubscribe: bool)
        ensures
            unsubscribe == must_unsubscribe(self@, fence),
    {
        match &self.session {
            Some(session) => session.session_epoch == fence.session && session.share_epoch
                == fence.share && session.has_fanout,
            None => false,
        }
    }

    /// Gives a reserved offer up. The answer says whether the viewer has a queue at the
    /// fanout that has to go.
    pub fn abort_mint(&mut self, ticket: MintTicket) -> (unsubscribe: bool)
        requires
            old(self).wf(),
        ensures
            final(self).wf(),
            unsubscribe == must_unsubscribe(old(self)@, ticket.fence),
            final(self)@ == (EngineModel {
                actor: given_up(old(self)@.actor, ticket),
                ..old(self)@
            }),
    {
        let unsubscribe: bool = self.unsubscribes(ticket.fence);
        self.actor.retire_offer_attempt(ticket.offer_fence.attempt);
        self.actor.retire_link(ticket.link_id);
        unsubscribe
    }

    /// Gives a reserved offer up whose peer did not end its setup: the peer is kept for
    /// cleanup. The answer says whether the viewer has a queue at the fanout that has to
    /// go, and why there is no offer.
    pub fn defer_mint(&mut self, ticket: MintTicket, peer: P) -> (deferred: (bool, String))
        requires
            old(self).wf(),
        ensures
            final(self).wf(),
            deferred.0 == must_unsubscribe(old(self)@, ticket.fence),
            deferred.1@ == "WebRTC peer initialization cleanup is pending"@,
            final(self)@ == (EngineModel {
                actor: given_up(old(self)@.actor, ticket),
                pending_peer_cleanup: old(self)@.pending_peer_cleanup.push(peer),
                ..old(self)@
            }),
    {
        let unsubscribe: bool = self.abort_mint(ticket);
        self.pending_peer_cleanup.push(peer);
        (unsubscribe, "WebRTC peer initialization cleanup is pending".to_owned())
    }

    fn offer_is_stale(&self, ticket: MintTicket) -> (stale: bool)
        requires
            self.wf(),
        ensures
            stale == mint_stale(self@, ticket),
    {
        match &self.session {
            None => true,
            Some(session) => {
                proof {
                    session.viewers.lemma_items();
                }
                session.viewers.len() >= MAX_VIEWERS || session.session_epoch
                    != ticket.fence.session || session.share_epoch != ticket.fence.share
                    || !self.actor.accepts_offer(ticket.offer_fence)
            },
        }
    }

    /// Publishes a reserved offer: the viewer has a link from here on, and the encoder owes
    /// it a keyframe. An offer whose session or share is gone, or that no longer fits, is
    /// discarded.
    pub fn mint_viewer_offer_fenced(
        &mut self,
        ticket: MintTicket,
        id: &str,
        nickname: &str,
        peer: P,
        signal: PeerSignal,
        now: u64,
        control: &mut EncoderControl,
    ) -> (outcome: MintOutcome<P>)
        requires
            old(self).wf(),
        ensures
            final(self).wf(),
            final(self)@ == offer_settled(
                old(self)@,
                ticket,
                link_of(ticket, id@, nickname@, peer, signal@, now),
            ),
            if mint_stale(old(self)@, ticket) {
                &&& outcome matches MintOutcome::Discarded { peer: unused, unsubscribe, error }
                &&& unused == peer
                &&& error@ == "viewer offer became stale or session is full"@
                &&& unsubscribe == must_unsubscribe(old(self)@, ticket.fence)
                &&& final(self)@ == (EngineModel {
                    actor: given_up(old(self)@.actor.discard(), ticket),
                    ..old(self)@
                })
                &&& *final(control) == *old(control)
            } else {
                &&& outcome matches MintOutcome::Published(sent)
                &&& sent@ == (SignalModel { id: Some(id@), ..signal@ })
                &&& final(self)@ == (EngineModel {
                    session: Some(
                        old(self)@.session->0.with_viewer(
                            id@,
                            link_of(ticket, id@, nickname@, peer, signal@, now),
                        ),
                    ),
                    ..old(self)@
                })
                &&& *final(control) == (EncoderControl {
                    keyframe_requested: true,
                    ..*old(control)
                })
            },
    {
        let mut signal = signal;
        let ghost given = signal@;
        signal.id = Some(id.to_owned());
        if self.offer_is_stale(ticket) {
            let unsubscribe: bool = self.unsubscribes(ticket.fence);
            let _ = self.actor.discard("peer-create", ticket.fence);
            self.actor.retire_offer_attempt(ticket.offer_fence.attempt);
            self.actor.retire_link(ticket.link_id);
            return MintOutcome::Discarded {
                peer,
                unsubscribe,
                error: "viewer offer became stale or session is full".to_owned(),
            };
        }
        let link = ViewerLink {
            id: id.to_owned(),
            nickname: nickname.to_owned(),
            peer,
            last_offer: Some(signal.clone()),
            offered_at: now,
            offer_resends: 0,
            fence: ticket.fence,
            offer_fence: ticket.offer_fence,
            link_id: ticket.link_id,
        };
        assert(link@ == link_of(ticket, id@, nickname@, peer, given, now));
        match self.session.take() {
            None => {},
            Some(session) => {
                let mut session = session;
                add_viewer(&mut session, id, link);
                self.put_session(session);
            },
        }
        control.request_keyframe();
        MintOutcome::Published(signal)
    }
}

/// Gives a viewer a link.
pub fn add_viewer<P, R>(session: &mut SessionRecord<P, R>, id: &str, link: ViewerLink<P>)
    requires
        old(session).wf(),
    ensures
        final(session).wf(),
        final(session)@ == old(session)@.with_viewer(id@, link@),
{
    let _ = session.viewers.insert(id, link);
    assert(session@.viewers =~= old(session)@.viewers.insert(id@, link@));
    assert(session@ =~= old(session)@.with_viewer(id@, link@));
}

/// Why an answer is not taken.
pub open spec fn answer_refusal<P, R, W>(
    state: EngineModel<P, R, W>,
    id: Option<Seq<char>>,
    fence: OfferEpochFence,
) -> Option<ErrorModel> {
    match id {
        None => Some(ErrorModel::NativePeer("answer is missing viewer id"@)),
        Some(viewer) => match state.session {
            None => Some(ErrorModel::NoActiveSession),
            Some(session) => if !session.viewers.contains_key(viewer) {
                Some(ErrorModel::NativePeer("unknown viewer"@))
            } else if session.viewers[viewer].offer_fence != fence || !state.actor.accepts_offer(
                fence,
            ) {
                Some(ErrorModel::NativePeer("stale viewer answer"@))
            } else {
                None
            },
        },
    }
}

impl<P, R, W> EngineState<P, R, W> {
    /// Whether an answer belongs to the current offer of its viewer.
    pub fn set_peer_answer_in_state(&self, answer: &PeerSignal, fence: OfferEpochFence) -> (result:
        Result<(), MediaEngineError>)
        requires
            self.wf(),
        ensures
            match answer_refusal(self@, answer@.id, fence) {
                Some(error) => result is Err && result->Err_0@ == error,
                None => result is Ok,
            },
    {
        match &answer.id {
            None => Err(MediaEngineError::NativePeer("answer is missing viewer id".to_owned())),
            Some(id) => match &self.session {
                None => Err(MediaEngineError::NoActiveSession),
                Some(session) => match session.viewers.get(id.as_str()) {
                    None => {
                        assert(!session@.viewers.contains_key(id@));
                        Err(MediaEngineError::NativePeer("unknown viewer".to_owned()))
                    },
                    Some(viewer) => {
                        assert(session@.viewers[id@] == viewer@);
                        if viewer.offer_fence != fence || !self.actor.accepts_offer(fence) {
                            Err(MediaEngineError::NativePeer("stale viewer answer".to_owned()))
                        } else {
                            Ok(())
                        }
                    },
                },
            },
        }
    }

    /// Whether an answer that came through a room is applied: exactly where it belongs to
    /// the current offer of its viewer. The stream of a viewer that connects begins with a
    /// fresh keyframe.
    pub fn apply_room_answer(
        &self,
        answer: &PeerSignal,
        fence: OfferEpochFence,
        control: &mut EncoderControl,
    ) -> (applies: bool)
        requires
            self.wf(),
        ensures
            applies == (answer_refusal(self@, answer@.id, fence) is None),
            *final(control) == if applies {
                EncoderControl { keyframe_requested: true, ..*old(control) }
            } else {
                *old(control)
            },
    {
        match self.set_peer_answer_in_state(answer, fence) {
            Ok(_) => {
                control.request_keyframe();
                true
            },
            Err(_) => false,
        }
    }
}

/// A session never gets more viewers than it may have.
pub proof fn law_viewers_are_capped<P, R, W>(
    state: EngineModel<P, R, W>,
    ticket: MintTicket,
    id: Seq<char>,
    link: LinkModel<P>,
)
    requires
        !mint_stale(state, ticket),
    ensures
        state.session->0.with_viewer(id, link).order.len() <= MAX_VIEWERS,
{
}

/// A published offer can be answered: its viewer is there, and exactly its attempt is
/// taken.
pub proof fn law_published_offers_are_answered<P, R, W>(
    state: EngineModel<P, R, W>,
    ticket: MintTicket,
    id: Seq<char>,
    nickname: Seq<char>,
    peer: P,
    signal: SignalModel,
    now: u64,
    fence: OfferEpochFence,
)
    requires
        !mint_stale(state, ticket),
    ensures
        ({
            let after = EngineModel {
                session: Some(
                    state.session->0.with_viewer(
                        id,
                        link_of(ticket, id, nickname, peer, signal, now),
                    ),
                ),
                ..state
            };
            &&& answer_refusal(after, Some(id), ticket.offer_fence) is None
            &&& fence != ticket.offer_fence ==> answer_refusal(after, Some(id), fence) == Some(
                ErrorModel::NativePeer("stale viewer answer"@),
            )
        }),
{
}

/// An offer that is given up leaves no link and no attempt behind.
pub proof fn law_given_up_offers_leave_nothing<P, R, W>(
    state: EngineModel<P, R, W>,
    id: Seq<char>,
    origin: Option<EpochFence>,
)
    requires
        state.actor.wf(),
        state.actor.next_link < u64::MAX,
        mint_begun(state, id, origin).1 is Ok,
    ensures
        ({
            let (after, outcome) = mint_begun(state, id, origin);
            let actor = given_up(after.actor, outcome->Ok_0);
            &&& actor.links == state.actor.links
            &&& actor.attempts == state.actor.attempts
            &&& actor.operations == state.actor.operations
            &&& after.session == state.session
        }),
{
    let (after, outcome) = mint_begun(state, id, origin);
    let actor = given_up(after.actor, outcome->Ok_0);
    assert(actor.links =~= state.actor.links);
    assert(actor.attempts =~= state.actor.attempts);
}

/// An offer that was reserved for an earlier session or share is never published.
pub proof fn law_offers_do_not_outlive_their_share<P, R, W>(
    state: EngineModel<P, R, W>,
    ticket: MintTicket,
)
    requires
        state.session matches Some(session) ==> session.session_epoch
            == state.actor.session_epoch && session.share_epoch == state.actor.share_epoch,
        ticket.fence.session != state.actor.session_epoch || ticket.fence.share
            != state.actor.share_epoch,
    ensures
        mint_stale(state, ticket),
{
}

/// An offer is refused without a session, for an earlier session or share, for a ninth viewer
/// and for one that has a link, in this order, and for nothing else before it is reserved.
pub proof fn law_offers_are_refused_in_order<P, R, W>(
    state: EngineModel<P, R, W>,
    id: Seq<char>,
    origin: Option<EpochFence>,
)
    ensures
        ({
            let refusal = mint_refusal(state, id, origin);
            &&& state.session is None ==> refusal == Some("no media session is active"@)
            &&& state.session is Some ==> {
                let session = state.session->0;
                let late = origin is Some && !(origin->0.session == state.actor.session_epoch
                    && origin->0.share == state.actor.share_epoch && origin->0.link is None);
                let full = session.order.len() >= 8;
                &&& late ==> refusal == Some("stale room offer"@)
                &&& !late && full ==> refusal == Some("session is full"@)
                &&& !late && !full && session.viewers.contains_key(id) ==> refusal == Some(
                    "viewer already has a link"@,
                )
                &&& !late && !full && !session.viewers.contains_key(id) ==> refusal is None
            }
        }),
{
}

/// A reservation opens one link and one attempt, whose numbers the ticket carries, in the
/// epochs that are current. Its frames last as long as the share's. An offer that came late is
/// counted; a refusal changes nothing else, and none of them touches the session.
pub proof fn law_tickets_carry_the_reservation<P, R, W>(
    state: EngineModel<P, R, W>,
    id: Seq<char>,
    origin: Option<EpochFence>,
)
    requires
        state.actor.wf(),
        state.actor.next_link < u64::MAX,
        state.actor.discarded < u64::MAX,
    ensures
        ({
            let (after, outcome) = mint_begun(state, id, origin);
            let refused = mint_refusal(state, id, origin) is Some;
            &&& after.session == state.session
            &&& outcome is Ok <==> !refused && state.actor.next_offer_attempt < u64::MAX
                && state.session->0.has_fanout
            &&& outcome is Ok ==> {
                let ticket = outcome->Ok_0;
                let hertz = state.session->0.request.frame_rate.spec_hertz() as int;
                &&& ticket.link_id.0 == state.actor.next_link + 1
                &&& ticket.offer_fence.attempt.0 == state.actor.next_offer_attempt + 1
                &&& ticket.fence.link == Some(ticket.link_id)
                &&& ticket.offer_fence.epoch == ticket.fence
                &&& after.actor.accepts_offer(ticket.offer_fence)
                &&& ticket.codec == state.session->0.request.codec
                &&& ticket.join_mode == state.session->0.request.join_mode
                &&& ticket.frame_nanos == 1_000_000_000int / hertz
            }
            &&& refused ==> after.actor.links == state.actor.links && after.actor.attempts
                == state.actor.attempts
            &&& outcome is Err && outcome->Err_0 == "stale room offer"@ && refused ==> {
                state.session is Some && origin is Some && origin->0 != state.actor.fence(None)
                    ==> after.actor.discarded == state.actor.discarded + 1
            }
        }),
{
    let hertz = state.session->0.request.frame_rate.spec_hertz() as int;
    assert(hertz == 30 || hertz == 60 || hertz == 120);
    assert(1_000_000_000int / 30 == 33_333_333);
    assert(1_000_000_000int / 60 == 16_666_666);
    assert(1_000_000_000int / 120 == 8_333_333);
}

/// The link of a published offer is the viewer's: its name, its peer, the offer addressed to
/// it, sent now and not yet again, under the fences of its reservation.
pub proof fn law_links_are_the_viewers<P>(
    ticket: MintTicket,
    id: Seq<char>,
    nickname: Seq<char>,
    peer: P,
    signal: SignalModel,
    now: u64,
)
    ensures
        ({
            let link = link_of(ticket, id, nickname, peer, signal, now);
            &&& link.id == id && link.nickname == nickname && link.peer == peer
            &&& link.last_offer is Some
            &&& link.last_offer->0.sdp == signal.sdp
            &&& link.last_offer->0.kind == signal.kind
            &&& link.last_offer->0.id == Some(id)
            &&& link.offered_at == now
            &&& link.offer_resends == 0
            &&& link.fence == ticket.fence
            &&& link.offer_fence == ticket.offer_fence
            &&& link.link_id == ticket.link_id
        }),
{
}

/// An offer is published exactly where its session and share are the current ones, its
/// attempt is still open and there is room; the viewer then has the link. Otherwise nobody is
/// added, its numbers are given up, and it is counted.
pub proof fn law_offers_are_published_or_dropped<P, R, W>(
    state: EngineModel<P, R, W>,
    ticket: MintTicket,
    link: LinkModel<P>,
)
    requires
        state.actor.discarded < u64::MAX,
    ensures
        ({
            let after = offer_settled(state, ticket, link);
            let good = state.session is Some && state.session->0.order.len() < 8
                && state.session->0.session_epoch == ticket.fence.session
                && state.session->0.share_epoch == ticket.fence.share && state.actor.accepts_offer(
                ticket.offer_fence,
            );
            &&& good ==> {
                &&& after.session is Some
                &&& after.session->0.viewers.contains_key(link.id)
                &&& after.session->0.viewers[link.id] == link
                &&& after.actor == state.actor
            }
            &&& !good ==> {
                &&& after.session == state.session
                &&& after.actor.discarded == state.actor.discarded + 1
                &&& !after.actor.links.contains(ticket.link_id.0)
                &&& !after.actor.attempts.contains(ticket.offer_fence.attempt.0)
            }
            &&& after == (EngineModel {
                session: after.session,
                actor: after.actor,
                ..state
            })
        }),
        must_unsubscribe(state, ticket.fence) <==> state.session is Some
            && state.session->0.has_fanout && state.session->0.session_epoch == ticket.fence.session
            && state.session->0.share_epoch == ticket.fence.share,
{
}

/// An answer is taken exactly where it names a viewer of the session and carries the fence of
/// that viewer's current offer; otherwise the first thing that is amiss is told.
pub proof fn law_answers_are_refused_in_order<P, R, W>(
    state: EngineModel<P, R, W>,
    id: Option<Seq<char>>,
    fence: OfferEpochFence,
)
    ensures
        ({
            let refusal = answer_refusal(state, id, fence);
            &&& id is None ==> refusal == Some(ErrorModel::NativePeer("answer is missing viewer id"@))
            &&& id is Some && state.session is None ==> refusal == Some(ErrorModel::NoActiveSession)
            &&& id is Some && state.session is Some ==> {
                let session = state.session->0;
                let known = session.viewers.contains_key(id->0);
                let current = session.viewers[id->0].offer_fence == fence
                    && state.actor.accepts_offer(fence);
                &&& !known ==> refusal == Some(ErrorModel::NativePeer("unknown viewer"@))
                &&& known && !current ==> refusal == Some(
                    ErrorModel::NativePeer("stale viewer answer"@),
                )
                &&& known && current ==> refusal is None
            }
        }),
{
}

} // verus!
