//! Epochs, fences and operation slots of the serialized media session.
//!
//! The actor holds metadata only. Frames, access units and transport queues stay
//! outside of it.

use std::collections::{HashMap, HashSet};
use vstd::prelude::*;
use crate::text::{decimal, push_decimal, push_text};
use crate::types::MediaLifecycleState;

verus! {

broadcast use vstd::std_specs::hash::group_hash_axioms;

#[derive(Clone, Copy, Debug, PartialEq, Eq, Hash, Structural)]
pub struct SessionEpoch(pub u64);

#[derive(Clone, Copy, Debug, PartialEq, Eq, Hash, Structural)]
pub struct ShareEpoch(pub u64);

#[derive(Clone, Copy, Debug, PartialEq, Eq, Hash, Structural)]
pub struct LinkId(pub u64);

#[derive(Clone, Copy, Debug, PartialEq, Eq, Hash, Structural)]
pub struct OperationId(pub u64);

/// Identity of one exact offer attempt, apart from viewer and link: a retry on one
/// link carries a fresh one.
#[derive(Clone, Copy, Debug, PartialEq, Eq, Hash, Structural)]
pub struct OfferAttemptId(pub u64);

/// The epochs, and the link if any, that a piece of work belongs to.
#[derive(Clone, Copy, Debug, PartialEq, Eq, Structural)]
pub struct EpochFence {
    pub session: SessionEpoch,
    pub share: ShareEpoch,
    pub link: Option<LinkId>,
}

/// The fence of offer and answer work. The attempt is allocated when the offer
/// comes in, so a completion can be refused without a look at current viewers.
#[derive(Clone, Copy, Debug, PartialEq, Eq, Structural)]
pub struct OfferEpochFence {
    pub epoch: EpochFence,
    pub attempt: OfferAttemptId,
}

impl EpochFence {
    /// This fence for one offer attempt.
    pub fn with_offer_attempt(self, attempt: OfferAttemptId) -> (fence: OfferEpochFence)
        ensures
            fence == (OfferEpochFence { epoch: self, attempt }),
    {
        OfferEpochFence { epoch: self, attempt }
    }
}

/// What an operation does.
#[derive(Clone, Copy, Debug, PartialEq, Eq, Structural)]
pub enum OperationKind {
    Generic,
    StartSession,
    StartShare,
    StopShare,
    UpdateSession,
    StopSession,
}

/// The identity of an operation, the epochs it was reserved in and its kind.
#[derive(Clone, Copy, Debug, PartialEq, Eq, Structural)]
pub struct OperationFence {
    pub operation: OperationId,
    pub epoch: EpochFence,
    pub kind: OperationKind,
}

/// Lifecycle, epochs and reservations of the media session.
pub struct SessionActor {
    lifecycle: MediaLifecycleState,
    session_epoch: SessionEpoch,
    share_epoch: ShareEpoch,
    next_session: u64,
    next_share: u64,
    next_link: u64,
    next_offer_attempt: u64,
    next_operation: u64,
    active_links: HashSet<u64>,
    active_offer_attempts: HashSet<u64>,
    operations: HashMap<u64, OperationFence>,
    discarded_events: u64,
}

/// What a [`SessionActor`] holds.
#[verifier::ext_equal]
pub struct ActorModel {
    pub lifecycle: MediaLifecycleState,
    pub session_epoch: SessionEpoch,
    pub share_epoch: ShareEpoch,
    pub next_session: u64,
    pub next_share: u64,
    pub next_link: u64,
    pub next_offer_attempt: u64,
    pub next_operation: u64,
    pub links: Set<u64>,
    pub attempts: Set<u64>,
    pub operations: Map<u64, OperationFence>,
    pub discarded: u64,
}

/// The next number of a counter that stays at its maximum once it is there.
pub open spec fn next_of(counter: u64) -> u64 {
    if counter == u64::MAX {
        counter
    } else {
        (counter + 1) as u64
    }
}

impl ActorModel {
    /// Nothing that is active carries a number that was not handed out yet.
    pub open spec fn wf(self) -> bool {
        &&& self.session_epoch.0 <= self.next_session
        &&& self.share_epoch.0 <= self.next_share
        &&& forall|link: u64| #[trigger] self.links.contains(link) ==> 0 < link <= self.next_link
        &&& forall|attempt: u64| #[trigger]
            self.attempts.contains(attempt) ==> 0 < attempt <= self.next_offer_attempt
        &&& forall|id: u64| #[trigger]
            self.operations.contains_key(id) ==> 0 < id <= self.next_operation
                && self.operations[id].operation.0 == id
    }

    pub open spec fn fence(self, link: Option<LinkId>) -> EpochFence {
        EpochFence { session: self.session_epoch, share: self.share_epoch, link }
    }

    /// The fence names the current epochs, and its link, if any, is active.
    pub open spec fn accepts(self, fence: EpochFence) -> bool {
        &&& self.session_epoch == fence.session
        &&& self.share_epoch == fence.share
        &&& fence.link matches Some(link) ==> self.links.contains(link.0)
    }

    pub open spec fn accepts_offer(self, fence: OfferEpochFence) -> bool {
        self.accepts(fence.epoch) && self.attempts.contains(fence.attempt.0)
    }

    /// Exactly this operation is reserved, in the current epochs.
    pub open spec fn accepts_operation(self, fence: OperationFence) -> bool {
        &&& self.operations.contains_key(fence.operation.0)
        &&& self.operations[fence.operation.0] == fence
        &&& self.accepts(fence.epoch)
    }

    pub open spec fn accepts_operation_kind(
        self,
        fence: OperationFence,
        kind: OperationKind,
    ) -> bool {
        fence.kind == kind && self.accepts_operation(fence)
    }

    /// A new session: fresh epoch, no share, nothing active.
    pub open spec fn begin_session(self) -> ActorModel {
        ActorModel {
            lifecycle: MediaLifecycleState::Starting,
            session_epoch: SessionEpoch(next_of(self.next_session)),
            share_epoch: ShareEpoch(0),
            next_session: next_of(self.next_session),
            links: Set::empty(),
            attempts: Set::empty(),
            operations: Map::empty(),
            ..self
        }
    }

    /// The session is stopping: fresh epoch, nothing active, same share.
    pub open spec fn invalidate_session(self) -> ActorModel {
        ActorModel {
            lifecycle: MediaLifecycleState::Stopping,
            session_epoch: SessionEpoch(next_of(self.next_session)),
            next_session: next_of(self.next_session),
            links: Set::empty(),
            attempts: Set::empty(),
            operations: Map::empty(),
            ..self
        }
    }

    /// A new share: fresh share epoch, no offer attempts.
    pub open spec fn begin_share(self) -> ActorModel {
        ActorModel {
            share_epoch: ShareEpoch(next_of(self.next_share)),
            next_share: next_of(self.next_share),
            attempts: Set::empty(),
            ..self
        }
    }

    /// The share ended: no links and no offer attempts. The epoch stays until the
    /// next start.
    pub open spec fn end_share(self) -> ActorModel {
        ActorModel { links: Set::empty(), attempts: Set::empty(), ..self }
    }

    /// One more link.
    pub open spec fn begin_link(self) -> ActorModel {
        ActorModel {
            next_link: next_of(self.next_link),
            links: self.links.insert(next_of(self.next_link)),
            ..self
        }
    }

    /// One more offer attempt, where a number is left.
    pub open spec fn begin_offer_attempt(self) -> ActorModel {
        ActorModel {
            next_offer_attempt: next_of(self.next_offer_attempt),
            attempts: self.attempts.insert(next_of(self.next_offer_attempt)),
            ..self
        }
    }

    /// The fence that the next reservation gets.
    pub open spec fn next_operation_fence(
        self,
        epoch: EpochFence,
        kind: OperationKind,
    ) -> OperationFence {
        OperationFence { operation: OperationId(next_of(self.next_operation)), epoch, kind }
    }

    /// One more reserved operation.
    pub open spec fn reserve_operation_kind(
        self,
        epoch: EpochFence,
        kind: OperationKind,
    ) -> ActorModel {
        ActorModel {
            next_operation: next_of(self.next_operation),
            operations: self.operations.insert(
                next_of(self.next_operation),
                self.next_operation_fence(epoch, kind),
            ),
            ..self
        }
    }

    pub open spec fn reserve_start_share(self) -> ActorModel {
        self.begin_share().reserve_operation_kind(
            self.begin_share().fence(None),
            OperationKind::StartShare,
        )
    }

    pub open spec fn retire_operation(self, operation: OperationId) -> ActorModel {
        ActorModel { operations: self.operations.remove(operation.0), ..self }
    }

    pub open spec fn retire_offer_attempt(self, attempt: OfferAttemptId) -> ActorModel {
        ActorModel { attempts: self.attempts.remove(attempt.0), ..self }
    }

    pub open spec fn retire_link(self, link: LinkId) -> ActorModel {
        ActorModel { links: self.links.remove(link.0), ..self }
    }

    /// One more event was discarded.
    pub open spec fn discard(self) -> ActorModel {
        ActorModel { discarded: next_of(self.discarded), ..self }
    }

    pub open spec fn with_lifecycle(self, lifecycle: MediaLifecycleState) -> ActorModel {
        ActorModel { lifecycle, ..self }
    }
}

/// The line that is logged for a discarded event.
pub open spec fn discard_line(event: Seq<char>, fence: EpochFence) -> Seq<char> {
    "event="@ + event + " session="@ + decimal(fence.session.0 as nat) + " share="@ + decimal(
        fence.share.0 as nat,
    ) + " link="@ + (match fence.link {
        Some(link) => decimal(link.0 as nat),
        None => "none"@,
    })
}

impl View for SessionActor {
    type V = ActorModel;

    closed spec fn view(&self) -> ActorModel {
        ActorModel {
            lifecycle: self.lifecycle,
            session_epoch: self.session_epoch,
            share_epoch: self.share_epoch,
            next_session: self.next_session,
            next_share: self.next_share,
            next_link: self.next_link,
            next_offer_attempt: self.next_offer_attempt,
            next_operation: self.next_operation,
            links: self.active_links@,
            attempts: self.active_offer_attempts@,
            operations: self.operations@,
            discarded: self.discarded_events,
        }
    }
}

fn advanced(counter: u64) -> (next: u64)
    ensures
        next == next_of(counter),
{
    if counter == u64::MAX {
        counter
    } else {
        counter + 1
    }
}

/// An actor in which nothing happened yet.
pub open spec fn idle_actor() -> ActorModel {
    ActorModel {
        lifecycle: MediaLifecycleState::Idle,
        session_epoch: SessionEpoch(0),
        share_epoch: ShareEpoch(0),
        next_session: 0,
        next_share: 0,
        next_link: 0,
        next_offer_attempt: 0,
        next_operation: 0,
        links: Set::empty(),
        attempts: Set::empty(),
        operations: Map::empty(),
        discarded: 0,
    }
}

impl Default for SessionActor {
    fn default() -> (actor: Self)
        ensures
            actor@.wf(),
            actor@ == idle_actor(),
    {
        SessionActor::new()
    }
}

impl SessionActor {
    /// An idle actor in which nothing was handed out yet.
    pub fn new() -> (actor: Self)
        ensures
            actor@.wf(),
            actor@ == idle_actor(),
    {
        SessionActor {
            lifecycle: MediaLifecycleState::Idle,
            session_epoch: SessionEpoch(0),
            share_epoch: ShareEpoch(0),
            next_session: 0,
            next_share: 0,
            next_link: 0,
            next_offer_attempt: 0,
            next_operation: 0,
            active_links: HashSet::new(),
            active_offer_attempts: HashSet::new(),
            operations: HashMap::new(),
            discarded_events: 0,
        }
    }

    /// Where the session stands.
    pub fn lifecycle(&self) -> (lifecycle: MediaLifecycleState)
        ensures
            lifecycle == self@.lifecycle,
    {
        self.lifecycle
    }

    /// The current session epoch.
    pub fn session_epoch(&self) -> (epoch: SessionEpoch)
        ensures
            epoch == self@.session_epoch,
    {
        self.session_epoch
    }

    /// The current share epoch.
    pub fn share_epoch(&self) -> (epoch: ShareEpoch)
        ensures
            epoch == self@.share_epoch,
    {
        self.share_epoch
    }

    /// Moves the session to another lifecycle state.
    pub fn set_lifecycle(&mut self, lifecycle: MediaLifecycleState)
        ensures
            final(self)@ == old(self)@.with_lifecycle(lifecycle),
    {
        self.lifecycle = lifecycle;
    }

    /// Starts a session: every earlier fence and operation is void.
    pub fn begin_session(&mut self) -> (epoch: SessionEpoch)
        requires
            old(self)@.wf(),
        ensures
            final(self)@.wf(),
            final(self)@ == old(self)@.begin_session(),
            epoch == final(self)@.session_epoch,
    {
        self.next_session = advanced(self.next_session);
        self.session_epoch = SessionEpoch(self.next_session);
        self.share_epoch = ShareEpoch(0);
        self.active_links.clear();
        self.active_offer_attempts.clear();
        self.operations.clear();
        self.lifecycle = MediaLifecycleState::Starting;
        self.session_epoch
    }

    /// Ends a session: every earlier fence and operation is void.
    pub fn invalidate_session(&mut self) -> (epoch: SessionEpoch)
        requires
            old(self)@.wf(),
        ensures
            final(self)@.wf(),
            final(self)@ == old(self)@.invalidate_session(),
            epoch == final(self)@.session_epoch,
    {
        self.next_session = advanced(self.next_session);
        self.session_epoch = SessionEpoch(self.next_session);
        self.active_links.clear();
        self.active_offer_attempts.clear();
        self.operations.clear();
        self.lifecycle = MediaLifecycleState::Stopping;
        self.session_epoch
    }

    /// Starts a share: every earlier share fence and offer attempt is void.
    pub fn begin_share(&mut self) -> (epoch: ShareEpoch)
        requires
            old(self)@.wf(),
        ensures
            final(self)@.wf(),
            final(self)@ == old(self)@.begin_share(),
            epoch == final(self)@.share_epoch,
    {
        self.next_share = advanced(self.next_share);
        self.share_epoch = ShareEpoch(self.next_share);
        self.active_offer_attempts.clear();
        self.share_epoch
    }

    /// Ends a share. Links and offers are void; the share epoch stays.
    pub fn end_share(&mut self)
        requires
            old(self)@.wf(),
        ensures
            final(self)@.wf(),
            final(self)@ == old(self)@.end_share(),
    {
        self.active_links.clear();
        self.active_offer_attempts.clear();
    }

    /// Opens a link.
    pub fn begin_link(&mut self) -> (id: LinkId)
        requires
            old(self)@.wf(),
        ensures
            final(self)@.wf(),
            final(self)@ == old(self)@.begin_link(),
            id.0 == final(self)@.next_link,
    {
        self.next_link = advanced(self.next_link);
        let id = LinkId(self.next_link);
        self.active_links.insert(self.next_link);
        id
    }

    /// Allocates an identity for one exact offer attempt on `link`. `None` where
    /// the link is not active or no number is left.
    pub fn begin_offer_attempt(&mut self, link: LinkId) -> (fence: Option<OfferEpochFence>)
        requires
            old(self)@.wf(),
        ensures
            final(self)@.wf(),
            fence is Some <==> old(self)@.links.contains(link.0)
                && old(self)@.next_offer_attempt < u64::MAX,
            fence is None ==> final(self)@ == old(self)@,
            fence matches Some(offer) ==> {
                &&& final(self)@ == old(self)@.begin_offer_attempt()
                &&& offer == (OfferEpochFence {
                    epoch: old(self)@.fence(Some(link)),
                    attempt: OfferAttemptId(final(self)@.next_offer_attempt),
                })
            },
    {
        if !self.active_links.contains(&link.0) {
            return None;
        }
        if self.next_offer_attempt == u64::MAX {
            return None;
        }
        self.next_offer_attempt = self.next_offer_attempt + 1;
        let attempt = OfferAttemptId(self.next_offer_attempt);
        self.active_offer_attempts.insert(self.next_offer_attempt);
        Some(self.fence(Some(link)).with_offer_attempt(attempt))
    }

    /// The fence of work that begins now.
    pub fn fence(&self, link: Option<LinkId>) -> (fence: EpochFence)
        ensures
            fence == self@.fence(link),
    {
        EpochFence { session: self.session_epoch, share: self.share_epoch, link }
    }

    /// Reserves an operation of no particular kind.
    pub fn reserve_operation(&mut self, epoch: EpochFence) -> (fence: OperationFence)
        requires
            old(self)@.wf(),
        ensures
            final(self)@.wf(),
            final(self)@ == old(self)@.reserve_operation_kind(epoch, OperationKind::Generic),
            fence == old(self)@.next_operation_fence(epoch, OperationKind::Generic),
    {
        self.reserve_operation_kind(epoch, OperationKind::Generic)
    }

    /// Reserves an operation of the given kind.
    pub fn reserve_operation_kind(&mut self, epoch: EpochFence, kind: OperationKind) -> (fence:
        OperationFence)
        requires
            old(self)@.wf(),
        ensures
            final(self)@.wf(),
            final(self)@ == old(self)@.reserve_operation_kind(epoch, kind),
            fence == old(self)@.next_operation_fence(epoch, kind),
    {
        self.next_operation = advanced(self.next_operation);
        let fence = OperationFence { operation: OperationId(self.next_operation), epoch, kind };
        self.operations.insert(self.next_operation, fence);
        fence
    }

    /// Starts a share and reserves its start operation in the new share epoch.
    pub fn reserve_start_share(&mut self) -> (reserved: (ShareEpoch, OperationFence))
        requires
            old(self)@.wf(),
        ensures
            final(self)@.wf(),
            final(self)@ == old(self)@.reserve_start_share(),
            reserved.0 == final(self)@.share_epoch,
            reserved.1 == old(self)@.begin_share().next_operation_fence(
                final(self)@.fence(None),
                OperationKind::StartShare,
            ),
    {
        let share = self.begin_share();
        let epoch = self.fence(None);
        let operation = self.reserve_operation_kind(epoch, OperationKind::StartShare);
        (share, operation)
    }

    /// Whether exactly this operation is reserved in the current epochs.
    pub fn accepts_operation(&self, fence: OperationFence) -> (accepted: bool)
        ensures
            accepted == self@.accepts_operation(fence),
    {
        match self.operations.get(&fence.operation.0) {
            Some(reserved) => *reserved == fence && self.accepts(fence.epoch),
            None => false,
        }
    }

    /// Whether exactly this operation is reserved and is of the given kind.
    pub fn accepts_operation_kind(&self, fence: OperationFence, kind: OperationKind) -> (accepted:
        bool)
        ensures
            accepted == self@.accepts_operation_kind(fence, kind),
    {
        fence.kind == kind && self.accepts_operation(fence)
    }

    /// Gives up a reserved operation.
    pub fn retire_operation(&mut self, operation: OperationId)
        requires
            old(self)@.wf(),
        ensures
            final(self)@.wf(),
            final(self)@ == old(self)@.retire_operation(operation),
    {
        self.operations.remove(&operation.0);
    }

    /// Whether a fence names the current epochs and an active link.
    pub fn accepts(&self, fence: EpochFence) -> (accepted: bool)
        ensures
            accepted == self@.accepts(fence),
    {
        self.session_epoch == fence.session && self.share_epoch == fence.share && match fence.link {
            Some(link) => self.active_links.contains(&link.0),
            None => true,
        }
    }

    /// Whether an offer fence is current and its attempt still open.
    pub fn accepts_offer(&self, fence: OfferEpochFence) -> (accepted: bool)
        ensures
            accepted == self@.accepts_offer(fence),
    {
        self.accepts(fence.epoch) && self.active_offer_attempts.contains(&fence.attempt.0)
    }

    /// Gives up an offer attempt.
    pub fn retire_offer_attempt(&mut self, attempt: OfferAttemptId)
        requires
            old(self)@.wf(),
        ensures
            final(self)@.wf(),
            final(self)@ == old(self)@.retire_offer_attempt(attempt),
    {
        self.active_offer_attempts.remove(&attempt.0);
    }

    /// Closes a link.
    pub fn retire_link(&mut self, link: LinkId)
        requires
            old(self)@.wf(),
        ensures
            final(self)@.wf(),
            final(self)@ == old(self)@.retire_link(link),
    {
        self.active_links.remove(&link.0);
    }

    /// Counts a discarded event and returns the line to log for it.
    pub fn discard(&mut self, event: &str, fence: EpochFence) -> (line: String)
        requires
            old(self)@.wf(),
        ensures
            final(self)@.wf(),
            final(self)@ == old(self)@.discard(),
            line@ == discard_line(event@, fence),
    {
        self.discarded_events = advanced(self.discarded_events);
        let mut line = String::new();
        push_text(&mut line, "event=");
        push_text(&mut line, event);
        push_text(&mut line, " session=");
        push_decimal(&mut line, fence.session.0);
        push_text(&mut line, " share=");
        push_decimal(&mut line, fence.share.0);
        push_text(&mut line, " link=");
        match fence.link {
            Some(link) => push_decimal(&mut line, link.0),
            None => push_text(&mut line, "none"),
        }
        assert(line@ =~= discard_line(event@, fence));
        line
    }

    /// How many events were discarded.
    pub fn discarded_events(&self) -> (count: u64)
        ensures
            count == self@.discarded,
    {
        self.discarded_events
    }
}

/// Once a session begins or ends, no fence, offer or operation of an earlier
/// session is accepted any more, as long as epoch numbers are left.
pub proof fn law_earlier_sessions_are_void(
    actor: ActorModel,
    fence: EpochFence,
    attempt: OfferAttemptId,
    operation: OperationFence,
)
    requires
        actor.wf(),
        actor.next_session < u64::MAX,
        fence.session.0 <= actor.next_session,
    ensures
        !actor.begin_session().accepts(fence),
        !actor.invalidate_session().accepts(fence),
        !actor.begin_session().accepts_offer(OfferEpochFence { epoch: fence, attempt }),
        !actor.invalidate_session().accepts_offer(OfferEpochFence { epoch: fence, attempt }),
        !actor.begin_session().accepts_operation(operation),
        !actor.invalidate_session().accepts_operation(operation),
{
}

/// Once a share begins, no fence of an earlier share and no earlier offer is
/// accepted any more, as long as epoch numbers are left.
pub proof fn law_earlier_shares_are_void(actor: ActorModel, fence: EpochFence, offer: OfferEpochFence)
    requires
        actor.wf(),
        actor.next_share < u64::MAX,
        fence.share.0 <= actor.next_share,
    ensures
        !actor.begin_share().accepts(fence),
        !actor.begin_share().accepts_offer(offer),
        actor.begin_share().share_epoch.0 > actor.share_epoch.0,
{
}

/// Ending a share voids every link and offer and leaves the share epoch as it was;
/// the next start gets a greater one.
pub proof fn law_ending_a_share_keeps_its_epoch(
    actor: ActorModel,
    fence: EpochFence,
    offer: OfferEpochFence,
)
    requires
        actor.wf(),
        actor.next_share < u64::MAX,
    ensures
        actor.end_share().share_epoch == actor.share_epoch,
        fence.link is Some ==> !actor.end_share().accepts(fence),
        !actor.end_share().accepts_offer(offer),
        actor.end_share().reserve_start_share().share_epoch.0 > actor.share_epoch.0,
{
}

/// A fresh link, offer attempt or operation is accepted, and none was active under
/// the same number before, as long as numbers are left.
pub proof fn law_fresh_reservations_are_accepted(actor: ActorModel, link: LinkId, kind: OperationKind)
    requires
        actor.wf(),
        actor.next_link < u64::MAX,
        actor.next_offer_attempt < u64::MAX,
        actor.next_operation < u64::MAX,
        actor.links.contains(link.0),
    ensures
        !actor.links.contains(actor.begin_link().next_link),
        actor.begin_link().accepts(actor.fence(Some(LinkId(actor.begin_link().next_link)))),
        !actor.attempts.contains(actor.begin_offer_attempt().next_offer_attempt),
        actor.begin_offer_attempt().accepts_offer(
            OfferEpochFence {
                epoch: actor.fence(Some(link)),
                attempt: OfferAttemptId(actor.begin_offer_attempt().next_offer_attempt),
            },
        ),
        !actor.operations.contains_key(next_of(actor.next_operation)),
        actor.reserve_operation_kind(actor.fence(None), kind).accepts_operation_kind(
            actor.next_operation_fence(actor.fence(None), kind),
            kind,
        ),
{
}

/// Retiring an offer attempt refuses that one and no other.
pub proof fn law_retiring_touches_one_attempt(
    actor: ActorModel,
    retired: OfferAttemptId,
    offer: OfferEpochFence,
)
    ensures
        actor.retire_offer_attempt(retired).accepts_offer(offer) == (actor.accepts_offer(offer)
            && offer.attempt != retired),
{
}

/// A retired operation is never accepted again under its number until that number
/// is reserved anew, and an operation is accepted under its own kind alone.
pub proof fn law_operations_complete_once(
    actor: ActorModel,
    fence: OperationFence,
    other: OperationKind,
)
    ensures
        !actor.retire_operation(fence.operation).accepts_operation(fence),
        other != fence.kind ==> !actor.accepts_operation_kind(fence, other),
{
}

/// A call that may change a [`SessionActor`].
pub enum ActorStep {
    SetLifecycle(MediaLifecycleState),
    BeginSession,
    InvalidateSession,
    BeginShare,
    EndShare,
    BeginLink,
    BeginOfferAttempt(LinkId),
    ReserveOperation(EpochFence, OperationKind),
    ReserveStartShare,
    RetireOperation(OperationId),
    RetireOfferAttempt(OfferAttemptId),
    RetireLink(LinkId),
    Discard,
}

impl ActorModel {
    /// An offer attempt on this link gets a number.
    pub open spec fn attempt_begins(self, link: LinkId) -> bool {
        self.links.contains(link.0) && self.next_offer_attempt < u64::MAX
    }

    /// The actor after one call.
    pub open spec fn after(self, step: ActorStep) -> ActorModel {
        match step {
            ActorStep::SetLifecycle(lifecycle) => self.with_lifecycle(lifecycle),
            ActorStep::BeginSession => self.begin_session(),
            ActorStep::InvalidateSession => self.invalidate_session(),
            ActorStep::BeginShare => self.begin_share(),
            ActorStep::EndShare => self.end_share(),
            ActorStep::BeginLink => self.begin_link(),
            ActorStep::BeginOfferAttempt(link) => if self.attempt_begins(link) {
                self.begin_offer_attempt()
            } else {
                self
            },
            ActorStep::ReserveOperation(epoch, kind) => self.reserve_operation_kind(epoch, kind),
            ActorStep::ReserveStartShare => self.reserve_start_share(),
            ActorStep::RetireOperation(operation) => self.retire_operation(operation),
            ActorStep::RetireOfferAttempt(attempt) => self.retire_offer_attempt(attempt),
            ActorStep::RetireLink(link) => self.retire_link(link),
            ActorStep::Discard => self.discard(),
        }
    }
}

/// A fresh actor after any number of calls.
pub open spec fn actor_after(steps: Seq<ActorStep>) -> ActorModel
    decreases steps.len(),
{
    if steps.len() == 0 {
        idle_actor()
    } else {
        actor_after(steps.drop_last()).after(steps.last())
    }
}

/// The call at `i` opened this link.
pub open spec fn link_begun(steps: Seq<ActorStep>, i: int, link: LinkId) -> bool {
    &&& 0 <= i < steps.len()
    &&& steps[i] is BeginLink
    &&& actor_after(steps.take(i + 1)).next_link == link.0
}

/// The call ends this link, alone or with everything else.
pub open spec fn ends_link(step: ActorStep, link: LinkId) -> bool {
    match step {
        ActorStep::BeginSession | ActorStep::InvalidateSession | ActorStep::EndShare => true,
        ActorStep::RetireLink(retired) => retired == link,
        _ => false,
    }
}

/// The link was opened, and no call since has ended it.
pub open spec fn link_is_live(steps: Seq<ActorStep>, link: LinkId) -> bool {
    exists|i: int| #[trigger]
        link_begun(steps, i, link) && forall|j: int|
            i < j < steps.len() ==> !ends_link(#[trigger] steps[j], link)
}

/// The call at `i` began this offer attempt.
pub open spec fn attempt_begun(steps: Seq<ActorStep>, i: int, attempt: OfferAttemptId) -> bool {
    &&& 0 <= i < steps.len()
    &&& steps[i] matches ActorStep::BeginOfferAttempt(link) && actor_after(
        steps.take(i),
    ).attempt_begins(link)
    &&& actor_after(steps.take(i + 1)).next_offer_attempt == attempt.0
}

/// The call ends this offer attempt, alone or with everything else.
pub open spec fn ends_attempt(step: ActorStep, attempt: OfferAttemptId) -> bool {
    match step {
        ActorStep::BeginSession | ActorStep::InvalidateSession | ActorStep::BeginShare
        | ActorStep::ReserveStartShare | ActorStep::EndShare => true,
        ActorStep::RetireOfferAttempt(retired) => retired == attempt,
        _ => false,
    }
}

/// The offer attempt was begun, and no call since has ended it.
pub open spec fn attempt_is_live(steps: Seq<ActorStep>, attempt: OfferAttemptId) -> bool {
    exists|i: int| #[trigger]
        attempt_begun(steps, i, attempt) && forall|j: int|
            i < j < steps.len() ==> !ends_attempt(#[trigger] steps[j], attempt)
}

/// The call at `i` reserved exactly this operation.
pub open spec fn operation_reserved(steps: Seq<ActorStep>, i: int, fence: OperationFence) -> bool {
    &&& 0 <= i < steps.len()
    &&& match steps[i] {
        ActorStep::ReserveOperation(epoch, kind) => fence == actor_after(
            steps.take(i),
        ).next_operation_fence(epoch, kind),
        ActorStep::ReserveStartShare => fence == actor_after(steps.take(i)).next_operation_fence(
            actor_after(steps.take(i)).begin_share().fence(None),
            OperationKind::StartShare,
        ),
        _ => false,
    }
}

/// The call ends this operation, alone or with everything else.
pub open spec fn ends_operation(step: ActorStep, operation: OperationId) -> bool {
    match step {
        ActorStep::BeginSession | ActorStep::InvalidateSession => true,
        ActorStep::RetireOperation(retired) => retired == operation,
        _ => false,
    }
}

/// The operation was reserved, and no call since has ended it.
pub open spec fn operation_is_live(steps: Seq<ActorStep>, fence: OperationFence) -> bool {
    exists|i: int| #[trigger]
        operation_reserved(steps, i, fence) && forall|j: int|
            i < j < steps.len() ==> !ends_operation(#[trigger] steps[j], fence.operation)
}

proof fn lemma_prefixes(steps: Seq<ActorStep>, i: int)
    requires
        0 <= i < steps.len(),
    ensures
        i < steps.len() - 1 ==> steps.drop_last().take(i + 1) == steps.take(i + 1),
        steps.drop_last().take(i) == steps.take(i),
        i == steps.len() - 1 ==> steps.take(i) == steps.drop_last() && steps.take(i + 1) == steps,
{
    if i < steps.len() - 1 {
        assert(steps.drop_last().take(i + 1) =~= steps.take(i + 1));
    } else {
        assert(steps.take(i) =~= steps.drop_last());
        assert(steps.take(i + 1) =~= steps);
    }
    assert(steps.drop_last().take(i) =~= steps.take(i));
}

/// Whatever is called, nothing that is active carries a number that was not handed out.
pub proof fn lemma_actor_is_wf(steps: Seq<ActorStep>)
    ensures
        actor_after(steps).wf(),
    decreases steps.len(),
{
    if steps.len() > 0 {
        lemma_actor_is_wf(steps.drop_last());
    }
}

proof fn lemma_links(steps: Seq<ActorStep>, link: LinkId)
    ensures
        actor_after(steps).links.contains(link.0) <==> link_is_live(steps, link),
    decreases steps.len(),
{
    if steps.len() > 0 {
        let before = steps.drop_last();
        let last = steps.len() - 1;
        lemma_links(before, link);
        lemma_prefixes(steps, last);
        if actor_after(steps).links.contains(link.0) {
            if link_begun(steps, last, link) {
            } else {
                assert(link_is_live(before, link));
                let i = choose|i: int| #[trigger]
                    link_begun(before, i, link) && forall|j: int|
                        i < j < before.len() ==> !ends_link(#[trigger] before[j], link);
                lemma_prefixes(steps, i);
                assert(link_begun(steps, i, link));
                assert forall|j: int| i < j < steps.len() implies !ends_link(
                    #[trigger] steps[j],
                    link,
                ) by {
                    if j < last {
                        assert(before[j] == steps[j]);
                    }
                }
            }
            assert(link_is_live(steps, link));
        }
        if link_is_live(steps, link) {
            let i = choose|i: int| #[trigger]
                link_begun(steps, i, link) && forall|j: int|
                    i < j < steps.len() ==> !ends_link(#[trigger] steps[j], link);
            if i < last {
                lemma_prefixes(steps, i);
                assert(link_begun(before, i, link));
                assert forall|j: int| i < j < before.len() implies !ends_link(
                    #[trigger] before[j],
                    link,
                ) by {
                    assert(before[j] == steps[j]);
                }
                assert(link_is_live(before, link));
                assert(!ends_link(steps[last], link));
            }
        }
    }
}

proof fn lemma_attempts(steps: Seq<ActorStep>, attempt: OfferAttemptId)
    ensures
        actor_after(steps).attempts.contains(attempt.0) <==> attempt_is_live(steps, attempt),
    decreases steps.len(),
{
    if steps.len() > 0 {
        let before = steps.drop_last();
        let last = steps.len() - 1;
        lemma_attempts(before, attempt);
        lemma_prefixes(steps, last);
        if actor_after(steps).attempts.contains(attempt.0) {
            if attempt_begun(steps, last, attempt) {
            } else {
                assert(attempt_is_live(before, attempt));
                let i = choose|i: int| #[trigger]
                    attempt_begun(before, i, attempt) && forall|j: int|
                        i < j < before.len() ==> !ends_attempt(#[trigger] before[j], attempt);
                lemma_prefixes(steps, i);
                assert(attempt_begun(steps, i, attempt));
                assert forall|j: int| i < j < steps.len() implies !ends_attempt(
                    #[trigger] steps[j],
                    attempt,
                ) by {
                    if j < last {
                        assert(before[j] == steps[j]);
                    }
                }
            }
            assert(attempt_is_live(steps, attempt));
        }
        if attempt_is_live(steps, attempt) {
            let i = choose|i: int| #[trigger]
                attempt_begun(steps, i, attempt) && forall|j: int|
                    i < j < steps.len() ==> !ends_attempt(#[trigger] steps[j], attempt);
            if i < last {
                lemma_prefixes(steps, i);
                assert(attempt_begun(before, i, attempt));
                assert forall|j: int| i < j < before.len() implies !ends_attempt(
                    #[trigger] before[j],
                    attempt,
                ) by {
                    assert(before[j] == steps[j]);
                }
                assert(attempt_is_live(before, attempt));
                assert(!ends_attempt(steps[last], attempt));
            }
        }
    }
}

proof fn lemma_operations(steps: Seq<ActorStep>, fence: OperationFence)
    requires
        actor_after(steps).next_operation < u64::MAX,
    ensures
        actor_after(steps).operations.contains_key(fence.operation.0) && actor_after(
            steps,
        ).operations[fence.operation.0] == fence <==> operation_is_live(steps, fence),
    decreases steps.len(),
{
    if steps.len() > 0 {
        let before = steps.drop_last();
        let last = steps.len() - 1;
        let id = fence.operation.0;
        lemma_operations(before, fence);
        lemma_actor_is_wf(before);
        lemma_prefixes(steps, last);
        if actor_after(steps).operations.contains_key(id) && actor_after(steps).operations[id]
            == fence {
            if operation_reserved(steps, last, fence) {
            } else {
                assert(operation_is_live(before, fence));
                let i = choose|i: int| #[trigger]
                    operation_reserved(before, i, fence) && forall|j: int|
                        i < j < before.len() ==> !ends_operation(
                            #[trigger] before[j],
                            fence.operation,
                        );
                lemma_prefixes(steps, i);
                assert(operation_reserved(steps, i, fence));
                assert forall|j: int| i < j < steps.len() implies !ends_operation(
                    #[trigger] steps[j],
                    fence.operation,
                ) by {
                    if j < last {
                        assert(before[j] == steps[j]);
                    }
                }
            }
            assert(operation_is_live(steps, fence));
        }
        if operation_is_live(steps, fence) {
            let i = choose|i: int| #[trigger]
                operation_reserved(steps, i, fence) && forall|j: int|
                    i < j < steps.len() ==> !ends_operation(#[trigger] steps[j], fence.operation);
            if i < last {
                lemma_prefixes(steps, i);
                assert(operation_reserved(before, i, fence));
                assert forall|j: int| i < j < before.len() implies !ends_operation(
                    #[trigger] before[j],
                    fence.operation,
                ) by {
                    assert(before[j] == steps[j]);
                }
                assert(operation_is_live(before, fence));
                assert(!ends_operation(steps[last], fence.operation));
            }
        }
    }
}

/// Over any history of calls, a fence is accepted exactly where it names the current epochs
/// and its link, if any, was opened and neither retired nor ended with its share or session
/// since.
pub proof fn law_live_links_are_accepted(steps: Seq<ActorStep>, fence: EpochFence)
    ensures
        actor_after(steps).wf(),
        actor_after(steps).accepts(fence) <==> {
            &&& fence.session == actor_after(steps).session_epoch
            &&& fence.share == actor_after(steps).share_epoch
            &&& fence.link matches Some(link) ==> link_is_live(steps, link)
        },
{
    lemma_actor_is_wf(steps);
    if let Some(link) = fence.link {
        lemma_links(steps, link);
    }
}

/// Over any history of calls, an offer is accepted exactly where its fence is, and its
/// attempt was begun and neither retired nor ended with its share or session since.
pub proof fn law_live_offers_are_accepted(steps: Seq<ActorStep>, offer: OfferEpochFence)
    ensures
        actor_after(steps).accepts_offer(offer) <==> actor_after(steps).accepts(offer.epoch)
            && attempt_is_live(steps, offer.attempt),
{
    lemma_attempts(steps, offer.attempt);
}

/// Over any history of calls that leaves operation numbers, an operation is accepted exactly
/// where its fence is, and it was reserved and neither retired nor ended with its session
/// since.
pub proof fn law_live_operations_are_accepted(steps: Seq<ActorStep>, operation: OperationFence)
    requires
        actor_after(steps).next_operation < u64::MAX,
    ensures
        actor_after(steps).accepts_operation(operation) <==> actor_after(steps).accepts(
            operation.epoch,
        ) && operation_is_live(steps, operation),
{
    lemma_operations(steps, operation);
}

/// Every number is handed out once: each counter goes up by one where it is used, as long as
/// it can, and by no other call, not even by a new session.
pub proof fn law_numbers_are_not_used_again(actor: ActorModel, step: ActorStep)
    requires
        actor.next_session < u64::MAX,
        actor.next_share < u64::MAX,
        actor.next_link < u64::MAX,
        actor.next_operation < u64::MAX,
        actor.discarded < u64::MAX,
    ensures
        ({
            let after = actor.after(step);
            &&& after.next_session == actor.next_session + if step is BeginSession || step
                is InvalidateSession {
                1int
            } else {
                0
            }
            &&& after.next_share == actor.next_share + if step is BeginShare || step
                is ReserveStartShare {
                1int
            } else {
                0
            }
            &&& after.next_link == actor.next_link + if step is BeginLink {
                1int
            } else {
                0
            }
            &&& after.next_operation == actor.next_operation + if step is ReserveOperation || step
                is ReserveStartShare {
                1int
            } else {
                0
            }
            &&& after.discarded == actor.discarded + if step is Discard {
                1int
            } else {
                0
            }
            &&& after.next_offer_attempt == actor.next_offer_attempt || (step
                is BeginOfferAttempt && after.next_offer_attempt == actor.next_offer_attempt + 1)
            &&& step is BeginSession || step is InvalidateSession ==> after.session_epoch.0
                == after.next_session
            &&& step is BeginShare || step is ReserveStartShare ==> after.share_epoch.0
                == after.next_share
        }),
{
}

/// A call leaves alone what it does not name. Only the two ends of a session and an explicit
/// wish change the lifecycle; only a session changes its epoch; only a share and the start of
/// a session change that of the share.
pub proof fn law_calls_change_what_they_name(actor: ActorModel, step: ActorStep)
    ensures
        ({
            let after = actor.after(step);
            &&& step is BeginSession ==> after.lifecycle == MediaLifecycleState::Starting
                && after.share_epoch.0 == 0
            &&& step is InvalidateSession ==> after.lifecycle == MediaLifecycleState::Stopping
            &&& (step matches ActorStep::SetLifecycle(lifecycle) ==> after.lifecycle == lifecycle)
            &&& !(step is BeginSession || step is InvalidateSession || step is SetLifecycle)
                ==> after.lifecycle == actor.lifecycle
            &&& !(step is BeginSession || step is InvalidateSession) ==> after.session_epoch
                == actor.session_epoch
            &&& !(step is BeginSession || step is BeginShare || step is ReserveStartShare)
                ==> after.share_epoch == actor.share_epoch
            &&& step is BeginLink ==> actor.links.subset_of(after.links)
            &&& step is BeginShare || step is ReserveStartShare ==> after.links == actor.links
            &&& step is SetLifecycle || step is Discard ==> after.links == actor.links
                && after.attempts == actor.attempts && after.operations == actor.operations
            &&& step is BeginShare || step is EndShare || step is BeginLink || step is RetireLink
                || step is BeginOfferAttempt || step is RetireOfferAttempt ==> after.operations
                == actor.operations
            &&& step is BeginLink || step is RetireLink || step is ReserveOperation || step
                is RetireOperation ==> after.attempts == actor.attempts
            &&& step is BeginOfferAttempt || step is RetireOfferAttempt || step is ReserveOperation
                || step is RetireOperation ==> after.links == actor.links
        }),
{
}

/// Work is fenced by the epochs that are current when it begins, and is accepted as long as
/// they are; a change of either epoch refuses it, whatever link it names.
pub proof fn law_fences_name_the_current_epochs(actor: ActorModel, fence: EpochFence)
    ensures
        actor.fence(fence.link).session == actor.session_epoch,
        actor.fence(fence.link).share == actor.share_epoch,
        actor.fence(fence.link).link == fence.link,
        actor.accepts(actor.fence(None)),
        fence.session != actor.session_epoch ==> !actor.accepts(fence),
        fence.share != actor.share_epoch ==> !actor.accepts(fence),
{
}

} // verus!
