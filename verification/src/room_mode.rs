//! Broadcast and room sessions, and who becomes master of a room.

use vstd::prelude::*;
use crate::text::{comes_before, same_text, text_before};

verus! {

/// How a session treats its members. In a broadcast one host serves viewers; in a
/// room every member may share and watch the others.
#[derive(Clone, Copy, Debug, PartialEq, Eq, Structural)]
pub enum SessionMode {
    Broadcast,
    Room,
}

impl Default for SessionMode {
    fn default() -> (mode: Self)
        ensures
            mode == SessionMode::Broadcast,
    {
        SessionMode::Broadcast
    }
}

/// One person in a room.
#[derive(Clone, Debug, PartialEq, Eq)]
pub struct RoomMember {
    pub id: String,
    pub nickname: String,
    pub joined_at: u64,
}

/// Every accepted viewer gets an offer at once.
pub open spec fn offers_on_accept(mode: SessionMode) -> bool {
    mode == SessionMode::Broadcast
}

/// Whether every accepted viewer gets an offer at once. In a room an offer waits
/// for the explicit wish of the member who wants the stream.
pub fn auto_mint_on_accept(mode: SessionMode) -> (auto: bool)
    ensures
        auto == offers_on_accept(mode),
        auto == (mode == SessionMode::Broadcast),
{
    match mode {
        SessionMode::Broadcast => true,
        SessionMode::Room => false,
    }
}

/// What the signalling socket tells a joining viewer.
#[derive(Clone, Copy, Debug, PartialEq, Eq, Structural)]
pub enum HandshakeEvent {
    Accepted,
    Offer,
    Rejected,
    Gone,
}

/// What the joining viewer does about it.
#[derive(Clone, Copy, Debug, PartialEq, Eq, Structural)]
pub enum HandshakeOutcome {
    KeepWaiting,
    ReadyWithoutOffer,
    ReadyWithOffer,
    Rejected,
    Gone,
}

/// The outcome of an event in a room or in a broadcast.
pub open spec fn outcome_in(room: bool, event: HandshakeEvent) -> HandshakeOutcome {
    match event {
        HandshakeEvent::Rejected => HandshakeOutcome::Rejected,
        HandshakeEvent::Gone => HandshakeOutcome::Gone,
        HandshakeEvent::Offer => if room {
            HandshakeOutcome::KeepWaiting
        } else {
            HandshakeOutcome::ReadyWithOffer
        },
        HandshakeEvent::Accepted => if room {
            HandshakeOutcome::ReadyWithoutOffer
        } else {
            HandshakeOutcome::KeepWaiting
        },
    }
}

/// A room is joined as soon as the member is accepted, even if nobody shares yet; a
/// broadcast viewer waits for the offer of the host.
pub fn handshake_outcome(mode: &str, event: HandshakeEvent) -> (outcome: HandshakeOutcome)
    ensures
        outcome == outcome_in(mode@ == "room"@, event),
{
    let room: bool = same_text(mode, "room");
    match event {
        HandshakeEvent::Rejected => HandshakeOutcome::Rejected,
        HandshakeEvent::Gone => HandshakeOutcome::Gone,
        HandshakeEvent::Offer => if room {
            HandshakeOutcome::KeepWaiting
        } else {
            HandshakeOutcome::ReadyWithOffer
        },
        HandshakeEvent::Accepted => if room {
            HandshakeOutcome::ReadyWithoutOffer
        } else {
            HandshakeOutcome::KeepWaiting
        },
    }
}

/// `left` comes before `right`: it joined earlier, or at the same time with a
/// smaller id.
pub open spec fn senior(left: RoomMember, right: RoomMember) -> bool {
    left.joined_at < right.joined_at || (left.joined_at == right.joined_at && text_before(
        left.id@,
        right.id@,
    ))
}

/// The member at `k` stays when `leaving` goes, and nobody who stays is senior.
pub open spec fn heir_at(members: Seq<RoomMember>, leaving: Seq<char>, k: int) -> bool {
    &&& 0 <= k < members.len()
    &&& members[k].id@ != leaving
    &&& forall|j: int|
        0 <= j < members.len() && (#[trigger] members[j]).id@ != leaving ==> !senior(
            members[j],
            members[k],
        )
}

/// Who becomes master once `leaving_id` goes: the senior member of the rest.
/// `None` where nobody is left and the room must close.
pub fn next_master(members: &[RoomMember], leaving_id: &str) -> (heir: Option<String>)
    ensures
        heir is None <==> (forall|k: int|
            0 <= k < members@.len() ==> (#[trigger] members@[k]).id@ == leaving_id@),
        heir matches Some(id) ==> exists|k: int|
            heir_at(members@, leaving_id@, k) && id@ == (#[trigger] members@[k]).id@,
{
    let mut best: Option<usize> = None;
    let mut k: usize = 0;
    while k < members.len()
        invariant
            k <= members@.len(),
            best is None ==> forall|j: int|
                0 <= j < k ==> (#[trigger] members@[j]).id@ == leaving_id@,
            best matches Some(b) ==> {
                &&& b < k
                &&& members@[b as int].id@ != leaving_id@
                &&& forall|j: int|
                    0 <= j < k && (#[trigger] members@[j]).id@ != leaving_id@ ==> !senior(
                        members@[j],
                        members@[b as int],
                    )
            },
        decreases members@.len() - k,
    {
        if !same_text(members[k].id.as_str(), leaving_id) {
            match best {
                None => {
                    proof {
                        crate::text::lemma_text_before_irreflexive(members@[k as int].id@);
                    }
                    best = Some(k);
                },
                Some(b) => {
                    let earlier: bool = members[k].joined_at < members[b].joined_at
                        || (members[k].joined_at == members[b].joined_at && comes_before(
                        members[k].id.as_str(),
                        members[b].id.as_str(),
                    ));
                    if earlier {
                        proof {
                            let new = members@[k as int];
                            let cur = members@[b as int];
                            crate::text::lemma_text_before_irreflexive(new.id@);
                            assert forall|j: int|
                                0 <= j < k + 1 && (#[trigger] members@[j]).id@
                                    != leaving_id@ implies !senior(members@[j], new) by {
                                if j < k && senior(members@[j], new) {
                                    if members@[j].joined_at == new.joined_at && new.joined_at
                                        == cur.joined_at {
                                        crate::text::lemma_text_before_transitive(
                                            members@[j].id@,
                                            new.id@,
                                            cur.id@,
                                        );
                                    }
                                    assert(senior(members@[j], cur));
                                }
                            }
                        }
                        best = Some(k);
                    }
                },
            }
        }
        k += 1;
    }
    match best {
        Some(b) => {
            assert(heir_at(members@, leaving_id@, b as int));
            Some(members[b].id.clone())
        },
        None => None,
    }
}

/// Succession is unambiguous: where ids differ, two members that may both become
/// master are the same member.
pub proof fn law_one_heir(members: Seq<RoomMember>, leaving: Seq<char>, a: int, b: int)
    requires
        heir_at(members, leaving, a),
        heir_at(members, leaving, b),
    ensures
        members[a].id@ == members[b].id@,
        members[a].joined_at == members[b].joined_at,
{
    assert(!senior(members[a], members[b]));
    assert(!senior(members[b], members[a]));
    crate::text::lemma_text_before_total(members[a].id@, members[b].id@);
}

/// Among the first `n` members, if one of them stays, there is one whom nobody is senior to.
proof fn lemma_some_heir(members: Seq<RoomMember>, leaving: Seq<char>, n: int) -> (best: int)
    requires
        0 <= n <= members.len(),
        exists|j: int| 0 <= j < n && (#[trigger] members[j]).id@ != leaving,
    ensures
        0 <= best < n,
        members[best].id@ != leaving,
        forall|j: int|
            0 <= j < n && (#[trigger] members[j]).id@ != leaving ==> !senior(
                members[j],
                members[best],
            ),
    decreases n,
{
    let last = n - 1;
    if exists|j: int| 0 <= j < last && (#[trigger] members[j]).id@ != leaving {
        let best = lemma_some_heir(members, leaving, last);
        let new = members[last];
        let cur = members[best];
        if new.id@ != leaving && senior(new, cur) {
            assert forall|j: int|
                0 <= j < n && (#[trigger] members[j]).id@ != leaving implies !senior(
                members[j],
                new,
            ) by {
                crate::text::lemma_text_before_irreflexive(new.id@);
                if j < last && senior(members[j], new) {
                    if members[j].joined_at == new.joined_at && new.joined_at == cur.joined_at {
                        crate::text::lemma_text_before_transitive(
                            members[j].id@,
                            new.id@,
                            cur.id@,
                        );
                    }
                    assert(senior(members[j], cur));
                }
            }
            last
        } else {
            best
        }
    } else {
        crate::text::lemma_text_before_irreflexive(members[last].id@);
        last
    }
}

/// The room stays open as long as anyone else is in it: someone who stays becomes master.
pub proof fn law_room_stays_open(members: Seq<RoomMember>, leaving: Seq<char>)
    requires
        exists|j: int| 0 <= j < members.len() && (#[trigger] members[j]).id@ != leaving,
    ensures
        exists|k: int| heir_at(members, leaving, k),
{
    let best = lemma_some_heir(members, leaving, members.len() as int);
    assert(heir_at(members, leaving, best));
}

/// The master is the one who is in the room the longest of those who stay, and of two who
/// came at once the one whose id comes first.
pub proof fn law_longest_stay_leads(members: Seq<RoomMember>, leaving: Seq<char>, k: int, j: int)
    requires
        heir_at(members, leaving, k),
        0 <= j < members.len(),
        members[j].id@ != leaving,
    ensures
        members[k].id@ != leaving,
        members[k].joined_at <= members[j].joined_at,
        members[k].joined_at == members[j].joined_at && members[k].id@ != members[j].id@
            ==> text_before(members[k].id@, members[j].id@),
{
    assert(!senior(members[j], members[k]));
    crate::text::lemma_text_before_total(members[k].id@, members[j].id@);
}

/// In either mode one event admits: acceptance in a room, the offer in a broadcast, and the
/// other one keeps the viewer waiting. Whoever is turned away or left alone is so in both.
pub proof fn law_one_event_admits(event: HandshakeEvent)
    ensures
        outcome_in(true, event) is ReadyWithoutOffer <==> event is Accepted,
        outcome_in(false, event) is ReadyWithOffer <==> event is Offer,
        !(outcome_in(true, event) is ReadyWithOffer),
        !(outcome_in(false, event) is ReadyWithoutOffer),
        outcome_in(true, event) is KeepWaiting <==> event is Offer,
        outcome_in(false, event) is KeepWaiting <==> event is Accepted,
        forall|room: bool| (#[trigger] outcome_in(room, event)) is Rejected <==> event is Rejected,
        forall|room: bool| (#[trigger] outcome_in(room, event)) is Gone <==> event is Gone,
{
}

/// Whoever is accepted gets an offer at once exactly where the viewer waits for one: where
/// acceptance alone does not admit.
pub proof fn law_offers_come_where_they_are_awaited(mode: SessionMode)
    ensures
        offers_on_accept(mode) <==> !(outcome_in(mode is Room, HandshakeEvent::Accepted)
            is ReadyWithoutOffer),
        offers_on_accept(mode) <==> outcome_in(mode is Room, HandshakeEvent::Offer)
            is ReadyWithOffer,
{
}

} // verus!
