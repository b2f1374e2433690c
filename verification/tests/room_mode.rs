//! The two kinds of session and who inherits a room.

use godrinking::room_mode::{
    auto_mint_on_accept, handshake_outcome, next_master, HandshakeEvent, HandshakeOutcome,
    RoomMember, SessionMode,
};

fn member(id: &str, joined_at: u64) -> RoomMember {
    RoomMember {
        id: id.into(),
        nickname: id.into(),
        joined_at,
    }
}

#[test]
fn crown_goes_to_the_next_person_who_joined() {
    let members = vec![member("a", 1), member("b", 2), member("c", 3)];
    assert_eq!(next_master(&members, "a").as_deref(), Some("b"));
    assert_eq!(next_master(&members, "b").as_deref(), Some("a"));
}

#[test]
fn last_member_leaving_closes_the_room() {
    let members = vec![member("solo", 1)];
    assert_eq!(next_master(&members, "solo"), None);
    assert_eq!(next_master(&[], "ghost"), None);
}

#[test]
fn tied_join_time_breaks_on_id() {
    let members = vec![member("zeta", 5), member("alpha", 5), member("mu", 5)];
    assert_eq!(next_master(&members, "zeta").as_deref(), Some("alpha"));
}

#[test]
fn sala_does_not_auto_mint_to_everyone() {
    assert!(!auto_mint_on_accept(SessionMode::Room));
    assert!(auto_mint_on_accept(SessionMode::Broadcast));
}

#[test]
fn sala_join_is_ready_after_accepted_without_an_offer() {
    assert_eq!(
        handshake_outcome("room", HandshakeEvent::Accepted),
        HandshakeOutcome::ReadyWithoutOffer
    );
    assert_eq!(
        handshake_outcome("broadcast", HandshakeEvent::Accepted),
        HandshakeOutcome::KeepWaiting
    );
    assert_eq!(
        handshake_outcome("broadcast", HandshakeEvent::Offer),
        HandshakeOutcome::ReadyWithOffer
    );
    assert_eq!(
        handshake_outcome("room", HandshakeEvent::Offer),
        HandshakeOutcome::KeepWaiting
    );
}

#[test]
fn the_heir_does_not_depend_on_the_order_of_the_list() {
    let forward = vec![member("a", 4), member("b", 2), member("c", 2)];
    let backward = vec![member("c", 2), member("b", 2), member("a", 4)];
    assert_eq!(next_master(&forward, "a"), next_master(&backward, "a"));
    assert_eq!(next_master(&forward, "a").as_deref(), Some("b"));
    assert_eq!(next_master(&forward, "b").as_deref(), Some("c"));
    assert_eq!(next_master(&forward, "nobody").as_deref(), Some("b"));
}
