//! Epochs, fences and reservations.

use godrinking::control_plane::{
    EpochFence, LinkId, OfferAttemptId, OperationKind, SessionActor, SessionEpoch, ShareEpoch,
};
use godrinking::types::MediaLifecycleState;

#[test]
fn stale_session_and_share_fences_are_discarded() {
    let mut actor = SessionActor::new();
    let first = actor.begin_session();
    let first_share = actor.begin_share();
    let first_fence = EpochFence {
        session: first,
        share: first_share,
        link: None,
    };
    actor.begin_session();
    assert!(!actor.accepts(first_fence));
    actor.discard("resource-ready", first_fence);
    assert_eq!(actor.discarded_events(), 1);
}

#[test]
fn current_fence_is_observationally_accepted() {
    let mut actor = SessionActor::new();
    let session = actor.begin_session();
    let share = actor.begin_share();
    let link = actor.begin_link();
    assert!(actor.accepts(EpochFence {
        session,
        share,
        link: Some(link),
    }));
}

#[test]
fn offer_attempts_are_unique_and_bound_to_their_exact_fence() {
    let mut actor = SessionActor::new();
    actor.begin_session();
    actor.begin_share();
    let link = actor.begin_link();
    let first = actor.begin_offer_attempt(link).expect("active link");
    let second = actor.begin_offer_attempt(link).expect("active link");

    assert_ne!(first.attempt, second.attempt);
    assert_ne!(first.attempt, OfferAttemptId(0));
    assert!(actor.accepts_offer(first));
    assert!(actor.accepts_offer(second));

    actor.retire_offer_attempt(first.attempt);
    assert!(!actor.accepts_offer(first));
    assert!(actor.accepts_offer(second));
}

#[test]
fn offer_completion_is_rejected_after_share_epoch_changes() {
    let mut actor = SessionActor::new();
    actor.begin_session();
    actor.begin_share();
    let link = actor.begin_link();
    let offer = actor.begin_offer_attempt(link).expect("active link");

    actor.begin_share();
    assert!(!actor.accepts_offer(offer));
}

#[test]
fn share_operation_is_reserved_after_share_activation() {
    let mut actor = SessionActor::new();
    actor.begin_session();
    let (share, operation) = actor.reserve_start_share();

    assert_eq!(operation.kind, OperationKind::StartShare);
    assert_eq!(operation.epoch.share, share);
    assert!(actor.accepts_operation(operation));
}

#[test]
fn operation_acceptance_requires_the_declared_kind() {
    let mut actor = SessionActor::new();
    actor.begin_session();
    let epoch = actor.fence(None);
    let operation = actor.reserve_operation_kind(epoch, OperationKind::UpdateSession);

    assert!(actor.accepts_operation_kind(operation, OperationKind::UpdateSession));
    assert!(!actor.accepts_operation_kind(operation, OperationKind::StartShare));
}

#[test]
fn stopping_share_does_not_advance_share_epoch() {
    let mut actor = SessionActor::new();
    actor.begin_session();
    let first = actor.begin_share();
    actor.end_share();
    assert_eq!(actor.share_epoch(), first);
    let (replacement, _) = actor.reserve_start_share();
    assert!(replacement.0 > first.0);
}

#[test]
fn a_retired_operation_is_never_accepted_again() {
    let mut actor = SessionActor::default();
    actor.begin_session();
    let epoch = actor.fence(None);
    let first = actor.reserve_operation(epoch);
    let second = actor.reserve_operation(epoch);
    assert_eq!(first.kind, OperationKind::Generic);
    assert_ne!(first.operation, second.operation);
    actor.retire_operation(first.operation);
    assert!(!actor.accepts_operation(first));
    assert!(actor.accepts_operation(second));
}

#[test]
fn invalidating_a_session_voids_everything_that_is_out() {
    let mut actor = SessionActor::new();
    actor.begin_session();
    actor.begin_share();
    let link = actor.begin_link();
    let offer = actor.begin_offer_attempt(link).expect("active link");
    let epoch = actor.fence(None);
    let operation = actor.reserve_operation_kind(epoch, OperationKind::StopSession);
    actor.invalidate_session();
    assert_eq!(actor.lifecycle(), MediaLifecycleState::Stopping);
    assert!(!actor.accepts(epoch));
    assert!(!actor.accepts_offer(offer));
    assert!(!actor.accepts_operation(operation));
    assert_eq!(actor.begin_offer_attempt(link), None);
}

#[test]
fn a_retired_link_gets_no_offers() {
    let mut actor = SessionActor::new();
    actor.begin_session();
    let link = actor.begin_link();
    actor.retire_link(link);
    assert!(!actor.accepts(actor.fence(Some(link))));
    assert_eq!(actor.begin_offer_attempt(link), None);
    assert_eq!(actor.begin_offer_attempt(LinkId(99)), None);
}

#[test]
fn discarded_events_are_logged_with_their_fence() {
    let mut actor = SessionActor::new();
    let fence = EpochFence {
        session: SessionEpoch(3),
        share: ShareEpoch(12),
        link: Some(LinkId(7)),
    };
    assert_eq!(
        actor.discard("peer-create", fence),
        "event=peer-create session=3 share=12 link=7"
    );
    let plain = EpochFence { link: None, ..fence };
    assert_eq!(
        actor.discard("room-offer", plain),
        "event=room-offer session=3 share=12 link=none"
    );
    assert_eq!(actor.discarded_events(), 2);
}

#[test]
fn links_live_until_they_are_retired_or_ended() {
    let mut actor = SessionActor::new();
    actor.begin_session();
    actor.begin_share();
    let first = actor.begin_link();
    let second = actor.begin_link();
    actor.retire_link(first);
    assert!(!actor.accepts(actor.fence(Some(first))));
    assert!(actor.accepts(actor.fence(Some(second))));
    // A new share keeps the links, under its own epoch.
    let earlier = actor.fence(Some(second));
    actor.reserve_start_share();
    assert!(!actor.accepts(earlier));
    assert!(actor.accepts(actor.fence(Some(second))));
    actor.end_share();
    assert!(!actor.accepts(actor.fence(Some(second))));
    assert!(actor.accepts(actor.fence(None)));
    let third = actor.begin_link();
    assert!(actor.accepts(actor.fence(Some(third))));
    actor.invalidate_session();
    assert!(!actor.accepts(actor.fence(Some(third))));
}

#[test]
fn operations_live_until_they_are_retired_or_their_session_ends() {
    let mut actor = SessionActor::new();
    actor.begin_session();
    let epoch = actor.fence(None);
    let kept = actor.reserve_operation_kind(epoch, OperationKind::UpdateSession);
    let retired = actor.reserve_operation(epoch);
    actor.retire_operation(retired.operation);
    actor.end_share();
    assert!(actor.accepts_operation(kept));
    assert!(!actor.accepts_operation(retired));
    actor.begin_session();
    assert!(!actor.accepts_operation(kept));
}
