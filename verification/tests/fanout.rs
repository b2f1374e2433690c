//! One encoder, many viewers.

use godrinking::access_unit::EncodedAccessUnit;
use godrinking::fanout::{
    fanout_shutdown, AudioQueue, MediaFanout, WorkerEnd, AUDIO_QUEUE, VIDEO_QUEUE_CAPACITY,
};
use godrinking::pipeline::EncoderControl;
use godrinking::process_tap::EncodedAudioPacket;
use godrinking::queue::{AccessUnitPushResult, AccessUnitQueue};

fn unit(sequence: u8, keyframe: bool) -> EncodedAccessUnit {
    EncodedAccessUnit {
        data: vec![sequence],
        timestamp_90khz: u64::from(sequence) * 3000,
        keyframe,
        profile_level_id: None,
    }
}

#[test]
fn per_viewer_queue_stays_at_sixteen() {
    assert_eq!(VIDEO_QUEUE_CAPACITY, 16);
}

#[test]
fn overflow_forces_an_idr_without_touching_other_viewers() {
    // One full (16) and one healthy per-viewer queue behind the same fanout.
    let mut fanout = MediaFanout::start(false);
    let mut full = AccessUnitQueue::bounded(VIDEO_QUEUE_CAPACITY);
    for sequence in 0..VIDEO_QUEUE_CAPACITY {
        assert_eq!(
            full.try_push(unit(sequence as u8, false)),
            AccessUnitPushResult::Enqueued
        );
    }
    fanout.adopt("slow", full);
    fanout.adopt("fast", AccessUnitQueue::bounded(VIDEO_QUEUE_CAPACITY));
    let mut control = Some(EncoderControl::new(8_000_000, 2_000_000));
    // A full queue drops its partial GOP and forces an IDR for the affected
    // link; the healthy viewer keeps every unit.
    fanout.push_video(&mut control, &unit(200, false));
    assert!(
        control.as_mut().expect("control").take_keyframe(),
        "overflow must force an IDR"
    );
    // The healthy queue still delivers the unit; the overflowed one waits
    // for the next keyframe.
    assert_eq!(fanout.recv_video("fast"), Some(unit(200, false)));
    // The IDR heals the overflowed queue: no new flag is raised, and the
    // slow viewer receives decodable data again.
    fanout.push_video(&mut control, &unit(201, true));
    assert!(!control.as_mut().expect("control").take_keyframe());
    assert_eq!(fanout.recv_video("slow"), Some(unit(201, true)));
    // Steady state raises no flags.
    fanout.push_video(&mut control, &unit(202, false));
    assert!(!control.as_mut().expect("control").take_keyframe());
}

#[test]
fn subscribe_requests_a_keyframe_for_the_joining_viewer() {
    let mut fanout = MediaFanout::start(false);
    let mut control = None;
    // No flag before the control is attached.
    fanout.subscribe(&mut control, "early");
    control = Some(EncoderControl::new(8_000_000, 2_000_000));
    // (Re)join forces an IDR so the newcomer gets SPS/PPS immediately.
    fanout.subscribe(&mut control, "late");
    assert!(control.as_mut().expect("control").take_keyframe());
    let status = fanout_shutdown(None, WorkerEnd::Joined);
    assert!(status.quiesced, "fanout shutdown status: {status:?}");
}

#[test]
fn shutdown_and_join_proves_fanout_worker_quiescence() {
    let status = fanout_shutdown(None, WorkerEnd::Joined);
    assert!(status.quiesced, "fanout shutdown status: {status:?}");
    assert!(status.pending.is_empty());
    assert!(status.errors.is_empty());
}

#[test]
fn a_fanout_that_does_not_end_says_so() {
    let running = fanout_shutdown(None, WorkerEnd::Running);
    assert!(!running.quiesced);
    assert_eq!(running.pending, vec!["fanout worker".to_string()]);
    let panicked = fanout_shutdown(Some("lock".into()), WorkerEnd::Panicked);
    assert!(!panicked.quiesced);
    assert_eq!(
        panicked.errors,
        vec!["lock".to_string(), "fanout worker panicked".to_string()]
    );
    assert!(fanout_shutdown(None, WorkerEnd::Absent).quiesced);
}

#[test]
fn audio_reaches_every_viewer_until_its_queue_is_full() {
    let packet = |value: u8| EncodedAudioPacket {
        data: vec![value],
        duration_micros: 20_000,
    };
    let mut fanout = MediaFanout::start(true);
    let mut control = None;
    fanout.subscribe(&mut control, "ada");
    fanout.subscribe(&mut control, "bob");
    for value in 0..20u8 {
        fanout.push_audio(&packet(value));
    }
    for value in 0..AUDIO_QUEUE as u8 {
        assert_eq!(fanout.recv_audio("ada").expect("queued").data, vec![value]);
    }
    assert_eq!(fanout.recv_audio("ada"), None);
    assert_eq!(fanout.recv_audio("bob").expect("queued").data, vec![0]);
    fanout.unsubscribe("bob");
    assert_eq!(fanout.recv_audio("bob"), None);
    let mut queue = AudioQueue::new();
    assert!(queue.try_send(packet(1)));
    assert_eq!(queue.try_recv().expect("queued").data, vec![1]);
    assert_eq!(queue.try_recv(), None);
}

#[test]
fn a_keyframe_reaches_everyone() {
    let mut fanout = MediaFanout::start(false);
    let mut control = Some(EncoderControl::new(8_000_000, 2_000_000));
    for id in ["ada", "bob", "cyd"] {
        fanout.subscribe(&mut control, id);
    }
    fanout.push_video(&mut control, &unit(1, true));
    for id in ["ada", "bob", "cyd"] {
        assert_eq!(fanout.recv_video(id), Some(unit(1, true)));
    }
    assert_eq!(fanout.recv_video("dan"), None);
}

#[test]
fn a_turn_serves_every_viewer_and_ends_with_its_source() {
    let packet = EncodedAudioPacket {
        data: vec![7],
        duration_micros: 20_000,
    };
    let mut fanout = MediaFanout::start(true);
    let mut control = None;
    fanout.subscribe(&mut control, "ada");
    let mut video = AccessUnitQueue::bounded(4);
    let mut audio = AudioQueue::new();
    assert_eq!(video.try_push(unit(1, true)), AccessUnitPushResult::Enqueued);
    assert!(audio.try_send(packet));
    assert!(fanout.turn(&mut control, &mut video, &mut audio, false));
    assert_eq!(fanout.recv_video("ada"), Some(unit(1, true)));
    assert_eq!(fanout.recv_audio("ada").expect("queued").data, vec![7]);
    assert!(fanout.turn(&mut control, &mut video, &mut audio, false));
    assert!(!fanout.turn(&mut control, &mut video, &mut audio, true));
    video.close();
    assert!(!fanout.turn(&mut control, &mut video, &mut audio, false));
}
