//! Encoder control, the preview and the encoder worker.

use godrinking::pipeline::{
    encoder_bitrate, encoder_dimension, BitrateLimits, EncoderAction, EncoderBackend,
    EncoderCommand, EncoderControl, EncoderWorker, NativeFrame, PipelineState, PreviewDiagnostics,
    PreviewState, QualityPreset,
};

const SECOND: u64 = 1_000_000_000;

#[test]
fn probing_climbs_toward_target_when_path_is_clean() {
    let mut control = EncoderControl::new(20_000_000, 1_000_000);
    let now = 100 * SECOND;
    control.set_congestion_bitrate(4_000_000, now);
    assert_eq!(control.applied(), 4_000_000);
    // Fresh decrease: quiet period holds.
    assert_eq!(control.probe_candidate(now), None);
    // After quiet: +25% steps toward the target.
    let later = now + 10 * SECOND;
    assert_eq!(control.probe_candidate(later), Some(5_000_000));
    control.apply_probe(5_000_000);
    assert_eq!(control.probe_candidate(later), Some(6_250_000));
}

#[test]
fn probing_freezes_on_recent_loss_and_caps_at_target() {
    let mut control = EncoderControl::new(8_000_000, 1_000_000);
    let now = 100 * SECOND;
    control.set_congestion_bitrate(4_000_000, now);
    control.note_loss(20, now);
    let later = now + 4 * SECOND;
    // Quiet (3s) passed but loss window (5s) still holds.
    assert_eq!(control.probe_candidate(later), None);
    // Loss expired: probing resumes.
    let much_later = now + 30 * SECOND;
    assert_eq!(control.probe_candidate(much_later), Some(5_000_000));
    // Never above the target.
    control.set_congestion_bitrate(7_900_000, now);
    control.note_loss(0, now);
    assert_eq!(control.probe_candidate(much_later), Some(8_000_000));
    control.apply_probe(8_000_000);
    assert_eq!(control.probe_candidate(much_later), None);
}

#[test]
fn congestion_respects_floor_and_floor_raise_reasserts() {
    let mut control = EncoderControl::new(20_000_000, 1_000_000);
    control.set_congestion_bitrate(100_000, 0);
    assert_eq!(control.applied(), 1_000_000);
    assert_eq!(control.congestion_bitrate(), Some(1_000_000));
    control.set_floor(5_000_000);
    assert_eq!(control.floor(), 5_000_000);
    assert_eq!(control.take_bitrate(), Some(5_000_000));
}

#[test]
fn congestion_never_exceeds_even_a_low_target() {
    let mut control = EncoderControl::new(100_000, 50_000);
    control.set_congestion_bitrate(200_000, 0);
    assert_eq!(control.applied(), 100_000);
    assert_eq!(control.congestion_bitrate(), Some(100_000));
    assert_eq!(control.target(), 100_000);
    control.set_congestion_bitrate(10_000, 0);
    assert_eq!(control.applied(), 50_000);
    // A target below the floor wins.
    control.set_target(20_000);
    control.set_congestion_bitrate(60_000, 0);
    assert_eq!(control.applied(), 20_000);
}

#[test]
fn encoder_control_coalesces_feedback_bursts_without_saturation() {
    let mut control = EncoderControl::new(8_000_000, 1_000_000);
    for bitrate in 250_000..260_000 {
        control.request_keyframe();
        control.set_bitrate(bitrate);
    }
    assert!(control.take_keyframe());
    assert!(!control.take_keyframe());
    assert_eq!(control.take_bitrate(), Some(259_999));
    assert_eq!(control.take_bitrate(), None);
    control.request_stop();
    assert!(control.stop_requested());
}

fn frame(storage: &[u8], timestamp_micros: u64, sequence: u64) -> NativeFrame {
    NativeFrame {
        storage: storage.to_vec(),
        timestamp_micros,
        sequence,
        width: 2,
        height: 1,
        generation: 1,
    }
}

#[test]
fn pipeline_publishes_only_the_latest_derived_preview() {
    let mut preview = PreviewState::new();
    preview.begin_session();
    let generation = preview.generation;
    assert_eq!(generation, 1);
    assert!(preview.publish(generation, frame(&[9, 8, 7], 22, 4)));
    let event = preview.latest_preview().expect("published");
    assert_eq!(preview.latest_preview().as_ref(), Some(&event));
    assert_eq!(event.sequence, 4);
    assert_eq!(event.encoding, "rgb8_thumbnail");
    assert_eq!(event.payload, vec![9, 8, 7]);
}

#[test]
fn pipeline_drops_frames_after_the_preview_session_changes() {
    let mut preview = PreviewState::new();
    preview.begin_session();
    let generation = preview.generation;
    preview.begin_session();
    assert!(!preview.publish(generation, frame(&[1, 2, 3], 30, 5)));
    assert!(preview.latest.is_none());
}

#[test]
fn a_failure_is_kept_and_ends_the_pipeline() {
    let mut state = PipelineState::new();
    assert!(!state.is_failed());
    state.fail("first".into());
    assert!(state.is_failed());
    assert_eq!(state.failure().as_deref(), Some("first"));
    let mut diagnostics = PreviewDiagnostics::new();
    diagnostics.record_error("late".into());
    assert_eq!(diagnostics.error.as_deref(), Some("late"));
    diagnostics.reset();
    assert_eq!(diagnostics.error, None);
}

#[test]
fn the_preset_is_scaled_by_the_picture() {
    let preset = QualityPreset {
        bitrate: 8_000_000,
        max_width: 1920,
        max_height: 1080,
    };
    let limits = BitrateLimits {
        min: 250_000,
        max: 50_000_000,
    };
    assert_eq!(encoder_bitrate(1920, 1080, preset, None, limits), 8_000_000);
    assert_eq!(encoder_bitrate(960, 1080, preset, None, limits), 4_000_000);
    // Never above the preset, never below a quarter of it.
    assert_eq!(encoder_bitrate(3840, 2160, preset, None, limits), 8_000_000);
    assert_eq!(encoder_bitrate(2, 2, preset, None, limits), 2_000_000);
    // An explicit value is used as it is, within its limits.
    assert_eq!(encoder_bitrate(2, 2, preset, Some(60_000_000), limits), 50_000_000);
    assert_eq!(encoder_bitrate(2, 2, preset, Some(0), limits), 2_000_000);
    assert_eq!(encoder_dimension(0), 2);
    assert_eq!(encoder_dimension(1081), 1080);
}

#[test]
fn the_encoder_opens_with_the_first_frame_of_its_session() {
    let preset = QualityPreset {
        bitrate: 8_000_000,
        max_width: 1920,
        max_height: 1080,
    };
    let limits = BitrateLimits {
        min: 250_000,
        max: 50_000_000,
    };
    let mut control = EncoderControl::new(1_000_000, 250_000);
    let mut worker = EncoderWorker::new(EncoderBackend::VideoToolbox, 3, 60, preset, None, limits);
    let stale = EncoderCommand::Video {
        generation: 2,
        width: 1920,
        height: 1080,
    };
    assert_eq!(worker.on_command(&mut control, stale), EncoderAction::Skip);
    let first = EncoderCommand::Video {
        generation: 3,
        width: 1920,
        height: 1081,
    };
    let action = worker.on_command(&mut control, first);
    assert_eq!(
        action,
        EncoderAction::Open {
            width: 1920,
            height: 1080,
            bitrate: 8_000_000,
            fps: 60
        }
    );
    assert_eq!(control.target(), 8_000_000);
    assert_eq!(control.applied(), 8_000_000);
    control.request_stop();
    let tick = worker.begin_round(&mut control, false);
    assert!(tick.leave);
}

#[test]
fn a_fresh_encoder_owes_a_keyframe_and_a_failed_one_ends_the_worker() {
    let preset = QualityPreset {
        bitrate: 8_000_000,
        max_width: 1920,
        max_height: 1080,
    };
    let limits = BitrateLimits {
        min: 250_000,
        max: 50_000_000,
    };
    let mut control = EncoderControl::new(1_000_000, 250_000);
    let mut state = PipelineState::new();
    let mut worker = EncoderWorker::new(EncoderBackend::OpenH264, 1, 30, preset, None, limits);
    assert!(worker.on_opened(&mut control, &mut state, Some("no memory")));
    assert!(state.failed);
    assert_eq!(
        state.failure.as_deref(),
        Some("OpenH264 initialization failed: no memory")
    );
    assert!(!worker.encoder_open);
    let mut working = PipelineState::new();
    assert!(!worker.on_opened(&mut control, &mut working, None));
    assert!(worker.encoder_open && !working.failed);
    assert!(control.take_keyframe());
    worker.on_encode_failed(&mut control);
    assert!(control.take_keyframe());
    assert!(!worker.on_quiet(false).leave);
    let last = worker.on_quiet(true);
    assert!(last.leave && !last.flush);
}
