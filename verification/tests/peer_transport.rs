//! Descriptions, codecs, fragments and the life of one peer.

use godrinking::access_unit::EncodedAccessUnit;
use godrinking::codecs::{
    av1_codec, h264_codec, h264_fmtp_requires_packetization_mode_1, hevc_codec, ice_servers,
    opus_codec, sample_profile_accepted, session_codec, H264_BASELINE_FMTP,
    H264_BASELINE_PROFILE_LEVEL_ID, H264_PAYLOAD_TYPE,
};
use godrinking::peer_signal::{
    local_signal, remote_answer, remote_offer, AnswerRefusal, PeerSignal, PeerSignalKind,
};
use godrinking::peer_transport::{
    close_result, closing_status, finish_worker, map_peer_state, on_connection_state,
    operation_result, peer_shutdown, pump_failure, readable_status, receive_response,
    starting_status, CloseEnd, ConnectionState, OperationEnd, PeerSetup, PeerWorkerEnd, SetupStage,
};
use godrinking::pipeline::EncoderControl;
use godrinking::rtp::{
    duration_from_90khz, fragment_h264_fu_a, reassemble_h264_fu_a, timestamp_from_90khz,
};
use godrinking::sample_pump::{EstimateTrace, Feedback, PumpAction, SamplePump};
use godrinking::sdp::{
    rejected_video_section, require_candidates, rewrite_mdns_candidate_addresses,
    rewrite_mdns_candidate_line,
};
use godrinking::types::{JoinMode, PeerTransportState, VideoCodec};
use std::time::Duration;

#[test]
fn rewrites_webkit_mdns_host_candidates_to_loopback() {
    let sdp = "v=0\r\na=candidate:1 1 UDP 2122260223 8f7a9c2e-1b2c-4d5e-8f90-abcdef123456.local 54321 typ host\r\na=candidate:2 1 UDP 2122260222 192.168.1.20 4000 typ host\r\n";
    let rewritten = rewrite_mdns_candidate_addresses(sdp, "127.0.0.1");
    assert!(rewritten.contains("127.0.0.1 54321 typ host"));
    assert!(rewritten.contains("192.168.1.20 4000 typ host"));
    assert!(!rewritten.contains(".local"));
}

#[test]
fn rejected_video_section_detects_port_zero() {
    let accepted = "v=0\r\no=- 0 0 IN IP4 127.0.0.1\r\nm=video 9 UDP/TLS/RTP/SAVPF 103\r\na=rtpmap:103 H265/90000\r\n";
    assert_eq!(rejected_video_section(accepted), None);
    let rejected = "v=0\r\no=- 0 0 IN IP4 127.0.0.1\r\nm=video 0 UDP/TLS/RTP/SAVPF 103\r\n";
    assert!(rejected_video_section(rejected).is_some());
}

#[test]
fn sample_gate_accepts_only_the_session_profile() {
    // Baseline sessions (the default): every 42* SPS passes, anything
    // else (incident: 640c2a) is dropped so the browser never gets an
    // undecodable stream.
    for profile in ["42e02a", "42c02a", "42c01e", "42c028", "42C02A"] {
        assert!(
            sample_profile_accepted(Some(profile), false),
            "Baseline session must accept {profile}"
        );
    }
    for profile in ["640c2a", "64002a", "640c29", "4d002a", "", "42e02"] {
        assert!(
            !sample_profile_accepted(Some(profile), false),
            "Baseline session must drop {profile:?}"
        );
    }
    // H.264 High sessions additionally accept High SPS (Baseline still
    // decodes everywhere, so it stays accepted).
    assert!(sample_profile_accepted(Some("640c2a"), true));
    assert!(sample_profile_accepted(Some("42e02a"), true));
    assert!(!sample_profile_accepted(Some("4d002a"), true));
    // No SPS parsed yet: let it through (keyframe wait still applies).
    assert!(sample_profile_accepted(None, false));
    assert!(sample_profile_accepted(None, true));
}

#[test]
fn h264_codec_advertises_low_latency_feedback() {
    let codec = h264_codec("42e02a");
    assert_eq!(codec.mime_type, "video/H264");
    assert_eq!(codec.clock_rate, 90_000);
    assert_eq!(codec.payload_type, 102);
    assert_eq!(
        codec.sdp_fmtp_line,
        "level-asymmetry-allowed=1;packetization-mode=1;profile-level-id=42e02a"
    );
    assert!(codec
        .rtcp_feedback
        .iter()
        .any(|feedback| feedback.typ == "nack" && feedback.parameter == "pli"));
    assert!(codec
        .rtcp_feedback
        .iter()
        .any(|feedback| feedback.typ == "ccm" && feedback.parameter == "fir"));
}

#[test]
fn h264_sdp_is_the_single_baseline_contract() {
    // ONE payload type for every H.264 session; the fmtp line is the
    // centralized baseline constant (4.2 covers 1080p60; 3.1 would not).
    let codec = h264_codec(H264_BASELINE_PROFILE_LEVEL_ID);
    assert_eq!(codec.payload_type, H264_PAYLOAD_TYPE);
    assert_eq!(codec.payload_type, 102);
    assert_eq!(codec.sdp_fmtp_line, H264_BASELINE_FMTP);
    assert_eq!(
        codec.sdp_fmtp_line,
        "level-asymmetry-allowed=1;packetization-mode=1;profile-level-id=42e02a"
    );
    assert!(h264_fmtp_requires_packetization_mode_1(&codec.sdp_fmtp_line));
    assert!(!h264_fmtp_requires_packetization_mode_1("packetization-mode=0"));
}

#[test]
fn peer_states_map_to_serializable_media_states() {
    assert_eq!(
        map_peer_state(ConnectionState::Connecting),
        PeerTransportState::Connecting
    );
    assert_eq!(
        map_peer_state(ConnectionState::Connected),
        PeerTransportState::Connected
    );
    assert_eq!(
        map_peer_state(ConnectionState::Failed),
        PeerTransportState::Failed
    );
    assert_eq!(
        map_peer_state(ConnectionState::Closed),
        PeerTransportState::Closed
    );
}

fn nanos(duration: Duration) -> u64 {
    duration.as_nanos() as u64
}

#[test]
fn sample_duration_uses_timestamp_delta_and_wraps_rtp_clock() {
    let fallback = nanos(Duration::from_millis(33));
    assert_eq!(
        duration_from_90khz(Some(90_000), 93_000, fallback),
        nanos(Duration::from_nanos(3_000 * 1_000_000_000 / 90_000))
    );
    assert_eq!(
        duration_from_90khz(Some(u32::MAX as u64 - 900), 600, fallback),
        nanos(Duration::from_nanos(1501 * 1_000_000_000 / 90_000))
    );
    assert_eq!(duration_from_90khz(None, 90_000, fallback), fallback);
}

#[test]
fn frame_durations_follow_the_60fps_tick_grid_and_wrap() {
    // 1/60s == 1500 ticks @90kHz; three monotonic frames stay on the grid.
    let frame = nanos(Duration::from_nanos(1_500 * 1_000_000_000 / 90_000));
    let fallback = nanos(Duration::from_millis(33));
    let t0 = 1_000_000u64;
    assert_eq!(duration_from_90khz(Some(t0), t0 + 1_500, fallback), frame);
    assert_eq!(
        duration_from_90khz(Some(t0 + 1_500), t0 + 3_000, fallback),
        frame
    );
    // Sequence/timestamp stay monotonic across the u32 wrap.
    assert_eq!(
        duration_from_90khz(Some(u32::MAX as u64 - 750), 750, fallback),
        nanos(Duration::from_nanos(1_501 * 1_000_000_000 / 90_000))
    );
    // Zero deltas and gaps over 10s (>900_000 ticks) fall back to the
    // configured frame duration instead of emitting 0 / huge samples.
    assert_eq!(duration_from_90khz(Some(t0), t0, fallback), fallback);
    assert_eq!(
        duration_from_90khz(Some(t0), t0 + 900_001, fallback),
        fallback
    );
    // Sender timestamps are overflow-checked and monotonic in 90kHz.
    let a = timestamp_from_90khz(t0).expect("a converts");
    let b = timestamp_from_90khz(t0 + 1_500).expect("b converts");
    assert!(b > a);
    let round_trip = b - a;
    assert!(
        round_trip.abs_diff(frame) <= 1_000,
        "60fps tick-grid round-trip out of tolerance: got {round_trip:?}, want {frame:?}"
    );
    assert_eq!(timestamp_from_90khz(u64::MAX), None);
}

#[test]
fn fu_a_fragmentation_round_trips_the_original_nal() {
    // A realistic IDR NAL fragments and reassembles byte-identical, so a
    // viewer behind a small MTU decodes the same access unit the
    // encoder emitted.
    let mut nal = vec![0x65u8];
    nal.extend((0..5_000u32).map(|value| (value % 251) as u8));
    let fragments = fragment_h264_fu_a(&nal, 1_200);
    assert!(fragments.len() > 1);
    assert!(fragments.iter().all(|packet| packet.len() <= 1_202));
    // S set only on the first fragment, E only on the last.
    assert_eq!(fragments[0][1] & 0x80, 0x80);
    assert_eq!(fragments[0][1] & 0x40, 0x00);
    let last = fragments.len() - 1;
    assert_eq!(fragments[last][1] & 0x80, 0x00);
    assert_eq!(fragments[last][1] & 0x40, 0x40);
    assert_eq!(reassemble_h264_fu_a(&fragments), Some(nal));
    // Small NALs pass through unfragmented and still round-trip.
    let small = vec![0x41, 0x9a, 0x22, 0x11];
    let single = fragment_h264_fu_a(&small, 1_200);
    assert_eq!(single, vec![small.clone()]);
    assert_eq!(reassemble_h264_fu_a(&single), Some(small));
    // Corrupt framing (missing E marker) is rejected, not half-decoded.
    let mut truncated = fragments.clone();
    truncated.pop();
    assert_ne!(
        reassemble_h264_fu_a(&truncated),
        reassemble_h264_fu_a(&fragments)
    );
}

#[test]
fn response_wait_is_bounded() {
    assert_eq!(
        receive_response::<()>(None, "test request"),
        Err("test request timed out".into())
    );
    assert_eq!(receive_response(Some(Ok(3)), "test request"), Ok(3));
    assert_eq!(
        receive_response::<()>(Some(Err("refused".into())), "test request"),
        Err("refused".into())
    );
}

#[test]
fn shutdown_cancels_an_in_flight_signaling_operation() {
    assert_eq!(
        operation_result::<()>(OperationEnd::Cancelled, "test signaling"),
        Err("test signaling operation cancelled during shutdown".into())
    );
}

#[test]
fn initialization_timeout_is_bounded() {
    assert_eq!(
        operation_result::<()>(OperationEnd::TimedOut, "test initialization"),
        Err("test initialization operation timed out".into())
    );
    assert_eq!(operation_result(OperationEnd::Done(1), "x"), Ok(1));
    assert_eq!(
        operation_result::<()>(OperationEnd::Failed("bad".into()), "x"),
        Err("bad".into())
    );
}

#[test]
fn close_timeout_is_bounded() {
    assert_eq!(
        close_result(CloseEnd::TimedOut, "test close"),
        Err("test close timed out".into())
    );
    assert_eq!(
        close_result(CloseEnd::Failed("gone".into()), "test close"),
        Err("test close failed: gone".into())
    );
    assert_eq!(close_result(CloseEnd::Closed, "test close"), Ok(()));
}

#[test]
fn worker_completion_reports_pending_after_a_deadline() {
    assert_eq!(
        finish_worker(PeerWorkerEnd::Running),
        Err("peer worker cleanup pending after deadline".into())
    );
    assert_eq!(
        finish_worker(PeerWorkerEnd::Poisoned),
        Err("peer completion state is poisoned".into())
    );
    assert_eq!(
        finish_worker(PeerWorkerEnd::WaitFailed),
        Err("peer completion wait failed".into())
    );
    assert_eq!(
        finish_worker(PeerWorkerEnd::Panicked),
        Err("peer worker panicked".into())
    );
    assert_eq!(finish_worker(PeerWorkerEnd::Joined), Ok(()));
}

#[test]
fn other_lines_of_a_description_stay_as_they_are() {
    let line = "a=candidate:1 1 UDP 7 abc.local 54321 typ host";
    assert_eq!(
        rewrite_mdns_candidate_line(line, "10.0.0.5"),
        "a=candidate:1 1 UDP 7 10.0.0.5 54321 typ host"
    );
    for kept in [
        "v=0",
        "a=mid:0",
        "a=candidate:2 1 UDP 7 192.168.1.20 4000 typ host",
        "m=video 9 UDP/TLS/RTP/SAVPF 102",
    ] {
        assert_eq!(rewrite_mdns_candidate_line(kept, "10.0.0.5"), kept);
    }
}

#[test]
fn descriptions_without_candidates_are_refused() {
    assert!(require_candidates("v=0\r\na=candidate:1 1 UDP 7 h 9 typ host\r\n", "offer").is_ok());
    assert_eq!(
        require_candidates("v=0\r\n", "offer"),
        Err("offer gathered no ICE candidates".into())
    );
    assert_eq!(
        local_signal(PeerSignalKind::Answer, None),
        Err("local answer is unavailable".into())
    );
    let sdp = "a=candidate:1 1 UDP 7 h 9 typ host";
    let signal = local_signal(PeerSignalKind::Offer, Some(sdp.into())).expect("candidates");
    assert_eq!(signal.sdp, sdp);
    assert_eq!(signal.id, None);
}

#[test]
fn answers_are_checked_before_they_are_applied() {
    let signal = |kind, sdp: &str| PeerSignal {
        kind,
        sdp: sdp.into(),
        id: None,
    };
    assert_eq!(
        remote_offer(signal(PeerSignalKind::Answer, "v=0")),
        Err("accept_offer requires an offer signal".into())
    );
    assert_eq!(
        remote_offer(signal(PeerSignalKind::Offer, "v=0")),
        Ok("v=0".into())
    );
    let refused = remote_answer(&signal(PeerSignalKind::Offer, "v=0"));
    assert_eq!(refused, Err(AnswerRefusal::NotAnAnswer));
    assert_eq!(
        refused.unwrap_err().message(),
        "set_answer requires an answer signal"
    );
    let rejected = remote_answer(&signal(PeerSignalKind::Answer, "v=0\r\nm=video 0 UDP 103\r\n"));
    assert_eq!(
        rejected,
        Err(AnswerRefusal::VideoRejected("m=video 0 UDP 103".into()))
    );
    assert_eq!(
        rejected.unwrap_err().message(),
        "viewer rejected the video stream: browser has no decoder for this codec"
    );
    let applied = remote_answer(&signal(
        PeerSignalKind::Answer,
        "m=video 9 UDP 103\na=candidate:1 1 UDP 7 x.local 9 typ host",
    ))
    .expect("accepted");
    assert!(applied.contains("127.0.0.1 9 typ host"));
}

#[test]
fn sessions_register_their_codec() {
    assert_eq!(session_codec(VideoCodec::H264), h264_codec("42e02a"));
    assert_eq!(session_codec(VideoCodec::H264High), h264_codec("64002a"));
    assert_eq!(session_codec(VideoCodec::Av1), av1_codec());
    assert_eq!(session_codec(VideoCodec::Hevc), hevc_codec());
    let opus = opus_codec();
    assert_eq!((opus.clock_rate, opus.channels), (48_000, 2));
    assert!(ice_servers(JoinMode::Lan).is_empty());
    assert!(!ice_servers(JoinMode::Direct).is_empty());
    for mode in [JoinMode::Lan, JoinMode::Direct, JoinMode::Stunar] {
        assert!(ice_servers(mode).iter().all(|url| !url.starts_with("turn")));
    }
    assert!(sample_profile_accepted(VideoCodec::H264.h264_profile_level_id(), false));
}

#[test]
fn a_setup_that_fails_closes_what_it_created() {
    let mut setup = PeerSetup::new(VideoCodec::H264, true);
    for expected in [
        SetupStage::RegisterAudioCodec,
        SetupStage::RegisterInterceptors,
        SetupStage::CreatePeer,
        SetupStage::AddVideoTrack,
        SetupStage::AddAudioTrack,
        SetupStage::Announce,
        SetupStage::Serving,
    ] {
        let next = setup.on_step(OperationEnd::Done(()));
        assert!(!next.close_peer);
        assert_eq!(setup.stage, expected);
    }
    let mut early = PeerSetup::new(VideoCodec::Av1, false);
    let next = early.on_step(OperationEnd::Failed("no".into()));
    assert!(!next.close_peer);
    assert_eq!(
        next.ready,
        Some(Err("video/AV1 codec registration failed: no".into()))
    );
    let mut late = PeerSetup::new(VideoCodec::H264, false);
    for _ in 0..3 {
        late.on_step(OperationEnd::Done(()));
    }
    assert_eq!(late.stage, SetupStage::AddVideoTrack);
    let next = late.on_step(OperationEnd::TimedOut);
    assert!(next.close_peer);
    assert_eq!(
        next.ready,
        Some(Err("WebRTC track initialization operation timed out".into()))
    );
    assert_eq!(late.stage, SetupStage::Ended);
}

#[test]
fn peers_show_where_they_stand() {
    assert_eq!(starting_status().state, PeerTransportState::Starting);
    assert_eq!(readable_status(None).state, PeerTransportState::Failed);
    let mut control = EncoderControl::new(8_000_000, 1_000_000);
    let status = on_connection_state(&mut control, ConnectionState::Connected);
    assert_eq!(status.state, PeerTransportState::Connected);
    assert!(control.take_keyframe());
    on_connection_state(&mut control, ConnectionState::Connecting);
    assert!(!control.take_keyframe());
    assert_eq!(closing_status(CloseEnd::Closed).detail, "WebRTC peer closed.");
    assert_eq!(
        closing_status(CloseEnd::TimedOut).detail,
        "WebRTC peer teardown failed: WebRTC peer close timed out"
    );
    assert_eq!(
        pump_failure(None).detail,
        "Encoded sample timestamp overflowed."
    );
    assert_eq!(
        pump_failure(Some("pipe".into())).detail,
        "WebRTC H.264 sample write failed: pipe"
    );
    let running = peer_shutdown(PeerWorkerEnd::Running, true);
    assert!(!running.quiesced);
    assert_eq!(running.pending, vec!["peer initialization worker".to_string()]);
    let panicked = peer_shutdown(PeerWorkerEnd::Panicked, false);
    assert_eq!(panicked.errors, vec!["peer worker panicked".to_string()]);
    let joined = peer_shutdown(PeerWorkerEnd::Joined, false);
    assert!(joined.quiesced && joined.pending.is_empty() && joined.errors.is_empty());
}

fn unit(timestamp_90khz: u64, keyframe: bool, profile: Option<&str>) -> EncodedAccessUnit {
    EncodedAccessUnit {
        data: vec![1],
        timestamp_90khz,
        keyframe,
        profile_level_id: profile.map(str::to_owned),
    }
}

#[test]
fn a_stream_opens_with_a_keyframe() {
    let mut control = EncoderControl::new(8_000_000, 1_000_000);
    let mut pump = SamplePump::new(false, 16_666_666);
    assert_eq!(
        pump.on_unit(&mut control, &unit(0, true, None), false),
        PumpAction::NotConnected
    );
    // The thirtieth unit in a row without a keyframe asks for one.
    for _ in 0..29 {
        assert_eq!(
            pump.on_unit(&mut control, &unit(1, false, None), true),
            PumpAction::NeedsKeyframe { notice: false }
        );
        assert!(!control.keyframe_requested);
    }
    pump.on_unit(&mut control, &unit(1, false, None), true);
    assert!(control.take_keyframe());
    assert_eq!(
        pump.on_unit(&mut control, &unit(90_000, true, Some("42e02a")), true),
        PumpAction::Write {
            nanos: 1_000_000_000,
            duration: 16_666_666,
            packet_timestamp: 90_000,
            starts: true
        }
    );
    assert!(pump.on_written());
    assert!(!pump.on_written());
    assert_eq!(
        pump.on_unit(&mut control, &unit(93_000, false, Some("640c2a")), true),
        PumpAction::WrongProfile { notice: true }
    );
    assert_eq!(
        pump.on_unit(&mut control, &unit(93_000, false, None), true),
        PumpAction::Write {
            nanos: 1_033_333_333,
            duration: 33_333_333,
            packet_timestamp: 93_000,
            starts: false
        }
    );
    assert_eq!(
        pump.on_unit(&mut control, &unit(u64::MAX, false, None), true),
        PumpAction::TimeOverflow
    );
    assert!(control.stop_requested());
}

#[test]
fn feedback_reaches_the_encoder() {
    let mut control = EncoderControl::new(8_000_000, 1_000_000);
    let mut trace = EstimateTrace::new();
    assert_eq!(trace.on_feedback(&mut control, &Feedback::KeyframeNeeded, 0), None);
    assert!(control.take_keyframe());
    trace.on_feedback(&mut control, &Feedback::Estimate(Some(4_000_000)), 1);
    assert_eq!(control.applied(), 4_000_000);
    trace.on_feedback(&mut control, &Feedback::Losses(vec![0, 20]), 2);
    assert_eq!(control.probe_candidate(4_000_000_000), None);
}
