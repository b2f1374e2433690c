use godrinking::access_unit::EncodedAccessUnit;
use godrinking::mf_encoder::{
    after_drain, after_feed, bitrate_options, codec_options, first_encoder, frame_bytes,
    frame_timestamp, pack_pair, push_units, sample_duration, sample_time, self_test_frame,
    self_test_verdict, CodecOption, Drain, DrainNext, DrainStep, FeedEvent, FeedStep, MfSetup,
    MfStage, OutputEvent, DRAIN_RETRIES, OUTPUT_BUFFER_MAX, OUTPUT_BUFFER_START,
};
use godrinking::pipeline::{EncoderControl, NativeFrame};
use godrinking::queue::AccessUnitQueue;

fn unit(data: &[u8], keyframe: bool) -> EncodedAccessUnit {
    EncodedAccessUnit {
        data: data.to_vec(),
        keyframe,
        timestamp_90khz: 0,
        profile_level_id: None,
    }
}

fn frame(width: u32, height: u32, bytes: usize) -> NativeFrame {
    NativeFrame {
        storage: vec![9; bytes],
        timestamp_micros: 0,
        sequence: 1,
        width,
        height,
        generation: 1,
    }
}

#[test]
fn an_encoder_is_set_up_step_by_step() {
    let mut setup = MfSetup::new(2, 2).expect("large enough");
    let mut stages = vec![setup.stage];
    while setup.stage != MfStage::SelfTest {
        assert_eq!(setup.on_step(Ok(())), None);
        stages.push(setup.stage);
    }
    assert_eq!(
        stages,
        vec![
            MfStage::Startup,
            MfStage::OpenEncoder,
            MfStage::DescribeNv12,
            MfStage::InputNv12,
            MfStage::DescribeOutput,
            MfStage::OutputBaseline,
            MfStage::BeginStream,
            MfStage::SelfTest,
        ]
    );
    assert!(setup.use_nv12);
    assert_eq!(
        MfSetup::new(1, 2).unwrap_err(),
        "MF encoder frame is too small"
    );
}

#[test]
fn an_encoder_without_nv12_gets_rgb() {
    let mut setup = MfSetup::new(64, 64).expect("large enough");
    setup.on_step(Ok(()));
    setup.on_step(Ok(()));
    setup.on_step(Ok(()));
    assert_eq!(setup.on_step(Err("no NV12".into())), None);
    assert_eq!(setup.stage, MfStage::DescribeRgb32);
    assert_eq!(setup.on_step(Ok(())), None);
    assert_eq!(setup.stage, MfStage::InputRgb32);
    assert!(!setup.use_nv12);
    let failure = setup.on_step(Err("no RGB".into())).expect("a failure");
    assert!(failure.contains("no RGB"));
    assert_eq!(setup.stage, MfStage::Failed);
}

#[test]
fn only_a_decodable_self_test_makes_the_encoder_ready() {
    assert_eq!(
        self_test_verdict(0, &Vec::new()).unwrap_err(),
        "MF encoder self-test produced no output"
    );
    assert!(self_test_verdict(1, &Vec::new()).is_err());
    let mut complete = unit(
        &[
            0, 0, 0, 1, 0x67, 0x42, 0xe0, 0x2a, 0, 0, 0, 1, 0x68, 0xce, 0, 0, 0, 1, 0x65, 0xb8,
        ],
        true,
    );
    complete.profile_level_id = Some("42e02a".into());
    assert_eq!(self_test_verdict(1, &vec![complete]), Ok(()));
}

#[test]
fn options_ask_for_a_constrained_baseline_stream() {
    let options = codec_options(4_000_000, 60);
    assert_eq!(options[0], CodecOption::RateControlCbr);
    assert_eq!(options[1], CodecOption::MeanBitrate(4_000_000));
    assert_eq!(options[3], CodecOption::GopSize(60));
    assert!(options.contains(&CodecOption::BFrames(0)));
    assert!(options.contains(&CodecOption::Cabac(0)));
    assert!(codec_options(1, 0).contains(&CodecOption::GopSize(1)));
    assert_eq!(pack_pair(1, 2), 0x1_0000_0002);
}

#[test]
fn self_test_frames_are_grey() {
    let rgb = self_test_frame(false, 2, 2).expect("a frame");
    assert_eq!(rgb.len(), 16);
    assert!(rgb.iter().all(|byte| *byte == rgb[0]));
    assert_eq!(self_test_frame(true, 2, 2).expect("a frame").len(), 6);
    assert_eq!(
        self_test_frame(true, 3, 2).unwrap_err(),
        "MF self-test conversion failed"
    );
}

#[test]
fn times_are_given_in_the_units_of_the_encoder() {
    assert_eq!(frame_timestamp(1_000_000), 90_000);
    assert_eq!(frame_timestamp(u64::MAX), u64::MAX / 100);
    assert_eq!(sample_time(5), 50);
    assert_eq!(sample_duration(60), 166_666);
    assert_eq!(sample_duration(0), 10_000_000);
}

#[test]
fn frames_of_another_size_are_refused() {
    let setup = MfSetup::new(2, 2).expect("large enough");
    assert_eq!(frame_bytes(&setup, &frame(2, 2, 16)).expect("bytes").len(), 6);
    let wrong = frame_bytes(&setup, &frame(4, 2, 32)).unwrap_err();
    assert!(wrong.starts_with("MF encoder frame size changed (4x2"));
    assert!(frame_bytes(&setup, &frame(2, 2, 3)).is_err());
    let rgb = MfSetup {
        use_nv12: false,
        ..setup
    };
    assert_eq!(frame_bytes(&rgb, &frame(2, 2, 20)), Ok(vec![9; 16]));
}

#[test]
fn the_output_buffer_grows_up_to_its_limit() {
    let mut drain = Drain::new(OUTPUT_BUFFER_START);
    assert_eq!(drain.on_output(OutputEvent::BufferTooSmall), DrainStep::Again);
    assert_eq!(drain.buffer_size, OUTPUT_BUFFER_START * 2);
    assert_eq!(drain.on_output(OutputEvent::BufferTooSmall), DrainStep::Again);
    assert_eq!(drain.buffer_size, OUTPUT_BUFFER_MAX);
    assert_eq!(
        drain.on_output(OutputEvent::BufferTooSmall),
        DrainStep::Fail("MF encoder output exceeds buffer cap".into())
    );
    assert_eq!(
        drain.on_output(OutputEvent::Sample(vec![1, 2])),
        DrainStep::Again
    );
    assert_eq!(drain.units, vec![vec![1, 2]]);
    assert_eq!(drain.on_output(OutputEvent::NeedsInput), DrainStep::Stop);
}

#[test]
fn a_lagging_encoder_is_drained_again() {
    assert_eq!(after_drain(1, true), DrainNext::Done);
    assert_eq!(after_drain(1, false), DrainNext::Retry);
    assert_eq!(after_drain(DRAIN_RETRIES, false), DrainNext::LastTry);
    assert_eq!(after_drain(DRAIN_RETRIES + 1, false), DrainNext::Done);
}

#[test]
fn dropped_units_ask_for_a_keyframe() {
    let mut queue = AccessUnitQueue::bounded(1);
    let mut control = EncoderControl::new(1, 1);
    push_units(&mut queue, &mut control, &vec![unit(&[1], true)]);
    assert!(!control.keyframe_requested);
    push_units(&mut queue, &mut control, &vec![unit(&[2], false)]);
    assert!(control.keyframe_requested);
}

#[test]
fn a_frame_is_fed_twice_at_most() {
    assert_eq!(after_feed(false, FeedEvent::Accepted), FeedStep::Done);
    assert_eq!(
        after_feed(false, FeedEvent::NotAccepting("full".into())),
        FeedStep::DrainAndRetry
    );
    assert_eq!(
        after_feed(true, FeedEvent::NotAccepting("full".into())),
        FeedStep::Fail("full".into())
    );
    assert_eq!(
        after_feed(false, FeedEvent::Failed("lost".into())),
        FeedStep::Fail("lost".into())
    );
}

#[test]
fn the_first_encoder_is_taken() {
    assert_eq!(first_encoder(2, true), Ok(()));
    assert_eq!(
        first_encoder(0, false),
        Err("no hardware H.264 MFT found".to_string())
    );
    assert_eq!(
        first_encoder(1, false),
        Err("empty hardware MFT entry".to_string())
    );
    assert_eq!(
        bitrate_options(5_000_000),
        vec![
            CodecOption::MeanBitrate(5_000_000),
            CodecOption::MaxBitrate(5_000_000)
        ]
    );
}

#[test]
fn a_self_test_makes_the_encoder_ready_or_not() {
    let mut good = MfSetup::new(2, 2).expect("large enough");
    while good.stage != MfStage::SelfTest {
        good.on_step(Ok(()));
    }
    let mut bad = good;
    let mut key = unit(&[1], true);
    key.profile_level_id = Some("42e02a".into());
    assert_eq!(good.on_self_test(1, &vec![key]), None);
    assert_eq!(good.stage, MfStage::Ready);
    assert_eq!(
        bad.on_self_test(0, &Vec::new()).as_deref(),
        Some("MF encoder self-test produced no output")
    );
    assert_eq!(bad.stage, MfStage::Failed);
}
