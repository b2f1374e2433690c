//! The hardware H.264 encoder of Media Foundation: opening it, proving that viewers can
//! decode it, feeding it and draining it.

use vstd::prelude::*;
use crate::access_unit::{has_profile, is_baseline_profile, AccessUnit, EncodedAccessUnit};
use crate::nv12::{bgra_to_nv12, nv12_convertible, nv12_image};
use crate::pipeline::{EncoderControl, NativeFrame};
use crate::queue::{AccessUnitPushResult, AccessUnitQueue, QueueModel};
use crate::text::{copy_opt_text, decimal, opt_text, push_decimal, push_text};

verus! {

/// The first size of the output buffer, in bytes.
pub const OUTPUT_BUFFER_START: u32 = 4_194_304;

/// The output buffer grows up to this.
pub const OUTPUT_BUFFER_MAX: u32 = 16_777_216;

/// How often a frame's output is looked for before a last time.
pub const DRAIN_RETRIES: u32 = 12;

/// The H.264 profile that is asked for: Constrained Baseline.
pub const H264_BASELINE_PROFILE: u32 = 66;

/// What the setup of an encoder does next.
#[derive(Clone, Copy, Debug, PartialEq, Eq, Structural)]
pub enum MfStage {
    /// Start Media Foundation.
    Startup,
    /// Open the first hardware encoder.
    OpenEncoder,
    /// Describe an NV12 input.
    DescribeNv12,
    /// Set NV12 as the input.
    InputNv12,
    /// Describe an RGB32 input.
    DescribeRgb32,
    /// Set RGB32 as the input.
    InputRgb32,
    /// Describe a Baseline H.264 output.
    DescribeOutput,
    /// Set Baseline H.264 as the output.
    OutputBaseline,
    /// Set the options and tell the encoder that a stream begins.
    BeginStream,
    /// Encode a grey frame.
    SelfTest,
    Ready,
    Failed,
}

/// The setup of an encoder.
#[derive(Clone, Copy, Debug, PartialEq, Eq, Structural)]
pub struct MfSetup {
    pub stage: MfStage,
    pub width: u32,
    pub height: u32,
    /// Frames are handed to the encoder as NV12.
    pub use_nv12: bool,
}

/// The step behind a successful one. The self test is judged by its output.
pub open spec fn next_stage(stage: MfStage) -> MfStage {
    match stage {
        MfStage::Startup => MfStage::OpenEncoder,
        MfStage::OpenEncoder => MfStage::DescribeNv12,
        MfStage::DescribeNv12 => MfStage::InputNv12,
        MfStage::InputNv12 => MfStage::DescribeOutput,
        MfStage::DescribeRgb32 => MfStage::InputRgb32,
        MfStage::InputRgb32 => MfStage::DescribeOutput,
        MfStage::DescribeOutput => MfStage::OutputBaseline,
        MfStage::OutputBaseline => MfStage::BeginStream,
        MfStage::BeginStream => MfStage::SelfTest,
        MfStage::SelfTest | MfStage::Ready | MfStage::Failed => stage,
    }
}

/// The message of a step that failed.
pub open spec fn stage_failure(stage: MfStage, error: Seq<char>) -> Seq<char> {
    match stage {
        MfStage::OpenEncoder => "MF hardware MFT open failed: "@ + error,
        MfStage::InputRgb32 => "MF RGB32 input rejected: "@ + error,
        MfStage::OutputBaseline => "MF Baseline output type rejected (no High fallback): "@ + error,
        _ => error,
    }
}

/// Why no encoder can be opened, among `count` of them, the first of which may be an
/// empty entry.
pub fn first_encoder(count: u32, first_present: bool) -> (result: Result<(), String>)
    ensures
        result is Ok <==> count > 0 && first_present,
        result matches Err(message) ==> message@ == if count == 0 {
            "no hardware H.264 MFT found"@
        } else {
            "empty hardware MFT entry"@
        },
{
    if count == 0 {
        return Err("no hardware H.264 MFT found".to_owned());
    }
    if !first_present {
        return Err("empty hardware MFT entry".to_owned());
    }
    Ok(())
}

/// A setup behind the outcome of its current step, and the message where it failed.
pub open spec fn setup_moved(setup: MfSetup, error: Option<Seq<char>>) -> (
    MfSetup,
    Option<Seq<char>>,
) {
    match error {
        None => (MfSetup { stage: next_stage(setup.stage), ..setup }, None),
        Some(text) => if setup.stage == MfStage::InputNv12 {
            (MfSetup { stage: MfStage::DescribeRgb32, use_nv12: false, ..setup }, None)
        } else {
            (
                MfSetup { stage: MfStage::Failed, ..setup },
                Some(stage_failure(setup.stage, text)),
            )
        },
    }
}

impl MfSetup {
    /// A setup for frames of the given size.
    pub fn new(width: u32, height: u32) -> (setup: Result<Self, String>)
        ensures
            setup is Ok <==> width >= 2 && height >= 2,
            setup matches Ok(s) ==> s == (MfSetup {
                stage: MfStage::Startup,
                width,
                height,
                use_nv12: true,
            }),
            setup matches Err(message) ==> message@ == "MF encoder frame is too small"@,
    {
        if width < 2 || height < 2 {
            return Err("MF encoder frame is too small".to_owned());
        }
        Ok(MfSetup { stage: MfStage::Startup, width, height, use_nv12: true })
    }

    /// Takes the outcome of the current step. An encoder that refuses NV12 is tried with
    /// RGB32; any other failure ends the setup, so that software encodes instead. There
    /// is no other output than Baseline: viewers could not decode it. A self test that
    /// ran is judged by [`MfSetup::on_self_test`].
    pub fn on_step(&mut self, result: Result<(), String>) -> (failure: Option<String>)
        requires
            old(self).stage != MfStage::Ready,
            old(self).stage != MfStage::Failed,
            old(self).stage == MfStage::SelfTest ==> result is Err,
        ensures
            final(self).width == old(self).width,
            final(self).height == old(self).height,
            (*final(self), opt_text(failure)) == setup_moved(
                *old(self),
                match result {
                    Ok(_) => None,
                    Err(error) => Some(error@),
                },
            ),
            match result {
                Ok(_) => failure is None && final(self).stage == next_stage(old(self).stage)
                    && final(self).use_nv12 == old(self).use_nv12,
                Err(error) => if old(self).stage == MfStage::InputNv12 {
                    failure is None && final(self).stage == MfStage::DescribeRgb32
                        && !final(self).use_nv12
                } else {
                    opt_text(failure) == Some(stage_failure(old(self).stage, error@))
                        && final(self).stage == MfStage::Failed && final(self).use_nv12
                        == old(self).use_nv12
                },
            },
    {
        let stage = self.stage;
        match result {
            Ok(_) => {
                self.stage = match stage {
                    MfStage::Startup => MfStage::OpenEncoder,
                    MfStage::OpenEncoder => MfStage::DescribeNv12,
                    MfStage::DescribeNv12 => MfStage::InputNv12,
                    MfStage::DescribeRgb32 => MfStage::InputRgb32,
                    MfStage::InputNv12 | MfStage::InputRgb32 => MfStage::DescribeOutput,
                    MfStage::DescribeOutput => MfStage::OutputBaseline,
                    MfStage::OutputBaseline => MfStage::BeginStream,
                    MfStage::BeginStream => MfStage::SelfTest,
                    MfStage::SelfTest | MfStage::Ready | MfStage::Failed => stage,
                };
                None
            },
            Err(error) => {
                if stage == MfStage::InputNv12 {
                    self.stage = MfStage::DescribeRgb32;
                    self.use_nv12 = false;
                    return None;
                }
                self.stage = MfStage::Failed;
                let mut message = match stage {
                    MfStage::OpenEncoder => "MF hardware MFT open failed: ".to_owned(),
                    MfStage::InputRgb32 => "MF RGB32 input rejected: ".to_owned(),
                    MfStage::OutputBaseline => {
                        "MF Baseline output type rejected (no High fallback): ".to_owned()
                    },
                    _ => {
                        return Some(error);
                    },
                };
                push_text(&mut message, error.as_str());
                Some(message)
            },
        }
    }
}

/// Two numbers in one attribute: the first in the upper half.
pub open spec fn packed(upper: u32, lower: u32) -> u64 {
    (upper * 0x1_0000_0000 + lower) as u64
}

/// Packs two numbers into one attribute, such as a frame size or a frame rate.
pub fn pack_pair(upper: u32, lower: u32) -> (value: u64)
    ensures
        value == packed(upper, lower),
        value == upper * 0x1_0000_0000 + lower,
{
    upper as u64 * 0x1_0000_0000 + lower as u64
}

/// An option of the encoder.
#[derive(Clone, Copy, Debug, PartialEq, Eq, Structural)]
pub enum CodecOption {
    /// Constant bitrate.
    RateControlCbr,
    MeanBitrate(u32),
    MaxBitrate(u32),
    /// Frames from keyframe to keyframe.
    GopSize(u32),
    BFrames(u32),
    Cabac(u32),
    LowLatency(u32),
}

/// The options of a Constrained Baseline stream: constant bitrate, a keyframe a second,
/// no B frames, CAVLC, low delay.
pub open spec fn baseline_options(bitrate: u32, fps: u32) -> Seq<CodecOption> {
    seq![
        CodecOption::RateControlCbr,
        CodecOption::MeanBitrate(bitrate),
        CodecOption::MaxBitrate(bitrate),
        CodecOption::GopSize(
            if fps > 1 {
                fps
            } else {
                1
            },
        ),
        CodecOption::BFrames(0),
        CodecOption::Cabac(0),
        CodecOption::LowLatency(1),
    ]
}

/// The options that are set on an encoder.
pub fn codec_options(bitrate: u32, fps: u32) -> (options: Vec<CodecOption>)
    ensures
        options@ == baseline_options(bitrate, fps),
{
    let gop: u32 = if fps > 1 {
        fps
    } else {
        1
    };
    let mut options: Vec<CodecOption> = Vec::new();
    options.push(CodecOption::RateControlCbr);
    options.push(CodecOption::MeanBitrate(bitrate));
    options.push(CodecOption::MaxBitrate(bitrate));
    options.push(CodecOption::GopSize(gop));
    options.push(CodecOption::BFrames(0));
    options.push(CodecOption::Cabac(0));
    options.push(CodecOption::LowLatency(1));
    assert(options@ =~= baseline_options(bitrate, fps));
    options
}

/// The options that follow a new bitrate.
pub fn bitrate_options(bitrate: u32) -> (options: Vec<CodecOption>)
    ensures
        options@ == seq![CodecOption::MeanBitrate(bitrate), CodecOption::MaxBitrate(bitrate)],
{
    let mut options: Vec<CodecOption> = Vec::new();
    options.push(CodecOption::MeanBitrate(bitrate));
    options.push(CodecOption::MaxBitrate(bitrate));
    assert(options@ =~= seq![CodecOption::MeanBitrate(bitrate), CodecOption::MaxBitrate(bitrate)]);
    options
}

/// A grey image of the given number of bytes.
pub open spec fn grey(len: int) -> Seq<u8> {
    Seq::new(len as nat, |i: int| 128u8)
}

fn grey_image(len: usize) -> (image: Vec<u8>)
    ensures
        image@ == grey(len as int),
{
    let mut image: Vec<u8> = Vec::new();
    let mut i: usize = 0;
    while i < len
        invariant
            i <= len,
            image@ == grey(i as int),
        decreases len - i,
    {
        image.push(128);
        i += 1;
        assert(image@ =~= grey(i as int));
    }
    image
}

/// The frame of the self test, in the input format of the encoder.
pub fn self_test_frame(use_nv12: bool, width: u32, height: u32) -> (frame: Result<Vec<u8>, String>)
    requires
        width * height * 4 <= usize::MAX,
    ensures
        frame is Ok <==> !use_nv12 || nv12_convertible(
            width * height * 4,
            width as int,
            height as int,
        ),
        frame matches Ok(bytes) ==> bytes@ == if use_nv12 {
            nv12_image(grey(width * height * 4), width as int, height as int)
        } else {
            grey(width * height * 4)
        },
        frame matches Err(message) ==> message@ == "MF self-test conversion failed"@,
{
    assert(0 <= width * height <= width * height * 4) by (nonlinear_arith);
    assert(width * 1 <= width * height || height == 0) by (nonlinear_arith);
    let pixels: u64 = mul_sizes(width, height);
    let len: usize = (pixels * 4) as usize;
    let image = grey_image(len);
    if !use_nv12 {
        return Ok(image);
    }
    match bgra_to_nv12(image.as_slice(), width, height) {
        Some(bytes) => Ok(bytes),
        None => Err("MF self-test conversion failed".to_owned()),
    }
}

fn mul_sizes(width: u32, height: u32) -> (pixels: u64)
    ensures
        pixels == width * height,
{
    assert(width * height <= 0xffff_ffff * 0xffff_ffff) by (nonlinear_arith)
        requires
            width <= 0xffff_ffff,
            height <= 0xffff_ffff,
    ;
    width as u64 * height as u64
}

/// The profile of the first unit that declares one.
pub open spec fn first_profile(units: Seq<AccessUnit>) -> Option<Seq<char>>
    decreases units.len(),
{
    if units.len() == 0 {
        None
    } else {
        match first_profile(units.drop_last()) {
            Some(id) => Some(id),
            None => units.last().profile_level_id,
        }
    }
}

/// Some unit is a keyframe.
pub open spec fn some_keyframe(units: Seq<AccessUnit>) -> bool {
    exists|i: int| 0 <= i < units.len() && (#[trigger] units[i]).keyframe
}

/// What a viewer could decode: Baseline, with a keyframe.
pub open spec fn is_decodable(units: Seq<AccessUnit>) -> bool {
    some_keyframe(units) && first_profile(units) is Some && has_profile(
        first_profile(units)->0,
        '4',
        '2',
    )
}

/// An optional text as it is shown in messages.
pub open spec fn shown(text: Option<Seq<char>>) -> Seq<char> {
    match text {
        None => "None"@,
        Some(t) => "Some(\""@ + t + "\")"@,
    }
}

/// Why the self test failed.
pub open spec fn self_test_failure(samples: nat, units: Seq<AccessUnit>) -> Option<Seq<char>> {
    if samples == 0 {
        Some("MF encoder self-test produced no output"@)
    } else if is_decodable(units) {
        None
    } else {
        Some(
            "MF encoder self-test failed decodability check (profile="@ + shown(
                first_profile(units),
            ) + " want Baseline, keyframe="@ + (if some_keyframe(units) {
                "true"@
            } else {
                "false"@
            }) + ")"@,
        )
    }
}

/// Judges the self test: `samples` of raw output that convert to the given units. Output
/// alone is not enough: without a Baseline SPS and a keyframe every viewer would see
/// nothing.
pub fn self_test_verdict(samples: usize, units: &Vec<EncodedAccessUnit>) -> (verdict: Result<
    (),
    String,
>)
    ensures
        match self_test_failure(samples as nat, crate::queue::unit_views(units@)) {
            None => verdict is Ok,
            Some(message) => verdict is Err && verdict->Err_0@ == message,
        },
{
    if samples == 0 {
        return Err("MF encoder self-test produced no output".to_owned());
    }
    let ghost views = crate::queue::unit_views(units@);
    let mut saw_keyframe: bool = false;
    let mut profile: Option<String> = None;
    let mut i: usize = 0;
    assert(views.take(0) =~= Seq::<AccessUnit>::empty());
    while i < units.len()
        invariant
            i <= units@.len(),
            views == crate::queue::unit_views(units@),
            saw_keyframe == some_keyframe(views.take(i as int)),
            opt_text(profile) == first_profile(views.take(i as int)),
        decreases units@.len() - i,
    {
        let unit = &units[i];
        let ghost wider = views.take(i as int + 1);
        assert(wider.drop_last() =~= views.take(i as int));
        assert(wider.last() == unit@);
        proof {
            if some_keyframe(views.take(i as int)) {
                let k = choose|k: int|
                    0 <= k < i && (#[trigger] views.take(i as int)[k]).keyframe;
                assert(wider[k].keyframe);
            }
            if some_keyframe(wider) && !unit.keyframe {
                let k = choose|k: int| 0 <= k < wider.len() && (#[trigger] wider[k]).keyframe;
                assert(views.take(i as int)[k].keyframe);
            }
            if unit.keyframe {
                assert(wider[i as int].keyframe);
            }
        }
        saw_keyframe = saw_keyframe || unit.keyframe;
        if profile.is_none() {
            profile = copy_opt_text(&unit.profile_level_id);
        }
        i += 1;
    }
    assert(views.take(i as int) =~= views);
    let profile_ok: bool = match &profile {
        Some(id) => is_baseline_profile(id.as_str()),
        None => false,
    };
    if profile_ok && saw_keyframe {
        return Ok(());
    }
    let mut message = "MF encoder self-test failed decodability check (profile=".to_owned();
    match &profile {
        None => {
            push_text(&mut message, "None");
        },
        Some(id) => {
            push_text(&mut message, "Some(\"");
            push_text(&mut message, id.as_str());
            push_text(&mut message, "\")");
        },
    }
    push_text(&mut message, " want Baseline, keyframe=");
    if saw_keyframe {
        push_text(&mut message, "true");
    } else {
        push_text(&mut message, "false");
    }
    push_text(&mut message, ")");
    assert(message@ =~= self_test_failure(samples as nat, views)->0);
    Err(message)
}

impl MfSetup {
    /// Ends the setup with the judgement of the self test.
    pub fn on_self_test(&mut self, samples: usize, units: &Vec<EncodedAccessUnit>) -> (failure: Option<
        String,
    >)
        requires
            old(self).stage == MfStage::SelfTest,
        ensures
            opt_text(failure) == self_test_failure(
                samples as nat,
                crate::queue::unit_views(units@),
            ),
            *final(self) == (MfSetup {
                stage: if failure is None {
                    MfStage::Ready
                } else {
                    MfStage::Failed
                },
                ..*old(self)
            }),
    {
        match self_test_verdict(samples, units) {
            Ok(_) => {
                self.stage = MfStage::Ready;
                None
            },
            Err(message) => {
                self.stage = MfStage::Failed;
                Some(message)
            },
        }
    }
}

/// A time in microseconds on the 90 kHz clock.
pub open spec fn frame_ticks(micros: u64) -> int {
    (if micros * 9 <= u64::MAX {
        micros * 9
    } else {
        u64::MAX as int
    }) / 100
}

/// The time stamp of a frame on the 90 kHz clock.
pub fn frame_timestamp(micros: u64) -> (timestamp: u64)
    ensures
        timestamp == frame_ticks(micros),
        timestamp == (if micros * 9 <= u64::MAX {
            micros * 9
        } else {
            u64::MAX as int
        }) / 100,
{
    match micros.checked_mul(9) {
        Some(ninefold) => ninefold / 100,
        None => u64::MAX / 100,
    }
}

/// How a size is shown in messages.
pub open spec fn size_text(width: u32, height: u32) -> Seq<char> {
    decimal(width as nat) + "x"@ + decimal(height as nat)
}

/// Why a frame cannot be fed.
pub open spec fn frame_refusal(setup: MfSetup, frame: NativeFrame) -> Option<Seq<char>> {
    if frame.width != setup.width || frame.height != setup.height {
        Some(
            "MF encoder frame size changed ("@ + size_text(frame.width, frame.height) + " vs "@
                + size_text(setup.width, setup.height) + ")"@,
        )
    } else if setup.use_nv12 {
        if nv12_convertible(frame.storage@.len() as int, frame.width as int, frame.height as int) {
            None
        } else {
            Some("MF NV12 conversion failed"@)
        }
    } else if frame.storage@.len() < frame.width * frame.height * 4 {
        Some("MF frame storage is undersized"@)
    } else {
        None
    }
}

/// What the encoder is fed for a frame.
pub open spec fn fed_bytes(setup: MfSetup, frame: NativeFrame) -> Seq<u8> {
    if setup.use_nv12 {
        nv12_image(frame.storage@, frame.width as int, frame.height as int)
    } else {
        frame.storage@.take(frame.width * frame.height * 4)
    }
}

/// The bytes of a frame in the input format of the encoder.
pub fn frame_bytes(setup: &MfSetup, frame: &NativeFrame) -> (bytes: Result<Vec<u8>, String>)
    ensures
        bytes is Ok ==> bytes->Ok_0@ == fed_bytes(*setup, *frame),
        match frame_refusal(*setup, *frame) {
            Some(message) => bytes is Err && bytes->Err_0@ == message,
            None => bytes is Ok && bytes->Ok_0@ == if setup.use_nv12 {
                nv12_image(frame.storage@, frame.width as int, frame.height as int)
            } else {
                frame.storage@.take(frame.width * frame.height * 4)
            },
        },
{
    if frame.width != setup.width || frame.height != setup.height {
        let mut message = "MF encoder frame size changed (".to_owned();
        push_decimal(&mut message, frame.width as u64);
        push_text(&mut message, "x");
        push_decimal(&mut message, frame.height as u64);
        push_text(&mut message, " vs ");
        push_decimal(&mut message, setup.width as u64);
        push_text(&mut message, "x");
        push_decimal(&mut message, setup.height as u64);
        push_text(&mut message, ")");
        assert(message@ =~= frame_refusal(*setup, *frame)->0);
        return Err(message);
    }
    if setup.use_nv12 {
        return match bgra_to_nv12(frame.storage.as_slice(), frame.width, frame.height) {
            Some(bytes) => Ok(bytes),
            None => Err("MF NV12 conversion failed".to_owned()),
        };
    }
    let pixels: u64 = mul_sizes(frame.width, frame.height);
    let len: usize = frame.storage.len();
    if pixels > u64::MAX / 4 || (len as u64) < pixels * 4 {
        return Err("MF frame storage is undersized".to_owned());
    }
    let expected: usize = (pixels * 4) as usize;
    let bytes = crate::bytes::copy_bytes(
        vstd::slice::slice_subrange(frame.storage.as_slice(), 0, expected),
    );
    assert(bytes@ =~= frame.storage@.take(expected as int));
    Ok(bytes)
}

/// Some of the units is dropped by a queue until the next keyframe.
pub open spec fn some_dropped(queue: QueueModel, units: Seq<AccessUnit>) -> bool
    decreases units.len(),
{
    if units.len() == 0 {
        false
    } else {
        some_dropped(queue, units.drop_last()) || queue.pushed_all(units.drop_last()).pushed(
            units.last(),
        ).1 == AccessUnitPushResult::DroppedUntilKeyframe
    }
}

/// Queues the units of one frame. Where one is dropped, a keyframe is asked for.
pub fn push_units(
    queue: &mut AccessUnitQueue,
    control: &mut EncoderControl,
    units: &Vec<EncodedAccessUnit>,
)
    requires
        old(queue)@.wf(),
    ensures
        final(queue)@.wf(),
        final(queue)@ == old(queue)@.pushed_all(crate::queue::unit_views(units@)),
        *final(control) == if some_dropped(old(queue)@, crate::queue::unit_views(units@)) {
            EncoderControl { keyframe_requested: true, ..*old(control) }
        } else {
            *old(control)
        },
{
    let ghost views = crate::queue::unit_views(units@);
    let ghost start = queue@;
    let mut i: usize = 0;
    assert(views.take(0) =~= Seq::<AccessUnit>::empty());
    while i < units.len()
        invariant
            i <= units@.len(),
            views == crate::queue::unit_views(units@),
            start == old(queue)@,
            queue@.wf(),
            queue@ == start.pushed_all(views.take(i as int)),
            *control == if some_dropped(start, views.take(i as int)) {
                EncoderControl { keyframe_requested: true, ..*old(control) }
            } else {
                *old(control)
            },
        decreases units@.len() - i,
    {
        let ghost wider = views.take(i as int + 1);
        assert(wider.drop_last() =~= views.take(i as int));
        assert(wider.last() == units@[i as int]@);
        let result = queue.try_push(units[i].clone());
        if result == AccessUnitPushResult::DroppedUntilKeyframe {
            control.request_keyframe();
        }
        i += 1;
    }
    assert(views.take(i as int) =~= views);
}

/// What the encoder said to a frame.
#[derive(Debug, PartialEq, Eq)]
pub enum FeedEvent {
    Accepted,
    /// It takes no frame before its output is fetched.
    NotAccepting(String),
    Failed(String),
}

/// What follows.
#[derive(Debug, PartialEq, Eq)]
pub enum FeedStep {
    Done,
    /// Drain the output and feed the frame once more.
    DrainAndRetry,
    Fail(String),
}

/// What follows an attempt to feed a frame: it is fed twice at most.
pub fn after_feed(retried: bool, event: FeedEvent) -> (step: FeedStep)
    ensures
        match event {
            FeedEvent::Accepted => step == FeedStep::Done,
            FeedEvent::NotAccepting(error) => step == if retried {
                FeedStep::Fail(error)
            } else {
                FeedStep::DrainAndRetry
            },
            FeedEvent::Failed(error) => step == FeedStep::Fail(error),
        },
{
    match event {
        FeedEvent::Accepted => FeedStep::Done,
        FeedEvent::NotAccepting(error) => if retried {
            FeedStep::Fail(error)
        } else {
            FeedStep::DrainAndRetry
        },
        FeedEvent::Failed(error) => FeedStep::Fail(error),
    }
}

/// The size of an output buffer that was too small.
pub open spec fn grown(size: u32) -> u32 {
    if size * 2 < OUTPUT_BUFFER_MAX {
        (size * 2) as u32
    } else {
        OUTPUT_BUFFER_MAX
    }
}

/// What the encoder said when it was asked for output.
#[derive(Debug, PartialEq, Eq)]
pub enum OutputEvent {
    Sample(Vec<u8>),
    /// It handed out nothing.
    Nothing,
    NeedsInput,
    StreamChanged,
    BufferTooSmall,
    Failed,
}

/// What follows.
#[derive(Debug, PartialEq, Eq)]
pub enum DrainStep {
    /// Ask again.
    Again,
    Stop,
    Fail(String),
}

/// The output of the encoder while it is drained.
#[derive(Debug, PartialEq, Eq)]
pub struct Drain {
    pub buffer_size: u32,
    pub units: Vec<Vec<u8>>,
}

impl Drain {
    /// A drain that has collected nothing.
    pub fn new(buffer_size: u32) -> (drain: Self)
        ensures
            drain.buffer_size == buffer_size,
            drain.units@.len() == 0,
    {
        Drain { buffer_size, units: Vec::new() }
    }

    /// Takes what the encoder said. A buffer that is too small doubles, up to its
    /// limit.
    pub fn on_output(&mut self, event: OutputEvent) -> (step: DrainStep)
        ensures
            match event {
                OutputEvent::Sample(bytes) => {
                    &&& step == DrainStep::Again
                    &&& final(self).units@ == old(self).units@.push(bytes)
                    &&& final(self).buffer_size == old(self).buffer_size
                },
                OutputEvent::BufferTooSmall => {
                    &&& final(self).units@ == old(self).units@
                    &&& if old(self).buffer_size >= OUTPUT_BUFFER_MAX {
                        &&& step is Fail
                        &&& step->Fail_0@ == "MF encoder output exceeds buffer cap"@
                        &&& final(self).buffer_size == old(self).buffer_size
                    } else {
                        &&& step == DrainStep::Again
                        &&& final(self).buffer_size == grown(old(self).buffer_size)
                    }
                },
                OutputEvent::Nothing | OutputEvent::NeedsInput | OutputEvent::StreamChanged
                | OutputEvent::Failed => {
                    &&& step == DrainStep::Stop
                    &&& *final(self) == *old(self)
                },
            },
    {
        match event {
            OutputEvent::Sample(bytes) => {
                self.units.push(bytes);
                DrainStep::Again
            },
            OutputEvent::BufferTooSmall => {
                if self.buffer_size >= OUTPUT_BUFFER_MAX {
                    return DrainStep::Fail("MF encoder output exceeds buffer cap".to_owned());
                }
                self.buffer_size = if self.buffer_size * 2 < OUTPUT_BUFFER_MAX {
                    self.buffer_size * 2
                } else {
                    OUTPUT_BUFFER_MAX
                };
                DrainStep::Again
            },
            OutputEvent::Nothing | OutputEvent::NeedsInput | OutputEvent::StreamChanged
            | OutputEvent::Failed => DrainStep::Stop,
        }
    }
}

/// What follows an attempt to drain the output of a frame.
#[derive(Clone, Copy, Debug, PartialEq, Eq, Structural)]
pub enum DrainNext {
    Done,
    /// Wait a millisecond and drain again.
    Retry,
    /// Wait a millisecond and drain a last time.
    LastTry,
}

/// What follows the given attempt, counted from 1.
pub open spec fn drain_next(attempt: u32, found: bool) -> DrainNext {
    if found || attempt > DRAIN_RETRIES {
        DrainNext::Done
    } else if attempt == DRAIN_RETRIES {
        DrainNext::LastTry
    } else {
        DrainNext::Retry
    }
}

/// What follows the given attempt, counted from 1: the hardware may lag behind.
pub fn after_drain(attempt: u32, found: bool) -> (next: DrainNext)
    ensures
        next == drain_next(attempt, found),
        next == if found || attempt > DRAIN_RETRIES {
            DrainNext::Done
        } else if attempt == DRAIN_RETRIES {
            DrainNext::LastTry
        } else {
            DrainNext::Retry
        },
{
    if found || attempt > DRAIN_RETRIES {
        DrainNext::Done
    } else if attempt == DRAIN_RETRIES {
        DrainNext::LastTry
    } else {
        DrainNext::Retry
    }
}

/// The time of a sample in units of 100 nanoseconds.
pub fn sample_time(micros: u64) -> (time: i64)
    requires
        micros * 10 <= i64::MAX,
    ensures
        time == micros * 10,
{
    micros as i64 * 10
}

/// How long one of so many frames a second lasts, in units of 100 nanoseconds.
pub open spec fn frame_span(fps: u32) -> int {
    10_000_000int / (if fps > 1 {
        fps as int
    } else {
        1
    })
}

/// The duration of a sample in units of 100 nanoseconds.
pub fn sample_duration(fps: u32) -> (duration: i64)
    ensures
        duration == frame_span(fps),
        duration == 10_000_000int / (if fps > 1 {
            fps as int
        } else {
            1
        }),
{
    let rate: i64 = if fps > 1 {
        fps as i64
    } else {
        1
    };
    10_000_000 / rate
}

/// The self test cannot be passed over, and what passes it is Baseline with a keyframe:
/// an encoder whose output viewers could not decode never becomes ready.
pub proof fn law_ready_encoders_are_decodable(
    stage: MfStage,
    samples: nat,
    units: Seq<AccessUnit>,
)
    ensures
        stage != MfStage::Ready ==> next_stage(stage) != MfStage::Ready,
        self_test_failure(samples, units) is None ==> samples > 0 && some_keyframe(units)
            && crate::codecs::profile_passes(first_profile(units), false),
{
}

/// A buffer that keeps being too small grows until it reaches its limit, and never
/// beyond: from its first size it takes two steps.
pub proof fn law_buffer_growth_is_bounded(size: u32)
    requires
        0 < size < OUTPUT_BUFFER_MAX,
    ensures
        size < grown(size) <= OUTPUT_BUFFER_MAX,
        grown(grown(OUTPUT_BUFFER_START)) == OUTPUT_BUFFER_MAX,
{
}

/// An encoder that refuses NV12 is tried with RGB32, and from then on fed that; no other
/// failure is survived, and none is survived twice. What succeeds changes no format.
pub proof fn law_only_nv12_has_a_substitute(setup: MfSetup, error: Option<Seq<char>>)
    requires
        setup.stage != MfStage::Ready,
        setup.stage != MfStage::Failed,
        setup.stage == MfStage::SelfTest ==> error is Some,
    ensures
        ({
            let (after, told) = setup_moved(setup, error);
            &&& after.width == setup.width && after.height == setup.height
            &&& told is Some <==> after.stage == MfStage::Failed
            &&& error is None ==> told is None && after.use_nv12 == setup.use_nv12 && after.stage
                != setup.stage
            &&& error is Some && setup.stage != MfStage::InputNv12 ==> told is Some
                && after.use_nv12 == setup.use_nv12 && crate::text::ends_with(told->0, error->0)
            &&& error is Some && setup.stage == MfStage::InputNv12 ==> told is None
                && !after.use_nv12 && after.stage == MfStage::DescribeRgb32
            &&& after.stage == MfStage::DescribeRgb32 <==> error is Some && setup.stage
                == MfStage::InputNv12
        }),
        next_stage(MfStage::InputNv12) == next_stage(MfStage::InputRgb32),
{
    if error is Some && setup.stage != MfStage::InputNv12 {
        let told = setup_moved(setup, error).1->0;
        let text = error->0;
        assert(told.subrange(told.len() - text.len(), told.len() as int) =~= text);
    }
}

/// The number of steps that lie before the self test.
pub open spec fn steps_to_self_test(stage: MfStage) -> int {
    match stage {
        MfStage::Startup => 7,
        MfStage::OpenEncoder => 6,
        MfStage::DescribeNv12 | MfStage::DescribeRgb32 => 5,
        MfStage::InputNv12 | MfStage::InputRgb32 => 4,
        MfStage::DescribeOutput => 3,
        MfStage::OutputBaseline => 2,
        MfStage::BeginStream => 1,
        MfStage::SelfTest | MfStage::Ready | MfStage::Failed => 0,
    }
}

/// Every step that succeeds brings the setup one step closer to the self test.
pub proof fn law_setup_leads_to_the_self_test(stage: MfStage)
    requires
        stage != MfStage::SelfTest,
        stage != MfStage::Ready,
        stage != MfStage::Failed,
    ensures
        steps_to_self_test(next_stage(stage)) == steps_to_self_test(stage) - 1,
        steps_to_self_test(stage) == 1 <==> next_stage(stage) == MfStage::SelfTest,
{
}

/// Both halves of a packed pair are read back.
pub proof fn law_pairs_are_read_back(upper: u32, lower: u32)
    ensures
        packed(upper, lower) / 0x1_0000_0000 == upper,
        packed(upper, lower) % 0x1_0000_0000 == lower,
{
    assert(upper * 0x1_0000_0000 + lower <= u64::MAX);
}

/// A stream has one bitrate, a keyframe a second, and nothing that a Baseline decoder lacks.
pub proof fn law_streams_are_plain_baseline(bitrate: u32, fps: u32)
    ensures
        ({
            let options = baseline_options(bitrate, fps);
            &&& options.contains(CodecOption::RateControlCbr)
            &&& options.contains(CodecOption::MeanBitrate(bitrate))
            &&& options.contains(CodecOption::MaxBitrate(bitrate))
            &&& options.contains(CodecOption::BFrames(0))
            &&& options.contains(CodecOption::Cabac(0))
            &&& options.contains(CodecOption::LowLatency(1))
            &&& fps > 0 ==> options.contains(CodecOption::GopSize(fps))
            &&& fps == 0 ==> options.contains(CodecOption::GopSize(1))
            &&& options.len() == 7
        }),
{
    let options = baseline_options(bitrate, fps);
    assert(options[0] == CodecOption::RateControlCbr);
    assert(options[1] == CodecOption::MeanBitrate(bitrate));
    assert(options[2] == CodecOption::MaxBitrate(bitrate));
    assert(options[3] is GopSize);
    assert(options[4] == CodecOption::BFrames(0));
    assert(options[5] == CodecOption::Cabac(0));
    assert(options[6] == CodecOption::LowLatency(1));
}

/// The profile that counts is the first that is declared: units in front of it that declare
/// none do not matter, and neither does what comes behind it.
pub proof fn law_first_profile_counts(a: Seq<AccessUnit>, b: Seq<AccessUnit>)
    ensures
        first_profile(a) is Some ==> first_profile(a + b) == first_profile(a),
        first_profile(a) is None ==> first_profile(a + b) == first_profile(b),
        a.len() == 1 ==> first_profile(a) == a[0].profile_level_id,
    decreases b.len(),
{
    reveal_with_fuel(first_profile, 2);
    if b.len() == 0 {
        assert(a + b =~= a);
    } else {
        assert((a + b).drop_last() =~= a + b.drop_last());
        law_first_profile_counts(a, b.drop_last());
    }
}

/// The output of the self test is good exactly where there is some, one of its units is a
/// keyframe, and the first profile that it declares is a Baseline one.
pub proof fn law_self_test_asks_for_three_things(
    samples: nat,
    units: Seq<AccessUnit>,
    k: int,
)
    requires
        0 <= k < units.len(),
    ensures
        samples == 0 ==> self_test_failure(samples, units) is Some,
        samples > 0 && units[k].keyframe && first_profile(units) is Some && first_profile(
            units,
        )->0.len() >= 2 && crate::codecs::profile_passes(first_profile(units), false)
            ==> self_test_failure(samples, units) is None,
        first_profile(units) is None ==> self_test_failure(samples, units) is Some,
        (forall|i: int| 0 <= i < units.len() ==> !(#[trigger] units[i]).keyframe)
            ==> self_test_failure(samples, units) is Some,
{
    if units[k].keyframe {
        assert(some_keyframe(units));
    }
}

/// A drop is noticed wherever it happens: a series drops something exactly where its first
/// part does, or the rest does in the queue that the first part leaves.
pub proof fn law_every_drop_is_noticed(queue: QueueModel, a: Seq<AccessUnit>, b: Seq<AccessUnit>)
    ensures
        some_dropped(queue, a + b) <==> some_dropped(queue, a) || some_dropped(
            queue.pushed_all(a),
            b,
        ),
        queue.pushed_all(a + b) == queue.pushed_all(a).pushed_all(b),
        a.len() == 1 ==> (some_dropped(queue, a) <==> queue.pushed(a[0]).1
            == AccessUnitPushResult::DroppedUntilKeyframe),
    decreases b.len(),
{
    reveal_with_fuel(some_dropped, 2);
    if a.len() == 1 {
        assert(queue.pushed_all(a.drop_last()) == queue);
    }
    if b.len() == 0 {
        assert(a + b =~= a);
    } else {
        assert((a + b).drop_last() =~= a + b.drop_last());
        law_every_drop_is_noticed(queue, a, b.drop_last());
    }
}

/// The clock of a frame runs at 90 kHz: nine ticks for every hundred microseconds, rounded
/// down, and never backwards.
pub proof fn law_frames_are_stamped_at_90khz(micros: u64, later: u64)
    requires
        micros <= later,
    ensures
        micros * 9 <= u64::MAX ==> frame_ticks(micros) * 100 <= micros * 9 < (frame_ticks(micros)
            + 1) * 100,
        frame_ticks(micros) <= frame_ticks(later),
{
}

/// So many frames of this duration fit in a second, and with one unit more they would not.
pub proof fn law_frames_fill_a_second(fps: u32)
    ensures
        fps > 0 ==> frame_span(fps) * fps <= 10_000_000,
        fps > 0 ==> 10_000_000 < (frame_span(fps) + 1) * fps,
        fps == 0 ==> frame_span(fps) == 10_000_000,
{
    if fps > 0 {
        vstd::arithmetic::div_mod::lemma_fundamental_div_mod(10_000_000, fps as int);
        let span = frame_span(fps);
        let rest = 10_000_000int % (fps as int);
        assert(span == 10_000_000int / (fps as int));
        assert(fps * span == span * fps) by (nonlinear_arith);
        assert((span + 1) * fps == span * fps + fps) by (nonlinear_arith);
        assert(0 <= rest < fps);
    }
}

/// A frame is fed where it has the size that the encoder was opened with and enough bytes for
/// it. RGB32 is fed byte by byte as it was captured.
pub proof fn law_frames_fit_the_encoder(setup: MfSetup, frame: NativeFrame)
    ensures
        frame.width != setup.width || frame.height != setup.height ==> frame_refusal(
            setup,
            frame,
        ) is Some,
        frame.width == setup.width && frame.height == setup.height && !setup.use_nv12 ==> (
        frame_refusal(setup, frame) is None <==> frame.storage@.len() >= frame.width * frame.height
            * 4),
        frame.width == setup.width && frame.height == setup.height && setup.use_nv12 ==> (
        frame_refusal(setup, frame) is None <==> nv12_convertible(
            frame.storage@.len() as int,
            frame.width as int,
            frame.height as int,
        )),
        frame_refusal(setup, frame) is None && !setup.use_nv12 ==> {
            let bytes = fed_bytes(setup, frame);
            &&& bytes.len() == frame.width * frame.height * 4
            &&& forall|i: int| 0 <= i < bytes.len() ==> bytes[i] == frame.storage@[i]
        },
        setup.use_nv12 ==> fed_bytes(setup, frame) == nv12_image(
            frame.storage@,
            frame.width as int,
            frame.height as int,
        ),
{
    assert(0 <= frame.width * frame.height) by (nonlinear_arith);
}

/// Output is looked for up to thirteen times and no longer than it takes to find some.
pub proof fn law_draining_ends(attempt: u32, found: bool)
    ensures
        found ==> drain_next(attempt, found) == DrainNext::Done,
        !found && attempt < 12 ==> drain_next(attempt, found) == DrainNext::Retry,
        !found && attempt == 12 ==> drain_next(attempt, found) == DrainNext::LastTry,
        !found && attempt > 12 ==> drain_next(attempt, found) == DrainNext::Done,
{
}

/// A buffer doubles as long as its limit leaves room for that.
pub proof fn law_buffers_double(size: u32)
    ensures
        size * 2 <= 16_777_216 ==> grown(size) == size * 2,
        size * 2 > 16_777_216 ==> grown(size) == 16_777_216,
{
}

/// Whatever step fails, its own words are told, last; the steps that ask for something of the
/// encoder are named before them.
pub proof fn law_failed_steps_are_told(stage: MfStage, error: Seq<char>)
    ensures
        crate::text::ends_with(stage_failure(stage, error), error),
        stage is OpenEncoder || stage is InputRgb32 || stage is OutputBaseline
            <==> stage_failure(stage, error).len() > error.len(),
{
    reveal_strlit("MF hardware MFT open failed: ");
    reveal_strlit("MF RGB32 input rejected: ");
    reveal_strlit("MF Baseline output type rejected (no High fallback): ");
    let told = stage_failure(stage, error);
    assert(told.subrange(told.len() - error.len(), told.len() as int) =~= error);
}

} // verus!
