//! Encoder control, preview and the decisions of the encoder worker.
//!
//! Points in time are nanoseconds since an origin that the caller chooses.

use vstd::prelude::*;

verus! {

/// Pause after a real rate decrease before probing upward again.
pub const PROBE_QUIET: u64 = 3_000_000_000;

/// Recent loss freezes probing for this long.
pub const LOSS_WINDOW: u64 = 5_000_000_000;

/// A lost fraction (of 255) above this counts as congestion.
pub const LOSS_FREEZE_FRACTION: u8 = 5;

/// The least step of an upward probe.
pub const PROBE_STEP: u32 = 200_000;

/// Coalesced encoder controls. Bursts of feedback collapse to one keyframe request
/// and the newest bitrate.
#[derive(Clone, Copy, Debug, PartialEq, Eq, Structural)]
pub struct EncoderControl {
    /// A keyframe was asked for and not handed out yet.
    pub keyframe_requested: bool,
    /// The newest rate that the encoder has not taken yet.
    pub bitrate: Option<u32>,
    /// What the user or the preset asked for: congestion control stays below.
    pub target: u32,
    /// Congestion feedback is never followed below this.
    pub floor: u32,
    /// The last rate that feedback or a probe imposed.
    pub congestion: Option<u32>,
    /// The last rate queued to the encoder.
    pub applied: u32,
    /// When the rate was last lowered.
    pub last_decrease_at: Option<u64>,
    /// The worst lost fraction of the current window.
    pub last_loss: u8,
    /// When the current loss window began.
    pub last_loss_at: Option<u64>,
    pub stop_requested: bool,
}

/// The smaller of two numbers.
pub open spec fn least(a: int, b: int) -> int {
    if a <= b {
        a
    } else {
        b
    }
}

/// The greater of two numbers.
pub open spec fn greatest(a: int, b: int) -> int {
    if a >= b {
        a
    } else {
        b
    }
}

/// `value` moved into `low..=high`.
pub open spec fn within(value: int, low: int, high: int) -> int {
    if value < low {
        low
    } else if value > high {
        high
    } else {
        value
    }
}

/// Time from `at` to `now`, zero where `at` lies ahead.
pub open spec fn elapsed(now: u64, at: u64) -> int {
    if now >= at {
        now - at
    } else {
        0
    }
}

fn min_rate(a: u32, b: u32) -> (m: u32)
    ensures
        m == least(a as int, b as int),
{
    if a <= b {
        a
    } else {
        b
    }
}

fn max_rate(a: u32, b: u32) -> (m: u32)
    ensures
        m == greatest(a as int, b as int),
{
    if a >= b {
        a
    } else {
        b
    }
}

fn clamp_rate(value: u32, low: u32, high: u32) -> (r: u32)
    ensures
        r == within(value as int, low as int, high as int),
{
    if value < low {
        low
    } else if value > high {
        high
    } else {
        value
    }
}

fn since(now: u64, at: u64) -> (gap: u64)
    ensures
        gap == elapsed(now, at),
{
    if now >= at {
        now - at
    } else {
        0
    }
}

/// The rate that congestion feedback leads to: no less than the floor and no more than
/// the target, which wins where the floor lies above it.
pub open spec fn congestion_rate(control: EncoderControl, bitrate: u32) -> u32 {
    within(
        bitrate as int,
        least(control.floor as int, control.target as int),
        control.target as int,
    ) as u32
}

/// Probing rests: the rate was lowered a moment ago, or loss was seen lately.
pub open spec fn probing_rests(control: EncoderControl, now: u64) -> bool {
    ||| control.last_decrease_at matches Some(at) && elapsed(now, at) < PROBE_QUIET
    ||| control.last_loss > LOSS_FREEZE_FRACTION && (control.last_loss_at matches Some(at)
        && elapsed(now, at) < LOSS_WINDOW)
}

/// A quarter more than what is applied, at least one step, at most the target.
pub open spec fn probe_step(control: EncoderControl) -> int {
    least(
        control.applied + greatest(control.applied as int / 4, PROBE_STEP as int),
        control.target as int,
    )
}

/// The next step up, where the path looks clean and the rate is below the target.
pub open spec fn probe(control: EncoderControl, now: u64) -> Option<int> {
    if probing_rests(control, now) || control.applied >= control.target {
        None
    } else {
        Some(probe_step(control))
    }
}

/// The control after congestion feedback.
pub open spec fn congestion_noted(control: EncoderControl, bitrate: u32, now: u64) -> EncoderControl {
    let rate = congestion_rate(control, bitrate);
    EncoderControl {
        congestion: Some(rate),
        applied: rate,
        bitrate: Some(rate),
        last_decrease_at: if rate < control.applied {
            Some(now)
        } else {
            control.last_decrease_at
        },
        ..control
    }
}

/// The control after an explicit wish for a rate: it is the target, and it is queued.
pub open spec fn rate_set(control: EncoderControl, bitrate: u32) -> EncoderControl {
    EncoderControl {
        target: bitrate,
        floor: least(control.floor as int, bitrate as int) as u32,
        congestion: None,
        applied: bitrate,
        bitrate: Some(bitrate),
        ..control
    }
}

/// The control after a wish for a floor: a stream below it is lifted at once.
pub open spec fn floor_set(control: EncoderControl, floor: u32) -> EncoderControl {
    let low = least(floor as int, control.target as int);
    let current = match control.congestion {
        Some(rate) => rate,
        None => control.target,
    };
    let rate = within(current as int, low, control.target as int) as u32;
    EncoderControl { floor: low as u32, applied: rate, bitrate: Some(rate), ..control }
}

/// The control after a receiver report: within a window the worst fraction counts, and
/// a report behind it opens the next one.
pub open spec fn loss_noted(control: EncoderControl, fraction_lost: u8, now: u64) -> EncoderControl {
    if control.last_loss_at is Some && elapsed(now, control.last_loss_at->0) < LOSS_WINDOW {
        EncoderControl {
            last_loss: greatest(control.last_loss as int, fraction_lost as int) as u8,
            ..control
        }
    } else {
        EncoderControl { last_loss: fraction_lost, last_loss_at: Some(now), ..control }
    }
}

/// The controls of a stream that begins.
pub open spec fn control_begun(target: u32, floor: u32) -> EncoderControl {
    EncoderControl {
        keyframe_requested: false,
        bitrate: None,
        target,
        floor: least(floor as int, target as int) as u32,
        congestion: None,
        applied: target,
        last_decrease_at: None,
        last_loss: 0,
        last_loss_at: None,
        stop_requested: false,
    }
}

impl EncoderControl {
    /// Controls for an encoder that starts at its target.
    pub fn new(target: u32, floor: u32) -> (control: Self)
        ensures
            control == control_begun(target, floor),
            control == (EncoderControl {
                keyframe_requested: false,
                bitrate: None,
                target,
                floor: least(floor as int, target as int) as u32,
                congestion: None,
                applied: target,
                last_decrease_at: None,
                last_loss: 0,
                last_loss_at: None,
                stop_requested: false,
            }),
    {
        EncoderControl {
            keyframe_requested: false,
            bitrate: None,
            target,
            floor: min_rate(floor, target),
            congestion: None,
            applied: target,
            last_decrease_at: None,
            last_loss: 0,
            last_loss_at: None,
            stop_requested: false,
        }
    }

    /// Asks for a keyframe.
    pub fn request_keyframe(&mut self)
        ensures
            *final(self) == (EncoderControl { keyframe_requested: true, ..*old(self) }),
    {
        self.keyframe_requested = true;
    }

    /// Explicit intent of the user or the preset: moves the target and applies it.
    pub fn set_bitrate(&mut self, bitrate: u32)
        ensures
            *final(self) == rate_set(*old(self), bitrate),
    {
        self.target = bitrate;
        self.floor = min_rate(self.floor, bitrate);
        self.congestion = None;
        self.applied = bitrate;
        self.bitrate = Some(bitrate);
    }

    /// Moves the floor, and applies it at once to a stream that sits below it.
    pub fn set_floor(&mut self, floor: u32)
        ensures
            *final(self) == floor_set(*old(self), floor),
    {
        let floor: u32 = min_rate(floor, self.target);
        self.floor = floor;
        let current: u32 = match self.congestion {
            Some(rate) => rate,
            None => self.target,
        };
        let rate: u32 = clamp_rate(current, floor, self.target);
        self.applied = rate;
        self.bitrate = Some(rate);
    }

    /// Congestion feedback: may lower the rate below the target, never raise it
    /// above.
    pub fn set_congestion_bitrate(&mut self, bitrate: u32, now: u64)
        ensures
            *final(self) == congestion_noted(*old(self), bitrate, now),
    {
        let floor: u32 = min_rate(self.floor, self.target);
        let rate: u32 = clamp_rate(bitrate, floor, self.target);
        let decreased: bool = rate < self.applied;
        self.congestion = Some(rate);
        self.applied = rate;
        if decreased {
            self.last_decrease_at = Some(now);
        }
        self.bitrate = Some(rate);
    }

    /// Records the real encoder target without queueing an update.
    pub fn set_target(&mut self, bitrate: u32)
        ensures
            *final(self) == (EncoderControl { target: bitrate, ..*old(self) }),
    {
        self.target = bitrate;
    }

    /// Records the rate that a fresh encoder was opened with.
    pub fn note_applied(&mut self, bitrate: u32)
        ensures
            *final(self) == (EncoderControl { applied: bitrate, ..*old(self) }),
    {
        self.applied = bitrate;
    }

    /// Records the lost fraction of a receiver report. Within one window the worst
    /// one counts; a report behind it opens the next window.
    pub fn note_loss(&mut self, fraction_lost: u8, now: u64)
        ensures
            *final(self) == loss_noted(*old(self), fraction_lost, now),
    {
        let inside: bool = match self.last_loss_at {
            Some(at) => since(now, at) < LOSS_WINDOW,
            None => false,
        };
        if inside {
            if fraction_lost > self.last_loss {
                self.last_loss = fraction_lost;
            }
        } else {
            self.last_loss = fraction_lost;
            self.last_loss_at = Some(now);
        }
    }

    /// The next step up while the path looks clean and the rate is below the
    /// target.
    pub fn probe_candidate(&self, now: u64) -> (step: Option<u32>)
        ensures
            step is Some <==> !probing_rests(*self, now) && self.applied < self.target,
            step matches Some(rate) ==> rate == probe_step(*self),
            match probe(*self, now) {
                Some(rate) => step is Some && step->0 == rate,
                None => step is None,
            },
    {
        if let Some(at) = self.last_decrease_at {
            if since(now, at) < PROBE_QUIET {
                return None;
            }
        }
        if self.last_loss > LOSS_FREEZE_FRACTION {
            if let Some(at) = self.last_loss_at {
                if since(now, at) < LOSS_WINDOW {
                    return None;
                }
            }
        }
        if self.applied >= self.target {
            return None;
        }
        let step: u32 = max_rate(self.applied / 4, PROBE_STEP);
        if step > self.target - self.applied {
            Some(self.target)
        } else {
            Some(self.applied + step)
        }
    }

    /// Queues a probe step without moving the target or the floor.
    pub fn apply_probe(&mut self, bitrate: u32)
        ensures
            *final(self) == probed(*old(self), bitrate),
            *final(self) == (EncoderControl {
                congestion: Some(bitrate),
                applied: bitrate,
                bitrate: Some(bitrate),
                ..*old(self)
            }),
    {
        self.congestion = Some(bitrate);
        self.applied = bitrate;
        self.bitrate = Some(bitrate);
    }

    /// What the user or the preset asked for.
    pub fn target(&self) -> (rate: u32)
        ensures
            rate == self.target,
    {
        self.target
    }

    /// The congestion floor.
    pub fn floor(&self) -> (rate: u32)
        ensures
            rate == self.floor,
    {
        self.floor
    }

    /// The last rate queued to the encoder.
    pub fn applied(&self) -> (rate: u32)
        ensures
            rate == self.applied,
    {
        self.applied
    }

    /// The last rate that feedback or a probe imposed.
    pub fn congestion_bitrate(&self) -> (rate: Option<u32>)
        ensures
            rate == self.congestion,
    {
        self.congestion
    }

    /// Asks the encoder worker to end.
    pub fn request_stop(&mut self)
        ensures
            *final(self) == (EncoderControl { stop_requested: true, ..*old(self) }),
    {
        self.stop_requested = true;
    }

    /// Whether the encoder worker was asked to end.
    pub fn stop_requested(&self) -> (stop: bool)
        ensures
            stop == self.stop_requested,
    {
        self.stop_requested
    }

    /// Hands out the keyframe request, at most once.
    pub fn take_keyframe(&mut self) -> (requested: bool)
        ensures
            requested == old(self).keyframe_requested,
            *final(self) == (EncoderControl { keyframe_requested: false, ..*old(self) }),
    {
        let requested: bool = self.keyframe_requested;
        self.keyframe_requested = false;
        requested
    }

    /// Hands out the newest rate, at most once.
    pub fn take_bitrate(&mut self) -> (rate: Option<u32>)
        ensures
            rate == old(self).bitrate,
            *final(self) == (EncoderControl { bitrate: None, ..*old(self) }),
    {
        let rate: Option<u32> = self.bitrate;
        self.bitrate = None;
        rate
    }
}

/// Congestion feedback never asks for more than the user or the preset did, nor for
/// less than the floor.
pub proof fn law_congestion_stays_in_bounds(control: EncoderControl, bitrate: u32)
    ensures
        congestion_rate(control, bitrate) <= control.target,
        control.floor <= control.target ==> congestion_rate(control, bitrate) >= control.floor,
{
}

/// A probe climbs, by at least one step or up to the target, and never beyond it.
pub proof fn law_probe_climbs_to_the_target(control: EncoderControl)
    requires
        control.applied < control.target,
    ensures
        control.applied < probe_step(control) <= control.target,
        probe_step(control) == control.target || probe_step(control) >= control.applied
            + PROBE_STEP,
{
}

/// Failure and intake state of a running pipeline.
pub struct PipelineState {
    pub failed: bool,
    pub failure: Option<String>,
    pub accepting_callbacks: bool,
}

impl PipelineState {
    /// A pipeline that works and takes frames.
    pub fn new() -> (state: Self)
        ensures
            state == (PipelineState { failed: false, failure: None, accepting_callbacks: true }),
    {
        PipelineState { failed: false, failure: None, accepting_callbacks: true }
    }

    /// Marks the pipeline as failed. The first reason stays.
    pub fn fail(&mut self, error: String)
        ensures
            *final(self) == (PipelineState {
                failed: true,
                failure: if old(self).failure is Some {
                    old(self).failure
                } else {
                    Some(error)
                },
                ..*old(self)
            }),
    {
        self.failed = true;
        if self.failure.is_none() {
            self.failure = Some(error);
        }
    }

    /// Whether the pipeline failed.
    pub fn is_failed(&self) -> (failed: bool)
        ensures
            failed == self.failed,
    {
        self.failed
    }

    /// Why the pipeline failed.
    pub fn failure(&self) -> (failure: Option<String>)
        ensures
            crate::text::opt_text(failure) == crate::text::opt_text(self.failure),
    {
        match &self.failure {
            Some(text) => Some(text.clone()),
            None => None,
        }
    }
}

/// A small picture of what is shared, for the host's own window.
#[derive(Debug, PartialEq, Eq)]
pub struct PreviewFrameEvent {
    pub sequence: u64,
    pub timestamp_micros: u64,
    pub width: u32,
    pub height: u32,
    pub encoding: String,
    pub payload: Vec<u8>,
}

/// A captured frame on its way to the preview.
#[derive(Debug, PartialEq, Eq)]
pub struct NativeFrame {
    pub storage: Vec<u8>,
    pub timestamp_micros: u64,
    pub sequence: u64,
    pub width: u32,
    pub height: u32,
    pub generation: u64,
}

/// Counters and the first error of the capture callback.
#[derive(Debug, PartialEq, Eq)]
pub struct PreviewDiagnostics {
    pub callback_count: u64,
    pub frame_count: u64,
    pub dropped_count: u64,
    pub error: Option<String>,
}

impl PreviewDiagnostics {
    /// Counters at zero, without an error.
    pub fn new() -> (diagnostics: Self)
        ensures
            diagnostics == (PreviewDiagnostics {
                callback_count: 0,
                frame_count: 0,
                dropped_count: 0,
                error: None,
            }),
    {
        PreviewDiagnostics { callback_count: 0, frame_count: 0, dropped_count: 0, error: None }
    }

    /// Keeps the first error.
    pub fn record_error(&mut self, error: String)
        ensures
            *final(self) == (PreviewDiagnostics {
                error: if old(self).error is Some {
                    old(self).error
                } else {
                    Some(error)
                },
                ..*old(self)
            }),
    {
        if self.error.is_none() {
            self.error = Some(error);
        }
    }

    /// Starts over.
    pub fn reset(&mut self)
        ensures
            *final(self) == (PreviewDiagnostics {
                callback_count: 0,
                frame_count: 0,
                dropped_count: 0,
                error: None,
            }),
    {
        *self = PreviewDiagnostics::new();
    }
}

/// The latest preview picture of the current session.
pub struct PreviewState {
    pub latest: Option<PreviewFrameEvent>,
    pub generation: u64,
    pub diagnostics: PreviewDiagnostics,
}

/// Two events show the same picture.
pub open spec fn same_picture(a: PreviewFrameEvent, b: PreviewFrameEvent) -> bool {
    &&& a.sequence == b.sequence
    &&& a.timestamp_micros == b.timestamp_micros
    &&& a.width == b.width
    &&& a.height == b.height
    &&& a.encoding@ == b.encoding@
    &&& a.payload@ == b.payload@
}

/// The picture of a frame as it is shown.
pub open spec fn shows(event: PreviewFrameEvent, frame: NativeFrame) -> bool {
    &&& event.sequence == frame.sequence
    &&& event.timestamp_micros == frame.timestamp_micros
    &&& event.width == frame.width
    &&& event.height == frame.height
    &&& event.encoding@ == "rgb8_thumbnail"@
    &&& event.payload@ == frame.storage@
}

/// A frame belongs to the preview: its pipeline runs, and so does the session that the
/// pipeline was started for.
pub open spec fn frame_is_current(preview: u64, pipeline: u64, frame: u64) -> bool {
    frame == pipeline && preview == pipeline
}

/// The generation of the next session.
pub open spec fn next_generation(generation: u64) -> u64 {
    if generation == u64::MAX {
        0
    } else {
        (generation + 1) as u64
    }
}

/// The controls once a probe step was queued.
pub open spec fn probed(control: EncoderControl, bitrate: u32) -> EncoderControl {
    EncoderControl {
        congestion: Some(bitrate),
        applied: bitrate,
        bitrate: Some(bitrate),
        ..control
    }
}

impl PreviewState {
    /// A preview before the first session.
    pub fn new() -> (preview: Self)
        ensures
            preview.latest is None,
            preview.generation == 0,
            preview.diagnostics == (PreviewDiagnostics {
                callback_count: 0,
                frame_count: 0,
                dropped_count: 0,
                error: None,
            }),
    {
        PreviewState { latest: None, generation: 0, diagnostics: PreviewDiagnostics::new() }
    }

    /// Starts a session: the picture and the counters of the last one are gone.
    pub fn begin_session(&mut self)
        ensures
            final(self).generation == next_generation(old(self).generation),
            final(self).latest is None,
            final(self).diagnostics == (PreviewDiagnostics {
                callback_count: 0,
                frame_count: 0,
                dropped_count: 0,
                error: None,
            }),
    {
        self.generation = if self.generation == u64::MAX {
            0
        } else {
            self.generation + 1
        };
        self.diagnostics.reset();
        self.latest = None;
    }

    /// The latest picture, if there is one. It stays.
    pub fn latest_preview(&self) -> (picture: Option<PreviewFrameEvent>)
        ensures
            match self.latest {
                Some(event) => picture is Some && same_picture(picture->0, event),
                None => picture is None,
            },
    {
        match &self.latest {
            Some(event) => {
                let copy = PreviewFrameEvent {
                    sequence: event.sequence,
                    timestamp_micros: event.timestamp_micros,
                    width: event.width,
                    height: event.height,
                    encoding: event.encoding.clone(),
                    payload: event.payload.clone(),
                };
                assert(copy.payload@ =~= event.payload@);
                Some(copy)
            },
            None => None,
        }
    }

    /// Shows a frame of the pipeline that was started as `generation`. A frame of
    /// another pipeline, or of a session that is over, is dropped.
    pub fn publish(&mut self, generation: u64, frame: NativeFrame) -> (shown: bool)
        ensures
            shown == frame_is_current(old(self).generation, generation, frame.generation),
            final(self).generation == old(self).generation,
            final(self).diagnostics == old(self).diagnostics,
            !shown ==> *final(self) == *old(self),
            shown ==> final(self).latest is Some && shows(final(self).latest->0, frame),
    {
        if frame.generation != generation {
            return false;
        }
        if self.generation != generation {
            return false;
        }
        self.latest = Some(
            PreviewFrameEvent {
                sequence: frame.sequence,
                timestamp_micros: frame.timestamp_micros,
                width: frame.width,
                height: frame.height,
                encoding: "rgb8_thumbnail".to_owned(),
                payload: frame.storage,
            },
        );
        true
    }
}

/// What a transmission quality stands for.
#[derive(Clone, Copy, Debug, PartialEq, Eq, Structural)]
pub struct QualityPreset {
    pub bitrate: u32,
    pub max_width: u32,
    pub max_height: u32,
}

/// The rates that an explicit wish may lie in.
#[derive(Clone, Copy, Debug, PartialEq, Eq, Structural)]
pub struct BitrateLimits {
    pub min: u32,
    pub max: u32,
}

/// The preset rate in proportion to the number of pixels, between a quarter of the
/// preset and the preset.
pub open spec fn scaled_bitrate(width: u32, height: u32, preset: QualityPreset) -> int {
    let pixels = greatest(width * height, 1);
    let cap_pixels = greatest(preset.max_width * preset.max_height, 1);
    within(preset.bitrate * pixels / cap_pixels, preset.bitrate as int / 4, preset.bitrate as int)
}

/// The rate for a picture of this size: an explicit wish inside its limits, or else the
/// scaled preset.
pub open spec fn rate_for(
    width: u32,
    height: u32,
    preset: QualityPreset,
    override_bps: Option<u32>,
    limits: BitrateLimits,
) -> int {
    if override_bps is Some && override_bps->0 > 0 {
        within(override_bps->0 as int, limits.min as int, limits.max as int)
    } else {
        scaled_bitrate(width, height, preset)
    }
}

/// The rate that an encoder opens with. An explicit wish is followed as it is,
/// inside the limits; else the preset is scaled by the size of the picture.
pub fn encoder_bitrate(
    width: u32,
    height: u32,
    preset: QualityPreset,
    override_bps: Option<u32>,
    limits: BitrateLimits,
) -> (bitrate: u32)
    requires
        limits.min <= limits.max,
    ensures
        bitrate == rate_for(width, height, preset, override_bps, limits),
{
    if let Some(bps) = override_bps {
        if bps > 0 {
            return clamp_rate(bps, limits.min, limits.max);
        }
    }
    assert(0 <= width * height <= 0xffff_ffff * 0xffff_ffff) by (nonlinear_arith)
        requires
            0 <= width <= 0xffff_ffff,
            0 <= height <= 0xffff_ffff,
    ;
    assert(0 <= preset.max_width * preset.max_height <= 0xffff_ffff * 0xffff_ffff)
        by (nonlinear_arith)
        requires
            0 <= preset.max_width <= 0xffff_ffff,
            0 <= preset.max_height <= 0xffff_ffff,
    ;
    let area: u128 = width as u128 * height as u128;
    let pixels: u128 = if area > 1 {
        area
    } else {
        1
    };
    let cap_area: u128 = preset.max_width as u128 * preset.max_height as u128;
    let cap_pixels: u128 = if cap_area > 1 {
        cap_area
    } else {
        1
    };
    let ghost top: int = 0xffff_ffffint * 0xffff_ffffint;
    assert(0 <= preset.bitrate * pixels <= 0xffff_ffff * top) by (nonlinear_arith)
        requires
            0 <= preset.bitrate <= 0xffff_ffff,
            0 <= pixels <= top,
    ;
    let scaled: u128 = preset.bitrate as u128 * pixels / cap_pixels;
    assert(scaled == preset.bitrate * pixels / cap_pixels as int);
    let low: u32 = preset.bitrate / 4;
    if scaled < low as u128 {
        low
    } else if scaled > preset.bitrate as u128 {
        preset.bitrate
    } else {
        scaled as u32
    }
}

/// The rate that the preset gives never exceeds the preset and never falls below a
/// quarter of it, and a picture of the preset's own size gets all of it.
pub proof fn law_preset_is_the_ceiling(width: u32, height: u32, preset: QualityPreset)
    ensures
        preset.bitrate as int / 4 <= scaled_bitrate(width, height, preset) <= preset.bitrate,
        width == preset.max_width && height == preset.max_height ==> scaled_bitrate(
            width,
            height,
            preset,
        ) == preset.bitrate,
{
    if width == preset.max_width && height == preset.max_height {
        let pixels = greatest(width * height, 1);
        vstd::arithmetic::div_mod::lemma_div_by_multiple(preset.bitrate as int, pixels);
    }
}

/// A picture dimension as encoders take it: even and at least two.
pub open spec fn even_dimension(size: u32) -> int {
    if size < 2 {
        2
    } else {
        size - size as int % 2
    }
}

/// Rounds a picture dimension down to an even number of at least two.
pub fn encoder_dimension(size: u32) -> (even: u32)
    ensures
        even == even_dimension(size),
{
    if size < 2 {
        2
    } else {
        size - size % 2
    }
}

/// What the encoder worker is asked to do.
#[derive(Clone, Copy, Debug, PartialEq, Eq, Structural)]
pub enum EncoderCommand {
    Video { generation: u64, width: u32, height: u32 },
    Flush,
    ForceKeyframe,
    SetBitrate(u32),
    Stop,
}

/// Which encoder the worker drives.
#[derive(Clone, Copy, Debug, PartialEq, Eq, Structural)]
pub enum EncoderBackend {
    VideoToolbox,
    OpenH264,
}

/// What the worker does about a command.
#[derive(Clone, Copy, Debug, PartialEq, Eq, Structural)]
pub enum EncoderAction {
    /// Nothing.
    Skip,
    /// Open the encoder, then report how that went.
    Open { width: u32, height: u32, bitrate: u32, fps: u32 },
    /// Encode the frame.
    Encode,
    /// Flush the encoder.
    Flush,
}

/// What the worker does before it waits for the next command.
#[derive(Clone, Copy, Debug, PartialEq, Eq, Structural)]
pub struct EncoderTick {
    /// Set this rate on the encoder.
    pub bitrate: Option<u32>,
    /// Force a keyframe on the encoder.
    pub keyframe: bool,
    /// Flush the encoder.
    pub flush: bool,
    /// End the worker.
    pub leave: bool,
}

/// What the encoder worker remembers between commands.
#[derive(Clone, Copy, Debug, PartialEq, Eq, Structural)]
pub struct EncoderWorker {
    pub backend: EncoderBackend,
    pub generation: u64,
    pub fps: u32,
    pub preset: QualityPreset,
    pub override_bps: Option<u32>,
    pub limits: BitrateLimits,
    pub encoder_open: bool,
    pub output_taken: bool,
}

/// The rate that this worker's encoder opens with for a frame of this size.
pub open spec fn opening_rate(worker: EncoderWorker, width: u32, height: u32) -> int {
    rate_for(
        even_dimension(width) as u32,
        even_dimension(height) as u32,
        worker.preset,
        worker.override_bps,
        worker.limits,
    )
}

/// The controls and what the worker does at the start of a round.
pub open spec fn round_begun(worker: EncoderWorker, control: EncoderControl, failed: bool) -> (
    EncoderControl,
    EncoderTick,
) {
    if control.stop_requested {
        (
            control,
            EncoderTick {
                bitrate: None,
                keyframe: false,
                flush: worker.encoder_open && worker.backend == EncoderBackend::VideoToolbox,
                leave: true,
            },
        )
    } else {
        (
            EncoderControl { bitrate: None, keyframe_requested: false, ..control },
            EncoderTick {
                bitrate: if worker.encoder_open {
                    control.bitrate
                } else {
                    None
                },
                keyframe: worker.encoder_open && control.keyframe_requested,
                flush: false,
                leave: failed,
            },
        )
    }
}

/// The worker, the controls and what is done about a command.
pub open spec fn commanded(
    worker: EncoderWorker,
    control: EncoderControl,
    command: EncoderCommand,
) -> (EncoderWorker, EncoderControl, EncoderAction) {
    match command {
        EncoderCommand::Video { generation, width, height } => if generation != worker.generation {
            (worker, control, EncoderAction::Skip)
        } else if worker.encoder_open {
            (worker, control, EncoderAction::Encode)
        } else if worker.output_taken {
            (worker, control, EncoderAction::Skip)
        } else {
            let rate = opening_rate(worker, width, height) as u32;
            (
                EncoderWorker { output_taken: true, ..worker },
                EncoderControl { target: rate, applied: rate, ..control },
                EncoderAction::Open {
                    width: even_dimension(width) as u32,
                    height: even_dimension(height) as u32,
                    bitrate: rate,
                    fps: worker.fps,
                },
            )
        },
        EncoderCommand::Flush => (
            worker,
            control,
            if worker.encoder_open && worker.backend == EncoderBackend::VideoToolbox {
                EncoderAction::Flush
            } else {
                EncoderAction::Skip
            },
        ),
        EncoderCommand::ForceKeyframe => (
            worker,
            EncoderControl { keyframe_requested: true, ..control },
            EncoderAction::Skip,
        ),
        EncoderCommand::SetBitrate(bitrate) => (
            worker,
            rate_set(control, bitrate),
            EncoderAction::Skip,
        ),
        EncoderCommand::Stop => (
            worker,
            EncoderControl { stop_requested: true, ..control },
            EncoderAction::Skip,
        ),
    }
}

/// What a worker does that got no frame.
pub open spec fn quiet_tick(worker: EncoderWorker, shutdown: bool) -> EncoderTick {
    EncoderTick {
        bitrate: None,
        keyframe: false,
        flush: shutdown && worker.encoder_open && worker.backend == EncoderBackend::VideoToolbox,
        leave: shutdown,
    }
}

impl EncoderWorker {
    /// A worker without an encoder yet.
    pub fn new(
        backend: EncoderBackend,
        generation: u64,
        fps: u32,
        preset: QualityPreset,
        override_bps: Option<u32>,
        limits: BitrateLimits,
    ) -> (worker: Self)
        ensures
            worker == (EncoderWorker {
                backend,
                generation,
                fps,
                preset,
                override_bps,
                limits,
                encoder_open: false,
                output_taken: false,
            }),
    {
        EncoderWorker {
            backend,
            generation,
            fps,
            preset,
            override_bps,
            limits,
            encoder_open: false,
            output_taken: false,
        }
    }

    /// The start of a round: hands pending controls to an open encoder. A stop
    /// request ends the worker at once, a failed pipeline after the controls.
    pub fn begin_round(&self, control: &mut EncoderControl, failed: bool) -> (tick: EncoderTick)
        ensures
            (*final(control), tick) == round_begun(*self, *old(control), failed),
            old(control).stop_requested ==> *final(control) == *old(control) && tick
                == (EncoderTick {
                bitrate: None,
                keyframe: false,
                flush: self.encoder_open && self.backend == EncoderBackend::VideoToolbox,
                leave: true,
            }),
            !old(control).stop_requested ==> *final(control) == (EncoderControl {
                bitrate: None,
                keyframe_requested: false,
                ..*old(control)
            }) && tick == (EncoderTick {
                bitrate: if self.encoder_open {
                    old(control).bitrate
                } else {
                    None
                },
                keyframe: self.encoder_open && old(control).keyframe_requested,
                flush: false,
                leave: failed,
            }),
    {
        if control.stop_requested() {
            let flush: bool = self.encoder_open && match self.backend {
                EncoderBackend::VideoToolbox => true,
                EncoderBackend::OpenH264 => false,
            };
            return EncoderTick { bitrate: None, keyframe: false, flush, leave: true };
        }
        let bitrate: Option<u32> = control.take_bitrate();
        let keyframe: bool = control.take_keyframe();
        EncoderTick {
            bitrate: if self.encoder_open {
                bitrate
            } else {
                None
            },
            keyframe: self.encoder_open && keyframe,
            flush: false,
            leave: failed,
        }
    }

    /// No command came for a while: the worker ends once it is shut down.
    pub fn on_quiet(&self, shutdown: bool) -> (tick: EncoderTick)
        ensures
            tick == quiet_tick(*self, shutdown),
            tick == (EncoderTick {
                bitrate: None,
                keyframe: false,
                flush: shutdown && self.encoder_open && self.backend
                    == EncoderBackend::VideoToolbox,
                leave: shutdown,
            }),
    {
        let flush: bool = shutdown && self.encoder_open && match self.backend {
            EncoderBackend::VideoToolbox => true,
            EncoderBackend::OpenH264 => false,
        };
        EncoderTick { bitrate: None, keyframe: false, flush, leave: shutdown }
    }

    /// Decides what a command leads to. The first frame of the worker's own
    /// generation opens the encoder at the rate for its size.
    pub fn on_command(&mut self, control: &mut EncoderControl, command: EncoderCommand) -> (action:
        EncoderAction)
        requires
            old(self).limits.min <= old(self).limits.max,
        ensures
            (*final(self), *final(control), action) == commanded(
                *old(self),
                *old(control),
                command,
            ),
            match command {
                EncoderCommand::Video { generation, width, height } => {
                    if generation != old(self).generation {
                        &&& action == EncoderAction::Skip
                        &&& *final(self) == *old(self)
                        &&& *final(control) == *old(control)
                    } else if old(self).encoder_open {
                        &&& action == EncoderAction::Encode
                        &&& *final(self) == *old(self)
                        &&& *final(control) == *old(control)
                    } else if old(self).output_taken {
                        &&& action == EncoderAction::Skip
                        &&& *final(self) == *old(self)
                        &&& *final(control) == *old(control)
                    } else {
                        let rate = opening_rate(*old(self), width, height) as u32;
                        &&& action == (EncoderAction::Open {
                            width: even_dimension(width) as u32,
                            height: even_dimension(height) as u32,
                            bitrate: rate,
                            fps: old(self).fps,
                        })
                        &&& *final(self) == (EncoderWorker { output_taken: true, ..*old(self) })
                        &&& *final(control) == (EncoderControl {
                            target: rate,
                            applied: rate,
                            ..*old(control)
                        })
                    }
                },
                EncoderCommand::Flush => {
                    &&& action == (if old(self).encoder_open && old(self).backend
                        == EncoderBackend::VideoToolbox {
                        EncoderAction::Flush
                    } else {
                        EncoderAction::Skip
                    })
                    &&& *final(self) == *old(self)
                    &&& *final(control) == *old(control)
                },
                EncoderCommand::ForceKeyframe => {
                    &&& action == EncoderAction::Skip
                    &&& *final(self) == *old(self)
                    &&& *final(control) == (EncoderControl {
                        keyframe_requested: true,
                        ..*old(control)
                    })
                },
                EncoderCommand::SetBitrate(bitrate) => {
                    &&& action == EncoderAction::Skip
                    &&& *final(self) == *old(self)
                    &&& *final(control) == rate_set(*old(control), bitrate)
                },
                EncoderCommand::Stop => {
                    &&& action == EncoderAction::Skip
                    &&& *final(self) == *old(self)
                    &&& *final(control) == (EncoderControl {
                        stop_requested: true,
                        ..*old(control)
                    })
                },
            },
    {
        match command {
            EncoderCommand::Video { generation, width, height } => {
                if generation != self.generation {
                    return EncoderAction::Skip;
                }
                if self.encoder_open {
                    return EncoderAction::Encode;
                }
                if self.output_taken {
                    return EncoderAction::Skip;
                }
                self.output_taken = true;
                let width: u32 = encoder_dimension(width);
                let height: u32 = encoder_dimension(height);
                let bitrate: u32 = encoder_bitrate(
                    width,
                    height,
                    self.preset,
                    self.override_bps,
                    self.limits,
                );
                control.set_target(bitrate);
                control.note_applied(bitrate);
                EncoderAction::Open { width, height, bitrate, fps: self.fps }
            },
            EncoderCommand::Flush => match self.backend {
                EncoderBackend::VideoToolbox => if self.encoder_open {
                    EncoderAction::Flush
                } else {
                    EncoderAction::Skip
                },
                EncoderBackend::OpenH264 => EncoderAction::Skip,
            },
            EncoderCommand::ForceKeyframe => {
                control.request_keyframe();
                EncoderAction::Skip
            },
            EncoderCommand::SetBitrate(bitrate) => {
                control.set_bitrate(bitrate);
                EncoderAction::Skip
            },
            EncoderCommand::Stop => {
                control.request_stop();
                EncoderAction::Skip
            },
        }
    }

    /// The encoder was opened, or could not be. A fresh encoder owes a keyframe and
    /// encodes the frame at hand; a failure ends the worker and fails the pipeline.
    pub fn on_opened(
        &mut self,
        control: &mut EncoderControl,
        state: &mut PipelineState,
        error: Option<&str>,
    ) -> (leave: bool)
        ensures
            leave == error is Some,
            match error {
                None => {
                    &&& *final(self) == (EncoderWorker { encoder_open: true, ..*old(self) })
                    &&& *final(control) == (EncoderControl {
                        keyframe_requested: true,
                        ..*old(control)
                    })
                    &&& *final(state) == *old(state)
                },
                Some(text) => {
                    &&& *final(self) == *old(self)
                    &&& *final(control) == *old(control)
                    &&& final(state).failed
                    &&& final(state).accepting_callbacks == old(state).accepting_callbacks
                    &&& match old(state).failure {
                        Some(first) => final(state).failure == Some(first),
                        None => final(state).failure is Some && final(state).failure->0@
                            == open_failure(old(self).backend, text@),
                    }
                },
            },
    {
        match error {
            None => {
                self.encoder_open = true;
                control.request_keyframe();
                false
            },
            Some(text) => {
                let mut line: String = (match self.backend {
                    EncoderBackend::VideoToolbox => "VideoToolbox initialization failed: ",
                    EncoderBackend::OpenH264 => "OpenH264 initialization failed: ",
                }).to_owned();
                line.append(text);
                state.fail(line);
                true
            },
        }
    }

    /// A frame could not be encoded: the next one that can be is a keyframe.
    pub fn on_encode_failed(&self, control: &mut EncoderControl)
        ensures
            *final(control) == (EncoderControl { keyframe_requested: true, ..*old(control) }),
    {
        control.request_keyframe();
    }
}

/// The failure text for an encoder that cannot be opened.
pub open spec fn open_failure(backend: EncoderBackend, error: Seq<char>) -> Seq<char> {
    (match backend {
        EncoderBackend::VideoToolbox => "VideoToolbox initialization failed: "@,
        EncoderBackend::OpenH264 => "OpenH264 initialization failed: "@,
    }) + error
}

/// The rate that is in force: the last one that feedback or a probe imposed, or else the
/// target.
pub open spec fn rate_in_force(control: EncoderControl) -> u32 {
    match control.congestion {
        Some(rate) => rate,
        None => control.target,
    }
}

/// Everything but the rates is the same.
pub open spec fn only_rates_differ(before: EncoderControl, after: EncoderControl) -> bool {
    &&& after.keyframe_requested == before.keyframe_requested
    &&& after.last_loss == before.last_loss
    &&& after.last_loss_at == before.last_loss_at
    &&& after.stop_requested == before.stop_requested
}

/// A floor only lifts: a stream at or above it keeps its rate, one below it is lifted to it,
/// and the target is never passed. The encoder is told at once.
pub proof fn law_floor_only_lifts(control: EncoderControl, floor: u32)
    ensures
        ({
            let after = floor_set(control, floor);
            let rate = rate_in_force(control);
            &&& rate <= control.target ==> after.applied >= rate
            &&& floor <= rate <= control.target ==> after.applied == rate
            &&& rate < floor <= control.target ==> after.applied == floor
            &&& after.applied <= control.target
            &&& floor <= control.target ==> after.floor == floor && after.applied >= floor
            &&& floor > control.target ==> after.floor == control.target && after.applied
                == control.target
            &&& after.bitrate == Some(after.applied)
            &&& after.target == control.target
            &&& after.congestion == control.congestion
            &&& after.last_decrease_at == control.last_decrease_at
            &&& only_rates_differ(control, after)
        }),
{
}

/// An explicit wish is followed to the letter: it is the target, it is what the encoder is
/// told, and earlier feedback is forgotten. The floor only moves where it would lie above.
pub proof fn law_explicit_rate_wins(control: EncoderControl, bitrate: u32)
    ensures
        ({
            let after = rate_set(control, bitrate);
            &&& after.target == bitrate
            &&& after.applied == bitrate
            &&& after.bitrate == Some(bitrate)
            &&& after.congestion is None
            &&& rate_in_force(after) == bitrate
            &&& after.floor <= bitrate
            &&& control.floor <= bitrate ==> after.floor == control.floor
            &&& control.floor > bitrate ==> after.floor == bitrate
            &&& after.last_decrease_at == control.last_decrease_at
            &&& only_rates_differ(control, after)
        }),
{
}

/// Feedback between floor and target is followed exactly, feedback outside as far as these
/// bounds allow, and more of it never means a lower rate. A decrease is remembered with its
/// time, and nothing else is.
pub proof fn law_feedback_is_followed(
    control: EncoderControl,
    bitrate: u32,
    more: u32,
    now: u64,
)
    requires
        bitrate <= more,
    ensures
        ({
            let after = congestion_noted(control, bitrate, now);
            &&& control.floor <= bitrate <= control.target ==> after.applied == bitrate
            &&& bitrate < control.floor <= control.target ==> after.applied == control.floor
            &&& bitrate > control.target ==> after.applied == control.target
            &&& after.applied <= control.target
            &&& after.applied <= congestion_noted(control, more, now).applied
            &&& after.congestion == Some(after.applied)
            &&& after.bitrate == Some(after.applied)
            &&& after.applied < control.applied ==> after.last_decrease_at == Some(now)
            &&& after.applied >= control.applied ==> after.last_decrease_at
                == control.last_decrease_at
            &&& after.target == control.target
            &&& after.floor == control.floor
            &&& only_rates_differ(control, after)
        }),
{
}

/// Within five seconds of the first report the worst loss counts; a later report opens a
/// new window with its own loss. Nothing else changes.
pub proof fn law_worst_loss_counts(control: EncoderControl, fraction_lost: u8, now: u64)
    ensures
        ({
            let after = loss_noted(control, fraction_lost, now);
            &&& after.last_loss >= fraction_lost
            &&& control.last_loss_at is Some && now < control.last_loss_at->0 + 5_000_000_000 ==> {
                &&& after.last_loss_at == control.last_loss_at
                &&& after.last_loss >= control.last_loss
                &&& after.last_loss == control.last_loss || after.last_loss == fraction_lost
            }
            &&& control.last_loss_at is None || now >= control.last_loss_at->0 + 5_000_000_000 ==> {
                &&& after.last_loss_at == Some(now)
                &&& after.last_loss == fraction_lost
            }
            &&& after.target == control.target
            &&& after.floor == control.floor
            &&& after.applied == control.applied
            &&& after.bitrate == control.bitrate
            &&& after.congestion == control.congestion
            &&& after.last_decrease_at == control.last_decrease_at
            &&& after.keyframe_requested == control.keyframe_requested
            &&& after.stop_requested == control.stop_requested
        }),
{
}

/// A probe waits three seconds after a decrease and five after real loss, and comes in every
/// other case in which the rate is below the target. It adds a quarter, or 200 kbit/s where
/// that is more, and ends at the target.
pub proof fn law_probe_waits_for_a_clean_path(control: EncoderControl, now: u64)
    ensures
        control.last_decrease_at is Some && now < control.last_decrease_at->0 + 3_000_000_000
            ==> probe(control, now) is None,
        control.last_loss > 5 && control.last_loss_at is Some && now < control.last_loss_at->0
            + 5_000_000_000 ==> probe(control, now) is None,
        control.applied >= control.target ==> probe(control, now) is None,
        (control.last_decrease_at is None || now >= control.last_decrease_at->0 + 3_000_000_000) && (
        control.last_loss <= 5 || control.last_loss_at is None || now >= control.last_loss_at->0
            + 5_000_000_000) && control.applied < control.target ==> probe(control, now) is Some,
        probe(control, now) matches Some(rate) ==> {
            &&& control.applied < rate <= control.target
            &&& rate < control.target && control.applied >= 800_000 ==> control.applied - 4 < 4 * (
            rate - control.applied) <= control.applied
            &&& rate < control.target && control.applied < 800_000 ==> rate == control.applied
                + 200_000
            &&& rate == control.target ==> control.target - control.applied <= 200_000 || 4 * (
            control.target - control.applied) <= control.applied
        },
{
}

/// The rate of a preset is in proportion to the number of pixels as far as its bounds
/// allow, and a larger picture never gets less.
pub proof fn law_rate_follows_the_picture(
    width: u32,
    height: u32,
    larger_width: u32,
    larger_height: u32,
    preset: QualityPreset,
)
    requires
        width <= larger_width,
        height <= larger_height,
        0 < width * height,
        0 < preset.max_width * preset.max_height,
    ensures
        scaled_bitrate(width, height, preset) <= scaled_bitrate(
            larger_width,
            larger_height,
            preset,
        ),
        preset.bitrate as int / 4 < scaled_bitrate(width, height, preset) < preset.bitrate
            ==> scaled_bitrate(width, height, preset) * (preset.max_width * preset.max_height)
            <= preset.bitrate * (width * height) < (scaled_bitrate(width, height, preset) + 1) * (
        preset.max_width * preset.max_height),
{
    let pixels = width * height;
    let more = larger_width * larger_height;
    let cap = preset.max_width * preset.max_height;
    assert(pixels <= more) by (nonlinear_arith)
        requires
            pixels == width * height,
            more == larger_width * larger_height,
            0 <= width <= larger_width,
            0 <= height <= larger_height,
    ;
    assert(preset.bitrate * pixels <= preset.bitrate * more) by (nonlinear_arith)
        requires
            pixels <= more,
            0 <= preset.bitrate,
    ;
    vstd::arithmetic::div_mod::lemma_div_is_ordered(
        preset.bitrate * pixels,
        preset.bitrate * more,
        cap,
    );
    let q = preset.bitrate * pixels / cap;
    vstd::arithmetic::div_mod::lemma_fundamental_div_mod(preset.bitrate * pixels, cap);
    vstd::arithmetic::div_mod::lemma_mod_bound(preset.bitrate * pixels, cap);
    assert(q * cap <= preset.bitrate * pixels < (q + 1) * cap) by (nonlinear_arith)
        requires
            preset.bitrate * pixels == cap * q + (preset.bitrate * pixels) % cap,
            0 <= (preset.bitrate * pixels) % cap < cap,
    ;
}

/// An explicit wish inside its limits is the rate whatever the picture; without one, or with
/// zero, the picture and the preset alone decide. Dimensions are even, at least two, and at
/// most one less than asked for.
pub proof fn law_wishes_come_before_presets(
    width: u32,
    height: u32,
    preset: QualityPreset,
    wish: u32,
    limits: BitrateLimits,
    other: BitrateLimits,
    size: u32,
)
    requires
        limits.min <= limits.max,
    ensures
        limits.min <= wish <= limits.max && wish > 0 ==> rate_for(
            width,
            height,
            preset,
            Some(wish),
            limits,
        ) == wish,
        wish > 0 ==> limits.min <= rate_for(width, height, preset, Some(wish), limits) <= limits.max,
        rate_for(width, height, preset, Some(0), limits) == rate_for(
            width,
            height,
            preset,
            None,
            other,
        ),
        rate_for(width, height, preset, None, limits) == scaled_bitrate(width, height, preset),
        even_dimension(size) % 2 == 0,
        even_dimension(size) >= 2,
        size >= 2 ==> size - 1 <= even_dimension(size) <= size,
{
}

/// What was asked of the encoder reaches an open one once: a requested keyframe and the
/// newest rate are handed over in the next round, and not again. A stop ends the worker
/// before anything else, and a failure after that round.
pub proof fn law_controls_reach_the_encoder_once(
    worker: EncoderWorker,
    control: EncoderControl,
    failed: bool,
)
    ensures
        ({
            let (after, tick) = round_begun(worker, control, failed);
            &&& worker.encoder_open && !control.stop_requested ==> tick.keyframe
                == control.keyframe_requested && tick.bitrate == control.bitrate
            &&& !worker.encoder_open || control.stop_requested ==> !tick.keyframe && tick.bitrate
                is None
            &&& !control.stop_requested ==> !after.keyframe_requested && after.bitrate is None
            &&& control.stop_requested ==> after == control
            &&& tick.leave == (control.stop_requested || failed)
            &&& tick.flush ==> control.stop_requested && worker.encoder_open && worker.backend
                == EncoderBackend::VideoToolbox
            &&& control.stop_requested && worker.encoder_open && worker.backend
                == EncoderBackend::VideoToolbox ==> tick.flush
            &&& after.target == control.target
            &&& after.floor == control.floor
            &&& after.applied == control.applied
            &&& after.congestion == control.congestion
            &&& after.last_decrease_at == control.last_decrease_at
            &&& after.last_loss == control.last_loss
            &&& after.last_loss_at == control.last_loss_at
            &&& after.stop_requested == control.stop_requested
        }),
{
}

/// Frames of other sessions leave no trace; the first frame of the worker's own session opens
/// the encoder, once, at a rate that is then target and applied rate; and every frame behind
/// that is encoded as long as the encoder is open.
pub proof fn law_encoder_opens_once(
    worker: EncoderWorker,
    control: EncoderControl,
    generation: u64,
    width: u32,
    height: u32,
)
    requires
        worker.limits.min <= worker.limits.max,
    ensures
        ({
            let frame = EncoderCommand::Video { generation, width, height };
            let (after, told, action) = commanded(worker, control, frame);
            &&& generation != worker.generation ==> after == worker && told == control && action
                == EncoderAction::Skip
            &&& generation == worker.generation && worker.encoder_open ==> after == worker && told
                == control && action == EncoderAction::Encode
            &&& action is Open <==> generation == worker.generation && !worker.encoder_open
                && !worker.output_taken
            &&& action matches EncoderAction::Open { width: w, height: h, bitrate, fps } ==> {
                &&& w == even_dimension(width)
                &&& h == even_dimension(height)
                &&& fps == worker.fps
                &&& bitrate == rate_for(w, h, worker.preset, worker.override_bps, worker.limits)
                &&& told.target == bitrate
                &&& told.applied == bitrate
                &&& after.output_taken
                &&& commanded(after, told, frame).2 == EncoderAction::Skip
                &&& commanded(EncoderWorker { encoder_open: true, ..after }, told, frame).2
                    == EncoderAction::Encode
            }
            &&& after.encoder_open == worker.encoder_open
            &&& after.generation == worker.generation
            &&& told.bitrate == control.bitrate
            &&& told.keyframe_requested == control.keyframe_requested
            &&& told.floor == control.floor
            &&& told.congestion == control.congestion
            &&& told.stop_requested == control.stop_requested
        }),
{
    if worker.override_bps is Some && worker.override_bps->0 > 0 {
    } else {
        law_preset_is_the_ceiling(
            even_dimension(width) as u32,
            even_dimension(height) as u32,
            worker.preset,
        );
    }
}

/// A command that is no frame does what it says and nothing else.
pub proof fn law_commands_do_what_they_say(
    worker: EncoderWorker,
    control: EncoderControl,
    bitrate: u32,
)
    ensures
        ({
            let (after, told, action) = commanded(worker, control, EncoderCommand::ForceKeyframe);
            &&& after == worker
            &&& action == EncoderAction::Skip
            &&& told.keyframe_requested
            &&& told.bitrate == control.bitrate && told.target == control.target
                && told.stop_requested == control.stop_requested
        }),
        ({
            let (after, told, action) = commanded(worker, control, EncoderCommand::Stop);
            &&& after == worker
            &&& action == EncoderAction::Skip
            &&& told.stop_requested
            &&& told.bitrate == control.bitrate && told.target == control.target
                && told.keyframe_requested == control.keyframe_requested
        }),
        ({
            let (after, told, action) = commanded(
                worker,
                control,
                EncoderCommand::SetBitrate(bitrate),
            );
            &&& after == worker
            &&& action == EncoderAction::Skip
            &&& told.target == bitrate
            &&& told.bitrate == Some(bitrate)
            &&& told.stop_requested == control.stop_requested
        }),
        ({
            let (after, told, action) = commanded(worker, control, EncoderCommand::Flush);
            &&& after == worker
            &&& told == control
            &&& action == EncoderAction::Flush <==> worker.encoder_open && worker.backend
                == EncoderBackend::VideoToolbox
            &&& action == EncoderAction::Flush || action == EncoderAction::Skip
        }),
{
}

/// No frame of an earlier session is shown: a new session has another generation, and only
/// frames of a pipeline that carries it are current.
pub proof fn law_old_frames_are_not_shown(generation: u64, pipeline: u64, frame: u64)
    ensures
        next_generation(generation) != generation,
        !frame_is_current(next_generation(generation), generation, frame),
        !frame_is_current(next_generation(generation), pipeline, generation),
        frame_is_current(generation, generation, generation),
        frame_is_current(generation, pipeline, frame) ==> frame == generation && pipeline
            == generation,
{
}

/// A probe step is in force from then on and reaches the encoder, and moves neither what was
/// asked for nor the floor.
pub proof fn law_probes_take_effect(control: EncoderControl, bitrate: u32)
    ensures
        ({
            let after = probed(control, bitrate);
            &&& rate_in_force(after) == bitrate
            &&& after.bitrate == Some(bitrate)
            &&& after.applied == bitrate
            &&& only_rates_differ(control, after)
            &&& after.target == control.target
            &&& after.floor == control.floor
        }),
{
}

/// A picture is shown as it was captured: its number, its time, its size and every byte.
pub proof fn law_pictures_are_shown_as_captured(
    event: PreviewFrameEvent,
    frame: NativeFrame,
    other: PreviewFrameEvent,
)
    ensures
        shows(event, frame) ==> {
            &&& event.sequence == frame.sequence
            &&& event.timestamp_micros == frame.timestamp_micros
            &&& event.width == frame.width && event.height == frame.height
            &&& event.payload@ == frame.storage@
        },
        shows(event, frame) && same_picture(event, other) ==> shows(other, frame),
{
}

/// A stream begins at its target, with nothing asked of the encoder and a floor that is not
/// above the target; a later wish for the same floor leaves the rate where it is.
pub proof fn law_streams_begin_at_their_target(target: u32, floor: u32)
    ensures
        ({
            let begun = control_begun(target, floor);
            &&& rate_in_force(begun) == target && begun.applied == target && begun.target == target
            &&& begun.floor <= floor && begun.floor <= target
            &&& begun.floor == floor || begun.floor == target
            &&& !begun.keyframe_requested && !begun.stop_requested && begun.bitrate is None
            &&& begun.last_loss == 0 && begun.last_loss_at is None && begun.last_decrease_at is None
            &&& floor_set(begun, floor).applied == target
            &&& floor_set(begun, floor).floor == begun.floor
        }),
{
}

/// A worker leaves when it is shut down, never before, and flushes what the hardware encoder
/// still holds exactly on leaving; a quiet moment changes nothing of the stream.
pub proof fn law_workers_leave_flushed(worker: EncoderWorker, shutdown: bool)
    ensures
        ({
            let tick = quiet_tick(worker, shutdown);
            &&& tick.leave == shutdown
            &&& tick.flush ==> tick.leave
            &&& tick.leave && worker.encoder_open ==> (tick.flush <==> worker.backend
                is VideoToolbox)
            &&& !worker.encoder_open ==> !tick.flush
            &&& tick.bitrate is None && !tick.keyframe
        }),
{
}

} // verus!
