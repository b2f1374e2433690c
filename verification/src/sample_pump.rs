//! What happens to each encoded unit on its way to one viewer, and to what the viewer
//! reports back.

use vstd::prelude::*;
use crate::access_unit::EncodedAccessUnit;
use crate::codecs::{profile_passes, sample_profile_accepted};
use crate::pipeline::{elapsed, within, EncoderControl};
use crate::rtp::{duration_from_90khz, rtp_delta, timestamp_from_90khz};

verus! {

/// While units are dropped for want of a keyframe, every so many of them ask for one
/// again.
pub const KEYFRAME_REMINDER: u64 = 30;

/// Every so many units dropped for want of a keyframe are worth a line in the log.
pub const WAITING_NOTICE: u64 = 300;

/// Every so many units dropped for their profile are worth a line in the log, besides
/// the first.
pub const PROFILE_NOTICE: u64 = 600;

/// The pump of one viewer.
#[derive(Clone, Copy, Debug, PartialEq, Eq, Structural)]
pub struct SamplePump {
    /// Nothing is sent before the next keyframe.
    pub awaiting_keyframe: bool,
    pub previous_timestamp: Option<u64>,
    pub units_seen: u64,
    pub dropped_awaiting: u64,
    pub dropped_profile_mismatch: u64,
    pub wrote_first: bool,
    /// The session sends H.264 High.
    pub allow_high_profile: bool,
    /// How long a frame usually lasts, in nanoseconds.
    pub frame_nanos: u64,
}

/// What becomes of a unit.
#[derive(Clone, Copy, Debug, PartialEq, Eq, Structural)]
pub enum PumpAction {
    /// The viewer is not connected.
    NotConnected,
    /// It is no keyframe, and one is needed. `notice`: worth a line in the log.
    NeedsKeyframe { notice: bool },
    /// It has another profile than the session. `notice`: worth a line in the log.
    WrongProfile { notice: bool },
    /// Its time cannot be expressed: the peer has failed.
    TimeOverflow,
    /// It is sent with this time since 1970 and duration, both in nanoseconds, and RTP
    /// time stamp. `starts`: it opens the stream.
    Write { nanos: u64, duration: u64, packet_timestamp: u32, starts: bool },
}

/// A counter one higher, as far as it goes.
pub open spec fn counted(n: u64) -> u64 {
    if n < u64::MAX {
        (n + 1) as u64
    } else {
        n
    }
}

fn count(n: u64) -> (more: u64)
    ensures
        more == counted(n),
{
    if n < u64::MAX {
        n + 1
    } else {
        n
    }
}

/// The duration of a sample behind the given one.
pub open spec fn sample_duration(previous: Option<u64>, current: u64, frame_nanos: u64) -> int {
    match previous {
        None => frame_nanos as int,
        Some(before) => {
            let delta = rtp_delta(before, current);
            if delta == 0 || delta > 900_000 {
                frame_nanos as int
            } else {
                delta * 1_000_000_000 / 90_000
            }
        },
    }
}

/// What becomes of a unit that a pump is handed, and whether a keyframe is asked for.
pub open spec fn pump_step(
    pump: SamplePump,
    unit: crate::access_unit::AccessUnit,
    connected: bool,
) -> (SamplePump, PumpAction, bool) {
    let seen = SamplePump { units_seen: counted(pump.units_seen), ..pump };
    if !connected {
        (
            SamplePump { awaiting_keyframe: true, previous_timestamp: None, ..seen },
            PumpAction::NotConnected,
            false,
        )
    } else if pump.awaiting_keyframe && !unit.keyframe {
        let dropped = counted(pump.dropped_awaiting);
        (
            SamplePump { dropped_awaiting: dropped, ..seen },
            PumpAction::NeedsKeyframe { notice: dropped % WAITING_NOTICE == 0 },
            dropped % KEYFRAME_REMINDER == 0,
        )
    } else {
        let open = SamplePump { awaiting_keyframe: false, ..seen };
        if !profile_passes(unit.profile_level_id, pump.allow_high_profile) {
            let dropped = counted(pump.dropped_profile_mismatch);
            (
                SamplePump { dropped_profile_mismatch: dropped, ..open },
                PumpAction::WrongProfile { notice: dropped == 1 || dropped % PROFILE_NOTICE == 0 },
                false,
            )
        } else if unit.timestamp_90khz * 1_000_000_000 > u64::MAX {
            (open, PumpAction::TimeOverflow, false)
        } else {
            (
                SamplePump { previous_timestamp: Some(unit.timestamp_90khz), ..open },
                PumpAction::Write {
                    nanos: (unit.timestamp_90khz * 1_000_000_000 / 90_000) as u64,
                    duration: sample_duration(
                        pump.previous_timestamp,
                        unit.timestamp_90khz,
                        pump.frame_nanos,
                    ) as u64,
                    packet_timestamp: if unit.timestamp_90khz < u32::MAX {
                        unit.timestamp_90khz as u32
                    } else {
                        u32::MAX
                    },
                    starts: pump.awaiting_keyframe,
                },
                false,
            )
        }
    }
}

impl SamplePump {
    /// A pump that waits for its first keyframe.
    pub fn new(allow_high_profile: bool, frame_nanos: u64) -> (pump: Self)
        ensures
            pump == (SamplePump {
                awaiting_keyframe: true,
                previous_timestamp: None,
                units_seen: 0,
                dropped_awaiting: 0,
                dropped_profile_mismatch: 0,
                wrote_first: false,
                allow_high_profile,
                frame_nanos,
            }),
    {
        SamplePump {
            awaiting_keyframe: true,
            previous_timestamp: None,
            units_seen: 0,
            dropped_awaiting: 0,
            dropped_profile_mismatch: 0,
            wrote_first: false,
            allow_high_profile,
            frame_nanos,
        }
    }

    /// Decides on one unit. Units before the first keyframe of a connection are
    /// dropped, and from time to time one of them asks for a keyframe. A unit whose
    /// time overflows stops the encoder.
    pub fn on_unit(
        &mut self,
        control: &mut EncoderControl,
        unit: &EncodedAccessUnit,
        connected: bool,
    ) -> (action: PumpAction)
        ensures
            ({
                let (pump, step, ask) = pump_step(*old(self), unit@, connected);
                &&& *final(self) == pump
                &&& action == step
                &&& *final(control) == if ask {
                    EncoderControl { keyframe_requested: true, ..*old(control) }
                } else if step is TimeOverflow {
                    EncoderControl { stop_requested: true, ..*old(control) }
                } else {
                    *old(control)
                }
            }),
    {
        self.units_seen = count(self.units_seen);
        if !connected {
            self.awaiting_keyframe = true;
            self.previous_timestamp = None;
            return PumpAction::NotConnected;
        }
        let starts: bool = self.awaiting_keyframe;
        if self.awaiting_keyframe {
            if !unit.keyframe {
                self.dropped_awaiting = count(self.dropped_awaiting);
                if self.dropped_awaiting % KEYFRAME_REMINDER == 0 {
                    control.request_keyframe();
                }
                return PumpAction::NeedsKeyframe {
                    notice: self.dropped_awaiting % WAITING_NOTICE == 0,
                };
            }
            self.awaiting_keyframe = false;
        }
        let profile: Option<&str> = match &unit.profile_level_id {
            Some(id) => Some(id.as_str()),
            None => None,
        };
        if !sample_profile_accepted(profile, self.allow_high_profile) {
            self.dropped_profile_mismatch = count(self.dropped_profile_mismatch);
            return PumpAction::WrongProfile {
                notice: self.dropped_profile_mismatch == 1 || self.dropped_profile_mismatch
                    % PROFILE_NOTICE == 0,
            };
        }
        match timestamp_from_90khz(unit.timestamp_90khz) {
            None => {
                control.request_stop();
                PumpAction::TimeOverflow
            },
            Some(nanos) => {
                let duration: u64 = duration_from_90khz(
                    self.previous_timestamp,
                    unit.timestamp_90khz,
                    self.frame_nanos,
                );
                self.previous_timestamp = Some(unit.timestamp_90khz);
                let packet_timestamp: u32 = if unit.timestamp_90khz < u32::MAX as u64 {
                    unit.timestamp_90khz as u32
                } else {
                    u32::MAX
                };
                PumpAction::Write { nanos, duration, packet_timestamp, starts }
            },
        }
    }

    /// The unit was written. Says whether it is the first one.
    pub fn on_written(&mut self) -> (first: bool)
        ensures
            first == !old(self).wrote_first,
            *final(self) == (SamplePump { wrote_first: true, ..*old(self) }),
    {
        let first: bool = !self.wrote_first;
        self.wrote_first = true;
        first
    }
}

/// Nothing reaches a viewer before a keyframe: what is written while a keyframe is
/// awaited is one, and a connection that was lost awaits one again.
pub proof fn law_stream_opens_with_a_keyframe(
    pump: SamplePump,
    unit: crate::access_unit::AccessUnit,
    connected: bool,
)
    ensures
        pump_step(pump, unit, connected).1 is Write && pump.awaiting_keyframe ==> unit.keyframe,
        !connected ==> pump_step(pump, unit, connected).0.awaiting_keyframe,
        pump_step(pump, unit, connected).1 is Write ==> connected && profile_passes(
            unit.profile_level_id,
            pump.allow_high_profile,
        ),
{
}

/// A pump that was handed some units while its viewer was connected.
pub open spec fn fed(pump: SamplePump, units: Seq<crate::access_unit::AccessUnit>) -> SamplePump
    decreases units.len(),
{
    if units.len() == 0 {
        pump
    } else {
        pump_step(fed(pump, units.drop_last()), units.last(), true).0
    }
}

proof fn lemma_waiting_counts(pump: SamplePump, units: Seq<crate::access_unit::AccessUnit>)
    requires
        pump.awaiting_keyframe,
        pump.dropped_awaiting + units.len() <= u64::MAX,
        forall|k: int| 0 <= k < units.len() ==> !(#[trigger] units[k]).keyframe,
    ensures
        fed(pump, units).awaiting_keyframe,
        fed(pump, units).dropped_awaiting == pump.dropped_awaiting + units.len(),
    decreases units.len(),
{
    if units.len() > 0 {
        assert(!units[units.len() - 1].keyframe);
        lemma_waiting_counts(pump, units.drop_last());
    }
}

/// A connected viewer that gets nothing but units without a keyframe has one asked for
/// among the first [`KEYFRAME_REMINDER`] of them.
pub proof fn law_waiting_asks_again(
    pump: SamplePump,
    units: Seq<crate::access_unit::AccessUnit>,
)
    requires
        pump.awaiting_keyframe,
        units.len() == KEYFRAME_REMINDER,
        pump.dropped_awaiting + units.len() <= u64::MAX,
        forall|k: int| 0 <= k < units.len() ==> !(#[trigger] units[k]).keyframe,
    ensures
        exists|k: int|
            0 <= k < units.len() && (#[trigger] pump_step(fed(pump, units.take(k)), units[k], true)).2,
{
    let k: int = KEYFRAME_REMINDER - 1 - pump.dropped_awaiting % KEYFRAME_REMINDER;
    lemma_waiting_counts(pump, units.take(k));
    assert(!units[k].keyframe);
    assert(pump_step(fed(pump, units.take(k)), units[k], true).2);
}

/// A report of a viewer.
#[derive(Debug, PartialEq, Eq)]
pub enum Feedback {
    /// It lost a picture, or asks for a full one.
    KeyframeNeeded,
    /// The lost fractions of its receiver report.
    Losses(Vec<u8>),
    /// Its estimate of the bandwidth, where it is a positive number.
    Estimate(Option<u32>),
}

/// The least and the highest estimate that is followed.
pub const LOWEST_ESTIMATE: u32 = 250_000;

pub const HIGHEST_ESTIMATE: u32 = 50_000_000;

/// An estimate is worth a line in the log after so many nanoseconds.
pub const ESTIMATE_NOTICE: u64 = 30_000_000_000;

/// The greatest of some fractions.
pub open spec fn worst_loss(fractions: Seq<u8>) -> Option<u8>
    decreases fractions.len(),
{
    if fractions.len() == 0 {
        None
    } else {
        match worst_loss(fractions.drop_last()) {
            Some(worst) => if fractions.last() > worst {
                Some(fractions.last())
            } else {
                Some(worst)
            },
            None => Some(fractions.last()),
        }
    }
}

fn worst_of(fractions: &Vec<u8>) -> (worst: Option<u8>)
    ensures
        worst == worst_loss(fractions@),
{
    let mut worst: Option<u8> = None;
    let mut i: usize = 0;
    assert(fractions@.take(0) =~= Seq::<u8>::empty());
    while i < fractions.len()
        invariant
            i <= fractions@.len(),
            worst == worst_loss(fractions@.take(i as int)),
        decreases fractions@.len() - i,
    {
        let fraction: u8 = fractions[i];
        assert(fractions@.take(i as int + 1).drop_last() =~= fractions@.take(i as int));
        assert(fractions@.take(i as int + 1).last() == fraction);
        worst = match worst {
            Some(w) => if fraction > w {
                Some(fraction)
            } else {
                Some(w)
            },
            None => Some(fraction),
        };
        i += 1;
    }
    assert(fractions@.take(i as int) =~= fractions@);
    worst
}

/// When an estimate was last logged, and which one.
#[derive(Clone, Copy, Debug, PartialEq, Eq)]
pub struct EstimateTrace {
    pub last_logged: Option<(u64, u32)>,
}

/// The estimate that is followed in place of a reported one.
pub open spec fn followed_estimate(bitrate: u32) -> u32 {
    within(bitrate as int, LOWEST_ESTIMATE as int, HIGHEST_ESTIMATE as int) as u32
}

/// The distance of two rates.
pub open spec fn distance(a: u32, b: u32) -> int {
    if a >= b {
        a - b
    } else {
        b - a
    }
}

/// An estimate is worth a line in the log if it is the first, if the last line is old,
/// or if it moved by more than a quarter.
pub open spec fn estimate_is_news(trace: EstimateTrace, bitrate: u32, now: u64) -> bool {
    match trace.last_logged {
        None => true,
        Some((at, previous)) => elapsed(now, at) >= ESTIMATE_NOTICE || distance(bitrate, previous)
            * 4 > previous,
    }
}

/// What a report leaves behind: the trace, the control, and what is worth a line.
pub open spec fn reported(
    trace: EstimateTrace,
    control: EncoderControl,
    feedback: Feedback,
    now: u64,
) -> (EstimateTrace, EncoderControl, Option<(u32, u32)>) {
    match feedback {
        Feedback::KeyframeNeeded => (
            trace,
            EncoderControl { keyframe_requested: true, ..control },
            None,
        ),
        Feedback::Losses(fractions) => (
            trace,
            match worst_loss(fractions@) {
                None => control,
                Some(worst) => crate::pipeline::loss_noted(control, worst, now),
            },
            None,
        ),
        Feedback::Estimate(None) => (trace, control, None),
        Feedback::Estimate(Some(bitrate)) => {
            let rate = followed_estimate(bitrate);
            (
                if estimate_is_news(trace, rate, now) {
                    EstimateTrace { last_logged: Some((now, rate)) }
                } else {
                    trace
                },
                crate::pipeline::congestion_noted(control, rate, now),
                if estimate_is_news(trace, rate, now) {
                    Some((rate, control.target))
                } else {
                    None
                },
            )
        },
    }
}

impl EstimateTrace {
    /// A trace without lines.
    pub fn new() -> (trace: Self)
        ensures
            trace.last_logged is None,
    {
        EstimateTrace { last_logged: None }
    }

    /// Passes a report on to the encoder. Returns the estimate and the target where they
    /// are worth a line in the log.
    pub fn on_feedback(&mut self, control: &mut EncoderControl, feedback: &Feedback, now: u64) -> (news:
        Option<(u32, u32)>)
        ensures
            (*final(self), *final(control), news) == reported(
                *old(self),
                *old(control),
                *feedback,
                now,
            ),
            match *feedback {
                Feedback::KeyframeNeeded => {
                    &&& *final(control) == (EncoderControl {
                        keyframe_requested: true,
                        ..*old(control)
                    })
                    &&& *final(self) == *old(self)
                    &&& news is None
                },
                Feedback::Losses(fractions) => {
                    &&& *final(self) == *old(self)
                    &&& news is None
                    &&& match worst_loss(fractions@) {
                        None => *final(control) == *old(control),
                        Some(worst) => *final(control) == crate::pipeline::loss_noted(
                            *old(control),
                            worst,
                            now,
                        ),
                    }
                },
                Feedback::Estimate(None) => {
                    &&& *final(control) == *old(control)
                    &&& *final(self) == *old(self)
                    &&& news is None
                },
                Feedback::Estimate(Some(bitrate)) => {
                    let rate = followed_estimate(bitrate);
                    &&& *final(control) == crate::pipeline::congestion_noted(
                        *old(control),
                        rate,
                        now,
                    )
                    &&& *final(self) == if estimate_is_news(*old(self), rate, now) {
                        EstimateTrace { last_logged: Some((now, rate)) }
                    } else {
                        *old(self)
                    }
                    &&& news == if estimate_is_news(*old(self), rate, now) {
                        Some((rate, old(control).target))
                    } else {
                        None
                    }
                },
            },
    {
        match feedback {
            Feedback::KeyframeNeeded => {
                control.request_keyframe();
                None
            },
            Feedback::Losses(fractions) => {
                if let Some(worst) = worst_of(fractions) {
                    control.note_loss(worst, now);
                }
                None
            },
            Feedback::Estimate(None) => None,
            Feedback::Estimate(Some(bitrate)) => {
                let rate: u32 = if *bitrate < LOWEST_ESTIMATE {
                    LOWEST_ESTIMATE
                } else if *bitrate > HIGHEST_ESTIMATE {
                    HIGHEST_ESTIMATE
                } else {
                    *bitrate
                };
                control.set_congestion_bitrate(rate, now);
                let news: bool = match self.last_logged {
                    None => true,
                    Some((at, previous)) => {
                        let age: u64 = if now >= at {
                            now - at
                        } else {
                            0
                        };
                        let gap: u64 = if rate >= previous {
                            (rate - previous) as u64
                        } else {
                            (previous - rate) as u64
                        };
                        age >= ESTIMATE_NOTICE || gap * 4 > previous as u64
                    },
                };
                if news {
                    self.last_logged = Some((now, rate));
                    Some((rate, control.target()))
                } else {
                    None
                }
            },
        }
    }
}

/// A unit reaches a connected viewer exactly where the stream is open or the unit opens it,
/// the session takes its profile, and its time can be told. It goes out with its own time,
/// lasts as long as the clock ran since the one before, or as long as a frame where that is
/// unknown, not a step or more than ten seconds, and becomes the one before for the next.
pub proof fn law_units_go_out_at_their_time(
    pump: SamplePump,
    unit: crate::access_unit::AccessUnit,
    connected: bool,
)
    ensures
        ({
            let (after, action, asks) = pump_step(pump, unit, connected);
            &&& action is Write <==> connected && (!pump.awaiting_keyframe || unit.keyframe)
                && profile_passes(unit.profile_level_id, pump.allow_high_profile)
                && unit.timestamp_90khz * 1_000_000_000 <= u64::MAX
            &&& action is Write ==> {
                &&& action->nanos * 90_000 <= unit.timestamp_90khz * 1_000_000_000
                &&& unit.timestamp_90khz * 1_000_000_000 < (action->nanos + 1) * 90_000
                &&& action->starts == pump.awaiting_keyframe
                &&& action->packet_timestamp <= unit.timestamp_90khz
                &&& unit.timestamp_90khz <= u32::MAX ==> action->packet_timestamp
                    == unit.timestamp_90khz
                &&& unit.timestamp_90khz > u32::MAX ==> action->packet_timestamp == u32::MAX
                &&& after.previous_timestamp == Some(unit.timestamp_90khz)
                &&& !after.awaiting_keyframe
                &&& !asks
                &&& pump.previous_timestamp is None ==> action->duration == pump.frame_nanos
                &&& pump.previous_timestamp is Some ==> {
                    let before = pump.previous_timestamp->0;
                    let ticks = unit.timestamp_90khz - before;
                    &&& 0 < ticks <= 900_000 ==> action->duration * 90_000 <= ticks
                        * 1_000_000_000 < (action->duration + 1) * 90_000
                    &&& ticks == 0 ==> action->duration == pump.frame_nanos
                    &&& 900_000 < ticks < 0x1_0000_0000 ==> action->duration == pump.frame_nanos
                    &&& -0xfff0_0000 < ticks < 0 ==> action->duration == pump.frame_nanos
                }
            }
        }),
{
    let ts = unit.timestamp_90khz;
    if pump_step(pump, unit, connected).1 is Write {
        assert(ts * 1_000_000_000 / 90_000 <= u64::MAX);
        if pump.previous_timestamp is Some {
            let before = pump.previous_timestamp->0;
            let delta = rtp_delta(before, ts);
            let ticks = ts - before;
            if 0 <= ticks < 0x1_0000_0000 {
                vstd::arithmetic::div_mod::lemma_sub_mod_noop(
                    ts as int,
                    before as int,
                    0x1_0000_0000,
                );
                vstd::arithmetic::div_mod::lemma_small_mod(ticks as nat, 0x1_0000_0000);
                assert(delta == ticks);
            } else if -0xfff0_0000 < ticks < 0 {
                vstd::arithmetic::div_mod::lemma_sub_mod_noop(
                    ts as int,
                    before as int,
                    0x1_0000_0000,
                );
                vstd::arithmetic::div_mod::lemma_mod_add_multiples_vanish(ticks, 0x1_0000_0000);
                vstd::arithmetic::div_mod::lemma_small_mod(
                    (ticks + 0x1_0000_0000) as nat,
                    0x1_0000_0000,
                );
                assert(delta == ticks + 0x1_0000_0000);
                assert(delta > 900_000);
            }
        }
    }
}

/// What is not sent is counted, once, where it belongs, and leaves everything else of the
/// pump as it was: what waits for a keyframe, what has the wrong profile. A lost connection
/// forgets the time of the last unit. Whatever comes is seen, and what the session is stays.
pub proof fn law_drops_are_counted(
    pump: SamplePump,
    unit: crate::access_unit::AccessUnit,
    connected: bool,
)
    requires
        pump.units_seen < u64::MAX,
        pump.dropped_awaiting < u64::MAX,
        pump.dropped_profile_mismatch < u64::MAX,
    ensures
        ({
            let (after, action, asks) = pump_step(pump, unit, connected);
            let waits = connected && pump.awaiting_keyframe && !unit.keyframe;
            let strange = connected && !waits && !profile_passes(
                unit.profile_level_id,
                pump.allow_high_profile,
            );
            &&& after.units_seen == pump.units_seen + 1
            &&& after.dropped_awaiting == pump.dropped_awaiting + if waits {
                1int
            } else {
                0
            }
            &&& after.dropped_profile_mismatch == pump.dropped_profile_mismatch + if strange {
                1int
            } else {
                0
            }
            &&& after.wrote_first == pump.wrote_first
            &&& after.allow_high_profile == pump.allow_high_profile
            &&& after.frame_nanos == pump.frame_nanos
            &&& action is NotConnected <==> !connected
            &&& !connected ==> after.awaiting_keyframe && after.previous_timestamp is None && !asks
            &&& action is NeedsKeyframe <==> waits
            &&& waits ==> {
                &&& after.awaiting_keyframe
                &&& after.previous_timestamp == pump.previous_timestamp
                &&& asks <==> after.dropped_awaiting % 30 == 0
                &&& action->NeedsKeyframe_notice <==> after.dropped_awaiting % 300 == 0
            }
            &&& action is WrongProfile <==> strange
            &&& strange ==> {
                &&& !after.awaiting_keyframe
                &&& after.previous_timestamp == pump.previous_timestamp
                &&& !asks
                &&& action->WrongProfile_notice <==> after.dropped_profile_mismatch == 1
                    || after.dropped_profile_mismatch % 600 == 0
            }
            &&& action is TimeOverflow ==> after.previous_timestamp == pump.previous_timestamp
                && !asks
        }),
{
}

/// The worst loss is one of the reported ones, and none is worse.
pub proof fn law_worst_is_the_greatest(fractions: Seq<u8>)
    ensures
        worst_loss(fractions) is None <==> fractions.len() == 0,
        worst_loss(fractions) is Some ==> fractions.contains(worst_loss(fractions)->0),
        forall|k: int|
            0 <= k < fractions.len() ==> (#[trigger] fractions[k]) <= worst_loss(fractions)->0,
    decreases fractions.len(),
{
    if fractions.len() > 0 {
        let before = fractions.drop_last();
        law_worst_is_the_greatest(before);
        if before.len() > 0 {
            let k = before.index_of(worst_loss(before)->0);
            assert(fractions[k] == before[k]);
        }
        assert(fractions[fractions.len() - 1] == fractions.last());
        assert forall|k: int| 0 <= k < fractions.len() implies (#[trigger] fractions[k])
            <= worst_loss(fractions)->0 by {
            if k < before.len() {
                assert(before[k] == fractions[k]);
            }
        }
    }
}

/// An estimate is followed as it is between a quarter of a megabit and fifty, and from its
/// nearer end beyond.
pub proof fn law_estimates_are_kept_sane(bitrate: u32)
    ensures
        250_000 <= followed_estimate(bitrate) <= 50_000_000,
        250_000 <= bitrate <= 50_000_000 ==> followed_estimate(bitrate) == bitrate,
        bitrate < 250_000 ==> followed_estimate(bitrate) == 250_000,
        bitrate > 50_000_000 ==> followed_estimate(bitrate) == 50_000_000,
{
}

/// Every report reaches the encoder's control: a lost picture asks for a keyframe, losses
/// count by the worst, an estimate by what is followed of it, and nothing else happens. Only
/// an estimate is worth a line: the first, one half a minute behind the last line, and one
/// more than a quarter away from it. The line tells the rate and the target, and is remembered.
pub proof fn law_reports_reach_the_encoder(
    trace: EstimateTrace,
    control: EncoderControl,
    feedback: Feedback,
    now: u64,
)
    ensures
        ({
            let (after, told, news) = reported(trace, control, feedback, now);
            &&& feedback is KeyframeNeeded ==> told.keyframe_requested && told == (EncoderControl {
                keyframe_requested: told.keyframe_requested,
                ..control
            })
            &&& (feedback matches Feedback::Losses(fractions) ==> if fractions@.len() == 0 {
                told == control
            } else {
                told == crate::pipeline::loss_noted(control, worst_loss(fractions@)->0, now)
            })
            &&& feedback == Feedback::Estimate(None) ==> told == control
            &&& (feedback matches Feedback::Estimate(Some(bitrate)) ==> {
                let rate = followed_estimate(bitrate);
                &&& told == crate::pipeline::congestion_noted(control, rate, now)
                &&& trace.last_logged is None ==> news is Some
                &&& (trace.last_logged matches Some((at, previous)) ==> {
                    news is Some <==> now >= at + 30_000_000_000 || 4 * rate > 5 * previous || 4
                        * rate < 3 * previous
                })
                &&& news is Some ==> news->0 == (rate, control.target)
                &&& news is Some ==> after.last_logged == Some((now, rate))
            })
            &&& !(feedback is Estimate) ==> news is None
            &&& feedback == Feedback::Estimate(None) ==> news is None
            &&& news is None ==> after == trace
        }),
{
    if let Feedback::Losses(fractions) = feedback {
        law_worst_is_the_greatest(fractions@);
    }
}

/// A sample lasts as long as the clock ran since the one before it, also where the 32 bits
/// of the clock wrapped in between, and as long as one frame where that tells nothing: this is
/// how long every sample of the clock lasts.
pub proof fn law_samples_last_as_the_clock_ran(
    before: u64,
    ticks: u64,
    wraps: int,
    frame_nanos: u64,
)
    requires
        0 <= before + ticks + wraps * 0x1_0000_0000 <= u64::MAX,
        ticks < 0x1_0000_0000,
    ensures
        ({
            let current = (before + ticks + wraps * 0x1_0000_0000) as u64;
            let nanos = sample_duration(Some(before), current, frame_nanos);
            &&& 0 < ticks <= 900_000 ==> 9 * nanos <= 100_000 * ticks < 9 * (nanos + 1)
            &&& ticks == 0 || ticks > 900_000 ==> nanos == frame_nanos
            &&& nanos == crate::rtp::sample_nanos(Some(before), current, frame_nanos)
        }),
        sample_duration(None, before, frame_nanos) == frame_nanos,
{
    crate::rtp::law_samples_last_until_the_next(before, ticks, wraps, frame_nanos);
}

} // verus!
