//! Local encoder probe: which of the presets a computer can keep up with.

use vstd::prelude::*;

verus! {

#[derive(Clone, Copy, Debug, PartialEq, Eq, Structural)]
pub enum RecommendedPreset {
    Low,
    Medium,
    High,
}

/// One measurement, reduced to what the recommendation depends on: the encode time
/// rounded to whole milliseconds as text, and how time and loss compare with the
/// limits of the presets.
#[derive(Debug, PartialEq, Eq)]
pub struct ProbeSample {
    pub preset: RecommendedPreset,
    pub width: u32,
    pub height: u32,
    pub fps: u32,
    pub hardware: bool,
    /// Mean encode time per frame in milliseconds, without decimals.
    pub mean_encode_text: String,
    /// The mean encode time is below 12 milliseconds.
    pub under_high_time: bool,
    /// The mean encode time is below 20 milliseconds.
    pub under_medium_time: bool,
    /// Fewer than two percent of the frames were dropped.
    pub under_high_loss: bool,
    /// Fewer than five percent of the frames were dropped.
    pub under_medium_loss: bool,
}

/// The recommendation with the reason for it.
#[derive(Debug, PartialEq, Eq)]
pub struct ProbeReport {
    pub recommended: RecommendedPreset,
    pub note: String,
    pub can_1440: bool,
    pub av1_encode: bool,
    pub hevc_encode: bool,
}

/// The first sample of a preset.
pub open spec fn first_of(samples: Seq<ProbeSample>, preset: RecommendedPreset) -> Option<
    ProbeSample,
>
    decreases samples.len(),
{
    if samples.len() == 0 {
        None
    } else if samples[0].preset == preset {
        Some(samples[0])
    } else {
        first_of(samples.skip(1), preset)
    }
}

/// The sample keeps up with 1080p60 in hardware.
pub open spec fn high_ok(sample: ProbeSample) -> bool {
    sample.hardware && sample.under_high_time && sample.under_high_loss
}

/// The sample keeps up with 1080p30.
pub open spec fn medium_ok(sample: ProbeSample) -> bool {
    sample.under_medium_time && sample.under_medium_loss
}

/// The preset and the note for the first High and the first Medium sample.
pub open spec fn recommendation(
    high: Option<ProbeSample>,
    medium: Option<ProbeSample>,
    can_1440: bool,
) -> (RecommendedPreset, Seq<char>) {
    match (high, medium) {
        (Some(h), _) if high_ok(h) => (
            RecommendedPreset::High,
            "Hardware 1080p60 at "@ + h.mean_encode_text@ + " ms/frame. High."@ + if can_1440 {
                " Customize can try 1440p."@
            } else {
                Seq::empty()
            },
        ),
        (Some(h), Some(m)) => if medium_ok(m) {
            (
                RecommendedPreset::Medium,
                "High is heavy ("@ + h.mean_encode_text@ + " ms). Medium 1080p30 at "@
                    + m.mean_encode_text@ + " ms."@,
            )
        } else {
            (RecommendedPreset::Low, "This PC is happier at 720p30."@)
        },
        (Some(_), None) => (RecommendedPreset::Low, "High struggled and Medium never ran. Low."@),
        (None, Some(m)) => if medium_ok(m) {
            (
                RecommendedPreset::Medium,
                "1080p30 at "@ + m.mean_encode_text@ + " ms/frame. Medium."@,
            )
        } else {
            (RecommendedPreset::Low, "1080p30 is already dropping. Low."@)
        },
        (None, None) => (RecommendedPreset::Low, "Could not measure 1080p. Low."@),
    }
}

fn find_sample<'a>(samples: &'a [ProbeSample], preset: RecommendedPreset) -> (found: Option<
    &'a ProbeSample,
>)
    ensures
        match first_of(samples@, preset) {
            Some(sample) => found == Some(&sample),
            None => found is None,
        },
{
    let mut i: usize = 0;
    assert(samples@.skip(0) =~= samples@);
    while i < samples.len()
        invariant
            i <= samples@.len(),
            first_of(samples@, preset) == first_of(samples@.skip(i as int), preset),
        decreases samples@.len() - i,
    {
        assert(samples@.skip(i as int)[0] == samples@[i as int]);
        assert(samples@.skip(i as int).skip(1) =~= samples@.skip(i as int + 1));
        if samples[i].preset == preset {
            return Some(&samples[i]);
        }
        i += 1;
    }
    None
}

/// Recommends the best preset that the samples support.
pub fn recommend_preset(
    samples: &[ProbeSample],
    can_1440: bool,
    av1_encode: bool,
    hevc_encode: bool,
) -> (report: ProbeReport)
    ensures
        (report.recommended, report.note@) == recommendation(
            first_of(samples@, RecommendedPreset::High),
            first_of(samples@, RecommendedPreset::Medium),
            can_1440,
        ),
        report.can_1440 == can_1440,
        report.av1_encode == av1_encode,
        report.hevc_encode == hevc_encode,
{
    let high = find_sample(samples, RecommendedPreset::High);
    let medium = find_sample(samples, RecommendedPreset::Medium);
    let mut note = String::new();
    let recommended: RecommendedPreset;
    match high {
        Some(h) => {
            if h.hardware && h.under_high_time && h.under_high_loss {
                note.append("Hardware 1080p60 at ");
                note.append(h.mean_encode_text.as_str());
                note.append(" ms/frame. High.");
                if can_1440 {
                    note.append(" Customize can try 1440p.");
                }
                recommended = RecommendedPreset::High;
            } else {
                match medium {
                    Some(m) => {
                        if m.under_medium_time && m.under_medium_loss {
                            note.append("High is heavy (");
                            note.append(h.mean_encode_text.as_str());
                            note.append(" ms). Medium 1080p30 at ");
                            note.append(m.mean_encode_text.as_str());
                            note.append(" ms.");
                            recommended = RecommendedPreset::Medium;
                        } else {
                            note.append("This PC is happier at 720p30.");
                            recommended = RecommendedPreset::Low;
                        }
                    },
                    None => {
                        note.append("High struggled and Medium never ran. Low.");
                        recommended = RecommendedPreset::Low;
                    },
                }
            }
        },
        None => {
            match medium {
                Some(m) => {
                    if m.under_medium_time && m.under_medium_loss {
                        note.append("1080p30 at ");
                        note.append(m.mean_encode_text.as_str());
                        note.append(" ms/frame. Medium.");
                        recommended = RecommendedPreset::Medium;
                    } else {
                        note.append("1080p30 is already dropping. Low.");
                        recommended = RecommendedPreset::Low;
                    }
                },
                None => {
                    note.append("Could not measure 1080p. Low.");
                    recommended = RecommendedPreset::Low;
                },
            }
        },
    }
    let ghost expected = recommendation(
        first_of(samples@, RecommendedPreset::High),
        first_of(samples@, RecommendedPreset::Medium),
        can_1440,
    );
    assert(note@ =~= expected.1);
    ProbeReport { recommended, note, can_1440, av1_encode, hevc_encode }
}

/// One measurement of the local probe: the encode time as text and in comparison
/// with the limits.
#[derive(Debug, PartialEq, Eq)]
pub struct ProbeTiming {
    pub text: String,
    pub under_high_time: bool,
    pub under_medium_time: bool,
}

/// The report of a local probe without loss, given the timing at 1080p60, at 1080p30 and
/// at 720p30. `fast` tells that the raw timing is below the High limit.
pub fn run_local_probe(
    high: ProbeTiming,
    medium: ProbeTiming,
    low: ProbeTiming,
    fast: bool,
    hardware: bool,
    av1_encode: bool,
    hevc_encode: bool,
) -> (report: ProbeReport)
    ensures
        report.can_1440 == (fast && hardware),
        report.av1_encode == av1_encode,
        report.hevc_encode == hevc_encode,
        hardware && high.under_high_time ==> report.recommended == RecommendedPreset::High
            && report.note@ == "Hardware 1080p60 at "@ + high.text@ + " ms/frame. High."@ + if fast {
            " Customize can try 1440p."@
        } else {
            Seq::empty()
        },
        !(hardware && high.under_high_time) && medium.under_medium_time ==> report.recommended
            == RecommendedPreset::Medium && report.note@ == "High is heavy ("@ + high.text@
            + " ms). Medium 1080p30 at "@ + medium.text@ + " ms."@,
        !(hardware && high.under_high_time) && !medium.under_medium_time ==> report.recommended
            == RecommendedPreset::Low && report.note@ == "This PC is happier at 720p30."@,
{
    let samples = synthetic_samples_from_ms(high, medium, low, hardware);
    proof {
        assert(samples@[0].preset == RecommendedPreset::High);
        assert(samples@.skip(1)[0] == samples@[1]);
        reveal_with_fuel(first_of, 3);
    }
    recommend_preset(samples.as_slice(), fast && hardware, av1_encode, hevc_encode)
}

/// The three samples that a local probe stands for, without loss.
pub fn synthetic_samples_from_ms(
    high: ProbeTiming,
    medium: ProbeTiming,
    low: ProbeTiming,
    hardware: bool,
) -> (samples: Vec<ProbeSample>)
    ensures
        samples@.len() == 3,
        samples@[0] == (ProbeSample {
            preset: RecommendedPreset::High,
            width: 1920,
            height: 1080,
            fps: 60,
            hardware,
            mean_encode_text: high.text,
            under_high_time: high.under_high_time,
            under_medium_time: high.under_medium_time,
            under_high_loss: true,
            under_medium_loss: true,
        }),
        samples@[1] == (ProbeSample {
            preset: RecommendedPreset::Medium,
            width: 1920,
            height: 1080,
            fps: 30,
            hardware,
            mean_encode_text: medium.text,
            under_high_time: medium.under_high_time,
            under_medium_time: medium.under_medium_time,
            under_high_loss: true,
            under_medium_loss: true,
        }),
        samples@[2] == (ProbeSample {
            preset: RecommendedPreset::Low,
            width: 1280,
            height: 720,
            fps: 30,
            hardware,
            mean_encode_text: low.text,
            under_high_time: low.under_high_time,
            under_medium_time: low.under_medium_time,
            under_high_loss: true,
            under_medium_loss: true,
        }),
{
    let mut samples: Vec<ProbeSample> = Vec::new();
    samples.push(
        ProbeSample {
            preset: RecommendedPreset::High,
            width: 1920,
            height: 1080,
            fps: 60,
            hardware,
            mean_encode_text: high.text,
            under_high_time: high.under_high_time,
            under_medium_time: high.under_medium_time,
            under_high_loss: true,
            under_medium_loss: true,
        },
    );
    samples.push(
        ProbeSample {
            preset: RecommendedPreset::Medium,
            width: 1920,
            height: 1080,
            fps: 30,
            hardware,
            mean_encode_text: medium.text,
            under_high_time: medium.under_high_time,
            under_medium_time: medium.under_medium_time,
            under_high_loss: true,
            under_medium_loss: true,
        },
    );
    samples.push(
        ProbeSample {
            preset: RecommendedPreset::Low,
            width: 1280,
            height: 720,
            fps: 30,
            hardware,
            mean_encode_text: low.text,
            under_high_time: low.under_high_time,
            under_medium_time: low.under_medium_time,
            under_high_loss: true,
            under_medium_loss: true,
        },
    );
    samples
}

/// High is recommended where a hardware encoder keeps up with it, Medium where only that
/// can be kept up with, and Low otherwise.
pub proof fn law_best_bearable_preset(
    high: Option<ProbeSample>,
    medium: Option<ProbeSample>,
    can_1440: bool,
)
    ensures
        ({
            let preset = recommendation(high, medium, can_1440).0;
            let bears_high = high is Some && high_ok(high->0);
            let bears_medium = medium is Some && medium_ok(medium->0);
            &&& preset == RecommendedPreset::High <==> bears_high
            &&& preset == RecommendedPreset::Medium <==> !bears_high && bears_medium
            &&& preset == RecommendedPreset::High ==> high->0.hardware
        }),
{
}

/// Of several measurements of one preset the first counts, wherever the others stand.
pub proof fn law_first_measurement_counts(
    a: Seq<ProbeSample>,
    b: Seq<ProbeSample>,
    preset: RecommendedPreset,
)
    ensures
        first_of(a, preset) is Some ==> first_of(a + b, preset) == first_of(a, preset),
        first_of(a, preset) is None ==> first_of(a + b, preset) == first_of(b, preset),
        first_of(a, preset) is Some ==> first_of(a, preset)->0.preset == preset && a.contains(
            first_of(a, preset)->0,
        ),
        first_of(a, preset) is None <==> forall|i: int|
            0 <= i < a.len() ==> (#[trigger] a[i]).preset != preset,
    decreases a.len(),
{
    if a.len() == 0 {
        assert(a + b =~= b);
    } else {
        law_first_measurement_counts(a.skip(1), b, preset);
        assert((a + b).skip(1) =~= a.skip(1) + b);
        assert((a + b)[0] == a[0]);
        if a[0].preset == preset {
            assert(a.contains(a[0]));
        } else {
            if first_of(a, preset) is Some {
                let k = a.skip(1).index_of(first_of(a, preset)->0);
                assert(a[k + 1] == a.skip(1)[k]);
            } else {
                assert forall|i: int| 0 <= i < a.len() implies (#[trigger] a[i]).preset != preset by {
                    if i > 0 {
                        assert(a.skip(1)[i - 1] == a[i]);
                    }
                }
            }
            if forall|i: int| 0 <= i < a.len() ==> (#[trigger] a[i]).preset != preset {
                assert forall|i: int| 0 <= i < a.skip(1).len() implies (#[trigger] a.skip(
                    1,
                )[i]).preset != preset by {
                    assert(a.skip(1)[i] == a[i + 1]);
                }
            }
        }
    }
}

/// What a preset bears is told by its own limits: High asks for hardware and for both of its
/// limits, Medium for both of its own, and neither looks at the other's.
pub proof fn law_limits_belong_to_their_preset(sample: ProbeSample, other: ProbeSample)
    ensures
        high_ok(sample) ==> sample.hardware && sample.under_high_time && sample.under_high_loss,
        medium_ok(sample) ==> sample.under_medium_time && sample.under_medium_loss,
        sample.hardware == other.hardware && sample.under_high_time == other.under_high_time
            && sample.under_high_loss == other.under_high_loss ==> high_ok(sample) == high_ok(other),
        sample.under_medium_time == other.under_medium_time && sample.under_medium_loss
            == other.under_medium_loss ==> medium_ok(sample) == medium_ok(other),
        !high_ok(sample) && sample.hardware && sample.under_high_loss ==> !sample.under_high_time,
        !medium_ok(sample) && sample.under_medium_loss ==> !sample.under_medium_time,
{
}

/// The note tells the times that the recommendation rests on, and 1440p only beside High.
pub proof fn law_notes_tell_the_reason(
    high: Option<ProbeSample>,
    medium: Option<ProbeSample>,
)
    ensures
        high is Some && high_ok(high->0) ==> recommendation(high, medium, true).1
            == recommendation(high, medium, false).1 + " Customize can try 1440p."@,
        !(high is Some && high_ok(high->0)) ==> recommendation(high, medium, true)
            == recommendation(high, medium, false),
        high is Some && high_ok(high->0) ==> recommendation(high, medium, false).1
            == "Hardware 1080p60 at "@ + high->0.mean_encode_text@ + " ms/frame. High."@,
        high is Some && !high_ok(high->0) && medium is Some && medium_ok(medium->0)
            ==> recommendation(high, medium, false).1 == "High is heavy ("@
            + high->0.mean_encode_text@ + " ms). Medium 1080p30 at "@ + medium->0.mean_encode_text@
            + " ms."@,
        high is None && medium is Some && medium_ok(medium->0) ==> recommendation(
            high,
            medium,
            false,
        ).1 == "1080p30 at "@ + medium->0.mean_encode_text@ + " ms/frame. Medium."@,
{
    if high is Some && high_ok(high->0) {
        assert(recommendation(high, medium, true).1 =~= recommendation(high, medium, false).1
            + " Customize can try 1440p."@);
        assert(recommendation(high, medium, false).1 =~= "Hardware 1080p60 at "@
            + high->0.mean_encode_text@ + " ms/frame. High."@);
    }
}

} // verus!
