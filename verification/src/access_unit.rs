//! Encoded access units: length-prefixed encoder output turned into Annex B, with
//! parameter sets cached and placed in front of every random access point.

use vstd::prelude::*;
use crate::annexb::{
    framed, is_emulation_free, law_framing_round_trip, nal_type, nal_types, nal_units, opens_decodable,
    start_code,
};
use crate::bytes::{content, contents, copy_bytes, push_bytes, read_be32, be32};
use crate::text::{chars_of, digit, digit_char, opt_text};

verus! {

/// The profile and level that a baseline session negotiates.
pub const H264_PROFILE_LEVEL_ID: &'static str = "42e02a";

/// One encoded access unit in Annex B form.
#[derive(Debug, PartialEq, Eq)]
pub struct EncodedAccessUnit {
    pub data: Vec<u8>,
    pub timestamp_90khz: u64,
    pub keyframe: bool,
    pub profile_level_id: Option<String>,
}

/// What an [`EncodedAccessUnit`] holds.
pub struct AccessUnit {
    pub data: Seq<u8>,
    pub timestamp_90khz: u64,
    pub keyframe: bool,
    pub profile_level_id: Option<Seq<char>>,
}

impl View for EncodedAccessUnit {
    type V = AccessUnit;

    open spec fn view(&self) -> AccessUnit {
        AccessUnit {
            data: self.data@,
            timestamp_90khz: self.timestamp_90khz,
            keyframe: self.keyframe,
            profile_level_id: opt_text(self.profile_level_id),
        }
    }
}

impl Clone for EncodedAccessUnit {
    fn clone(&self) -> (copy: Self)
        ensures
            copy@ == self@,
    {
        let profile_level_id: Option<String> = match &self.profile_level_id {
            Some(id) => Some(id.clone()),
            None => None,
        };
        EncodedAccessUnit {
            data: copy_bytes(self.data.as_slice()),
            timestamp_90khz: self.timestamp_90khz,
            keyframe: self.keyframe,
            profile_level_id,
        }
    }
}

/// Why an access unit was refused.
#[derive(Clone, Copy, Debug, PartialEq, Eq, Structural)]
pub enum AvccError {
    TruncatedLength,
    TruncatedNal,
    Empty,
    MissingParameterSets,
    IncompatibleProfileLevel,
}

impl AvccError {
    /// The text shown for this error.
    pub open spec fn spec_message(self) -> Seq<char> {
        match self {
            AvccError::TruncatedLength => "truncated AVCC NAL length"@,
            AvccError::TruncatedNal => "truncated AVCC NAL payload"@,
            AvccError::Empty => "empty AVCC access unit"@,
            AvccError::MissingParameterSets => "IDR access unit is missing SPS or PPS"@,
            AvccError::IncompatibleProfileLevel =>
                "H.264 SPS profile-level-id is incompatible with 1080p60"@,
        }
    }

    /// The text shown for this error.
    pub fn message(&self) -> (text: String)
        ensures
            text@ == self.spec_message(),
    {
        (match self {
            AvccError::TruncatedLength => "truncated AVCC NAL length",
            AvccError::TruncatedNal => "truncated AVCC NAL payload",
            AvccError::Empty => "empty AVCC access unit",
            AvccError::MissingParameterSets => "IDR access unit is missing SPS or PPS",
            AvccError::IncompatibleProfileLevel =>
                "H.264 SPS profile-level-id is incompatible with 1080p60",
        }).to_owned()
    }
}

/// The NAL units that stand in `data` from `from` on, each behind its length in
/// four bytes, up to the first fault, and that fault.
pub open spec fn length_prefixed(data: Seq<u8>, from: int) -> (Seq<Seq<u8>>, Option<AvccError>)
    decreases data.len() - from,
{
    if from < 0 || from >= data.len() {
        (Seq::empty(), None)
    } else if data.len() - from < 4 {
        (Seq::empty(), Some(AvccError::TruncatedLength))
    } else {
        let length = be32(data[from], data[from + 1], data[from + 2], data[from + 3]);
        let end = from + 4 + length;
        if length <= 0 || end > data.len() {
            (Seq::empty(), Some(AvccError::TruncatedNal))
        } else {
            let rest = length_prefixed(data, end);
            (seq![data.subrange(from + 4, end)] + rest.0, rest.1)
        }
    }
}

/// The last of `nals` that is of the given kind, or `cached` where none is.
pub open spec fn latest(
    nals: Seq<Seq<u8>>,
    kind: spec_fn(Seq<u8>) -> bool,
    cached: Option<Seq<u8>>,
) -> Option<Seq<u8>>
    decreases nals.len(),
{
    if nals.len() == 0 {
        cached
    } else if kind(nals.last()) {
        Some(nals.last())
    } else {
        latest(nals.drop_last(), kind, cached)
    }
}

/// NAL units of the H.264 type `t`.
pub open spec fn h264_kind(t: u8) -> spec_fn(Seq<u8>) -> bool {
    |nal: Seq<u8>| nal_type(nal) == t
}

/// NAL units that are no H.264 parameter set.
pub open spec fn h264_no_set() -> spec_fn(Seq<u8>) -> bool {
    |nal: Seq<u8>| nal_type(nal) != 7 && nal_type(nal) != 8
}

/// The type field of an HEVC NAL unit: bits 1 to 6 of the first byte.
pub open spec fn hevc_type(nal: Seq<u8>) -> u8 {
    (nal[0] >> 1) & 0x3f
}

/// NAL units of the HEVC type `t`.
pub open spec fn hevc_kind(t: u8) -> spec_fn(Seq<u8>) -> bool {
    |nal: Seq<u8>| hevc_type(nal) == t
}

/// NAL units that are no HEVC parameter set.
pub open spec fn hevc_no_set() -> spec_fn(Seq<u8>) -> bool {
    |nal: Seq<u8>| hevc_type(nal) != 32 && hevc_type(nal) != 33 && hevc_type(nal) != 34
}

/// HEVC random access pictures have the types 16 to 23.
pub open spec fn is_irap(t: u8) -> bool {
    16 <= t <= 23
}

/// NAL units that hold an HEVC random access picture.
pub open spec fn irap_kind() -> spec_fn(Seq<u8>) -> bool {
    |nal: Seq<u8>| is_irap(hevc_type(nal))
}

/// Some NAL unit of the list is of the given kind.
pub open spec fn holds_kind(nals: Seq<Seq<u8>>, kind: spec_fn(Seq<u8>) -> bool) -> bool {
    exists|k: int| 0 <= k < nals.len() && kind(#[trigger] nals[k])
}

/// An optional parameter set as a list.
pub open spec fn listed(set: Option<Seq<u8>>) -> Seq<Seq<u8>> {
    match set {
        Some(nal) => seq![nal],
        None => Seq::empty(),
    }
}

/// Two lower-case hexadecimal digits.
pub open spec fn hex_byte(b: u8) -> Seq<char> {
    seq![digit_char(b as int / 16), digit_char(b as int % 16)]
}

/// The profile and level of an SPS: its bytes 1 to 3 in hexadecimal.
pub open spec fn profile_level(sps: Seq<u8>) -> Option<Seq<char>> {
    if sps.len() >= 4 {
        Some(hex_byte(sps[1]) + hex_byte(sps[2]) + hex_byte(sps[3]))
    } else {
        None
    }
}

/// A profile and level of six bytes of text that opens with the two digits.
pub open spec fn has_profile(id: Seq<char>, first: char, second: char) -> bool {
    vstd::utf8::encode_utf8(id).len() == 6 && id.len() >= 2 && id[0] == first && id[1] == second
}

fn profile_opens_with(id: &str, first: char, second: char) -> (found: bool)
    ensures
        found == has_profile(id@, first, second),
{
    let chars = chars_of(id);
    id.as_bytes().len() == 6 && chars.len() >= 2 && chars[0] == first && chars[1] == second
}

/// Whether a profile and level is Baseline: six characters that begin with `42`.
pub fn is_baseline_profile(profile_level_id: &str) -> (found: bool)
    ensures
        found == has_profile(profile_level_id@, '4', '2'),
{
    profile_opens_with(profile_level_id, '4', '2')
}

/// Whether a profile and level is High: six characters that begin with `64`.
pub fn is_high_profile(profile_level_id: &str) -> (found: bool)
    ensures
        found == has_profile(profile_level_id@, '6', '4'),
{
    profile_opens_with(profile_level_id, '6', '4')
}

/// Whether a session that allows High only where `high` says so accepts the SPS.
pub open spec fn profile_accepted(sps: Option<Seq<u8>>, high: bool) -> bool {
    match sps {
        Some(nal) => nal.len() >= 4 && (nal[1] == 0x42 || (high && nal[1] == 0x64)),
        None => false,
    }
}

fn push_hex_byte(out: &mut String, b: u8)
    ensures
        final(out)@ == old(out)@ + hex_byte(b),
{
    out.push(digit(b / 16));
    out.push(digit(b % 16));
    assert(out@ =~= old(out)@ + hex_byte(b));
}

/// The profile and level that an SPS declares.
pub fn sps_profile_level_id(sps: &[u8]) -> (id: Option<String>)
    ensures
        opt_text(id) == profile_level(sps@),
{
    if sps.len() < 4 {
        return None;
    }
    let mut id = String::new();
    push_hex_byte(&mut id, sps[1]);
    push_hex_byte(&mut id, sps[2]);
    push_hex_byte(&mut id, sps[3]);
    assert(id@ =~= hex_byte(sps@[1]) + hex_byte(sps@[2]) + hex_byte(sps@[3]));
    Some(id)
}

/// The hexadecimal text of a profile opens with the digits of its first byte.
proof fn lemma_profile_digits(sps: Seq<u8>)
    requires
        sps.len() >= 4,
    ensures
        has_profile(profile_level(sps)->0, '4', '2') == (sps[1] == 0x42),
        has_profile(profile_level(sps)->0, '6', '4') == (sps[1] == 0x64),
{
    let id = profile_level(sps)->0;
    assert(id.len() == 6);
    assert(forall|i: int| 0 <= i < id.len() ==> '\0' <= #[trigger] id[i] <= '\u{7f}');
    vstd::utf8::is_ascii_chars_encode_utf8(id);
    assert(id[0] == digit_char(sps[1] as int / 16));
    assert(id[1] == digit_char(sps[1] as int % 16));
}

/// Cuts length-prefixed encoder output into NAL units, up to the first fault.
fn split_length_prefixed<'a>(data: &'a [u8]) -> (split: (Vec<&'a [u8]>, Option<AvccError>))
    ensures
        contents(split.0@) == length_prefixed(data@, 0).0,
        split.1 == length_prefixed(data@, 0).1,
        forall|k: int| 0 <= k < split.0@.len() ==> (#[trigger] split.0@[k])@.len() > 0,
{
    let len: usize = data.len();
    let mut nals: Vec<&'a [u8]> = Vec::new();
    let mut offset: usize = 0;
    let ghost whole = length_prefixed(data@, 0);
    assert(contents(nals@) + whole.0 =~= whole.0);
    while offset < len
        invariant
            len == data@.len(),
            offset <= len,
            whole == length_prefixed(data@, 0),
            contents(nals@) + length_prefixed(data@, offset as int).0 == whole.0,
            length_prefixed(data@, offset as int).1 == whole.1,
            forall|k: int| 0 <= k < nals@.len() ==> (#[trigger] nals@[k])@.len() > 0,
        decreases len - offset,
    {
        if len - offset < 4 {
            assert(contents(nals@) =~= whole.0);
            return (nals, Some(AvccError::TruncatedLength));
        }
        let length: u32 = read_be32(
            data[offset],
            data[offset + 1],
            data[offset + 2],
            data[offset + 3],
        );
        let length: usize = length as usize;
        let start: usize = offset + 4;
        if length == 0 || length > len - start {
            assert(contents(nals@) =~= whole.0);
            return (nals, Some(AvccError::TruncatedNal));
        }
        let ghost before = nals@;
        let ghost at = offset as int;
        let nal: &'a [u8] = vstd::slice::slice_subrange(data, start, start + length);
        nals.push(nal);
        offset = start + length;
        assert(contents(nals@) + length_prefixed(data@, offset as int).0 =~= contents(before)
            + length_prefixed(data@, at).0);
    }
    assert(contents(nals@) =~= whole.0);
    (nals, None)
}

/// Appends a NAL unit behind a start code.
fn push_framed(data: &mut Vec<u8>, nal: &[u8])
    ensures
        final(data)@ == old(data)@ + start_code() + nal@,
{
    data.push(0);
    data.push(0);
    data.push(0);
    data.push(1);
    assert(data@ =~= old(data)@ + start_code());
    push_bytes(data, nal);
}

proof fn lemma_framed_push(nals: Seq<Seq<u8>>, nal: Seq<u8>)
    ensures
        framed(nals.push(nal)) == framed(nals) + start_code() + nal,
{
    assert(nals.push(nal).drop_last() =~= nals);
}

/// Turns length-prefixed H.264 output into Annex B. It remembers the last SPS
/// and PPS and puts them in front of every keyframe.
pub struct AvccAnnexBConverter {
    sps: Option<Vec<u8>>,
    pps: Option<Vec<u8>>,
    allow_high_profile: bool,
}

/// What an H.264 conversion returns, given the sets cached once the NAL units of
/// this buffer are in.
pub open spec fn h264_conversion(
    avcc: Seq<u8>,
    timestamp_90khz: u64,
    keyframe: bool,
    sps: Option<Seq<u8>>,
    pps: Option<Seq<u8>>,
    high: bool,
) -> Result<AccessUnit, AvccError> {
    let nals = length_prefixed(avcc, 0).0;
    let fault = length_prefixed(avcc, 0).1;
    let idr = holds_kind(nals, h264_kind(5));
    let published = if keyframe || idr {
        listed(sps) + listed(pps) + nals.filter(h264_no_set())
    } else {
        nals
    };
    if avcc.len() == 0 {
        Err(AvccError::Empty)
    } else if fault is Some {
        Err(fault->0)
    } else if idr && (sps is None || pps is None) {
        Err(AvccError::MissingParameterSets)
    } else if idr && !profile_accepted(sps, high) {
        Err(AvccError::IncompatibleProfileLevel)
    } else {
        Ok(
            AccessUnit {
                data: framed(published),
                timestamp_90khz,
                keyframe: keyframe || idr,
                profile_level_id: match sps {
                    Some(nal) => profile_level(nal),
                    None => None,
                },
            },
        )
    }
}

/// The content of a conversion result.
pub open spec fn conversion_view(
    result: Result<EncodedAccessUnit, AvccError>,
) -> Result<AccessUnit, AvccError> {
    match result {
        Ok(unit) => Ok(unit@),
        Err(error) => Err(error),
    }
}

impl Default for AvccAnnexBConverter {
    /// A converter for Baseline sessions: it refuses any other SPS.
    fn default() -> (converter: Self)
        ensures
            converter.cached_sps() is None,
            converter.cached_pps() is None,
            !converter.accepts_high(),
    {
        AvccAnnexBConverter { sps: None, pps: None, allow_high_profile: false }
    }
}

impl AvccAnnexBConverter {
    /// The last SPS seen.
    pub closed spec fn cached_sps(&self) -> Option<Seq<u8>> {
        content(self.sps)
    }

    /// The last PPS seen.
    pub closed spec fn cached_pps(&self) -> Option<Seq<u8>> {
        content(self.pps)
    }

    /// Whether an SPS of the High profile is accepted as well.
    pub closed spec fn accepts_high(&self) -> bool {
        self.allow_high_profile
    }

    /// A converter for High sessions: it accepts Baseline and High.
    pub fn high_profile() -> (converter: Self)
        ensures
            converter.cached_sps() is None,
            converter.cached_pps() is None,
            converter.accepts_high(),
    {
        AvccAnnexBConverter { sps: None, pps: None, allow_high_profile: true }
    }

    /// Remembers the parameter sets among `nals` and tells whether an IDR is there.
    fn absorb(&mut self, nals: &Vec<&[u8]>) -> (idr: bool)
        requires
            forall|k: int| 0 <= k < nals@.len() ==> (#[trigger] nals@[k])@.len() > 0,
        ensures
            final(self).accepts_high() == old(self).accepts_high(),
            final(self).cached_sps() == latest(
                contents(nals@),
                h264_kind(7),
                old(self).cached_sps(),
            ),
            final(self).cached_pps() == latest(
                contents(nals@),
                h264_kind(8),
                old(self).cached_pps(),
            ),
            idr == holds_kind(contents(nals@), h264_kind(5)),
    {
        let ghost units = contents(nals@);
        let mut idr: bool = false;
        let mut k: usize = 0;
        assert(units.take(0) =~= Seq::<Seq<u8>>::empty());
        while k < nals.len()
            invariant
                k <= nals@.len(),
                units == contents(nals@),
                forall|j: int| 0 <= j < nals@.len() ==> (#[trigger] nals@[j])@.len() > 0,
                self.allow_high_profile == old(self).allow_high_profile,
                content(self.sps) == latest(
                    units.take(k as int),
                    h264_kind(7),
                    content(old(self).sps),
                ),
                content(self.pps) == latest(
                    units.take(k as int),
                    h264_kind(8),
                    content(old(self).pps),
                ),
                idr == exists|j: int| 0 <= j < k && h264_kind(5)(#[trigger] units[j]),
            decreases nals@.len() - k,
        {
            let nal: &[u8] = nals[k];
            assert(units[k as int] == nal@);
            assert(units.take(k as int + 1).drop_last() =~= units.take(k as int));
            assert(units.take(k as int + 1).last() == nal@);
            let kind: u8 = nal[0] & 0x1f;
            if kind == 7 {
                self.sps = Some(copy_bytes(nal));
            }
            if kind == 8 {
                self.pps = Some(copy_bytes(nal));
            }
            if kind == 5 {
                assert(h264_kind(5)(units[k as int]));
                idr = true;
            }
            k += 1;
        }
        assert(units.take(k as int) =~= units);
        idr
    }

    /// Converts one access unit. The parameter sets in it are remembered even
    /// where the rest is refused.
    pub fn convert(&mut self, avcc: &[u8], timestamp_90khz: u64, keyframe: bool) -> (result: Result<
        EncodedAccessUnit,
        AvccError,
    >)
        ensures
            final(self).accepts_high() == old(self).accepts_high(),
            final(self).cached_sps() == latest(
                length_prefixed(avcc@, 0).0,
                h264_kind(7),
                old(self).cached_sps(),
            ),
            final(self).cached_pps() == latest(
                length_prefixed(avcc@, 0).0,
                h264_kind(8),
                old(self).cached_pps(),
            ),
            conversion_view(result) == h264_conversion(
                avcc@,
                timestamp_90khz,
                keyframe,
                final(self).cached_sps(),
                final(self).cached_pps(),
                final(self).accepts_high(),
            ),
    {
        if avcc.len() == 0 {
            return Err(AvccError::Empty);
        }
        let (nals, fault) = split_length_prefixed(avcc);
        let ghost units = contents(nals@);
        let idr: bool = self.absorb(&nals);
        if let Some(error) = fault {
            return Err(error);
        }
        if idr && (self.sps.is_none() || self.pps.is_none()) {
            return Err(AvccError::MissingParameterSets);
        }
        let profile_level_id: Option<String> = match &self.sps {
            Some(sps) => sps_profile_level_id(sps.as_slice()),
            None => None,
        };
        let profile_ok: bool = match &profile_level_id {
            Some(id) => is_baseline_profile(id.as_str()) || (self.allow_high_profile
                && is_high_profile(id.as_str())),
            None => false,
        };
        proof {
            if self.cached_sps() is Some && self.cached_sps()->0.len() >= 4 {
                lemma_profile_digits(self.cached_sps()->0);
            }
            assert(profile_ok == profile_accepted(self.cached_sps(), self.accepts_high()));
        }
        if idr && !profile_ok {
            return Err(AvccError::IncompatibleProfileLevel);
        }
        let inject: bool = keyframe || idr;
        let mut data: Vec<u8> = Vec::new();
        let ghost mut sets: Seq<Seq<u8>> = Seq::empty();
        if inject {
            if let Some(sps) = &self.sps {
                push_framed(&mut data, sps.as_slice());
                proof {
                    lemma_framed_push(sets, sps@);
                    sets = sets.push(sps@);
                }
            }
            if let Some(pps) = &self.pps {
                push_framed(&mut data, pps.as_slice());
                proof {
                    lemma_framed_push(sets, pps@);
                    sets = sets.push(pps@);
                }
            }
            assert(sets =~= listed(self.cached_sps()) + listed(self.cached_pps()));
        }
        let ghost kept = |n: int|
            if inject {
                units.take(n).filter(h264_no_set())
            } else {
                units.take(n)
            };
        assert(units.take(0) =~= Seq::<Seq<u8>>::empty());
        assert(units.take(0).filter(h264_no_set()) =~= Seq::<Seq<u8>>::empty()) by {
            reveal(Seq::filter);
        }
        assert(sets + kept(0) =~= sets);
        let mut k: usize = 0;
        while k < nals.len()
            invariant
                k <= nals@.len(),
                units == contents(nals@),
                forall|j: int| 0 <= j < nals@.len() ==> (#[trigger] nals@[j])@.len() > 0,
                kept == (|n: int|
                    if inject {
                        units.take(n).filter(h264_no_set())
                    } else {
                        units.take(n)
                    }),
                data@ == framed(sets + kept(k as int)),
            decreases nals@.len() - k,
        {
            let nal: &[u8] = nals[k];
            assert(units[k as int] == nal@);
            assert(units.take(k as int + 1).drop_last() =~= units.take(k as int));
            assert(units.take(k as int + 1) =~= units.take(k as int).push(nal@));
            let kind: u8 = nal[0] & 0x1f;
            proof {
                reveal(Seq::filter);
                lemma_framed_push(sets + kept(k as int), nal@);
            }
            if !(inject && (kind == 7 || kind == 8)) {
                push_framed(&mut data, nal);
                assert(sets + kept(k as int + 1) =~= (sets + kept(k as int)).push(nal@));
            } else {
                assert(kept(k as int + 1) =~= kept(k as int));
            }
            k += 1;
        }
        assert(units.take(k as int) =~= units);
        Ok(EncodedAccessUnit { data, timestamp_90khz, keyframe: keyframe || idr, profile_level_id })
    }
}

/// Turns length-prefixed HEVC output into Annex B. It remembers the last VPS,
/// SPS and PPS and puts them in front of every random access picture, so that a
/// viewer who joins late or recovers from loss decodes at once.
pub struct HevcAnnexBConverter {
    vps: Option<Vec<u8>>,
    sps: Option<Vec<u8>>,
    pps: Option<Vec<u8>>,
}

/// What an HEVC conversion returns, given the sets cached once the NAL units of
/// this buffer are in.
pub open spec fn hevc_conversion(
    hvcc: Seq<u8>,
    timestamp_90khz: u64,
    keyframe: bool,
    vps: Option<Seq<u8>>,
    sps: Option<Seq<u8>>,
    pps: Option<Seq<u8>>,
) -> Result<AccessUnit, AvccError> {
    let nals = length_prefixed(hvcc, 0).0;
    let fault = length_prefixed(hvcc, 0).1;
    let irap = holds_kind(nals, irap_kind());
    let published = if keyframe || irap {
        listed(vps) + listed(sps) + listed(pps) + nals.filter(hevc_no_set())
    } else {
        nals
    };
    if hvcc.len() == 0 {
        Err(AvccError::Empty)
    } else if fault is Some {
        Err(fault->0)
    } else if irap && (vps is None || sps is None || pps is None) {
        Err(AvccError::MissingParameterSets)
    } else {
        Ok(
            AccessUnit {
                data: framed(published),
                timestamp_90khz,
                keyframe: keyframe || irap,
                profile_level_id: None,
            },
        )
    }
}

/// The HEVC NAL unit type, where there is a first byte.
pub fn hevc_nal_unit_type(nal: &[u8]) -> (kind: Option<u8>)
    ensures
        kind is Some <==> nal@.len() > 0,
        kind matches Some(t) ==> t == hevc_type(nal@),
{
    if nal.len() == 0 {
        None
    } else {
        Some((nal[0] >> 1) & 0x3f)
    }
}

/// Whether an HEVC NAL unit type is a random access picture.
pub fn hevc_is_irap(nal_unit_type: u8) -> (irap: bool)
    ensures
        irap == is_irap(nal_unit_type),
{
    16 <= nal_unit_type && nal_unit_type <= 23
}

impl Default for HevcAnnexBConverter {
    fn default() -> (converter: Self)
        ensures
            converter.cached_vps() is None,
            converter.cached_sps() is None,
            converter.cached_pps() is None,
    {
        HevcAnnexBConverter { vps: None, sps: None, pps: None }
    }
}

impl HevcAnnexBConverter {
    /// The last VPS seen.
    pub closed spec fn cached_vps(&self) -> Option<Seq<u8>> {
        content(self.vps)
    }

    /// The last SPS seen.
    pub closed spec fn cached_sps(&self) -> Option<Seq<u8>> {
        content(self.sps)
    }

    /// The last PPS seen.
    pub closed spec fn cached_pps(&self) -> Option<Seq<u8>> {
        content(self.pps)
    }

    /// Remembers the parameter sets among `nals` and tells whether a random
    /// access picture is there.
    fn absorb(&mut self, nals: &Vec<&[u8]>) -> (irap: bool)
        requires
            forall|k: int| 0 <= k < nals@.len() ==> (#[trigger] nals@[k])@.len() > 0,
        ensures
            final(self).cached_vps() == latest(
                contents(nals@),
                hevc_kind(32),
                old(self).cached_vps(),
            ),
            final(self).cached_sps() == latest(
                contents(nals@),
                hevc_kind(33),
                old(self).cached_sps(),
            ),
            final(self).cached_pps() == latest(
                contents(nals@),
                hevc_kind(34),
                old(self).cached_pps(),
            ),
            irap == holds_kind(contents(nals@), irap_kind()),
    {
        let ghost units = contents(nals@);
        let mut irap: bool = false;
        let mut k: usize = 0;
        assert(units.take(0) =~= Seq::<Seq<u8>>::empty());
        while k < nals.len()
            invariant
                k <= nals@.len(),
                units == contents(nals@),
                forall|j: int| 0 <= j < nals@.len() ==> (#[trigger] nals@[j])@.len() > 0,
                content(self.vps) == latest(
                    units.take(k as int),
                    hevc_kind(32),
                    content(old(self).vps),
                ),
                content(self.sps) == latest(
                    units.take(k as int),
                    hevc_kind(33),
                    content(old(self).sps),
                ),
                content(self.pps) == latest(
                    units.take(k as int),
                    hevc_kind(34),
                    content(old(self).pps),
                ),
                irap == exists|j: int| 0 <= j < k && irap_kind()(#[trigger] units[j]),
            decreases nals@.len() - k,
        {
            let nal: &[u8] = nals[k];
            assert(units[k as int] == nal@);
            assert(units.take(k as int + 1).drop_last() =~= units.take(k as int));
            assert(units.take(k as int + 1).last() == nal@);
            if let Some(kind) = hevc_nal_unit_type(nal) {
                if kind == 32 {
                    self.vps = Some(copy_bytes(nal));
                }
                if kind == 33 {
                    self.sps = Some(copy_bytes(nal));
                }
                if kind == 34 {
                    self.pps = Some(copy_bytes(nal));
                }
                if hevc_is_irap(kind) {
                    assert(irap_kind()(units[k as int]));
                    irap = true;
                }
            }
            k += 1;
        }
        assert(units.take(k as int) =~= units);
        irap
    }

    /// Converts one access unit. The parameter sets in it are remembered even
    /// where the rest is refused.
    pub fn convert(&mut self, hvcc: &[u8], timestamp_90khz: u64, keyframe: bool) -> (result: Result<
        EncodedAccessUnit,
        AvccError,
    >)
        ensures
            final(self).cached_vps() == latest(
                length_prefixed(hvcc@, 0).0,
                hevc_kind(32),
                old(self).cached_vps(),
            ),
            final(self).cached_sps() == latest(
                length_prefixed(hvcc@, 0).0,
                hevc_kind(33),
                old(self).cached_sps(),
            ),
            final(self).cached_pps() == latest(
                length_prefixed(hvcc@, 0).0,
                hevc_kind(34),
                old(self).cached_pps(),
            ),
            conversion_view(result) == hevc_conversion(
                hvcc@,
                timestamp_90khz,
                keyframe,
                final(self).cached_vps(),
                final(self).cached_sps(),
                final(self).cached_pps(),
            ),
    {
        if hvcc.len() == 0 {
            return Err(AvccError::Empty);
        }
        let (nals, fault) = split_length_prefixed(hvcc);
        let ghost units = contents(nals@);
        let irap: bool = self.absorb(&nals);
        if let Some(error) = fault {
            return Err(error);
        }
        if irap && (self.vps.is_none() || self.sps.is_none() || self.pps.is_none()) {
            return Err(AvccError::MissingParameterSets);
        }
        let inject: bool = keyframe || irap;
        let mut data: Vec<u8> = Vec::new();
        let ghost mut sets: Seq<Seq<u8>> = Seq::empty();
        if inject {
            if let Some(vps) = &self.vps {
                push_framed(&mut data, vps.as_slice());
                proof {
                    lemma_framed_push(sets, vps@);
                    sets = sets.push(vps@);
                }
            }
            if let Some(sps) = &self.sps {
                push_framed(&mut data, sps.as_slice());
                proof {
                    lemma_framed_push(sets, sps@);
                    sets = sets.push(sps@);
                }
            }
            if let Some(pps) = &self.pps {
                push_framed(&mut data, pps.as_slice());
                proof {
                    lemma_framed_push(sets, pps@);
                    sets = sets.push(pps@);
                }
            }
            assert(sets =~= listed(self.cached_vps()) + listed(self.cached_sps()) + listed(
                self.cached_pps(),
            ));
        }
        let ghost kept = |n: int|
            if inject {
                units.take(n).filter(hevc_no_set())
            } else {
                units.take(n)
            };
        assert(units.take(0) =~= Seq::<Seq<u8>>::empty());
        assert(units.take(0).filter(hevc_no_set()) =~= Seq::<Seq<u8>>::empty()) by {
            reveal(Seq::filter);
        }
        assert(sets + kept(0) =~= sets);
        let mut k: usize = 0;
        while k < nals.len()
            invariant
                k <= nals@.len(),
                units == contents(nals@),
                forall|j: int| 0 <= j < nals@.len() ==> (#[trigger] nals@[j])@.len() > 0,
                kept == (|n: int|
                    if inject {
                        units.take(n).filter(hevc_no_set())
                    } else {
                        units.take(n)
                    }),
                data@ == framed(sets + kept(k as int)),
            decreases nals@.len() - k,
        {
            let nal: &[u8] = nals[k];
            assert(units[k as int] == nal@);
            assert(units.take(k as int + 1).drop_last() =~= units.take(k as int));
            assert(units.take(k as int + 1) =~= units.take(k as int).push(nal@));
            let kind: u8 = match hevc_nal_unit_type(nal) {
                Some(kind) => kind,
                None => 0xff,
            };
            proof {
                reveal(Seq::filter);
                lemma_framed_push(sets + kept(k as int), nal@);
            }
            if !(inject && (kind == 32 || kind == 33 || kind == 34)) {
                push_framed(&mut data, nal);
                assert(sets + kept(k as int + 1) =~= (sets + kept(k as int)).push(nal@));
            } else {
                assert(kept(k as int + 1) =~= kept(k as int));
            }
            k += 1;
        }
        assert(units.take(k as int) =~= units);
        Ok(
            EncodedAccessUnit {
                data,
                timestamp_90khz,
                keyframe: keyframe || irap,
                profile_level_id: None,
            },
        )
    }
}

/// What a converter remembers is of the kind that it was remembered as: this holds
/// of an empty cache and every conversion keeps it.
pub proof fn law_cache_keeps_its_kind(
    nals: Seq<Seq<u8>>,
    kind: spec_fn(Seq<u8>) -> bool,
    cached: Option<Seq<u8>>,
)
    requires
        cached is Some ==> kind(cached->0),
    ensures
        latest(nals, kind, cached) is Some ==> kind(latest(nals, kind, cached)->0),
        cached is Some ==> latest(nals, kind, cached) is Some,
    decreases nals.len(),
{
    if nals.len() > 0 {
        law_cache_keeps_its_kind(nals.drop_last(), kind, cached);
    }
}

/// What a filter keeps was there before.
proof fn lemma_filter_members(nals: Seq<Seq<u8>>, kind: spec_fn(Seq<u8>) -> bool)
    ensures
        forall|k: int|
            0 <= k < nals.filter(kind).len() ==> nals.contains(#[trigger] nals.filter(kind)[k]),
    decreases nals.len(),
{
    reveal(Seq::filter);
    if nals.len() > 0 {
        let front = nals.drop_last();
        lemma_filter_members(front, kind);
        assert forall|k: int| 0 <= k < nals.filter(kind).len() implies nals.contains(
            #[trigger] nals.filter(kind)[k],
        ) by {
            if k < front.filter(kind).len() {
                let member = front.filter(kind)[k];
                let j = choose|j: int| 0 <= j < front.len() && front[j] == member;
                assert(nals[j] == member);
            } else {
                assert(nals[nals.len() - 1] == nals.filter(kind)[k]);
            }
        }
    }
}

/// A published IDR opens with the SPS and the PPS, and where the first picture NAL
/// unit is the IDR itself, a reader of the buffer finds SPS, PPS and IDR in
/// this order: a late joiner decodes at once.
pub proof fn law_idr_opens_decodable(
    avcc: Seq<u8>,
    timestamp_90khz: u64,
    keyframe: bool,
    sps: Option<Seq<u8>>,
    pps: Option<Seq<u8>>,
    high: bool,
)
    requires
        h264_conversion(avcc, timestamp_90khz, keyframe, sps, pps, high) is Ok,
        holds_kind(length_prefixed(avcc, 0).0, h264_kind(5)),
        sps is Some ==> nal_type(sps->0) == 7 && is_emulation_free(sps->0),
        pps is Some ==> nal_type(pps->0) == 8 && is_emulation_free(pps->0),
        forall|k: int|
            0 <= k < length_prefixed(avcc, 0).0.len() ==> is_emulation_free(
                #[trigger] length_prefixed(avcc, 0).0[k],
            ),
    ensures
        ({
            let unit = h264_conversion(avcc, timestamp_90khz, keyframe, sps, pps, high)->Ok_0;
            let pictures = length_prefixed(avcc, 0).0.filter(h264_no_set());
            &&& unit.keyframe
            &&& nal_units(unit.data) == seq![sps->0, pps->0] + pictures
            &&& pictures.len() > 0 && nal_type(pictures[0]) == 5 ==> opens_decodable(
                nal_types(nal_units(unit.data)),
            )
        }),
{
    let nals = length_prefixed(avcc, 0).0;
    let pictures = nals.filter(h264_no_set());
    let published = listed(sps) + listed(pps) + pictures;
    assert(published =~= seq![sps->0, pps->0] + pictures);
    lemma_filter_members(nals, h264_no_set());
    assert forall|k: int| 0 <= k < published.len() implies is_emulation_free(
        #[trigger] published[k],
    ) by {
        if k >= 2 {
            assert(published[k] == pictures[k - 2]);
            assert(nals.contains(pictures[k - 2]));
        }
    }
    law_framing_round_trip(published);
    if pictures.len() > 0 && nal_type(pictures[0]) == 5 {
        let types = nal_types(published);
        assert(types[0] == nal_type(published[0]));
        assert(types[1] == nal_type(published[1]));
        assert(types[2] == nal_type(published[2]));
    }
}

/// A published random access picture of HEVC opens with VPS, SPS and PPS, and the
/// pictures follow in their order: a viewer who joins late decodes at once.
pub proof fn law_irap_opens_decodable(
    hvcc: Seq<u8>,
    timestamp_90khz: u64,
    keyframe: bool,
    vps: Option<Seq<u8>>,
    sps: Option<Seq<u8>>,
    pps: Option<Seq<u8>>,
)
    requires
        hevc_conversion(hvcc, timestamp_90khz, keyframe, vps, sps, pps) is Ok,
        holds_kind(length_prefixed(hvcc, 0).0, irap_kind()),
        vps is Some ==> is_emulation_free(vps->0),
        sps is Some ==> is_emulation_free(sps->0),
        pps is Some ==> is_emulation_free(pps->0),
        forall|k: int|
            0 <= k < length_prefixed(hvcc, 0).0.len() ==> is_emulation_free(
                #[trigger] length_prefixed(hvcc, 0).0[k],
            ),
    ensures
        ({
            let unit = hevc_conversion(hvcc, timestamp_90khz, keyframe, vps, sps, pps)->Ok_0;
            let pictures = length_prefixed(hvcc, 0).0.filter(hevc_no_set());
            &&& unit.keyframe
            &&& nal_units(unit.data) == seq![vps->0, sps->0, pps->0] + pictures
        }),
{
    let nals = length_prefixed(hvcc, 0).0;
    let pictures = nals.filter(hevc_no_set());
    let published = listed(vps) + listed(sps) + listed(pps) + pictures;
    assert(published =~= seq![vps->0, sps->0, pps->0] + pictures);
    lemma_filter_members(nals, hevc_no_set());
    assert forall|k: int| 0 <= k < published.len() implies is_emulation_free(
        #[trigger] published[k],
    ) by {
        if k >= 3 {
            assert(published[k] == pictures[k - 3]);
            assert(nals.contains(pictures[k - 3]));
        }
    }
    law_framing_round_trip(published);
}

/// An access unit without a random access point that was not asked to be a
/// keyframe is framed as it came: no NAL unit is added or left out.
pub proof fn law_delta_unit_is_kept(
    avcc: Seq<u8>,
    timestamp_90khz: u64,
    sps: Option<Seq<u8>>,
    pps: Option<Seq<u8>>,
    high: bool,
)
    requires
        avcc.len() > 0,
        length_prefixed(avcc, 0).1 is None,
        !holds_kind(length_prefixed(avcc, 0).0, h264_kind(5)),
    ensures
        h264_conversion(avcc, timestamp_90khz, false, sps, pps, high) is Ok,
        h264_conversion(avcc, timestamp_90khz, false, sps, pps, high)->Ok_0.data == framed(
            length_prefixed(avcc, 0).0,
        ),
        !h264_conversion(avcc, timestamp_90khz, false, sps, pps, high)->Ok_0.keyframe,
{
}

/// A conversion never touches the time: whatever it was given, with or without a picture
/// that opens the stream, the unit carries the time that was passed in.
pub proof fn law_time_is_kept(
    bytes: Seq<u8>,
    timestamp_90khz: u64,
    keyframe: bool,
    vps: Option<Seq<u8>>,
    sps: Option<Seq<u8>>,
    pps: Option<Seq<u8>>,
    high: bool,
)
    ensures
        h264_conversion(bytes, timestamp_90khz, keyframe, sps, pps, high) matches Ok(unit)
            ==> unit.timestamp_90khz == timestamp_90khz,
        hevc_conversion(bytes, timestamp_90khz, keyframe, vps, sps, pps) matches Ok(unit)
            ==> unit.timestamp_90khz == timestamp_90khz,
{
}

/// The time changes nothing else: two conversions that differ in it alone give units that
/// differ in it alone, or the same refusal.
pub proof fn law_time_decides_nothing(
    bytes: Seq<u8>,
    one: u64,
    other: u64,
    keyframe: bool,
    sps: Option<Seq<u8>>,
    pps: Option<Seq<u8>>,
    high: bool,
)
    ensures
        match h264_conversion(bytes, one, keyframe, sps, pps, high) {
            Ok(unit) => h264_conversion(bytes, other, keyframe, sps, pps, high)
                == Ok::<AccessUnit, AvccError>(
                (AccessUnit { timestamp_90khz: other, ..unit }),
            ),
            Err(error) => h264_conversion(bytes, other, keyframe, sps, pps, high)
                == Err::<AccessUnit, AvccError>(error),
        },
{
}

/// A unit is a keyframe exactly where it was asked to be one or holds a picture that opens
/// the stream: an IDR for H.264, a random access picture for HEVC.
pub proof fn law_keyframes_are_marked(
    bytes: Seq<u8>,
    timestamp_90khz: u64,
    keyframe: bool,
    vps: Option<Seq<u8>>,
    sps: Option<Seq<u8>>,
    pps: Option<Seq<u8>>,
    high: bool,
)
    ensures
        h264_conversion(bytes, timestamp_90khz, keyframe, sps, pps, high) matches Ok(unit) ==> (
        unit.keyframe <==> keyframe || exists|k: int|
            0 <= k < length_prefixed(bytes, 0).0.len() && #[trigger] length_prefixed(bytes, 0).0[k][0]
                % 32 == 5),
        hevc_conversion(bytes, timestamp_90khz, keyframe, vps, sps, pps) matches Ok(unit) ==> (
        unit.keyframe <==> keyframe || exists|k: int|
            0 <= k < length_prefixed(bytes, 0).0.len() && 16 <= #[trigger] length_prefixed(
                bytes,
                0,
            ).0[k][0] / 2 % 64 <= 23),
{
    lemma_type_bits();
    let nals = length_prefixed(bytes, 0).0;
    assert forall|k: int| 0 <= k < nals.len() implies h264_kind(5)(#[trigger] nals[k]) == (
    nals[k][0] % 32 == 5) by {}
    assert forall|k: int| 0 <= k < nals.len() implies irap_kind()(#[trigger] nals[k]) == (16
        <= nals[k][0] / 2 % 64 <= 23) by {}
}

proof fn lemma_type_bits()
    ensures
        forall|b: u8| #[trigger] (b & 0x1f) == b % 32,
        forall|b: u8| #[trigger] ((b >> 1u8) & 0x3f) == b / 2 % 64,
{
    assert forall|b: u8| #[trigger] (b & 0x1f) == b % 32 by {
        assert(b & 0x1f == b % 32) by (bit_vector);
    }
    assert forall|b: u8| #[trigger] ((b >> 1u8) & 0x3f) == b / 2 % 64 by {
        assert((b >> 1u8) & 0x3f == b / 2 % 64) by (bit_vector);
    }
}

/// A keyframe carries the remembered parameter sets in front and, behind them and in their
/// order, exactly the NAL units of the encoder that are none.
pub proof fn law_keyframes_carry_their_sets(
    bytes: Seq<u8>,
    timestamp_90khz: u64,
    keyframe: bool,
    vps: Seq<u8>,
    sps: Seq<u8>,
    pps: Seq<u8>,
    high: bool,
)
    ensures
        h264_conversion(bytes, timestamp_90khz, keyframe, Some(sps), Some(pps), high) matches Ok(
            unit,
        ) ==> unit.keyframe ==> unit.data == framed(
            seq![sps, pps] + length_prefixed(bytes, 0).0.filter(
                |nal: Seq<u8>| nal[0] % 32 != 7 && nal[0] % 32 != 8,
            ),
        ),
        hevc_conversion(bytes, timestamp_90khz, keyframe, Some(vps), Some(sps), Some(pps)) matches Ok(
            unit,
        ) ==> unit.keyframe ==> unit.data == framed(
            seq![vps, sps, pps] + length_prefixed(bytes, 0).0.filter(
                |nal: Seq<u8>|
                    nal[0] / 2 % 64 != 32 && nal[0] / 2 % 64 != 33 && nal[0] / 2 % 64 != 34,
            ),
        ),
        h264_conversion(bytes, timestamp_90khz, keyframe, Some(sps), Some(pps), high) matches Ok(
            unit,
        ) ==> !unit.keyframe ==> unit.data == framed(length_prefixed(bytes, 0).0),
        hevc_conversion(bytes, timestamp_90khz, keyframe, Some(vps), Some(sps), Some(pps)) matches Ok(
            unit,
        ) ==> !unit.keyframe ==> unit.data == framed(length_prefixed(bytes, 0).0),
{
    lemma_type_bits();
    assert(h264_no_set() =~= (|nal: Seq<u8>| nal[0] % 32 != 7 && nal[0] % 32 != 8));
    assert(hevc_no_set() =~= (|nal: Seq<u8>|
        nal[0] / 2 % 64 != 32 && nal[0] / 2 % 64 != 33 && nal[0] / 2 % 64 != 34));
    assert(listed(Some(sps)) + listed(Some(pps)) =~= seq![sps, pps]);
    assert(listed(Some(vps)) + listed(Some(sps)) + listed(Some(pps)) =~= seq![vps, sps, pps]);
}

/// What is refused: an empty buffer, a broken one, a picture that opens the stream without
/// its parameter sets, and one whose SPS the session does not speak. Everything else is
/// converted.
pub proof fn law_refusals_have_a_reason(
    bytes: Seq<u8>,
    timestamp_90khz: u64,
    keyframe: bool,
    vps: Option<Seq<u8>>,
    sps: Option<Seq<u8>>,
    pps: Option<Seq<u8>>,
    high: bool,
)
    ensures
        ({
            let (nals, fault) = length_prefixed(bytes, 0);
            let opens = exists|k: int| 0 <= k < nals.len() && #[trigger] nals[k][0] % 32 == 5;
            let result = h264_conversion(bytes, timestamp_90khz, keyframe, sps, pps, high);
            &&& bytes.len() == 0 ==> result == Err::<AccessUnit, AvccError>(AvccError::Empty)
            &&& bytes.len() > 0 && fault is Some ==> result == Err::<AccessUnit, AvccError>(
                fault->0,
            )
            &&& bytes.len() > 0 && fault is None && !opens ==> result is Ok
            &&& bytes.len() > 0 && fault is None && opens && (sps is None || pps is None) ==> result
                == Err::<AccessUnit, AvccError>(AvccError::MissingParameterSets)
            &&& bytes.len() > 0 && fault is None && opens && sps is Some && pps is Some ==> {
                let speaks = sps->0.len() >= 4 && (sps->0[1] == 66 || high && sps->0[1] == 100);
                &&& speaks ==> result is Ok
                &&& !speaks ==> result == Err::<AccessUnit, AvccError>(
                    AvccError::IncompatibleProfileLevel,
                )
            }
        }),
        ({
            let (nals, fault) = length_prefixed(bytes, 0);
            let opens = exists|k: int|
                0 <= k < nals.len() && 16 <= #[trigger] nals[k][0] / 2 % 64 <= 23;
            let result = hevc_conversion(bytes, timestamp_90khz, keyframe, vps, sps, pps);
            &&& bytes.len() == 0 ==> result == Err::<AccessUnit, AvccError>(AvccError::Empty)
            &&& bytes.len() > 0 && fault is Some ==> result == Err::<AccessUnit, AvccError>(
                fault->0,
            )
            &&& bytes.len() > 0 && fault is None ==> (result is Err <==> opens && (vps is None || sps
                is None || pps is None))
            &&& bytes.len() > 0 && fault is None && result is Err ==> result
                == Err::<AccessUnit, AvccError>(AvccError::MissingParameterSets)
        }),
{
    lemma_type_bits();
    let nals = length_prefixed(bytes, 0).0;
    assert forall|k: int| 0 <= k < nals.len() implies h264_kind(5)(#[trigger] nals[k]) == (
    nals[k][0] % 32 == 5) by {}
    assert forall|k: int| 0 <= k < nals.len() implies irap_kind()(#[trigger] nals[k]) == (16
        <= nals[k][0] / 2 % 64 <= 23) by {}
}

/// NAL units as an encoder puts them out: each behind its length in four bytes, most
/// significant first.
pub open spec fn put_out(nals: Seq<Seq<u8>>) -> Seq<u8>
    decreases nals.len(),
{
    if nals.len() == 0 {
        Seq::empty()
    } else {
        let len = nals[0].len() as int;
        seq![
            (len / 0x100_0000) as u8,
            (len / 0x1_0000 % 0x100) as u8,
            (len / 0x100 % 0x100) as u8,
            (len % 0x100) as u8,
        ] + nals[0] + put_out(nals.skip(1))
    }
}

proof fn lemma_lengths_are_read(before: Seq<u8>, nals: Seq<Seq<u8>>)
    requires
        forall|k: int|
            0 <= k < nals.len() ==> 0 < (#[trigger] nals[k]).len() < 0x1_0000_0000,
    ensures
        length_prefixed(before + put_out(nals), before.len() as int) == (
            nals,
            None::<AvccError>,
        ),
    decreases nals.len(),
{
    let data = before + put_out(nals);
    let at = before.len() as int;
    if nals.len() == 0 {
        assert(length_prefixed(data, at).0 =~= nals);
    } else {
        let nal = nals[0];
        let rest = nals.skip(1);
        let len = nal.len() as int;
        let head = seq![
            (len / 0x100_0000) as u8,
            (len / 0x1_0000 % 0x100) as u8,
            (len / 0x100 % 0x100) as u8,
            (len % 0x100) as u8,
        ];
        let next = before + head + nal;
        assert(data =~= next + put_out(rest));
        assert(0 < nals[0].len() < 0x1_0000_0000);
        assert forall|k: int| 0 <= k < rest.len() implies 0 < (#[trigger] rest[k]).len()
            < 0x1_0000_0000 by {
            assert(rest[k] == nals[k + 1]);
        }
        lemma_lengths_are_read(next, rest);
        assert(data[at] == head[0] && data[at + 1] == head[1] && data[at + 2] == head[2] && data[at
            + 3] == head[3]);
        assert(be32(head[0], head[1], head[2], head[3]) == len);
        assert(data.subrange(at + 4, at + 4 + len) =~= nal);
        assert(next.len() == at + 4 + len);
        assert(length_prefixed(data, at).0 =~= nals);
    }
}

/// What an encoder put out is read back: the same NAL units in the same order, and no fault.
pub proof fn law_encoder_output_is_read_back(nals: Seq<Seq<u8>>)
    requires
        forall|k: int|
            0 <= k < nals.len() ==> 0 < (#[trigger] nals[k]).len() < 0x1_0000_0000,
    ensures
        length_prefixed(put_out(nals), 0) == (nals, None::<AvccError>),
{
    let before = Seq::<u8>::empty();
    assert(before + put_out(nals) =~= put_out(nals));
    lemma_lengths_are_read(before, nals);
}

/// What a converter remembers is the last parameter set of its kind: one at the end of the
/// output replaces what was there, and other NAL units leave it alone.
pub proof fn law_last_set_is_remembered(
    nals: Seq<Seq<u8>>,
    nal: Seq<u8>,
    t: u8,
    cached: Option<Seq<u8>>,
)
    ensures
        t < 32 ==> latest(nals.push(nal), h264_kind(t), cached) == if nal[0] % 32 == t {
            Some(nal)
        } else {
            latest(nals, h264_kind(t), cached)
        },
        t < 64 ==> latest(nals.push(nal), hevc_kind(t), cached) == if nal[0] / 2 % 64 == t {
            Some(nal)
        } else {
            latest(nals, hevc_kind(t), cached)
        },
        latest(Seq::empty(), h264_kind(t), cached) == cached,
        latest(Seq::empty(), hevc_kind(t), cached) == cached,
{
    lemma_type_bits();
    assert(nals.push(nal).drop_last() =~= nals);
}

/// The profile and level of a unit are those of the SPS, two hexadecimal digits for each of
/// its bytes one to three; HEVC units name none.
pub proof fn law_profile_is_that_of_the_sps(
    bytes: Seq<u8>,
    timestamp_90khz: u64,
    keyframe: bool,
    vps: Option<Seq<u8>>,
    sps: Option<Seq<u8>>,
    pps: Option<Seq<u8>>,
    high: bool,
)
    ensures
        h264_conversion(bytes, timestamp_90khz, keyframe, sps, pps, high) matches Ok(unit)
            ==> match unit.profile_level_id {
            Some(id) => {
                &&& sps is Some && sps->0.len() >= 4
                &&& id.len() == 6
                &&& forall|i: int|
                    0 <= i < 3 ==> #[trigger] hex_value(id[2 * i]) * 16 + hex_value(id[2 * i + 1])
                        == sps->0[i + 1]
            },
            None => sps is None || sps->0.len() < 4,
        },
        hevc_conversion(bytes, timestamp_90khz, keyframe, vps, sps, pps) matches Ok(unit)
            ==> unit.profile_level_id is None,
{
    if sps is Some && sps->0.len() >= 4 {
        let id = profile_level(sps->0)->0;
        assert forall|i: int| 0 <= i < 3 implies #[trigger] hex_value(id[2 * i]) * 16 + hex_value(
            id[2 * i + 1],
        ) == sps->0[i + 1] by {
            let b = sps->0[i + 1];
            assert(id[2 * i] == digit_char(b as int / 16));
            assert(id[2 * i + 1] == digit_char(b as int % 16));
        }
    }
}

/// The value of a lower-case hexadecimal digit.
pub open spec fn hex_value(c: char) -> int {
    if '0' <= c <= '9' {
        c as int - '0' as int
    } else if 'a' <= c <= 'f' {
        c as int - 'a' as int + 10
    } else {
        -1
    }
}

/// A buffer breaks where fewer than four bytes are left for a length, or where a length is
/// zero or reaches beyond the end; the two are told apart, and what stood before is kept.
pub proof fn law_broken_buffers_are_told_apart(data: Seq<u8>, from: int)
    requires
        0 <= from <= data.len(),
    ensures
        ({
            let (nals, fault) = length_prefixed(data, from);
            let left = data.len() - from;
            let length = data[from] * 0x100_0000 + data[from + 1] * 0x1_0000 + data[from + 2]
                * 0x100 + data[from + 3];
            &&& left == 0 ==> nals.len() == 0 && fault is None
            &&& 0 < left < 4 ==> nals.len() == 0 && fault == Some(AvccError::TruncatedLength)
            &&& left >= 4 && (length == 0 || length > left - 4) ==> nals.len() == 0 && fault == Some(
                AvccError::TruncatedNal,
            )
            &&& left >= 4 && 0 < length <= left - 4 ==> {
                &&& nals.len() > 0
                &&& nals[0] == data.subrange(from + 4, from + 4 + length)
                &&& nals.skip(1) == length_prefixed(data, from + 4 + length).0
                &&& fault == length_prefixed(data, from + 4 + length).1
            }
        }),
{
    let (nals, fault) = length_prefixed(data, from);
    if nals.len() > 0 {
        let length = be32(data[from], data[from + 1], data[from + 2], data[from + 3]);
        assert(nals.skip(1) =~= length_prefixed(data, from + 4 + length).0);
    }
}

/// Two reasons for a refusal are never told in the same words.
pub proof fn law_refusals_have_their_own_words(fault: AvccError, other: AvccError)
    ensures
        fault.spec_message() == other.spec_message() ==> fault == other,
{
    reveal_strlit("truncated AVCC NAL length");
    reveal_strlit("truncated AVCC NAL payload");
    reveal_strlit("empty AVCC access unit");
    reveal_strlit("IDR access unit is missing SPS or PPS");
    reveal_strlit("H.264 SPS profile-level-id is incompatible with 1080p60");
    assert("truncated AVCC NAL length"@.len() == 25);
    assert("truncated AVCC NAL payload"@.len() == 26);
    assert("empty AVCC access unit"@.len() == 22);
    assert("IDR access unit is missing SPS or PPS"@.len() == 37);
    assert("H.264 SPS profile-level-id is incompatible with 1080p60"@.len() == 55);
}

} // verus!
