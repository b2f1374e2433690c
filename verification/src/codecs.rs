//! What a peer offers: codecs, their parameters and the servers it may ask.

use vstd::prelude::*;
use crate::access_unit::{has_profile, is_baseline_profile, is_high_profile};
use crate::text::{begins_with, chars_of, contains_text, occurs_at, occurs_in, push_text, texts};
use crate::types::{JoinMode, VideoCodec};

verus! {

/// The profile and level of a Baseline session.
pub const H264_BASELINE_PROFILE_LEVEL_ID: &'static str = "42e02a";

/// The profile and level of a High session.
pub const H264_HIGH_PROFILE_LEVEL_ID: &'static str = "64002a";

/// The payload type of H.264.
pub const H264_PAYLOAD_TYPE: u8 = 102;

/// The format parameters of every baseline session.
pub const H264_BASELINE_FMTP: &'static str =
    "level-asymmetry-allowed=1;packetization-mode=1;profile-level-id=42e02a";

/// One kind of feedback that a receiver may send.
#[derive(Debug, PartialEq, Eq)]
pub struct RtcpFeedback {
    pub typ: String,
    pub parameter: String,
}

/// A codec as an offer lists it.
#[derive(Debug, PartialEq, Eq)]
pub struct CodecParameters {
    pub mime_type: String,
    pub clock_rate: u32,
    pub channels: u16,
    pub sdp_fmtp_line: String,
    pub rtcp_feedback: Vec<RtcpFeedback>,
    pub payload_type: u8,
}

/// What [`CodecParameters`] holds.
#[verifier::ext_equal]
pub struct CodecModel {
    pub mime_type: Seq<char>,
    pub clock_rate: u32,
    pub channels: u16,
    pub sdp_fmtp_line: Seq<char>,
    pub rtcp_feedback: Seq<(Seq<char>, Seq<char>)>,
    pub payload_type: u8,
}

/// What a list of feedback kinds holds.
pub open spec fn feedback_texts(list: Seq<RtcpFeedback>) -> Seq<(Seq<char>, Seq<char>)> {
    Seq::new(list.len(), |i: int| (list[i].typ@, list[i].parameter@))
}

impl View for CodecParameters {
    type V = CodecModel;

    open spec fn view(&self) -> CodecModel {
        CodecModel {
            mime_type: self.mime_type@,
            clock_rate: self.clock_rate,
            channels: self.channels,
            sdp_fmtp_line: self.sdp_fmtp_line@,
            rtcp_feedback: feedback_texts(self.rtcp_feedback@),
            payload_type: self.payload_type,
        }
    }
}

/// The feedback of a video codec: a bandwidth estimate and two ways to ask for a
/// keyframe.
pub open spec fn video_feedback() -> Seq<(Seq<char>, Seq<char>)> {
    seq![("goog-remb"@, ""@), ("nack"@, "pli"@), ("ccm"@, "fir"@)]
}

fn video_feedback_list() -> (list: Vec<RtcpFeedback>)
    ensures
        feedback_texts(list@) == video_feedback(),
{
    let mut list: Vec<RtcpFeedback> = Vec::new();
    list.push(RtcpFeedback { typ: "goog-remb".to_owned(), parameter: "".to_owned() });
    list.push(RtcpFeedback { typ: "nack".to_owned(), parameter: "pli".to_owned() });
    list.push(RtcpFeedback { typ: "ccm".to_owned(), parameter: "fir".to_owned() });
    assert(feedback_texts(list@) =~= video_feedback());
    list
}

/// The format line of H.264 with the given profile and level.
pub open spec fn fmtp_line(profile_level_id: Seq<char>) -> Seq<char> {
    "level-asymmetry-allowed=1;packetization-mode=1;profile-level-id="@ + profile_level_id
}

/// The format line of H.264.
pub fn h264_fmtp_line(profile_level_id: &str) -> (line: String)
    ensures
        line@ == fmtp_line(profile_level_id@),
{
    let mut line = "level-asymmetry-allowed=1;packetization-mode=1;profile-level-id=".to_owned();
    push_text(&mut line, profile_level_id);
    line
}

/// Whether a format line asks for packets that may be fragmented.
pub fn h264_fmtp_requires_packetization_mode_1(line: &str) -> (found: bool)
    ensures
        found == occurs_in(line@, "packetization-mode=1"@),
{
    contains_text(&chars_of(line), &chars_of("packetization-mode=1"))
}

/// Every H.264 session speaks one dialect: its line asks for packets that may be
/// fragmented, and that of a baseline session is the one fixed line.
pub proof fn law_h264_speaks_one_dialect(profile_level_id: Seq<char>)
    ensures
        occurs_in(fmtp_line(profile_level_id), "packetization-mode=1"@),
        fmtp_line(H264_BASELINE_PROFILE_LEVEL_ID@) == H264_BASELINE_FMTP@,
{
    reveal_strlit("level-asymmetry-allowed=1;packetization-mode=1;profile-level-id=");
    reveal_strlit("level-asymmetry-allowed=1;packetization-mode=1;profile-level-id=42e02a");
    reveal_strlit("packetization-mode=1");
    reveal_strlit("42e02a");
    let line = fmtp_line(profile_level_id);
    assert(line.subrange(26, 46) =~= "packetization-mode=1"@);
    assert(occurs_at(line, "packetization-mode=1"@, 26));
    assert(fmtp_line(H264_BASELINE_PROFILE_LEVEL_ID@) =~= H264_BASELINE_FMTP@);
}

/// A video codec: 90 kHz, no channels, the usual feedback.
pub open spec fn video_codec(mime_type: Seq<char>, fmtp: Seq<char>, payload_type: u8) -> CodecModel {
    CodecModel {
        mime_type,
        clock_rate: 90_000,
        channels: 0,
        sdp_fmtp_line: fmtp,
        rtcp_feedback: video_feedback(),
        payload_type,
    }
}

/// Opus in stereo at 48 kHz.
pub fn opus_codec() -> (codec: CodecParameters)
    ensures
        codec@ == (CodecModel {
            mime_type: "audio/opus"@,
            clock_rate: 48_000,
            channels: 2,
            sdp_fmtp_line: "minptime=10;useinbandfec=1"@,
            rtcp_feedback: Seq::empty(),
            payload_type: 111,
        }),
{
    let codec = CodecParameters {
        mime_type: "audio/opus".to_owned(),
        clock_rate: 48_000,
        channels: 2,
        sdp_fmtp_line: "minptime=10;useinbandfec=1".to_owned(),
        rtcp_feedback: Vec::new(),
        payload_type: 111,
    };
    assert(feedback_texts(codec.rtcp_feedback@) =~= Seq::empty());
    codec
}

/// AV1.
pub fn av1_codec() -> (codec: CodecParameters)
    ensures
        codec@ == video_codec("video/AV1"@, ""@, 45),
{
    CodecParameters {
        mime_type: "video/AV1".to_owned(),
        clock_rate: 90_000,
        channels: 0,
        sdp_fmtp_line: "".to_owned(),
        rtcp_feedback: video_feedback_list(),
        payload_type: 45,
    }
}

/// HEVC.
pub fn hevc_codec() -> (codec: CodecParameters)
    ensures
        codec@ == video_codec("video/HEVC"@, ""@, 103),
{
    CodecParameters {
        mime_type: "video/HEVC".to_owned(),
        clock_rate: 90_000,
        channels: 0,
        sdp_fmtp_line: "".to_owned(),
        rtcp_feedback: video_feedback_list(),
        payload_type: 103,
    }
}

/// H.264 with the given profile and level.
pub fn h264_codec(profile_level_id: &str) -> (codec: CodecParameters)
    ensures
        codec@ == video_codec("video/H264"@, fmtp_line(profile_level_id@), H264_PAYLOAD_TYPE),
{
    CodecParameters {
        mime_type: "video/H264".to_owned(),
        clock_rate: 90_000,
        channels: 0,
        sdp_fmtp_line: h264_fmtp_line(profile_level_id),
        rtcp_feedback: video_feedback_list(),
        payload_type: H264_PAYLOAD_TYPE,
    }
}

/// The media type of a codec.
pub open spec fn media_type(codec: VideoCodec) -> Seq<char> {
    match codec {
        VideoCodec::H264 | VideoCodec::H264High => "video/H264"@,
        VideoCodec::Hevc => "video/HEVC"@,
        VideoCodec::Av1 => "video/AV1"@,
    }
}

/// The one video codec that a session offers: the one that its encoder produces.
pub open spec fn offered_codec(codec: VideoCodec) -> CodecModel {
    match codec {
        VideoCodec::H264 => video_codec(
            "video/H264"@,
            fmtp_line(H264_BASELINE_PROFILE_LEVEL_ID@),
            H264_PAYLOAD_TYPE,
        ),
        VideoCodec::H264High => video_codec(
            "video/H264"@,
            fmtp_line(H264_HIGH_PROFILE_LEVEL_ID@),
            H264_PAYLOAD_TYPE,
        ),
        VideoCodec::Hevc => video_codec("video/HEVC"@, ""@, 103),
        VideoCodec::Av1 => video_codec("video/AV1"@, ""@, 45),
    }
}

/// The profile and level of an H.264 session.
pub open spec fn offered_profile(codec: VideoCodec) -> Option<Seq<char>> {
    match codec {
        VideoCodec::H264 => Some(H264_BASELINE_PROFILE_LEVEL_ID@),
        VideoCodec::H264High => Some(H264_HIGH_PROFILE_LEVEL_ID@),
        VideoCodec::Hevc | VideoCodec::Av1 => None,
    }
}

impl VideoCodec {
    /// The profile and level of an H.264 session.
    pub fn h264_profile_level_id(self) -> (id: Option<&'static str>)
        ensures
            match offered_profile(self) {
                Some(text) => id is Some && id->0@ == text,
                None => id is None,
            },
    {
        match self {
            VideoCodec::H264 => Some(H264_BASELINE_PROFILE_LEVEL_ID),
            VideoCodec::H264High => Some(H264_HIGH_PROFILE_LEVEL_ID),
            VideoCodec::Hevc | VideoCodec::Av1 => None,
        }
    }

    /// The media type.
    pub fn mime_type(self) -> (mime: &'static str)
        ensures
            mime@ == media_type(self),
    {
        match self {
            VideoCodec::H264 | VideoCodec::H264High => "video/H264",
            VideoCodec::Hevc => "video/HEVC",
            VideoCodec::Av1 => "video/AV1",
        }
    }
}

/// The video codec that a session registers.
pub fn session_codec(codec: VideoCodec) -> (parameters: CodecParameters)
    ensures
        parameters@ == offered_codec(codec),
{
    match codec {
        VideoCodec::H264 | VideoCodec::H264High => {
            let id = match codec.h264_profile_level_id() {
                Some(id) => id,
                None => H264_BASELINE_PROFILE_LEVEL_ID,
            };
            h264_codec(id)
        },
        VideoCodec::Hevc => hevc_codec(),
        VideoCodec::Av1 => av1_codec(),
    }
}

/// The servers that a session may ask for its own address: none in the local network,
/// where no host beyond it is needed.
pub open spec fn servers(join_mode: JoinMode) -> Seq<Seq<char>> {
    if join_mode == JoinMode::Lan {
        Seq::empty()
    } else {
        seq!["stun:stun.l.google.com:19302"@]
    }
}

/// The servers that a session may ask for its own address.
pub fn ice_servers(join_mode: JoinMode) -> (urls: Vec<String>)
    ensures
        texts(urls@) == servers(join_mode),
{
    let mut urls: Vec<String> = Vec::new();
    if join_mode != JoinMode::Lan {
        urls.push("stun:stun.l.google.com:19302".to_owned());
    }
    assert(texts(urls@) =~= servers(join_mode));
    urls
}

/// Media never takes a detour: whatever server a session asks, it only tells addresses, and
/// no relay is among them.
pub proof fn law_no_relay_is_used(join_mode: JoinMode, i: int)
    requires
        0 <= i < servers(join_mode).len(),
    ensures
        begins_with(servers(join_mode)[i], "stun:"@),
        !begins_with(servers(join_mode)[i], "turn:"@),
        !begins_with(servers(join_mode)[i], "turns:"@),
{
    reveal_strlit("stun:stun.l.google.com:19302");
    reveal_strlit("stun:");
    reveal_strlit("turn:");
    reveal_strlit("turns:");
    let url = servers(join_mode)[i];
    assert(url.take(5) =~= "stun:"@);
    assert(url[0] == 's');
    assert("turn:"@[0] == 't' && "turns:"@[0] == 't');
}

/// A Baseline session takes Baseline units only, a High session takes both: Baseline
/// decodes everywhere. Units without a known profile pass.
pub open spec fn profile_passes(profile_level_id: Option<Seq<char>>, allow_high: bool) -> bool {
    match profile_level_id {
        None => true,
        Some(id) => has_profile(id, '4', '2') || (allow_high && has_profile(id, '6', '4')),
    }
}

/// Whether a unit of the given profile may be sent.
pub fn sample_profile_accepted(profile_level_id: Option<&str>, allow_high_profile: bool) -> (accepted:
    bool)
    ensures
        accepted == profile_passes(
            match profile_level_id {
                Some(id) => Some(id@),
                None => None,
            },
            allow_high_profile,
        ),
{
    match profile_level_id {
        None => true,
        Some(id) => is_baseline_profile(id) || (allow_high_profile && is_high_profile(id)),
    }
}

/// What a session offers it also sends, and a High unit never enters a Baseline
/// session.
pub proof fn law_offered_profile_passes(codec: VideoCodec)
    ensures
        profile_passes(offered_profile(codec), codec == VideoCodec::H264High),
        codec == VideoCodec::H264High ==> !profile_passes(offered_profile(codec), false),
{
    reveal_strlit("42e02a");
    reveal_strlit("64002a");
    vstd::utf8::is_ascii_chars_encode_utf8("42e02a"@);
    vstd::utf8::is_ascii_chars_encode_utf8("64002a"@);
}

/// A unit of a known profile is sent exactly where its profile opens with the digits of
/// Baseline, or with those of High in a session that allows it: what a Baseline session
/// takes a High one takes too. One without a profile is always sent.
pub proof fn law_high_takes_what_baseline_takes(id: Seq<char>)
    ensures
        profile_passes(None, true),
        profile_passes(None, false),
        profile_passes(Some(id), false) ==> profile_passes(Some(id), true),
        profile_passes(Some(id), false) ==> id.len() >= 2 && id[0] == '4' && id[1] == '2',
        profile_passes(Some(id), true) && !profile_passes(Some(id), false) ==> id.len() >= 2
            && id[0] == '6' && id[1] == '4',
{
}

/// A session offers one codec, under the name that it has for the encoder: the video clock,
/// feedback for estimates and lost pictures, and a payload type that no other codec has. Only
/// H.264 has a line of parameters, which names the profile that its units have.
pub proof fn law_offer_is_what_is_encoded(codec: VideoCodec, other: VideoCodec)
    ensures
        offered_codec(codec).mime_type == media_type(codec),
        offered_codec(codec).clock_rate == 90_000,
        offered_codec(codec).channels == 0,
        offered_codec(codec).rtcp_feedback == video_feedback(),
        offered_codec(codec).payload_type == offered_codec(other).payload_type <==> media_type(
            codec,
        ) == media_type(other),
        offered_profile(codec) is Some <==> codec is H264 || codec is H264High,
        offered_profile(codec) is Some ==> offered_codec(codec).sdp_fmtp_line == fmtp_line(
            offered_profile(codec)->0,
        ),
        offered_profile(codec) is None ==> offered_codec(codec).sdp_fmtp_line.len() == 0,
        offered_profile(codec) == offered_profile(other) && media_type(codec) == media_type(other)
            ==> codec == other,
{
    reveal_strlit("");
    reveal_strlit("video/H264");
    reveal_strlit("video/HEVC");
    reveal_strlit("video/AV1");
    reveal_strlit("42e02a");
    reveal_strlit("64002a");
    assert("video/H264"@[6] == 'H' && "video/H264"@[7] == '2');
    assert("video/HEVC"@[6] == 'H' && "video/HEVC"@[7] == 'E');
    assert("video/AV1"@[6] == 'A');
    assert("42e02a"@[0] == '4' && "64002a"@[0] == '6');
}

/// A format line is the fixed part and then the profile, so it tells profiles apart.
pub proof fn law_format_lines_tell_profiles_apart(a: Seq<char>, b: Seq<char>)
    ensures
        fmtp_line(a).skip(64) == a,
        fmtp_line(a) == fmtp_line(b) ==> a == b,
{
    reveal_strlit("level-asymmetry-allowed=1;packetization-mode=1;profile-level-id=");
    assert(fmtp_line(a).skip(64) =~= a);
    assert(fmtp_line(b).skip(64) =~= b);
}

/// Only the local network does without a server.
pub proof fn law_only_lan_asks_nobody(join_mode: JoinMode)
    ensures
        servers(join_mode).len() == 0 <==> join_mode is Lan,
{
}

} // verus!
