//! Plain enumerations and requests that several modules share.

use vstd::prelude::*;
use crate::room_mode::SessionMode;
use crate::text::{opt_text, texts};

verus! {

/// Where the media session stands.
#[derive(Clone, Copy, Debug, PartialEq, Eq, Structural)]
pub enum MediaLifecycleState {
    Idle,
    Starting,
    Running,
    Stopping,
    CleanupPending,
    Failed,
}

/// How viewers reach the host.
#[derive(Clone, Copy, Debug, PartialEq, Eq, Structural)]
pub enum JoinMode {
    Lan,
    Direct,
    Stunar,
}

/// What a session shows.
#[derive(Clone, Copy, Debug, PartialEq, Eq, Structural)]
pub enum CaptureSource {
    Screen,
    Window,
}

#[derive(Clone, Copy, Debug, PartialEq, Eq, Structural)]
pub enum VideoResolution {
    P2160,
    P1440,
    P1080,
    P720,
    P480,
}

#[derive(Clone, Copy, Debug, PartialEq, Eq, Structural)]
pub enum FrameRate {
    Fps120,
    Fps60,
    Fps30,
}

#[derive(Clone, Copy, Debug, PartialEq, Eq, Structural)]
pub enum VideoCodec {
    H264,
    H264High,
    Hevc,
    Av1,
}

#[derive(Clone, Copy, Debug, PartialEq, Eq, Structural)]
pub enum VideoEncoder {
    Auto,
    Hardware,
    Software,
}

#[derive(Clone, Copy, Debug, PartialEq, Eq, Structural)]
pub enum TransmissionQuality {
    Low,
    Medium,
    High,
}

/// The connection of one viewer.
#[derive(Clone, Copy, Debug, PartialEq, Eq, Structural)]
pub enum PeerTransportState {
    Disabled,
    Starting,
    New,
    Connecting,
    Connected,
    Disconnected,
    Failed,
    Closed,
    Pending,
}

/// The connection to the rendezvous server.
#[derive(Clone, Copy, Debug, PartialEq, Eq, Structural)]
pub enum StunarState {
    Calling,
    Live,
    Unreachable,
}

/// What an update says of the source id.
#[derive(Clone, Copy, Debug, PartialEq, Eq, Structural)]
pub enum SourceIdUpdate {
    To(u64),
    Clear,
    Unchanged,
}

impl FrameRate {
    pub open spec fn spec_hertz(self) -> u32 {
        match self {
            FrameRate::Fps120 => 120,
            FrameRate::Fps60 => 60,
            FrameRate::Fps30 => 30,
        }
    }

    /// Frames per second.
    pub fn hertz(self) -> (hertz: u32)
        ensures
            hertz == self.spec_hertz(),
    {
        match self {
            FrameRate::Fps120 => 120,
            FrameRate::Fps60 => 60,
            FrameRate::Fps30 => 30,
        }
    }
}

/// What a session was asked to be.
#[derive(Debug, PartialEq, Eq)]
pub struct CreateMediaSessionRequest {
    pub source: CaptureSource,
    pub source_id: Option<u64>,
    pub resolution: VideoResolution,
    pub frame_rate: FrameRate,
    pub system_audio: bool,
    pub excluded_apps: Vec<String>,
    pub quality: TransmissionQuality,
    pub bitrate_bps: Option<u32>,
    pub min_bitrate_bps: Option<u32>,
    pub codec: VideoCodec,
    pub encoder: VideoEncoder,
    pub password: String,
    pub nickname: String,
    pub admission: bool,
    pub join_mode: JoinMode,
    pub rendezvous_url: Option<String>,
    pub session_mode: SessionMode,
    pub attach_only: bool,
    pub share_on_start: bool,
}

/// What a running session is asked to change.
#[derive(Debug, PartialEq, Eq)]
pub struct UpdateMediaSessionRequest {
    pub source: Option<CaptureSource>,
    pub source_id: Option<u64>,
    pub quality: TransmissionQuality,
    pub bitrate_bps: Option<u32>,
    pub min_bitrate_bps: Option<u32>,
    pub resolution: Option<VideoResolution>,
    pub frame_rate: Option<FrameRate>,
    pub codec: VideoCodec,
    pub encoder: VideoEncoder,
    pub system_audio: bool,
    pub excluded_apps: Vec<String>,
}

/// New credentials for a running session.
#[derive(Debug, PartialEq, Eq)]
pub struct UpdateCredentialsRequest {
    pub password: Option<String>,
    pub admission: Option<bool>,
}

/// What a [`CreateMediaSessionRequest`] holds.
#[verifier::ext_equal]
pub struct RequestModel {
    pub source: CaptureSource,
    pub source_id: Option<u64>,
    pub resolution: VideoResolution,
    pub frame_rate: FrameRate,
    pub system_audio: bool,
    pub excluded_apps: Seq<Seq<char>>,
    pub quality: TransmissionQuality,
    pub bitrate_bps: Option<u32>,
    pub min_bitrate_bps: Option<u32>,
    pub codec: VideoCodec,
    pub encoder: VideoEncoder,
    pub password: Seq<char>,
    pub nickname: Seq<char>,
    pub admission: bool,
    pub join_mode: JoinMode,
    pub rendezvous_url: Option<Seq<char>>,
    pub session_mode: SessionMode,
    pub attach_only: bool,
    pub share_on_start: bool,
}

impl View for CreateMediaSessionRequest {
    type V = RequestModel;

    open spec fn view(&self) -> RequestModel {
        RequestModel {
            source: self.source,
            source_id: self.source_id,
            resolution: self.resolution,
            frame_rate: self.frame_rate,
            system_audio: self.system_audio,
            excluded_apps: texts(self.excluded_apps@),
            quality: self.quality,
            bitrate_bps: self.bitrate_bps,
            min_bitrate_bps: self.min_bitrate_bps,
            codec: self.codec,
            encoder: self.encoder,
            password: self.password@,
            nickname: self.nickname@,
            admission: self.admission,
            join_mode: self.join_mode,
            rendezvous_url: opt_text(self.rendezvous_url),
            session_mode: self.session_mode,
            attach_only: self.attach_only,
            share_on_start: self.share_on_start,
        }
    }
}

impl Clone for CreateMediaSessionRequest {
    fn clone(&self) -> (copy: Self)
        ensures
            copy@ == self@,
    {
        CreateMediaSessionRequest {
            source: self.source,
            source_id: self.source_id,
            resolution: self.resolution,
            frame_rate: self.frame_rate,
            system_audio: self.system_audio,
            excluded_apps: crate::text::copy_texts(&self.excluded_apps),
            quality: self.quality,
            bitrate_bps: self.bitrate_bps,
            min_bitrate_bps: self.min_bitrate_bps,
            codec: self.codec,
            encoder: self.encoder,
            password: self.password.clone(),
            nickname: self.nickname.clone(),
            admission: self.admission,
            join_mode: self.join_mode,
            rendezvous_url: crate::text::copy_opt_text(&self.rendezvous_url),
            session_mode: self.session_mode,
            attach_only: self.attach_only,
            share_on_start: self.share_on_start,
        }
    }
}

/// A rate is as many frames a second as its name says.
pub proof fn law_rates_are_named(rate: FrameRate)
    ensures
        rate.spec_hertz() == 30 <==> rate is Fps30,
        rate.spec_hertz() == 60 <==> rate is Fps60,
        rate.spec_hertz() == 120 <==> rate is Fps120,
{
}

} // verus!
