//! What the platform offers.

use vstd::prelude::*;

verus! {

/// How well the platform can leave single applications out of the system audio.
#[derive(Clone, Copy, Debug, PartialEq, Eq, Structural)]
pub enum AppAudioExclusionSupport {
    Enhanced,
    BestEffort,
    Unsupported,
}

/// What the user allowed as to screen recording.
#[derive(Clone, Copy, Debug, PartialEq, Eq, Structural)]
pub enum ScreenRecordingAuthorization {
    NotDetermined,
    Granted,
    Denied,
    Unsupported,
}

/// The media features of this computer.
#[derive(Debug, PartialEq, Eq)]
pub struct MediaCapabilities {
    pub platform: String,
    pub supported: bool,
    pub screen_capture_kit: bool,
    pub screen_recording_authorization: ScreenRecordingAuthorization,
    pub source_enumeration_available: bool,
    pub windows_graphics_capture: bool,
    pub wasapi: bool,
    pub process_loopback: bool,
    pub app_audio_exclusion: AppAudioExclusionSupport,
    pub native_capture_implemented: bool,
    pub native_encoder_implemented: bool,
    pub native_peer_transport_implemented: bool,
    pub av1_encode_supported: bool,
    pub detail: String,
}

/// What a [`MediaCapabilities`] holds.
pub struct CapabilitiesModel {
    pub platform: Seq<char>,
    pub supported: bool,
    pub screen_capture_kit: bool,
    pub screen_recording_authorization: ScreenRecordingAuthorization,
    pub source_enumeration_available: bool,
    pub windows_graphics_capture: bool,
    pub wasapi: bool,
    pub process_loopback: bool,
    pub app_audio_exclusion: AppAudioExclusionSupport,
    pub native_capture_implemented: bool,
    pub native_encoder_implemented: bool,
    pub native_peer_transport_implemented: bool,
    pub av1_encode_supported: bool,
    pub detail: Seq<char>,
}

impl View for MediaCapabilities {
    type V = CapabilitiesModel;

    open spec fn view(&self) -> CapabilitiesModel {
        CapabilitiesModel {
            platform: self.platform@,
            supported: self.supported,
            screen_capture_kit: self.screen_capture_kit,
            screen_recording_authorization: self.screen_recording_authorization,
            source_enumeration_available: self.source_enumeration_available,
            windows_graphics_capture: self.windows_graphics_capture,
            wasapi: self.wasapi,
            process_loopback: self.process_loopback,
            app_audio_exclusion: self.app_audio_exclusion,
            native_capture_implemented: self.native_capture_implemented,
            native_encoder_implemented: self.native_encoder_implemented,
            native_peer_transport_implemented: self.native_peer_transport_implemented,
            av1_encode_supported: self.av1_encode_supported,
            detail: self.detail@,
        }
    }
}

impl Clone for MediaCapabilities {
    fn clone(&self) -> (copy: Self)
        ensures
            copy@ == self@,
    {
        MediaCapabilities {
            platform: self.platform.clone(),
            supported: self.supported,
            screen_capture_kit: self.screen_capture_kit,
            screen_recording_authorization: self.screen_recording_authorization,
            source_enumeration_available: self.source_enumeration_available,
            windows_graphics_capture: self.windows_graphics_capture,
            wasapi: self.wasapi,
            process_loopback: self.process_loopback,
            app_audio_exclusion: self.app_audio_exclusion,
            native_capture_implemented: self.native_capture_implemented,
            native_encoder_implemented: self.native_encoder_implemented,
            native_peer_transport_implemented: self.native_peer_transport_implemented,
            av1_encode_supported: self.av1_encode_supported,
            detail: self.detail.clone(),
        }
    }
}

/// What the screen capture framework of macOS reports, and the system version.
#[derive(Debug, PartialEq, Eq)]
pub struct MacSystem {
    pub framework_available: bool,
    pub authorization: ScreenRecordingAuthorization,
    pub source_enumeration_available: bool,
    pub detail: String,
    pub major: i64,
    pub minor: i64,
    pub av1_encode_supported: bool,
}

/// The platform that the program runs on.
#[derive(Debug, PartialEq, Eq)]
pub enum Platform {
    Macos(MacSystem),
    Windows,
    Other(String),
}

/// The capabilities of a platform.
pub open spec fn capabilities_of(platform: Platform) -> CapabilitiesModel {
    match platform {
        Platform::Macos(system) => CapabilitiesModel {
            platform: "macos"@,
            supported: true,
            screen_capture_kit: system.framework_available,
            screen_recording_authorization: system.authorization,
            source_enumeration_available: system.source_enumeration_available,
            windows_graphics_capture: false,
            wasapi: false,
            process_loopback: false,
            app_audio_exclusion: if taps_processes(system.major as int, system.minor as int) {
                AppAudioExclusionSupport::Enhanced
            } else {
                AppAudioExclusionSupport::Unsupported
            },
            native_capture_implemented: true,
            native_encoder_implemented: true,
            native_peer_transport_implemented: true,
            av1_encode_supported: system.av1_encode_supported,
            detail: system.detail@
                + " Local-only native WebRTC is available. On macOS 14.2+, system audio can exclude selected apps."@,
        },
        Platform::Windows => CapabilitiesModel {
            platform: "windows"@,
            supported: true,
            screen_capture_kit: false,
            screen_recording_authorization: ScreenRecordingAuthorization::Unsupported,
            source_enumeration_available: true,
            windows_graphics_capture: true,
            wasapi: true,
            process_loopback: false,
            app_audio_exclusion: AppAudioExclusionSupport::Unsupported,
            native_capture_implemented: true,
            native_encoder_implemented: true,
            native_peer_transport_implemented: true,
            av1_encode_supported: false,
            detail:
                "Windows Graphics Capture and OpenH264 native capture are available. System audio is a full device loopback; per-app audio exclusion is unsupported (no mix-minus tap)."@,
        },
        Platform::Other(name) => CapabilitiesModel {
            platform: name@,
            supported: false,
            screen_capture_kit: false,
            screen_recording_authorization: ScreenRecordingAuthorization::Unsupported,
            source_enumeration_available: false,
            windows_graphics_capture: false,
            wasapi: false,
            process_loopback: false,
            app_audio_exclusion: AppAudioExclusionSupport::Unsupported,
            native_capture_implemented: false,
            native_encoder_implemented: false,
            native_peer_transport_implemented: false,
            av1_encode_supported: false,
            detail:
                "Native media capture is unsupported on this platform; the WebView path remains the active implementation."@,
        },
    }
}

/// Process taps exist from macOS 14.2 on.
pub open spec fn taps_processes(major: int, minor: int) -> bool {
    major > 14 || (major == 14 && minor >= 2)
}

/// Whether this macOS version can tap single processes.
pub fn macos_process_tap_available(major: i64, minor: i64) -> (available: bool)
    ensures
        available == taps_processes(major as int, minor as int),
{
    major > 14 || (major == 14 && minor >= 2)
}

/// The capabilities of the platform.
pub fn detect(platform: &Platform) -> (capabilities: MediaCapabilities)
    ensures
        capabilities@ == capabilities_of(*platform),
{
    match platform {
        Platform::Macos(system) => {
            let mut detail: String = system.detail.clone();
            detail.append(
                " Local-only native WebRTC is available. On macOS 14.2+, system audio can exclude selected apps.",
            );
            MediaCapabilities {
                platform: "macos".to_owned(),
                supported: true,
                screen_capture_kit: system.framework_available,
                screen_recording_authorization: system.authorization,
                source_enumeration_available: system.source_enumeration_available,
                windows_graphics_capture: false,
                wasapi: false,
                process_loopback: false,
                app_audio_exclusion: if macos_process_tap_available(system.major, system.minor) {
                    AppAudioExclusionSupport::Enhanced
                } else {
                    AppAudioExclusionSupport::Unsupported
                },
                native_capture_implemented: true,
                native_encoder_implemented: true,
                native_peer_transport_implemented: true,
                av1_encode_supported: system.av1_encode_supported,
                detail,
            }
        },
        Platform::Windows => MediaCapabilities {
            platform: "windows".to_owned(),
            supported: true,
            screen_capture_kit: false,
            screen_recording_authorization: ScreenRecordingAuthorization::Unsupported,
            source_enumeration_available: true,
            windows_graphics_capture: true,
            wasapi: true,
            process_loopback: false,
            app_audio_exclusion: AppAudioExclusionSupport::Unsupported,
            native_capture_implemented: true,
            native_encoder_implemented: true,
            native_peer_transport_implemented: true,
            av1_encode_supported: false,
            detail:
                "Windows Graphics Capture and OpenH264 native capture are available. System audio is a full device loopback; per-app audio exclusion is unsupported (no mix-minus tap).".to_owned(),
        },
        Platform::Other(name) => MediaCapabilities {
            platform: name.clone(),
            supported: false,
            screen_capture_kit: false,
            screen_recording_authorization: ScreenRecordingAuthorization::Unsupported,
            source_enumeration_available: false,
            windows_graphics_capture: false,
            wasapi: false,
            process_loopback: false,
            app_audio_exclusion: AppAudioExclusionSupport::Unsupported,
            native_capture_implemented: false,
            native_encoder_implemented: false,
            native_peer_transport_implemented: false,
            av1_encode_supported: false,
            detail:
                "Native media capture is unsupported on this platform; the WebView path remains the active implementation.".to_owned(),
        },
    }
}

/// What is shown while nothing is known of the platform.
pub open spec fn unknown_capabilities() -> CapabilitiesModel {
    CapabilitiesModel {
        platform: "unknown"@,
        supported: false,
        screen_capture_kit: false,
        screen_recording_authorization: ScreenRecordingAuthorization::Unsupported,
        source_enumeration_available: false,
        windows_graphics_capture: false,
        wasapi: false,
        process_loopback: false,
        app_audio_exclusion: AppAudioExclusionSupport::Unsupported,
        native_capture_implemented: false,
        native_encoder_implemented: false,
        native_peer_transport_implemented: false,
        av1_encode_supported: false,
        detail: "Native media state is unavailable."@,
    }
}

/// The capabilities as they are known, or nothing at all where the state of the engine
/// cannot be read.
pub fn readable_capabilities(known: Option<MediaCapabilities>) -> (shown: MediaCapabilities)
    ensures
        shown@ == match known {
            Some(capabilities) => capabilities@,
            None => unknown_capabilities(),
        },
{
    match known {
        Some(capabilities) => capabilities,
        None => MediaCapabilities {
            platform: "unknown".to_owned(),
            supported: false,
            screen_capture_kit: false,
            screen_recording_authorization: ScreenRecordingAuthorization::Unsupported,
            source_enumeration_available: false,
            windows_graphics_capture: false,
            wasapi: false,
            process_loopback: false,
            app_audio_exclusion: AppAudioExclusionSupport::Unsupported,
            native_capture_implemented: false,
            native_encoder_implemented: false,
            native_peer_transport_implemented: false,
            av1_encode_supported: false,
            detail: "Native media state is unavailable.".to_owned(),
        },
    }
}

/// A platform that is not supported offers no native part at all, and one that is
/// captures, encodes and connects natively.
pub proof fn law_support_is_all_or_nothing(platform: Platform)
    ensures
        ({
            let c = capabilities_of(platform);
            &&& c.supported == c.native_capture_implemented
            &&& c.supported == c.native_encoder_implemented
            &&& c.supported == c.native_peer_transport_implemented
            &&& c.app_audio_exclusion != AppAudioExclusionSupport::BestEffort
        }),
{
}

/// A version that can tap processes is 14.2 or a later one, and every later one can.
pub proof fn law_later_versions_tap_too(major: int, minor: int, other_major: int, other_minor: int)
    ensures
        taps_processes(14, 2),
        !taps_processes(14, 1),
        taps_processes(major, minor) ==> major >= 14,
        taps_processes(14, minor) ==> minor >= 2,
        taps_processes(major, minor) && (other_major > major || (other_major == major
            && other_minor >= minor)) ==> taps_processes(other_major, other_minor),
{
}

/// On macOS what the system reports is what is shown; applications can be left out exactly
/// where processes can be tapped. Windows captures with its own parts and asks for nothing.
pub proof fn law_capabilities_follow_the_system(system: MacSystem, name: String)
    ensures
        ({
            let mac = capabilities_of(Platform::Macos(system));
            &&& mac.screen_capture_kit == system.framework_available
            &&& mac.screen_recording_authorization == system.authorization
            &&& mac.source_enumeration_available == system.source_enumeration_available
            &&& mac.av1_encode_supported == system.av1_encode_supported
            &&& mac.app_audio_exclusion == AppAudioExclusionSupport::Enhanced <==> taps_processes(
                system.major as int,
                system.minor as int,
            )
            &&& !mac.windows_graphics_capture && !mac.wasapi && !mac.process_loopback
            &&& crate::text::begins_with(mac.detail, system.detail@)
        }),
        ({
            let windows = capabilities_of(Platform::Windows);
            &&& windows.windows_graphics_capture && windows.wasapi
            &&& windows.source_enumeration_available
            &&& !windows.screen_capture_kit && !windows.av1_encode_supported
            &&& !windows.process_loopback
            &&& windows.app_audio_exclusion == AppAudioExclusionSupport::Unsupported
            &&& windows.screen_recording_authorization == ScreenRecordingAuthorization::Unsupported
        }),
        ({
            let other = capabilities_of(Platform::Other(name));
            &&& other.platform == name@
            &&& !other.supported
            &&& other == (CapabilitiesModel {
                platform: name@,
                detail: other.detail,
                ..unknown_capabilities()
            })
        }),
{
    let mac = capabilities_of(Platform::Macos(system));
    assert(mac.detail.subrange(0, system.detail@.len() as int) =~= system.detail@);
}

} // verus!
