use godrinking::capabilities::{
    detect, macos_process_tap_available, readable_capabilities, AppAudioExclusionSupport, MacSystem, Platform,
    ScreenRecordingAuthorization,
};

fn mac(major: i64, minor: i64) -> Platform {
    Platform::Macos(MacSystem {
        framework_available: true,
        authorization: ScreenRecordingAuthorization::Granted,
        source_enumeration_available: true,
        detail: "ScreenCaptureKit is available.".into(),
        major,
        minor,
        av1_encode_supported: false,
    })
}

#[test]
fn capabilities_are_explicit_about_native_implementation() {
    let other = detect(&Platform::Other("linux".into()));
    assert!(!other.native_capture_implemented);
    assert!(!other.native_encoder_implemented);
    assert!(!other.detail.is_empty());
    let macos = detect(&mac(15, 0));
    assert!(macos.native_capture_implemented);
    assert!(macos.native_encoder_implemented);
    assert!(macos.native_peer_transport_implemented);
    assert!(!macos.detail.is_empty());
}

#[test]
fn macos_reports_screen_capture_kit_and_process_tap_audio_exclusion() {
    for platform in [mac(15, 0), mac(14, 2), mac(13, 6)] {
        let capabilities = detect(&platform);
        assert!(capabilities.screen_capture_kit);
        assert_ne!(
            capabilities.app_audio_exclusion,
            AppAudioExclusionSupport::BestEffort
        );
    }
}

#[test]
fn windows_reports_native_media_as_implemented() {
    let capabilities = detect(&Platform::Windows);
    assert!(capabilities.supported);
    assert!(capabilities.windows_graphics_capture);
    assert!(capabilities.wasapi);
    assert!(capabilities.native_capture_implemented);
    assert!(capabilities.native_encoder_implemented);
    assert!(capabilities.native_peer_transport_implemented);
    assert!(capabilities.source_enumeration_available);
    assert_eq!(
        capabilities.app_audio_exclusion,
        AppAudioExclusionSupport::Unsupported
    );
    assert!(!capabilities.detail.is_empty());
}

#[test]
fn other_platforms_are_unsupported() {
    let capabilities = detect(&Platform::Other("linux".into()));
    assert!(!capabilities.supported);
    assert_eq!(
        capabilities.app_audio_exclusion,
        AppAudioExclusionSupport::Unsupported
    );
    assert_eq!(capabilities.platform, "linux");
}

#[test]
fn process_taps_came_with_version_fourteen_two() {
    assert!(!macos_process_tap_available(13, 9));
    assert!(!macos_process_tap_available(14, 1));
    assert!(macos_process_tap_available(14, 2));
    assert!(macos_process_tap_available(15, 0));
    assert_eq!(
        detect(&mac(14, 2)).app_audio_exclusion,
        AppAudioExclusionSupport::Enhanced
    );
    assert_eq!(
        detect(&mac(14, 1)).app_audio_exclusion,
        AppAudioExclusionSupport::Unsupported
    );
}

#[test]
fn unreadable_capabilities_promise_nothing() {
    let shown = readable_capabilities(None);
    assert!(!shown.supported && !shown.native_peer_transport_implemented);
    assert_eq!(shown.platform, "unknown");
    assert_eq!(shown.detail, "Native media state is unavailable.");
    assert_eq!(
        readable_capabilities(Some(detect(&Platform::Windows))),
        detect(&Platform::Windows)
    );
}
