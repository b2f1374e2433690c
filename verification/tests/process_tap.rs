//! Leaving applications out of the system audio.

use godrinking::process_tap::{
    app_excluded_by_token, fourcc, opus_frames, opus_packet, pid_is_emitting_output,
    process_objects_for_bundles, running_applications, tap_exclusions, translated_pid,
    AudioProcess, NativeRunningApp, TapError, TapParts, TapSetup, TapStage, TappedApp,
};

#[test]
fn discord_name_and_helper_bundles_all_match() {
    // Selected by display name.
    assert!(app_excluded_by_token("Discord", None, "Discord"));
    assert!(app_excluded_by_token("Discord Helper (Renderer)", None, "Discord"));
    // Selected by bundle id.
    assert!(app_excluded_by_token("Discord", Some("com.hnc.Discord"), "com.hnc.Discord"));
    assert!(app_excluded_by_token(
        "Discord Helper",
        Some("com.hnc.Discord.helper"),
        "com.hnc.Discord"
    ));
    // Case-insensitive on both sides.
    assert!(app_excluded_by_token("discord", Some("COM.HNC.DISCORD"), "Discord"));
    assert!(app_excluded_by_token("Discord Helper", Some("com.hnc.Discord.helper"), "discord"));
}

#[test]
fn unrelated_apps_do_not_match() {
    assert!(!app_excluded_by_token("Safari", Some("com.apple.Safari"), "Discord"));
    assert!(!app_excluded_by_token("Google Chrome", Some("com.google.Chrome"), "discord"));
    assert!(!app_excluded_by_token("Slack", Some("com.tinyspeck.slackmacgap"), "Discord"));
    assert!(!app_excluded_by_token("Discord", Some("com.hnc.Discord"), ""));
    assert!(!app_excluded_by_token("Discord", Some("com.hnc.Discord"), "   "));
}

#[test]
fn property_codes_are_big_endian() {
    assert_eq!(fourcc(b"id2p"), 0x6964_3270);
    assert_eq!(fourcc(b"piro"), 0x7069_726f);
}

#[test]
fn pcm_is_cut_into_whole_frames() {
    assert_eq!(opus_frames(0), (0, 0));
    assert_eq!(opus_frames(1_919), (0, 1_919));
    assert_eq!(opus_frames(1_920), (1, 0));
    assert_eq!(opus_frames(4_000), (2, 160));
    let packet = opus_packet(vec![1, 2, 3, 0, 0], 3).expect("encoded");
    assert_eq!(packet.data, vec![1, 2, 3]);
    assert_eq!(packet.duration_micros, 20_000);
    assert_eq!(opus_packet(vec![0; 4], 0), None);
}

#[test]
fn a_tap_leaves_itself_out_once() {
    assert_eq!(tap_exclusions(&vec![9, 3, 9], Some(4)), vec![3, 4, 9]);
    assert_eq!(tap_exclusions(&vec![5, 5], Some(5)), vec![5]);
    assert_eq!(tap_exclusions(&vec![], None), Vec::<u32>::new());
}

#[test]
fn an_app_without_its_own_output_may_still_emit() {
    assert!(pid_is_emitting_output(7, true, &vec![]));
    assert!(pid_is_emitting_output(7, false, &vec![(3, true), (7, true)]));
    assert!(!pid_is_emitting_output(7, false, &vec![(7, false), (8, true)]));
}

#[test]
fn a_failed_enumeration_lists_nothing() {
    assert!(running_applications(Err("no access".into())).is_empty());
    let app = NativeRunningApp {
        name: "Discord".into(),
        bundle_id: None,
        pid: 4,
    };
    assert_eq!(running_applications(Ok(vec![app])).len(), 1);
}

#[test]
fn helpers_of_an_excluded_app_are_excluded_with_it() {
    let app = |name: &str, bundle: Option<&str>, pid: i32, object: Option<u32>| TappedApp {
        app: NativeRunningApp {
            name: name.into(),
            bundle_id: bundle.map(str::to_owned),
            pid,
        },
        object,
    };
    let apps = vec![
        app("Discord", Some("com.hnc.Discord"), 10, Some(100)),
        app("Safari", Some("com.apple.Safari"), 20, Some(200)),
        app("Discord Helper", None, 30, None),
    ];
    let audio = vec![
        AudioProcess { object: 300, pid: 30, name: "helper".into() },
        AudioProcess { object: 400, pid: 40, name: "discord-voice".into() },
        AudioProcess { object: 200, pid: 20, name: "Safari".into() },
    ];
    let objects = process_objects_for_bundles(&apps, &vec!["discord".into()], &audio);
    assert_eq!(objects, vec![100, 300, 400]);
    // Applications come first and count each on its own; audio objects come once, in order.
    let apps = vec![
        app("Discord", None, 10, Some(900)),
        app("Discord PTB", None, 11, Some(900)),
    ];
    let audio = vec![
        AudioProcess { object: 500, pid: 10, name: "voice".into() },
        AudioProcess { object: 900, pid: 10, name: "voice".into() },
        AudioProcess { object: 400, pid: 40, name: "Discord Helper".into() },
        AudioProcess { object: 500, pid: 11, name: "voice".into() },
    ];
    assert_eq!(
        process_objects_for_bundles(&apps, &vec!["discord".into()], &audio),
        vec![900, 900, 500, 400]
    );
    assert!(process_objects_for_bundles(&apps, &vec![], &audio).is_empty());
}

#[test]
fn a_tap_is_set_up_step_by_step() {
    let mut setup = TapSetup::new(true).expect("macOS has taps");
    let mut stages = vec![setup.stage];
    while setup.stage != TapStage::Running {
        assert_eq!(setup.on_step(Ok(())), None);
        stages.push(setup.stage);
    }
    assert_eq!(
        stages,
        vec![
            TapStage::Describe,
            TapStage::CreateTap,
            TapStage::DescribeAggregate,
            TapStage::CreateAggregate,
            TapStage::CreateIoProc,
            TapStage::Start,
            TapStage::Encode,
            TapStage::Running,
        ]
    );
    assert_eq!(
        TapSetup::new(false).unwrap_err(),
        "process taps are unavailable on this platform"
    );
}

#[test]
fn a_refused_tap_leaves_nothing() {
    let mut first = TapSetup { stage: TapStage::CreateTap };
    let (text, parts) = first.on_step(Err(TapError::Status(-50))).expect("a failure");
    assert_eq!(text, "AudioHardwareCreateProcessTap failed (-50)");
    assert!(!parts.tap && !parts.aggregate);
    let mut last = TapSetup { stage: TapStage::Start };
    let (text, parts) = last.on_step(Err(TapError::Status(7))).expect("a failure");
    assert_eq!(text, "AudioDeviceStart failed (7)");
    assert_eq!(
        parts,
        TapParts {
            io_proc: true,
            context: true,
            aggregate: true,
            tap: true
        }
    );
    assert_eq!(last.stage, TapStage::Failed);
    let mut unnamed = TapSetup { stage: TapStage::DescribeAggregate };
    let (text, _) = unnamed
        .on_step(Err(TapError::Message("process tap UUID is missing".into())))
        .expect("a failure");
    assert_eq!(text, "process tap UUID is missing");
}

#[test]
fn a_process_number_is_translated_or_refused() {
    assert_eq!(translated_pid(42, 0, 7), Ok(7));
    assert_eq!(
        translated_pid(42, -50, 7),
        Err("no Core Audio process object for pid 42 (-50)".to_string())
    );
    assert_eq!(
        translated_pid(-1, 0, 0),
        Err("no Core Audio process object for pid -1 (0)".to_string())
    );
}

#[test]
fn capitals_make_no_difference_to_an_exclusion() {
    for token in ["Discord", "DISCORD", " discord\t"] {
        for name in ["discord helper", "DISCORD HELPER"] {
            assert!(app_excluded_by_token(name, None, token));
        }
    }
}
