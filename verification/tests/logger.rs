use godrinking::logger::{
    age_order, civil_from_days, is_log_file, log_line, logs_dir_string, prune, read_sessions,
    session_file_name, stamp, LogFile, MAX_SESSIONS,
};

fn file(name: &str, secs: i64, nanos: u32, content: &str) -> LogFile {
    LogFile {
        name: name.to_string(),
        modified_secs: secs,
        modified_nanos: nanos,
        content: content.to_string(),
    }
}

#[test]
fn stamp_formats_utc() {
    // 2026-09-02 15:30:45 UTC
    assert_eq!(stamp(1_788_363_045), "20260902-153045");
    // Unix epoch
    assert_eq!(stamp(0), "19700101-000000");
}

#[test]
fn stamps_cover_leap_days_and_times_before_the_epoch() {
    assert_eq!(stamp(951_782_400), "20000229-000000");
    assert_eq!(stamp(4_107_542_399), "21000228-235959");
    assert_eq!(stamp(-1), "19691231-235959");
}

#[test]
fn dates_are_unique() {
    assert_eq!(civil_from_days(0), (1970, 1, 1));
    assert_eq!(civil_from_days(-1), (1969, 12, 31));
    assert_eq!(civil_from_days(11_016), (2000, 2, 29));
    assert_eq!(civil_from_days(11_017), (2000, 3, 1));
    let mut previous = civil_from_days(-400);
    for day in -399..2_000 {
        let date = civil_from_days(day);
        assert!(date > previous);
        previous = date;
    }
}

#[test]
fn lines_carry_time_level_and_event() {
    let line = log_line(1_788_363_045, 7, "INFO", "started", "");
    assert!(line.starts_with("[15:30:45.007]"));
    assert!(line.contains("INFO") && line.ends_with(" started: \n"));
    let detailed = log_line(0, 999, "WARN", "slow", "queue=4");
    assert!(detailed.starts_with("[00:00:00.999]"));
    assert!(detailed.ends_with(" slow: queue=4\n"));
}

#[test]
fn file_names_hold_stamp_role_mode_and_process() {
    let name = session_file_name(1_788_363_045, "host", "lan", 42);
    assert_eq!(name, "session-20260902-153045-host-lan-p42.log");
    assert!(is_log_file(&name));
    assert!(!is_log_file(".log"));
    assert!(!is_log_file("notes.txt"));
}

#[test]
fn logs_stand_below_the_data_directory() {
    assert_eq!(
        logs_dir_string(Some("/home/ada/data"), '/').as_deref(),
        Some("/home/ada/data/godrinking/logs")
    );
    assert_eq!(logs_dir_string(None, '/'), None);
}

#[test]
fn pruning_removes_the_oldest_only() {
    let mut files: Vec<String> = (0..MAX_SESSIONS + 2)
        .map(|i| format!("202609{:02}-000000-host.log", i + 1))
        .collect();
    files.push("notes.txt".to_string());
    files.reverse();
    let removed = prune(&files);
    assert_eq!(
        removed,
        vec![
            "20260901-000000-host.log".to_string(),
            "20260902-000000-host.log".to_string()
        ]
    );
    assert_eq!(age_order(&files).len(), MAX_SESSIONS + 2);
    assert!(prune(&files[..MAX_SESSIONS].to_vec()).is_empty());
}

#[test]
fn session_roundtrip_and_clear() {
    let opened = log_line(0, 0, "INFO", "session", "log file opened (host/stunar)");
    let hello = log_line(1, 0, "INFO", "test", "hello from the logger");
    let name = session_file_name(0, "host", "stunar", 7);
    let sessions = read_sessions(vec![
        file("older.log", 10, 0, "x\n"),
        file(&name, 20, 5, &format!("{opened}{hello}")),
        file("notes.txt", 30, 0, "not shown"),
    ]);
    assert!(!sessions.is_empty(), "a session file should exist");
    assert!(
        sessions
            .iter()
            .flat_map(|session| session.lines.iter())
            .any(|line| line.contains("hello from the logger")),
        "the written line should be readable back"
    );
    assert_eq!(sessions.len(), 2);
    assert_eq!(format!("{}.log", sessions[0].session), name);
    assert_eq!(sessions[0].timestamp, "19700101-000020");
    assert_eq!(sessions[0].lines, vec![opened.trim_end(), hello.trim_end()]);
    assert_eq!(sessions[1].session, "older");
    assert!(
        read_sessions(Vec::new()).is_empty(),
        "clear should remove every file"
    );
}

#[test]
fn file_names_sort_by_age() {
    let name = |secs: i64, role: &str| session_file_name(secs, role, "stunar", 7);
    let moments = [0, 1, 59, 60, 3_599, 3_600, 86_399, 86_400, 2_678_400, 1_788_363_045];
    for pair in moments.windows(2) {
        assert!(name(pair[0], "viewer") < name(pair[1], "host"));
    }
}
