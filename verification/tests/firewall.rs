use godrinking::firewall::{
    check_firewall_status, ensure_firewall_for_host, is_permission_complaint, needs_firewall,
    reset_advice, reset_firewall_rules, CommandOutput, FirewallQuery, ResetOutcome,
};
use godrinking::types::JoinMode;

fn output(stdout: &str, stderr: &str, success: bool) -> CommandOutput {
    CommandOutput {
        stdout: stdout.to_string(),
        stderr: stderr.to_string(),
        success,
    }
}

#[test]
fn only_listening_hosts_on_windows_need_the_firewall() {
    assert!(needs_firewall(true, JoinMode::Lan));
    assert!(needs_firewall(true, JoinMode::Direct));
    assert!(!needs_firewall(true, JoinMode::Stunar));
    assert!(!needs_firewall(false, JoinMode::Lan));
    assert!(ensure_firewall_for_host(true, JoinMode::Direct));
    assert!(!ensure_firewall_for_host(true, JoinMode::Stunar));
}

#[test]
fn removed_rules_are_reported() {
    for done in [output(" ok \n", "noise", false), output("", " ", true)] {
        let message = reset_firewall_rules(Some(done)).expect("removed");
        assert!(message.starts_with("regras goDrinking removidas"));
    }
    assert_eq!(
        reset_firewall_rules(None).as_deref(),
        Ok("firewall s\u{f3} no Windows")
    );
}

#[test]
fn missing_rights_are_recognized_in_any_case() {
    for text in ["Access is DENIED.", "PRIVIL\u{c9}GIO insuficiente", "Run as ADMIN"] {
        let message = reset_firewall_rules(Some(output("", text, false))).expect("advice");
        assert!(message.contains("sem permiss\u{e3}o de Admin"));
    }
    assert!(is_permission_complaint("access is denied"));
    assert!(!is_permission_complaint("access is DENIED"));
    assert!(!is_permission_complaint("no such rule"));
}

#[test]
fn other_complaints_are_passed_on() {
    assert_eq!(
        reset_firewall_rules(Some(output("No Rules", "", false))).unwrap_err(),
        "reset falhou: No Rules"
    );
    assert_eq!(
        reset_firewall_rules(Some(output("x", " Broken ", true))).unwrap_err(),
        "reset falhou: Broken"
    );
    assert_eq!(
        reset_advice(ResetOutcome::Failed, "why").unwrap_err(),
        "reset falhou: why"
    );
}

#[test]
fn the_status_says_what_the_query_gave() {
    assert_eq!(
        check_firewall_status(&FirewallQuery::Absent, "app.exe"),
        "firewall s\u{f3} no Windows"
    );
    assert_eq!(
        check_firewall_status(&FirewallQuery::NotStarted("no shell".into()), "app.exe"),
        "check erro: no shell"
    );
    assert_eq!(
        check_firewall_status(&FirewallQuery::Ran(output("x", "bad", false)), "app.exe"),
        "check falhou: bad"
    );
    let none = check_firewall_status(&FirewallQuery::Ran(output(" 0 ", "", true)), "app.exe");
    assert!(none.starts_with("nenhuma regra goDrinking encontrada para app.exe"));
    assert_eq!(
        check_firewall_status(&FirewallQuery::Ran(output(" rule A \n", "", true)), "app.exe"),
        "regras atuais:\nrule A\nexe: app.exe"
    );
    assert_eq!(
        check_firewall_status(&FirewallQuery::Ran(output("goDrinking 2.0\n", "", true)), "app.exe"),
        "regras atuais:\ngoDrinking 2.0\nexe: app.exe"
    );
    let empty = check_firewall_status(&FirewallQuery::Ran(output(" \n", "", true)), "app.exe");
    assert!(empty.starts_with("nenhuma regra goDrinking encontrada para app.exe"));
}
