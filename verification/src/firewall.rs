//! Firewall advice for hosts that listen on the network.
//!
//! Direct and LAN hosts need inbound TCP; a rendezvous host only connects outward.
//! Windows asks the user by itself when the program listens without a rule, as long
//! as no older rule is left.

use vstd::prelude::*;
use crate::text::{chars_of, contains_text, occurs_in, same_text, text_of, trim_chars, trimmed};
use crate::types::JoinMode;

verus! {

/// What Unicode says the lower-case form of a text is, as the standard library
/// computes it.
pub uninterp spec fn unicode_lowercase(text: Seq<char>) -> Seq<char>;

/// Calls `str::to_lowercase` of the standard library. Its result is a function of
/// the text alone; which characters it maps how is left unsaid.
#[verifier::external_body]
fn to_lowercase(text: &str) -> (lower: String)
    ensures
        lower@ == unicode_lowercase(text@),
{
    text.to_lowercase()
}

/// The firewall of the system stands in the way of this join mode.
pub open spec fn firewall_matters(windows: bool, join_mode: JoinMode) -> bool {
    windows && join_mode != JoinMode::Stunar
}

/// Whether the join mode needs inbound TCP on a system with this kind of firewall.
pub fn needs_firewall(windows: bool, join_mode: JoinMode) -> (needed: bool)
    ensures
        needed == firewall_matters(windows, join_mode),
        needed == (windows && join_mode != JoinMode::Stunar),
{
    windows && match join_mode {
        JoinMode::Direct => true,
        JoinMode::Lan => true,
        JoinMode::Stunar => false,
    }
}

/// What a firewall command printed, and whether it succeeded.
#[derive(Debug, PartialEq, Eq)]
pub struct CommandOutput {
    pub stdout: String,
    pub stderr: String,
    pub success: bool,
}

/// What came of the attempt to remove old rules.
#[derive(Clone, Copy, Debug, PartialEq, Eq, Structural)]
pub enum ResetOutcome {
    Removed,
    NoPermission,
    Failed,
}

/// The command printed `ok`, or succeeded without a complaint.
pub open spec fn reset_succeeded(output: CommandOutput) -> bool {
    trimmed(output.stdout@) == "ok"@ || (output.success && trimmed(output.stderr@).len() == 0)
}

/// What the command complained about.
pub open spec fn reset_complaint(output: CommandOutput) -> Seq<char> {
    if trimmed(output.stderr@).len() > 0 {
        trimmed(output.stderr@)
    } else {
        trimmed(output.stdout@)
    }
}

/// A complaint, given in lower case, that speaks of missing rights.
pub open spec fn speaks_of_rights(lower: Seq<char>) -> bool {
    occurs_in(lower, "denied"@) || occurs_in(lower, "privil\u{e9}gio"@) || occurs_in(
        lower,
        "privilege"@,
    ) || occurs_in(lower, "admin"@)
}

/// Whether a complaint, given in lower case, speaks of missing rights.
pub fn is_permission_complaint(lower: &str) -> (found: bool)
    ensures
        found == speaks_of_rights(lower@),
{
    let hay = chars_of(lower);
    contains_text(&hay, &chars_of("denied")) || contains_text(&hay, &chars_of("privil\u{e9}gio"))
        || contains_text(&hay, &chars_of("privilege")) || contains_text(&hay, &chars_of("admin"))
}

/// The outcome of a reset command, given its complaint in lower case.
pub open spec fn reset_outcome(output: CommandOutput, lower: Seq<char>) -> ResetOutcome {
    if reset_succeeded(output) {
        ResetOutcome::Removed
    } else if speaks_of_rights(lower) {
        ResetOutcome::NoPermission
    } else {
        ResetOutcome::Failed
    }
}

fn succeeded(output: &CommandOutput) -> (ok: bool)
    ensures
        ok == reset_succeeded(*output),
{
    let out = text_of(&trim_chars(&chars_of(output.stdout.as_str())));
    let err = trim_chars(&chars_of(output.stderr.as_str()));
    same_text(out.as_str(), "ok") || (output.success && err.len() == 0)
}

fn complaint(output: &CommandOutput) -> (text: String)
    ensures
        text@ == reset_complaint(*output),
{
    let err = trim_chars(&chars_of(output.stderr.as_str()));
    if err.len() > 0 {
        text_of(&err)
    } else {
        text_of(&trim_chars(&chars_of(output.stdout.as_str())))
    }
}

/// What to tell the user about the removal of old rules. `None` stands for a system
/// without this kind of firewall.
pub fn reset_firewall_rules(output: Option<CommandOutput>) -> (message: Result<String, String>)
    ensures
        match output {
            None => message is Ok && message->Ok_0@ == "firewall s\u{f3} no Windows"@,
            Some(o) => reset_message(
                message,
                reset_outcome(o, unicode_lowercase(reset_complaint(o))),
                reset_complaint(o),
            ),
        },
{
    match output {
        None => Ok("firewall s\u{f3} no Windows".to_owned()),
        Some(o) => {
            let text = complaint(&o);
            let lower = to_lowercase(text.as_str());
            let outcome = if succeeded(&o) {
                ResetOutcome::Removed
            } else if is_permission_complaint(lower.as_str()) {
                ResetOutcome::NoPermission
            } else {
                ResetOutcome::Failed
            };
            reset_advice(outcome, text.as_str())
        },
    }
}

/// The message for an outcome of the reset command.
pub open spec fn reset_message(
    message: Result<String, String>,
    outcome: ResetOutcome,
    complaint: Seq<char>,
) -> bool {
    match outcome {
        ResetOutcome::Removed => message is Ok && message->Ok_0@
            == "regras goDrinking removidas (se existiam). Na pr\u{f3}xima vez que iniciar Direct/LAN como Host, o Windows deve mostrar o prompt de Firewall \u{2014} sem precisar rodar o app como Admin."@,
        ResetOutcome::NoPermission => message is Ok && message->Ok_0@
            == "N\u{e3}o foi poss\u{ed}vel remover automaticamente (sem permiss\u{e3}o de Admin) \u{2014} mas N\u{c3}O precisa rodar como Admin. V\u{e1} em Configura\u{e7}\u{f5}es > Firewall > Permitir app pelo firewall > Remova 'goDrinking' manualmente e na pr\u{f3}xima vez que iniciar Direct/LAN como Host o Windows pedir\u{e1} permiss\u{e3}o. Stunar/LAN Viewer n\u{e3}o precisam de firewall."@,
        ResetOutcome::Failed => message is Err && message->Err_0@ == "reset falhou: "@ + complaint,
    }
}

/// Words the advice for an outcome of the reset command.
pub fn reset_advice(outcome: ResetOutcome, complaint: &str) -> (message: Result<String, String>)
    ensures
        reset_message(message, outcome, complaint@),
{
    match outcome {
        ResetOutcome::Removed => Ok(
            "regras goDrinking removidas (se existiam). Na pr\u{f3}xima vez que iniciar Direct/LAN como Host, o Windows deve mostrar o prompt de Firewall \u{2014} sem precisar rodar o app como Admin.".to_owned(),
        ),
        ResetOutcome::NoPermission => Ok(
            "N\u{e3}o foi poss\u{ed}vel remover automaticamente (sem permiss\u{e3}o de Admin) \u{2014} mas N\u{c3}O precisa rodar como Admin. V\u{e1} em Configura\u{e7}\u{f5}es > Firewall > Permitir app pelo firewall > Remova 'goDrinking' manualmente e na pr\u{f3}xima vez que iniciar Direct/LAN como Host o Windows pedir\u{e1} permiss\u{e3}o. Stunar/LAN Viewer n\u{e3}o precisam de firewall.".to_owned(),
        ),
        ResetOutcome::Failed => {
            let mut text: String = "reset falhou: ".to_owned();
            text.append(complaint);
            Err(text)
        },
    }
}

/// What a query for firewall rules gave.
#[derive(Debug, PartialEq, Eq)]
pub enum FirewallQuery {
    /// This system has no such firewall.
    Absent,
    /// The command could not be started.
    NotStarted(String),
    /// The command ran.
    Ran(CommandOutput),
}

/// The answer to a query for firewall rules of the program `exe`. There is none where the
/// table is empty or counts none.
pub open spec fn status_text(query: FirewallQuery, exe: Seq<char>) -> Seq<char> {
    match query {
        FirewallQuery::Absent => "firewall s\u{f3} no Windows"@,
        FirewallQuery::NotStarted(error) => "check erro: "@ + error@,
        FirewallQuery::Ran(output) => {
            let table = trimmed(output.stdout@);
            if !output.success {
                "check falhou: "@ + output.stderr@
            } else if table.len() == 0 || table == "0"@ {
                "nenhuma regra goDrinking encontrada para "@ + exe
                    + " \u{2014} ao iniciar Direct/LAN o Windows deve pedir permiss\u{e3}o (se o Firewall estiver ativo)"@
            } else {
                "regras atuais:\n"@ + table + "\nexe: "@ + exe
            }
        },
    }
}

/// Describes the firewall rules that exist for the program.
pub fn check_firewall_status(query: &FirewallQuery, exe: &str) -> (status: String)
    ensures
        status@ == status_text(*query, exe@),
{
    match query {
        FirewallQuery::Absent => "firewall s\u{f3} no Windows".to_owned(),
        FirewallQuery::NotStarted(error) => {
            let mut text: String = "check erro: ".to_owned();
            text.append(error.as_str());
            text
        },
        FirewallQuery::Ran(output) => {
            if !output.success {
                let mut text: String = "check falhou: ".to_owned();
                text.append(output.stderr.as_str());
                return text;
            }
            let table = trim_chars(&chars_of(output.stdout.as_str()));
            let rules = text_of(&table);
            if table.len() == 0 || same_text(rules.as_str(), "0") {
                let mut text: String = "nenhuma regra goDrinking encontrada para ".to_owned();
                text.append(exe);
                text.append(
                    " \u{2014} ao iniciar Direct/LAN o Windows deve pedir permiss\u{e3}o (se o Firewall estiver ativo)",
                );
                text
            } else {
                let mut text: String = "regras atuais:\n".to_owned();
                text.append(rules.as_str());
                text.append("\nexe: ");
                text.append(exe);
                text
            }
        },
    }
}

/// Whether a host that starts in this mode should look at the firewall rules in the
/// background.
pub fn ensure_firewall_for_host(windows: bool, join_mode: JoinMode) -> (query: bool)
    ensures
        query == firewall_matters(windows, join_mode),
        query == (windows && join_mode != JoinMode::Stunar),
{
    needs_firewall(windows, join_mode)
}

/// A command that printed `ok` removed the rules, whatever else it said; one that succeeded
/// did so where it complained of nothing. Any other did not.
pub proof fn law_reset_is_judged_by_what_is_said(output: CommandOutput, lower: Seq<char>)
    ensures
        trimmed(output.stdout@) == "ok"@ ==> reset_outcome(output, lower) is Removed,
        trimmed(output.stdout@) != "ok"@ && output.success ==> (reset_outcome(output, lower)
            is Removed <==> trimmed(output.stderr@).len() == 0),
        trimmed(output.stdout@) != "ok"@ && !output.success ==> !(reset_outcome(output, lower)
            is Removed),
        trimmed(output.stderr@).len() > 0 ==> reset_complaint(output) == trimmed(output.stderr@),
        trimmed(output.stderr@).len() == 0 ==> reset_complaint(output) == trimmed(output.stdout@),
{
}

/// A complaint that speaks of a refusal, of a privilege or of the administrator, wherever it
/// does, is about rights; what says more about rights is still about rights.
pub proof fn law_rights_are_recognised(front: Seq<char>, back: Seq<char>)
    ensures
        speaks_of_rights(front + "denied"@ + back),
        speaks_of_rights(front + "privilege"@ + back),
        speaks_of_rights(front + "privil\u{e9}gio"@ + back),
        speaks_of_rights(front + "admin"@ + back),
        speaks_of_rights(front) ==> speaks_of_rights(front + back),
        speaks_of_rights(Seq::empty()) == false,
        forall|output: CommandOutput|
            !reset_succeeded(output) ==> ((#[trigger] reset_outcome(output, front)) is NoPermission
                <==> speaks_of_rights(front)),
{
    lemma_occurs_between(front, "denied"@, back);
    lemma_occurs_between(front, "privilege"@, back);
    lemma_occurs_between(front, "privil\u{e9}gio"@, back);
    lemma_occurs_between(front, "admin"@, back);
    lemma_occurs_longer(front, "denied"@, back);
    lemma_occurs_longer(front, "privilege"@, back);
    lemma_occurs_longer(front, "privil\u{e9}gio"@, back);
    lemma_occurs_longer(front, "admin"@, back);
    reveal_strlit("denied");
    reveal_strlit("privilege");
    reveal_strlit("privil\u{e9}gio");
    reveal_strlit("admin");
}

proof fn lemma_occurs_between(front: Seq<char>, needle: Seq<char>, back: Seq<char>)
    ensures
        occurs_in(front + needle + back, needle),
{
    let all = front + needle + back;
    let n = front.len() as int;
    assert(all.subrange(n, n + needle.len()) =~= needle);
    assert(crate::text::occurs_at(all, needle, n));
}

proof fn lemma_occurs_longer(front: Seq<char>, needle: Seq<char>, back: Seq<char>)
    ensures
        occurs_in(front, needle) ==> occurs_in(front + back, needle),
{
    if occurs_in(front, needle) {
        let i = choose|i: int| crate::text::occurs_at(front, needle, i);
        assert((front + back).subrange(i, i + needle.len()) =~= front.subrange(
            i,
            i + needle.len(),
        ));
        assert(crate::text::occurs_at(front + back, needle, i));
    }
}

/// The rules are shown exactly where the query succeeded and found some: an empty table and a
/// count of none both say that there are none.
pub proof fn law_rules_are_shown_where_there_are_some(output: CommandOutput, exe: Seq<char>)
    ensures
        ({
            let told = status_text(FirewallQuery::Ran(output), exe);
            let table = trimmed(output.stdout@);
            &&& !output.success ==> told == "check falhou: "@ + output.stderr@
            &&& output.success && table.len() > 0 && table != "0"@ ==> told == "regras atuais:\n"@
                + table + "\nexe: "@ + exe
            &&& output.success && (table.len() == 0 || table == "0"@) ==> crate::text::begins_with(
                told,
                "nenhuma regra goDrinking encontrada para "@ + exe,
            )
        }),
{
    let told = status_text(FirewallQuery::Ran(output), exe);
    let opening = "nenhuma regra goDrinking encontrada para "@ + exe;
    if output.success && (trimmed(output.stdout@).len() == 0 || trimmed(output.stdout@) == "0"@) {
        assert(told.subrange(0, opening.len() as int) =~= opening);
    }
}

/// Hosts that are reached on the network need the firewall looked at, and only on Windows; one
/// that only connects outward never does.
pub proof fn law_only_listeners_need_the_firewall(windows: bool, join_mode: JoinMode)
    ensures
        firewall_matters(windows, JoinMode::Lan) == windows,
        firewall_matters(windows, JoinMode::Direct) == windows,
        !firewall_matters(windows, JoinMode::Stunar),
        firewall_matters(windows, join_mode) ==> windows,
{
}

/// What is told of a reset is good news where the rules are gone, advice where rights are
/// missing, and the complaint itself where it failed.
pub proof fn law_resets_are_told(message: Result<String, String>, complaint: Seq<char>)
    ensures
        reset_message(message, ResetOutcome::Removed, complaint) ==> message is Ok,
        reset_message(message, ResetOutcome::NoPermission, complaint) ==> message is Ok,
        reset_message(message, ResetOutcome::Failed, complaint) ==> message is Err
            && message->Err_0@ == "reset falhou: "@ + complaint,
{
}

} // verus!
