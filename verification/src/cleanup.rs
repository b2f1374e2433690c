//! Giving back what a session holds.
//!
//! Every owner of a native resource reports how its shutdown went. A ledger sums the
//! reports up, and what did not stop stays with the session for another try.

use vstd::prelude::*;
use crate::engine::opt_error;
use crate::engine_error::{ErrorModel, MediaEngineError};
use crate::fanout::ShutdownStatus;
use crate::session::{opt_session, without, SessionModel, SessionRecord};
use crate::text::{copy_texts, join_texts, joined_by, opt_text, push_text, texts};
use crate::transactions::CleanupBundle;

verus! {

/// What a [`ShutdownStatus`] says.
#[verifier::ext_equal]
pub struct ReportModel {
    pub quiesced: bool,
    pub pending: Seq<Seq<char>>,
    pub errors: Seq<Seq<char>>,
}

/// What a status says.
pub open spec fn report(status: ShutdownStatus) -> ReportModel {
    ReportModel {
        quiesced: status.quiesced,
        pending: texts(status.pending@),
        errors: texts(status.errors@),
    }
}

/// What an optional status says.
pub open spec fn opt_report(status: Option<ShutdownStatus>) -> Option<ReportModel> {
    match status {
        Some(s) => Some(report(s)),
        None => None,
    }
}

/// What a list of statuses says.
pub open spec fn all_reports(list: Seq<ShutdownStatus>) -> Seq<ReportModel> {
    Seq::new(list.len(), |i: int| report(list[i]))
}

/// Every item with its owner in front.
pub open spec fn owned(owner: Seq<char>, items: Seq<Seq<char>>) -> Seq<Seq<char>> {
    Seq::new(items.len(), |i: int| owner + ": "@ + items[i])
}

/// Sums up how shutdowns went.
#[derive(Debug)]
pub struct CleanupLedger {
    pub quiesced: bool,
    pub pending: Vec<String>,
    pub errors: Vec<String>,
}

/// What a [`CleanupLedger`] says.
#[verifier::ext_equal]
pub struct LedgerModel {
    pub quiesced: bool,
    pub pending: Seq<Seq<char>>,
    pub errors: Seq<Seq<char>>,
}

impl View for CleanupLedger {
    type V = LedgerModel;

    open spec fn view(&self) -> LedgerModel {
        LedgerModel {
            quiesced: self.quiesced,
            pending: texts(self.pending@),
            errors: texts(self.errors@),
        }
    }
}

/// A ledger without reports.
pub open spec fn blank_ledger() -> LedgerModel {
    LedgerModel { quiesced: true, pending: Seq::empty(), errors: Seq::empty() }
}

impl LedgerModel {
    /// The ledger with one more report.
    pub open spec fn status(self, owner: Seq<char>, report: ReportModel) -> LedgerModel {
        LedgerModel {
            quiesced: self.quiesced && report.quiesced,
            pending: self.pending + owned(owner, report.pending),
            errors: self.errors + owned(owner, report.errors),
        }
    }

    /// The ledger with one more report, where there is one.
    pub open spec fn opt_status(self, owner: Seq<char>, report: Option<ReportModel>) -> LedgerModel {
        match report {
            Some(r) => self.status(owner, r),
            None => self,
        }
    }

    /// The ledger with one more error.
    pub open spec fn error(self, error: Seq<char>) -> LedgerModel {
        LedgerModel { quiesced: false, errors: self.errors.push(error), ..self }
    }

    /// The ledger with a capture that may not have stopped.
    pub open spec fn capture(self, error: Option<Seq<char>>) -> LedgerModel {
        match error {
            Some(e) => self.error("capture: "@ + e),
            None => self,
        }
    }

    /// The ledger with the reports of a list of owners of one kind.
    pub open spec fn statuses(self, owner: Seq<char>, reports: Seq<ReportModel>) -> LedgerModel
        decreases reports.len(),
    {
        if reports.len() == 0 {
            self
        } else {
            self.statuses(owner, reports.drop_last()).status(owner, reports.last())
        }
    }

    /// Everything stopped, and nothing went wrong.
    pub open spec fn clean(self) -> bool {
        self.quiesced && self.errors.len() == 0
    }

    /// What is pending and what went wrong, in one line.
    pub open spec fn summary(self) -> Seq<char> {
        if (self.pending + self.errors).len() == 0 {
            "resource cleanup is not quiescent"@
        } else {
            joined_by(self.pending + self.errors, "; "@)
        }
    }
}

fn add_owned(list: &mut Vec<String>, owner: &str, items: &Vec<String>)
    ensures
        texts(final(list)@) == texts(old(list)@) + owned(owner@, texts(items@)),
{
    let mut i: usize = 0;
    assert(texts(list@) =~= texts(old(list)@) + owned(owner@, texts(items@)).take(0));
    while i < items.len()
        invariant
            i <= items@.len(),
            texts(list@) == texts(old(list)@) + owned(owner@, texts(items@)).take(i as int),
        decreases items@.len() - i,
    {
        let mut text = owner.to_owned();
        push_text(&mut text, ": ");
        push_text(&mut text, items[i].as_str());
        let ghost before = list@;
        list.push(text);
        proof {
            let all = owned(owner@, texts(items@));
            assert(texts(list@) =~= texts(before).push(text@));
            assert(all[i as int] == text@);
            assert(all.take(i + 1) =~= all.take(i as int).push(text@));
            assert(texts(list@) =~= texts(old(list)@) + all.take(i + 1));
        }
        i += 1;
    }
    assert(owned(owner@, texts(items@)).take(i as int) =~= owned(owner@, texts(items@)));
}

impl CleanupLedger {
    /// A ledger without reports.
    pub fn new() -> (ledger: Self)
        ensures
            ledger@ == blank_ledger(),
    {
        let ledger = CleanupLedger { quiesced: true, pending: Vec::new(), errors: Vec::new() };
        assert(ledger@ =~= blank_ledger());
        ledger
    }

    /// Notes how the shutdown of one owner went.
    pub fn status(&mut self, owner: &str, status: &ShutdownStatus)
        ensures
            final(self)@ == old(self)@.status(owner@, report(*status)),
    {
        self.quiesced = self.quiesced && status.quiesced;
        add_owned(&mut self.pending, owner, &status.pending);
        add_owned(&mut self.errors, owner, &status.errors);
    }

    fn opt_status(&mut self, owner: &str, status: &Option<ShutdownStatus>)
        ensures
            final(self)@ == old(self)@.opt_status(owner@, opt_report(*status)),
    {
        if let Some(found) = status {
            self.status(owner, found);
        }
    }

    fn statuses(&mut self, owner: &str, list: &Vec<ShutdownStatus>)
        ensures
            final(self)@ == old(self)@.statuses(owner@, all_reports(list@)),
    {
        let mut i: usize = 0;
        let ghost all = all_reports(list@);
        assert(all.take(0) =~= Seq::empty());
        while i < list.len()
            invariant
                i <= list@.len(),
                all == all_reports(list@),
                self@ == old(self)@.statuses(owner@, all.take(i as int)),
            decreases list@.len() - i,
        {
            self.status(owner, &list[i]);
            proof {
                assert(all.take(i + 1).drop_last() =~= all.take(i as int));
                assert(all.take(i + 1).last() == report(list@[i as int]));
            }
            i += 1;
        }
        assert(all.take(i as int) =~= all);
    }

    /// Notes an error.
    pub fn error(&mut self, error: String)
        ensures
            final(self)@ == old(self)@.error(error@),
    {
        self.quiesced = false;
        self.errors.push(error);
        assert(self@ =~= old(self)@.error(error@));
    }

    fn capture(&mut self, error: &Option<String>)
        ensures
            final(self)@ == old(self)@.capture(opt_text(*error)),
    {
        if let Some(found) = error {
            let mut text = "capture: ".to_owned();
            push_text(&mut text, found.as_str());
            self.error(text);
        }
    }

    /// Whether everything stopped and nothing went wrong.
    pub fn clean(&self) -> (clean: bool)
        ensures
            clean == self@.clean(),
    {
        self.quiesced && self.errors.len() == 0
    }

    /// What is pending and what went wrong, in one line.
    pub fn summary(&self) -> (summary: String)
        ensures
            summary@ == self@.summary(),
    {
        let mut parts = copy_texts(&self.pending);
        let mut errors = copy_texts(&self.errors);
        let ghost noted = errors@;
        let ghost first = parts@;
        parts.append(&mut errors);
        assert(texts(parts@) =~= texts(first) + texts(noted));
        if parts.len() == 0 {
            "resource cleanup is not quiescent".to_owned()
        } else {
            join_texts(&parts, "; ")
        }
    }
}

/// Why a tap that did not stop cleanly was not stopped.
pub open spec fn tap_refusal(report: ReportModel) -> Option<Seq<char>> {
    if report.quiesced && report.errors.len() == 0 {
        None
    } else if (report.pending + report.errors).len() == 0 {
        Some("audio tap cleanup is not quiescent"@)
    } else {
        Some(joined_by(report.pending + report.errors, "; "@))
    }
}

/// The session, and what is said, once its tap reported how its shutdown went.
pub open spec fn tap_shut_down<P, R>(
    session: SessionModel<P, R>,
    report: Option<ReportModel>,
) -> (SessionModel<P, R>, Option<Seq<char>>) {
    match report {
        None => (session, None),
        Some(r) => (
            SessionModel { has_audio_tap: tap_refusal(r) is Some, ..session },
            tap_refusal(r),
        ),
    }
}

/// Takes the report of the tap, if there is one: a tap that did not stop cleanly stays.
pub fn shutdown_audio_tap<P, R>(
    session: &mut SessionRecord<P, R>,
    status: &Option<ShutdownStatus>,
) -> (result: Result<(), String>)
    requires
        old(session).wf(),
        *status is Some <==> old(session).has_audio_tap,
    ensures
        final(session).wf(),
        ({
            let (after, refusal) = tap_shut_down(old(session)@, opt_report(*status));
            &&& final(session)@ == after
            &&& match refusal {
                Some(text) => result is Err && result->Err_0@ == text,
                None => result is Ok,
            }
        }),
{
    match status {
        None => Ok(()),
        Some(found) => {
            if found.quiesced && found.errors.len() == 0 {
                session.has_audio_tap = false;
                return Ok(());
            }
            let mut detail = copy_texts(&found.pending);
            let mut errors = copy_texts(&found.errors);
            let ghost first = detail@;
            let ghost noted = errors@;
            detail.append(&mut errors);
            assert(texts(detail@) =~= texts(first) + texts(noted));
            if detail.len() == 0 {
                Err("audio tap cleanup is not quiescent".to_owned())
            } else {
                Err(join_texts(&detail, "; "))
            }
        },
    }
}

/// The session without those of its first `n` viewers whose peers stopped.
pub open spec fn viewers_stopped<P, R>(
    session: SessionModel<P, R>,
    reports: Seq<ReportModel>,
    n: nat,
) -> SessionModel<P, R>
    decreases n,
{
    if n == 0 {
        session
    } else {
        let rest = viewers_stopped(session, reports, (n - 1) as nat);
        if reports[n - 1].quiesced {
            rest.without_viewer(session.order[n - 1])
        } else {
            rest
        }
    }
}

fn stop_viewers<P, R>(session: &mut SessionRecord<P, R>, peers: &Vec<ShutdownStatus>)
    requires
        old(session).wf(),
        peers@.len() == old(session)@.order.len(),
    ensures
        final(session).wf(),
        final(session)@ == viewers_stopped(
            old(session)@,
            all_reports(peers@),
            peers@.len(),
        ),
{
    let ghost before = session@;
    let mut ids: Vec<String> = Vec::new();
    let mut k: usize = 0;
    while k < session.viewers.len()
        invariant
            session.wf(),
            *session == *old(session),
            k <= session.viewers.order().len(),
            texts(ids@) == session.viewers.order().take(k as int),
        decreases session.viewers.order().len() - k,
    {
        let ghost listed = ids@;
        ids.push(session.viewers.key_at(k).clone());
        assert(texts(ids@) =~= texts(listed).push(session.viewers.order()[k as int]));
        assert(session.viewers.order().take(k + 1) =~= session.viewers.order().take(
            k as int,
        ).push(session.viewers.order()[k as int]));
        k += 1;
    }
    assert(texts(ids@) =~= before.order);
    let mut i: usize = 0;
    while i < peers.len()
        invariant
            session.wf(),
            texts(ids@) == before.order,
            peers@.len() == before.order.len(),
            ids@.len() == before.order.len(),
            i <= peers@.len(),
            session@ == viewers_stopped(before, all_reports(peers@), i as nat),
        decreases peers@.len() - i,
    {
        if peers[i].quiesced {
            let id = ids[i].as_str();
            assert(id@ == before.order[i as int]) by {
                assert(texts(ids@)[i as int] == before.order[i as int]);
            }
            drop_viewer(session, id);
        }
        i += 1;
    }
}

/// Takes a viewer out of the session.
pub fn drop_viewer<P, R>(session: &mut SessionRecord<P, R>, id: &str) -> (link: Option<
    crate::session::ViewerLink<P>,
>)
    requires
        old(session).wf(),
    ensures
        final(session).wf(),
        final(session)@ == old(session)@.without_viewer(id@),
        crate::session::opt_link(link) == if old(session)@.viewers.contains_key(id@) {
            Some(old(session)@.viewers[id@])
        } else {
            None
        },
{
    proof {
        session.viewers.lemma_items();
        if session.viewers.order().contains(id@) {
            let i = session.viewers.order().index_of(id@);
            assert(session.viewers.order()[i] == id@);
        }
    }
    let link = session.viewers.remove(id);
    assert(session@.viewers =~= old(session)@.viewers.remove(id@));
    assert(session@ =~= old(session)@.without_viewer(id@));
    link
}

/// How the parts of a share reported their shutdown.
#[derive(Debug)]
pub struct ShareReports {
    /// Why the capture could not be stopped.
    pub capture_error: Option<String>,
    /// From the tap, where there is one.
    pub audio_tap: Option<ShutdownStatus>,
    /// From the peer of each viewer, in their order.
    pub peers: Vec<ShutdownStatus>,
    /// From the fanout, where there is one.
    pub fanout: Option<ShutdownStatus>,
    pub pipeline: ShutdownStatus,
}

impl ShareReports {
    /// The reports are those of this session.
    pub open spec fn fit<P, R>(&self, session: SessionModel<P, R>) -> bool {
        &&& self.capture_error is Some ==> session.native_capture_active
        &&& (self.audio_tap is Some) == session.has_audio_tap
        &&& self.peers@.len() == session.order.len()
        &&& (self.fanout is Some) == session.has_fanout
    }

    /// The ledger of a share.
    pub open spec fn ledger(&self) -> LedgerModel {
        blank_ledger().capture(opt_text(self.capture_error)).opt_status(
            "audio tap"@,
            opt_report(self.audio_tap),
        ).statuses("peer"@, all_reports(self.peers@)).opt_status(
            "fanout"@,
            opt_report(self.fanout),
        ).status("pipeline"@, report(self.pipeline))
    }

    /// What is left of the session.
    pub open spec fn left<P, R>(&self, session: SessionModel<P, R>) -> SessionModel<P, R> {
        SessionModel {
            has_audio_tap: still_runs(opt_report(self.audio_tap)),
            has_fanout: still_runs(opt_report(self.fanout)),
            ..viewers_stopped(session, all_reports(self.peers@), self.peers@.len())
        }
    }
}

/// An owner reported that it did not stop.
pub open spec fn still_runs(report: Option<ReportModel>) -> bool {
    report matches Some(r) && !r.quiesced
}

fn runs_on(status: &Option<ShutdownStatus>) -> (runs: bool)
    ensures
        runs == still_runs(opt_report(*status)),
{
    match status {
        Some(found) => !found.quiesced,
        None => false,
    }
}

/// Ends a share once its parts reported. Where something did not stop or went wrong, the
/// session comes back with what is left and says why.
pub fn stop_share_bundle<P, R>(session: SessionRecord<P, R>, reports: ShareReports) -> (result:
    Result<SessionRecord<P, R>, (SessionRecord<P, R>, MediaEngineError)>)
    requires
        session.wf(),
        reports.fit(session@),
    ensures
        ({
            let left = reports.left(session@);
            if reports.ledger().clean() && left.order.len() == 0 {
                &&& result is Ok
                &&& result->Ok_0.wf()
                &&& result->Ok_0@ == SessionModel {
                    native_capture_active: false,
                    has_audio_channel: false,
                    ..left
                }
            } else {
                &&& result is Err
                &&& result->Err_0.0.wf()
                &&& result->Err_0.0@ == left
                &&& result->Err_0.1@ == ErrorModel::NativeCapture(
                    "Share cleanup pending: "@ + reports.ledger().summary(),
                )
            }
        }),
{
    let mut session = session;
    let mut ledger = CleanupLedger::new();
    ledger.capture(&reports.capture_error);
    ledger.opt_status("audio tap", &reports.audio_tap);
    ledger.statuses("peer", &reports.peers);
    ledger.opt_status("fanout", &reports.fanout);
    ledger.status("pipeline", &reports.pipeline);
    stop_viewers(&mut session, &reports.peers);
    session.has_audio_tap = runs_on(&reports.audio_tap);
    session.has_fanout = runs_on(&reports.fanout);
    if !ledger.clean() || session.viewers.len() != 0 {
        let mut text = "Share cleanup pending: ".to_owned();
        push_text(&mut text, ledger.summary().as_str());
        return Err((session, MediaEngineError::NativeCapture(text)));
    }
    session.native_capture_active = false;
    session.has_audio_channel = false;
    Ok(session)
}

/// How the session's place on the rendezvous server reported its shutdown.
#[derive(Debug)]
pub enum StunarReport {
    /// There was none.
    Absent,
    Stopped(ShutdownStatus),
    /// Someone else still holds it.
    Shared,
}

/// How the parts of a session reported their shutdown.
#[derive(Debug)]
pub struct SessionReports {
    /// Why the capture could not be stopped.
    pub capture_error: Option<String>,
    /// From the peer of each viewer, in their order.
    pub peers: Vec<ShutdownStatus>,
    /// From the fanout, where there is one.
    pub fanout: Option<ShutdownStatus>,
    /// From the tap, where there is one.
    pub audio_tap: Option<ShutdownStatus>,
    pub pipeline: ShutdownStatus,
    /// From the room on the local network, where there is one.
    pub lan_room: Option<ShutdownStatus>,
    /// From the room on a direct address, where there is one.
    pub direct_room: Option<ShutdownStatus>,
    pub stunar: StunarReport,
}

impl SessionReports {
    /// The reports are those of this session.
    pub open spec fn fit<P, R>(&self, session: SessionModel<P, R>) -> bool {
        &&& self.peers@.len() == session.order.len()
        &&& (self.fanout is Some) == session.has_fanout
        &&& (self.audio_tap is Some) == session.has_audio_tap
        &&& (self.lan_room is Some) == session.has_lan_room
        &&& (self.direct_room is Some) == session.has_direct_room
        &&& (self.stunar is Absent) == !session.has_stunar
    }

    /// The ledger of a session.
    pub open spec fn ledger(&self) -> LedgerModel {
        let before = blank_ledger().capture(opt_text(self.capture_error)).statuses(
            "peer"@,
            all_reports(self.peers@),
        ).opt_status("fanout"@, opt_report(self.fanout)).opt_status(
            "audio tap"@,
            opt_report(self.audio_tap),
        ).status("pipeline"@, report(self.pipeline)).opt_status(
            "LAN room"@,
            opt_report(self.lan_room),
        ).opt_status("Direct room"@, opt_report(self.direct_room));
        match self.stunar {
            StunarReport::Absent => before,
            StunarReport::Stopped(status) => before.status("Stunar"@, report(status)),
            StunarReport::Shared => before.error("Stunar remained shared during cleanup"@),
        }
    }

    /// What is left of the session.
    pub open spec fn left<P, R>(&self, session: SessionModel<P, R>) -> SessionModel<P, R> {
        SessionModel {
            has_fanout: still_runs(opt_report(self.fanout)),
            has_audio_tap: still_runs(opt_report(self.audio_tap)),
            has_lan_room: still_runs(opt_report(self.lan_room)),
            has_direct_room: still_runs(opt_report(self.direct_room)),
            has_stunar: match self.stunar {
                StunarReport::Absent => false,
                StunarReport::Stopped(status) => !status.quiesced,
                StunarReport::Shared => true,
            },
            ..viewers_stopped(session, all_reports(self.peers@), self.peers@.len())
        }
    }

    /// Every part stopped without an error.
    pub open spec fn all_stopped(&self) -> bool {
        &&& self.capture_error is None
        &&& forall|i: int| 0 <= i < self.peers@.len() ==> stopped(#[trigger] self.peers@[i])
        &&& self.fanout matches Some(status) ==> stopped(status)
        &&& self.audio_tap matches Some(status) ==> stopped(status)
        &&& stopped(self.pipeline)
        &&& self.lan_room matches Some(status) ==> stopped(status)
        &&& self.direct_room matches Some(status) ==> stopped(status)
        &&& match self.stunar {
            StunarReport::Absent => true,
            StunarReport::Stopped(status) => stopped(status),
            StunarReport::Shared => false,
        }
    }
}

/// An owner stopped without an error.
pub open spec fn stopped(status: ShutdownStatus) -> bool {
    status.quiesced && status.errors@.len() == 0
}

fn session_ledger(reports: &SessionReports) -> (ledger: CleanupLedger)
    ensures
        ledger@ == reports.ledger(),
{
    let mut ledger = CleanupLedger::new();
    ledger.capture(&reports.capture_error);
    ledger.statuses("peer", &reports.peers);
    ledger.opt_status("fanout", &reports.fanout);
    ledger.opt_status("audio tap", &reports.audio_tap);
    ledger.status("pipeline", &reports.pipeline);
    ledger.opt_status("LAN room", &reports.lan_room);
    ledger.opt_status("Direct room", &reports.direct_room);
    match &reports.stunar {
        StunarReport::Absent => {},
        StunarReport::Stopped(status) => {
            ledger.status("Stunar", status);
        },
        StunarReport::Shared => {
            ledger.error("Stunar remained shared during cleanup".to_owned());
        },
    }
    ledger
}

fn keep_what_runs<P, R>(session: &mut SessionRecord<P, R>, reports: &SessionReports)
    requires
        old(session).wf(),
        reports.fit(old(session)@),
    ensures
        final(session).wf(),
        final(session)@ == reports.left(old(session)@),
{
    stop_viewers(session, &reports.peers);
    session.has_fanout = runs_on(&reports.fanout);
    session.has_audio_tap = runs_on(&reports.audio_tap);
    session.has_lan_room = runs_on(&reports.lan_room);
    session.has_direct_room = runs_on(&reports.direct_room);
    session.has_stunar = match &reports.stunar {
        StunarReport::Absent => false,
        StunarReport::Stopped(status) => !status.quiesced,
        StunarReport::Shared => true,
    };
}

/// Ends a session once its parts reported. Where everything stopped, nothing is left;
/// else what is left comes back and says why.
pub fn cleanup_session_bundle<P, R>(
    session: SessionRecord<P, R>,
    reports: SessionReports,
) -> (bundle: CleanupBundle<P, R>)
    requires
        session.wf(),
        reports.fit(session@),
    ensures
        bundle.session matches Some(s) ==> s.wf(),
        ({
            let left = reports.left(session@);
            if reports.ledger().clean() && left.order.len() == 0 {
                bundle.session is None && bundle.error is None
            } else {
                &&& opt_session(bundle.session) == Some(left)
                &&& opt_error(bundle.error) == Some(
                    ErrorModel::NativeCapture(reports.ledger().summary()),
                )
            }
        }),
{
    let mut session = session;
    let ledger = session_ledger(&reports);
    keep_what_runs(&mut session, &reports);
    if ledger.clean() && session.viewers.len() == 0 {
        CleanupBundle { session: None, error: None }
    } else {
        let error = MediaEngineError::NativeCapture(ledger.summary());
        CleanupBundle { session: Some(session), error: Some(error) }
    }
}

proof fn lemma_statuses_clean(ledger: LedgerModel, owner: Seq<char>, reports: Seq<ReportModel>)
    ensures
        ledger.statuses(owner, reports).clean() <==> ledger.clean() && forall|i: int|
            0 <= i < reports.len() ==> (#[trigger] reports[i]).quiesced && reports[i].errors.len()
                == 0,
    decreases reports.len(),
{
    if reports.len() > 0 {
        let init = reports.drop_last();
        lemma_statuses_clean(ledger, owner, init);
        assert forall|i: int| 0 <= i < init.len() implies init[i] == #[trigger] reports[i] by {}
        assert(reports.last() == reports[reports.len() - 1]);
        if ledger.statuses(owner, reports).clean() {
            assert forall|i: int| 0 <= i < reports.len() implies (#[trigger] reports[i]).quiesced
                && reports[i].errors.len() == 0 by {
                if i < init.len() {
                    assert(init[i].quiesced);
                }
            }
        } else if ledger.clean() && forall|i: int|
            0 <= i < reports.len() ==> (#[trigger] reports[i]).quiesced && reports[i].errors.len()
                == 0 {
            assert forall|i: int| 0 <= i < init.len() implies (#[trigger] init[i]).quiesced
                && init[i].errors.len() == 0 by {
                assert(reports[i].quiesced);
            }
        }
    }
}

proof fn lemma_all_viewers_stopped<P, R>(
    session: SessionModel<P, R>,
    reports: Seq<ReportModel>,
    n: nat,
)
    requires
        session.order.no_duplicates(),
        n <= session.order.len(),
        n <= reports.len(),
        forall|i: int| 0 <= i < n ==> (#[trigger] reports[i]).quiesced,
    ensures
        viewers_stopped(session, reports, n).order == session.order.skip(n as int),
    decreases n,
{
    if n == 0 {
        assert(session.order.skip(0) =~= session.order);
    } else {
        let m = (n - 1) as nat;
        lemma_all_viewers_stopped(session, reports, m);
        let rest = session.order.skip(m as int);
        assert(reports[m as int].quiesced);
        let id = session.order[m as int];
        assert(rest[0] == id);
        assert(rest.contains(id));
        let at = rest.index_of(id);
        assert(rest[at] == id);
        assert(session.order[m + at] == id);
        assert(at == 0);
        assert(without(rest, id) =~= session.order.skip(n as int));
    }
}

/// A session is gone exactly when every one of its parts stopped without an error.
pub proof fn law_gone_means_stopped<P, R>(session: SessionModel<P, R>, reports: SessionReports)
    requires
        session.order.no_duplicates(),
        reports.fit(session),
    ensures
        (reports.ledger().clean() && reports.left(session).order.len() == 0)
            <==> reports.all_stopped(),
{
    let peers = all_reports(reports.peers@);
    let start = blank_ledger().capture(opt_text(reports.capture_error));
    lemma_statuses_clean(start, "peer"@, peers);
    assert(forall|i: int| 0 <= i < peers.len() ==> #[trigger] peers[i] == report(reports.peers@[i]));
    if forall|i: int|
        0 <= i < peers.len() ==> (#[trigger] peers[i]).quiesced && peers[i].errors.len() == 0 {
        assert forall|i: int| 0 <= i < reports.peers@.len() implies stopped(
            #[trigger] reports.peers@[i],
        ) by {
            assert(peers[i].quiesced);
        }
        lemma_all_viewers_stopped(session, peers, peers.len());
    }
    if reports.all_stopped() {
        assert forall|i: int| 0 <= i < peers.len() implies (#[trigger] peers[i]).quiesced
            && peers[i].errors.len() == 0 by {
            assert(stopped(reports.peers@[i]));
        }
        lemma_all_viewers_stopped(session, peers, peers.len());
    }
}

/// A ledger keeps every report in its order, each item under the name of its owner, and is
/// clean exactly as long as everything that was reported stopped without an error.
pub proof fn law_ledgers_keep_every_report(
    ledger: LedgerModel,
    owner: Seq<char>,
    report: ReportModel,
    error: Seq<char>,
    i: int,
)
    ensures
        ({
            let after = ledger.status(owner, report);
            &&& after.pending.take(ledger.pending.len() as int) == ledger.pending
            &&& after.errors.take(ledger.errors.len() as int) == ledger.errors
            &&& after.pending.len() == ledger.pending.len() + report.pending.len()
            &&& after.errors.len() == ledger.errors.len() + report.errors.len()
            &&& 0 <= i < report.pending.len() ==> after.pending[ledger.pending.len() + i] == owner
                + ": "@ + report.pending[i]
            &&& 0 <= i < report.errors.len() ==> after.errors[ledger.errors.len() + i] == owner
                + ": "@ + report.errors[i]
            &&& after.clean() <==> ledger.clean() && report.quiesced && report.errors.len() == 0
        }),
        ledger.opt_status(owner, None) == ledger,
        ledger.opt_status(owner, Some(report)) == ledger.status(owner, report),
        ({
            let after = ledger.error(error);
            &&& !after.clean() && !after.quiesced
            &&& after.errors.drop_last() == ledger.errors
            &&& after.errors.last() == error
            &&& after.pending == ledger.pending
        }),
        ledger.capture(None) == ledger,
        ledger.capture(Some(error)) == ledger.error("capture: "@ + error),
{
    let after = ledger.status(owner, report);
    assert(after.pending.take(ledger.pending.len() as int) =~= ledger.pending);
    assert(after.errors.take(ledger.errors.len() as int) =~= ledger.errors);
    assert(ledger.error(error).errors.drop_last() =~= ledger.errors);
}

/// The reports of several owners of one kind count one by one.
pub proof fn law_reports_count_one_by_one(
    ledger: LedgerModel,
    owner: Seq<char>,
    a: Seq<ReportModel>,
    b: Seq<ReportModel>,
)
    ensures
        ledger.statuses(owner, a + b) == ledger.statuses(owner, a).statuses(owner, b),
        a.len() == 1 ==> ledger.statuses(owner, a) == ledger.status(owner, a[0]),
    decreases b.len(),
{
    reveal_with_fuel(LedgerModel::statuses, 2);
    if b.len() == 0 {
        assert(a + b =~= a);
    } else {
        assert((a + b).drop_last() =~= a + b.drop_last());
        law_reports_count_one_by_one(ledger, owner, a, b.drop_last());
    }
}

/// A summary tells what is pending first and then what went wrong, and that something is
/// amiss where neither says what.
pub proof fn law_summaries_tell_everything(ledger: LedgerModel)
    ensures
        ledger.pending.len() > 0 && ledger.errors.len() > 0 ==> ledger.summary() == joined_by(
            ledger.pending,
            "; "@,
        ) + "; "@ + joined_by(ledger.errors, "; "@),
        ledger.pending.len() == 0 && ledger.errors.len() > 0 ==> ledger.summary() == joined_by(
            ledger.errors,
            "; "@,
        ),
        ledger.errors.len() == 0 && ledger.pending.len() > 0 ==> ledger.summary() == joined_by(
            ledger.pending,
            "; "@,
        ),
        ledger.pending.len() == 0 && ledger.errors.len() == 0 ==> ledger.summary()
            == "resource cleanup is not quiescent"@,
{
    crate::text::law_separators_stand_between(ledger.pending, ledger.errors, "; "@);
    if ledger.pending.len() == 0 {
        assert(ledger.pending + ledger.errors =~= ledger.errors);
    }
    if ledger.errors.len() == 0 {
        assert(ledger.pending + ledger.errors =~= ledger.pending);
    }
}

/// A tap is gone exactly where it reported that it stopped and nothing went wrong. One that
/// does not say why stays all the same. Nothing else of the session changes.
pub proof fn law_taps_stay_until_they_stop<P, R>(session: SessionModel<P, R>, report: ReportModel)
    ensures
        tap_refusal(report) is None <==> report.quiesced && report.errors.len() == 0,
        ({
            let (after, refusal) = tap_shut_down(session, Some(report));
            &&& after.has_audio_tap <==> !(report.quiesced && report.errors.len() == 0)
            &&& refusal == tap_refusal(report)
            &&& after == (SessionModel { has_audio_tap: after.has_audio_tap, ..session })
        }),
        tap_shut_down(session, None) == (session, None::<Seq<char>>),
        report.pending.len() == 0 && report.errors.len() == 0 && !report.quiesced ==> tap_refusal(
            report,
        ) == Some("audio tap cleanup is not quiescent"@),
        report.pending.len() > 0 && report.errors.len() > 0 ==> tap_refusal(report) == Some(
            joined_by(report.pending, "; "@) + "; "@ + joined_by(report.errors, "; "@),
        ),
{
    crate::text::law_separators_stand_between(report.pending, report.errors, "; "@);
}

/// A viewer is gone exactly where its own peer reported that it stopped.
pub proof fn law_viewers_stay_until_their_peers_stop<P, R>(
    session: SessionModel<P, R>,
    reports: Seq<ReportModel>,
    n: nat,
    k: int,
)
    requires
        session.order.no_duplicates(),
        n <= session.order.len(),
        reports.len() == session.order.len(),
        0 <= k < session.order.len(),
        session.viewers.contains_key(session.order[k]),
    ensures
        ({
            let after = viewers_stopped(session, reports, n);
            let id = session.order[k];
            &&& after.viewers.contains_key(id) <==> k >= n || !reports[k].quiesced
            &&& after.viewers.contains_key(id) ==> after.viewers[id] == session.viewers[id]
            &&& after == (SessionModel { viewers: after.viewers, order: after.order, ..session })
        }),
    decreases n,
{
    if n > 0 {
        law_viewers_stay_until_their_peers_stop(session, reports, (n - 1) as nat, k);
        if k != n - 1 {
            assert(session.order[k] != session.order[n - 1]);
        }
    }
}

/// What is left of a share or a session is what reported that it still runs: each part by its
/// own report, and a place on the rendezvous server also where someone else holds it.
pub proof fn law_what_runs_is_left<P, R>(
    session: SessionModel<P, R>,
    share: ShareReports,
    whole: SessionReports,
)
    ensures
        ({
            let left = share.left(session);
            &&& left.has_audio_tap <==> share.audio_tap is Some && !share.audio_tap->0.quiesced
            &&& left.has_fanout <==> share.fanout is Some && !share.fanout->0.quiesced
        }),
        ({
            let left = whole.left(session);
            &&& left.has_audio_tap <==> whole.audio_tap is Some && !whole.audio_tap->0.quiesced
            &&& left.has_fanout <==> whole.fanout is Some && !whole.fanout->0.quiesced
            &&& left.has_lan_room <==> whole.lan_room is Some && !whole.lan_room->0.quiesced
            &&& left.has_direct_room <==> whole.direct_room is Some
                && !whole.direct_room->0.quiesced
            &&& whole.stunar is Absent ==> !left.has_stunar
            &&& whole.stunar is Shared ==> left.has_stunar
            &&& (whole.stunar matches StunarReport::Stopped(status) ==> left.has_stunar
                == !status.quiesced)
        }),
        viewers_stopped(session, all_reports(share.peers@), share.peers@.len()).viewers
            == share.left(session).viewers,
        viewers_stopped(session, all_reports(whole.peers@), whole.peers@.len()).viewers
            == whole.left(session).viewers,
{
}

/// A share's cleanup is clean exactly where its capture, its tap, its viewers' peers, its
/// fanout and its pipeline all stopped without an error.
pub proof fn law_share_is_clean_when_all_stopped(reports: ShareReports)
    ensures
        reports.ledger().clean() <==> {
            &&& reports.capture_error is None
            &&& forall|i: int|
                0 <= i < reports.peers@.len() ==> stopped(#[trigger] reports.peers@[i])
            &&& reports.audio_tap is Some ==> stopped(reports.audio_tap->0)
            &&& reports.fanout is Some ==> stopped(reports.fanout->0)
            &&& stopped(reports.pipeline)
        },
{
    let before = blank_ledger().capture(opt_text(reports.capture_error)).opt_status(
        "audio tap"@,
        opt_report(reports.audio_tap),
    );
    let list = all_reports(reports.peers@);
    lemma_statuses_clean(before, "peer"@, list);
    if forall|i: int| 0 <= i < reports.peers@.len() ==> stopped(#[trigger] reports.peers@[i]) {
        assert forall|i: int| 0 <= i < list.len() implies (#[trigger] list[i]).quiesced
            && list[i].errors.len() == 0 by {
            assert(stopped(reports.peers@[i]));
        }
    } else {
        let i = choose|i: int|
            0 <= i < reports.peers@.len() && !stopped(#[trigger] reports.peers@[i]);
        assert(!(list[i].quiesced && list[i].errors.len() == 0));
    }
}

} // verus!
