//! The correctness report: a projection over the `CheckRun` events of the
//! log. Running checks is the application's job; the report is what remains.
use vstd::prelude::*;

use crate::event::{clone_opt_string, CheckKind, ExperimentEvent};

verus! {

/// A single failing check, carrying structural context for the caller.
pub struct OracleFailure {
    pub check_type: String,
    pub name: String,
    pub round: Option<usize>,
    pub fault: Option<String>,
    pub subject: Option<String>,
    pub error: String,
}

/// The content of a failure record as plain values.
pub struct FailureView {
    pub check_type: Seq<char>,
    pub name: Seq<char>,
    pub round: Option<usize>,
    pub fault: Option<Seq<char>>,
    pub subject: Option<Seq<char>>,
    pub error: Seq<char>,
}

pub open spec fn opt_view(s: Option<String>) -> Option<Seq<char>> {
    match s {
        Some(x) => Some(x@),
        None => None,
    }
}

impl View for OracleFailure {
    type V = FailureView;

    open spec fn view(&self) -> FailureView {
        FailureView {
            check_type: self.check_type@,
            name: self.name@,
            round: self.round,
            fault: opt_view(self.fault),
            subject: opt_view(self.subject),
            error: self.error@,
        }
    }
}

/// Aggregate of check results for a run.
pub struct OracleReport {
    pub passed: bool,
    pub total_checks: usize,
    pub passed_checks: usize,
    pub failed_checks: usize,
    pub failures: Vec<OracleFailure>,
}

/// The content of a report as plain values.
pub struct ReportView {
    pub passed: bool,
    pub total_checks: nat,
    pub passed_checks: nat,
    pub failed_checks: nat,
    pub failures: Seq<FailureView>,
}

impl View for OracleReport {
    type V = ReportView;

    open spec fn view(&self) -> ReportView {
        ReportView {
            passed: self.passed,
            total_checks: self.total_checks as nat,
            passed_checks: self.passed_checks as nat,
            failed_checks: self.failed_checks as nat,
            failures: self.failures@.map_values(|f: OracleFailure| f@),
        }
    }
}

/// Name of a check kind as it appears in a failure record.
pub open spec fn check_type_name(kind: CheckKind) -> Seq<char> {
    match kind {
        CheckKind::Predicate => "predicate"@,
        CheckKind::Invariant => "invariant"@,
    }
}

/// The failure record a failing `CheckRun` event contributes.
pub open spec fn failure_of(
    kind: CheckKind,
    name: Seq<char>,
    error: Option<Seq<char>>,
    fault: Option<Seq<char>>,
    subject: Option<Seq<char>>,
    round: Option<usize>,
) -> FailureView {
    FailureView {
        check_type: check_type_name(kind),
        name,
        round,
        fault,
        subject,
        error: match error {
            Some(e) => e,
            None => "check failed"@,
        },
    }
}

impl ReportView {
    /// The report of a run in which no check has run yet.
    pub open spec fn empty() -> ReportView {
        ReportView {
            passed: true,
            total_checks: 0,
            passed_checks: 0,
            failed_checks: 0,
            failures: Seq::empty(),
        }
    }

    /// The report after one more event.
    pub open spec fn apply(self, ev: ExperimentEvent) -> ReportView {
        match ev {
            ExperimentEvent::CheckRun { kind, name, passed, error, fault, subject, round } => {
                if passed {
                    ReportView {
                        total_checks: self.total_checks + 1,
                        passed_checks: self.passed_checks + 1,
                        ..self
                    }
                } else {
                    ReportView {
                        passed: false,
                        total_checks: self.total_checks + 1,
                        failed_checks: self.failed_checks + 1,
                        failures: self.failures.push(
                            failure_of(
                                kind,
                                name@,
                                opt_view(error),
                                opt_view(fault),
                                opt_view(subject),
                                round,
                            ),
                        ),
                        ..self
                    }
                }
            },
            _ => self,
        }
    }

    /// Reports of two consecutive stretches of a log, combined.
    pub open spec fn merge(self, later: ReportView) -> ReportView {
        ReportView {
            passed: self.passed && later.passed,
            total_checks: self.total_checks + later.total_checks,
            passed_checks: self.passed_checks + later.passed_checks,
            failed_checks: self.failed_checks + later.failed_checks,
            failures: self.failures + later.failures,
        }
    }

    /// The counts agree with each other and with the failure list.
    pub open spec fn consistent(self) -> bool {
        &&& self.total_checks == self.passed_checks + self.failed_checks
        &&& self.passed == (self.failed_checks == 0)
        &&& self.failures.len() == self.failed_checks
    }
}

/// The report projected from a stretch of the log.
pub open spec fn report_of(events: Seq<ExperimentEvent>) -> ReportView
    decreases events.len(),
{
    if events.len() == 0 {
        ReportView::empty()
    } else {
        report_of(events.drop_last()).apply(events.last())
    }
}

/// Every projected report is internally consistent, and never counts more
/// checks than there are events.
pub proof fn report_is_consistent(events: Seq<ExperimentEvent>)
    ensures
        report_of(events).consistent(),
        report_of(events).total_checks <= events.len(),
    decreases events.len(),
{
    if events.len() > 0 {
        report_is_consistent(events.drop_last());
    }
}

/// The report of a log is the report of any prefix of it combined with the
/// report of the rest: running the oracle block by block and combining the
/// block reports gives the report of the whole run.
pub proof fn report_of_concat(a: Seq<ExperimentEvent>, b: Seq<ExperimentEvent>)
    ensures
        report_of(a + b) == report_of(a).merge(report_of(b)),
    decreases b.len(),
{
    report_is_consistent(a);
    report_is_consistent(b);
    if b.len() == 0 {
        assert(a + b =~= a);
        assert(report_of(a).failures + Seq::empty() =~= report_of(a).failures);
    } else {
        report_of_concat(a, b.drop_last());
        assert((a + b).drop_last() =~= a + b.drop_last());
        assert((a + b).last() == b.last());
        let ra = report_of(a);
        let rb = report_of(b.drop_last());
        match b.last() {
            ExperimentEvent::CheckRun { kind, name, passed, error, fault, subject, round } => {
                if !passed {
                    let f = failure_of(
                        kind,
                        name@,
                        opt_view(error),
                        opt_view(fault),
                        opt_view(subject),
                        round,
                    );
                    assert(ra.failures + rb.failures.push(f) =~= (ra.failures
                        + rb.failures).push(f));
                }
            },
            _ => {},
        }
    }
}

fn check_type_text(kind: CheckKind) -> (s: String)
    ensures
        s@ == check_type_name(kind),
{
    match kind {
        CheckKind::Predicate => String::from_str("predicate"),
        CheckKind::Invariant => String::from_str("invariant"),
    }
}

impl OracleReport {
    /// An empty, passing report.
    pub fn new() -> (r: OracleReport)
        ensures
            r@ == ReportView::empty(),
    {
        let r = OracleReport {
            passed: true,
            total_checks: 0,
            passed_checks: 0,
            failed_checks: 0,
            failures: Vec::new(),
        };
        assert(r@.failures =~= Seq::empty());
        r
    }

    fn add_failure(&mut self, failure: OracleFailure)
        requires
            old(self).total_checks < usize::MAX,
            old(self).failed_checks < usize::MAX,
        ensures
            final(self)@ == (ReportView {
                passed: false,
                total_checks: old(self)@.total_checks + 1,
                failed_checks: old(self)@.failed_checks + 1,
                failures: old(self)@.failures.push(failure@),
                ..old(self)@
            }),
    {
        self.failures.push(failure);
        self.failed_checks += 1;
        self.total_checks += 1;
        self.passed = false;
        assert(self@.failures =~= old(self)@.failures.push(failure@));
    }

    fn add_pass(&mut self)
        requires
            old(self).total_checks < usize::MAX,
            old(self).passed_checks < usize::MAX,
        ensures
            final(self)@ == (ReportView {
                total_checks: old(self)@.total_checks + 1,
                passed_checks: old(self)@.passed_checks + 1,
                ..old(self)@
            }),
    {
        self.passed_checks += 1;
        self.total_checks += 1;
    }

    /// Record one check result. A failing check without its own failure
    /// record gets a generic one.
    fn record(
        &mut self,
        kind: CheckKind,
        name: String,
        passed: bool,
        failure: Option<OracleFailure>,
    )
        requires
            old(self).total_checks < usize::MAX,
            old(self).passed_checks < usize::MAX,
            old(self).failed_checks < usize::MAX,
        ensures
            passed ==> final(self)@ == (ReportView {
                total_checks: old(self)@.total_checks + 1,
                passed_checks: old(self)@.passed_checks + 1,
                ..old(self)@
            }),
            !passed ==> final(self)@ == (ReportView {
                passed: false,
                total_checks: old(self)@.total_checks + 1,
                failed_checks: old(self)@.failed_checks + 1,
                failures: old(self)@.failures.push(
                    match failure {
                        Some(f) => f@,
                        None => failure_of(kind, name@, None, None, None, None),
                    },
                ),
                ..old(self)@
            }),
    {
        if passed {
            self.add_pass();
        } else {
            let failure = match failure {
                Some(f) => f,
                None => OracleFailure {
                    check_type: check_type_text(kind),
                    name,
                    round: None,
                    fault: None,
                    subject: None,
                    error: String::from_str("check failed"),
                },
            };
            self.add_failure(failure);
        }
    }

    /// Fold the `CheckRun` events of `events` into a report.
    pub fn from_events(events: &[ExperimentEvent]) -> (r: OracleReport)
        ensures
            r@ == report_of(events@),
            r@.consistent(),
    {
        let mut report = OracleReport::new();
        let mut i: usize = 0;
        while i < events.len()
            invariant
                i <= events@.len(),
                report@ == report_of(events@.subrange(0, i as int)),
                report.total_checks <= i,
                report.total_checks == report.passed_checks + report.failed_checks,
            decreases events.len() - i,
        {
            proof {
                report_is_consistent(events@.subrange(0, i as int));
                assert(events@.subrange(0, i + 1).drop_last() =~= events@.subrange(0, i as int));
            }
            let ev = &events[i];
            match ev {
                ExperimentEvent::CheckRun { kind, name, passed, error, fault, subject, round } => {
                    let failure = if !*passed {
                        let err = match error {
                            Some(e) => e.clone(),
                            None => String::from_str("check failed"),
                        };
                        Some(
                            OracleFailure {
                                check_type: check_type_text(*kind),
                                name: name.clone(),
                                round: *round,
                                fault: clone_opt_string(fault),
                                subject: clone_opt_string(subject),
                                error: err,
                            },
                        )
                    } else {
                        None
                    };
                    report.record(*kind, name.clone(), *passed, failure);
                },
                _ => {},
            }
            i += 1;
        }
        proof {
            assert(events@.subrange(0, events@.len() as int) =~= events@);
            report_is_consistent(events@);
        }
        report
    }
}

impl OracleReport {
    /// Fold the `CheckRun` events of `events` from index `start` on into a
    /// report: the report of the checks appended since `start`.
    pub fn from_events_since(events: &[ExperimentEvent], start: usize) -> (r: OracleReport)
        requires
            start <= events@.len(),
        ensures
            r@ == report_of(events@.subrange(start as int, events@.len() as int)),
            r@.consistent(),
    {
        let ghost tail = events@.subrange(start as int, events@.len() as int);
        let mut report = OracleReport::new();
        let mut i: usize = start;
        while i < events.len()
            invariant
                start <= i <= events@.len(),
                tail == events@.subrange(start as int, events@.len() as int),
                report@ == report_of(events@.subrange(start as int, i as int)),
                report.total_checks <= i - start,
                report.total_checks == report.passed_checks + report.failed_checks,
            decreases events.len() - i,
        {
            proof {
                report_is_consistent(events@.subrange(start as int, i as int));
                assert(events@.subrange(start as int, i + 1).drop_last() =~= events@.subrange(
                    start as int,
                    i as int,
                ));
            }
            let ev = &events[i];
            match ev {
                ExperimentEvent::CheckRun { kind, name, passed, error, fault, subject, round } => {
                    let failure = if !*passed {
                        let err = match error {
                            Some(e) => e.clone(),
                            None => String::from_str("check failed"),
                        };
                        Some(
                            OracleFailure {
                                check_type: check_type_text(*kind),
                                name: name.clone(),
                                round: *round,
                                fault: clone_opt_string(fault),
                                subject: clone_opt_string(subject),
                                error: err,
                            },
                        )
                    } else {
                        None
                    };
                    report.record(*kind, name.clone(), *passed, failure);
                },
                _ => {},
            }
            i += 1;
        }
        proof {
            report_is_consistent(tail);
        }
        report
    }
}

impl Default for OracleReport {
    fn default() -> (r: OracleReport)
        ensures
            r@ == ReportView::empty(),
    {
        OracleReport::new()
    }
}

} // verus!
