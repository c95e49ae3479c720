//! A run of the harness as a machine. The machine says what is to be done
//! next: run the expander, print a syntax tree, read or write a snapshot.
//! The caller does it and hands back what came of it, and the machine
//! decides how each unit ends and keeps the tally of the failures.

use vstd::prelude::*;
use vstd::string::*;
use vstd::pervasive::unreached;
use vstd::utf8::encode_utf8;
use crate::cargo::{arg_texts, expand_arguments, expand_command};
use crate::cleanup::TextRules;
use crate::lines::ends_with_one_line_feed;
use crate::error::Error;
use crate::expand::{snapshot_path_of, ExpandedTest, Request};
use crate::normalize::{
    file_attrs, file_items, finish_printed, normalize_expansion, parsed_file, surviving_attrs,
    surviving_items, with_one_line_feed, Draft,
};
use crate::outcome::{content_of, resolution, resolve, ExpansionBehavior, ExpansionOutcome, Outcome};
use crate::error::message_of;
use crate::message::{
    difference_report, expansion_error_report, line_changes, line_texts, message_different,
    message_expansion_error,
};
use crate::strings::{join2, utf8_lossy};

verus! {

/// What the machine waits for.
#[derive(Debug, Clone, PartialEq, Eq)]
pub enum Stage {
    /// The expander runs on the unit in progress.
    Expanding,
    /// The expansion of the unit in progress is printed.
    Printing,
    /// The snapshot at `path` is read; `canonical` is what it is compared
    /// with.
    Reading { canonical: Vec<u8>, path: String },
    /// The snapshot at `path` is written with `content`.
    Writing { content: Vec<u8>, path: String },
    /// Every unit has ended.
    Finished,
}

/// What came of the work that the machine asked for.
#[derive(Debug, Clone, PartialEq, Eq)]
pub enum Event {
    /// The expander ran: whether it succeeded, and its standard output if it
    /// did, its standard error if it did not.
    Expanded { success: bool, output: Vec<u8> },
    /// The syntax tree was printed.
    Printed(String),
    /// The snapshot was looked for: its content, or nothing where there is
    /// none.
    Snapshot(Option<Vec<u8>>),
    /// The snapshot was written.
    Written,
    /// The work could not be done.
    Failed(Error),
}

/// What the machine asks for.
pub enum Action {
    /// Run `cargo` with the arguments `args`, in the scratch project, to
    /// expand the build target `name`.
    Expand { name: String, args: Vec<String> },
    /// Print the syntax tree.
    Print(syn::File),
    /// Read the snapshot at this path.
    Read(String),
    /// Write `content` to the snapshot at `path`.
    Write { path: String, content: Vec<u8> },
    /// Nothing: the run is over, with `failures` of `total` units failed.
    Finish { failures: usize, total: usize },
}

/// How one unit ended: its place among the units, and its outcome, or the
/// error that kept it from having one.
#[derive(Debug, PartialEq, Eq)]
pub struct Report {
    pub unit: usize,
    pub result: Result<ExpansionOutcome, Error>,
}

/// What one move of the machine gives: the units that ended with it, in
/// order, and what is to be done next.
pub struct Step {
    pub reports: Vec<Report>,
    pub action: Action,
}

/// A run of the harness.
#[derive(Debug, Clone, PartialEq, Eq)]
pub struct Session {
    /// The units of the run, in the order in which they were found.
    pub units: Vec<ExpandedTest>,
    /// What is done about a snapshot that is missing or differs.
    pub behavior: ExpansionBehavior,
    /// Whether the expansions are expected to fail.
    pub expect_failure: bool,
    /// The arguments that are handed on to the expander.
    pub args: Option<Vec<String>>,
    /// Whether a snapshot that differs is written anew.
    pub overwrite: bool,
    /// What is taken out of output that is no source code.
    pub rules: TextRules,
    /// The place of the unit in progress; the number of units once the run
    /// is over.
    pub next: usize,
    /// How many units have failed.
    pub failures: usize,
    /// What the machine waits for.
    pub stage: Stage,
}

/// The place of the first unit from `from` on that was found without an
/// error; the number of units if there is none.
pub open spec fn next_runnable(units: Seq<ExpandedTest>, from: int) -> int
    decreases units.len() - from,
{
    if from < 0 || from >= units.len() {
        units.len() as int
    } else if units[from].error is None {
        from
    } else {
        next_runnable(units, from + 1)
    }
}

/// `next_runnable` stays within the units and passes over none that could
/// run.
pub proof fn lemma_next_runnable(units: Seq<ExpandedTest>, from: int)
    requires
        0 <= from <= units.len(),
    ensures
        from <= next_runnable(units, from) <= units.len(),
        next_runnable(units, from) < units.len() ==> units[next_runnable(units, from)].error is None,
        forall|k: int| from <= k < next_runnable(units, from) ==> (#[trigger] units[k]).error is Some,
    decreases units.len() - from,
{
    if from < units.len() && units[from].error is Some {
        lemma_next_runnable(units, from + 1);
    }
}

/// The unit ended as a failure.
pub open spec fn fails(result: Result<Outcome, Error>) -> bool {
    match result {
        Ok(outcome) => outcome.is_failure(),
        Err(_) => true,
    }
}

/// The report says that the unit at `unit` ended with `result`.
pub open spec fn reports_that(report: Report, unit: int, result: Result<Outcome, Error>) -> bool {
    &&& report.unit == unit
    &&& match result {
        Ok(outcome) => report.result matches Ok(o) && o@ == outcome,
        Err(error) => report.result == Err::<ExpansionOutcome, Error>(error),
    }
}

/// `reports` say of each unit from `from` on that it was found with an
/// error.
pub open spec fn report_errors(units: Seq<ExpandedTest>, from: int, reports: Seq<Report>) -> bool {
    forall|k: int|
        0 <= k < reports.len() ==> {
            &&& from + k < units.len()
            &&& units[from + k].error is Some
            &&& reports_that(#[trigger] reports[k], from + k, Err(units[from + k].error->0))
        }
}

impl Session {
    /// The state is one that the machine can be in.
    pub open spec fn wf(self) -> bool {
        &&& self.failures <= self.next <= self.units@.len()
        &&& (self.stage is Finished) == (self.next == self.units@.len())
        &&& self.next < self.units@.len() ==> self.units@[self.next as int].error is None
        &&& match self.stage {
            Stage::Reading { canonical, path } => ends_with_one_line_feed(canonical@),
            Stage::Writing { content, path } => ends_with_one_line_feed(content@),
            _ => true,
        }
    }

    /// The two states are of one run: they differ in its progress only.
    pub open spec fn same_run(self, other: Session) -> bool {
        &&& self.units == other.units
        &&& self.behavior == other.behavior
        &&& self.expect_failure == other.expect_failure
        &&& self.args == other.args
        &&& self.overwrite == other.overwrite
        &&& self.rules == other.rules
    }

    /// The machine is at rest at `next`: it has asked for the expansion of
    /// the unit there, or has finished.
    pub open spec fn rests(self, action: Action) -> bool {
        if self.next == self.units@.len() {
            &&& self.stage is Finished
            &&& action matches Action::Finish { failures, total }
            &&& failures == self.failures
            &&& total == self.units@.len()
        } else {
            &&& self.stage is Expanding
            &&& action matches Action::Expand { name, args }
            &&& name@ == self.units@[self.next as int].name.0@
            &&& arg_texts(args@) == expand_arguments(
                name@,
                match self.args {
                    Some(more) => Some(arg_texts(more@)),
                    None => None,
                },
            )
        }
    }

    /// The unit in progress ends with `result`, and the machine goes on to
    /// the next unit that can run: the units in between, which were found
    /// with an error, are reported as failed.
    pub open spec fn concludes(self, result: Result<Outcome, Error>, post: Session, step: Step) -> bool {
        &&& post.wf()
        &&& post.same_run(self)
        &&& post.next == next_runnable(self.units@, self.next + 1)
        &&& step.reports@.len() == post.next - self.next
        &&& reports_that(step.reports@[0], self.next as int, result)
        &&& report_errors(self.units@, self.next + 1, step.reports@.skip(1))
        &&& post.failures == self.failures + (if fails(result) {
            1int
        } else {
            0int
        }) + (post.next - self.next - 1)
        &&& post.rests(step.action)
    }

    /// The expansion of the unit in progress has the canonical form
    /// `canonical`, and its snapshot is asked for; a unit whose path names
    /// no file ends with that error.
    pub open spec fn proceeds(self, canonical: Seq<u8>, post: Session, step: Step) -> bool {
        match snapshot_path_of(self.units@[self.next as int].test@) {
            None => self.concludes(Err(Error::NoFileStem), post, step),
            Some(place) => {
                &&& post.wf()
                &&& post.same_run(self)
                &&& post.next == self.next
                &&& post.failures == self.failures
                &&& step.reports@.len() == 0
                &&& post.stage matches Stage::Reading { canonical: c, path }
                &&& c@ == canonical
                &&& path@ == place
                &&& step.action matches Action::Read(asked)
                &&& asked@ == place
            },
        }
    }

    /// The machine can take `event` in the stage that it is in.
    pub open spec fn accepts(self, event: Event) -> bool {
        match (self.stage, event) {
            (Stage::Finished, _) => false,
            (_, Event::Failed(_)) => true,
            (Stage::Expanding, Event::Expanded { .. }) => true,
            (Stage::Printing, Event::Printed(_)) => true,
            (Stage::Reading { .. }, Event::Snapshot(_)) => true,
            (Stage::Writing { .. }, Event::Written) => true,
            _ => false,
        }
    }

    /// `post` and `step` are what the machine makes of `event`.
    pub open spec fn moves(self, event: Event, post: Session, step: Step) -> bool {
        match (self.stage, event) {
            (Stage::Finished, _) => false,
            (_, Event::Failed(error)) => self.concludes(Err(error), post, step),
            (Stage::Expanding, Event::Expanded { success, output }) => {
                if !success && !self.expect_failure {
                    self.concludes(Ok(Outcome::ExpandError(output@)), post, step)
                } else {
                    match parsed_file(utf8_lossy(output@)) {
                        Some(parsed) => {
                            &&& post.wf()
                            &&& post.same_run(self)
                            &&& post.next == self.next
                            &&& post.failures == self.failures
                            &&& post.stage is Printing
                            &&& step.reports@.len() == 0
                            &&& step.action matches Action::Print(file)
                            &&& file_attrs(file) == surviving_attrs(file_attrs(parsed))
                            &&& file_items(file) == surviving_items(file_items(parsed))
                        },
                        None => self.proceeds(
                            self.rules.apply(encode_utf8(utf8_lossy(output@))),
                            post,
                            step,
                        ),
                    }
                }
            },
            (Stage::Printing, Event::Printed(text)) => self.proceeds(
                with_one_line_feed(encode_utf8(text@)),
                post,
                step,
            ),
            (Stage::Reading { canonical, path }, Event::Snapshot(snapshot)) => {
                let outcome = resolution(
                    canonical@,
                    content_of(snapshot),
                    self.behavior,
                    self.overwrite,
                );
                match outcome.written() {
                    Some(content) => {
                        &&& post.wf()
                        &&& post.same_run(self)
                        &&& post.next == self.next
                        &&& post.failures == self.failures
                        &&& step.reports@.len() == 0
                        &&& post.stage matches Stage::Writing { content: kept, path: at }
                        &&& kept@ == content
                        &&& at@ == path@
                        &&& step.action matches Action::Write { path: asked, content: given }
                        &&& asked@ == path@
                        &&& given@ == content
                    },
                    None => self.concludes(Ok(outcome), post, step),
                }
            },
            (Stage::Writing { content, path }, Event::Written) => self.concludes(
                Ok(Outcome::Update(content@)),
                post,
                step,
            ),
            _ => false,
        }
    }

    /// `session` and `step` are the start of the run that `request` asks
    /// for, on `units`.
    pub open spec fn starts(
        session: Session,
        step: Step,
        request: Request,
        units: Vec<ExpandedTest>,
        overwrite: bool,
        rules: TextRules,
    ) -> bool {
        &&& session.wf()
        &&& session.units == units
        &&& session.behavior == request.behavior
        &&& session.expect_failure == request.expect_failure
        &&& session.args == request.args
        &&& session.overwrite == overwrite
        &&& session.rules == rules
        &&& session.next == next_runnable(units@, 0)
        &&& session.failures == session.next
        &&& step.reports@.len() == session.next
        &&& report_errors(units@, 0, step.reports@)
        &&& session.rests(step.action)
    }

    /// Whether the machine can take `event` in the stage that it is in.
    pub fn can_take(&self, event: &Event) -> (r: bool)
        ensures
            r == self.accepts(*event),
    {
        match &self.stage {
            Stage::Finished => false,
            Stage::Expanding => match event {
                Event::Failed(_) => true,
                Event::Expanded { .. } => true,
                _ => false,
            },
            Stage::Printing => match event {
                Event::Failed(_) => true,
                Event::Printed(_) => true,
                _ => false,
            },
            Stage::Reading { .. } => match event {
                Event::Failed(_) => true,
                Event::Snapshot(_) => true,
                _ => false,
            },
            Stage::Writing { .. } => match event {
                Event::Failed(_) => true,
                Event::Written => true,
                _ => false,
            },
        }
    }

    /// Whether the run is over.
    pub fn is_finished(&self) -> (r: bool)
        ensures
            r == (self.stage is Finished),
    {
        match &self.stage {
            Stage::Finished => true,
            _ => false,
        }
    }

    /// Whether the run, once it is over, has failed: it has if any unit
    /// has.
    pub fn has_failed(&self) -> (r: bool)
        ensures
            r == (self.failures > 0),
    {
        self.failures > 0
    }

    /// Passes over the units from `next` on that were found with an error,
    /// reports each as failed, and asks for the expansion of the unit that
    /// follows them, or finishes.
    fn settle(&mut self, reports: &mut Vec<Report>) -> (action: Action)
        requires
            old(self).failures <= old(self).next <= old(self).units@.len(),
        ensures
            final(self).wf(),
            final(self).same_run(*old(self)),
            final(self).next == next_runnable(old(self).units@, old(self).next as int),
            old(self).next <= final(self).next,
            final(self).failures == old(self).failures + (final(self).next - old(self).next),
            final(reports)@.len() == old(reports)@.len() + (final(self).next - old(self).next),
            final(reports)@.take(old(reports)@.len() as int) == old(reports)@,
            report_errors(
                old(self).units@,
                old(self).next as int,
                final(reports)@.skip(old(reports)@.len() as int),
            ),
            final(self).rests(action),
    {
        let ghost units = self.units@;
        let ghost from = self.next as int;
        let ghost given = reports@;
        proof {
            assert(reports@.take(given.len() as int) =~= given);
        }
        while self.next < self.units.len() && self.units[self.next].error.is_some()
            invariant
                self.units@ == units,
                self.same_run(*old(self)),
                from <= self.next <= units.len(),
                self.failures == old(self).failures + (self.next - from),
                self.failures <= self.next,
                next_runnable(units, self.next as int) == next_runnable(units, from),
                reports@.len() == given.len() + (self.next - from),
                reports@.take(given.len() as int) == given,
                report_errors(units, from, reports@.skip(given.len() as int)),
            decreases units.len() - self.next,
        {
            let ghost before = reports@;
            let ghost at = self.next as int;
            let error = match &self.units[self.next].error {
                Some(e) => e.duplicate(),
                None => unreached(),
            };
            let report = Report { unit: self.next, result: Err(error) };
            proof {
                assert(units[at].error == Some(error));
                assert(reports_that(report, at, Err(error)));
            }
            reports.push(report);
            self.failures = self.failures + 1;
            self.next = self.next + 1;
            proof {
                assert(reports@.take(given.len() as int) =~= before.take(given.len() as int));
                let tail = reports@.skip(given.len() as int);
                let was = before.skip(given.len() as int);
                assert(tail =~= was.push(report));
                assert(was.len() == at - from);
                assert forall|k: int| 0 <= k < tail.len() implies (#[trigger] units[from
                    + k]).error is Some by {
                    if k < was.len() {
                        assert(tail[k] == was[k]);
                    }
                }
                assert forall|k: int| 0 <= k < tail.len() implies reports_that(
                    #[trigger] tail[k],
                    from + k,
                    Err(units[from + k].error->0),
                ) by {
                    if k < was.len() {
                        assert(tail[k] == was[k]);
                    } else {
                        assert(tail[k] == report);
                    }
                }
            }
        }
        if self.next == self.units.len() {
            self.stage = Stage::Finished;
            Action::Finish { failures: self.failures, total: self.units.len() }
        } else {
            self.stage = Stage::Expanding;
            let name = self.units[self.next].name.0.clone();
            let args = expand_command(&self.units[self.next].name, &self.args);
            Action::Expand { name, args }
        }
    }

    /// Ends the unit in progress with `result` and goes on.
    fn conclude(&mut self, result: Result<ExpansionOutcome, Error>) -> (step: Step)
        requires
            old(self).wf(),
            !(old(self).stage is Finished),
        ensures
            old(self).concludes(
                match result {
                    Ok(o) => Ok(o@),
                    Err(e) => Err(e),
                },
                *final(self),
                step,
            ),
    {
        let total: usize = self.units.len();
        assert(self.next < total);
        let failed = match &result {
            Ok(outcome) => outcome.is_failure(),
            Err(_) => true,
        };
        let mut reports: Vec<Report> = Vec::new();
        reports.push(Report { unit: self.next, result });
        if failed {
            self.failures = self.failures + 1;
        }
        self.next = self.next + 1;
        let action = self.settle(&mut reports);
        proof {
            assert(reports@[0] == reports@.take(1)[0]);
        }
        Step { reports, action }
    }

    /// Asks for the snapshot of the unit in progress, whose expansion has
    /// the canonical form `canonical`.
    fn proceed(&mut self, canonical: Vec<u8>) -> (step: Step)
        requires
            old(self).wf(),
            !(old(self).stage is Finished),
            ends_with_one_line_feed(canonical@),
        ensures
            old(self).proceeds(canonical@, *final(self), step),
    {
        match self.units[self.next].snapshot_path() {
            None => self.conclude(Err(Error::NoFileStem)),
            Some(path) => {
                let asked = path.clone();
                self.stage = Stage::Reading { canonical, path };
                Step { reports: Vec::new(), action: Action::Read(asked) }
            },
        }
    }

    /// Starts the run that `request` asks for, on the units `units`. The
    /// step that comes back reports the units at the start that were found
    /// with an error, and asks for the first expansion.
    pub fn new(request: Request, units: Vec<ExpandedTest>, overwrite: bool, rules: TextRules) -> (r: (
        Session,
        Step,
    ))
        ensures
            Session::starts(r.0, r.1, request, units, overwrite, rules),
    {
        let Request { path: _, behavior, args, expect_failure } = request;
        let mut session = Session {
            units,
            behavior,
            expect_failure,
            args,
            overwrite,
            rules,
            next: 0,
            failures: 0,
            stage: Stage::Expanding,
        };
        let mut reports: Vec<Report> = Vec::new();
        let action = session.settle(&mut reports);
        proof {
            assert(reports@.skip(0) =~= reports@);
        }
        (session, Step { reports, action })
    }

    /// Takes what came of the work that the machine asked for, and says
    /// which units ended with it and what is to be done next.
    pub fn step(&mut self, event: Event) -> (step: Step)
        requires
            old(self).wf(),
            old(self).accepts(event),
        ensures
            old(self).moves(event, *final(self), step),
    {
        match event {
            Event::Failed(error) => self.conclude(Err(error)),
            Event::Expanded { success, output } => {
                if !success && !self.expect_failure {
                    return self.conclude(Ok(ExpansionOutcome::ExpandError(output)));
                }
                match normalize_expansion(output.as_slice(), &self.rules) {
                    Draft::Code(file) => {
                        self.stage = Stage::Printing;
                        Step { reports: Vec::new(), action: Action::Print(file) }
                    },
                    Draft::Text(canonical) => self.proceed(canonical),
                }
            },
            Event::Printed(text) => {
                let canonical = finish_printed(text.as_str());
                self.proceed(canonical)
            },
            Event::Snapshot(snapshot) => {
                let mut stage = Stage::Expanding;
                std::mem::swap(&mut self.stage, &mut stage);
                match stage {
                    Stage::Reading { canonical, path } => {
                        let outcome = resolve(canonical, snapshot, self.behavior, self.overwrite);
                        match outcome {
                            ExpansionOutcome::Update(content) => {
                                let asked = path.clone();
                                let given = content.clone();
                                self.stage = Stage::Writing { content, path };
                                Step {
                                    reports: Vec::new(),
                                    action: Action::Write { path: asked, content: given },
                                }
                            },
                            other => self.conclude(Ok(other)),
                        }
                    },
                    _ => unreached(),
                }
            },
            Event::Written => {
                let mut stage = Stage::Expanding;
                std::mem::swap(&mut self.stage, &mut stage);
                match stage {
                    Stage::Writing { content, path: _ } => self.conclude(
                        Ok(ExpansionOutcome::Update(content)),
                    ),
                    _ => unreached(),
                }
            },
        }
    }
}

/// The report is one of a unit that failed.
pub open spec fn report_fails(report: Report) -> bool {
    match report.result {
        Ok(outcome) => outcome@.is_failure(),
        Err(_) => true,
    }
}

/// How many of `reports` are of units that failed.
pub open spec fn failed_reports(reports: Seq<Report>) -> nat
    decreases reports.len(),
{
    if reports.len() == 0 {
        0
    } else {
        failed_reports(reports.drop_last()) + if report_fails(reports.last()) {
            1nat
        } else {
            0nat
        }
    }
}

/// The failures among reports are those of the first and those among the
/// rest.
proof fn lemma_failed_reports_first(reports: Seq<Report>)
    requires
        reports.len() > 0,
    ensures
        failed_reports(reports) == failed_reports(reports.skip(1)) + if report_fails(reports[0]) {
            1nat
        } else {
            0nat
        },
    decreases reports.len(),
{
    if reports.len() == 1 {
        assert(reports.drop_last() =~= Seq::<Report>::empty());
        assert(reports.skip(1) =~= Seq::<Report>::empty());
    } else {
        let front = reports.drop_last();
        lemma_failed_reports_first(front);
        assert(front.skip(1) =~= reports.skip(1).drop_last());
        assert(reports.skip(1).last() == reports.last());
    }
}

/// Reports of units that were found with an error are all of failures.
proof fn lemma_error_reports_fail(units: Seq<ExpandedTest>, from: int, reports: Seq<Report>)
    requires
        report_errors(units, from, reports),
    ensures
        failed_reports(reports) == reports.len(),
    decreases reports.len(),
{
    if reports.len() > 0 {
        let front = reports.drop_last();
        assert forall|k: int| 0 <= k < front.len() implies reports_that(
            #[trigger] front[k],
            from + k,
            Err(units[from + k].error->0),
        ) by {
            assert(front[k] == reports[k]);
        }
        assert forall|k: int| 0 <= k < front.len() implies (#[trigger] units[from + k]).error is Some
            && from + k < units.len() by {
            assert(front[k] == reports[k]);
        }
        lemma_error_reports_fail(units, from, front);
        assert(reports_that(
            reports[reports.len() - 1],
            from + reports.len() - 1,
            Err(units[from + reports.len() - 1].error->0),
        ));
    }
}

/// Where the unit in progress ends, the tally grows by the failures among
/// the reports, and there is one report for each unit that the machine has
/// passed.
proof fn lemma_concludes_tally(pre: Session, result: Result<Outcome, Error>, post: Session, step: Step)
    requires
        pre.wf(),
        pre.next < pre.units@.len(),
        pre.concludes(result, post, step),
    ensures
        post.failures == pre.failures + failed_reports(step.reports@),
        step.reports@.len() == post.next - pre.next,
        step.reports@.len() >= 1,
{
    lemma_next_runnable(pre.units@, pre.next + 1);
    lemma_failed_reports_first(step.reports@);
    lemma_error_reports_fail(pre.units@, pre.next + 1, step.reports@.skip(1));
}

/// With every move the tally grows by the number of failures that the move
/// reports; a unit is reported once, when the machine passes it.
pub proof fn lemma_tally(pre: Session, event: Event, post: Session, step: Step)
    requires
        pre.wf(),
        pre.accepts(event),
        pre.moves(event, post, step),
    ensures
        post.wf(),
        post.same_run(pre),
        post.failures == pre.failures + failed_reports(step.reports@),
        step.reports@.len() == post.next - pre.next,
{
    let unit = pre.units@[pre.next as int];
    match (pre.stage, event) {
        (Stage::Finished, _) => {},
        (_, Event::Failed(error)) => {
            lemma_concludes_tally(pre, Err(error), post, step);
        },
        (Stage::Expanding, Event::Expanded { success, output }) => {
            if !success && !pre.expect_failure {
                lemma_concludes_tally(pre, Ok(Outcome::ExpandError(output@)), post, step);
            } else if parsed_file(utf8_lossy(output@)) is None && snapshot_path_of(unit.test@) is None {
                lemma_concludes_tally(pre, Err(Error::NoFileStem), post, step);
            }
        },
        (Stage::Printing, Event::Printed(text)) => {
            if snapshot_path_of(unit.test@) is None {
                lemma_concludes_tally(pre, Err(Error::NoFileStem), post, step);
            }
        },
        (Stage::Reading { canonical, path }, Event::Snapshot(snapshot)) => {
            let outcome = resolution(canonical@, content_of(snapshot), pre.behavior, pre.overwrite);
            if outcome.written() is None {
                lemma_concludes_tally(pre, Ok(outcome), post, step);
            }
        },
        (Stage::Writing { content, path }, Event::Written) => {
            lemma_concludes_tally(pre, Ok(Outcome::Update(content@)), post, step);
        },
        _ => {},
    }
}

/// An expansion that fails, of a unit that is not expected to fail, ends the
/// unit as `ExpandError` with what the expander reported, and counts as a
/// failure.
pub proof fn lemma_failed_expansion(pre: Session, output: Vec<u8>, post: Session, step: Step)
    requires
        pre.wf(),
        pre.stage is Expanding,
        !pre.expect_failure,
        pre.moves(Event::Expanded { success: false, output }, post, step),
    ensures
        reports_that(step.reports@[0], pre.next as int, Ok(Outcome::ExpandError(output@))),
        post.failures >= pre.failures + 1,
{
    lemma_concludes_tally(pre, Ok(Outcome::ExpandError(output@)), post, step);
    lemma_failed_reports_first(step.reports@);
}

/// An expansion that fails, of a unit that is expected to fail, does not
/// count as a failure: what the expander reported is brought into its
/// canonical form and compared with the snapshot like any expansion. The
/// unit does not end with this move, unless its path names no file.
pub proof fn lemma_expected_failure(pre: Session, output: Vec<u8>, post: Session, step: Step)
    requires
        pre.wf(),
        pre.stage is Expanding,
        pre.expect_failure,
        snapshot_path_of(pre.units@[pre.next as int].test@) is Some,
        pre.moves(Event::Expanded { success: false, output }, post, step),
    ensures
        post.failures == pre.failures,
        step.reports@.len() == 0,
        post.stage is Printing || post.stage is Reading,
{
}

/// A snapshot is written only when the machine has compared it: in a run
/// that regenerates snapshots, after the snapshot was looked for, and with
/// the canonical form that it was compared with, which ends with exactly one
/// line feed.
pub proof fn lemma_write_only_when_resolved(pre: Session, event: Event, post: Session, step: Step)
    requires
        pre.wf(),
        pre.accepts(event),
        pre.moves(event, post, step),
        step.action is Write,
    ensures
        pre.behavior is RegenerateFiles,
        event is Snapshot,
        pre.stage matches Stage::Reading { canonical, path } && step.action matches Action::Write {
            path: at,
            content,
        } && content@ == canonical@ && at@ == path@ && ends_with_one_line_feed(content@),
{
    lemma_tally(pre, event, post, step);
    match (pre.stage, event) {
        (Stage::Reading { canonical, path }, Event::Snapshot(snapshot)) => {
            crate::outcome::lemma_written_is_canonical(
                canonical@,
                content_of(snapshot),
                pre.behavior,
                pre.overwrite,
            );
        },
        _ => {},
    }
}

/// The canonical form that the machine holds while a snapshot is read.
pub open spec fn held(session: Session) -> Seq<u8> {
    match session.stage {
        Stage::Reading { canonical, path } => canonical@,
        _ => Seq::empty(),
    }
}

/// A unit without a snapshot, in a run that regenerates snapshots: the
/// machine asks for the snapshot to be written with the canonical form of
/// the expansion, and once that is done reports the unit as refreshed, which
/// is no failure. In a later run of whatever mode, in which the expansion
/// has the same canonical form and the snapshot is what was written, the
/// unit is reported as `Same`.
pub proof fn lemma_refreshed_then_same_run(
    first: Session,
    asked: Session,
    write: Step,
    done: Session,
    end: Step,
    later: Session,
    snapshot: Vec<u8>,
    after: Session,
    last: Step,
)
    requires
        first.wf(),
        first.stage is Reading,
        first.behavior is RegenerateFiles,
        first.moves(Event::Snapshot(None), asked, write),
        asked.moves(Event::Written, done, end),
        later.wf(),
        later.stage is Reading,
        held(later) == held(first),
        snapshot@ == held(first),
        later.moves(Event::Snapshot(Some(snapshot)), after, last),
    ensures
        write.reports@.len() == 0,
        write.action matches Action::Write { path, content } && content@ == held(first),
        reports_that(end.reports@[0], first.next as int, Ok(Outcome::Update(held(first)))),
        done.failures - first.failures == end.reports@.len() - 1,
        reports_that(last.reports@[0], later.next as int, Ok(Outcome::Same)),
        after.failures - later.failures == last.reports@.len() - 1,
{
    crate::outcome::lemma_refreshed_then_same(
        held(first),
        first.overwrite,
        later.behavior,
        later.overwrite,
    );
    lemma_concludes_tally(asked, Ok(Outcome::Update(held(first))), done, end);
    lemma_failed_reports_first(end.reports@);
    lemma_error_reports_fail(asked.units@, asked.next + 1, end.reports@.skip(1));
    lemma_concludes_tally(later, Ok(Outcome::Same), after, last);
    lemma_failed_reports_first(last.reports@);
    lemma_error_reports_fail(later.units@, later.next + 1, last.reports@.skip(1));
}

/// The words that say how many units of a run failed.
pub open spec fn summary_text(failures: nat, total: nat) -> Seq<char> {
    crate::decimal::digits(failures) + " of "@ + crate::decimal::digits(total) + " tests failed"@
}

/// The words that say how many units a run has.
pub open spec fn announcement_text(total: nat) -> Seq<char> {
    "Running "@ + crate::decimal::digits(total) + " macro expansion tests"@
}

/// The words with which a run that failed stops: how many of its units
/// failed.
pub fn summary(failures: usize, total: usize) -> (out: String)
    ensures
        out@ == summary_text(failures as nat, total as nat),
{
    let mut out = String::new();
    crate::decimal::push_digits(&mut out, failures);
    out.append(" of ");
    crate::decimal::push_digits(&mut out, total);
    out.append(" tests failed");
    assert(out@ =~= summary_text(failures as nat, total as nat));
    out
}

/// The words with which a run begins: how many units it has.
pub fn announcement(total: usize) -> (out: String)
    ensures
        out@ == announcement_text(total as nat),
{
    let mut out = "Running ".to_owned();
    crate::decimal::push_digits(&mut out, total);
    out.append(" macro expansion tests");
    out
}

/// The lines that tell the user how a unit ended, whose source is at `test`
/// and whose snapshot is at `snapshot`.
pub open spec fn description(test: Seq<char>, snapshot: Seq<char>, result: Result<
    ExpansionOutcome,
    Error,
>) -> Seq<Seq<char>> {
    match result {
        Ok(ExpansionOutcome::Same) => seq![test + " - ok"@],
        Ok(ExpansionOutcome::Different(a, b)) => difference_report(
            test,
            line_changes(utf8_lossy(a@), utf8_lossy(b@)),
        ),
        Ok(ExpansionOutcome::Update(_)) => seq![snapshot + " - refreshed"@],
        Ok(ExpansionOutcome::ExpandError(msg)) => expansion_error_report(msg@),
        Ok(ExpansionOutcome::NoExpandedFileFound) => seq![snapshot + " is expected but not found"@],
        Err(error) => seq!["Error: "@ + message_of(error)],
    }
}

/// The path that the snapshot of a unit is named by in what the user is
/// told: the path of the snapshot, or that of the source where it names no
/// file.
pub open spec fn shown_snapshot(test: Seq<char>) -> Seq<char> {
    match snapshot_path_of(test) {
        Some(path) => path,
        None => test,
    }
}

/// The lines that tell the user how `unit` ended.
pub fn describe(unit: &ExpandedTest, result: Result<ExpansionOutcome, Error>) -> (out: Vec<String>)
    ensures
        line_texts(out@) == description(unit.test@, shown_snapshot(unit.test@), result),
{
    let snapshot = match unit.snapshot_path() {
        Some(path) => path,
        None => unit.test.clone(),
    };
    match result {
        Ok(ExpansionOutcome::Different(a, b)) => message_different(
            unit.test.as_str(),
            a.as_slice(),
            b.as_slice(),
        ),
        Ok(ExpansionOutcome::ExpandError(msg)) => message_expansion_error(msg),
        other => {
            let line = match other {
                Ok(ExpansionOutcome::Same) => join2(unit.test.as_str(), " - ok"),
                Ok(ExpansionOutcome::Update(_)) => join2(snapshot.as_str(), " - refreshed"),
                Ok(ExpansionOutcome::NoExpandedFileFound) => join2(
                    snapshot.as_str(),
                    " is expected but not found",
                ),
                Err(error) => join2("Error: ", error.message().as_str()),
                _ => unreached(),
            };
            let mut out: Vec<String> = Vec::new();
            out.push(line);
            assert(line_texts(out@) =~= seq![line@]);
            out
        },
    }
}

} // verus!
