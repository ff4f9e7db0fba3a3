//! The extraction driver.
//!
//! Fetching an entry and writing a file are work for the caller. The driver
//! decides: it is a state machine that hands out one `Action` at a time and
//! takes the outcome of that action back. It asks for the entries one by one
//! in ascending order, says what is to be written and what is to be reported,
//! and keeps a failed entry or a failed write from ending the run.
//!
//! An action holds the run that waits for its outcome, so the only thing a
//! caller can do with a run is to answer what it was asked:
//!
//! ```text
//! let mut step = Extraction::begin(len, opts, ext);
//! loop {
//!     // report step.reports, then
//!     step = match step.action {
//!         Action::CreateDir(run) => run.dir_created(..),
//!         Action::Fetch(run) => run.fetched(..),
//!         Action::Write { run, name, data } => run.written(..),
//!         Action::Done(end) => break,
//!     };
//! }
//! ```

use crate::archive::{asset_name, ext_view, identifier_of, output_name, EntryId, EntryIdView};
use crate::report::{Report, ReportView};
use crate::stats::{count_of, distinct_labels, lemma_add_count, tally_add, tally_text, Stats};
use vstd::prelude::*;
use vstd::string::StringExecFns;

verus! {

/// How an archive is to be gone through.
#[derive(Clone, Copy, Debug, PartialEq, Eq, Structural)]
pub struct Opts {
    /// Write the entries to files; without it the run is dry.
    pub explode: bool,
    /// In a dry run, do not go through the entries at all.
    pub shallow: bool,
    /// Report every entry by itself, in place of the brief counts.
    pub detail: bool,
}

/// What the driver is waiting for.
#[derive(Clone, Copy, Debug, PartialEq, Eq, Structural)]
pub enum Phase {
    /// For the outcome of creating the output directory.
    AwaitDir,
    /// For the entry that it asked for.
    AwaitEntry,
    /// For the outcome of writing the entry that it handed out.
    AwaitWrite,
    /// For nothing: the run is over.
    Finished,
}

/// An entry as the archive gave it.
#[derive(Clone, Debug, PartialEq, Eq)]
pub struct Entry {
    pub id: EntryId,
    pub data: Vec<u8>,
}

/// The model of an `Entry`.
pub struct EntryView {
    pub id: EntryIdView,
    pub data: Seq<u8>,
}

impl View for Entry {
    type V = EntryView;

    open spec fn view(&self) -> EntryView {
        EntryView { id: self.id@, data: self.data@ }
    }
}

/// Why the output directory could not be created.
#[derive(Clone, Debug, PartialEq, Eq)]
pub struct DirFailure {
    pub dir: String,
    pub error: String,
}

/// The model of a `DirFailure`.
pub struct DirFailureView {
    pub dir: Seq<char>,
    pub error: Seq<char>,
}

impl View for DirFailure {
    type V = DirFailureView;

    open spec fn view(&self) -> DirFailureView {
        DirFailureView { dir: self.dir@, error: self.error@ }
    }
}

/// Why an entry could not be written to its file.
#[derive(Clone, Debug, PartialEq, Eq)]
pub enum WriteFailure {
    /// The file could not be created.
    Create { path: String, error: String },
    /// The file was created, and writing to it failed.
    Write { path: String, error: String },
}

/// The model of a `WriteFailure`.
pub enum WriteFailureView {
    Create { path: Seq<char>, error: Seq<char> },
    Write { path: Seq<char>, error: Seq<char> },
}

impl View for WriteFailure {
    type V = WriteFailureView;

    open spec fn view(&self) -> WriteFailureView {
        match self {
            WriteFailure::Create { path, error } => WriteFailureView::Create {
                path: path@,
                error: error@,
            },
            WriteFailure::Write { path, error } => WriteFailureView::Write {
                path: path@,
                error: error@,
            },
        }
    }
}

/// The model of an `Action`: what is to be done, without the run that waits.
pub enum ActionView {
    CreateDir,
    Fetch { index: nat },
    Write { name: Seq<char>, data: Seq<u8> },
    Done,
}

/// The model of a `Step`.
pub struct StepView {
    pub reports: Seq<ReportView>,
    pub action: ActionView,
}

/// The model of the driver's state.
pub struct ExtractionView {
    pub opts: Opts,
    /// The extension that output names get.
    pub ext: Option<Seq<char>>,
    /// The number of entries of the archive.
    pub len: nat,
    /// The index of the entry that is being dealt with, or comes next.
    pub next: nat,
    /// How many entries were fetched, counted in a brief run only.
    pub successes: nat,
    /// The failed fetches by kind, counted in a brief run only.
    pub failures: Seq<(Seq<char>, int)>,
    pub phase: Phase,
}

/// The brief report at the end: the number of fetched entries unless it is
/// zero, then the failures by kind unless there are none.
pub open spec fn summary(s: ExtractionView) -> Seq<ReportView> {
    let good = if s.successes > 0 {
        seq![ReportView::Success { count: s.successes }]
    } else {
        Seq::empty()
    };
    if s.failures.len() > 0 {
        good.push(ReportView::Failure { tally: tally_text(s.failures) })
    } else {
        good
    }
}

/// The move that follows once the entries before `s.next` are dealt with:
/// after `said`, ask for the next entry, or end with the summary.
pub open spec fn proceed(s: ExtractionView, said: Seq<ReportView>) -> (ExtractionView, StepView) {
    if s.next < s.len {
        (
            ExtractionView { phase: Phase::AwaitEntry, ..s },
            StepView { reports: said, action: ActionView::Fetch { index: s.next } },
        )
    } else {
        (
            ExtractionView { phase: Phase::Finished, ..s },
            StepView { reports: said + summary(s), action: ActionView::Done },
        )
    }
}

/// The first move: the number of entries is reported. A shallow dry run ends
/// there. A run that writes asks for the output directory. A dry run goes on
/// to the entries.
pub open spec fn begun(opts: Opts, ext: Option<Seq<char>>, len: nat) -> (
    ExtractionView,
    StepView,
) {
    let s = ExtractionView {
        opts,
        ext,
        len,
        next: 0,
        successes: 0,
        failures: Seq::empty(),
        phase: Phase::Finished,
    };
    let said = seq![ReportView::Entries { count: len }];
    if !opts.explode && opts.shallow {
        (s, StepView { reports: said, action: ActionView::Done })
    } else if opts.explode {
        (
            ExtractionView { phase: Phase::AwaitDir, ..s },
            StepView { reports: said, action: ActionView::CreateDir },
        )
    } else {
        proceed(s, said)
    }
}

/// The move after the output directory was created, or was not: without it
/// the run ends, and says why.
pub open spec fn after_dir(s: ExtractionView, outcome: Option<DirFailureView>) -> (
    ExtractionView,
    StepView,
) {
    match outcome {
        None => proceed(s, Seq::empty()),
        Some(f) => (
            ExtractionView { phase: Phase::Finished, ..s },
            StepView {
                reports: seq![ReportView::DirFailed { dir: f.dir, error: f.error }],
                action: ActionView::Done,
            },
        ),
    }
}

/// The move after an entry was fetched, or was not.
///
/// A fetched entry gets its output name. A detailed run reports the name, a
/// brief one counts the entry. A run that writes hands the entry out to be
/// written; a dry run goes on to the next entry.
///
/// A failed fetch is reported with its index in a detailed run and counted
/// by its kind in a brief one; the run goes on to the next entry.
pub open spec fn after_fetch(s: ExtractionView, outcome: Result<EntryView, Seq<char>>) -> (
    ExtractionView,
    StepView,
) {
    match outcome {
        Ok(entry) => {
            let name = output_name(identifier_of(entry.id), s.ext);
            let said = if s.opts.detail {
                seq![ReportView::Listed { name }]
            } else {
                Seq::empty()
            };
            let counted = if s.opts.detail {
                s.successes
            } else {
                s.successes + 1
            };
            if s.opts.explode {
                (
                    ExtractionView { successes: counted, phase: Phase::AwaitWrite, ..s },
                    StepView {
                        reports: said,
                        action: ActionView::Write { name, data: entry.data },
                    },
                )
            } else {
                proceed(ExtractionView { successes: counted, next: s.next + 1, ..s }, said)
            }
        },
        Err(error) => {
            if s.opts.detail {
                proceed(
                    ExtractionView { next: s.next + 1, ..s },
                    seq![ReportView::FetchFailed { index: s.next, error }],
                )
            } else {
                proceed(
                    ExtractionView {
                        next: s.next + 1,
                        failures: tally_add(s.failures, error, 1),
                        ..s
                    },
                    Seq::empty(),
                )
            }
        },
    }
}

/// What a failed write is reported as.
pub open spec fn write_report(f: WriteFailureView) -> ReportView {
    match f {
        WriteFailureView::Create { path, error } => ReportView::CreateFailed { path, error },
        WriteFailureView::Write { path, error } => ReportView::WriteFailed { path, error },
    }
}

/// The move after an entry was written, or was not: a failure is reported,
/// and either way the run goes on to the next entry.
pub open spec fn after_write(s: ExtractionView, outcome: Option<WriteFailureView>) -> (
    ExtractionView,
    StepView,
) {
    let then = ExtractionView { next: s.next + 1, ..s };
    match outcome {
        None => proceed(then, Seq::empty()),
        Some(f) => proceed(then, seq![write_report(f)]),
    }
}

/// The view of an outcome that carries a value of the library on failure.
pub open spec fn failure_view<F: View>(outcome: Result<(), F>) -> Option<F::V> {
    match outcome {
        Ok(_) => None,
        Err(f) => Some(f@),
    }
}

/// The view of the outcome of a fetch.
pub open spec fn fetch_view(outcome: Result<Entry, String>) -> Result<EntryView, Seq<char>> {
    match outcome {
        Ok(entry) => Ok(entry@),
        Err(error) => Err(error@),
    }
}

/// The view of an extension that may be absent.
pub open spec fn owned_ext_view(ext: Option<String>) -> Option<Seq<char>> {
    match ext {
        Some(e) => Some(e@),
        None => None,
    }
}

/// The state of one run through one archive.
#[derive(Debug, PartialEq, Eq)]
pub struct Extraction {
    opts: Opts,
    ext: Option<String>,
    len: usize,
    next: usize,
    successes: usize,
    failures: Stats,
    phase: Phase,
}

impl View for Extraction {
    type V = ExtractionView;

    closed spec fn view(&self) -> ExtractionView {
        ExtractionView {
            opts: self.opts,
            ext: owned_ext_view(self.ext),
            len: self.len as nat,
            next: self.next as nat,
            successes: self.successes as nat,
            failures: self.failures@,
            phase: self.phase,
        }
    }
}

/// A run that waits for the outcome of creating the output directory.
#[derive(Debug, PartialEq, Eq)]
pub struct AwaitDir {
    state: Extraction,
}

/// A run that waits for the entry that it asked for.
#[derive(Debug, PartialEq, Eq)]
pub struct AwaitEntry {
    state: Extraction,
}

/// A run that waits for the outcome of writing the entry that it handed out.
#[derive(Debug, PartialEq, Eq)]
pub struct AwaitWrite {
    state: Extraction,
}

impl View for AwaitDir {
    type V = ExtractionView;

    closed spec fn view(&self) -> ExtractionView {
        self.state@
    }
}

impl View for AwaitEntry {
    type V = ExtractionView;

    closed spec fn view(&self) -> ExtractionView {
        self.state@
    }
}

impl View for AwaitWrite {
    type V = ExtractionView;

    closed spec fn view(&self) -> ExtractionView {
        self.state@
    }
}

/// What the caller is to do next. Every action but the last holds the run,
/// which waits for the outcome.
#[derive(Debug, PartialEq, Eq)]
pub enum Action {
    /// Create the output directory, with the directories above it.
    CreateDir(AwaitDir),
    /// Fetch from the archive the entry at the index that the run gives.
    Fetch(AwaitEntry),
    /// Write `data` to the file `name` in the output directory, in place of
    /// what the file may hold.
    Write { run: AwaitWrite, name: String, data: Vec<u8> },
    /// Nothing: the run is over, and this is its last state.
    Done(Extraction),
}

impl View for Action {
    type V = ActionView;

    open spec fn view(&self) -> ActionView {
        match self {
            Action::CreateDir(_) => ActionView::CreateDir,
            Action::Fetch(run) => ActionView::Fetch { index: run@.next },
            Action::Write { run, name, data } => ActionView::Write { name: name@, data: data@ },
            Action::Done(_) => ActionView::Done,
        }
    }
}

impl Action {
    /// The state of the run that the action holds.
    pub open spec fn state(&self) -> ExtractionView {
        match self {
            Action::CreateDir(run) => run@,
            Action::Fetch(run) => run@,
            Action::Write { run, name, data } => run@,
            Action::Done(end) => end@,
        }
    }
}

/// What one move of the driver gives: what to report, in order, and then
/// what to do.
#[derive(Debug, PartialEq, Eq)]
pub struct Step {
    pub reports: Vec<Report>,
    pub action: Action,
}

impl View for Step {
    type V = StepView;

    open spec fn view(&self) -> StepView {
        StepView { reports: self.reports.deep_view(), action: self.action@ }
    }
}

impl Extraction {
    #[verifier::type_invariant]
    spec fn well_formed(&self) -> bool {
        &&& self.len <= isize::MAX
        &&& self.next <= self.len
        &&& self.successes <= self.next + 1
        &&& self.phase != Phase::AwaitWrite ==> self.successes <= self.next
        &&& (self.phase == Phase::AwaitEntry || self.phase == Phase::AwaitWrite) ==> self.next
            < self.len
        &&& distinct_labels(self.failures@)
        &&& forall|label: Seq<char>| 0 <= #[trigger] count_of(self.failures@, label) <= self.next
    }

    /// Asks for the entry at `next`, or ends the run with the summary.
    fn proceed(
        opts: Opts,
        ext: Option<String>,
        len: usize,
        next: usize,
        successes: usize,
        failures: Stats,
        said: Vec<Report>,
    ) -> (step: Step)
        requires
            len <= isize::MAX,
            next <= len,
            successes <= next,
            distinct_labels(failures@),
            forall|label: Seq<char>| 0 <= #[trigger] count_of(failures@, label) <= next,
        ensures
            (step.action.state(), step@) == proceed(
                ExtractionView {
                    opts,
                    ext: owned_ext_view(ext),
                    len: len as nat,
                    next: next as nat,
                    successes: successes as nat,
                    failures: failures@,
                    phase: Phase::Finished,
                },
                said.deep_view(),
            ),
    {
        let ghost s = ExtractionView {
            opts,
            ext: owned_ext_view(ext),
            len: len as nat,
            next: next as nat,
            successes: successes as nat,
            failures: failures@,
            phase: Phase::Finished,
        };
        if next < len {
            let state = Extraction {
                opts,
                ext,
                len,
                next,
                successes,
                failures,
                phase: Phase::AwaitEntry,
            };
            Step { reports: said, action: Action::Fetch(AwaitEntry { state }) }
        } else {
            let mut reports = said;
            if successes > 0 {
                reports.push(Report::Success { count: successes });
            }
            if failures.len() > 0 {
                reports.push(Report::Failure { tally: failures.to_string() });
            }
            assert(reports.deep_view() =~= said.deep_view() + summary(s));
            let state = Extraction {
                opts,
                ext,
                len,
                next,
                successes,
                failures,
                phase: Phase::Finished,
            };
            Step { reports, action: Action::Done(state) }
        }
    }

    /// Begins the run through an archive of `len` entries, whose output
    /// names get the extension `ext`.
    pub fn begin(len: usize, opts: Opts, ext: Option<&str>) -> (step: Step)
        requires
            len <= isize::MAX,
        ensures
            (step.action.state(), step@) == begun(opts, ext_view(ext), len as nat),
    {
        let ext: Option<String> = match ext {
            Some(e) => Some(String::from_str(e)),
            None => None,
        };
        let mut said: Vec<Report> = Vec::new();
        said.push(Report::Entries { count: len });
        assert(said.deep_view() =~= seq![ReportView::Entries { count: len as nat }]);
        let failures = Stats::new();
        if !opts.explode && opts.shallow {
            let state = Extraction {
                opts,
                ext,
                len,
                next: 0,
                successes: 0,
                failures,
                phase: Phase::Finished,
            };
            Step { reports: said, action: Action::Done(state) }
        } else if opts.explode {
            let state = Extraction {
                opts,
                ext,
                len,
                next: 0,
                successes: 0,
                failures,
                phase: Phase::AwaitDir,
            };
            Step { reports: said, action: Action::CreateDir(AwaitDir { state }) }
        } else {
            Self::proceed(opts, ext, len, 0, 0, failures, said)
        }
    }

    /// What the run is waiting for.
    pub fn phase(&self) -> (p: Phase)
        ensures
            p == self@.phase,
    {
        self.phase
    }

    /// The number of entries of the archive.
    pub fn len(&self) -> (n: usize)
        ensures
            n == self@.len,
    {
        self.len
    }

    /// The index of the entry that is being dealt with, or comes next.
    pub fn position(&self) -> (i: usize)
        ensures
            i == self@.next,
            i <= self@.len,
    {
        proof {
            use_type_invariant(self);
        }
        self.next
    }

    /// How many entries were fetched so far, as a brief run counts them.
    pub fn successes(&self) -> (n: usize)
        ensures
            n == self@.successes,
    {
        self.successes
    }

    /// The failed fetches so far by kind, as a brief run counts them.
    pub fn failures(&self) -> (t: &Stats)
        ensures
            t@ == self@.failures,
    {
        &self.failures
    }
}

impl AwaitDir {
    #[verifier::type_invariant]
    spec fn waiting(&self) -> bool {
        self.state.phase == Phase::AwaitDir
    }

    /// The state of the run.
    pub fn state(&self) -> (s: &Extraction)
        ensures
            s@ == self@,
            self@.phase == Phase::AwaitDir,
    {
        proof {
            use_type_invariant(self);
        }
        &self.state
    }

    /// Takes the outcome of creating the output directory.
    pub fn dir_created(self, outcome: Result<(), DirFailure>) -> (step: Step)
        ensures
            self@.phase == Phase::AwaitDir,
            (step.action.state(), step@) == after_dir(self@, failure_view(outcome)),
    {
        proof {
            use_type_invariant(&self);
            use_type_invariant(&self.state);
        }
        let AwaitDir { state } = self;
        let Extraction { opts, ext, len, next, successes, failures, phase } = state;
        match outcome {
            Ok(_) => {
                let said: Vec<Report> = Vec::new();
                assert(said.deep_view() =~= Seq::<ReportView>::empty());
                Extraction::proceed(opts, ext, len, next, successes, failures, said)
            },
            Err(f) => {
                let mut reports: Vec<Report> = Vec::new();
                reports.push(Report::DirFailed { dir: f.dir, error: f.error });
                assert(reports.deep_view() =~= seq![
                    ReportView::DirFailed { dir: f.dir@, error: f.error@ },
                ]);
                let state = Extraction {
                    opts,
                    ext,
                    len,
                    next,
                    successes,
                    failures,
                    phase: Phase::Finished,
                };
                Step { reports, action: Action::Done(state) }
            },
        }
    }
}

impl AwaitEntry {
    #[verifier::type_invariant]
    spec fn waiting(&self) -> bool {
        self.state.phase == Phase::AwaitEntry
    }

    /// The state of the run.
    pub fn state(&self) -> (s: &Extraction)
        ensures
            s@ == self@,
            self@.phase == Phase::AwaitEntry,
    {
        proof {
            use_type_invariant(self);
        }
        &self.state
    }

    /// The index of the entry that the run asks for.
    pub fn index(&self) -> (i: usize)
        ensures
            i == self@.next,
            i < self@.len,
    {
        proof {
            use_type_invariant(self);
            use_type_invariant(&self.state);
        }
        self.state.next
    }

    /// Takes the entry that was asked for, or the kind of failure in its
    /// place.
    pub fn fetched(self, outcome: Result<Entry, String>) -> (step: Step)
        ensures
            self@.phase == Phase::AwaitEntry,
            (step.action.state(), step@) == after_fetch(self@, fetch_view(outcome)),
    {
        proof {
            use_type_invariant(&self);
            use_type_invariant(&self.state);
        }
        let AwaitEntry { state } = self;
        let Extraction { opts, ext, len, next, successes, failures, phase } = state;
        let mut failures = failures;
        let mut said: Vec<Report> = Vec::new();
        assert(said.deep_view() =~= Seq::<ReportView>::empty());
        match outcome {
            Ok(entry) => {
                let hint: Option<&str> = match &ext {
                    Some(e) => Some(e.as_str()),
                    None => None,
                };
                let name = asset_name(entry.id.identifier(), hint);
                let counted: usize = if opts.detail {
                    said.push(Report::Listed { name: name.clone() });
                    successes
                } else {
                    successes + 1
                };
                assert(said.deep_view() =~= if opts.detail {
                    seq![ReportView::Listed { name: name@ }]
                } else {
                    Seq::empty()
                });
                if opts.explode {
                    let state = Extraction {
                        opts,
                        ext,
                        len,
                        next,
                        successes: counted,
                        failures,
                        phase: Phase::AwaitWrite,
                    };
                    Step {
                        reports: said,
                        action: Action::Write { run: AwaitWrite { state }, name, data: entry.data },
                    }
                } else {
                    Extraction::proceed(opts, ext, len, next + 1, counted, failures, said)
                }
            },
            Err(error) => {
                if opts.detail {
                    said.push(Report::FetchFailed { index: next, error });
                    assert(said.deep_view() =~= seq![
                        ReportView::FetchFailed { index: next as nat, error: error@ },
                    ]);
                } else {
                    proof {
                        assert forall|label: Seq<char>|
                            0 <= #[trigger] count_of(
                                tally_add(failures@, error@, 1),
                                label,
                            ) <= next + 1 by {
                            lemma_add_count(failures@, error@, 1, label);
                        }
                        lemma_add_count(failures@, error@, 1, error@);
                    }
                    failures.add(error.as_str(), 1);
                }
                Extraction::proceed(opts, ext, len, next + 1, successes, failures, said)
            },
        }
    }
}

impl AwaitWrite {
    #[verifier::type_invariant]
    spec fn waiting(&self) -> bool {
        self.state.phase == Phase::AwaitWrite
    }

    /// The state of the run.
    pub fn state(&self) -> (s: &Extraction)
        ensures
            s@ == self@,
            self@.phase == Phase::AwaitWrite,
    {
        proof {
            use_type_invariant(self);
        }
        &self.state
    }

    /// Takes the outcome of writing the entry that was handed out.
    pub fn written(self, outcome: Result<(), WriteFailure>) -> (step: Step)
        ensures
            self@.phase == Phase::AwaitWrite,
            (step.action.state(), step@) == after_write(self@, failure_view(outcome)),
    {
        proof {
            use_type_invariant(&self);
            use_type_invariant(&self.state);
        }
        let AwaitWrite { state } = self;
        let Extraction { opts, ext, len, next, successes, failures, phase } = state;
        let mut said: Vec<Report> = Vec::new();
        assert(said.deep_view() =~= Seq::<ReportView>::empty());
        match outcome {
            Ok(_) => {},
            Err(f) => {
                let ghost fv = f@;
                let report = match f {
                    WriteFailure::Create { path, error } => Report::CreateFailed { path, error },
                    WriteFailure::Write { path, error } => Report::WriteFailed { path, error },
                };
                said.push(report);
                assert(said.deep_view() =~= seq![write_report(fv)]);
            },
        }
        Extraction::proceed(opts, ext, len, next + 1, successes, failures, said)
    }
}

} // verus!
