//! A whole run of the extraction driver, as the answers from outside
//! determine it, and what holds of every such run.

use crate::archive::{identifier_of, output_name};
use crate::extract::{
    after_dir, after_fetch, after_write, begun, summary, ActionView, DirFailureView,
    EntryView, ExtractionView, Opts, Phase, StepView, WriteFailureView,
};
use crate::report::ReportView;
use crate::stats::{
    count_of, distinct_labels, has_label, lemma_add_count, lemma_add_total, tally_add, tally_total,
};
use vstd::prelude::*;

verus! {

/// What the outside answers to the driver's actions.
pub struct World {
    /// To creating the output directory: why it failed, if it did.
    pub dir: Option<DirFailureView>,
    /// To fetching the entry at each index.
    pub entries: Seq<Result<EntryView, Seq<char>>>,
    /// To writing the entry at each index: why it failed, if it did.
    pub writes: Seq<Option<WriteFailureView>>,
}

impl World {
    /// Whether the world has an answer for each of `len` entries.
    pub open spec fn fits(self, len: nat) -> bool {
        self.entries.len() == len && self.writes.len() == len
    }
}

/// The driver's move when the world answers what the driver waits for.
pub open spec fn answered(w: World, s: ExtractionView) -> (ExtractionView, StepView) {
    match s.phase {
        Phase::AwaitDir => after_dir(s, w.dir),
        Phase::AwaitEntry => after_fetch(s, w.entries[s.next as int]),
        Phase::AwaitWrite => after_write(s, w.writes[s.next as int]),
        Phase::Finished => (s, StepView { reports: Seq::empty(), action: ActionView::Done }),
    }
}

/// A bound on the number of moves that are left.
pub open spec fn moves_left(s: ExtractionView) -> nat {
    let entries: nat = if s.next < s.len {
        (s.len - s.next) as nat
    } else {
        0
    };
    match s.phase {
        Phase::AwaitDir => 2 * entries + 3,
        Phase::AwaitEntry => 2 * entries + 2,
        Phase::AwaitWrite => 2 * entries + 1,
        Phase::Finished => 0,
    }
}

/// The moves that follow the state `s`, up to the one that ends the run.
pub open spec fn run_from(w: World, s: ExtractionView) -> Seq<StepView>
    decreases moves_left(s),
{
    if s.phase == Phase::Finished {
        Seq::empty()
    } else {
        let (then, step) = answered(w, s);
        seq![step] + run_from(w, then)
    }
}

/// The state in which the run that goes on from `s` ends.
pub open spec fn end_from(w: World, s: ExtractionView) -> ExtractionView
    decreases moves_left(s),
{
    if s.phase == Phase::Finished {
        s
    } else {
        end_from(w, answered(w, s).0)
    }
}

/// All moves of the run through an archive of `len` entries, from the first.
pub open spec fn run(w: World, opts: Opts, ext: Option<Seq<char>>, len: nat) -> Seq<StepView> {
    let (s, step) = begun(opts, ext, len);
    seq![step] + run_from(w, s)
}

/// The state in which that run ends.
pub open spec fn end_state(
    w: World,
    opts: Opts,
    ext: Option<Seq<char>>,
    len: nat,
) -> ExtractionView {
    end_from(w, begun(opts, ext, len).0)
}

/// The indexes of the entries that the moves ask for, in order.
pub open spec fn asked(steps: Seq<StepView>) -> Seq<nat>
    decreases steps.len(),
{
    if steps.len() == 0 {
        Seq::empty()
    } else {
        let first = match steps[0].action {
            ActionView::Fetch { index } => seq![index],
            _ => Seq::empty(),
        };
        first + asked(steps.drop_first())
    }
}

/// The files that the moves hand out to be written, in order: each with its
/// name and what it is to hold.
pub open spec fn written(steps: Seq<StepView>) -> Seq<(Seq<char>, Seq<u8>)>
    decreases steps.len(),
{
    if steps.len() == 0 {
        Seq::empty()
    } else {
        let first = match steps[0].action {
            ActionView::Write { name, data } => seq![(name, data)],
            _ => Seq::empty(),
        };
        first + written(steps.drop_first())
    }
}

/// Everything that the moves report, in order.
pub open spec fn told(steps: Seq<StepView>) -> Seq<ReportView>
    decreases steps.len(),
{
    if steps.len() == 0 {
        Seq::empty()
    } else {
        steps[0].reports + told(steps.drop_first())
    }
}

/// Whether an action changes anything on disk.
pub open spec fn touches_disk(a: ActionView) -> bool {
    a is CreateDir || a is Write
}

/// The files that the fetched entries among `entries` make, in order: each
/// under its output name, holding the bytes that were fetched.
pub open spec fn files_of(
    entries: Seq<Result<EntryView, Seq<char>>>,
    ext: Option<Seq<char>>,
) -> Seq<(Seq<char>, Seq<u8>)>
    decreases entries.len(),
{
    if entries.len() == 0 {
        Seq::empty()
    } else {
        let first = match entries[0] {
            Ok(entry) => seq![(output_name(identifier_of(entry.id), ext), entry.data)],
            Err(_) => Seq::empty(),
        };
        first + files_of(entries.drop_first(), ext)
    }
}

/// How many of the entries were fetched.
pub open spec fn fetched_count(entries: Seq<Result<EntryView, Seq<char>>>) -> nat
    decreases entries.len(),
{
    if entries.len() == 0 {
        0
    } else {
        let first: nat = if entries[0] is Ok {
            1
        } else {
            0
        };
        first + fetched_count(entries.drop_first())
    }
}

/// How many of the entries failed with `error`.
pub open spec fn failed_count(entries: Seq<Result<EntryView, Seq<char>>>, error: Seq<char>) -> nat
    decreases entries.len(),
{
    if entries.len() == 0 {
        0
    } else {
        let first: nat = if entries[0] == Err::<EntryView, Seq<char>>(error) {
            1
        } else {
            0
        };
        first + failed_count(entries.drop_first(), error)
    }
}

/// Whether the run goes through the entries: every run does, but a shallow
/// dry run and one that cannot create its output directory.
pub open spec fn goes_through(w: World, opts: Opts) -> bool {
    if opts.explode {
        w.dir is None
    } else {
        !opts.shallow
    }
}

/// Whether `s` waits for an entry, or for one to be written, as a run does
/// that is not over.
pub open spec fn under_way(s: ExtractionView) -> bool {
    &&& s.phase == Phase::AwaitEntry || s.phase == Phase::AwaitWrite
    &&& s.next < s.len
    &&& s.phase == Phase::AwaitWrite ==> s.opts.explode
}

/// The index of the first entry that the run has yet to ask for an answer
/// about.
pub open spec fn pending(s: ExtractionView) -> int {
    if s.phase == Phase::AwaitWrite {
        s.next as int + 1
    } else {
        s.next as int
    }
}

/// A run that is not over makes its next move and goes on from there.
proof fn lemma_unfold(w: World, s: ExtractionView)
    requires
        s.phase != Phase::Finished,
    ensures
        run_from(w, s) == seq![answered(w, s).1] + run_from(w, answered(w, s).0),
        run_from(w, s)[0] == answered(w, s).1,
        run_from(w, s).drop_first() == run_from(w, answered(w, s).0),
        end_from(w, s) == end_from(w, answered(w, s).0),
        answered(w, s).0.opts == s.opts,
        answered(w, s).0.ext == s.ext,
        answered(w, s).0.len == s.len,
{
    let steps = seq![answered(w, s).1] + run_from(w, answered(w, s).0);
    assert(steps.drop_first() =~= run_from(w, answered(w, s).0));
}

/// The three ways in which a run that is under way moves on: the entry is
/// handed out to be written; the next entry is asked for; or the run ends
/// with its summary.
proof fn lemma_cases(w: World, s: ExtractionView)
    requires
        under_way(s),
    ensures
        ({
            let (then, step) = answered(w, s);
            ||| {
                &&& under_way(then)
                &&& then.phase == Phase::AwaitWrite
                &&& s.phase == Phase::AwaitEntry
                &&& then.next == s.next
                &&& step.action is Write
            }
            ||| {
                &&& under_way(then)
                &&& then.phase == Phase::AwaitEntry
                &&& then.next == s.next + 1
                &&& step.action == (ActionView::Fetch { index: then.next })
            }
            ||| {
                &&& then.phase == Phase::Finished
                &&& then.next == s.next + 1
                &&& then.next == s.len
                &&& step.action is Done
                &&& step.reports == step.reports.take(step.reports.len() - summary(then).len())
                    + summary(then)
            }
        }),
{
    let (then, step) = answered(w, s);
    if then.phase == Phase::Finished {
        let t = ExtractionView { phase: s.phase, ..then };
        assert(summary(t) == summary(then));
        let said = step.reports.take(step.reports.len() - summary(then).len());
        assert(step.reports =~= said + summary(then));
    }
}

/// From a state under way, the run asks for every index that is left.
proof fn lemma_asked_from(w: World, s: ExtractionView)
    requires
        under_way(s),
    ensures
        asked(run_from(w, s)) == Seq::new(
            (s.len - s.next - 1) as nat,
            |k: int| (s.next + 1 + k) as nat,
        ),
    decreases moves_left(s),
{
    lemma_unfold(w, s);
    lemma_cases(w, s);
    let (then, step) = answered(w, s);
    let goal = Seq::new((s.len - s.next - 1) as nat, |k: int| (s.next + 1 + k) as nat);
    let rest = asked(run_from(w, then));
    if then.phase == Phase::Finished {
        assert(run_from(w, then) =~= Seq::empty());
        assert(asked(run_from(w, s)) =~= goal);
    } else if then.phase == Phase::AwaitWrite {
        lemma_asked_from(w, then);
        assert(asked(run_from(w, s)) =~= Seq::<nat>::empty() + rest);
        assert(rest =~= goal);
    } else {
        lemma_asked_from(w, then);
        assert(asked(run_from(w, s)) =~= seq![then.next] + rest);
        assert(seq![then.next] + rest =~= goal);
    }
}

/// From a state under way, the run hands out the fetched ones among the
/// entries that are left, where it writes at all.
proof fn lemma_written_from(w: World, s: ExtractionView)
    requires
        under_way(s),
        w.entries.len() == s.len,
    ensures
        written(run_from(w, s)) == if s.opts.explode {
            files_of(w.entries.skip(pending(s)), s.ext)
        } else {
            Seq::empty()
        },
    decreases moves_left(s),
{
    lemma_unfold(w, s);
    lemma_cases(w, s);
    let (then, step) = answered(w, s);
    let i = s.next as int;
    let here = w.entries.skip(i);
    let after = w.entries.skip(i + 1);
    let none = Seq::<(Seq<char>, Seq<u8>)>::empty();
    // the file that the entry at `i` makes, if it was fetched
    let file = match w.entries[i] {
        Ok(entry) => seq![(output_name(identifier_of(entry.id), s.ext), entry.data)],
        Err(_) => none,
    };
    assert(here.drop_first() =~= after);
    assert(here[0] == w.entries[i]);
    assert(files_of(here, s.ext) == file + files_of(after, s.ext));
    // what this move hands out
    let handed = match step.action {
        ActionView::Write { name, data } => seq![(name, data)],
        _ => none,
    };
    assert(written(run_from(w, s)) == handed + written(run_from(w, then)));
    if s.phase == Phase::AwaitEntry && s.opts.explode {
        assert(handed == file);
    } else {
        assert(handed == none);
    }
    // what the moves after it hand out
    if then.phase == Phase::Finished {
        assert(run_from(w, then) =~= Seq::empty());
        assert(written(run_from(w, then)) =~= none);
        assert(after =~= Seq::empty());
        assert(files_of(after, s.ext) =~= none);
    } else {
        lemma_written_from(w, then);
        assert(pending(then) == i + 1);
    }
    if s.opts.explode {
        if s.phase == Phase::AwaitEntry {
            assert(written(run_from(w, s)) =~= files_of(here, s.ext));
        } else {
            assert(written(run_from(w, s)) =~= files_of(after, s.ext));
        }
    } else {
        assert(written(run_from(w, s)) =~= none);
    }
}

/// From a state under way, a dry run touches nothing on disk.
proof fn lemma_dry_from(w: World, s: ExtractionView)
    requires
        under_way(s),
        !s.opts.explode,
    ensures
        forall|k: int|
            0 <= k < run_from(w, s).len() ==> !touches_disk((#[trigger] run_from(w, s)[k]).action),
    decreases moves_left(s),
{
    lemma_unfold(w, s);
    lemma_cases(w, s);
    let (then, step) = answered(w, s);
    if then.phase != Phase::Finished {
        lemma_dry_from(w, then);
    } else {
        assert(run_from(w, then) =~= Seq::empty());
    }
    assert forall|k: int| 0 <= k < run_from(w, s).len() implies !touches_disk(
        (#[trigger] run_from(w, s)[k]).action,
    ) by {
        if k > 0 {
            assert(run_from(w, s)[k] == run_from(w, then)[k - 1]);
        }
    }
}

/// From a state under way, a brief run adds each entry that is left to its
/// successes or to its failures; a detailed run leaves both as they are.
proof fn lemma_counts_from(w: World, s: ExtractionView)
    requires
        under_way(s),
        w.entries.len() == s.len,
    ensures
        ({
            let end = end_from(w, s);
            let rest = w.entries.skip(pending(s));
            if s.opts.detail {
                end.successes == s.successes && end.failures == s.failures
            } else {
                end.successes == s.successes + fetched_count(rest) && tally_total(end.failures)
                    == tally_total(s.failures) + rest.len() - fetched_count(rest)
            }
        }),
    decreases moves_left(s),
{
    lemma_unfold(w, s);
    lemma_cases(w, s);
    let (then, step) = answered(w, s);
    let i = s.next as int;
    let here = w.entries.skip(i);
    let after = w.entries.skip(i + 1);
    assert(here.drop_first() =~= after);
    assert(here[0] == w.entries[i]);
    let one: nat = if w.entries[i] is Ok {
        1
    } else {
        0
    };
    assert(fetched_count(here) == one + fetched_count(after));
    // what this move adds to the counts
    if s.phase == Phase::AwaitEntry {
        match w.entries[i] {
            Ok(_) => {
                assert(then.failures == s.failures);
                assert(then.successes == if s.opts.detail {
                    s.successes
                } else {
                    s.successes + 1
                });
            },
            Err(error) => {
                lemma_add_total(s.failures, error, 1);
                assert(then.successes == s.successes);
                assert(then.failures == if s.opts.detail {
                    s.failures
                } else {
                    tally_add(s.failures, error, 1)
                });
            },
        }
    } else {
        assert(then.successes == s.successes);
        assert(then.failures == s.failures);
    }
    // what the moves after it add
    if then.phase == Phase::Finished {
        assert(after =~= Seq::empty());
        assert(fetched_count(after) == 0);
        assert(end_from(w, then) == then);
    } else {
        lemma_counts_from(w, then);
        assert(pending(then) == i + 1);
    }
}

/// From a state under way, a brief run counts each failure that is left
/// under its own kind.
proof fn lemma_kinds_from(w: World, s: ExtractionView, error: Seq<char>)
    requires
        under_way(s),
        w.entries.len() == s.len,
        !s.opts.detail,
        distinct_labels(s.failures),
    ensures
        distinct_labels(end_from(w, s).failures),
        count_of(end_from(w, s).failures, error) == count_of(s.failures, error) + failed_count(
            w.entries.skip(pending(s)),
            error,
        ),
    decreases moves_left(s),
{
    lemma_unfold(w, s);
    lemma_cases(w, s);
    let (then, step) = answered(w, s);
    let i = s.next as int;
    let here = w.entries.skip(i);
    let after = w.entries.skip(i + 1);
    assert(here.drop_first() =~= after);
    assert(here[0] == w.entries[i]);
    let one: nat = if w.entries[i] == Err::<EntryView, Seq<char>>(error) {
        1
    } else {
        0
    };
    assert(failed_count(here, error) == one + failed_count(after, error));
    // what this move adds to the count
    if s.phase == Phase::AwaitEntry {
        match w.entries[i] {
            Ok(_) => {
                assert(then.failures == s.failures);
            },
            Err(kind) => {
                lemma_add_count(s.failures, kind, 1, error);
                assert(then.failures == tally_add(s.failures, kind, 1));
            },
        }
    } else {
        assert(then.failures == s.failures);
    }
    // what the moves after it add
    if then.phase == Phase::Finished {
        assert(after =~= Seq::empty());
        assert(failed_count(after, error) == 0);
        assert(end_from(w, then) == then);
    } else {
        lemma_kinds_from(w, then, error);
        assert(pending(then) == i + 1);
    }
}

/// From a state under way, the last thing that the run reports is its
/// summary.
proof fn lemma_told_from(w: World, s: ExtractionView)
    requires
        under_way(s),
    ensures
        exists|before: Seq<ReportView>|
            told(run_from(w, s)) == before + summary(end_from(w, s)),
    decreases moves_left(s),
{
    lemma_unfold(w, s);
    lemma_cases(w, s);
    let (then, step) = answered(w, s);
    if then.phase == Phase::Finished {
        assert(run_from(w, then) =~= Seq::empty());
        assert(told(run_from(w, then)) =~= Seq::empty());
        assert(end_from(w, s) == then);
        let said = step.reports.take(step.reports.len() - summary(then).len());
        assert(told(run_from(w, s)) =~= step.reports + told(run_from(w, then)));
        assert(told(run_from(w, s)) =~= said + summary(end_from(w, s)));
    } else {
        lemma_told_from(w, then);
        let before = choose|before: Seq<ReportView>|
            told(run_from(w, then)) == before + summary(end_from(w, then));
        assert(told(run_from(w, s)) =~= (step.reports + before) + summary(end_from(w, s)));
    }
}

/// Where every entry is fetched, no failure is counted.
proof fn lemma_no_failures_from(w: World, s: ExtractionView)
    requires
        under_way(s),
        w.entries.len() == s.len,
        forall|i: int| 0 <= i < w.entries.len() ==> (#[trigger] w.entries[i]) is Ok,
    ensures
        end_from(w, s).failures == s.failures,
    decreases moves_left(s),
{
    lemma_unfold(w, s);
    lemma_cases(w, s);
    let (then, step) = answered(w, s);
    assert(w.entries[s.next as int] is Ok);
    if then.phase != Phase::Finished {
        lemma_no_failures_from(w, then);
    }
}

/// Where every entry was fetched, each makes a file, in order.
proof fn lemma_files_of_fetched(
    entries: Seq<Result<EntryView, Seq<char>>>,
    ext: Option<Seq<char>>,
)
    requires
        forall|i: int| 0 <= i < entries.len() ==> (#[trigger] entries[i]) is Ok,
    ensures
        files_of(entries, ext).len() == entries.len(),
        fetched_count(entries) == entries.len(),
        forall|i: int|
            0 <= i < entries.len() ==> (#[trigger] files_of(entries, ext)[i]) == (
                output_name(identifier_of(entries[i]->Ok_0.id), ext),
                entries[i]->Ok_0.data,
            ),
    decreases entries.len(),
{
    if entries.len() > 0 {
        let rest = entries.drop_first();
        assert(entries[0] is Ok);
        assert forall|i: int| 0 <= i < rest.len() implies (#[trigger] rest[i]) is Ok by {
            assert(rest[i] == entries[i + 1]);
        }
        lemma_files_of_fetched(rest, ext);
        assert forall|i: int| 0 <= i < entries.len() implies (#[trigger] files_of(entries, ext)[i])
            == (output_name(identifier_of(entries[i]->Ok_0.id), ext), entries[i]->Ok_0.data) by {
            if i > 0 {
                assert(files_of(entries, ext)[i] == files_of(rest, ext)[i - 1]);
                assert(rest[i - 1] == entries[i]);
            }
        }
    }
}

/// The state in which the first entry is asked for.
pub open spec fn at_first_entry(opts: Opts, ext: Option<Seq<char>>, len: nat) -> ExtractionView {
    ExtractionView {
        opts,
        ext,
        len,
        next: 0,
        successes: 0,
        failures: Seq::empty(),
        phase: Phase::AwaitEntry,
    }
}

/// The moves up to the one that asks for the first entry, in a run that
/// goes through at least one entry: the count of entries is reported, and a
/// run that writes asks for its output directory first.
pub open spec fn opening(opts: Opts, len: nat) -> Seq<StepView> {
    let count = seq![ReportView::Entries { count: len }];
    if opts.explode {
        seq![
            StepView { reports: count, action: ActionView::CreateDir },
            StepView { reports: Seq::empty(), action: ActionView::Fetch { index: 0 } },
        ]
    } else {
        seq![StepView { reports: count, action: ActionView::Fetch { index: 0 } }]
    }
}

/// How a run opens: with the count of entries and, where it writes, with
/// the output directory. Then it ends, or asks for the first entry.
proof fn lemma_opening(w: World, opts: Opts, ext: Option<Seq<char>>, len: nat)
    ensures
        ({
            let steps = run(w, opts, ext, len);
            let count = seq![ReportView::Entries { count: len }];
            let first = at_first_entry(opts, ext, len);
            let over = ExtractionView { phase: Phase::Finished, ..first };
            if !goes_through(w, opts) {
                &&& end_state(w, opts, ext, len) == over
                &&& steps == if opts.explode {
                    seq![
                        StepView { reports: count, action: ActionView::CreateDir },
                        StepView {
                            reports: seq![
                                ReportView::DirFailed {
                                    dir: w.dir->Some_0.dir,
                                    error: w.dir->Some_0.error,
                                },
                            ],
                            action: ActionView::Done,
                        },
                    ]
                } else {
                    seq![StepView { reports: count, action: ActionView::Done }]
                }
            } else if len == 0 {
                &&& end_state(w, opts, ext, len) == over
                &&& steps == if opts.explode {
                    seq![
                        StepView { reports: count, action: ActionView::CreateDir },
                        StepView { reports: Seq::empty(), action: ActionView::Done },
                    ]
                } else {
                    seq![StepView { reports: count, action: ActionView::Done }]
                }
            } else {
                &&& end_state(w, opts, ext, len) == end_from(w, first)
                &&& steps == opening(opts, len) + run_from(w, first)
            }
        }),
{
    let (s0, step0) = begun(opts, ext, len);
    let steps = run(w, opts, ext, len);
    let first = at_first_entry(opts, ext, len);
    let over = ExtractionView { phase: Phase::Finished, ..first };
    let count = seq![ReportView::Entries { count: len }];
    assert(summary(over) =~= Seq::empty());
    if !opts.explode && opts.shallow {
        assert(run_from(w, s0) =~= Seq::empty());
        assert(steps =~= seq![step0]);
    } else if opts.explode {
        lemma_unfold(w, s0);
        let (s1, step1) = answered(w, s0);
        if w.dir is Some || len == 0 {
            assert(run_from(w, s1) =~= Seq::empty());
            assert(steps =~= seq![step0, step1]);
            assert(step1.reports =~= if w.dir is Some {
                seq![
                    ReportView::DirFailed { dir: w.dir->Some_0.dir, error: w.dir->Some_0.error },
                ]
            } else {
                Seq::empty()
            });
        } else {
            assert(s1 == first);
            assert(steps =~= seq![step0, step1] + run_from(w, first));
        }
    } else {
        if len == 0 {
            assert(run_from(w, s0) =~= Seq::empty());
            assert(step0.reports =~= count);
            assert(steps =~= seq![step0]);
        } else {
            assert(s0 == first);
        }
    }
}

/// What two runs of moves ask for, hand out and report, one after the other.
proof fn lemma_concat(a: Seq<StepView>, b: Seq<StepView>)
    ensures
        asked(a + b) == asked(a) + asked(b),
        written(a + b) == written(a) + written(b),
        told(a + b) == told(a) + told(b),
    decreases a.len(),
{
    if a.len() == 0 {
        assert(a + b =~= b);
        assert(asked(a + b) =~= asked(a) + asked(b));
        assert(written(a + b) =~= written(a) + written(b));
        assert(told(a + b) =~= told(a) + told(b));
    } else {
        assert((a + b).drop_first() =~= a.drop_first() + b);
        lemma_concat(a.drop_first(), b);
        assert(asked(a + b) =~= asked(a) + asked(b));
        assert(written(a + b) =~= written(a) + written(b));
        assert(told(a + b) =~= told(a) + told(b));
    }
}

/// What a single move asks for, hands out and reports.
proof fn lemma_single(step: StepView)
    ensures
        asked(seq![step]) == match step.action {
            ActionView::Fetch { index } => seq![index],
            _ => Seq::empty(),
        },
        written(seq![step]) == match step.action {
            ActionView::Write { name, data } => seq![(name, data)],
            _ => Seq::empty(),
        },
        told(seq![step]) == step.reports,
{
    let steps = seq![step];
    assert(steps.drop_first() =~= Seq::empty());
    assert(asked(steps.drop_first()) =~= Seq::empty());
    assert(written(steps.drop_first()) =~= Seq::empty());
    assert(told(steps.drop_first()) =~= Seq::empty());
    assert(asked(steps) =~= match step.action {
        ActionView::Fetch { index } => seq![index],
        _ => Seq::empty(),
    });
    assert(written(steps) =~= match step.action {
        ActionView::Write { name, data } => seq![(name, data)],
        _ => Seq::empty(),
    });
    assert(told(steps) =~= step.reports);
}

/// What two moves ask for, hand out and report.
proof fn lemma_pair(a: StepView, b: StepView)
    ensures
        asked(seq![a, b]) == asked(seq![a]) + asked(seq![b]),
        written(seq![a, b]) == written(seq![a]) + written(seq![b]),
        told(seq![a, b]) == a.reports + b.reports,
{
    assert(seq![a, b] =~= seq![a] + seq![b]);
    lemma_concat(seq![a], seq![b]);
    lemma_single(a);
    lemma_single(b);
}

/// What the opening moves of any run ask for and hand out.
proof fn lemma_heads(w: World, opts: Opts, len: nat)
    ensures
        ({
            let count = seq![ReportView::Entries { count: len }];
            let dir = StepView { reports: count, action: ActionView::CreateDir };
            let over = StepView { reports: count, action: ActionView::Done };
            let ask = StepView { reports: count, action: ActionView::Fetch { index: 0 } };
            let go = StepView { reports: Seq::empty(), action: ActionView::Fetch { index: 0 } };
            let stop = StepView { reports: Seq::empty(), action: ActionView::Done };
            let fail = StepView {
                reports: seq![
                    ReportView::DirFailed { dir: w.dir->Some_0.dir, error: w.dir->Some_0.error },
                ],
                action: ActionView::Done,
            };
            &&& asked(seq![over]) == Seq::<nat>::empty()
            &&& asked(seq![dir, stop]) == Seq::<nat>::empty()
            &&& asked(seq![dir, fail]) == Seq::<nat>::empty()
            &&& asked(seq![ask]) == seq![0nat]
            &&& asked(seq![dir, go]) == seq![0nat]
            &&& written(seq![over]) == Seq::<(Seq<char>, Seq<u8>)>::empty()
            &&& written(seq![dir, stop]) == Seq::<(Seq<char>, Seq<u8>)>::empty()
            &&& written(seq![dir, fail]) == Seq::<(Seq<char>, Seq<u8>)>::empty()
            &&& written(seq![ask]) == Seq::<(Seq<char>, Seq<u8>)>::empty()
            &&& written(seq![dir, go]) == Seq::<(Seq<char>, Seq<u8>)>::empty()
        }),
{
    let count = seq![ReportView::Entries { count: len }];
    let dir = StepView { reports: count, action: ActionView::CreateDir };
    let over = StepView { reports: count, action: ActionView::Done };
    let ask = StepView { reports: count, action: ActionView::Fetch { index: 0 } };
    let go = StepView { reports: Seq::empty(), action: ActionView::Fetch { index: 0 } };
    let stop = StepView { reports: Seq::empty(), action: ActionView::Done };
    let fail = StepView {
        reports: seq![
            ReportView::DirFailed { dir: w.dir->Some_0.dir, error: w.dir->Some_0.error },
        ],
        action: ActionView::Done,
    };
    lemma_single(dir);
    lemma_single(over);
    lemma_single(ask);
    lemma_single(go);
    lemma_single(stop);
    lemma_single(fail);
    lemma_pair(dir, stop);
    lemma_pair(dir, fail);
    lemma_pair(dir, go);
}

/// A run ends in a state in which it waits for nothing.
proof fn lemma_end_is_finished(w: World, s: ExtractionView)
    ensures
        end_from(w, s).phase == Phase::Finished,
    decreases moves_left(s),
{
    if s.phase != Phase::Finished {
        lemma_end_is_finished(w, answered(w, s).0);
    }
}

/// A run that is under way ends past the last entry.
proof fn lemma_end_is_past_the_last(w: World, s: ExtractionView)
    requires
        under_way(s),
    ensures
        end_from(w, s).next == s.len,
    decreases moves_left(s),
{
    lemma_unfold(w, s);
    lemma_cases(w, s);
    let then = answered(w, s).0;
    if then.phase != Phase::Finished {
        lemma_end_is_past_the_last(w, then);
    } else {
        assert(end_from(w, then) == then);
    }
}

/// A dry run changes nothing on disk: whatever the listing options are and
/// whatever the archive answers, no move of the run asks for the output
/// directory to be created or for a file to be written.
pub proof fn law_dry_run_touches_nothing(w: World, opts: Opts, ext: Option<Seq<char>>, len: nat)
    requires
        !opts.explode,
    ensures
        forall|k: int|
            0 <= k < run(w, opts, ext, len).len() ==> !touches_disk(
                (#[trigger] run(w, opts, ext, len)[k]).action,
            ),
{
    lemma_opening(w, opts, ext, len);
    let steps = run(w, opts, ext, len);
    if goes_through(w, opts) && len > 0 {
        let first = at_first_entry(opts, ext, len);
        lemma_dry_from(w, first);
        assert forall|k: int| 0 <= k < steps.len() implies !touches_disk(
            (#[trigger] steps[k]).action,
        ) by {
            if k > 0 {
                assert(steps[k] == run_from(w, first)[k - 1]);
            }
        }
    }
}

/// A shallow dry run reports the number of entries and nothing else: it is
/// over with its first move, and asks for no entry.
pub proof fn law_shallow_dry_run_only_counts(
    w: World,
    opts: Opts,
    ext: Option<Seq<char>>,
    len: nat,
)
    requires
        !opts.explode,
        opts.shallow,
    ensures
        run(w, opts, ext, len) == seq![
            StepView {
                reports: seq![ReportView::Entries { count: len }],
                action: ActionView::Done,
            },
        ],
        told(run(w, opts, ext, len)) == seq![ReportView::Entries { count: len }],
{
    lemma_opening(w, opts, ext, len);
    lemma_single(
        StepView { reports: seq![ReportView::Entries { count: len }], action: ActionView::Done },
    );
}

/// A run that goes through the entries asks for every index from zero up to
/// the archive's length, each once and in ascending order; any other run asks
/// for none.
pub proof fn law_asks_each_index_in_order(w: World, opts: Opts, ext: Option<Seq<char>>, len: nat)
    ensures
        asked(run(w, opts, ext, len)) == if goes_through(w, opts) {
            Seq::new(len, |i: int| i as nat)
        } else {
            Seq::empty()
        },
{
    lemma_opening(w, opts, ext, len);
    let steps = run(w, opts, ext, len);
    if goes_through(w, opts) && len > 0 {
        let first = at_first_entry(opts, ext, len);
        let head = opening(opts, len);
        lemma_asked_from(w, first);
        lemma_concat(head, run_from(w, first));
        lemma_heads(w, opts, len);
        assert(asked(head) =~= seq![0nat]);
        assert(asked(steps) =~= Seq::new(len, |i: int| i as nat));
    } else {
        lemma_heads(w, opts, len);
        assert(asked(steps) =~= Seq::<nat>::empty());
    }
}

/// A run that writes, and has its output directory, hands out to be written
/// exactly the entries that were fetched, in the archive's order, each under
/// its output name and with the bytes that were fetched; a failed fetch or a
/// failed write takes nothing from the others. Any other run hands out
/// nothing.
pub proof fn law_writes_what_was_fetched(w: World, opts: Opts, ext: Option<Seq<char>>, len: nat)
    requires
        w.fits(len),
    ensures
        written(run(w, opts, ext, len)) == if opts.explode && w.dir is None {
            files_of(w.entries, ext)
        } else {
            Seq::empty()
        },
{
    lemma_opening(w, opts, ext, len);
    let steps = run(w, opts, ext, len);
    if goes_through(w, opts) && len > 0 {
        let first = at_first_entry(opts, ext, len);
        let head = opening(opts, len);
        lemma_written_from(w, first);
        lemma_concat(head, run_from(w, first));
        lemma_heads(w, opts, len);
        assert(w.entries.skip(0) =~= w.entries);
        assert(written(steps) =~= written(run_from(w, first)));
    } else {
        lemma_heads(w, opts, len);
        if len == 0 {
            assert(files_of(w.entries, ext) =~= Seq::empty());
        }
    }
}

/// Round trip: where the run writes, its output directory is there and every
/// entry is fetched, it hands out as many files as the archive has entries,
/// the file for each index under the name that the extension rule gives and
/// with the bytes fetched at that index. A brief run then counts every entry
/// as a success and no failure, and its last report is that count.
pub proof fn law_round_trip(w: World, opts: Opts, ext: Option<Seq<char>>, len: nat)
    requires
        opts.explode,
        w.dir is None,
        w.fits(len),
        forall|i: int| 0 <= i < len ==> (#[trigger] w.entries[i]) is Ok,
    ensures
        written(run(w, opts, ext, len)).len() == len,
        forall|i: int|
            0 <= i < len ==> (#[trigger] written(run(w, opts, ext, len))[i]) == (
                output_name(identifier_of(w.entries[i]->Ok_0.id), ext),
                w.entries[i]->Ok_0.data,
            ),
        !opts.detail ==> end_state(w, opts, ext, len).successes == len,
        end_state(w, opts, ext, len).failures.len() == 0,
        !opts.detail && len > 0 ==> told(run(w, opts, ext, len)).last() == (ReportView::Success {
            count: len,
        }),
{
    law_writes_what_was_fetched(w, opts, ext, len);
    lemma_files_of_fetched(w.entries, ext);
    law_brief_run_counts(w, opts, ext, len);
    lemma_opening(w, opts, ext, len);
    if len > 0 {
        lemma_no_failures_from(w, at_first_entry(opts, ext, len));
    }
}

/// Failures stay apart: a run that goes through the entries deals with every
/// one of them, whichever of them fail. In a brief run the count of successes
/// is then the number of entries that were fetched, the counts of the
/// failures add up to the number of those that were not, and the run ends by
/// reporting both. A detailed run counts nothing.
pub proof fn law_brief_run_counts(w: World, opts: Opts, ext: Option<Seq<char>>, len: nat)
    requires
        goes_through(w, opts),
        w.fits(len),
    ensures
        ({
            let end = end_state(w, opts, ext, len);
            &&& end.phase == Phase::Finished
            &&& end.next == len
            &&& if opts.detail {
                end.successes == 0 && end.failures.len() == 0
            } else {
                end.successes == fetched_count(w.entries) && tally_total(end.failures) == len
                    - fetched_count(w.entries)
            }
            &&& exists|before: Seq<ReportView>|
                told(run(w, opts, ext, len)) == before + summary(end)
        }),
{
    lemma_opening(w, opts, ext, len);
    let steps = run(w, opts, ext, len);
    let end = end_state(w, opts, ext, len);
    if len > 0 {
        let first = at_first_entry(opts, ext, len);
        let head = opening(opts, len);
        lemma_counts_from(w, first);
        lemma_told_from(w, first);
        lemma_end_is_finished(w, first);
        lemma_end_is_past_the_last(w, first);
        lemma_concat(head, run_from(w, first));
        assert(w.entries.skip(0) =~= w.entries);
        let tail = choose|before: Seq<ReportView>|
            told(run_from(w, first)) == before + summary(end_from(w, first));
        assert(told(steps) =~= (told(head) + tail) + summary(end));
    } else {
        assert(summary(end) =~= Seq::empty());
        assert(told(steps) =~= told(steps) + summary(end));
        assert(fetched_count(w.entries) == 0);
    }
}

/// Failures are counted by kind: at the end of a brief run that goes through
/// the entries, the count under each kind of failure is the number of
/// entries that failed in that way.
pub proof fn law_failures_are_counted_by_kind(
    w: World,
    opts: Opts,
    ext: Option<Seq<char>>,
    len: nat,
    error: Seq<char>,
)
    requires
        goes_through(w, opts),
        w.fits(len),
        !opts.detail,
    ensures
        distinct_labels(end_state(w, opts, ext, len).failures),
        count_of(end_state(w, opts, ext, len).failures, error) == failed_count(w.entries, error),
{
    lemma_opening(w, opts, ext, len);
    if len > 0 {
        let first = at_first_entry(opts, ext, len);
        lemma_kinds_from(w, first, error);
        assert(w.entries.skip(0) =~= w.entries);
        assert(!has_label(first.failures, error));
    } else {
        let end = end_state(w, opts, ext, len);
        assert(!has_label(end.failures, error));
        assert(failed_count(w.entries, error) == 0);
    }
}

} // verus!
