use mkd_scan::archive::EntryId;
use mkd_scan::classify::scan_group;
use mkd_scan::extract::{Action, DirFailure, Entry, Extraction, Opts, Phase, WriteFailure};
use mkd_scan::listing::{DirItem, ItemKind};
use mkd_scan::report::Report;

/// What a run did, as seen from outside.
struct Seen {
    reports: Vec<Report>,
    asked: Vec<usize>,
    files: Vec<(String, Vec<u8>)>,
    dirs: usize,
    end: Extraction,
}

/// Runs the driver against an archive given as a list of answers.
fn drive(
    opts: Opts,
    ext: Option<&str>,
    archive: &[Result<Entry, String>],
    dir: Result<(), DirFailure>,
    failing_writes: &[usize],
) -> Seen {
    let mut step = Extraction::begin(archive.len(), opts, ext);
    let mut reports = Vec::new();
    let mut asked = Vec::new();
    let mut files = Vec::new();
    let mut dirs = 0;
    loop {
        reports.extend(step.reports);
        step = match step.action {
            Action::CreateDir(run) => {
                assert_eq!(run.state().phase(), Phase::AwaitDir);
                dirs += 1;
                run.dir_created(dir.clone())
            }
            Action::Fetch(run) => {
                assert_eq!(run.state().phase(), Phase::AwaitEntry);
                assert_eq!(run.state().position(), run.index());
                asked.push(run.index());
                let answer = archive[run.index()].clone();
                run.fetched(answer)
            }
            Action::Write { run, name, data } => {
                assert_eq!(run.state().phase(), Phase::AwaitWrite);
                let outcome = if failing_writes.contains(&run.state().position()) {
                    Err(WriteFailure::Write {
                        path: format!("out/{}", name),
                        error: "disk full".to_string(),
                    })
                } else {
                    Ok(())
                };
                files.push((name, data));
                run.written(outcome)
            }
            Action::Done(end) => {
                assert_eq!(end.phase(), Phase::Finished);
                return Seen { reports, asked, files, dirs, end };
            }
        };
    }
}

/// The run that waits for an entry.
fn asking(action: Action) -> mkd_scan::extract::AwaitEntry {
    match action {
        Action::Fetch(run) => run,
        other => panic!("no entry is asked for: {:?}", other),
    }
}

fn ordinal(id: u32, data: &[u8]) -> Result<Entry, String> {
    Ok(Entry { id: EntryId::Ordinal(id), data: data.to_vec() })
}

fn keyed(key: &str, data: &[u8]) -> Result<Entry, String> {
    Ok(Entry { id: EntryId::Key(key.to_string()), data: data.to_vec() })
}

fn failed(kind: &str) -> Result<Entry, String> {
    Err(kind.to_string())
}

const DRY: Opts = Opts { explode: false, shallow: false, detail: false };
const DRY_DETAIL: Opts = Opts { explode: false, shallow: false, detail: true };
const SHALLOW: Opts = Opts { explode: false, shallow: true, detail: false };
const WRITE: Opts = Opts { explode: true, shallow: false, detail: false };
const WRITE_DETAIL: Opts = Opts { explode: true, shallow: false, detail: true };

fn eight_with_two_failures() -> Vec<Result<Entry, String>> {
    vec![
        ordinal(0, b"a"),
        ordinal(1, b"b"),
        failed("ZlibError"),
        ordinal(3, b"d"),
        ordinal(4, b"e"),
        failed("InvalidIndex"),
        ordinal(6, b"g"),
        ordinal(7, b"h"),
    ]
}

#[test]
fn single_audio_entry_is_written_under_its_padded_name() {
    let file = |name: &str, ext: &str| DirItem {
        name: name.to_string(),
        kind: ItemKind::File,
        ext: Some(ext.to_string()),
    };
    let listing = vec![file("audio.map", "map"), file("audio.idx", "idx")];
    let plan = scan_group("audio", &listing).plan;
    assert!(plan.indexed_pair);
    assert!(!plan.non_indexed);
    let archive = vec![ordinal(7, &[0x01, 0x02])];
    let seen = drive(WRITE, plan.ext, &archive, Ok(()), &[]);
    assert_eq!(seen.dirs, 1);
    assert_eq!(seen.files, vec![("0000000007.aac".to_string(), vec![0x01, 0x02])]);
    assert_eq!(
        seen.reports,
        vec![Report::Entries { count: 1 }, Report::Success { count: 1 }]
    );
}

#[test]
fn dry_run_never_touches_the_disk() {
    for opts in [
        DRY,
        DRY_DETAIL,
        SHALLOW,
        Opts { explode: false, shallow: true, detail: true },
    ] {
        let seen = drive(opts, Some("xml"), &eight_with_two_failures(), Ok(()), &[]);
        assert_eq!(seen.dirs, 0);
        assert!(seen.files.is_empty());
    }
}

#[test]
fn shallow_dry_run_reports_the_count_only() {
    let seen = drive(SHALLOW, Some("xml"), &eight_with_two_failures(), Ok(()), &[]);
    assert_eq!(seen.reports, vec![Report::Entries { count: 8 }]);
    assert!(seen.asked.is_empty());
    assert_eq!(seen.reports[0].render().text, "\t\t\t8 entries");
}

#[test]
fn shallow_has_no_effect_on_a_run_that_writes() {
    let opts = Opts { explode: true, shallow: true, detail: false };
    let archive = vec![ordinal(1, b"x"), ordinal(2, b"y")];
    let seen = drive(opts, None, &archive, Ok(()), &[]);
    assert_eq!(seen.asked, vec![0, 1]);
    assert_eq!(seen.files.len(), 2);
}

#[test]
fn entries_are_asked_for_in_ascending_order_without_gaps() {
    let seen = drive(DRY, None, &eight_with_two_failures(), Ok(()), &[]);
    assert_eq!(seen.asked, vec![0, 1, 2, 3, 4, 5, 6, 7]);
    let seen = drive(WRITE_DETAIL, None, &eight_with_two_failures(), Ok(()), &[3]);
    assert_eq!(seen.asked, vec![0, 1, 2, 3, 4, 5, 6, 7]);
}

#[test]
fn round_trip_writes_every_entry_with_its_bytes() {
    let archive: Vec<Result<Entry, String>> =
        (0..5u32).map(|i| ordinal(i * 10, &[i as u8, 0xff, i as u8])).collect();
    let seen = drive(WRITE, Some("xml"), &archive, Ok(()), &[]);
    assert_eq!(
        seen.files,
        vec![
            ("0000000000.xml".to_string(), vec![0, 0xff, 0]),
            ("0000000010.xml".to_string(), vec![1, 0xff, 1]),
            ("0000000020.xml".to_string(), vec![2, 0xff, 2]),
            ("0000000030.xml".to_string(), vec![3, 0xff, 3]),
            ("0000000040.xml".to_string(), vec![4, 0xff, 4]),
        ]
    );
    assert_eq!(
        seen.reports,
        vec![Report::Entries { count: 5 }, Report::Success { count: 5 }]
    );
    assert_eq!(seen.end.successes(), 5);
    assert_eq!(seen.end.failures().len(), 0);
}

#[test]
fn keyed_entries_keep_their_key_as_name() {
    let archive = vec![keyed("apple_us", b"1"), keyed("apple_uk", b"2")];
    let seen = drive(WRITE, Some("aac"), &archive, Ok(()), &[]);
    assert_eq!(
        seen.files,
        vec![
            ("apple_us.aac".to_string(), b"1".to_vec()),
            ("apple_uk.aac".to_string(), b"2".to_vec()),
        ]
    );
}

#[test]
fn without_a_hint_the_name_is_the_bare_identifier() {
    let archive = vec![ordinal(12, b"k"), keyed("raw", b"r")];
    let seen = drive(WRITE, None, &archive, Ok(()), &[]);
    assert_eq!(
        seen.files,
        vec![("0000000012".to_string(), b"k".to_vec()), ("raw".to_string(), b"r".to_vec())]
    );
}

#[test]
fn failures_at_two_and_five_leave_the_others_alone() {
    let seen = drive(WRITE, Some("xml"), &eight_with_two_failures(), Ok(()), &[]);
    assert_eq!(seen.asked.len(), 8);
    let names: Vec<&str> = seen.files.iter().map(|f| f.0.as_str()).collect();
    assert_eq!(
        names,
        vec![
            "0000000000.xml",
            "0000000001.xml",
            "0000000003.xml",
            "0000000004.xml",
            "0000000006.xml",
            "0000000007.xml",
        ]
    );
    assert_eq!(seen.end.successes(), 6);
    let failures = seen.end.failures();
    assert_eq!(failures.count("ZlibError"), 1);
    assert_eq!(failures.count("InvalidIndex"), 1);
    let total: isize = failures.entries().iter().map(|e| e.1).sum();
    assert_eq!(total, 2);
    assert_eq!(
        seen.reports,
        vec![
            Report::Entries { count: 8 },
            Report::Success { count: 6 },
            Report::Failure { tally: "ZlibError: 1, InvalidIndex: 1".to_string() },
        ]
    );
}

#[test]
fn failures_of_one_kind_are_counted_together() {
    let archive = vec![
        failed("IOError"),
        ordinal(1, b""),
        failed("ZlibError"),
        failed("IOError"),
        failed("IOError"),
    ];
    let seen = drive(DRY, None, &archive, Ok(()), &[]);
    assert_eq!(
        seen.reports,
        vec![
            Report::Entries { count: 5 },
            Report::Success { count: 1 },
            Report::Failure { tally: "IOError: 3, ZlibError: 1".to_string() },
        ]
    );
    assert_eq!(seen.reports[2].render().text, "\t\t\tfailure: IOError: 3, ZlibError: 1");
}

#[test]
fn only_failures_report_no_success_count() {
    let archive = vec![failed("IOError"), failed("IOError")];
    let seen = drive(WRITE, None, &archive, Ok(()), &[]);
    assert!(seen.files.is_empty());
    assert_eq!(
        seen.reports,
        vec![Report::Entries { count: 2 }, Report::Failure { tally: "IOError: 2".to_string() }]
    );
}

#[test]
fn detailed_run_lists_names_and_failures_and_no_summary() {
    let archive = vec![ordinal(1, b"a"), failed("ZlibError"), keyed("k", b"b")];
    let seen = drive(DRY_DETAIL, Some("xml"), &archive, Ok(()), &[]);
    assert_eq!(
        seen.reports,
        vec![
            Report::Entries { count: 3 },
            Report::Listed { name: "0000000001.xml".to_string() },
            Report::FetchFailed { index: 1, error: "ZlibError".to_string() },
            Report::Listed { name: "k.xml".to_string() },
        ]
    );
    assert_eq!(seen.end.successes(), 0);
    assert_eq!(seen.end.failures().len(), 0);
    assert_eq!(seen.reports[2].render().text, "failed to get resource 1: ZlibError");
}

#[test]
fn detailed_run_that_writes_lists_each_name_before_writing() {
    let archive = vec![ordinal(1, b"a"), ordinal(2, b"b")];
    let step = Extraction::begin(2, WRITE_DETAIL, Some("aac"));
    assert_eq!(step.reports, vec![Report::Entries { count: 2 }]);
    let step = match step.action {
        Action::CreateDir(run) => run.dir_created(Ok(())),
        other => panic!("the directory comes first: {:?}", other),
    };
    assert!(step.reports.is_empty());
    let run = asking(step.action);
    assert_eq!(run.index(), 0);
    let step = run.fetched(archive[0].clone());
    assert_eq!(step.reports, vec![Report::Listed { name: "0000000001.aac".to_string() }]);
    let step = match step.action {
        Action::Write { run, name, data } => {
            assert_eq!(name, "0000000001.aac");
            assert_eq!(data, b"a".to_vec());
            run.written(Ok(()))
        }
        other => panic!("the entry is to be written: {:?}", other),
    };
    assert!(step.reports.is_empty());
    let run = asking(step.action);
    assert_eq!(run.index(), 1);
    let step = run.fetched(archive[1].clone());
    assert_eq!(step.reports, vec![Report::Listed { name: "0000000002.aac".to_string() }]);
    let step = match step.action {
        Action::Write { run, .. } => run.written(Ok(())),
        other => panic!("the entry is to be written: {:?}", other),
    };
    assert!(step.reports.is_empty());
    match step.action {
        Action::Done(end) => {
            assert_eq!(end.phase(), Phase::Finished);
            assert_eq!(end.position(), 2);
            assert_eq!(end.len(), 2);
        }
        other => panic!("the run is over: {:?}", other),
    }
}

#[test]
fn a_directory_that_cannot_be_created_ends_the_run() {
    let failure =
        DirFailure { dir: "out/a/audio".to_string(), error: "Permission denied".to_string() };
    let seen = drive(WRITE, Some("aac"), &eight_with_two_failures(), Err(failure), &[]);
    assert_eq!(seen.dirs, 1);
    assert!(seen.asked.is_empty());
    assert!(seen.files.is_empty());
    assert_eq!(
        seen.reports,
        vec![
            Report::Entries { count: 8 },
            Report::DirFailed {
                dir: "out/a/audio".to_string(),
                error: "Permission denied".to_string(),
            },
        ]
    );
}

#[test]
fn a_failed_write_is_reported_and_the_run_goes_on() {
    let archive = vec![ordinal(1, b"a"), ordinal(2, b"b"), ordinal(3, b"c")];
    let seen = drive(WRITE, None, &archive, Ok(()), &[1]);
    assert_eq!(seen.asked, vec![0, 1, 2]);
    assert_eq!(seen.files.len(), 3);
    assert_eq!(
        seen.reports,
        vec![
            Report::Entries { count: 3 },
            Report::WriteFailed {
                path: "out/0000000002".to_string(),
                error: "disk full".to_string(),
            },
            Report::Success { count: 3 },
        ]
    );
}

#[test]
fn a_failed_write_of_the_last_entry_comes_before_the_summary() {
    let step = Extraction::begin(1, WRITE, None);
    let step = match step.action {
        Action::CreateDir(run) => run.dir_created(Ok(())),
        other => panic!("the directory comes first: {:?}", other),
    };
    let step = asking(step.action).fetched(ordinal(9, b"z"));
    let step = match step.action {
        Action::Write { run, .. } => run.written(Err(WriteFailure::Create {
            path: "out/0000000009".to_string(),
            error: "read-only".to_string(),
        })),
        other => panic!("the entry is to be written: {:?}", other),
    };
    assert_eq!(
        step.reports,
        vec![
            Report::CreateFailed {
                path: "out/0000000009".to_string(),
                error: "read-only".to_string(),
            },
            Report::Success { count: 1 },
        ]
    );
    assert!(matches!(step.action, Action::Done(_)));
}

#[test]
fn an_empty_archive_is_over_at_once() {
    let seen = drive(DRY, Some("xml"), &[], Ok(()), &[]);
    assert_eq!(seen.reports, vec![Report::Entries { count: 0 }]);
    assert!(seen.asked.is_empty());
}

#[test]
fn an_empty_archive_still_gets_its_directory_when_writing() {
    let seen = drive(WRITE, Some("xml"), &[], Ok(()), &[]);
    assert_eq!(seen.dirs, 1);
    assert_eq!(seen.reports, vec![Report::Entries { count: 0 }]);
    assert!(seen.files.is_empty());
}

#[test]
fn the_brief_counts_are_kept_while_the_run_is_under_way() {
    let step = Extraction::begin(3, DRY, None);
    let run = asking(step.action);
    assert_eq!(run.index(), 0);
    let run = asking(run.fetched(failed("NotFound")).action);
    assert_eq!(run.index(), 1);
    assert_eq!(run.state().successes(), 0);
    assert_eq!(run.state().failures().count("NotFound"), 1);
    let run = asking(run.fetched(ordinal(4, b"")).action);
    assert_eq!(run.index(), 2);
    assert_eq!(run.state().successes(), 1);
    assert_eq!(run.state().failures().to_string(), "NotFound: 1");
}
