use mkd_scan::classify::{classify, plan_group, scan_group, Toc};
use mkd_scan::listing::{DirItem, ItemKind};
use mkd_scan::report::Report;

fn file(name: &str) -> DirItem {
    let ext = match name.rfind('.') {
        Some(0) | None => None,
        Some(at) => Some(name[at + 1..].to_string()),
    };
    DirItem { name: name.to_string(), kind: ItemKind::File, ext }
}

fn dir(name: &str) -> DirItem {
    DirItem { name: name.to_string(), kind: ItemKind::Dir, ext: None }
}

fn found(group: &str, file: &str) -> Report {
    Report::Found { group: group.to_string(), file: file.to_string() }
}

fn toc(map: &[&str], idx: &[&str], nidx: &[&str], keystore: &[&str]) -> Toc {
    let own = |names: &[&str]| names.iter().map(|n| n.to_string()).collect::<Vec<String>>();
    Toc { map: own(map), idx: own(idx), nidx: own(nidx), keystore: own(keystore) }
}

#[test]
fn role_files_go_into_their_buckets() {
    let items = vec![
        file("contents.map"),
        file("contents.idx"),
        file("index.nidx"),
        file("headword.keystore"),
        file("numeral.keystore"),
    ];
    let c = classify("contents", &items);
    assert_eq!(
        c.toc,
        toc(
            &["contents.map"],
            &["contents.idx"],
            &["index.nidx"],
            &["headword.keystore", "numeral.keystore"]
        )
    );
    assert_eq!(c.counters.len(), 0);
    assert_eq!(
        c.reports,
        vec![
            found("contents", "contents.map"),
            found("contents", "contents.idx"),
            found("contents", "index.nidx"),
            found("contents", "headword.keystore"),
            found("contents", "numeral.keystore"),
        ]
    );
}

#[test]
fn everything_else_is_tallied() {
    let items = vec![
        file("contents-0001.rsc"),
        dir("sub"),
        file("README"),
        file("contents-0002.rsc"),
        file("notes.txt"),
        DirItem { name: "fifo".to_string(), kind: ItemKind::Other, ext: None },
        file("contents-0003.rsc"),
    ];
    let c = classify("contents", &items);
    assert_eq!(c.toc, toc(&[], &[], &[], &[]));
    assert_eq!(c.counters.count("rsc"), 3);
    assert_eq!(c.counters.count("not file"), 2);
    assert_eq!(c.counters.count("no ext"), 1);
    assert_eq!(c.counters.count("txt"), 1);
    assert_eq!(c.counters.len(), 4);
    assert_eq!(
        c.reports,
        vec![Report::Others {
            group: "contents".to_string(),
            tally: "rsc: 3, not file: 2, no ext: 1, txt: 1".to_string(),
        }]
    );
}

#[test]
fn found_files_are_reported_before_the_tally() {
    let items = vec![file("a.rsc"), file("audio.map"), file("b.rsc"), file("audio.idx")];
    let c = classify("audio", &items);
    assert_eq!(
        c.reports,
        vec![
            found("audio", "audio.map"),
            found("audio", "audio.idx"),
            Report::Others { group: "audio".to_string(), tally: "rsc: 2".to_string() },
        ]
    );
    assert_eq!(c.reports[2].render().text, "\t\taudio: rsc: 2");
}

#[test]
fn an_empty_group_reports_nothing() {
    let c = classify("key", &Vec::new());
    assert_eq!(c.toc, toc(&[], &[], &[], &[]));
    assert_eq!(c.counters.len(), 0);
    assert!(c.reports.is_empty());
}

#[test]
fn a_directory_named_like_a_role_file_is_no_role_file() {
    let items = vec![DirItem {
        name: "contents.map".to_string(),
        kind: ItemKind::Dir,
        ext: Some("map".to_string()),
    }];
    let c = classify("contents", &items);
    assert!(c.toc.map.is_empty());
    assert_eq!(c.counters.count("not file"), 1);
}

#[test]
fn extensions_are_told_apart_by_case() {
    let items = vec![file("a.MAP"), file("b.Idx")];
    let c = classify("g", &items);
    assert!(c.toc.map.is_empty());
    assert!(c.toc.idx.is_empty());
    assert_eq!(c.counters.count("MAP"), 1);
    assert_eq!(c.counters.count("Idx"), 1);
}

#[test]
fn one_map_file_opens_the_indexed_pair() {
    let plan = plan_group("contents", toc(&["contents.map"], &["contents.idx"], &[], &[]));
    assert!(plan.indexed_pair);
    assert!(!plan.non_indexed);
    assert!(plan.keystores.is_empty());
    assert_eq!(plan.ext, Some("xml"));
}

#[test]
fn one_map_file_is_enough_without_an_idx_file() {
    let plan = plan_group("contents", toc(&["contents.map"], &[], &[], &[]));
    assert!(plan.indexed_pair);
}

#[test]
fn one_nidx_file_opens_the_non_indexed_archive() {
    let plan = plan_group("audio", toc(&[], &[], &["index.nidx"], &[]));
    assert!(!plan.indexed_pair);
    assert!(plan.non_indexed);
    assert_eq!(plan.ext, Some("aac"));
}

#[test]
fn no_file_of_a_kind_opens_no_archive() {
    let plan = plan_group("audio", toc(&[], &["stray.idx"], &[], &[]));
    assert!(!plan.indexed_pair);
    assert!(!plan.non_indexed);
}

#[test]
fn several_files_of_a_kind_open_no_archive() {
    let plan =
        plan_group("audio", toc(&["a.map", "b.map"], &[], &["x.nidx", "y.nidx", "z.nidx"], &[]));
    assert!(!plan.indexed_pair);
    assert!(!plan.non_indexed);
}

#[test]
fn both_kinds_may_be_opened_in_one_group() {
    let plan = plan_group("mixed", toc(&["a.map"], &[], &["index.nidx"], &[]));
    assert!(plan.indexed_pair);
    assert!(plan.non_indexed);
    assert_eq!(plan.ext, None);
}

#[test]
fn every_keystore_is_opened() {
    let plan = plan_group("key", toc(&[], &[], &[], &["headword.keystore", "numeral.keystore"]));
    assert_eq!(plan.keystores, vec!["headword.keystore", "numeral.keystore"]);
    assert_eq!(plan.ext, None);
}

#[test]
fn classify_then_plan() {
    let items = vec![file("audio.map"), file("audio.idx"), file("audio-0001.rsc")];
    let c = classify("audio", &items);
    let plan = plan_group("audio", c.toc);
    assert!(plan.indexed_pair);
    assert!(!plan.non_indexed);
    assert_eq!(plan.ext, Some("aac"));
}

#[test]
fn a_group_with_one_map_file_is_to_be_opened() {
    let items = vec![file("contents.map"), file("contents.idx"), file("contents-0001.rsc")];
    let scan = scan_group("contents", &items);
    assert!(scan.plan.indexed_pair);
    assert!(!scan.plan.non_indexed);
    assert_eq!(scan.plan.ext, Some("xml"));
    assert_eq!(scan.counters.count("rsc"), 1);
    assert_eq!(scan.reports.len(), 3);
}

#[test]
fn a_group_with_two_map_files_is_left_alone() {
    let items = vec![file("a.map"), file("b.map"), file("index.nidx"), file("other.nidx")];
    let scan = scan_group("audio", &items);
    assert!(!scan.plan.indexed_pair);
    assert!(!scan.plan.non_indexed);
    assert!(scan.plan.keystores.is_empty());
}

#[test]
fn a_group_without_archive_files_is_left_alone() {
    let items = vec![file("headword.keystore"), dir("old")];
    let scan = scan_group("key", &items);
    assert!(!scan.plan.indexed_pair);
    assert!(!scan.plan.non_indexed);
    assert_eq!(scan.plan.keystores, vec!["headword.keystore"]);
    assert_eq!(scan.plan.ext, None);
    assert_eq!(scan.counters.to_string(), "not file: 1");
}

#[test]
fn every_item_is_in_a_bucket_or_in_the_tally() {
    let items = vec![
        file("a.map"),
        file("b.map"),
        file("a.idx"),
        file("index.nidx"),
        file("k.keystore"),
        file("0001.rsc"),
        file("0002.rsc"),
        file("LICENSE"),
        dir("backup"),
    ];
    let c = classify("contents", &items);
    let bucketed = c.toc.map.len() + c.toc.idx.len() + c.toc.nidx.len() + c.toc.keystore.len();
    let tallied: isize = c.counters.entries().iter().map(|e| e.1).sum();
    assert_eq!(bucketed, 5);
    assert_eq!(tallied, 4);
    assert_eq!(bucketed + tallied as usize, items.len());
}
