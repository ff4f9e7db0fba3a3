//! The file classifier: it sorts the files of one content group into buckets
//! by their role, and tallies everything else.

use crate::archive::{derive_ext, ext_hint, ext_view};
use crate::listing::{
    files_with_ext, lemma_filter_map_len, lemma_filter_map_step, name_with_ext, DirItem,
    DirItemView, ItemKind,
};
use crate::report::{Report, ReportView};
use crate::stats::{
    count_of, distinct_labels, lemma_add_count, lemma_add_total, tally_add, tally_text,
    tally_total, Stats,
};
use crate::text::str_eq;
use vstd::prelude::*;
use vstd::string::StringExecFns;

verus! {

/// The files of one content group that have a role, by extension, each
/// bucket in listing order.
#[derive(Clone, Debug, PartialEq, Eq)]
pub struct Toc {
    /// The `.map` files: the maps of indexed-pair archives.
    pub map: Vec<String>,
    /// The `.idx` files: the indexes of indexed-pair archives.
    pub idx: Vec<String>,
    /// The `.nidx` files: the indexes of non-indexed archives.
    pub nidx: Vec<String>,
    /// The `.keystore` files.
    pub keystore: Vec<String>,
}

/// Whether files with this extension go into a bucket.
pub open spec fn is_role(ext: Seq<char>) -> bool {
    ext == "map"@ || ext == "idx"@ || ext == "nidx"@ || ext == "keystore"@
}

/// Whether the item goes into a bucket.
pub open spec fn in_bucket(it: DirItemView) -> bool {
    it.kind == ItemKind::File && it.ext is Some && is_role(it.ext->0)
}

/// Under which label an item that goes into no bucket is counted: what is no
/// regular file as `not file`, a file without extension as `no ext`, any
/// other file by its extension.
pub open spec fn other_label() -> spec_fn(DirItemView) -> Option<Seq<char>> {
    |it: DirItemView|
        if it.kind != ItemKind::File {
            Some("not file"@)
        } else if it.ext is None {
            Some("no ext"@)
        } else if is_role(it.ext->0) {
            None
        } else {
            it.ext
        }
}

/// The report of a file that goes into a bucket.
pub open spec fn found_in(group: Seq<char>) -> spec_fn(DirItemView) -> Option<ReportView> {
    |it: DirItemView|
        if in_bucket(it) {
            Some(ReportView::Found { group, file: it.name })
        } else {
            None
        }
}

/// The tally of a list of labels, each counted once.
pub open spec fn tallied(labels: Seq<Seq<char>>) -> Seq<(Seq<char>, int)>
    decreases labels.len(),
{
    if labels.len() == 0 {
        Seq::empty()
    } else {
        tally_add(tallied(labels.drop_last()), labels.last(), 1)
    }
}

/// The tally of what went into no bucket.
pub open spec fn others_tally(items: Seq<DirItemView>) -> Seq<(Seq<char>, int)> {
    tallied(items.filter_map(other_label()))
}

/// What a classification reports: each bucketed file as it is found, then
/// the tally of the others, unless that is empty.
pub open spec fn classify_reports(group: Seq<char>, items: Seq<DirItemView>) -> Seq<ReportView> {
    let found = items.filter_map(found_in(group));
    let others = others_tally(items);
    if others.len() > 0 {
        found.push(ReportView::Others { group, tally: tally_text(others) })
    } else {
        found
    }
}

/// The outcome of classifying one content group.
#[derive(Debug, PartialEq, Eq)]
pub struct Classification {
    pub toc: Toc,
    /// The tally of what went into no bucket.
    pub counters: Stats,
    pub reports: Vec<Report>,
}

/// A label counted so far has been counted at most as often as there were
/// labels.
proof fn lemma_tallied_bounds(labels: Seq<Seq<char>>, label: Seq<char>)
    ensures
        distinct_labels(tallied(labels)),
        0 <= count_of(tallied(labels), label) <= labels.len(),
    decreases labels.len(),
{
    if labels.len() > 0 {
        lemma_tallied_bounds(labels.drop_last(), label);
        lemma_add_count(tallied(labels.drop_last()), labels.last(), 1, label);
    }
}

proof fn lemma_roles_differ()
    ensures
        "map"@ != "idx"@,
        "map"@ != "nidx"@,
        "map"@ != "keystore"@,
        "idx"@ != "nidx"@,
        "idx"@ != "keystore"@,
        "nidx"@ != "keystore"@,
{
    reveal_strlit("map");
    reveal_strlit("idx");
    reveal_strlit("nidx");
    reveal_strlit("keystore");
    assert("map"@[0] == 'm');
    assert("idx"@[0] == 'i');
    assert("nidx"@[0] == 'n');
    assert("keystore"@[0] == 'k');
}

/// The counts of a tally of labels add up to the number of labels.
proof fn lemma_tallied_total(labels: Seq<Seq<char>>)
    ensures
        tally_total(tallied(labels)) == labels.len(),
    decreases labels.len(),
{
    if labels.len() > 0 {
        lemma_tallied_total(labels.drop_last());
        lemma_add_total(tallied(labels.drop_last()), labels.last(), 1);
    }
}

/// Every item is accounted for once: it stands in one of the four buckets,
/// or it is counted in the tally of the others.
pub proof fn law_every_item_is_accounted_for(items: Seq<DirItemView>)
    ensures
        files_with_ext(items, "map"@).len() + files_with_ext(items, "idx"@).len() + files_with_ext(
            items,
            "nidx"@,
        ).len() + files_with_ext(items, "keystore"@).len() + tally_total(others_tally(items))
            == items.len(),
    decreases items.len(),
{
    lemma_tallied_total(items.filter_map(other_label()));
    if items.len() > 0 {
        let before = items.drop_last();
        law_every_item_is_accounted_for(before);
        lemma_tallied_total(before.filter_map(other_label()));
        lemma_roles_differ();
        assert(items.take(items.len() - 1) =~= before);
        assert(items.take(items.len() as int) =~= items);
        let i = items.len() - 1;
        lemma_filter_map_step(items, name_with_ext("map"@), i);
        lemma_filter_map_step(items, name_with_ext("idx"@), i);
        lemma_filter_map_step(items, name_with_ext("nidx"@), i);
        lemma_filter_map_step(items, name_with_ext("keystore"@), i);
        lemma_filter_map_step(items, other_label(), i);
    }
}

/// Sorts the items of the content group `group` into buckets and tallies the
/// rest.
pub fn classify(group: &str, items: &Vec<DirItem>) -> (c: Classification)
    requires
        items.len() <= isize::MAX,
    ensures
        c.toc.map.deep_view() == files_with_ext(items.deep_view(), "map"@),
        c.toc.idx.deep_view() == files_with_ext(items.deep_view(), "idx"@),
        c.toc.nidx.deep_view() == files_with_ext(items.deep_view(), "nidx"@),
        c.toc.keystore.deep_view() == files_with_ext(items.deep_view(), "keystore"@),
        c.counters@ == others_tally(items.deep_view()),
        c.reports.deep_view() == classify_reports(group@, items.deep_view()),
{
    let mut map: Vec<String> = Vec::new();
    let mut idx: Vec<String> = Vec::new();
    let mut nidx: Vec<String> = Vec::new();
    let mut keystore: Vec<String> = Vec::new();
    let mut counters = Stats::new();
    let mut reports: Vec<Report> = Vec::new();
    let ghost all = items.deep_view();
    let mut i: usize = 0;
    while i < items.len()
        invariant
            i <= items.len(),
            items.len() <= isize::MAX,
            all == items.deep_view(),
            map.deep_view() == files_with_ext(all.take(i as int), "map"@),
            idx.deep_view() == files_with_ext(all.take(i as int), "idx"@),
            nidx.deep_view() == files_with_ext(all.take(i as int), "nidx"@),
            keystore.deep_view() == files_with_ext(all.take(i as int), "keystore"@),
            counters@ == others_tally(all.take(i as int)),
            reports.deep_view() == all.take(i as int).filter_map(found_in(group@)),
        decreases items.len() - i,
    {
        let it = &items[i];
        let ghost seen = all.take(i as int);
        let ghost labels = seen.filter_map(other_label());
        proof {
            lemma_roles_differ();
            lemma_filter_map_step(all, name_with_ext("map"@), i as int);
            lemma_filter_map_step(all, name_with_ext("idx"@), i as int);
            lemma_filter_map_step(all, name_with_ext("nidx"@), i as int);
            lemma_filter_map_step(all, name_with_ext("keystore"@), i as int);
            lemma_filter_map_step(all, other_label(), i as int);
            lemma_filter_map_step(all, found_in(group@), i as int);
            lemma_filter_map_len(seen, other_label());
            assert(all[i as int] == it@);
        }
        let ghost label = other_label()(it@);
        proof {
            if label is Some {
                lemma_tallied_bounds(labels, label->0);
                assert(labels.push(label->0).drop_last() =~= labels);
            }
        }
        match it.kind {
            ItemKind::File => match &it.ext {
                None => {
                    counters.add("no ext", 1);
                },
                Some(e) => {
                    let e = e.as_str();
                    if str_eq(e, "map") {
                        map.push(it.name.clone());
                        reports.push(
                            Report::Found { group: String::from_str(group), file: it.name.clone() },
                        );
                    } else if str_eq(e, "idx") {
                        idx.push(it.name.clone());
                        reports.push(
                            Report::Found { group: String::from_str(group), file: it.name.clone() },
                        );
                    } else if str_eq(e, "nidx") {
                        nidx.push(it.name.clone());
                        reports.push(
                            Report::Found { group: String::from_str(group), file: it.name.clone() },
                        );
                    } else if str_eq(e, "keystore") {
                        keystore.push(it.name.clone());
                        reports.push(
                            Report::Found { group: String::from_str(group), file: it.name.clone() },
                        );
                    } else {
                        counters.add(e, 1);
                    }
                },
            },
            _ => {
                counters.add("not file", 1);
            },
        }
        proof {
            let next = all.take(i + 1);
            assert(map.deep_view() =~= files_with_ext(next, "map"@));
            assert(idx.deep_view() =~= files_with_ext(next, "idx"@));
            assert(nidx.deep_view() =~= files_with_ext(next, "nidx"@));
            assert(keystore.deep_view() =~= files_with_ext(next, "keystore"@));
            assert(reports.deep_view() =~= next.filter_map(found_in(group@)));
        }
        i += 1;
    }
    assert(all.take(items.len() as int) =~= all);
    if counters.len() > 0 {
        let tally = counters.to_string();
        reports.push(Report::Others { group: String::from_str(group), tally });
    }
    assert(reports.deep_view() =~= classify_reports(group@, all));
    Classification { toc: Toc { map, idx, nidx, keystore }, counters, reports }
}

/// What is to be done with a classified content group.
#[derive(Clone, Debug, PartialEq, Eq)]
pub struct GroupPlan {
    /// Whether the indexed-pair archive of the group is to be opened.
    pub indexed_pair: bool,
    /// Whether the non-indexed archive of the group is to be opened.
    pub non_indexed: bool,
    /// The keystore files to be opened, in listing order.
    pub keystores: Vec<String>,
    /// The extension that extracted entries get.
    pub ext: Option<&'static str>,
}

/// Decides what to open in the content group `group`: an archive of a kind
/// where exactly one file stands for it, each keystore, and nothing else.
pub fn plan_group(group: &str, toc: Toc) -> (plan: GroupPlan)
    ensures
        plan.indexed_pair == (toc.map@.len() == 1),
        plan.non_indexed == (toc.nidx@.len() == 1),
        plan.keystores == toc.keystore,
        ext_view(plan.ext) == ext_hint(group@),
{
    GroupPlan {
        indexed_pair: toc.map.len() == 1,
        non_indexed: toc.nidx.len() == 1,
        keystores: toc.keystore,
        ext: derive_ext(group),
    }
}

/// What a scan finds in one content group, and what it is to open there.
#[derive(Debug, PartialEq, Eq)]
pub struct GroupScan {
    pub reports: Vec<Report>,
    /// The tally of what went into no bucket.
    pub counters: Stats,
    pub plan: GroupPlan,
}

/// Scans the listing of the content group `group`: the files are classified,
/// and an archive of a kind is to be opened where the listing holds exactly
/// one file that stands for that kind, a `.map` file for the indexed pair
/// and a `.nidx` file for the non-indexed archive. With no such file, or
/// with several, no archive of that kind is opened.
pub fn scan_group(group: &str, items: &Vec<DirItem>) -> (scan: GroupScan)
    requires
        items.len() <= isize::MAX,
    ensures
        scan.reports.deep_view() == classify_reports(group@, items.deep_view()),
        scan.counters@ == others_tally(items.deep_view()),
        scan.plan.indexed_pair == (files_with_ext(items.deep_view(), "map"@).len() == 1),
        scan.plan.non_indexed == (files_with_ext(items.deep_view(), "nidx"@).len() == 1),
        scan.plan.keystores.deep_view() == files_with_ext(items.deep_view(), "keystore"@),
        ext_view(scan.plan.ext) == ext_hint(group@),
{
    let Classification { toc, counters, reports } = classify(group, items);
    assert(toc.map@.len() == toc.map.deep_view().len());
    assert(toc.nidx@.len() == toc.nidx.deep_view().len());
    let plan = plan_group(group, toc);
    GroupScan { reports, counters, plan }
}

} // verus!
