//! A dictionary product as its manifest describes it, and what a scan does
//! with one dictionary directory.

use crate::report::{Report, ReportView};
use crate::text::{join, joined, str_eq};
use vstd::prelude::*;
use vstd::string::StringExecFns;

verus! {

/// One content entry of a product: a sub-collection with a directory of its
/// own.
#[derive(Clone, Debug, PartialEq, Eq)]
pub struct MkdContent {
    /// The title in each language, as pairs of language and text.
    pub title: Vec<(String, String)>,
    pub ver: String,
    /// The name of the entry's directory under the content root.
    pub dir: String,
}

/// A dictionary product.
#[derive(Clone, Debug, PartialEq, Eq)]
pub struct MkdProduct {
    /// The title in each language, as pairs of language and text.
    pub title: Vec<(String, String)>,
    pub ver: String,
    pub contents: Vec<MkdContent>,
}

/// The texts of a title, each once, in the order in which they first occur.
pub open spec fn distinct_texts(pairs: Seq<(Seq<char>, Seq<char>)>) -> Seq<Seq<char>>
    decreases pairs.len(),
{
    if pairs.len() == 0 {
        Seq::empty()
    } else {
        let before = distinct_texts(pairs.drop_last());
        if before.contains(pairs.last().1) {
            before
        } else {
            before.push(pairs.last().1)
        }
    }
}

/// A title in all its languages: its distinct texts with ` | ` between them.
pub open spec fn title_text(pairs: Seq<(Seq<char>, Seq<char>)>) -> Seq<char> {
    joined(distinct_texts(pairs), " | "@)
}

fn holds(texts: &Vec<String>, text: &str) -> (yes: bool)
    ensures
        yes == texts.deep_view().contains(text@),
{
    let mut i: usize = 0;
    while i < texts.len()
        invariant
            i <= texts.len(),
            forall|j: int| 0 <= j < i ==> texts.deep_view()[j] != text@,
        decreases texts.len() - i,
    {
        if str_eq(texts[i].as_str(), text) {
            assert(texts.deep_view()[i as int] == text@);
            return true;
        }
        i += 1;
    }
    false
}

/// Formats a title that is given in several languages: the distinct texts,
/// joined by ` | `.
pub fn fmt_ml_str(h: &Vec<(String, String)>) -> (text: String)
    ensures
        text@ == title_text(h.deep_view()),
{
    let mut texts: Vec<String> = Vec::new();
    let mut i: usize = 0;
    while i < h.len()
        invariant
            i <= h.len(),
            texts.deep_view() == distinct_texts(h.deep_view().take(i as int)),
        decreases h.len() - i,
    {
        proof {
            assert(h.deep_view().take(i + 1).drop_last() =~= h.deep_view().take(i as int));
            assert(h.deep_view().take(i + 1).last() == h.deep_view()[i as int]);
        }
        if !holds(&texts, h[i].1.as_str()) {
            texts.push(h[i].1.clone());
            assert(texts.deep_view() =~= distinct_texts(h.deep_view().take(i + 1)));
        }
        i += 1;
    }
    assert(h.deep_view().take(h.len() as int) =~= h.deep_view());
    join(&texts, " | ")
}

/// Picks the manifest of a dictionary directory from the manifest files
/// `found` in its content root `dir`: the one that is there, if it is the
/// only one. With none or several the directory is passed over, and the
/// report says how many there were.
pub fn pick_manifest(dir: &str, found: Vec<String>) -> (picked: Result<String, Report>)
    ensures
        match picked {
            Ok(file) => found@.len() == 1 && file == found@[0],
            Err(report) => found@.len() != 1 && report@ == (ReportView::ManifestCount {
                count: found@.len(),
                dir: dir@,
            }),
        },
{
    let mut found = found;
    if found.len() == 1 {
        Ok(found.remove(0))
    } else {
        Err(Report::ManifestCount { count: found.len(), dir: String::from_str(dir) })
    }
}

/// One content entry to visit: what to report before, and the directory
/// name by which both the input and the output path are extended.
#[derive(Clone, Debug, PartialEq, Eq)]
pub struct Visit {
    pub report: Report,
    pub dir: String,
}

/// What a scan does with a dictionary whose manifest was read.
#[derive(Clone, Debug, PartialEq, Eq)]
pub struct DictPlan {
    /// The report of the product itself.
    pub header: Report,
    /// The content entries, in the manifest's order.
    pub visits: Vec<Visit>,
}

/// The report of the product `p`, found in the directory `dir_name`.
pub open spec fn product_report(dir_name: Seq<char>, p: MkdProduct) -> ReportView {
    ReportView::Product { title: title_text(p.title.deep_view()), dir: dir_name, version: p.ver@ }
}

/// The report of the content entry `c`.
pub open spec fn content_report(c: MkdContent) -> ReportView {
    ReportView::Content { title: title_text(c.title.deep_view()), dir: c.dir@, version: c.ver@ }
}

/// Plans the scan of the dictionary in the directory `dir_name`: the product
/// is reported, then every content entry is visited in order.
pub fn scan_dict(dir_name: &str, product: &MkdProduct) -> (plan: DictPlan)
    ensures
        plan.header@ == product_report(dir_name@, *product),
        plan.visits@.len() == product.contents@.len(),
        forall|i: int|
            0 <= i < plan.visits@.len() ==> (#[trigger] plan.visits@[i]).report@ == content_report(
                product.contents@[i],
            ) && plan.visits@[i].dir@ == product.contents@[i].dir@,
{
    let header = Report::Product {
        title: fmt_ml_str(&product.title),
        dir: String::from_str(dir_name),
        version: product.ver.clone(),
    };
    let mut visits: Vec<Visit> = Vec::new();
    let mut i: usize = 0;
    while i < product.contents.len()
        invariant
            i <= product.contents@.len(),
            visits@.len() == i,
            forall|j: int|
                0 <= j < i ==> (#[trigger] visits@[j]).report@ == content_report(
                    product.contents@[j],
                ) && visits@[j].dir@ == product.contents@[j].dir@,
        decreases product.contents@.len() - i,
    {
        let c = &product.contents[i];
        let report = Report::Content {
            title: fmt_ml_str(&c.title),
            dir: c.dir.clone(),
            version: c.ver.clone(),
        };
        visits.push(Visit { report, dir: c.dir.clone() });
        i += 1;
    }
    DictPlan { header, visits }
}

} // verus!
