//! What a scan has to say, as values: one `Report` for each thing that is
//! worth telling the user, and the line of text that each of them becomes.

use crate::archive::ArchiveKind;
use crate::text::{decimal, decimal_string};
use vstd::prelude::*;
use vstd::string::StringExecFns;

verus! {

/// Where a line goes.
#[derive(Clone, Copy, Debug, PartialEq, Eq, Structural)]
pub enum Stream {
    /// The ordinary output.
    Stdout,
    /// The output for failures.
    Stderr,
}

/// One line of text and the stream it is meant for.
#[derive(Clone, Debug, PartialEq, Eq)]
pub struct Line {
    pub stream: Stream,
    pub text: String,
}

/// The model of a `Line`.
pub struct LineView {
    pub stream: Stream,
    pub text: Seq<char>,
}

impl View for Line {
    type V = LineView;

    open spec fn view(&self) -> LineView {
        LineView { stream: self.stream, text: self.text@ }
    }
}

/// Something that happened during a scan or an extraction.
#[derive(Clone, Debug, PartialEq, Eq)]
pub enum Report {
    /// A dictionary directory holds `count` manifest files where one is expected.
    ManifestCount { count: usize, dir: String },
    /// A dictionary product was read.
    Product { title: String, dir: String, version: String },
    /// One content entry of a product is about to be visited.
    Content { title: String, dir: String, version: String },
    /// A file with a role-bearing extension was found in a content group.
    Found { group: String, file: String },
    /// The tally of everything else in a content group.
    Others { group: String, tally: String },
    /// An archive was opened.
    Opened { kind: ArchiveKind },
    /// An archive could not be opened.
    OpenFailed { kind: ArchiveKind, error: String },
    /// A keystore was opened.
    KeystoreOpened { file: String },
    /// A keystore could not be opened.
    KeystoreFailed { file: String, error: String },
    /// The number of entries of an archive.
    Entries { count: usize },
    /// The output name of an entry, in a detailed listing.
    Listed { name: String },
    /// The entry at `index` could not be fetched, in a detailed listing.
    FetchFailed { index: usize, error: String },
    /// The output directory could not be created.
    DirFailed { dir: String, error: String },
    /// An output file could not be created.
    CreateFailed { path: String, error: String },
    /// An output file could not be written.
    WriteFailed { path: String, error: String },
    /// How many entries were fetched, in a brief report.
    Success { count: usize },
    /// The failures by kind, in a brief report.
    Failure { tally: String },
}

/// The model of a `Report`.
pub enum ReportView {
    ManifestCount { count: nat, dir: Seq<char> },
    Product { title: Seq<char>, dir: Seq<char>, version: Seq<char> },
    Content { title: Seq<char>, dir: Seq<char>, version: Seq<char> },
    Found { group: Seq<char>, file: Seq<char> },
    Others { group: Seq<char>, tally: Seq<char> },
    Opened { kind: ArchiveKind },
    OpenFailed { kind: ArchiveKind, error: Seq<char> },
    KeystoreOpened { file: Seq<char> },
    KeystoreFailed { file: Seq<char>, error: Seq<char> },
    Entries { count: nat },
    Listed { name: Seq<char> },
    FetchFailed { index: nat, error: Seq<char> },
    DirFailed { dir: Seq<char>, error: Seq<char> },
    CreateFailed { path: Seq<char>, error: Seq<char> },
    WriteFailed { path: Seq<char>, error: Seq<char> },
    Success { count: nat },
    Failure { tally: Seq<char> },
}

impl View for Report {
    type V = ReportView;

    open spec fn view(&self) -> ReportView {
        match self {
            Report::ManifestCount { count, dir } => ReportView::ManifestCount {
                count: *count as nat,
                dir: dir@,
            },
            Report::Product { title, dir, version } => ReportView::Product {
                title: title@,
                dir: dir@,
                version: version@,
            },
            Report::Content { title, dir, version } => ReportView::Content {
                title: title@,
                dir: dir@,
                version: version@,
            },
            Report::Found { group, file } => ReportView::Found { group: group@, file: file@ },
            Report::Others { group, tally } => ReportView::Others { group: group@, tally: tally@ },
            Report::Opened { kind } => ReportView::Opened { kind: *kind },
            Report::OpenFailed { kind, error } => ReportView::OpenFailed {
                kind: *kind,
                error: error@,
            },
            Report::KeystoreOpened { file } => ReportView::KeystoreOpened { file: file@ },
            Report::KeystoreFailed { file, error } => ReportView::KeystoreFailed {
                file: file@,
                error: error@,
            },
            Report::Entries { count } => ReportView::Entries { count: *count as nat },
            Report::Listed { name } => ReportView::Listed { name: name@ },
            Report::FetchFailed { index, error } => ReportView::FetchFailed {
                index: *index as nat,
                error: error@,
            },
            Report::DirFailed { dir, error } => ReportView::DirFailed { dir: dir@, error: error@ },
            Report::CreateFailed { path, error } => ReportView::CreateFailed {
                path: path@,
                error: error@,
            },
            Report::WriteFailed { path, error } => ReportView::WriteFailed {
                path: path@,
                error: error@,
            },
            Report::Success { count } => ReportView::Success { count: *count as nat },
            Report::Failure { tally } => ReportView::Failure { tally: tally@ },
        }
    }
}

impl DeepView for Report {
    type V = ReportView;

    open spec fn deep_view(&self) -> ReportView {
        self@
    }
}

/// How an archive kind is named in a line.
pub open spec fn kind_name(kind: ArchiveKind) -> Seq<char> {
    match kind {
        ArchiveKind::IndexedPair => "rsc(map|idx)"@,
        ArchiveKind::NonIndexed => "nrsc(nidx)"@,
    }
}

/// A title, the directory in square brackets and the version in round ones.
pub open spec fn titled(title: Seq<char>, dir: Seq<char>, version: Seq<char>) -> Seq<char> {
    title + " ["@ + dir + "("@ + version + ")]"@
}

/// The stream of the line that a report becomes: failures go to `Stderr`.
pub open spec fn stream_of(r: ReportView) -> Stream {
    match r {
        ReportView::OpenFailed { .. } => Stream::Stderr,
        ReportView::KeystoreFailed { .. } => Stream::Stderr,
        ReportView::FetchFailed { .. } => Stream::Stderr,
        ReportView::DirFailed { .. } => Stream::Stderr,
        ReportView::CreateFailed { .. } => Stream::Stderr,
        ReportView::WriteFailed { .. } => Stream::Stderr,
        _ => Stream::Stdout,
    }
}

/// The text of the line that a report becomes.
pub open spec fn text_of(r: ReportView) -> Seq<char> {
    match r {
        ReportView::ManifestCount { count, dir } => decimal(count) + " JSON file in "@ + dir
            + ", which is unexpected"@,
        ReportView::Product { title, dir, version } => titled(title, dir, version),
        ReportView::Content { title, dir, version } => "\t"@ + titled(title, dir, version),
        ReportView::Found { group, file } => "\t\t"@ + group + ": "@ + file,
        ReportView::Others { group, tally } => "\t\t"@ + group + ": "@ + tally,
        ReportView::Opened { kind } => "\t\t\tinitialized "@ + kind_name(kind),
        ReportView::OpenFailed { kind, error } => "failed to parse "@ + kind_name(kind) + ": "@
            + error,
        ReportView::KeystoreOpened { file } => "\t\t\tinitialized keystore from "@ + file,
        ReportView::KeystoreFailed { file, error } => "failed to parse keystore from "@ + file
            + ": "@ + error,
        ReportView::Entries { count } => "\t\t\t"@ + decimal(count) + " entries"@,
        ReportView::Listed { name } => "\t\t\t"@ + name,
        ReportView::FetchFailed { index, error } => "failed to get resource "@ + decimal(index)
            + ": "@ + error,
        ReportView::DirFailed { dir, error } => "failed to create dir "@ + dir + ": "@ + error,
        ReportView::CreateFailed { path, error } => "failed to create file "@ + path + ": "@
            + error,
        ReportView::WriteFailed { path, error } => "error writing file "@ + path + ": "@ + error,
        ReportView::Success { count } => "\t\t\tsuccess: "@ + decimal(count),
        ReportView::Failure { tally } => "\t\t\tfailure: "@ + tally,
    }
}

fn kind_str(kind: ArchiveKind) -> (r: &'static str)
    ensures
        r@ == kind_name(kind),
{
    match kind {
        ArchiveKind::IndexedPair => "rsc(map|idx)",
        ArchiveKind::NonIndexed => "nrsc(nidx)",
    }
}

fn titled_string(title: &str, dir: &str, version: &str) -> (r: String)
    ensures
        r@ == titled(title@, dir@, version@),
{
    let mut r = String::from_str(title);
    r.append(" [");
    r.append(dir);
    r.append("(");
    r.append(version);
    r.append(")]");
    assert(r@ =~= titled(title@, dir@, version@));
    r
}

/// `head`, `a`, `mid` and `b` one after the other.
fn spliced(head: &str, a: &str, mid: &str, b: &str) -> (r: String)
    ensures
        r@ == head@ + a@ + mid@ + b@,
{
    let mut r = String::from_str(head);
    r.append(a);
    r.append(mid);
    r.append(b);
    r
}

impl Report {
    /// The line of text for this report.
    pub fn render(&self) -> (line: Line)
        ensures
            line@.stream == stream_of(self@),
            line@.text == text_of(self@),
    {
        match self {
            Report::ManifestCount { count, dir } => {
                let mut text = decimal_string(*count);
                text.append(" JSON file in ");
                text.append(dir.as_str());
                text.append(", which is unexpected");
                Line { stream: Stream::Stdout, text }
            },
            Report::Product { title, dir, version } => {
                let text = titled_string(title.as_str(), dir.as_str(), version.as_str());
                Line { stream: Stream::Stdout, text }
            },
            Report::Content { title, dir, version } => {
                let body = titled_string(title.as_str(), dir.as_str(), version.as_str());
                let mut text = String::from_str("\t");
                text.append(body.as_str());
                Line { stream: Stream::Stdout, text }
            },
            Report::Found { group, file } => {
                let text = spliced("\t\t", group.as_str(), ": ", file.as_str());
                Line { stream: Stream::Stdout, text }
            },
            Report::Others { group, tally } => {
                let text = spliced("\t\t", group.as_str(), ": ", tally.as_str());
                Line { stream: Stream::Stdout, text }
            },
            Report::Opened { kind } => {
                let mut text = String::from_str("\t\t\tinitialized ");
                text.append(kind_str(*kind));
                Line { stream: Stream::Stdout, text }
            },
            Report::OpenFailed { kind, error } => {
                let text = spliced("failed to parse ", kind_str(*kind), ": ", error.as_str());
                Line { stream: Stream::Stderr, text }
            },
            Report::KeystoreOpened { file } => {
                let mut text = String::from_str("\t\t\tinitialized keystore from ");
                text.append(file.as_str());
                Line { stream: Stream::Stdout, text }
            },
            Report::KeystoreFailed { file, error } => {
                let text = spliced(
                    "failed to parse keystore from ",
                    file.as_str(),
                    ": ",
                    error.as_str(),
                );
                Line { stream: Stream::Stderr, text }
            },
            Report::Entries { count } => {
                let n = decimal_string(*count);
                let mut text = String::from_str("\t\t\t");
                text.append(n.as_str());
                text.append(" entries");
                Line { stream: Stream::Stdout, text }
            },
            Report::Listed { name } => {
                let mut text = String::from_str("\t\t\t");
                text.append(name.as_str());
                Line { stream: Stream::Stdout, text }
            },
            Report::FetchFailed { index, error } => {
                let n = decimal_string(*index);
                let text = spliced("failed to get resource ", n.as_str(), ": ", error.as_str());
                Line { stream: Stream::Stderr, text }
            },
            Report::DirFailed { dir, error } => {
                let text = spliced("failed to create dir ", dir.as_str(), ": ", error.as_str());
                Line { stream: Stream::Stderr, text }
            },
            Report::CreateFailed { path, error } => {
                let text = spliced("failed to create file ", path.as_str(), ": ", error.as_str());
                Line { stream: Stream::Stderr, text }
            },
            Report::WriteFailed { path, error } => {
                let text = spliced("error writing file ", path.as_str(), ": ", error.as_str());
                Line { stream: Stream::Stderr, text }
            },
            Report::Success { count } => {
                let n = decimal_string(*count);
                let mut text = String::from_str("\t\t\tsuccess: ");
                text.append(n.as_str());
                Line { stream: Stream::Stdout, text }
            },
            Report::Failure { tally } => {
                let mut text = String::from_str("\t\t\tfailure: ");
                text.append(tally.as_str());
                Line { stream: Stream::Stdout, text }
            },
        }
    }
}

} // verus!
