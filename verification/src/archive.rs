//! What the extraction knows of a resource archive: its kind, how an entry is
//! identified, and how the file that an entry is written to is named.

use crate::text::{decimal, pad_left, str_eq, zero_padded};
use vstd::prelude::*;
use vstd::string::StringExecFns;

verus! {

/// The two archive formats that entries are extracted from.
#[derive(Clone, Copy, Debug, PartialEq, Eq, Structural)]
pub enum ArchiveKind {
    /// A `.map` file with the `.idx` file that belongs to it.
    IndexedPair,
    /// A `.nidx` file.
    NonIndexed,
}

/// How an archive identifies one of its entries.
#[derive(Clone, Debug, PartialEq, Eq)]
pub enum EntryId {
    /// The ordinal of an entry of an indexed-pair archive.
    Ordinal(u32),
    /// The key of an entry of a non-indexed archive.
    Key(String),
}

/// The model of an `EntryId`.
pub enum EntryIdView {
    Ordinal(u32),
    Key(Seq<char>),
}

impl View for EntryId {
    type V = EntryIdView;

    open spec fn view(&self) -> EntryIdView {
        match self {
            EntryId::Ordinal(n) => EntryIdView::Ordinal(*n),
            EntryId::Key(k) => EntryIdView::Key(k@),
        }
    }
}

/// The width to which an ordinal is padded with zeros.
pub const ORDINAL_WIDTH: usize = 10;

/// The identifier as text: an ordinal in decimal, with zeros in front up to
/// ten characters; a key as it is.
pub open spec fn identifier_of(id: EntryIdView) -> Seq<char> {
    match id {
        EntryIdView::Ordinal(n) => pad_left(decimal(n as nat), ORDINAL_WIDTH as nat, '0'),
        EntryIdView::Key(k) => k,
    }
}

impl EntryId {
    /// The identifier as text.
    pub fn identifier(&self) -> (text: String)
        ensures
            text@ == identifier_of(self@),
    {
        match self {
            EntryId::Ordinal(n) => zero_padded(*n as usize, ORDINAL_WIDTH),
            EntryId::Key(k) => k.clone(),
        }
    }
}

/// The file extension that the entries of a content group get, by the
/// group's name: `xml` for `contents`, `aac` for `audio`, none for any other.
pub open spec fn ext_hint(group: Seq<char>) -> Option<Seq<char>> {
    if group == "contents"@ {
        Some("xml"@)
    } else if group == "audio"@ {
        Some("aac"@)
    } else {
        None
    }
}

/// The view of an extension that may be absent.
pub open spec fn ext_view(ext: Option<&str>) -> Option<Seq<char>> {
    match ext {
        Some(e) => Some(e@),
        None => None,
    }
}

/// The file extension for the entries of the content group `c_name`.
pub fn derive_ext(c_name: &str) -> (ext: Option<&'static str>)
    ensures
        ext_view(ext) == ext_hint(c_name@),
{
    if str_eq(c_name, "contents") {
        Some("xml")
    } else if str_eq(c_name, "audio") {
        Some("aac")
    } else {
        None
    }
}

/// The name of the file that an entry is written to: the identifier, then a
/// dot and the extension where there is one.
pub open spec fn output_name(identifier: Seq<char>, ext: Option<Seq<char>>) -> Seq<char> {
    match ext {
        Some(e) => identifier + "."@ + e,
        None => identifier,
    }
}

/// The name of the file that the entry `identifier` is written to.
pub fn asset_name(identifier: String, ext: Option<&str>) -> (name: String)
    ensures
        name@ == output_name(identifier@, ext_view(ext)),
{
    match ext {
        Some(e) => {
            let mut name = identifier;
            name.append(".");
            name.append(e);
            name
        },
        None => identifier,
    }
}

} // verus!
