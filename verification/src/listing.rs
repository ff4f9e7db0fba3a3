//! A directory listing as plain values, and the selections that a scan makes
//! from one.

use crate::text::str_eq;
use vstd::prelude::*;

verus! {

/// What kind of thing a directory entry is, links followed.
#[derive(Clone, Copy, Debug, PartialEq, Eq, Structural)]
pub enum ItemKind {
    /// A regular file.
    File,
    /// A directory.
    Dir,
    /// Anything else.
    Other,
}

/// One entry of a directory listing.
#[derive(Clone, Debug, PartialEq, Eq)]
pub struct DirItem {
    /// The entry's file name, without the directory.
    pub name: String,
    pub kind: ItemKind,
    /// The extension of `name`, without the dot, if it has one.
    pub ext: Option<String>,
}

/// The model of a `DirItem`.
pub struct DirItemView {
    pub name: Seq<char>,
    pub kind: ItemKind,
    pub ext: Option<Seq<char>>,
}

impl View for DirItem {
    type V = DirItemView;

    open spec fn view(&self) -> DirItemView {
        DirItemView {
            name: self.name@,
            kind: self.kind,
            ext: match self.ext {
                Some(e) => Some(e@),
                None => None,
            },
        }
    }
}

impl DeepView for DirItem {
    type V = DirItemView;

    open spec fn deep_view(&self) -> DirItemView {
        self@
    }
}

/// One more item is looked at: what `filter_map` gives for the first `i + 1`
/// items, from what it gives for the first `i`.
pub proof fn lemma_filter_map_step<A, B>(s: Seq<A>, f: spec_fn(A) -> Option<B>, i: int)
    requires
        0 <= i < s.len(),
    ensures
        s.take(i + 1).filter_map(f) == match f(s[i]) {
            Some(b) => s.take(i).filter_map(f).push(b),
            None => s.take(i).filter_map(f),
        },
{
    assert(s.take(i + 1).drop_last() =~= s.take(i));
    assert(s.take(i + 1).last() == s[i]);
    match f(s[i]) {
        Some(b) => {
            assert(s.take(i).filter_map(f) + seq![b] =~= s.take(i).filter_map(f).push(b));
        },
        None => {},
    }
}

/// `filter_map` gives at most one value for each item.
pub proof fn lemma_filter_map_len<A, B>(s: Seq<A>, f: spec_fn(A) -> Option<B>)
    ensures
        s.filter_map(f).len() <= s.len(),
    decreases s.len(),
{
    if s.len() > 0 {
        lemma_filter_map_len(s.drop_last(), f);
    }
}

/// Picks the name of a directory.
pub open spec fn dir_name() -> spec_fn(DirItemView) -> Option<Seq<char>> {
    |it: DirItemView|
        if it.kind == ItemKind::Dir {
            Some(it.name)
        } else {
            None
        }
}

/// The names of the directories among the items, in listing order.
pub open spec fn directory_names(items: Seq<DirItemView>) -> Seq<Seq<char>> {
    items.filter_map(dir_name())
}

/// Whether the item is a regular file whose extension is `ext`.
pub open spec fn has_ext(it: DirItemView, ext: Seq<char>) -> bool {
    it.kind == ItemKind::File && it.ext == Some(ext)
}

/// Picks the name of a regular file with the extension `ext`.
pub open spec fn name_with_ext(ext: Seq<char>) -> spec_fn(DirItemView) -> Option<Seq<char>> {
    |it: DirItemView|
        if has_ext(it, ext) {
            Some(it.name)
        } else {
            None
        }
}

/// The names of the regular files with the extension `ext`, in listing order.
pub open spec fn files_with_ext(items: Seq<DirItemView>, ext: Seq<char>) -> Seq<Seq<char>> {
    items.filter_map(name_with_ext(ext))
}

impl DirItem {
    /// Whether this is a regular file whose extension is `ext`.
    pub fn is_file_with_ext(&self, ext: &str) -> (yes: bool)
        ensures
            yes == has_ext(self@, ext@),
    {
        match self.kind {
            ItemKind::File => match &self.ext {
                Some(e) => str_eq(e.as_str(), ext),
                None => false,
            },
            _ => false,
        }
    }
}

/// The sub-directories of a listed directory, by name and in listing order.
pub fn sub_directories(items: &Vec<DirItem>) -> (names: Vec<String>)
    ensures
        names.deep_view() == directory_names(items.deep_view()),
{
    let mut names: Vec<String> = Vec::new();
    let mut i: usize = 0;
    while i < items.len()
        invariant
            i <= items.len(),
            names.deep_view() == directory_names(items.deep_view().take(i as int)),
        decreases items.len() - i,
    {
        proof {
            lemma_filter_map_step(items.deep_view(), dir_name(), i as int);
        }
        match items[i].kind {
            ItemKind::Dir => {
                names.push(items[i].name.clone());
                assert(names.deep_view() =~= directory_names(items.deep_view().take(i + 1)));
            },
            _ => {},
        }
        i += 1;
    }
    assert(items.deep_view().take(items.len() as int) =~= items.deep_view());
    names
}

/// The regular files of a listed directory that have the extension `ext`,
/// by name and in listing order.
pub fn find_file_with_ext(items: &Vec<DirItem>, ext: &str) -> (names: Vec<String>)
    ensures
        names.deep_view() == files_with_ext(items.deep_view(), ext@),
{
    let mut names: Vec<String> = Vec::new();
    let mut i: usize = 0;
    while i < items.len()
        invariant
            i <= items.len(),
            names.deep_view() == files_with_ext(items.deep_view().take(i as int), ext@),
        decreases items.len() - i,
    {
        proof {
            lemma_filter_map_step(items.deep_view(), name_with_ext(ext@), i as int);
        }
        if items[i].is_file_with_ext(ext) {
            names.push(items[i].name.clone());
            assert(names.deep_view() =~= files_with_ext(items.deep_view().take(i + 1), ext@));
        }
        i += 1;
    }
    assert(items.deep_view().take(items.len() as int) =~= items.deep_view());
    names
}

} // verus!
