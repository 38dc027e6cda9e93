//! The memo record: a note file reduced to its path and its tags.

use crate::text::views;
use vstd::prelude::*;

verus! {

/// What a memo is, as plain sequences: its path and its tags in source order.
pub struct MemoView {
    pub path: Seq<char>,
    pub tags: Seq<Seq<char>>,
}

/// A note file reduced to its path and its tags. Tags keep their source
/// order and may repeat. A memo never changes after it is made.
#[derive(Debug)]
pub struct Memo {
    path: String,
    tags: Vec<String>,
}

impl View for Memo {
    type V = MemoView;

    closed spec fn view(&self) -> MemoView {
        MemoView { path: self.path@, tags: views(self.tags@) }
    }
}

/// The views of a list of memos, element by element.
pub open spec fn memo_views(items: Seq<Memo>) -> Seq<MemoView> {
    items.map_values(|m: Memo| m@)
}

/// A copy of a list of strings.
pub fn copy_strings(list: &Vec<String>) -> (out: Vec<String>)
    ensures
        views(out@) == views(list@),
{
    let mut out: Vec<String> = Vec::new();
    let mut i: usize = 0;
    while i < list.len()
        invariant
            i <= list.len(),
            views(out@) == views(list@.take(i as int)),
        decreases list.len() - i,
    {
        let s = list[i].clone();
        proof {
            assert(list@.take(i + 1) =~= list@.take(i as int).push(list@[i as int]));
            assert(views(out@.push(s)) =~= views(out@).push(s@));
            assert(views(list@.take(i + 1)) =~= views(list@.take(i as int)).push(list@[i as int]@));
        }
        out.push(s);
        i = i + 1;
    }
    assert(list@.take(list.len() as int) =~= list@);
    out
}

impl Memo {
    /// The memo of the note at `path` with the given tags.
    pub fn new(path: String, tags: Vec<String>) -> (memo: Memo)
        ensures
            memo@.path == path@,
            memo@.tags == views(tags@),
    {
        Memo { path, tags }
    }

    /// The path of the note.
    pub fn get_path(&self) -> (path: &String)
        ensures
            path@ == self@.path,
    {
        &self.path
    }

    /// The tags of the note, in source order.
    pub fn get_tags(&self) -> (tags: &Vec<String>)
        ensures
            views(tags@) == self@.tags,
    {
        &self.tags
    }
}

impl Clone for Memo {
    fn clone(&self) -> (copy: Memo)
        ensures
            copy@ == self@,
    {
        Memo { path: self.path.clone(), tags: copy_strings(&self.tags) }
    }
}

/// A copy of a list of memos.
pub fn copy_memos(list: &Vec<Memo>) -> (out: Vec<Memo>)
    ensures
        memo_views(out@) == memo_views(list@),
{
    let mut out: Vec<Memo> = Vec::new();
    let mut i: usize = 0;
    while i < list.len()
        invariant
            i <= list.len(),
            memo_views(out@) == memo_views(list@.take(i as int)),
        decreases list.len() - i,
    {
        let m = list[i].clone();
        proof {
            assert(list@.take(i + 1) =~= list@.take(i as int).push(list@[i as int]));
            assert(memo_views(out@.push(m)) =~= memo_views(out@).push(m@));
            assert(memo_views(list@.take(i + 1)) =~= memo_views(list@.take(i as int)).push(
                list@[i as int]@,
            ));
        }
        out.push(m);
        i = i + 1;
    }
    assert(list@.take(list.len() as int) =~= list@);
    out
}

} // verus!
