//! The filter predicate: which tasks a search string selects.

use crate::text::{chars_of, contains_chars, is_substring, piece_views, split_chars, split_spaces};
use crate::tree::{flatten, Tree};
use vstd::prelude::*;

verus! {

/// Some piece of the search string occurs in the label.
pub open spec fn label_matches(label: Seq<char>, search: Seq<char>) -> bool {
    exists|j: int|
        0 <= j < split_spaces(search).len() && is_substring(
            #[trigger] split_spaces(search)[j],
            label,
        )
}

/// The search selects a node when some piece of the search string occurs in
/// its label or the search selects one of its children.
pub open spec fn matches_search<P>(t: Tree<P>, search: Seq<char>) -> bool
    decreases t,
{
    label_matches(t.label, search) || exists|i: int|
        0 <= i < t.children.len() && matches_search(#[trigger] t.children[i], search)
}

/// The test that `matches_search` applies to each root.
pub open spec fn search_pred<P>(search: Seq<char>) -> spec_fn(Tree<P>) -> bool {
    |t: Tree<P>| matches_search(t, search)
}

/// The roots that are shown under a search: all of them when the search
/// string is empty, otherwise those that the search selects.
pub open spec fn shown_roots<P>(forest: Seq<Tree<P>>, search: Seq<char>) -> Seq<Tree<P>> {
    if search.len() == 0 {
        forest
    } else {
        forest.filter(search_pred(search))
    }
}

/// The ids a selection moves over: the roots that are shown and everything
/// below them, flattened.
pub open spec fn navigable_ids<P>(forest: Seq<Tree<P>>, search: Seq<char>) -> Seq<u128> {
    flatten(shown_roots(forest, search))
}

/// Whether some piece of `search` occurs in `label`.
pub fn label_is_target(label: &str, search: &str) -> (hit: bool)
    ensures
        hit == label_matches(label@, search@),
{
    let hay = chars_of(label);
    let sought = chars_of(search);
    let pieces = split_chars(&sought);
    let ghost parts = split_spaces(search@);
    let mut i: usize = 0;
    while i < pieces.len()
        invariant
            i <= pieces.len(),
            hay@ == label@,
            parts == split_spaces(search@),
            piece_views(pieces@) == parts,
            forall|j: int| 0 <= j < i ==> !is_substring(#[trigger] parts[j], label@),
        decreases pieces.len() - i,
    {
        assert(parts[i as int] == pieces@[i as int]@);
        if contains_chars(&hay, &pieces[i]) {
            return true;
        }
        i += 1;
    }
    false
}

} // verus!
