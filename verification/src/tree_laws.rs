//! Facts about the forest model: where a node sits in the flattened
//! sequence, and what deleting or changing a node does to that sequence.

use crate::tree::{
    adopt, contains_id, delete, delete_from, detach, detach_from, disjoint, find, find_from,
    first_index, flatten, flatten_from, lemma_first_index, lemma_flatten_concat, lemma_flatten_len,
    lemma_flatten_one, lemma_flatten_suffix, subtree_ids, subtree_size, total_node_count, tree_size,
    unique_ids, update, update_from, with_child, Tree,
};
use vstd::prelude::*;

verus! {

/// An id occurs in a concatenation exactly when it occurs in one of the two
/// parts.
pub proof fn lemma_contains_concat(a: Seq<u128>, b: Seq<u128>, x: u128)
    ensures
        (a + b).contains(x) <==> a.contains(x) || b.contains(x),
{
    if a.contains(x) {
        let i = choose|i: int| 0 <= i < a.len() && a[i] == x;
        assert((a + b)[i] == x);
    }
    if b.contains(x) {
        let i = choose|i: int| 0 <= i < b.len() && b[i] == x;
        assert((a + b)[a.len() + i] == x);
    }
    if (a + b).contains(x) {
        let i = choose|i: int| 0 <= i < (a + b).len() && (a + b)[i] == x;
        if i < a.len() {
            assert(a[i] == x);
        } else {
            assert(b[i - a.len()] == x);
        }
    }
}

/// Nothing occurs twice in a concatenation exactly when nothing occurs twice
/// in either part and the parts share nothing.
pub proof fn lemma_no_duplicates_concat(a: Seq<u128>, b: Seq<u128>)
    ensures
        (a + b).no_duplicates() <==> a.no_duplicates() && b.no_duplicates() && forall|x: u128|
            !(a.contains(x) && b.contains(x)),
{
    let s = a + b;
    if s.no_duplicates() {
        assert forall|i: int, j: int| 0 <= i < a.len() && 0 <= j < a.len() && i != j implies a[i]
            != a[j] by {
            assert(s[i] == a[i] && s[j] == a[j]);
        }
        assert forall|i: int, j: int| 0 <= i < b.len() && 0 <= j < b.len() && i != j implies b[i]
            != b[j] by {
            assert(s[a.len() + i] == b[i] && s[a.len() + j] == b[j]);
        }
        assert forall|x: u128| !(a.contains(x) && b.contains(x)) by {
            if a.contains(x) && b.contains(x) {
                let i = choose|i: int| 0 <= i < a.len() && a[i] == x;
                let j = choose|j: int| 0 <= j < b.len() && b[j] == x;
                assert(s[i] == x && s[a.len() + j] == x);
            }
        }
    }
    if a.no_duplicates() && b.no_duplicates() && forall|x: u128|
        !(a.contains(x) && b.contains(x)) {
        assert forall|i: int, j: int| 0 <= i < s.len() && 0 <= j < s.len() && i != j implies s[i]
            != s[j] by {
            if i < a.len() && j >= a.len() {
                assert(a.contains(s[i]) && b[j - a.len()] == s[j]);
            } else if j < a.len() && i >= a.len() {
                assert(a.contains(s[j]) && b[i - a.len()] == s[i]);
            }
        }
    }
}

/// Sequences stay without common ids when one of them gains only an id
/// that the other does not hold.
pub proof fn lemma_disjoint_grow(a: Seq<u128>, grown: Seq<u128>, b: Seq<u128>, id: u128)
    requires
        disjoint(a, b),
        !b.contains(id),
        forall|x: u128| grown.contains(x) ==> a.contains(x) || x == id,
    ensures
        disjoint(grown, b),
        disjoint(b, grown),
{
    assert forall|x: u128| !(grown.contains(x) && b.contains(x)) by {
        if grown.contains(x) && b.contains(x) {
            assert(a.contains(x) && b.contains(x));
        }
    }
}

/// Sequences stay without common ids when both only lose ids.
pub proof fn lemma_disjoint_shrink(a: Seq<u128>, b: Seq<u128>, less_a: Seq<u128>, less_b: Seq<u128>)
    requires
        disjoint(a, b),
        forall|x: u128| less_a.contains(x) ==> a.contains(x),
        forall|x: u128| less_b.contains(x) ==> b.contains(x),
    ensures
        disjoint(less_a, less_b),
        disjoint(less_b, less_a),
{
    assert forall|x: u128| !(less_a.contains(x) && less_b.contains(x)) by {
        if less_a.contains(x) && less_b.contains(x) {
            assert(a.contains(x) && b.contains(x));
        }
    }
}

/// `first_index` is the only position that holds `x` with no `x` before it.
pub proof fn lemma_first_index_is(s: Seq<u128>, x: u128, q: int)
    requires
        0 <= q <= s.len(),
        forall|i: int| 0 <= i < q ==> s[i] != x,
        q < s.len() ==> s[q] == x,
        q == s.len() ==> !s.contains(x),
    ensures
        first_index(s, x) == q,
{
    lemma_first_index(s, x);
}

/// The first occurrence in a concatenation lies in the first part when the
/// id occurs there, and otherwise where it first occurs in the second.
pub proof fn lemma_first_index_concat(a: Seq<u128>, b: Seq<u128>, x: u128)
    ensures
        first_index(a + b, x) == if a.contains(x) {
            first_index(a, x)
        } else {
            a.len() + first_index(b, x)
        },
{
    lemma_first_index(a, x);
    lemma_first_index(b, x);
    lemma_contains_concat(a, b, x);
    let s = a + b;
    if a.contains(x) {
        let q = first_index(a, x) as int;
        assert(s[q] == x);
        assert forall|i: int| 0 <= i < q implies s[i] != x by {
            assert(s[i] == a[i]);
        }
        lemma_first_index_is(s, x, q);
    } else {
        let q = (a.len() + first_index(b, x)) as int;
        assert forall|i: int| 0 <= i < q implies s[i] != x by {
            if i < a.len() {
                assert(s[i] == a[i]);
            } else {
                assert(s[i] == b[i - a.len()]);
            }
        }
        if q < s.len() {
            assert(s[q] == b[q - a.len()]);
        }
        lemma_first_index_is(s, x, q);
    }
}

/// Where the first occurrence of `id` lies in `head + inner + rest` when
/// `head` is a single other id.
proof fn lemma_first_index_parts(h: u128, inner: Seq<u128>, rest: Seq<u128>, id: u128)
    requires
        h != id,
    ensures
        (seq![h] + inner + rest).contains(id) <==> inner.contains(id) || rest.contains(id),
        first_index(seq![h] + inner + rest, id) == if inner.contains(id) {
            1 + first_index(inner, id)
        } else {
            1 + inner.len() + first_index(rest, id)
        },
{
    let head = seq![h];
    lemma_contains_concat(head, inner, id);
    lemma_contains_concat(head + inner, rest, id);
    lemma_first_index_concat(head, inner, id);
    lemma_first_index_concat(head + inner, rest, id);
    lemma_first_index(head, id);
    assert(head[0] == h);
    assert(!head.contains(id));
}

/// What follows for the parts of `head + inner + rest` when nothing occurs
/// twice in the whole.
proof fn lemma_parts_unique(h: u128, inner: Seq<u128>, rest: Seq<u128>, id: u128)
    requires
        (seq![h] + inner + rest).no_duplicates(),
    ensures
        inner.no_duplicates(),
        rest.no_duplicates(),
        !(inner.contains(id) && rest.contains(id)),
{
    let head = seq![h];
    lemma_no_duplicates_concat(head + inner, rest);
    lemma_no_duplicates_concat(head, inner);
    lemma_contains_concat(head, inner, id);
}

/// Replacing the stretch `m[i..j]` by `x` inside `a + m + b`.
pub proof fn lemma_splice(
    a: Seq<u128>,
    m: Seq<u128>,
    b: Seq<u128>,
    i: int,
    j: int,
    x: Seq<u128>,
)
    requires
        0 <= i <= j <= m.len(),
    ensures
        a + (m.subrange(0, i) + x + m.subrange(j, m.len() as int)) + b == (a + m + b).subrange(
            0,
            a.len() + i,
        ) + x + (a + m + b).subrange(a.len() + j, (a + m + b).len() as int),
{
    let whole = a + m + b;
    let lhs = a + (m.subrange(0, i) + x + m.subrange(j, m.len() as int)) + b;
    let rhs = whole.subrange(0, a.len() + i) + x + whole.subrange(
        a.len() + j,
        whole.len() as int,
    );
    assert(lhs.len() == rhs.len());
    assert forall|q: int| 0 <= q < lhs.len() implies lhs[q] == rhs[q] by {}
    assert(lhs =~= rhs);
}

/// Putting the sequence `ins` into `flat` at position `q` adds the entries
/// of `ins` and no others; nothing occurs twice afterwards exactly when
/// nothing did in either and they share nothing.
pub proof fn lemma_insert_block(flat: Seq<u128>, ins: Seq<u128>, q: int)
    requires
        0 <= q <= flat.len(),
    ensures
        ({
            let out = flat.subrange(0, q) + ins + flat.subrange(q, flat.len() as int);
            &&& forall|x: u128| out.contains(x) <==> flat.contains(x) || ins.contains(x)
            &&& out.no_duplicates() <==> flat.no_duplicates() && ins.no_duplicates() && disjoint(
                flat,
                ins,
            )
        }),
{
    let head = flat.subrange(0, q);
    let tail = flat.subrange(q, flat.len() as int);
    let out = head + ins + tail;
    assert(head + tail =~= flat);
    lemma_no_duplicates_concat(head, tail);
    lemma_no_duplicates_concat(head, ins);
    lemma_no_duplicates_concat(head + ins, tail);
    assert forall|x: u128| out.contains(x) <==> flat.contains(x) || ins.contains(x) by {
        lemma_contains_concat(head, tail, x);
        lemma_contains_concat(head, ins, x);
        lemma_contains_concat(head + ins, tail, x);
    }
    assert forall|x: u128|
        (head + ins).contains(x) == (head.contains(x) || ins.contains(x)) && flat.contains(x) == (
        head.contains(x) || tail.contains(x)) by {
        lemma_contains_concat(head, tail, x);
        lemma_contains_concat(head, ins, x);
    }
}

/// Cutting the stretch of `n` entries at position `p` out of a sequence in
/// which nothing occurs twice removes exactly the entries of that stretch.
pub proof fn lemma_remove_block(flat: Seq<u128>, p: int, n: int)
    requires
        0 <= p,
        0 <= n,
        p + n <= flat.len(),
        flat.no_duplicates(),
    ensures
        ({
            let out = flat.subrange(0, p) + flat.subrange(p + n, flat.len() as int);
            let cut = flat.subrange(p, p + n);
            &&& out.no_duplicates()
            &&& cut.no_duplicates()
            &&& forall|x: u128| out.contains(x) <==> flat.contains(x) && !cut.contains(x)
        }),
{
    let head = flat.subrange(0, p);
    let cut = flat.subrange(p, p + n);
    let tail = flat.subrange(p + n, flat.len() as int);
    assert(head + cut + tail =~= flat);
    lemma_no_duplicates_concat(head + cut, tail);
    lemma_no_duplicates_concat(head, cut);
    lemma_no_duplicates_concat(head, tail);
    assert forall|x: u128|
        (head + tail).contains(x) <==> flat.contains(x) && !cut.contains(x) by {
        lemma_contains_concat(head, tail, x);
        lemma_contains_concat(head, cut, x);
        lemma_contains_concat(head + cut, tail, x);
    }
    assert forall|x: u128| !(head.contains(x) && tail.contains(x)) by {
        lemma_contains_concat(head, cut, x);
    }
}

/// An id occurs from sibling `k` on when sibling `k` carries it, or a node
/// below sibling `k` does, or it occurs from sibling `k + 1` on.
pub proof fn lemma_contains_step<P>(forest: Seq<Tree<P>>, k: int, id: u128)
    requires
        0 <= k < forest.len(),
    ensures
        flatten_from(forest, k).contains(id) <==> forest[k].id == id || contains_id(
            forest[k].children,
            id,
        ) || flatten_from(forest, k + 1).contains(id),
{
    let head = seq![forest[k].id];
    let inner = flatten(forest[k].children);
    let rest = flatten_from(forest, k + 1);
    lemma_contains_concat(head, inner, id);
    lemma_contains_concat(head + inner, rest, id);
    assert(head[0] == forest[k].id);
}

/// Appending one tree to a forest appends its id and the ids below it.
pub proof fn lemma_flatten_concat_one<P>(forest: Seq<Tree<P>>, tree: Tree<P>)
    ensures
        flatten(forest.push(tree)) == flatten(forest) + seq![tree.id] + flatten(tree.children),
{
    assert(forest.push(tree) =~= forest + seq![tree]);
    lemma_flatten_concat(forest, seq![tree]);
    lemma_flatten_one(tree);
    assert(flatten(forest) + (seq![tree.id] + flatten(tree.children)) =~= flatten(forest)
        + seq![tree.id] + flatten(tree.children));
}

/// Where the first node carrying `id` sits: `find_from` succeeds exactly
/// when the id occurs in the flattened sequence, and the subtree it returns
/// occupies the contiguous block that starts at the id's first position.
pub proof fn lemma_find_from<P>(forest: Seq<Tree<P>>, k: int, id: u128)
    requires
        0 <= k <= forest.len(),
    ensures
        find_from(forest, k, id) is Some <==> flatten_from(forest, k).contains(id),
        find_from(forest, k, id) matches Some(t) ==> {
            let flat = flatten_from(forest, k);
            let p = first_index(flat, id) as int;
            &&& t.id == id
            &&& p + tree_size(t) <= flat.len()
            &&& flat.subrange(p, p + tree_size(t)) == seq![id] + flatten(t.children)
        },
    decreases forest, forest.len() - k,
{
    let flat = flatten_from(forest, k);
    if k < forest.len() {
        let node = forest[k];
        let head = seq![node.id];
        let inner = flatten(node.children);
        let rest = flatten_from(forest, k + 1);
        assert(flat == head + inner + rest);
        lemma_flatten_len(node.children);
        lemma_find_from(node.children, 0, id);
        lemma_find_from(forest, k + 1, id);
        lemma_contains_concat(head, inner, id);
        lemma_contains_concat(head + inner, rest, id);
        lemma_first_index_concat(head, inner, id);
        lemma_first_index_concat(head + inner, rest, id);
        lemma_first_index(head, id);
        if node.id == id {
            assert(head[0] == id);
            assert(flat.subrange(0, (1 + inner.len()) as int) =~= head + inner);
        } else {
            assert(!head.contains(id));
            match find_from(node.children, 0, id) {
                Some(t) => {
                    lemma_flatten_len(t.children);
                    let pc = first_index(inner, id) as int;
                    let n = tree_size(t) as int;
                    assert(flat.subrange(1 + pc, 1 + pc + n) =~= inner.subrange(pc, pc + n));
                },
                None => {
                    match find_from(forest, k + 1, id) {
                        Some(t) => {
                            let pr = first_index(rest, id) as int;
                            let n = tree_size(t) as int;
                            let off = (1 + inner.len()) as int;
                            assert(flat.subrange(off + pr, off + pr + n) =~= rest.subrange(
                                pr,
                                pr + n,
                            ));
                        },
                        None => {},
                    }
                },
            }
        }
    }
}

/// Searching the tail of a concatenation only sees the second part.
pub proof fn lemma_find_shift<P>(a: Seq<Tree<P>>, b: Seq<Tree<P>>, j: int, id: u128)
    requires
        0 <= j,
    ensures
        find_from(a + b, a.len() + j, id) == find_from(b, j, id),
    decreases b.len() - j,
{
    if j < b.len() {
        lemma_find_shift(a, b, j + 1, id);
        assert((a + b)[a.len() + j] == b[j]);
    }
}

/// Searching a concatenation searches the first part and then the second.
pub proof fn lemma_find_concat<P>(a: Seq<Tree<P>>, b: Seq<Tree<P>>, k: int, id: u128)
    requires
        0 <= k <= a.len(),
    ensures
        find_from(a + b, k, id) == match find_from(a, k, id) {
            Some(t) => Some(t),
            None => find(b, id),
        },
    decreases a.len() - k,
{
    if k < a.len() {
        lemma_find_concat(a, b, k + 1, id);
        assert((a + b)[k] == a[k]);
    } else {
        lemma_find_shift(a, b, 0, id);
    }
}

/// Deleting an id that does not occur leaves the forest as it was.
pub proof fn lemma_delete_absent_from<P>(forest: Seq<Tree<P>>, k: int, id: u128)
    requires
        0 <= k <= forest.len(),
        !flatten_from(forest, k).contains(id),
    ensures
        delete_from(forest, k, id) == forest.subrange(k, forest.len() as int),
    decreases forest, forest.len() - k,
{
    if k < forest.len() {
        let node = forest[k];
        let head = seq![node.id];
        let inner = flatten(node.children);
        let rest = flatten_from(forest, k + 1);
        lemma_contains_concat(head, inner, id);
        lemma_contains_concat(head + inner, rest, id);
        assert(head[0] == node.id);
        lemma_delete_absent_from(node.children, 0, id);
        lemma_delete_absent_from(forest, k + 1, id);
        assert(node.children.subrange(0, node.children.len() as int) =~= node.children);
        assert(delete_from(forest, k, id) =~= forest.subrange(k, forest.len() as int));
    } else {
        assert(delete_from(forest, k, id) =~= forest.subrange(k, forest.len() as int));
    }
}

/// Deleting an id that does not occur leaves the forest as it was.
pub proof fn lemma_delete_absent<P>(forest: Seq<Tree<P>>, id: u128)
    requires
        !contains_id(forest, id),
    ensures
        delete(forest, id) == forest,
{
    lemma_delete_absent_from(forest, 0, id);
    assert(forest.subrange(0, forest.len() as int) =~= forest);
}

/// In a forest without repeated ids, deleting an id that occurs cuts exactly
/// the block of its subtree out of the flattened sequence.
pub proof fn lemma_delete_from<P>(forest: Seq<Tree<P>>, k: int, id: u128)
    requires
        0 <= k <= forest.len(),
        flatten_from(forest, k).no_duplicates(),
        flatten_from(forest, k).contains(id),
    ensures
        find_from(forest, k, id) is Some,
        ({
            let flat = flatten_from(forest, k);
            let p = first_index(flat, id) as int;
            let n = tree_size(find_from(forest, k, id)->0) as int;
            &&& p + n <= flat.len()
            &&& flatten(delete_from(forest, k, id)) == flat.subrange(0, p) + flat.subrange(
                p + n,
                flat.len() as int,
            )
        }),
    decreases forest, forest.len() - k,
{
    lemma_find_from(forest, k, id);
    let flat = flatten_from(forest, k);
    let node = forest[k];
    let head = seq![node.id];
    let inner = flatten(node.children);
    let rest = flatten_from(forest, k + 1);
    let tail = forest.subrange(k + 1, forest.len() as int);
    let none = Seq::<u128>::empty();
    assert(flat == head + inner + rest);
    lemma_flatten_len(node.children);
    lemma_flatten_suffix(forest, k + 1);
    lemma_find_from(node.children, 0, id);
    lemma_find_from(forest, k + 1, id);
    lemma_parts_unique(node.id, inner, rest, id);
    if node.id == id {
        assert(first_index(flat, id) == 0);
        let n = tree_size(node) as int;
        assert(flat.subrange(0, 0) + flat.subrange(n, flat.len() as int) =~= rest);
    } else {
        lemma_first_index_parts(node.id, inner, rest, id);
        if inner.contains(id) {
            lemma_delete_from(node.children, 0, id);
            lemma_delete_absent_from(forest, k + 1, id);
            let t = find_from(node.children, 0, id)->0;
            let n = tree_size(t) as int;
            let pc = first_index(inner, id) as int;
            let pruned = Tree { children: delete(node.children, id), ..node };
            assert(delete_from(forest, k, id) == seq![pruned] + tail);
            lemma_flatten_concat(seq![pruned], tail);
            lemma_flatten_one(pruned);
            assert(flatten(delete_from(forest, k, id)) =~= head + (inner.subrange(0, pc) + none
                + inner.subrange(pc + n, inner.len() as int)) + rest);
            lemma_splice(head, inner, rest, pc, pc + n, none);
            assert(flat.subrange(0, 1 + pc) + none + flat.subrange(1 + pc + n, flat.len() as int)
                =~= flat.subrange(0, 1 + pc) + flat.subrange(1 + pc + n, flat.len() as int));
        } else {
            lemma_delete_absent(node.children, id);
            lemma_delete_from(forest, k + 1, id);
            let t = find_from(forest, k + 1, id)->0;
            let n = tree_size(t) as int;
            let pr = first_index(rest, id) as int;
            let off = (1 + inner.len()) as int;
            let kept = Tree { children: delete(node.children, id), ..node };
            assert(kept == node);
            let after = delete_from(forest, k + 1, id);
            assert(delete_from(forest, k, id) == seq![node] + after);
            lemma_flatten_concat(seq![node], after);
            lemma_flatten_one(node);
            assert(flatten(delete_from(forest, k, id)) =~= head + inner + (rest.subrange(0, pr)
                + none + rest.subrange(pr + n, rest.len() as int)) + none);
            lemma_splice(head + inner, rest, none, pr, pr + n, none);
            assert(head + inner + rest + none =~= flat);
            assert(flat.subrange(0, off + pr) + none + flat.subrange(
                off + pr + n,
                flat.len() as int,
            ) =~= flat.subrange(0, off + pr) + flat.subrange(off + pr + n, flat.len() as int));
        }
    }
}

/// Deleting by id removes exactly the subtree rooted at that id: the
/// flattened sequence loses the contiguous block of that subtree and nothing
/// else, so every other node keeps its place among the rest, and the node
/// count drops by the subtree's size.
pub proof fn lemma_delete_removes_subtree<P>(forest: Seq<Tree<P>>, id: u128)
    requires
        unique_ids(forest),
    ensures
        ({
            let flat = flatten(forest);
            let p = first_index(flat, id) as int;
            let n = subtree_size(forest, id) as int;
            &&& p + n <= flat.len()
            &&& flatten(delete(forest, id)) == flat.subrange(0, p) + flat.subrange(
                p + n,
                flat.len() as int,
            )
            &&& total_node_count(delete(forest, id)) == total_node_count(forest) - n
            &&& unique_ids(delete(forest, id))
            &&& !contains_id(delete(forest, id), id)
        }),
{
    let flat = flatten(forest);
    let p = first_index(flat, id) as int;
    let n = subtree_size(forest, id) as int;
    let kept = flat.subrange(0, p) + flat.subrange(p + n, flat.len() as int);
    lemma_first_index(flat, id);
    lemma_find_from(forest, 0, id);
    lemma_flatten_len(forest);
    lemma_flatten_len(delete(forest, id));
    if contains_id(forest, id) {
        lemma_delete_from(forest, 0, id);
    } else {
        lemma_delete_absent(forest, id);
        assert(kept =~= flat);
    }
    assert(flatten(delete(forest, id)) == kept);
    assert forall|i: int, j: int|
        0 <= i < kept.len() && 0 <= j < kept.len() && i != j implies kept[i] != kept[j] by {
        let a = if i < p { i } else { i + n };
        let b = if j < p { j } else { j + n };
        assert(kept[i] == flat[a] && kept[j] == flat[b]);
    }
    if kept.contains(id) {
        let i = choose|i: int| 0 <= i < kept.len() && kept[i] == id;
        let a = if i < p { i } else { i + n };
        assert(flat[a] == id && flat[p] == id);
        assert(n >= 1);
    }
}

/// In a forest without repeated ids, deleting by id removes the ids of the
/// subtree that goes by that id and no others, and the ids of that subtree
/// are themselves without repeats.
pub proof fn lemma_delete_ids<P>(forest: Seq<Tree<P>>, id: u128)
    requires
        unique_ids(forest),
    ensures
        unique_ids(delete(forest, id)),
        subtree_ids(forest, id).no_duplicates(),
        forall|x: u128|
            #![trigger flatten(delete(forest, id)).contains(x)]
            #![trigger subtree_ids(forest, id).contains(x)]
            flatten(delete(forest, id)).contains(x) <==> flatten(forest).contains(x)
                && !subtree_ids(forest, id).contains(x),
        forall|x: u128| subtree_ids(forest, id).contains(x) ==> flatten(forest).contains(x),
        find(forest, id) matches Some(t) ==> flatten(seq![t]) == subtree_ids(forest, id),
{
    let flat = flatten(forest);
    let p = first_index(flat, id) as int;
    let n = subtree_size(forest, id) as int;
    lemma_delete_removes_subtree(forest, id);
    lemma_find_from(forest, 0, id);
    lemma_first_index(flat, id);
    match find(forest, id) {
        Some(t) => {
            lemma_flatten_one(t);
            lemma_remove_block(flat, p, n);
            let cut = flat.subrange(p, p + n);
            assert forall|x: u128| cut.contains(x) implies flat.contains(x) by {
                let i = choose|i: int| 0 <= i < cut.len() && cut[i] == x;
                assert(flat[p + i] == x);
            }
        },
        None => {
            lemma_remove_block(flat, p, 0);
            assert(flat.subrange(p, p) =~= Seq::<u128>::empty());
        },
    }
}

/// In a forest without repeated ids, deleting by id spares every node that
/// is neither in the deleted subtree nor above it: such a node is found
/// afterwards as it was before, with everything below it.
pub proof fn lemma_delete_spares_from<P>(forest: Seq<Tree<P>>, k: int, id: u128, x: u128)
    requires
        0 <= k <= forest.len(),
        flatten_from(forest, k).no_duplicates(),
        !(find_from(forest, k, id) matches Some(t) && flatten(seq![t]).contains(x)),
        !(find_from(forest, k, x) matches Some(t) && flatten(seq![t]).contains(id)),
    ensures
        find(delete_from(forest, k, id), x) == find_from(forest, k, x),
    decreases forest, forest.len() - k,
{
    let after = delete_from(forest, k, id);
    if k < forest.len() {
        let node = forest[k];
        let inner = flatten(node.children);
        let rest = flatten_from(forest, k + 1);
        let tail = forest.subrange(k + 1, forest.len() as int);
        lemma_parts_unique(node.id, inner, rest, id);
        lemma_parts_unique(node.id, inner, rest, x);
        lemma_find_from(node.children, 0, id);
        lemma_find_from(node.children, 0, x);
        lemma_find_from(forest, k + 1, id);
        lemma_find_from(forest, k + 1, x);
        lemma_flatten_one(node);
        lemma_contains_concat(seq![node.id], inner, x);
        lemma_contains_concat(seq![node.id], inner, id);
        assert(seq![node.id][0] == node.id);
        assert(forest.subrange(0, k + 1) + tail =~= forest);
        lemma_find_shift(forest.subrange(0, k + 1), tail, 0, x);
        if node.id == id {
            assert(after == tail);
        } else {
            let pruned = Tree { children: delete(node.children, id), ..node };
            let later = delete_from(forest, k + 1, id);
            assert(after == seq![pruned] + later);
            assert(after[0] == pruned);
            lemma_find_shift(seq![pruned], later, 0, x);
            if node.id == x {
                lemma_delete_absent(node.children, id);
            } else if inner.contains(x) {
                if find(node.children, id) is Some {
                    lemma_delete_spares_from(node.children, 0, id, x);
                } else {
                    lemma_delete_absent(node.children, id);
                }
            } else {
                if inner.contains(id) {
                    lemma_delete_ids(node.children, id);
                    lemma_delete_absent_from(forest, k + 1, id);
                    assert(later == tail);
                } else {
                    lemma_delete_absent(node.children, id);
                    lemma_delete_spares_from(forest, k + 1, id, x);
                }
                lemma_find_from(pruned.children, 0, x);
            }
        }
    }
}

/// In a forest without repeated ids, deleting by id spares every node that
/// is neither in the deleted subtree nor above it: no sibling is touched,
/// nor anything else beside the path to the deleted node.
pub proof fn lemma_delete_spares_others<P>(forest: Seq<Tree<P>>, id: u128, x: u128)
    requires
        unique_ids(forest),
        !subtree_ids(forest, id).contains(x),
        !subtree_ids(forest, x).contains(id),
    ensures
        find(delete(forest, id), x) == find(forest, x),
{
    if let Some(t) = find(forest, id) {
        lemma_flatten_one(t);
    }
    if let Some(t) = find(forest, x) {
        lemma_flatten_one(t);
    }
    lemma_delete_spares_from(forest, 0, id, x);
}

/// Detaching never alters the number of roots by more than one, and alters
/// nothing at all when the id does not occur.
pub proof fn lemma_detach_absent_from<P>(forest: Seq<Tree<P>>, k: int, id: u128)
    requires
        0 <= k <= forest.len(),
        !flatten_from(forest, k).contains(id),
    ensures
        detach_from(forest, k, id) == forest.subrange(k, forest.len() as int),
    decreases forest, forest.len() - k,
{
    if k < forest.len() {
        lemma_contains_step(forest, k, id);
        lemma_detach_absent_from(forest, k + 1, id);
    }
    assert(detach_from(forest, k, id) =~= forest.subrange(k, forest.len() as int));
}

/// In a forest without repeated ids, detaching a node and deleting by its
/// id come to the same.
pub proof fn lemma_detach_is_delete_from<P>(forest: Seq<Tree<P>>, k: int, id: u128)
    requires
        0 <= k <= forest.len(),
        flatten_from(forest, k).no_duplicates(),
    ensures
        detach_from(forest, k, id) == delete_from(forest, k, id),
    decreases forest, forest.len() - k,
{
    if k < forest.len() {
        let node = forest[k];
        let inner = flatten(node.children);
        let rest = flatten_from(forest, k + 1);
        lemma_parts_unique(node.id, inner, rest, id);
        lemma_contains_step(forest, k, id);
        if node.id != id {
            lemma_detach_is_delete_from(node.children, 0, id);
            if inner.contains(id) {
                lemma_delete_absent_from(forest, k + 1, id);
            } else {
                lemma_delete_absent(node.children, id);
                lemma_detach_is_delete_from(forest, k + 1, id);
                let kept = Tree { children: delete(node.children, id), ..node };
                assert(kept == node);
            }
        }
    }
}

/// In a forest without repeated ids, detaching a node and deleting by its
/// id come to the same.
pub proof fn lemma_detach_is_delete<P>(forest: Seq<Tree<P>>, id: u128)
    requires
        unique_ids(forest),
    ensures
        detach(forest, id) == delete(forest, id),
{
    lemma_detach_is_delete_from(forest, 0, id);
}

/// A change never alters the number of roots, and changes nothing at all
/// when the id does not occur.
pub proof fn lemma_update_shape<P>(
    forest: Seq<Tree<P>>,
    k: int,
    id: u128,
    change: spec_fn(Tree<P>) -> Tree<P>,
)
    requires
        0 <= k <= forest.len(),
    ensures
        update_from(forest, k, id, change).len() == forest.len() - k,
        !flatten_from(forest, k).contains(id) ==> update_from(forest, k, id, change)
            == forest.subrange(k, forest.len() as int),
    decreases forest, forest.len() - k,
{
    let after = update_from(forest, k, id, change);
    if k < forest.len() {
        lemma_contains_step(forest, k, id);
        lemma_update_shape(forest[k].children, 0, id, change);
        lemma_update_shape(forest, k + 1, id, change);
    }
    if !flatten_from(forest, k).contains(id) {
        assert(after =~= forest.subrange(k, forest.len() as int));
    }
}

/// Changing a node: when the id does not occur nothing changes; when it
/// does, the changed node is what a later search finds, and the flattened
/// sequence keeps everything outside the node's old children, which are
/// replaced by its new ones.
pub proof fn lemma_update_from<P>(
    forest: Seq<Tree<P>>,
    k: int,
    id: u128,
    change: spec_fn(Tree<P>) -> Tree<P>,
)
    requires
        0 <= k <= forest.len(),
        find_from(forest, k, id) matches Some(t) ==> change(t).id == id,
    ensures
        update_from(forest, k, id, change).len() == forest.len() - k,
        !flatten_from(forest, k).contains(id) ==> update_from(forest, k, id, change)
            == forest.subrange(k, forest.len() as int),
        find_from(forest, k, id) matches Some(t) ==> {
            let flat = flatten_from(forest, k);
            let p = first_index(flat, id) as int;
            let n = tree_size(t) as int;
            &&& find(update_from(forest, k, id, change), id) == Some(change(t))
            &&& flatten(update_from(forest, k, id, change)) == flat.subrange(0, p + 1) + flatten(
                change(t).children,
            ) + flat.subrange(p + n, flat.len() as int)
        },
    decreases forest, forest.len() - k,
{
    let flat = flatten_from(forest, k);
    let after = update_from(forest, k, id, change);
    if k < forest.len() {
        let node = forest[k];
        let head = seq![node.id];
        let inner = flatten(node.children);
        let rest = flatten_from(forest, k + 1);
        let tail = forest.subrange(k + 1, forest.len() as int);
        let none = Seq::<u128>::empty();
        assert(flat == head + inner + rest);
        lemma_flatten_len(node.children);
        lemma_flatten_suffix(forest, k + 1);
        lemma_find_from(node.children, 0, id);
        lemma_find_from(forest, k + 1, id);
        if node.id == id {
            let changed = change(node);
            let x = flatten(changed.children);
            assert(after == seq![changed] + tail);
            lemma_flatten_concat(seq![changed], tail);
            lemma_flatten_one(changed);
            assert(after[0] == changed);
            assert(first_index(flat, id) == 0);
            assert(flatten(after) == head + x + rest);
            lemma_splice(head, inner, rest, 0, inner.len() as int, x);
            assert(inner.subrange(0, 0) + x + inner.subrange(
                inner.len() as int,
                inner.len() as int,
            ) =~= x);
        } else {
            lemma_first_index_parts(node.id, inner, rest, id);
            if inner.contains(id) {
                lemma_update_from(node.children, 0, id, change);
                let t = find_from(node.children, 0, id)->0;
                let n = tree_size(t) as int;
                let pc = first_index(inner, id) as int;
                let x = flatten(change(t).children);
                let grown = Tree { children: update(node.children, id, change), ..node };
                assert(after == seq![grown] + tail);
                lemma_flatten_concat(seq![grown], tail);
                lemma_flatten_one(grown);
                assert(after[0] == grown);
                assert(flatten(after) == head + (inner.subrange(0, pc + 1) + x + inner.subrange(
                    pc + n,
                    inner.len() as int,
                )) + rest);
                lemma_splice(head, inner, rest, pc + 1, pc + n, x);
            } else {
                lemma_update_from(forest, k + 1, id, change);
                let later = update_from(forest, k + 1, id, change);
                assert(after == seq![node] + later);
                lemma_flatten_concat(seq![node], later);
                lemma_flatten_one(node);
                assert(after[0] == node);
                lemma_find_shift(seq![node], later, 0, id);
                if rest.contains(id) {
                    let t = find_from(forest, k + 1, id)->0;
                    let n = tree_size(t) as int;
                    let pr = first_index(rest, id) as int;
                    let x = flatten(change(t).children);
                    assert(flatten(after) =~= head + inner + (rest.subrange(0, pr + 1) + x
                        + rest.subrange(pr + n, rest.len() as int)) + none);
                    lemma_splice(head + inner, rest, none, pr + 1, pr + n, x);
                    assert(head + inner + rest + none =~= flat);
                } else {
                    assert(after =~= forest.subrange(k, forest.len() as int));
                }
            }
        }
    } else {
        assert(after =~= forest.subrange(k, forest.len() as int));
    }
}

/// A change that keeps a node's id and the ids below it keeps the whole
/// flattened sequence.
pub proof fn lemma_update_keeps_ids<P>(
    forest: Seq<Tree<P>>,
    id: u128,
    change: spec_fn(Tree<P>) -> Tree<P>,
)
    requires
        find(forest, id) matches Some(t) ==> change(t).id == id && flatten(change(t).children)
            == flatten(t.children),
    ensures
        flatten(update(forest, id, change)) == flatten(forest),
        update(forest, id, change).len() == forest.len(),
        !contains_id(forest, id) ==> update(forest, id, change) == forest,
        find(forest, id) matches Some(t) ==> find(update(forest, id, change), id) == Some(
            change(t),
        ),
{
    lemma_update_from(forest, 0, id, change);
    lemma_find_from(forest, 0, id);
    assert(forest.subrange(0, forest.len() as int) =~= forest);
    if let Some(t) = find(forest, id) {
        let flat = flatten(forest);
        let p = first_index(flat, id) as int;
        let n = tree_size(t) as int;
        lemma_flatten_len(t.children);
        assert(flat.subrange(p, p + n) == seq![id] + flatten(t.children));
        assert(flat.subrange(p, p + n)[0] == flat[p]);
        assert forall|i: int| 0 <= i < n - 1 implies flatten(t.children)[i] == flat[p + 1 + i] by {
            assert(flat.subrange(p, p + n)[i + 1] == flat[p + 1 + i]);
        }
        assert(flatten(update(forest, id, change)) =~= flat);
    }
}

/// Adding a tree to a forest, below a parent or as the last root, adds the
/// ids of that tree and no others.
pub proof fn lemma_adopt_ids<P>(forest: Seq<Tree<P>>, parent: Option<u128>, tree: Tree<P>)
    ensures
        forall|x: u128|
            flatten(adopt(forest, parent, tree)).contains(x) <==> flatten(forest).contains(x)
                || flatten(seq![tree]).contains(x),
        unique_ids(adopt(forest, parent, tree)) <==> unique_ids(forest) && unique_ids(seq![tree])
            && disjoint(flatten(forest), flatten(seq![tree])),
        adopt(forest, parent, tree).len() >= forest.len(),
{
    let flat = flatten(forest);
    let ins = flatten(seq![tree]);
    lemma_flatten_one(tree);
    if parent is Some && contains_id(forest, parent->0) {
        let id = parent->0;
        lemma_find_from(forest, 0, id);
        let t = find(forest, id)->0;
        let p = first_index(flat, id) as int;
        let n = tree_size(t) as int;
        lemma_flatten_len(t.children);
        lemma_update_from(forest, 0, id, with_child(tree));
        lemma_flatten_concat_one(t.children, tree);
        let block = flat.subrange(p, p + n);
        assert(block == seq![id] + flatten(t.children));
        assert forall|i: int| 0 <= i < n - 1 implies flatten(t.children)[i] == flat[p + 1 + i] by {
            assert(block[i + 1] == flat[p + 1 + i]);
        }
        assert(flatten(adopt(forest, parent, tree)) =~= flat.subrange(0, p + n) + ins
            + flat.subrange(p + n, flat.len() as int));
        lemma_insert_block(flat, ins, p + n);
    } else {
        lemma_flatten_concat_one(forest, tree);
        assert(flatten(adopt(forest, parent, tree)) =~= flat.subrange(0, flat.len() as int) + ins
            + flat.subrange(flat.len() as int, flat.len() as int));
        lemma_insert_block(flat, ins, flat.len() as int);
    }
}

} // verus!
