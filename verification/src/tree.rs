//! The mathematical model shared by workspace and task forests.
//!
//! A forest is a sequence of trees; a tree carries an id, a label, an
//! `expanded` flag, a payload and an ordered sequence of children. All
//! contracts of the executable forests are stated over this model.

use vstd::prelude::*;

verus! {

/// A node together with the whole subtree below it.
pub struct Tree<P> {
    pub id: u128,
    pub label: Seq<char>,
    pub expanded: bool,
    pub payload: P,
    pub children: Seq<Tree<P>>,
}

/// Pre-order ids of the trees `forest[k..]`: each node, then its children
/// left to right, then the next sibling.
pub open spec fn flatten_from<P>(forest: Seq<Tree<P>>, k: int) -> Seq<u128>
    decreases forest, forest.len() - k,
{
    if k < 0 || k >= forest.len() {
        Seq::empty()
    } else {
        seq![forest[k].id] + flatten_from(forest[k].children, 0) + flatten_from(
            forest,
            k + 1,
        )
    }
}

/// Pre-order ids of a whole forest.
pub open spec fn flatten<P>(forest: Seq<Tree<P>>) -> Seq<u128> {
    flatten_from(forest, 0)
}

/// Number of nodes in the trees `forest[k..]`.
pub open spec fn count_from<P>(forest: Seq<Tree<P>>, k: int) -> nat
    decreases forest, forest.len() - k,
{
    if k < 0 || k >= forest.len() {
        0
    } else {
        1 + count_from(forest[k].children, 0) + count_from(forest, k + 1)
    }
}

/// Number of nodes in a forest.
pub open spec fn total_node_count<P>(forest: Seq<Tree<P>>) -> nat {
    count_from(forest, 0)
}

/// Number of nodes in one tree, the root included.
pub open spec fn tree_size<P>(tree: Tree<P>) -> nat {
    1 + total_node_count(tree.children)
}

/// Whether some node of the forest carries `id`.
pub open spec fn contains_id<P>(forest: Seq<Tree<P>>, id: u128) -> bool {
    flatten(forest).contains(id)
}

/// No two nodes of the forest share an id.
pub open spec fn unique_ids<P>(forest: Seq<Tree<P>>) -> bool {
    flatten(forest).no_duplicates()
}

/// The first node in pre-order of `forest[k..]` that carries `id`.
pub open spec fn find_from<P>(forest: Seq<Tree<P>>, k: int, id: u128) -> Option<Tree<P>>
    decreases forest, forest.len() - k,
{
    if k < 0 || k >= forest.len() {
        None
    } else if forest[k].id == id {
        Some(forest[k])
    } else {
        match find_from(forest[k].children, 0, id) {
            Some(t) => Some(t),
            None => find_from(forest, k + 1, id),
        }
    }
}

/// The first node in pre-order that carries `id`.
pub open spec fn find<P>(forest: Seq<Tree<P>>, id: u128) -> Option<Tree<P>> {
    find_from(forest, 0, id)
}

/// Size of the subtree rooted at the node carrying `id`; zero when absent.
pub open spec fn subtree_size<P>(forest: Seq<Tree<P>>, id: u128) -> nat {
    match find(forest, id) {
        Some(t) => tree_size(t),
        None => 0,
    }
}

/// The trees `forest[k..]` after deleting by id: siblings are visited in
/// order; a sibling that carries `id` is spliced out with its whole subtree
/// and the visit stops; any other sibling has its own children visited the
/// same way before the visit moves on.
pub open spec fn delete_from<P>(forest: Seq<Tree<P>>, k: int, id: u128) -> Seq<Tree<P>>
    decreases forest, forest.len() - k,
{
    if k < 0 || k >= forest.len() {
        Seq::empty()
    } else if forest[k].id == id {
        forest.subrange(k + 1, forest.len() as int)
    } else {
        seq![Tree { children: delete_from(forest[k].children, 0, id), ..forest[k] }] + delete_from(
            forest,
            k + 1,
            id,
        )
    }
}

/// The forest after deleting by id.
pub open spec fn delete<P>(forest: Seq<Tree<P>>, id: u128) -> Seq<Tree<P>> {
    delete_from(forest, 0, id)
}

/// The trees `forest[k..]` without the first node in pre-order that carries
/// `id`, and without everything below that node; as they are when no node
/// carries `id`.
pub open spec fn detach_from<P>(forest: Seq<Tree<P>>, k: int, id: u128) -> Seq<Tree<P>>
    decreases forest, forest.len() - k,
{
    if k < 0 || k >= forest.len() {
        Seq::empty()
    } else if forest[k].id == id {
        forest.subrange(k + 1, forest.len() as int)
    } else if contains_id(forest[k].children, id) {
        seq![Tree { children: detach_from(forest[k].children, 0, id), ..forest[k] }]
            + forest.subrange(k + 1, forest.len() as int)
    } else {
        seq![forest[k]] + detach_from(forest, k + 1, id)
    }
}

/// The forest without the first node in pre-order that carries `id`, and
/// without everything below that node.
pub open spec fn detach<P>(forest: Seq<Tree<P>>, id: u128) -> Seq<Tree<P>> {
    detach_from(forest, 0, id)
}

/// The trees `forest[k..]` with `change` applied to the first node in
/// pre-order that carries `id`; unchanged when no node does.
pub open spec fn update_from<P>(
    forest: Seq<Tree<P>>,
    k: int,
    id: u128,
    change: spec_fn(Tree<P>) -> Tree<P>,
) -> Seq<Tree<P>>
    decreases forest, forest.len() - k,
{
    if k < 0 || k >= forest.len() {
        Seq::empty()
    } else if forest[k].id == id {
        seq![change(forest[k])] + forest.subrange(k + 1, forest.len() as int)
    } else if contains_id(forest[k].children, id) {
        seq![Tree { children: update_from(forest[k].children, 0, id, change), ..forest[k] }]
            + forest.subrange(k + 1, forest.len() as int)
    } else {
        seq![forest[k]] + update_from(forest, k + 1, id, change)
    }
}

/// The forest with `change` applied to the first node in pre-order that
/// carries `id`.
pub open spec fn update<P>(
    forest: Seq<Tree<P>>,
    id: u128,
    change: spec_fn(Tree<P>) -> Tree<P>,
) -> Seq<Tree<P>> {
    update_from(forest, 0, id, change)
}

/// The change that replaces a node's label.
pub open spec fn with_label<P>(label: Seq<char>) -> spec_fn(Tree<P>) -> Tree<P> {
    |t: Tree<P>| Tree { label, ..t }
}

/// The change that appends `child` as a node's last child.
pub open spec fn with_child<P>(child: Tree<P>) -> spec_fn(Tree<P>) -> Tree<P> {
    |t: Tree<P>| Tree { children: t.children.push(child), ..t }
}

/// The forest with `tree` added below the node `parent`; as the last root
/// when there is no parent or no node carries the parent's id.
pub open spec fn adopt<P>(forest: Seq<Tree<P>>, parent: Option<u128>, tree: Tree<P>) -> Seq<
    Tree<P>,
> {
    if parent is Some && contains_id(forest, parent->0) {
        update(forest, parent->0, with_child(tree))
    } else {
        forest.push(tree)
    }
}

/// The forest without the subtree of the node `target`; as it is when
/// there is no target.
pub open spec fn prune<P>(forest: Seq<Tree<P>>, target: Option<u128>) -> Seq<Tree<P>> {
    match target {
        Some(id) => delete(forest, id),
        None => forest,
    }
}

/// The ids of the subtree rooted at the node that goes by `id`, in
/// pre-order; none when no node does.
pub open spec fn subtree_ids<P>(forest: Seq<Tree<P>>, id: u128) -> Seq<u128> {
    match find(forest, id) {
        Some(t) => seq![t.id] + flatten(t.children),
        None => Seq::empty(),
    }
}

/// Whether two sequences of ids have no id in common.
pub open spec fn disjoint(a: Seq<u128>, b: Seq<u128>) -> bool {
    forall|x: u128| !(a.contains(x) && b.contains(x))
}

/// Position of the first occurrence of `x` in `s`, or `s.len()` when absent.
pub open spec fn first_index(s: Seq<u128>, x: u128) -> nat
    decreases s.len(),
{
    if s.len() == 0 {
        0
    } else if s[0] == x {
        0
    } else {
        1 + first_index(s.drop_first(), x)
    }
}

/// `first_index` is within the sequence exactly when the id occurs, it is a
/// place where the id stands, and the id stands nowhere before it.
pub proof fn lemma_first_index(s: Seq<u128>, x: u128)
    ensures
        first_index(s, x) <= s.len(),
        first_index(s, x) < s.len() <==> s.contains(x),
        first_index(s, x) < s.len() ==> s[first_index(s, x) as int] == x,
        forall|i: int| 0 <= i < first_index(s, x) ==> s[i] != x,
    decreases s.len(),
{
    if s.len() > 0 && s[0] != x {
        let t = s.drop_first();
        lemma_first_index(t, x);
        if s.contains(x) {
            let i = choose|i: int| 0 <= i < s.len() && s[i] == x;
            assert(t[i - 1] == x);
        }
        if t.contains(x) {
            let i = choose|i: int| 0 <= i < t.len() && t[i] == x;
            assert(s[i + 1] == x);
        }
        assert forall|i: int| 0 <= i < first_index(s, x) implies s[i] != x by {
            if i > 0 {
                assert(s[i] == t[i - 1]);
            }
        }
    } else if s.len() > 0 {
        assert(s[0] == x);
    }
}

/// Flattening the tail of a concatenation only sees the second part.
pub proof fn lemma_flatten_shift<P>(a: Seq<Tree<P>>, b: Seq<Tree<P>>, j: int)
    requires
        0 <= j,
    ensures
        flatten_from(a + b, a.len() + j) == flatten_from(b, j),
    decreases b.len() - j,
{
    if j < b.len() {
        lemma_flatten_shift(a, b, j + 1);
        assert((a + b)[a.len() + j] == b[j]);
    }
}

/// Flattening a concatenation from root `k` of its first part on: what is
/// left of the first part, then the whole second part.
pub proof fn lemma_flatten_concat_from<P>(a: Seq<Tree<P>>, b: Seq<Tree<P>>, k: int)
    requires
        0 <= k <= a.len(),
    ensures
        flatten_from(a + b, k) == flatten_from(a, k) + flatten(b),
    decreases a.len() - k,
{
    if k < a.len() {
        lemma_flatten_concat_from(a, b, k + 1);
        assert((a + b)[k as int] == a[k]);
        assert(flatten_from(a + b, k) =~= flatten_from(a, k) + flatten(b));
    } else {
        lemma_flatten_shift(a, b, 0);
        assert(flatten_from(a + b, k) =~= flatten_from(a, k) + flatten(b));
    }
}

/// Flattening distributes over concatenation of forests.
pub proof fn lemma_flatten_concat<P>(a: Seq<Tree<P>>, b: Seq<Tree<P>>)
    ensures
        flatten(a + b) == flatten(a) + flatten(b),
{
    lemma_flatten_concat_from(a, b, 0);
}

/// Flattening from index `k` is flattening the suffix that starts there.
pub proof fn lemma_flatten_suffix<P>(forest: Seq<Tree<P>>, k: int)
    requires
        0 <= k <= forest.len(),
    ensures
        flatten_from(forest, k) == flatten(forest.subrange(k, forest.len() as int)),
{
    let a = forest.subrange(0, k);
    let b = forest.subrange(k, forest.len() as int);
    assert(a + b =~= forest);
    lemma_flatten_shift(a, b, 0);
}

/// A single tree flattens to its id followed by its flattened children.
pub proof fn lemma_flatten_one<P>(tree: Tree<P>)
    ensures
        flatten(seq![tree]) == seq![tree.id] + flatten(tree.children),
{
    let f = seq![tree];
    assert(flatten_from(f, 1) =~= Seq::<u128>::empty());
    assert(flatten(f) =~= seq![tree.id] + flatten(tree.children));
}

/// The flattened sequence has exactly one entry per node.
pub proof fn lemma_flatten_len_from<P>(forest: Seq<Tree<P>>, k: int)
    requires
        0 <= k,
    ensures
        flatten_from(forest, k).len() == count_from(forest, k),
    decreases forest, forest.len() - k,
{
    if k < forest.len() {
        lemma_flatten_len_from(forest[k].children, 0);
        lemma_flatten_len_from(forest, k + 1);
    }
}

/// The flattened sequence has exactly one entry per node, for any forest:
/// empty, wide or deep.
pub proof fn lemma_flatten_len<P>(forest: Seq<Tree<P>>)
    ensures
        flatten(forest).len() == total_node_count(forest),
{
    lemma_flatten_len_from(forest, 0);
}

} // verus!
