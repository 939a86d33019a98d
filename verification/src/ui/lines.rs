//! What the task pane shows for each task: its place, its label, how near
//! its due date is, and which parts of the label a search has hit.

use crate::date::{local_today, Date};
use crate::search::{navigable_ids, shown_roots};
use crate::text::{
    chars_of, find_matches, matches_from, offsets, piece_views, split_chars, split_spaces,
};
use crate::tree::{flatten_from, Tree};
use crate::ui::todolistwidget::{
    label_width, lemma_task_forest, max_len_from, task_forest, Task, TaskInfo, TaskStatus,
    TodoWidget,
};
use vstd::prelude::*;

verus! {

/// How near a due date is.
#[derive(Debug, Clone, Copy, PartialEq, Eq, Structural)]
pub enum DueTone {
    /// The date has passed.
    Overdue,
    /// Due today.
    Today,
    /// Due tomorrow.
    Tomorrow,
    /// Due in two or three days.
    Soon,
    /// Due in four to six days.
    ThisWeek,
    /// Due in a week or more.
    Later,
}

/// The note shown beside a task with a due date: the number of days left,
/// or gone by, and how near that is.
#[derive(Debug, Clone, Copy, PartialEq, Eq, Structural)]
pub struct DueNote {
    pub days: u64,
    pub tone: DueTone,
}

/// The note for a date that is `left` days away.
pub open spec fn note_for(left: int) -> DueNote {
    if left < 0 {
        DueNote { days: (-left) as u64, tone: DueTone::Overdue }
    } else {
        DueNote {
            days: left as u64,
            tone: if left == 0 {
                DueTone::Today
            } else if left == 1 {
                DueTone::Tomorrow
            } else if left < 4 {
                DueTone::Soon
            } else if left < 7 {
                DueTone::ThisWeek
            } else {
                DueTone::Later
            },
        }
    }
}

/// The note shown for a task: only a task that is still to do or in process
/// and has a due date gets one.
pub open spec fn due_note(status: TaskStatus, due: Option<Date>, today: Date) -> Option<DueNote> {
    if due is Some && (status == TaskStatus::Todo || status == TaskStatus::InProcess) {
        Some(note_for(due->0.days - today.days))
    } else {
        None
    }
}

/// Works out the note shown for a task on the day `today`.
pub fn note_due(status: TaskStatus, due: Option<Date>, today: Date) -> (note: Option<DueNote>)
    ensures
        note == due_note(status, due, today),
{
    let open = match status {
        TaskStatus::Todo | TaskStatus::InProcess => true,
        _ => false,
    };
    match due {
        Some(date) => {
            if !open {
                return None;
            }
            let left = date.days_after(today);
            if left < 0 {
                Some(DueNote { days: (-left) as u64, tone: DueTone::Overdue })
            } else {
                let tone = if left == 0 {
                    DueTone::Today
                } else if left == 1 {
                    DueTone::Tomorrow
                } else if left < 4 {
                    DueTone::Soon
                } else if left < 7 {
                    DueTone::ThisWeek
                } else {
                    DueTone::Later
                };
                Some(DueNote { days: left as u64, tone })
            }
        },
        None => None,
    }
}

/// The ranges `s`, ordered by where they start, with `r` placed behind
/// every range that starts no later than `r` does.
pub open spec fn placed(s: Seq<(usize, usize)>, r: (usize, usize)) -> Seq<(usize, usize)>
    decreases s.len(),
{
    if s.len() > 0 && s.last().0 > r.0 {
        placed(s.drop_last(), r).push(s.last())
    } else {
        s.push(r)
    }
}

/// The first `n` of `ranges`, ordered by where they start; ranges that
/// start at the same place keep their order.
pub open spec fn ordered_upto(ranges: Seq<(usize, usize)>, n: nat) -> Seq<(usize, usize)>
    decreases n,
{
    if n == 0 || n > ranges.len() {
        Seq::empty()
    } else {
        placed(ordered_upto(ranges, (n - 1) as nat), ranges[n - 1])
    }
}

/// Whether ranges are in the order of where they start.
pub open spec fn by_start(s: Seq<(usize, usize)>) -> bool {
    forall|i: int, j: int| 0 <= i <= j < s.len() ==> s[i].0 <= s[j].0
}

/// The ranges `acc` with `r` joined on: `r` is absorbed by the last range
/// when it starts before that range ends, and appended otherwise.
pub open spec fn joined(acc: Seq<(usize, usize)>, r: (usize, usize)) -> Seq<(usize, usize)> {
    if acc.len() > 0 && r.0 < acc.last().1 {
        acc.drop_last().push(
            (
                acc.last().0,
                if acc.last().1 >= r.1 {
                    acc.last().1
                } else {
                    r.1
                },
            ),
        )
    } else {
        acc.push(r)
    }
}

/// The first `n` of `ranges`, joined one after the other.
pub open spec fn merged_upto(ranges: Seq<(usize, usize)>, n: nat) -> Seq<(usize, usize)>
    decreases n,
{
    if n == 0 || n > ranges.len() {
        Seq::empty()
    } else {
        joined(merged_upto(ranges, (n - 1) as nat), ranges[n - 1])
    }
}

/// Puts `r` into ranges ordered by start, behind every range that starts
/// no later.
pub fn place(ranges: &mut Vec<(usize, usize)>, r: (usize, usize))
    ensures
        final(ranges)@ == placed(old(ranges)@, r),
{
    let ghost before = ranges@;
    let mut p: usize = ranges.len();
    proof {
        assert(before.subrange(0, p as int) =~= before);
        assert(placed(before, r) + before.subrange(p as int, before.len() as int) =~= placed(
            before,
            r,
        ));
    }
    while p > 0 && ranges[p - 1].0 > r.0
        invariant
            p <= ranges.len(),
            ranges@ == before,
            placed(before.subrange(0, p as int), r) + before.subrange(p as int, before.len() as int)
                == placed(before, r),
        decreases p,
    {
        proof {
            let head = before.subrange(0, p as int);
            assert(head.last() == before[p - 1]);
            assert(head.drop_last() =~= before.subrange(0, p - 1));
            assert(placed(head.drop_last(), r).push(head.last()) + before.subrange(
                p as int,
                before.len() as int,
            ) =~= placed(head.drop_last(), r) + before.subrange(p - 1, before.len() as int));
        }
        p -= 1;
    }
    ranges.insert(p, r);
    proof {
        let head = before.subrange(0, p as int);
        if p > 0 {
            assert(head.last() == before[p - 1]);
        }
        assert(ranges@ =~= head.push(r) + before.subrange(p as int, before.len() as int));
    }
}

/// Joins ranges that are ordered by start: each range that starts before
/// the one before it ends is absorbed by it.
pub fn merge(ranges: &Vec<(usize, usize)>) -> (out: Vec<(usize, usize)>)
    ensures
        out@ == merged_upto(ranges@, ranges@.len()),
{
    let mut out: Vec<(usize, usize)> = Vec::new();
    let mut i: usize = 0;
    while i < ranges.len()
        invariant
            i <= ranges.len(),
            out@ == merged_upto(ranges@, i as nat),
        decreases ranges.len() - i,
    {
        let r = ranges[i];
        let n = out.len();
        if n > 0 && r.0 < out[n - 1].1 {
            let last = out[n - 1];
            let end = if last.1 >= r.1 {
                last.1
            } else {
                r.1
            };
            out.pop();
            out.push((last.0, end));
            proof {
                let acc = merged_upto(ranges@, i as nat);
                assert(out@ =~= joined(acc, r));
            }
        } else {
            out.push(r);
        }
        i += 1;
    }
    out
}

/// Whether every range starts no later than it ends and ends no later
/// than `limit`.
pub open spec fn within(s: Seq<(usize, usize)>, limit: int) -> bool {
    forall|i: int| 0 <= i < s.len() ==> (#[trigger] s[i]).0 <= s[i].1 <= limit
}

/// Placing a range keeps ranges in the order of where they start, lets none
/// start later than `top` if none did, and keeps them within `limit`.
pub proof fn lemma_placed(s: Seq<(usize, usize)>, r: (usize, usize), top: usize, limit: int)
    requires
        by_start(s),
        forall|i: int| 0 <= i < s.len() ==> (#[trigger] s[i]).0 <= top,
        r.0 <= top,
    ensures
        by_start(placed(s, r)),
        placed(s, r).len() == s.len() + 1,
        forall|i: int| 0 <= i < placed(s, r).len() ==> (#[trigger] placed(s, r)[i]).0 <= top,
        within(s, limit) && r.0 <= r.1 <= limit ==> within(placed(s, r), limit),
    decreases s.len(),
{
    let out = placed(s, r);
    if s.len() > 0 && s.last().0 > r.0 {
        let head = s.drop_last();
        let last = s.last();
        assert forall|i: int, j: int| 0 <= i <= j < head.len() implies head[i].0 <= head[j].0 by {
            assert(head[i] == s[i] && head[j] == s[j]);
        }
        assert forall|i: int| 0 <= i < head.len() implies (#[trigger] head[i]).0 <= last.0 by {
            assert(head[i] == s[i]);
        }
        lemma_placed(head, r, last.0, limit);
        let inner = placed(head, r);
        assert(out == inner.push(last));
        assert forall|i: int, j: int| 0 <= i <= j < out.len() implies out[i].0 <= out[j].0 by {
            if j < inner.len() {
                assert(out[i] == inner[i] && out[j] == inner[j]);
            } else if i < j {
                assert(out[i] == inner[i]);
            }
        }
        assert forall|i: int| 0 <= i < out.len() implies (#[trigger] out[i]).0 <= top by {
            if i < inner.len() {
                assert(out[i] == inner[i]);
            } else {
                assert(out[i] == s[s.len() - 1]);
            }
        }
        if within(s, limit) && r.0 <= r.1 <= limit {
            assert forall|i: int| 0 <= i < head.len() implies (#[trigger] head[i]).0 <= head[i].1
                <= limit by {
                assert(head[i] == s[i]);
            }
            assert forall|i: int| 0 <= i < out.len() implies (#[trigger] out[i]).0 <= out[i].1
                <= limit by {
                if i < inner.len() {
                    assert(out[i] == inner[i]);
                } else {
                    assert(out[i] == s[s.len() - 1]);
                }
            }
        }
    } else {
        assert forall|i: int, j: int| 0 <= i <= j < out.len() implies out[i].0 <= out[j].0 by {
            if j < s.len() {
                assert(out[i] == s[i] && out[j] == s[j]);
            } else if i < j {
                assert(out[i] == s[i]);
                if s.len() > 0 {
                    assert(s[i].0 <= s[s.len() - 1].0);
                }
            }
        }
    }
}

/// Putting ranges in order gives as many ranges, in the order of where they
/// start, and within `limit` if they all were.
pub proof fn lemma_ordered(ranges: Seq<(usize, usize)>, n: nat, limit: int)
    requires
        n <= ranges.len(),
    ensures
        by_start(ordered_upto(ranges, n)),
        ordered_upto(ranges, n).len() == n,
        within(ranges, limit) ==> within(ordered_upto(ranges, n), limit),
    decreases n,
{
    if n > 0 {
        lemma_ordered(ranges, (n - 1) as nat, limit);
        lemma_placed(ordered_upto(ranges, (n - 1) as nat), ranges[n - 1], usize::MAX, limit);
    }
}

/// Joining ranges that are ordered by start, none of which ends before it
/// starts or beyond `limit`, gives ranges of the same kind that no longer
/// touch: each ends no later than the next one starts.
pub proof fn lemma_merged_apart(ranges: Seq<(usize, usize)>, n: nat, limit: int)
    requires
        n <= ranges.len(),
        by_start(ranges),
        within(ranges, limit),
    ensures
        ({
            let out = merged_upto(ranges, n);
            &&& within(out, limit)
            &&& forall|i: int| 0 <= i < out.len() - 1 ==> (#[trigger] out[i]).1 <= out[i + 1].0
            &&& n > 0 ==> out.len() > 0 && out.last().0 <= ranges[n - 1].0
            &&& out.len() <= n
        }),
    decreases n,
{
    if n > 0 {
        lemma_merged_apart(ranges, (n - 1) as nat, limit);
        let acc = merged_upto(ranges, (n - 1) as nat);
        let r = ranges[n - 1];
        let out = merged_upto(ranges, n);
        assert(out == joined(acc, r));
        if n > 1 {
            assert(ranges[n - 2].0 <= r.0);
        }
        if acc.len() > 0 && r.0 < acc.last().1 {
            assert forall|i: int| 0 <= i < out.len() - 1 implies (#[trigger] out[i]).1 <= out[i
                + 1].0 by {
                assert(out[i] == acc[i]);
                if i + 1 < out.len() - 1 {
                    assert(out[i + 1] == acc[i + 1]);
                }
            }
        } else {
            assert forall|i: int| 0 <= i < out.len() - 1 implies (#[trigger] out[i]).1 <= out[i
                + 1].0 by {
                assert(out[i] == acc[i]);
                if i + 1 < out.len() - 1 {
                    assert(out[i + 1] == acc[i + 1]);
                }
            }
        }
    }
}

/// The ranges of `hay` that the matches of `needle` at `offsets[..n]`
/// cover.
pub open spec fn spans_upto(offsets: Seq<int>, width: nat, n: nat) -> Seq<(usize, usize)>
    decreases n,
{
    if n == 0 || n > offsets.len() {
        Seq::empty()
    } else {
        spans_upto(offsets, width, (n - 1) as nat).push(
            (offsets[n - 1] as usize, (offsets[n - 1] + width) as usize),
        )
    }
}

/// The ranges of `label` that the first `n` of `pieces` match, piece by
/// piece and, for each piece, match by match.
pub open spec fn hits_upto(label: Seq<char>, pieces: Seq<Seq<char>>, n: nat) -> Seq<(usize, usize)>
    decreases n,
{
    if n == 0 || n > pieces.len() {
        Seq::empty()
    } else {
        let offsets = matches_from(label, pieces[n - 1], 0);
        hits_upto(label, pieces, (n - 1) as nat) + spans_upto(
            offsets,
            pieces[n - 1].len(),
            offsets.len(),
        )
    }
}

/// The ranges of `label`, in characters, that a search marks: what the
/// pieces of the search string match, ordered by where they start, with
/// ranges that run into each other joined. An empty search string marks
/// nothing.
pub open spec fn highlights(label: Seq<char>, search: Seq<char>) -> Seq<(usize, usize)> {
    if search.len() == 0 {
        Seq::empty()
    } else {
        let pieces = split_spaces(search);
        let hits = hits_upto(label, pieces, pieces.len());
        let ordered = ordered_upto(hits, hits.len());
        merged_upto(ordered, ordered.len())
    }
}

/// Putting the first `n` ranges in order does not look at what follows them.
proof fn lemma_ordered_prefix(a: Seq<(usize, usize)>, b: Seq<(usize, usize)>, n: nat)
    requires
        n <= a.len(),
    ensures
        ordered_upto(a + b, n) == ordered_upto(a, n),
    decreases n,
{
    if n > 0 {
        lemma_ordered_prefix(a, b, (n - 1) as nat);
        assert((a + b)[n - 1] == a[n - 1]);
    }
}

/// Finds the ranges of `label` that a search marks.
pub fn highlight_ranges(label: &str, search: &str) -> (marks: Vec<(usize, usize)>)
    ensures
        marks@ == highlights(label@, search@),
        within(marks@, label@.len() as int),
        forall|i: int| 0 <= i < marks@.len() - 1 ==> (#[trigger] marks@[i]).1 <= marks@[i + 1].0,
{
    if search.is_empty() {
        return Vec::new();
    }
    let hay = chars_of(label);
    let total = hay.len();
    let sought = chars_of(search);
    let pieces = split_chars(&sought);
    let ghost parts = split_spaces(search@);
    let ghost limit = label@.len() as int;
    let mut found: Vec<(usize, usize)> = Vec::new();
    let ghost mut hits: Seq<(usize, usize)> = Seq::empty();
    let mut i: usize = 0;
    while i < pieces.len()
        invariant
            i <= pieces.len(),
            hay@ == label@,
            total == limit,
            piece_views(pieces@) == parts,
            limit == label@.len(),
            hits == hits_upto(label@, parts, i as nat),
            found@ == ordered_upto(hits, hits.len()),
            within(hits, limit),
        decreases pieces.len() - i,
    {
        let piece = &pieces[i];
        let width = piece.len();
        let starts = find_matches(&hay, piece);
        let ghost places = matches_from(label@, parts[i as int], 0);
        let ghost base = hits;
        let mut k: usize = 0;
        proof {
            assert(parts[i as int] == pieces@[i as int]@);
            assert(base + spans_upto(places, width as nat, 0) =~= base);
        }
        while k < starts.len()
            invariant
                k <= starts.len(),
                offsets(starts@) == places,
                hay@.len() == limit,
                total == limit,
                forall|j: int|
                    0 <= j < starts@.len() ==> (#[trigger] starts@[j]) + width <= hay@.len(),
                hits == base + spans_upto(places, width as nat, k as nat),
                found@ == ordered_upto(hits, hits.len()),
                within(hits, limit),
            decreases starts.len() - k,
        {
            let start = starts[k];
            let span = (start, start + width);
            let ghost earlier = hits;
            place(&mut found, span);
            proof {
                hits = earlier.push(span);
                assert(places[k as int] == start);
                assert(hits =~= earlier + seq![span]);
                lemma_ordered_prefix(earlier, seq![span], earlier.len());
                assert(hits =~= base + spans_upto(places, width as nat, (k + 1) as nat));
            }
            k += 1;
        }
        i += 1;
    }
    proof {
        lemma_ordered(hits, hits.len(), limit);
        lemma_merged_apart(found@, found@.len(), limit);
    }
    merge(&found)
}

/// What the task pane shows for one task.
#[derive(Debug, PartialEq, Eq)]
pub struct TaskLine {
    pub id: u128,
    pub status: TaskStatus,
    /// How deep the task sits; the roots of a list are at depth 1.
    pub depth: usize,
    pub desc: String,
    /// Blanks between the label and the due note.
    pub padding: usize,
    /// How near the due date is, for a task that is open and has one.
    pub due: Option<DueNote>,
    /// The ranges of `desc`, in characters, that the search has hit.
    pub marks: Vec<(usize, usize)>,
}

/// The model of a line.
pub struct LineView {
    pub id: u128,
    pub status: TaskStatus,
    pub depth: nat,
    pub label: Seq<char>,
    pub padding: int,
    pub due: Option<DueNote>,
    pub marks: Seq<(usize, usize)>,
}

impl View for TaskLine {
    type V = LineView;

    open spec fn view(&self) -> LineView {
        LineView {
            id: self.id,
            status: self.status,
            depth: self.depth as nat,
            label: self.desc@,
            padding: self.padding as int,
            due: self.due,
            marks: self.marks@,
        }
    }
}

/// The models of a sequence of lines, in order.
pub open spec fn line_views(lines: Seq<TaskLine>) -> Seq<LineView> {
    Seq::new(lines.len(), |i: int| lines[i]@)
}

/// The line of task `t` at depth `dep` in a list `width` columns wide, on
/// the day `today`. The padding fills the line up to the width of the list
/// and one more. Under a search the label carries the marks of the search.
pub open spec fn line_of(
    t: Tree<TaskInfo>,
    dep: nat,
    width: nat,
    today: Date,
    search: Option<Seq<char>>,
) -> LineView {
    LineView {
        id: t.id,
        status: t.payload.status,
        depth: dep,
        label: t.label,
        padding: width - label_width(t.label) - 2 * dep + 1,
        due: due_note(t.payload.status, t.payload.due, today),
        marks: match search {
            Some(s) => highlights(t.label, s),
            None => Seq::empty(),
        },
    }
}

/// The lines of the tasks `forest[k..]` at depth `dep`: each task, then
/// the lines of its children one level deeper. There is one line for every
/// task, in the order in which a selection walks them.
pub open spec fn lines_from(
    forest: Seq<Tree<TaskInfo>>,
    k: int,
    dep: nat,
    width: nat,
    today: Date,
    search: Option<Seq<char>>,
) -> Seq<LineView>
    decreases forest, forest.len() - k,
{
    if k < 0 || k >= forest.len() {
        Seq::empty()
    } else {
        seq![line_of(forest[k], dep, width, today, search)] + lines_from(
            forest[k].children,
            0,
            dep + 1,
            width,
            today,
            search,
        ) + lines_from(forest, k + 1, dep, width, today, search)
    }
}

/// The ids of a sequence of lines, in order.
pub open spec fn line_ids(lines: Seq<LineView>) -> Seq<u128> {
    Seq::new(lines.len(), |i: int| lines[i].id)
}

/// The lines follow the flattened forest: line `i` is the line of the
/// `i`-th task in pre-order, so the row of a task is its place in the
/// sequence that a selection walks.
pub proof fn lemma_lines_follow_flatten(
    forest: Seq<Tree<TaskInfo>>,
    k: int,
    dep: nat,
    width: nat,
    today: Date,
    search: Option<Seq<char>>,
)
    requires
        0 <= k,
    ensures
        line_ids(lines_from(forest, k, dep, width, today, search)) == flatten_from(forest, k),
    decreases forest, forest.len() - k,
{
    if k < forest.len() {
        lemma_lines_follow_flatten(forest[k].children, 0, dep + 1, width, today, search);
        lemma_lines_follow_flatten(forest, k + 1, dep, width, today, search);
    }
    assert(line_ids(lines_from(forest, k, dep, width, today, search)) =~= flatten_from(forest, k));
}

/// The rows of a list are the ids that a selection walks in it: under a
/// search, row `i` shows the `i`-th of the ids that the search lets
/// through, so the cursor of the list is on the row of the selected task.
pub proof fn lemma_rows_are_navigable(
    forest: Seq<Tree<TaskInfo>>,
    search: Seq<char>,
    dep: nat,
    width: nat,
    today: Date,
    marked: Option<Seq<char>>,
)
    ensures
        line_ids(lines_from(shown_roots(forest, search), 0, dep, width, today, marked))
            == navigable_ids(forest, search),
{
    lemma_lines_follow_flatten(shown_roots(forest, search), 0, dep, width, today, marked);
}

/// The search string of an optional search.
pub open spec fn search_view(search: Option<&str>) -> Option<Seq<char>> {
    match search {
        Some(s) => Some(s@),
        None => None,
    }
}

/// The widest line from root `k` on is at least as wide as the line of that
/// root, as any line below it, and as any line of the roots that follow.
proof fn lemma_max_len_parts(forest: Seq<Tree<TaskInfo>>, k: int, dep: nat)
    requires
        0 <= k < forest.len(),
    ensures
        label_width(forest[k].label) + 2 * dep <= max_len_from(forest, k, dep),
        max_len_from(forest[k].children, 0, dep + 1) <= max_len_from(forest, k, dep),
        max_len_from(forest, k + 1, dep) <= max_len_from(forest, k, dep),
{
}

/// The lines of `task_list` at depth `dep` in a list `max_desc_len` columns
/// wide, on the day `today`, plain or under a search.
pub fn task_lines(
    task_list: &Vec<Task>,
    dep: usize,
    max_desc_len: usize,
    today: Date,
    search: Option<&str>,
) -> (lines: Vec<TaskLine>)
    requires
        max_len_from(task_forest(task_list@), 0, dep as nat) <= max_desc_len < usize::MAX,
    ensures
        line_views(lines@) == lines_from(
            task_forest(task_list@),
            0,
            dep as nat,
            max_desc_len as nat,
            today,
            search_view(search),
        ),
    decreases task_list,
{
    let ghost forest = task_forest(task_list@);
    let ghost sought = search_view(search);
    let ghost whole = lines_from(forest, 0, dep as nat, max_desc_len as nat, today, sought);
    let mut lines: Vec<TaskLine> = Vec::new();
    let mut i: usize = 0;
    proof {
        lemma_task_forest(task_list@);
        assert(line_views(lines@) + whole =~= whole);
    }
    while i < task_list.len()
        invariant
            i <= task_list.len(),
            forest == task_forest(task_list@),
            forest.len() == task_list.len(),
            sought == search_view(search),
            max_desc_len < usize::MAX,
            max_len_from(forest, i as int, dep as nat) <= max_desc_len,
            line_views(lines@) + lines_from(
                forest,
                i as int,
                dep as nat,
                max_desc_len as nat,
                today,
                sought,
            ) == whole,
        decreases task_list.len() - i,
    {
        let ghost so_far = line_views(lines@);
        let item = &task_list[i];
        proof {
            lemma_task_forest(task_list@);
            lemma_task_forest(item.children@);
            lemma_max_len_parts(forest, i as int, dep as nat);
        }
        let marks = match search {
            Some(s) => highlight_ranges(item.desc.as_str(), s),
            None => Vec::new(),
        };
        let line = TaskLine {
            id: item.id,
            status: item.status,
            depth: dep,
            desc: item.desc.clone(),
            padding: max_desc_len - item.desc.as_str().len() - dep * 2 + 1,
            due: note_due(item.status, item.due, today),
            marks,
        };
        proof {
            assert(line@ == line_of(
                forest[i as int],
                dep as nat,
                max_desc_len as nat,
                today,
                sought,
            ));
        }
        lines.push(line);
        let ghost with_line = line_views(lines@);
        proof {
            assert(with_line =~= so_far.push(line@));
        }
        let mut below = task_lines(&item.children, dep + 1, max_desc_len, today, search);
        let ghost below_views = line_views(below@);
        lines.append(&mut below);
        proof {
            assert(line_views(lines@) =~= with_line + below_views);
        }
        proof {
            assert(line_views(lines@) + lines_from(
                forest,
                i + 1,
                dep as nat,
                max_desc_len as nat,
                today,
                sought,
            ) =~= so_far + lines_from(
                forest,
                i as int,
                dep as nat,
                max_desc_len as nat,
                today,
                sought,
            ));
        }
        i += 1;
    }
    proof {
        assert(line_views(lines@) + lines_from(
            forest,
            i as int,
            dep as nat,
            max_desc_len as nat,
            today,
            sought,
        ) =~= line_views(lines@));
    }
    lines
}

impl TodoWidget {
    /// The lines of `task_list` at depth `dep` in a list `max_desc_len`
    /// columns wide, on the day `today`.
    pub fn get_task_list_item(
        task_list: &Vec<Task>,
        dep: usize,
        max_desc_len: usize,
        today: Date,
    ) -> (lines: Vec<TaskLine>)
        requires
            max_len_from(task_forest(task_list@), 0, dep as nat) <= max_desc_len < usize::MAX,
        ensures
            line_views(lines@) == lines_from(
                task_forest(task_list@),
                0,
                dep as nat,
                max_desc_len as nat,
                today,
                None,
            ),
    {
        task_lines(task_list, dep, max_desc_len, today, None)
    }

    /// The lines of `task_list` under the search `search_string`, with the
    /// parts of each label that the search has hit marked.
    pub fn get_search_list_item(
        search_string: &str,
        task_list: &Vec<Task>,
        dep: usize,
        max_desc_len: usize,
        today: Date,
    ) -> (lines: Vec<TaskLine>)
        requires
            max_len_from(task_forest(task_list@), 0, dep as nat) <= max_desc_len < usize::MAX,
        ensures
            line_views(lines@) == lines_from(
                task_forest(task_list@),
                0,
                dep as nat,
                max_desc_len as nat,
                today,
                Some(search_string@),
            ),
    {
        task_lines(task_list, dep, max_desc_len, today, Some(search_string))
    }
}

/// Today's date on this machine's clock. All that is known of it is that
/// the calendar has it.
pub fn today() -> (date: Date)
    ensures
        date.valid(),
{
    local_today()
}

} // verus!
