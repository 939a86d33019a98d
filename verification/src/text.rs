//! Strings as sequences of characters: taking them apart at spaces and
//! finding one inside another.

use vstd::prelude::*;

verus! {

/// `needle` stands in `hay` at position `i`.
pub open spec fn occurs_at(hay: Seq<char>, needle: Seq<char>, i: int) -> bool {
    0 <= i && i + needle.len() <= hay.len() && hay.subrange(i, i + needle.len()) == needle
}

/// `needle` occurs in `hay` as a contiguous run of characters.
pub open spec fn is_substring(needle: Seq<char>, hay: Seq<char>) -> bool {
    exists|i: int| occurs_at(hay, needle, i)
}

/// Position of the first space in `s`, or `s.len()` when it has none.
pub open spec fn first_space(s: Seq<char>) -> int
    decreases s.len(),
{
    if s.len() == 0 {
        0
    } else if s[0] == ' ' {
        0
    } else {
        1 + first_space(s.drop_first())
    }
}

/// The pieces of `s` between single spaces, in order. Two spaces in a row,
/// or a space at either end, give an empty piece; a string without spaces
/// is its own only piece.
pub open spec fn split_spaces(s: Seq<char>) -> Seq<Seq<char>>
    decreases s.len(),
{
    let cut = first_space(s);
    if 0 <= cut < s.len() {
        seq![s.subrange(0, cut)] + split_spaces(s.subrange(cut + 1, s.len() as int))
    } else {
        seq![s]
    }
}

/// How far a search moves on after a match: by the length of what was
/// found, and by one where that is empty.
pub open spec fn match_step(needle: Seq<char>) -> int {
    if needle.len() == 0 {
        1
    } else {
        needle.len() as int
    }
}

/// Where `needle` is found in `hay` from position `from` on, reading left
/// to right and going on behind each match: the matches do not overlap,
/// and an empty `needle` is found once at every position, the end
/// included.
pub open spec fn matches_from(hay: Seq<char>, needle: Seq<char>, from: int) -> Seq<int>
    decreases hay.len() + 1 - from,
{
    if from < 0 || from > hay.len() {
        Seq::empty()
    } else if occurs_at(hay, needle, from) {
        seq![from] + matches_from(hay, needle, from + match_step(needle))
    } else {
        matches_from(hay, needle, from + 1)
    }
}

/// The character sequences of a sequence of pieces, in order.
pub open spec fn piece_views(pieces: Seq<Vec<char>>) -> Seq<Seq<char>> {
    Seq::new(pieces.len(), |i: int| pieces[i]@)
}

/// The characters of a string, in order.
pub fn chars_of(s: &str) -> (chars: Vec<char>)
    ensures
        chars@ == s@,
{
    let mut chars: Vec<char> = Vec::new();
    for c in it: s.chars()
        invariant
            chars@ == it.seq().take(it.index() as int),
            it.seq() == s@,
    {
        chars.push(c);
    }
    chars
}

/// Whether `needle` stands in `hay` at position `i`.
pub fn stands_at(hay: &Vec<char>, needle: &Vec<char>, i: usize) -> (yes: bool)
    ensures
        yes == occurs_at(hay@, needle@, i as int),
{
    if i > hay.len() || needle.len() > hay.len() - i {
        return false;
    }
    let mut k: usize = 0;
    while k < needle.len()
        invariant
            k <= needle.len(),
            i + needle.len() <= hay.len(),
            forall|j: int| 0 <= j < k ==> hay@[i + j] == needle@[j],
        decreases needle.len() - k,
    {
        if hay[i + k] != needle[k] {
            proof {
                let window = hay@.subrange(i as int, i + needle@.len());
                assert(window[k as int] == hay@[i + k]);
            }
            return false;
        }
        k += 1;
    }
    proof {
        assert(hay@.subrange(i as int, i + needle@.len()) =~= needle@);
    }
    true
}

/// Whether `needle` occurs in `hay`.
pub fn contains_chars(hay: &Vec<char>, needle: &Vec<char>) -> (found: bool)
    ensures
        found == is_substring(needle@, hay@),
{
    if needle.len() > hay.len() {
        return false;
    }
    if needle.len() == 0 {
        proof {
            assert(hay@.subrange(0, 0) =~= needle@);
            assert(occurs_at(hay@, needle@, 0));
        }
        return true;
    }
    let last = hay.len() - needle.len();
    let mut i: usize = 0;
    while i <= last
        invariant
            i <= last + 1,
            last == hay.len() - needle.len(),
            0 < needle.len() <= hay.len(),
            forall|j: int| 0 <= j < i ==> !occurs_at(hay@, needle@, j),
        decreases last + 1 - i,
    {
        if stands_at(hay, needle, i) {
            return true;
        }
        i += 1;
    }
    false
}

/// A sequence whose first `m` characters are no spaces has its first space
/// at `m` if a space stands there, and none if `m` is its length.
pub proof fn lemma_first_space(s: Seq<char>, m: int)
    requires
        0 <= m <= s.len(),
        forall|j: int| 0 <= j < m ==> s[j] != ' ',
        m < s.len() ==> s[m] == ' ',
    ensures
        first_space(s) == m,
    decreases m,
{
    if m > 0 {
        let rest = s.drop_first();
        assert forall|j: int| 0 <= j < m - 1 implies rest[j] != ' ' by {
            assert(rest[j] == s[j + 1]);
        }
        lemma_first_space(rest, m - 1);
    }
}

/// Takes a string apart at its spaces.
pub fn split_chars(s: &Vec<char>) -> (pieces: Vec<Vec<char>>)
    ensures
        piece_views(pieces@) == split_spaces(s@),
{
    let mut pieces: Vec<Vec<char>> = Vec::new();
    let mut piece: Vec<char> = Vec::new();
    let mut start: usize = 0;
    let mut i: usize = 0;
    proof {
        assert(s@.subrange(0, s@.len() as int) =~= s@);
        assert(piece_views(pieces@) + split_spaces(s@) =~= split_spaces(s@));
    }
    while i < s.len()
        invariant
            start <= i <= s.len(),
            piece@ == s@.subrange(start as int, i as int),
            forall|j: int| start <= j < i ==> s@[j] != ' ',
            piece_views(pieces@) + split_spaces(s@.subrange(start as int, s@.len() as int))
                == split_spaces(s@),
        decreases s.len() - i,
    {
        let ghost done = piece_views(pieces@);
        let ghost rest = s@.subrange(start as int, s@.len() as int);
        if s[i] == ' ' {
            proof {
                lemma_first_space(rest, i - start);
                assert(rest.subrange(0, i - start) =~= piece@);
                assert(rest.subrange(i - start + 1, rest.len() as int) =~= s@.subrange(
                    i + 1,
                    s@.len() as int,
                ));
            }
            let ghost cut = piece@;
            pieces.push(piece);
            piece = Vec::new();
            start = i + 1;
            proof {
                assert(piece_views(pieces@) =~= done + seq![cut]);
            }
        } else {
            piece.push(s[i]);
        }
        i += 1;
        proof {
            assert(piece@ =~= s@.subrange(start as int, i as int));
        }
    }
    let ghost done = piece_views(pieces@);
    let ghost rest = s@.subrange(start as int, s@.len() as int);
    proof {
        lemma_first_space(rest, rest.len() as int);
        assert(piece@ =~= rest);
    }
    pieces.push(piece);
    proof {
        assert(piece_views(pieces@) =~= done + seq![rest]);
    }
    pieces
}

/// Positions as integers.
pub open spec fn offsets(starts: Seq<usize>) -> Seq<int> {
    Seq::new(starts.len(), |i: int| starts[i] as int)
}

/// Finds where `needle` occurs in `hay`, reading left to right and going on
/// behind each match.
pub fn find_matches(hay: &Vec<char>, needle: &Vec<char>) -> (starts: Vec<usize>)
    ensures
        offsets(starts@) == matches_from(hay@, needle@, 0),
        forall|i: int|
            0 <= i < starts@.len() ==> (#[trigger] starts@[i]) + needle@.len() <= hay@.len(),
{
    let ghost whole = matches_from(hay@, needle@, 0);
    let mut starts: Vec<usize> = Vec::new();
    let mut from: usize = 0;
    proof {
        assert(offsets(starts@) + whole =~= whole);
    }
    while from < hay.len()
        invariant
            from <= hay.len(),
            offsets(starts@) + matches_from(hay@, needle@, from as int) == whole,
            forall|i: int|
                0 <= i < starts@.len() ==> (#[trigger] starts@[i]) + needle@.len() <= hay@.len(),
        decreases hay.len() - from,
    {
        let ghost found = offsets(starts@);
        if stands_at(hay, needle, from) {
            starts.push(from);
            proof {
                assert(offsets(starts@) =~= found + seq![from as int]);
                assert(offsets(starts@) + matches_from(
                    hay@,
                    needle@,
                    from + match_step(needle@),
                ) =~= found + matches_from(hay@, needle@, from as int));
            }
            from = if needle.len() == 0 {
                from + 1
            } else {
                from + needle.len()
            };
        } else {
            from += 1;
        }
    }
    let ghost found = offsets(starts@);
    if needle.len() == 0 {
        proof {
            assert(hay@.subrange(from as int, from as int) =~= needle@);
            assert(matches_from(hay@, needle@, from + 1) =~= Seq::<int>::empty());
        }
        starts.push(from);
        proof {
            assert(offsets(starts@) =~= found + seq![from as int]);
            assert(found + seq![from as int] =~= found + matches_from(hay@, needle@, from as int));
        }
    } else {
        proof {
            assert(matches_from(hay@, needle@, from + 1) =~= Seq::<int>::empty());
            assert(found + matches_from(hay@, needle@, from as int) =~= found);
        }
    }
    starts
}

} // verus!
