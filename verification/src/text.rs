//! Character-level helpers shared by the parsers: splitting at a separator
//! and comparing ranges of a character buffer with fixed patterns.

use vstd::prelude::*;

verus! {

/// `prefix` is a prefix of `s`.
pub open spec fn has_prefix(s: Seq<char>, prefix: Seq<char>) -> bool {
    prefix.len() <= s.len() && s.take(prefix.len() as int) == prefix
}

/// The pieces of `s` between occurrences of `sep`, in order: always one more
/// piece than there are separators, so the empty sequence has one empty piece.
/// This is what `str::split` yields for a one-character pattern.
pub open spec fn split_on(s: Seq<char>, sep: char) -> Seq<Seq<char>>
    decreases s.len(),
{
    if s.len() == 0 {
        seq![Seq::empty()]
    } else {
        let pieces = split_on(s.drop_last(), sep);
        if s.last() == sep {
            pieces.push(Seq::empty())
        } else {
            pieces.update(pieces.len() - 1, pieces.last().push(s.last()))
        }
    }
}

/// Splitting always yields at least one piece.
pub proof fn lemma_split_on_nonempty(s: Seq<char>, sep: char)
    ensures
        split_on(s, sep).len() >= 1,
    decreases s.len(),
{
    if s.len() > 0 {
        lemma_split_on_nonempty(s.drop_last(), sep);
    }
}

/// Appending characters that hold no separator extends the last piece.
pub proof fn lemma_split_on_extend_last(x: Seq<char>, y: Seq<char>, sep: char)
    requires
        !y.contains(sep),
    ensures
        split_on(x, sep).len() >= 1,
        split_on(x + y, sep) == split_on(x, sep).update(
            split_on(x, sep).len() - 1,
            split_on(x, sep).last() + y,
        ),
    decreases y.len(),
{
    lemma_split_on_nonempty(x, sep);
    let p = split_on(x, sep);
    if y.len() == 0 {
        assert(x + y =~= x);
        assert(p.last() + y =~= p.last());
        assert(p.update(p.len() - 1, p.last() + y) =~= p);
    } else {
        let y0 = y.drop_last();
        assert(!y0.contains(sep)) by {
            if y0.contains(sep) {
                let i = choose|i: int| 0 <= i < y0.len() && y0[i] == sep;
                assert(y[i] == sep);
            }
        }
        lemma_split_on_extend_last(x, y0, sep);
        assert((x + y).drop_last() =~= x + y0);
        assert((x + y).last() == y.last());
        assert(y.last() != sep) by {
            assert(y[y.len() - 1] == y.last());
        }
        let q = split_on(x + y0, sep);
        assert(q.last() == p.last() + y0);
        assert((p.last() + y0).push(y.last()) =~= p.last() + y);
        assert(q.update(q.len() - 1, q.last().push(y.last())) =~= p.update(
            p.len() - 1,
            p.last() + y,
        ));
    }
}

/// The characters of `s`, in order.
pub fn chars_of(s: &str) -> (res: Vec<char>)
    ensures
        res@ == s@,
{
    broadcast use vstd::string::group_string_axioms;

    let mut res: Vec<char> = Vec::new();
    for c in it: s.chars()
        invariant
            res@ == it.seq().take(it.index()),
    {
        res.push(c);
    }
    res
}

/// The boundaries, as positions in `s`, of the pieces of `s[start..end]`
/// between occurrences of `sep` (see [`split_on`]).
pub fn split_ranges(s: &Vec<char>, start: usize, end: usize, sep: char) -> (res: Vec<(usize, usize)>)
    requires
        start <= end <= s@.len(),
    ensures
        res@.len() == split_on(s@.subrange(start as int, end as int), sep).len(),
        forall|k: int|
            0 <= k < res@.len() ==> {
                &&& start <= (#[trigger] res@[k]).0 <= res@[k].1 <= end
                &&& s@.subrange(res@[k].0 as int, res@[k].1 as int) == split_on(
                    s@.subrange(start as int, end as int),
                    sep,
                )[k]
            },
{
    let mut res: Vec<(usize, usize)> = Vec::new();
    let mut piece_start: usize = start;
    let mut i: usize = start;
    proof {
        assert(s@.subrange(start as int, start as int) =~= Seq::<char>::empty());
    }
    while i < end
        invariant
            start <= piece_start <= i <= end <= s@.len(),
            res@.len() + 1 == split_on(s@.subrange(start as int, i as int), sep).len(),
            split_on(s@.subrange(start as int, i as int), sep).last() == s@.subrange(
                piece_start as int,
                i as int,
            ),
            forall|k: int|
                0 <= k < res@.len() ==> {
                    &&& start <= (#[trigger] res@[k]).0 <= res@[k].1 <= i
                    &&& s@.subrange(res@[k].0 as int, res@[k].1 as int) == split_on(
                        s@.subrange(start as int, i as int),
                        sep,
                    )[k]
                },
        decreases end - i,
    {
        let ghost before = s@.subrange(start as int, i as int);
        let ghost after = s@.subrange(start as int, i + 1);
        proof {
            assert(after.drop_last() =~= before);
            lemma_split_on_nonempty(before, sep);
        }
        if s[i] == sep {
            res.push((piece_start, i));
            piece_start = i + 1;
            proof {
                assert(s@.subrange(piece_start as int, i + 1) =~= Seq::<char>::empty());
            }
        } else {
            proof {
                assert(s@.subrange(piece_start as int, i + 1) =~= s@.subrange(
                    piece_start as int,
                    i as int,
                ).push(s@[i as int]));
            }
        }
        i = i + 1;
    }
    res.push((piece_start, end));
    res
}

/// The characters `s[start..end]` are exactly `pat`.
pub fn range_equals(s: &Vec<char>, start: usize, end: usize, pat: &[char]) -> (res: bool)
    requires
        start <= end <= s@.len(),
    ensures
        res == (s@.subrange(start as int, end as int) == pat@),
{
    if end - start != pat.len() {
        return false;
    }
    let mut i: usize = 0;
    while i < pat.len()
        invariant
            end - start == pat@.len(),
            start <= end <= s@.len(),
            i <= pat@.len(),
            forall|k: int| 0 <= k < i ==> s@[start + k] == pat@[k],
        decreases pat@.len() - i,
    {
        if s[start + i] != pat[i] {
            proof {
                assert(s@.subrange(start as int, end as int)[i as int] != pat@[i as int]);
            }
            return false;
        }
        i = i + 1;
    }
    proof {
        assert(s@.subrange(start as int, end as int) =~= pat@);
    }
    true
}

/// The characters `s[start..end]` begin with `pat`.
pub fn range_starts_with(s: &Vec<char>, start: usize, end: usize, pat: &[char]) -> (res: bool)
    requires
        start <= end <= s@.len(),
    ensures
        res == has_prefix(s@.subrange(start as int, end as int), pat@),
{
    if end - start < pat.len() {
        return false;
    }
    let res = range_equals(s, start, start + pat.len(), pat);
    proof {
        assert(s@.subrange(start as int, end as int).take(pat@.len() as int) =~= s@.subrange(
            start as int,
            start + pat@.len(),
        ));
    }
    res
}

} // verus!
