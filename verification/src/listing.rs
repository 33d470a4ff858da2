//! The lines of a power-supply directory listing and the battery names
//! among them.

use vstd::prelude::*;
use vstd::string::*;
use crate::decimal::chars_of;

verus! {

broadcast use vstd::seq_lib::group_seq_properties;

/// The number of characters before the first line feed (or the whole length).
pub open spec fn line_len(s: Seq<char>) -> nat
    decreases s.len(),
{
    if s.len() == 0 || s[0] == '\n' {
        0
    } else {
        1 + line_len(s.drop_first())
    }
}

/// A line that a line feed ended loses one carriage return before it.
pub open spec fn strip_cr(l: Seq<char>) -> Seq<char> {
    if l.len() > 0 && l.last() == '\r' {
        l.drop_last()
    } else {
        l
    }
}

/// The lines of `s` as the standard library's `str::lines` yields them: split
/// at each `\n`, a `\r` right before a `\n` dropped, and no empty last line
/// after a final `\n`.
pub open spec fn lines_of(s: Seq<char>) -> Seq<Seq<char>>
    decreases s.len(),
{
    if s.len() == 0 {
        seq![]
    } else {
        let k = line_len(s);
        if k < s.len() {
            seq![strip_cr(s.take(k as int))] + lines_of(s.skip(k + 1 as int))
        } else {
            seq![s]
        }
    }
}

/// `l` holds the text `BAT` somewhere.
pub open spec fn contains_bat(l: Seq<char>) -> bool {
    exists|i: int| 0 <= i && i + 3 <= l.len() && #[trigger] l.subrange(i, i + 3) =~= seq!['B', 'A', 'T']
}

/// The lines of a listing that name a battery, in listing order.
pub open spec fn bat_lines(s: Seq<char>) -> Seq<Seq<char>> {
    lines_of(s).filter(|l: Seq<char>| contains_bat(l))
}

pub proof fn lemma_line_len(s: Seq<char>, m: int)
    requires
        0 <= m <= s.len(),
        forall|t: int| 0 <= t < m ==> s[t] != '\n',
        m == s.len() || s[m] == '\n',
    ensures
        line_len(s) == m,
    decreases m,
{
    if m > 0 {
        lemma_line_len(s.drop_first(), m - 1);
    }
}

pub proof fn lemma_filter_single(l: Seq<char>, rest: Seq<Seq<char>>)
    ensures
        (seq![l] + rest).filter(|x: Seq<char>| contains_bat(x)) == (if contains_bat(l) {
            seq![l]
        } else {
            Seq::<Seq<char>>::empty()
        }) + rest.filter(|x: Seq<char>| contains_bat(x)),
{
    let p = |x: Seq<char>| contains_bat(x);
    Seq::filter_distributes_over_add(seq![l], rest, p);
    Seq::<Seq<char>>::empty().lemma_filter_push(l, p);
    assert(Seq::<Seq<char>>::empty().push(l) =~= seq![l]);
    reveal(Seq::filter);
    assert(Seq::<Seq<char>>::empty().filter(p) =~= Seq::<Seq<char>>::empty());
}

/// The lines of `s` from `start` on: the line that a `\n` at `i` ends, then
/// the lines after that `\n`.
pub proof fn lemma_next_line(s: Seq<char>, start: int, i: int)
    requires
        0 <= start <= i < s.len(),
        forall|t: int| start <= t < i ==> s[t] != '\n',
        s[i] == '\n',
    ensures
        lines_of(s.skip(start)).filter(|x: Seq<char>| contains_bat(x)) == (if contains_bat(
            strip_cr(s.subrange(start, i)),
        ) {
            seq![strip_cr(s.subrange(start, i))]
        } else {
            Seq::<Seq<char>>::empty()
        }) + lines_of(s.skip(i + 1)).filter(|x: Seq<char>| contains_bat(x)),
{
    let rest = s.skip(start);
    lemma_line_len(rest, i - start);
    assert(rest.skip(i - start + 1) =~= s.skip(i + 1));
    assert(rest.take(i - start) =~= s.subrange(start, i));
    lemma_filter_single(strip_cr(s.subrange(start, i)), lines_of(s.skip(i + 1)));
}

/// The lines of `s` from `start` on when no `\n` follows: that one line.
pub proof fn lemma_last_line(s: Seq<char>, start: int)
    requires
        0 <= start < s.len(),
        forall|t: int| start <= t < s.len() ==> s[t] != '\n',
    ensures
        lines_of(s.skip(start)).filter(|x: Seq<char>| contains_bat(x)) == (if contains_bat(
            s.subrange(start, s.len() as int),
        ) {
            seq![s.subrange(start, s.len() as int)]
        } else {
            Seq::<Seq<char>>::empty()
        }),
{
    let rest = s.skip(start);
    lemma_line_len(rest, rest.len() as int);
    assert(rest =~= s.subrange(start, s.len() as int));
    lemma_filter_single(rest, Seq::<Seq<char>>::empty());
    reveal(Seq::filter);
    assert(Seq::<Seq<char>>::empty().filter(|x: Seq<char>| contains_bat(x)) =~= Seq::<Seq<char>>::empty());
}

/// Every battery name taken from a listing is a line of that listing and
/// holds `BAT`, and every line that holds `BAT` is taken.
pub proof fn law_bat_lines(s: Seq<char>)
    ensures
        forall|i: int| 0 <= i < bat_lines(s).len() ==> contains_bat(#[trigger] bat_lines(s)[i])
            && lines_of(s).contains(bat_lines(s)[i]),
        forall|l: Seq<char>| #[trigger] lines_of(s).contains(l) && contains_bat(l) ==> bat_lines(s).contains(l),
{
    let p = |x: Seq<char>| contains_bat(x);
    assert forall|i: int| 0 <= i < bat_lines(s).len() implies contains_bat(#[trigger] bat_lines(s)[i])
        && lines_of(s).contains(bat_lines(s)[i]) by {
        lines_of(s).lemma_filter_pred(p, i);
        assert(lines_of(s).filter(p).contains(bat_lines(s)[i]));
        lines_of(s).lemma_filter_contains_rev(p, bat_lines(s)[i]);
    }
    assert forall|l: Seq<char>| #[trigger] lines_of(s).contains(l) && contains_bat(l) implies bat_lines(s).contains(l) by {
        let k = choose|k: int| 0 <= k < lines_of(s).len() && lines_of(s)[k] == l;
        lines_of(s).lemma_filter_contains(p, k);
    }
}

/// Whether `v[from..to]` holds the text `BAT`.
pub fn has_bat(v: &Vec<char>, from: usize, to: usize) -> (r: bool)
    requires
        from <= to <= v.len(),
    ensures
        r == contains_bat(v@.subrange(from as int, to as int)),
{
    let ghost l = v@.subrange(from as int, to as int);
    if to - from < 3 {
        return false;
    }
    let mut i: usize = from;
    while i <= to - 3
        invariant
            from <= i,
            to - from >= 3,
            i <= to,
            to <= v.len(),
            l == v@.subrange(from as int, to as int),
            forall|j: int| 0 <= j < i - from ==> !(#[trigger] l.subrange(j, j + 3) =~= seq!['B', 'A', 'T']),
        decreases to - i,
    {
        if v[i] == 'B' && v[i + 1] == 'A' && v[i + 2] == 'T' {
            assert(l.subrange(i - from, i - from + 3) =~= seq!['B', 'A', 'T']);
            return true;
        }
        assert(!(l.subrange(i - from, i - from + 3) =~= seq!['B', 'A', 'T'])) by {
            if l.subrange(i - from, i - from + 3) =~= seq!['B', 'A', 'T'] {
                assert(l.subrange(i - from, i - from + 3)[0] == v@[i as int]);
                assert(l.subrange(i - from, i - from + 3)[1] == v@[i + 1]);
                assert(l.subrange(i - from, i - from + 3)[2] == v@[i + 2]);
            }
        }
        i = i + 1;
    }
    false
}

} // verus!
