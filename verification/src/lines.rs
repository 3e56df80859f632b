//! The mathematical model of line-structured text.
//!
//! A text is a sequence of characters. A line break is exactly a `'\n'`; line
//! `i` runs from just after the `i - 1`-th break to and including the `i`-th
//! break (the last line runs to the end of the text and contains no break).
//! A text that ends in `'\n'` therefore has an extra empty final line, and
//! the empty text has one empty line.

use vstd::prelude::*;

verus! {

/// How many `'\n'` characters `s` holds.
pub open spec fn nl_count(s: Seq<char>) -> int
    decreases s.len(),
{
    if s.len() == 0 {
        0
    } else {
        (if s[0] == '\n' {
            1int
        } else {
            0int
        }) + nl_count(s.drop_first())
    }
}

/// The position of the `i`-th `'\n'` of `s` (0-based); meaningful for
/// `0 <= i < nl_count(s)`.
pub open spec fn nth_nl(s: Seq<char>, i: int) -> int
    decreases s.len(),
{
    if s.len() == 0 {
        0
    } else if s[0] == '\n' {
        if i == 0 {
            0
        } else {
            1 + nth_nl(s.drop_first(), i - 1)
        }
    } else {
        1 + nth_nl(s.drop_first(), i)
    }
}

/// How many lines `s` has; always at least 1.
pub open spec fn line_count(s: Seq<char>) -> int {
    nl_count(s) + 1
}

/// The character offset at which line `i` starts.
pub open spec fn line_start(s: Seq<char>, i: int) -> int {
    if i <= 0 {
        0
    } else {
        nth_nl(s, i - 1) + 1
    }
}

/// The character offset one past the end of line `i` (past its `'\n'` if it
/// has one).
pub open spec fn line_end(s: Seq<char>, i: int) -> int {
    if i >= nl_count(s) {
        s.len() as int
    } else {
        nth_nl(s, i) + 1
    }
}

/// The characters of line `i`, including its trailing `'\n'` if it has one.
pub open spec fn line_at(s: Seq<char>, i: int) -> Seq<char> {
    s.subrange(line_start(s, i), line_end(s, i))
}

/// The length of line `i` in characters, counting its trailing `'\n'`.
pub open spec fn line_len(s: Seq<char>, i: int) -> int {
    line_end(s, i) - line_start(s, i)
}

pub proof fn lemma_nl_count_singleton(c: char)
    ensures
        nl_count(seq![c]) == (if c == '\n' {
            1int
        } else {
            0int
        }),
{
    assert(seq![c].drop_first() =~= Seq::<char>::empty());
    assert(nl_count(Seq::<char>::empty()) == 0);
    assert(seq![c][0] == c);
}

pub proof fn lemma_nl_count_bounds(s: Seq<char>)
    ensures
        0 <= nl_count(s) <= s.len(),
    decreases s.len(),
{
    if s.len() != 0 {
        lemma_nl_count_bounds(s.drop_first());
    }
}

pub proof fn lemma_nl_count_concat(a: Seq<char>, b: Seq<char>)
    ensures
        nl_count(a + b) == nl_count(a) + nl_count(b),
    decreases a.len(),
{
    if a.len() == 0 {
        assert(a + b =~= b);
    } else {
        lemma_nl_count_concat(a.drop_first(), b);
        assert((a + b).drop_first() =~= a.drop_first() + b);
    }
}

/// Counting newlines in a prefix grows by one exactly at a `'\n'`.
pub proof fn lemma_nl_count_take_step(s: Seq<char>, i: int)
    requires
        0 <= i < s.len(),
    ensures
        nl_count(s.take(i + 1)) == nl_count(s.take(i)) + (if s[i] == '\n' {
            1int
        } else {
            0int
        }),
{
    assert(s.take(i + 1) =~= s.take(i) + seq![s[i]]);
    lemma_nl_count_concat(s.take(i), seq![s[i]]);
    lemma_nl_count_singleton(s[i]);
}

pub proof fn lemma_nl_count_take_mono(s: Seq<char>, i: int, j: int)
    requires
        0 <= i <= j <= s.len(),
    ensures
        nl_count(s.take(i)) <= nl_count(s.take(j)),
        nl_count(s.take(j)) - nl_count(s.take(i)) <= j - i,
{
    assert(s.take(j) =~= s.take(i) + s.subrange(i, j));
    lemma_nl_count_concat(s.take(i), s.subrange(i, j));
    lemma_nl_count_bounds(s.subrange(i, j));
}

pub proof fn lemma_nl_count_whole(s: Seq<char>)
    ensures
        nl_count(s.take(s.len() as int)) == nl_count(s),
{
    assert(s.take(s.len() as int) =~= s);
}

/// Where the `i`-th newline sits: it is a `'\n'`, and exactly `i` newlines
/// come before it.
pub proof fn lemma_nth_nl(s: Seq<char>, i: int)
    requires
        0 <= i < nl_count(s),
    ensures
        0 <= nth_nl(s, i) < s.len(),
        s[nth_nl(s, i)] == '\n',
        nl_count(s.take(nth_nl(s, i))) == i,
    decreases s.len(),
{
    if s.len() != 0 {
        if s[0] == '\n' && i == 0 {
            assert(s.take(0) =~= Seq::<char>::empty());
        } else {
            let rest = s.drop_first();
            let j = if s[0] == '\n' {
                i - 1
            } else {
                i
            };
            lemma_nth_nl(rest, j);
            let p = nth_nl(rest, j);
            assert(s[1 + p] == rest[p]);
            assert(s.take(1 + p) =~= seq![s[0]] + rest.take(p));
            lemma_nl_count_concat(seq![s[0]], rest.take(p));
            lemma_nl_count_singleton(s[0]);
        }
    }
}

/// Every `'\n'` is the `k`-th newline, where `k` is the number of newlines
/// before it.
pub proof fn lemma_nth_nl_inverse(s: Seq<char>, p: int)
    requires
        0 <= p < s.len(),
        s[p] == '\n',
    ensures
        nl_count(s.take(p)) < nl_count(s),
        nth_nl(s, nl_count(s.take(p))) == p,
    decreases s.len(),
{
    lemma_nl_count_take_step(s, p);
    lemma_nl_count_take_mono(s, p + 1, s.len() as int);
    lemma_nl_count_whole(s);
    if p == 0 && s[0] == '\n' {
        assert(s.take(0) =~= Seq::<char>::empty());
    } else {
        let rest = s.drop_first();
        assert(rest[p - 1] == s[p]);
        lemma_nth_nl_inverse(rest, p - 1);
        assert(s.take(p) =~= seq![s[0]] + rest.take(p - 1));
        lemma_nl_count_concat(seq![s[0]], rest.take(p - 1));
        lemma_nl_count_singleton(s[0]);
        lemma_nl_count_bounds(rest.take(p - 1));
        if s[0] == '\n' {
            assert(nl_count(s.take(p)) == 1 + nl_count(rest.take(p - 1)));
            assert(nth_nl(s, nl_count(s.take(p))) == 1 + nth_nl(rest, nl_count(rest.take(p - 1))));
        } else {
            assert(nl_count(s.take(p)) == nl_count(rest.take(p - 1)));
        }
    }
}

/// A stretch without newlines does not change the prefix count.
pub proof fn lemma_nl_count_constant_range(s: Seq<char>, a: int, b: int)
    requires
        0 <= a <= b <= s.len(),
        forall|q: int| a <= q < b ==> s[q] != '\n',
    ensures
        nl_count(s.take(b)) == nl_count(s.take(a)),
    decreases b - a,
{
    if a < b {
        lemma_nl_count_take_step(s, b - 1);
        lemma_nl_count_constant_range(s, a, b - 1);
    }
}

/// A newline inside a prefix sits at the same rank in the prefix and in the
/// whole text.
pub proof fn lemma_nth_nl_prefix(s: Seq<char>, m: int, j: int)
    requires
        0 <= m <= s.len(),
        0 <= j < nl_count(s.take(m)),
    ensures
        j < nl_count(s),
        nth_nl(s, j) == nth_nl(s.take(m), j),
        nth_nl(s, j) < m,
{
    let pre = s.take(m);
    lemma_nth_nl(pre, j);
    let p = nth_nl(pre, j);
    assert(pre.take(p) =~= s.take(p));
    assert(s[p] == pre[p]);
    lemma_nth_nl_inverse(s, p);
}

/// Every offset lies in the line numbered by the count of newlines before
/// it, at or after that line's start.
pub proof fn lemma_line_of_offset(s: Seq<char>, p: int)
    requires
        0 <= p <= s.len(),
    ensures
        nl_count(s.take(p)) <= nl_count(s),
        line_start(s, nl_count(s.take(p))) <= p,
{
    lemma_nl_count_take_mono(s, p, s.len() as int);
    lemma_nl_count_whole(s);
    let l = nl_count(s.take(p));
    if l > 0 {
        lemma_nth_nl(s, l - 1);
        if nth_nl(s, l - 1) >= p {
            lemma_nl_count_take_mono(s, p, nth_nl(s, l - 1));
            assert(false);
        }
    }
}

/// The basic geometry of line `i`: where it starts and ends, that exactly
/// `i` newlines precede it, and that it contains no newline before its final
/// position (which is a `'\n'` for every line but the last).
pub proof fn lemma_line_geometry(s: Seq<char>, i: int)
    requires
        0 <= i < line_count(s),
    ensures
        0 <= line_start(s, i) <= line_end(s, i) <= s.len(),
        nl_count(s.take(line_start(s, i))) == i,
        i < nl_count(s) ==> line_len(s, i) >= 1 && s[line_end(s, i) - 1] == '\n',
        forall|q: int|
            line_start(s, i) <= q < line_end(s, i) - (if i < nl_count(s) {
                1int
            } else {
                0int
            }) ==> s[q] != '\n',
        i == nl_count(s) ==> line_end(s, i) == s.len(),
{
    lemma_nl_count_bounds(s);
    if i > 0 {
        lemma_nth_nl(s, i - 1);
        lemma_nl_count_take_step(s, nth_nl(s, i - 1));
    } else {
        assert(s.take(0) =~= Seq::<char>::empty());
    }
    if i < nl_count(s) {
        lemma_nth_nl(s, i);
        // start <= end: exactly i newlines precede the start, so the start
        // cannot lie beyond the i-th newline
        if line_start(s, i) > nth_nl(s, i) {
            lemma_nl_count_take_step(s, nth_nl(s, i));
            lemma_nl_count_take_mono(s, nth_nl(s, i) + 1, line_start(s, i));
            assert(false);
        }
    }
    assert forall|q: int|
        line_start(s, i) <= q < line_end(s, i) - (if i < nl_count(s) {
            1int
        } else {
            0int
        }) implies s[q] != '\n' by {
        if s[q] == '\n' {
            lemma_nth_nl_inverse(s, q);
            lemma_nl_count_take_mono(s, line_start(s, i), q);
            if i < nl_count(s) {
                lemma_nth_nl(s, i);
                lemma_nl_count_take_mono(s, q, nth_nl(s, i));
                // so nl_count(s.take(q)) == i, making q the i-th newline,
                // yet q < nth_nl(s, i)
                assert(false);
            } else {
                assert(false);
            }
        }
    }
}

/// Line starts strictly increase, so distinct lines do not overlap.
pub proof fn lemma_line_start_mono(s: Seq<char>, i: int, j: int)
    requires
        0 <= i <= j < line_count(s),
    ensures
        line_start(s, i) <= line_start(s, j),
        i < j ==> line_end(s, i) <= line_start(s, j),
{
    lemma_line_geometry(s, i);
    lemma_line_geometry(s, j);
    if i < j {
        // i < j <= nl_count(s), so line i ends at its own newline
        lemma_nth_nl(s, i);
        lemma_nl_count_take_step(s, nth_nl(s, i));
        if line_end(s, i) > line_start(s, j) {
            // j newlines precede line j's start, i + 1 precede line i's end
            lemma_nl_count_take_mono(s, line_start(s, j), line_end(s, i));
            // so j == i + 1, but then the two offsets coincide
            assert(line_start(s, j) == nth_nl(s, i) + 1);
            assert(false);
        }
    }
}

} // verus!
