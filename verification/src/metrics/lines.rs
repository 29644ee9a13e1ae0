//! Texts as lists of lines.
use crate::text::{decimal, signed_decimal};
use vstd::prelude::*;
use vstd::string::*;

verus! {

// ── Lines ───────────────────────────────────────────────────────────────────

/// The pieces of a text between its newlines; one more than it has newlines.
pub open spec fn pieces(text: Seq<char>) -> Seq<Seq<char>>
    decreases text.len(),
{
    if text.len() == 0 {
        seq![Seq::empty()]
    } else {
        let r = pieces(text.drop_last());
        if text.last() == '\n' {
            r.push(Seq::empty())
        } else {
            r.drop_last().push(r.last().push(text.last()))
        }
    }
}

/// The lines of a text that ends with a newline.
pub open spec fn lines_of(text: Seq<char>) -> Seq<Seq<char>> {
    pieces(text).drop_last()
}

/// The text holds no newline.
pub open spec fn one_line(s: Seq<char>) -> bool {
    forall|i: int| 0 <= i < s.len() ==> s[i] != '\n'
}

/// The text of a list of lines, each ended by a newline.
pub open spec fn text_of(ls: Seq<Seq<char>>) -> Seq<char>
    decreases ls.len(),
{
    if ls.len() == 0 {
        Seq::empty()
    } else {
        text_of(ls.drop_last()) + ls.last() + "\n"@
    }
}

pub(crate) proof fn pieces_some(text: Seq<char>)
    ensures
        pieces(text).len() > 0,
    decreases text.len(),
{
    if text.len() > 0 {
        pieces_some(text.drop_last());
    }
}

pub(crate) proof fn pieces_of_longer(a: Seq<char>, l: Seq<char>)
    requires
        one_line(l),
    ensures
        pieces(a + l) == pieces(a).drop_last().push(pieces(a).last() + l),
    decreases l.len(),
{
    pieces_some(a);
    if l.len() == 0 {
        assert(a + l =~= a);
        assert(pieces(a).last() + l =~= pieces(a).last());
        assert(pieces(a) =~= pieces(a).drop_last().push(pieces(a).last()));
    } else {
        let less = l.drop_last();
        pieces_of_longer(a, less);
        assert((a + l).drop_last() =~= a + less);
        let r = pieces(a + less);
        assert(r.drop_last() =~= pieces(a).drop_last());
        assert(r.last().push(l.last()) =~= pieces(a).last() + l);
    }
}

pub(crate) proof fn pieces_of_lines(ls: Seq<Seq<char>>)
    requires
        forall|i: int| 0 <= i < ls.len() ==> one_line(#[trigger] ls[i]),
    ensures
        pieces(text_of(ls)) == ls.push(Seq::empty()),
    decreases ls.len(),
{
    if ls.len() == 0 {
        assert(pieces(text_of(ls)) =~= ls.push(Seq::empty()));
    } else {
        let head = ls.drop_last();
        let t = text_of(head);
        pieces_of_lines(head);
        pieces_of_longer(t, ls.last());
        reveal_strlit("\n");
        let all = t + ls.last() + "\n"@;
        assert(all.drop_last() =~= t + ls.last());
        assert(all.last() == '\n');
        assert(pieces(t).drop_last() =~= head);
        assert(pieces(t).last() + ls.last() =~= ls.last());
        assert(head.push(ls.last()) =~= ls);
    }
}

pub(crate) proof fn text_of_sum(a: Seq<Seq<char>>, b: Seq<Seq<char>>)
    ensures
        text_of(a + b) == text_of(a) + text_of(b),
    decreases b.len(),
{
    if b.len() == 0 {
        assert(a + b =~= a);
        assert(text_of(a) + text_of(b) =~= text_of(a));
    } else {
        text_of_sum(a, b.drop_last());
        assert((a + b).drop_last() =~= a + b.drop_last());
        assert(text_of(a + b) =~= text_of(a) + text_of(b));
    }
}

// ── Words and single lines ──────────────────────────────────────────────────

/// The text holds no space, no opening brace and no newline.
pub open spec fn is_word(s: Seq<char>) -> bool {
    forall|i: int| 0 <= i < s.len() ==> s[i] != ' ' && s[i] != '{' && s[i] != '\n'
}

pub(crate) open spec fn free_of_stops(s: Seq<char>, n: int) -> bool
    decreases n,
{
    n <= 0 || (s[n - 1] != ' ' && s[n - 1] != '{' && s[n - 1] != '\n' && free_of_stops(s, n - 1))
}

pub(crate) open spec fn free_of_newlines(s: Seq<char>, n: int) -> bool
    decreases n,
{
    n <= 0 || (s[n - 1] != '\n' && free_of_newlines(s, n - 1))
}

pub(crate) proof fn free_of_stops_at(s: Seq<char>, n: int, i: int)
    requires
        free_of_stops(s, n),
        0 <= i < n,
    ensures
        s[i] != ' ',
        s[i] != '{',
        s[i] != '\n',
    decreases n,
{
    if i < n - 1 {
        free_of_stops_at(s, n - 1, i);
    }
}

pub(crate) proof fn free_of_newlines_at(s: Seq<char>, n: int, i: int)
    requires
        free_of_newlines(s, n),
        0 <= i < n,
    ensures
        s[i] != '\n',
    decreases n,
{
    if i < n - 1 {
        free_of_newlines_at(s, n - 1, i);
    }
}

pub(crate) proof fn word_of(s: Seq<char>)
    requires
        free_of_stops(s, s.len() as int),
    ensures
        is_word(s),
{
    assert forall|i: int| 0 <= i < s.len() implies s[i] != ' ' && s[i] != '{' && s[i]
        != '\n' by {
        free_of_stops_at(s, s.len() as int, i);
    }
}

pub(crate) proof fn line_of(s: Seq<char>)
    requires
        free_of_newlines(s, s.len() as int),
    ensures
        one_line(s),
{
    assert forall|i: int| 0 <= i < s.len() implies s[i] != '\n' by {
        free_of_newlines_at(s, s.len() as int, i);
    }
}

pub(crate) proof fn one_line_sum(a: Seq<char>, b: Seq<char>)
    requires
        one_line(a),
        one_line(b),
    ensures
        one_line(a + b),
{
    assert forall|i: int| 0 <= i < (a + b).len() implies (a + b)[i] != '\n' by {
        if i >= a.len() {
            assert((a + b)[i] == b[i - a.len()]);
        }
    }
}

pub(crate) proof fn decimal_is_digits(n: nat)
    ensures
        decimal(n).len() > 0,
        forall|i: int| 0 <= i < decimal(n).len() ==> '0' <= #[trigger] decimal(n)[i] <= '9',
    decreases n,
{
    if n >= 10 {
        decimal_is_digits(n / 10);
    }
}

pub(crate) proof fn decimal_line(n: nat)
    ensures
        one_line(decimal(n)),
{
    decimal_is_digits(n);
}

pub(crate) proof fn signed_decimal_line(n: int)
    ensures
        one_line(signed_decimal(n)),
{
    reveal_strlit("-");
    if n < 0 {
        decimal_line((-n) as nat);
        one_line_sum("-"@, decimal((-n) as nat));
    } else {
        decimal_line(n as nat);
    }
}

} // verus!
