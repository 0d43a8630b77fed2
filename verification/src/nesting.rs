//! What holds of the bracket checks: the texts that the check with a
//! stack accepts are those of the grammar of nested brackets, and on
//! texts without square brackets the two checks agree.

use vstd::prelude::*;
use crate::brackets::{
    after_char, balanced, closes, depth, is_bracket, nested, open_after, well_nested,
};

verus! {

/// Once a closing bracket has met no partner, nothing behind it mends
/// that.
pub proof fn lemma_failure_lasts(start: Seq<char>, s: Seq<char>, k: int)
    requires
        0 <= k <= s.len(),
        open_after(start, s.take(k)) is None,
    ensures
        open_after(start, s) is None,
    decreases s.len() - k,
{
    if k < s.len() {
        assert(s.take(k + 1).drop_last() =~= s.take(k));
        lemma_failure_lasts(start, s, k + 1);
    } else {
        assert(s.take(k) =~= s);
    }
}

/// Reading `a` and then `b` leaves open what reading `b` leaves open
/// behind the brackets that `a` left.
pub proof fn lemma_open_after_concat(start: Seq<char>, a: Seq<char>, b: Seq<char>)
    ensures
        open_after(start, a + b) == match open_after(start, a) {
            Some(middle) => open_after(middle, b),
            None => None,
        },
    decreases b.len(),
{
    if b.len() > 0 {
        assert((a + b).drop_last() =~= a + b.drop_last());
        lemma_open_after_concat(start, a, b.drop_last());
    }
}

/// A text that closes only what it opened does not look at the brackets
/// that were open before it: they stay below, untouched.
pub proof fn lemma_open_after_frame(base: Seq<char>, start: Seq<char>, s: Seq<char>)
    requires
        open_after(start, s) is Some,
    ensures
        open_after(base + start, s) == Some(base + open_after(start, s)->0),
    decreases s.len(),
{
    if s.len() > 0 {
        lemma_open_after_frame(base, start, s.drop_last());
    }
}

/// The empty text is well nested.
pub proof fn law_well_nested_empty()
    ensures
        well_nested(Seq::<char>::empty()),
{
}

/// A character that is no bracket, put behind a text, changes nothing.
pub proof fn law_well_nested_other(s: Seq<char>, c: char)
    requires
        !is_bracket(c),
    ensures
        well_nested(s.push(c)) == well_nested(s),
{
    assert(s.push(c).drop_last() =~= s);
}

/// Two well-nested texts, one behind the other, are well nested.
pub proof fn law_well_nested_concat(a: Seq<char>, b: Seq<char>)
    requires
        well_nested(a),
        well_nested(b),
    ensures
        well_nested(a + b),
{
    lemma_open_after_concat(Seq::empty(), a, b);
}

/// A well-nested text inside a pair of parentheses or of square brackets
/// is well nested.
pub proof fn law_well_nested_wrap(s: Seq<char>, opening: char, closing: char)
    requires
        well_nested(s),
        closes(opening, closing),
    ensures
        well_nested(seq![opening] + s + seq![closing]),
{
    let empty = Seq::<char>::empty();
    let inner = seq![opening] + s;
    assert(seq![opening].drop_last() =~= empty);
    assert(open_after(empty, empty) == Some(empty));
    lemma_open_after_concat(empty, seq![opening], s);
    lemma_open_after_frame(seq![opening], empty, s);
    assert((inner + seq![closing]).drop_last() =~= inner);
}

/// The brackets open behind the first `m` characters of `s`.
pub open spec fn open_at(s: Seq<char>, m: int) -> Option<Seq<char>> {
    open_after(Seq::empty(), s.take(m))
}

/// A text that every closing bracket finds its partner in has no prefix
/// in which one does not.
pub proof fn lemma_prefixes_succeed(s: Seq<char>, m: int)
    requires
        open_after(Seq::empty(), s) is Some,
        0 <= m <= s.len(),
    ensures
        open_at(s, m) is Some,
{
    if open_at(s, m) is None {
        lemma_failure_lasts(Seq::empty(), s, m);
    }
}

/// The brackets open behind `m + 1` characters are those open behind
/// `m`, after character `m`.
pub proof fn lemma_open_at_next(s: Seq<char>, m: int)
    requires
        0 <= m < s.len(),
    ensures
        open_at(s, m + 1) == match open_at(s, m) {
            Some(open) => after_char(open, s[m]),
            None => None,
        },
{
    assert(s.take(m + 1).drop_last() =~= s.take(m));
}

/// From position `k` to position `m` the bracket `s[k]` is open, and it
/// is the outermost that is: it was opened at `k` with nothing open.
pub open spec fn outermost_open(s: Seq<char>, k: int, m: int) -> bool {
    &&& 0 <= k < m <= s.len()
    &&& open_at(s, k) == Some(Seq::<char>::empty())
    &&& s[k] == '(' || s[k] == '['
    &&& forall|j: int|
        k < j <= m ==> {
            &&& #[trigger] open_at(s, j) is Some
            &&& open_at(s, j)->0.len() >= 1
            &&& open_at(s, j)->0[0] == s[k]
        }
}

/// Where a bracket is open, the place at which the outermost open
/// bracket was opened can be found.
pub proof fn lemma_find_outermost(s: Seq<char>, m: int) -> (k: int)
    requires
        0 <= m <= s.len(),
        open_at(s, m) is Some,
        open_at(s, m)->0.len() >= 1,
    ensures
        outermost_open(s, k, m),
    decreases m,
{
    if m == 0 {
        0
    } else {
        lemma_open_at_next(s, m - 1);
        let before = open_at(s, m - 1)->0;
        if before.len() == 0 {
            assert(before =~= Seq::<char>::empty());
            m - 1
        } else {
            lemma_find_outermost(s, m - 1)
        }
    }
}

/// While a bracket stays open, the text behind it runs as if it stood
/// alone: what it leaves open lies on top of that bracket.
pub proof fn lemma_inside_outermost(s: Seq<char>, k: int, m: int, j: int)
    requires
        outermost_open(s, k, m),
        k < j <= m,
    ensures
        open_after(Seq::empty(), s.subrange(k + 1, j)) is Some,
        open_at(s, j) == Some(seq![s[k]] + open_after(Seq::empty(), s.subrange(k + 1, j))->0),
    decreases j - k,
{
    if j == k + 1 {
        lemma_open_at_next(s, k);
    } else {
        lemma_inside_outermost(s, k, m, j - 1);
        lemma_open_at_next(s, j - 1);
        assert(s.subrange(k + 1, j).drop_last() =~= s.subrange(k + 1, j - 1));
    }
}

/// A well-nested text that ends in a bracket ends in a closing bracket,
/// and splits at the partner of that bracket: what stands before the
/// partner is well nested, and so is what stands between the two.
pub proof fn law_well_nested_split(s: Seq<char>) -> (k: int)
    requires
        well_nested(s),
        s.len() > 0,
        is_bracket(s.last()),
    ensures
        0 <= k < s.len() - 1,
        closes(s[k], s.last()),
        well_nested(s.take(k)),
        well_nested(s.subrange(k + 1, s.len() - 1)),
{
    let n = s.len() as int;
    let empty = Seq::<char>::empty();
    assert(s.take(n) =~= s);
    lemma_prefixes_succeed(s, n - 1);
    lemma_open_at_next(s, n - 1);
    let before = open_at(s, n - 1)->0;
    assert(before.len() == 1 && closes(before[0], s.last())) by {
        if s.last() == '(' || s.last() == '[' {
            assert(before.push(s.last()).len() > 0);
        } else {
            assert(before.drop_last() =~= empty);
        }
    }
    let k = lemma_find_outermost(s, n - 1);
    lemma_inside_outermost(s, k, n - 1, n - 1);
    let inner = open_after(empty, s.subrange(k + 1, n - 1))->0;
    assert(inner =~= empty);
    k
}

/// The check with a stack accepts exactly the texts of the grammar.
pub proof fn law_well_nested_is_nested(s: Seq<char>)
    ensures
        well_nested(s) == nested(s),
    decreases s.len(),
{
    if s.len() > 0 {
        let n = s.len() as int;
        if !is_bracket(s.last()) {
            law_well_nested_is_nested(s.drop_last());
            law_well_nested_other(s.drop_last(), s.last());
            assert(s.drop_last().push(s.last()) =~= s);
        } else if well_nested(s) {
            let k = law_well_nested_split(s);
            law_well_nested_is_nested(s.take(k));
            law_well_nested_is_nested(s.subrange(k + 1, n - 1));
        } else if nested(s) {
            let k = choose|k: int|
                0 <= k < s.len() - 1 && closes(s[k], s.last()) && nested(#[trigger] s.take(k))
                    && nested(s.subrange(k + 1, s.len() - 1));
            let inside = s.subrange(k + 1, n - 1);
            law_well_nested_is_nested(s.take(k));
            law_well_nested_is_nested(inside);
            law_well_nested_wrap(inside, s[k], s.last());
            law_well_nested_concat(s.take(k), seq![s[k]] + inside + seq![s.last()]);
            assert(s.take(k) + (seq![s[k]] + inside + seq![s.last()]) =~= s);
        }
    }
}

/// No square bracket stands in `s`.
pub open spec fn no_square_brackets(s: Seq<char>) -> bool {
    forall|k: int| 0 <= k < s.len() ==> #[trigger] s[k] != '[' && s[k] != ']'
}

/// Without square brackets the open brackets are as many `(` as the
/// depth says, for as long as the depth has not gone below zero.
pub proof fn lemma_open_parentheses(s: Seq<char>)
    requires
        no_square_brackets(s),
    ensures
        match open_after(Seq::empty(), s) {
            Some(open) => {
                &&& open.len() == depth(s)
                &&& forall|j: int| 0 <= j < open.len() ==> open[j] == '('
                &&& forall|k: int| 0 <= k <= s.len() ==> depth(#[trigger] s.take(k)) >= 0
            },
            None => exists|k: int| 0 <= k <= s.len() && depth(#[trigger] s.take(k)) < 0,
        },
    decreases s.len(),
{
    if s.len() > 0 {
        let front = s.drop_last();
        lemma_open_parentheses(front);
        assert(s.take(s.len() as int) =~= s);
        assert forall|k: int| 0 <= k < s.len() implies #[trigger] s.take(k) == front.take(k) by {
            assert(s.take(k) =~= front.take(k));
        }
        if open_after(Seq::empty(), front) is None {
            let k = choose|k: int| 0 <= k <= front.len() && depth(#[trigger] front.take(k)) < 0;
            assert(s.take(k) == front.take(k));
        }
    }
}

/// On a text without square brackets the two checks agree.
pub proof fn law_checks_agree(s: Seq<char>)
    requires
        no_square_brackets(s),
    ensures
        well_nested(s) == balanced(s),
{
    lemma_open_parentheses(s);
    match open_after(Seq::empty(), s) {
        Some(open) => {
            assert(open.len() == 0 <==> open =~= Seq::<char>::empty());
        },
        None => {},
    }
}

} // verus!
