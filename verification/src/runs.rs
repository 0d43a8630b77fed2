//! What the scanner writes while it crosses one stretch of the text: plain
//! code, a literal, or a comment.

use vstd::prelude::*;
use crate::scanner::{ahead_at, is_quote, prev_at, scan, State};

verus! {

/// From any position and in any state, the scanner writes at most as many
/// characters as are left to read.
pub proof fn lemma_scan_len(s: Seq<char>, i: int, state: State)
    requires
        0 <= i <= s.len(),
    ensures
        scan(s, i, state).len() <= s.len() - i,
    decreases s.len() - i,
{
    if i < s.len() {
        let t = state.step(prev_at(s, i), s[i], ahead_at(s, i));
        if t.skip {
            lemma_scan_len(s, i + 2, t.state);
        } else {
            lemma_scan_len(s, i + 1, t.state);
        }
    }
}

/// What the scanner writes from a position on does not depend on the text
/// in front of that position, except that a scanner inside a literal
/// looks back one character.
pub proof fn lemma_scan_shift(a: Seq<char>, b: Seq<char>, i: int, state: State)
    requires
        0 <= i <= b.len(),
        i == 0 ==> !(state is String),
    ensures
        scan(a + b, a.len() + i, state) == scan(b, i, state),
    decreases b.len() - i,
{
    if i < b.len() {
        let s = a + b;
        let k = a.len() + i;
        let t = state.step(prev_at(b, i), b[i], ahead_at(b, i));
        assert(s[k] == b[i] && ahead_at(s, k) == ahead_at(b, i));
        assert(i > 0 ==> prev_at(s, k) == prev_at(b, i));
        if t.skip {
            lemma_scan_shift(a, b, i + 2, t.state);
        } else {
            lemma_scan_shift(a, b, i + 1, t.state);
        }
    }
}

/// No quote stands in `s[i..j]`, and neither `//` nor `/*` begins there.
pub open spec fn plain_run(s: Seq<char>, i: int, j: int) -> bool {
    &&& 0 <= i <= j <= s.len()
    &&& forall|k: int| i <= k < j ==> !is_quote(#[trigger] s[k])
    &&& forall|k: int|
        i <= k < j && k + 1 < s.len() ==> !(#[trigger] s[k] == '/' && (s[k + 1] == '/' || s[k + 1]
            == '*'))
}

/// Across plain code the scanner stays in code and copies every character.
pub proof fn lemma_plain_run(s: Seq<char>, i: int, j: int)
    requires
        plain_run(s, i, j),
    ensures
        scan(s, i, State::Code) == s.subrange(i, j) + scan(s, j, State::Code),
    decreases j - i,
{
    if i < j {
        lemma_plain_run(s, i + 1, j);
    }
}

/// The literal that opens at `i` is still open at `j`: the opening quote
/// does not occur unescaped strictly between the two positions.
pub open spec fn literal_open(s: Seq<char>, i: int, j: int) -> bool {
    &&& 0 <= i < j <= s.len()
    &&& is_quote(s[i])
    &&& forall|k: int| i < k < j ==> !(#[trigger] s[k] == s[i] && s[k - 1] != '\\')
}

/// `s[i..=j]` is a well-formed literal: it opens with a quote at `i` and
/// closes at `j`, the first place after `i` where that quote stands
/// unescaped.
pub open spec fn is_literal(s: Seq<char>, i: int, j: int) -> bool {
    &&& literal_open(s, i, j)
    &&& j < s.len()
    &&& s[j] == s[i]
    &&& s[j - 1] != '\\'
}

/// Inside an open literal every character is copied and the literal stays
/// open.
pub proof fn lemma_literal_body(s: Seq<char>, i: int, k: int, j: int)
    requires
        literal_open(s, i, j),
        i < k <= j,
    ensures
        scan(s, k, State::String(s[i])) == s.subrange(k, j) + scan(s, j, State::String(s[i])),
    decreases j - k,
{
    if k < j {
        lemma_literal_body(s, i, k + 1, j);
    }
}

/// A literal met in code is copied, opening quote included, for as long as
/// it stays open; comment delimiters inside it are not recognised.
pub proof fn lemma_open_literal(s: Seq<char>, i: int, j: int)
    requires
        literal_open(s, i, j),
    ensures
        scan(s, i, State::Code) == s.subrange(i, j) + scan(s, j, State::String(s[i])),
{
    lemma_literal_body(s, i, i + 1, j);
}

/// A well-formed literal met in code is reproduced exactly, with both
/// quotes, and the scanner is back in code behind it.
pub proof fn lemma_literal(s: Seq<char>, i: int, j: int)
    requires
        is_literal(s, i, j),
    ensures
        scan(s, i, State::Code) == s.subrange(i, j + 1) + scan(s, j + 1, State::Code),
{
    lemma_open_literal(s, i, j);
}

/// No newline stands in `s[i..j]`.
pub open spec fn no_newline(s: Seq<char>, i: int, j: int) -> bool {
    forall|k: int| i <= k < j ==> #[trigger] s[k] != '\n'
}

/// Inside a single-line comment everything before the line's end is
/// discarded.
pub proof fn lemma_line_comment_body(s: Seq<char>, i: int, j: int)
    requires
        0 <= i <= j <= s.len(),
        no_newline(s, i, j),
    ensures
        scan(s, i, State::SingleLineComment) == scan(s, j, State::SingleLineComment),
    decreases j - i,
{
    if i < j {
        lemma_line_comment_body(s, i + 1, j);
    }
}

/// A `//` comment met in code takes the text up to the next newline, and
/// that newline is written: the line boundary survives the comment.
pub proof fn lemma_line_comment(s: Seq<char>, i: int, j: int)
    requires
        0 <= i,
        i + 2 <= j < s.len(),
        s[i] == '/',
        s[i + 1] == '/',
        no_newline(s, i + 2, j),
        s[j] == '\n',
    ensures
        scan(s, i, State::Code) == seq!['\n'] + scan(s, j + 1, State::Code),
{
    lemma_line_comment_body(s, i + 2, j);
}

/// A `//` comment met in code, with no newline behind it, takes the rest
/// of the text.
pub proof fn lemma_line_comment_open(s: Seq<char>, i: int)
    requires
        0 <= i,
        i + 2 <= s.len(),
        s[i] == '/',
        s[i + 1] == '/',
        no_newline(s, i + 2, s.len() as int),
    ensures
        scan(s, i, State::Code) == Seq::<char>::empty(),
{
    lemma_line_comment_body(s, i + 2, s.len() as int);
}

/// No `*/` begins in `s[i..j]`.
pub open spec fn no_block_end(s: Seq<char>, i: int, j: int) -> bool {
    forall|k: int| i <= k < j && k + 1 < s.len() ==> !(#[trigger] s[k] == '*' && s[k + 1] == '/')
}

/// Inside a multi-line comment everything before the closing `*/` is
/// discarded.
pub proof fn lemma_block_comment_body(s: Seq<char>, i: int, j: int)
    requires
        0 <= i <= j <= s.len(),
        no_block_end(s, i, j),
    ensures
        scan(s, i, State::MultiLineComment) == scan(s, j, State::MultiLineComment),
    decreases j - i,
{
    if i < j {
        lemma_block_comment_body(s, i + 1, j);
    }
}

/// A `/* */` comment met in code is dropped whole, both delimiters
/// included, up to the first `*/` behind its opener.
pub proof fn lemma_block_comment(s: Seq<char>, i: int, j: int)
    requires
        0 <= i,
        i + 2 <= j,
        j + 1 < s.len(),
        s[i] == '/',
        s[i + 1] == '*',
        no_block_end(s, i + 2, j),
        s[j] == '*',
        s[j + 1] == '/',
    ensures
        scan(s, i, State::Code) == scan(s, j + 2, State::Code),
{
    lemma_block_comment_body(s, i + 2, j);
}

/// A `/*` comment met in code and never closed takes the rest of the
/// text.
pub proof fn lemma_block_comment_open(s: Seq<char>, i: int)
    requires
        0 <= i,
        i + 2 <= s.len(),
        s[i] == '/',
        s[i + 1] == '*',
        no_block_end(s, i + 2, s.len() as int),
    ensures
        scan(s, i, State::Code) == Seq::<char>::empty(),
{
    lemma_block_comment_body(s, i + 2, s.len() as int);
}

} // verus!
