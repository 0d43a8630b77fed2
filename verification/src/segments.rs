//! The stripped text described segment by segment: a text is a row of
//! comments, literals and single characters of plain code, and each of
//! them contributes its part of the output.

use vstd::prelude::*;
use crate::runs::{
    is_literal, lemma_block_comment, lemma_block_comment_open, lemma_line_comment,
    lemma_line_comment_open, lemma_literal, lemma_open_literal, literal_open, no_block_end,
    no_newline,
};
use crate::scanner::{ahead_at, is_quote, scan, strip_comments, State};

verus! {

/// The first position from `i` on at which a newline stands, and the end
/// of `s` where none does.
pub open spec fn line_end(s: Seq<char>, i: int) -> int
    decreases s.len() - i,
{
    if 0 <= i < s.len() && s[i] != '\n' {
        line_end(s, i + 1)
    } else {
        i
    }
}

/// The first position from `i` on at which `*/` begins, and a position
/// with less than two characters behind it where none does.
pub open spec fn block_end(s: Seq<char>, i: int) -> int
    decreases s.len() - i,
{
    if 0 <= i && i + 1 < s.len() && !(s[i] == '*' && s[i + 1] == '/') {
        block_end(s, i + 1)
    } else {
        i
    }
}

/// The first position from `i` on at which `quote` stands with no
/// backslash right before it, and the end of `s` where there is none.
pub open spec fn literal_end(s: Seq<char>, quote: char, i: int) -> int
    decreases s.len() - i,
{
    if 0 < i < s.len() && !(s[i] == quote && s[i - 1] != '\\') {
        literal_end(s, quote, i + 1)
    } else {
        i
    }
}

/// `line_end` finds the first newline.
pub proof fn lemma_line_end(s: Seq<char>, i: int)
    requires
        0 <= i <= s.len(),
    ensures
        i <= line_end(s, i) <= s.len(),
        no_newline(s, i, line_end(s, i)),
        line_end(s, i) < s.len() ==> s[line_end(s, i)] == '\n',
    decreases s.len() - i,
{
    if i < s.len() && s[i] != '\n' {
        lemma_line_end(s, i + 1);
    }
}

/// `block_end` finds the first `*/`.
pub proof fn lemma_block_end(s: Seq<char>, i: int)
    requires
        0 <= i <= s.len(),
    ensures
        i <= block_end(s, i) <= s.len(),
        no_block_end(s, i, block_end(s, i)),
        block_end(s, i) + 1 < s.len() ==> s[block_end(s, i)] == '*' && s[block_end(s, i) + 1]
            == '/',
        block_end(s, i) + 1 >= s.len() ==> no_block_end(s, i, s.len() as int),
    decreases s.len() - i,
{
    if i + 1 < s.len() && !(s[i] == '*' && s[i + 1] == '/') {
        lemma_block_end(s, i + 1);
    }
}

/// `literal_end` finds the first unescaped `quote`.
pub proof fn lemma_literal_end(s: Seq<char>, quote: char, i: int)
    requires
        0 < i <= s.len(),
    ensures
        i <= literal_end(s, quote, i) <= s.len(),
        forall|k: int|
            i <= k < literal_end(s, quote, i) ==> !(#[trigger] s[k] == quote && s[k - 1] != '\\'),
        literal_end(s, quote, i) < s.len() ==> s[literal_end(s, quote, i)] == quote && s[literal_end(
            s,
            quote,
            i,
        ) - 1] != '\\',
    decreases s.len() - i,
{
    if i < s.len() && !(s[i] == quote && s[i - 1] != '\\') {
        lemma_literal_end(s, quote, i + 1);
    }
}

/// What is kept of `s` from position `i` on, where `i` stands in code:
/// a `//` comment leaves its newline, a `/* */` comment leaves nothing, a
/// literal is kept whole, and any other character is kept; a comment or a
/// literal that is not closed reaches to the end of `s`.
pub open spec fn kept_from(s: Seq<char>, i: int) -> Seq<char>
    decreases s.len() - i,
{
    if !(0 <= i < s.len()) {
        Seq::empty()
    } else if s[i] == '/' && ahead_at(s, i) == Some('/') {
        let j = line_end(s, i + 2);
        proof {
            lemma_line_end(s, i + 2);
        }
        if j < s.len() {
            seq!['\n'] + kept_from(s, j + 1)
        } else {
            Seq::empty()
        }
    } else if s[i] == '/' && ahead_at(s, i) == Some('*') {
        let j = block_end(s, i + 2);
        proof {
            lemma_block_end(s, i + 2);
        }
        if j + 1 < s.len() {
            kept_from(s, j + 2)
        } else {
            Seq::empty()
        }
    } else if is_quote(s[i]) {
        let j = literal_end(s, s[i], i + 1);
        proof {
            lemma_literal_end(s, s[i], i + 1);
        }
        if j < s.len() {
            s.subrange(i, j + 1) + kept_from(s, j + 1)
        } else {
            s.subrange(i, s.len() as int)
        }
    } else {
        seq![s[i]] + kept_from(s, i + 1)
    }
}

/// The text `s` without its comments, segment by segment.
pub open spec fn without_comments(s: Seq<char>) -> Seq<char> {
    kept_from(s, 0)
}

/// From a position in code on, the scanner writes what is kept segment by
/// segment.
pub proof fn lemma_scan_by_segments(s: Seq<char>, i: int)
    requires
        0 <= i <= s.len(),
    ensures
        scan(s, i, State::Code) == kept_from(s, i),
    decreases s.len() - i,
{
    if i < s.len() {
        if s[i] == '/' && ahead_at(s, i) == Some('/') {
            let j = line_end(s, i + 2);
            lemma_line_end(s, i + 2);
            if j < s.len() {
                lemma_line_comment(s, i, j);
                lemma_scan_by_segments(s, j + 1);
            } else {
                lemma_line_comment_open(s, i);
            }
        } else if s[i] == '/' && ahead_at(s, i) == Some('*') {
            let j = block_end(s, i + 2);
            lemma_block_end(s, i + 2);
            if j + 1 < s.len() {
                lemma_block_comment(s, i, j);
                lemma_scan_by_segments(s, j + 2);
            } else {
                lemma_block_comment_open(s, i);
            }
        } else if is_quote(s[i]) {
            let j = literal_end(s, s[i], i + 1);
            lemma_literal_end(s, s[i], i + 1);
            if j < s.len() {
                assert(is_literal(s, i, j));
                lemma_literal(s, i, j);
                lemma_scan_by_segments(s, j + 1);
            } else {
                assert(literal_open(s, i, j));
                lemma_open_literal(s, i, j);
            }
        } else {
            lemma_scan_by_segments(s, i + 1);
        }
    }
}

/// The scanner and the description by segments give the same text.
pub proof fn law_strip_by_segments(s: Seq<char>)
    ensures
        strip_comments(s) == without_comments(s),
{
    lemma_scan_by_segments(s, 0);
}

} // verus!
