//! What holds of the stripped text for every input.

use vstd::prelude::*;
use crate::runs::{
    is_literal, lemma_block_comment, lemma_block_comment_open, lemma_line_comment,
    lemma_line_comment_open, lemma_literal, lemma_open_literal, lemma_plain_run, lemma_scan_len,
    lemma_scan_shift, literal_open, no_block_end, no_newline, plain_run,
};
use crate::scanner::{ahead_at, prev_at, scan, strip_comments, State};

verus! {

/// Inside a literal every character is written and none is taken as part
/// of a delimiter; the literal ends only at its own quote, and only where
/// no backslash stands right before it.
pub proof fn law_literal_is_inert(quote: char, prev: Option<char>, c: char, ahead: Option<char>)
    ensures
        State::String(quote).step(prev, c, ahead).emit,
        !State::String(quote).step(prev, c, ahead).skip,
        State::String(quote).step(prev, c, ahead).state == if c == quote && prev != Some('\\') {
            State::Code
        } else {
            State::String(quote)
        },
{
}

/// A comment delimiter is consumed as a pair and never written, and the
/// scanner takes a pair for nothing else: `//` and `/*` in code, `*/` in a
/// multi-line comment.
pub proof fn law_delimiters_dropped(state: State, prev: Option<char>, c: char, ahead: Option<char>)
    ensures
        state.step(prev, c, ahead).skip ==> !state.step(prev, c, ahead).emit,
        state.step(prev, c, ahead).skip <==> {
            ||| state == State::Code && c == '/' && (ahead == Some('/') || ahead == Some('*'))
            ||| state == State::MultiLineComment && c == '*' && ahead == Some('/')
        },
{
}

/// Stripping never makes a text longer.
pub proof fn law_never_longer(s: Seq<char>)
    ensures
        strip_comments(s).len() <= s.len(),
{
    lemma_scan_len(s, 0, State::Code);
}

/// `a` can be had from `b` by deleting characters.
pub open spec fn is_subsequence(a: Seq<char>, b: Seq<char>) -> bool
    decreases b.len(),
{
    ||| a.len() == 0
    ||| b.len() > 0 && a[0] == b[0] && is_subsequence(a.drop_first(), b.drop_first())
    ||| b.len() > 0 && is_subsequence(a, b.drop_first())
}

/// What the scanner writes from a position on is what it reads from there,
/// with some characters deleted.
pub proof fn lemma_subsequence_tail(s: Seq<char>, i: int, state: State)
    requires
        0 <= i <= s.len(),
    ensures
        is_subsequence(scan(s, i, state), s.subrange(i, s.len() as int)),
    decreases s.len() - i,
{
    let end = s.len() as int;
    if i < s.len() {
        let t = state.step(prev_at(s, i), s[i], ahead_at(s, i));
        assert(s.subrange(i, end).drop_first() =~= s.subrange(i + 1, end));
        if t.skip {
            assert(s.subrange(i + 1, end).drop_first() =~= s.subrange(i + 2, end));
            lemma_subsequence_tail(s, i + 2, t.state);
            assert(is_subsequence(scan(s, i, state), s.subrange(i + 1, end)));
        } else {
            lemma_subsequence_tail(s, i + 1, t.state);
            if t.emit {
                let rest = scan(s, i + 1, t.state);
                assert((seq![s[i]] + rest).drop_first() =~= rest);
            }
        }
    }
}

/// Stripping only deletes: the output is the input with some characters
/// left out, the others in their order.
pub proof fn law_only_deletes(s: Seq<char>)
    ensures
        is_subsequence(strip_comments(s), s),
{
    lemma_subsequence_tail(s, 0, State::Code);
    assert(s.subrange(0, s.len() as int) =~= s);
}

/// `s` holds no quote and neither `//` nor `/*`.
pub open spec fn is_plain(s: Seq<char>) -> bool {
    plain_run(s, 0, s.len() as int)
}

/// A text without quotes and comment openers is returned as it is.
pub proof fn law_plain_text_unchanged(s: Seq<char>)
    requires
        is_plain(s),
    ensures
        strip_comments(s) == s,
{
    lemma_plain_run(s, 0, s.len() as int);
}

/// Plain text in front of any text is copied, and the rest is stripped as
/// if it stood alone, unless the two meet in a `//` or a `/*`.
pub proof fn law_plain_prefix_kept(plain: Seq<char>, rest: Seq<char>)
    requires
        is_plain(plain),
        !(plain.len() > 0 && rest.len() > 0 && plain.last() == '/' && (rest[0] == '/' || rest[0]
            == '*')),
    ensures
        strip_comments(plain + rest) == plain + strip_comments(rest),
{
    let s = plain + rest;
    let n = plain.len() as int;
    assert forall|k: int| 0 <= k < n implies #[trigger] s[k] == plain[k] by {}
    assert(plain_run(s, 0, n)) by {
        assert forall|k: int| 0 <= k < n && k + 1 < s.len() implies !(#[trigger] s[k] == '/' && (s[k
            + 1] == '/' || s[k + 1] == '*')) by {
            if k + 1 < n {
            } else {
            }
        }
    }
    lemma_plain_run(s, 0, n);
    lemma_scan_shift(plain, rest, 0, State::Code);
}

/// `s` is one well-formed literal: it opens with a quote and closes with
/// the same quote at its end, which is the first place where that quote
/// stands unescaped.
pub open spec fn is_single_literal(s: Seq<char>) -> bool {
    is_literal(s, 0, s.len() - 1)
}

/// A text that is one well-formed literal is returned as it is, whatever
/// stands between its quotes.
pub proof fn law_single_literal_unchanged(s: Seq<char>)
    requires
        is_single_literal(s),
    ensures
        strip_comments(s) == s,
{
    lemma_literal(s, 0, s.len() - 1);
}

/// A well-formed literal in front of any text is reproduced exactly, and
/// the rest is stripped as if it stood alone.
pub proof fn law_literal_prefix_kept(literal: Seq<char>, rest: Seq<char>)
    requires
        is_single_literal(literal),
    ensures
        strip_comments(literal + rest) == literal + strip_comments(rest),
{
    let s = literal + rest;
    let n = literal.len() as int;
    assert forall|k: int| 0 <= k < n implies #[trigger] s[k] == literal[k] by {}
    assert(is_literal(s, 0, n - 1)) by {
        assert forall|k: int| 0 < k < n - 1 implies !(#[trigger] s[k] == s[0] && s[k - 1]
            != '\\') by {
        }
    }
    lemma_literal(s, 0, n - 1);
    lemma_scan_shift(literal, rest, 0, State::Code);
}

/// A text that opens a literal and never closes it is returned as it is.
pub proof fn law_unterminated_literal_unchanged(s: Seq<char>)
    requires
        literal_open(s, 0, s.len() as int),
    ensures
        strip_comments(s) == s,
{
    lemma_open_literal(s, 0, s.len() as int);
}

/// Inside a literal a character that follows a backslash is copied and
/// leaves the literal open, also where it is the quote that opened it.
pub proof fn law_escaped_quote_stays_open(s: Seq<char>, i: int, quote: char)
    requires
        0 < i < s.len(),
        s[i - 1] == '\\',
    ensures
        scan(s, i, State::String(quote)) == seq![s[i]] + scan(s, i + 1, State::String(quote)),
{
}

/// No newline stands in `s`.
pub open spec fn has_no_newline(s: Seq<char>) -> bool {
    no_newline(s, 0, s.len() as int)
}

/// A `//` comment in front of any text is dropped up to its newline; the
/// newline is written, and the rest is stripped as if it stood alone.
pub proof fn law_line_comment_prefix_dropped(body: Seq<char>, rest: Seq<char>)
    requires
        has_no_newline(body),
    ensures
        strip_comments(seq!['/', '/'] + body + seq!['\n'] + rest) == seq!['\n'] + strip_comments(
            rest,
        ),
{
    let line = seq!['/', '/'] + body + seq!['\n'];
    let s = line + rest;
    let j = body.len() as int + 2;
    assert forall|k: int| 2 <= k < j implies #[trigger] s[k] != '\n' by {
        assert(s[k] == body[k - 2]);
    }
    lemma_line_comment(s, 0, j);
    lemma_scan_shift(line, rest, 0, State::Code);
}

/// A `//` comment with no newline behind it is dropped whole.
pub proof fn law_line_comment_unterminated(body: Seq<char>)
    requires
        has_no_newline(body),
    ensures
        strip_comments(seq!['/', '/'] + body) == Seq::<char>::empty(),
{
    let s = seq!['/', '/'] + body;
    assert forall|k: int| 2 <= k < s.len() implies #[trigger] s[k] != '\n' by {
        assert(s[k] == body[k - 2]);
    }
    lemma_line_comment_open(s, 0);
}

/// No `*/` stands in `s`.
pub open spec fn has_no_block_end(s: Seq<char>) -> bool {
    no_block_end(s, 0, s.len() as int)
}

/// A `/* */` comment in front of any text is dropped whole, and the rest
/// is stripped as if it stood alone.
pub proof fn law_block_comment_prefix_dropped(body: Seq<char>, rest: Seq<char>)
    requires
        has_no_block_end(body),
    ensures
        strip_comments(seq!['/', '*'] + body + seq!['*', '/'] + rest) == strip_comments(rest),
{
    let comment = seq!['/', '*'] + body + seq!['*', '/'];
    let s = comment + rest;
    let j = body.len() as int + 2;
    assert forall|k: int| 2 <= k < j && k + 1 < s.len() implies !(#[trigger] s[k] == '*' && s[k
        + 1] == '/') by {
        assert(s[k] == body[k - 2]);
        if k + 1 < j {
            assert(s[k + 1] == body[k - 1]);
        } else {
            assert(s[k + 1] == '*');
        }
    }
    lemma_block_comment(s, 0, j);
    lemma_scan_shift(comment, rest, 0, State::Code);
}

/// A `/*` comment that is never closed is dropped whole.
pub proof fn law_block_comment_unterminated(body: Seq<char>)
    requires
        has_no_block_end(body),
    ensures
        strip_comments(seq!['/', '*'] + body) == Seq::<char>::empty(),
{
    let s = seq!['/', '*'] + body;
    assert forall|k: int| 2 <= k < s.len() && k + 1 < s.len() implies !(#[trigger] s[k] == '*'
        && s[k + 1] == '/') by {
        assert(s[k] == body[k - 2]);
        assert(s[k + 1] == body[k - 1]);
    }
    lemma_block_comment_open(s, 0);
}

/// The number of newlines in `s`.
pub open spec fn newlines(s: Seq<char>) -> nat
    decreases s.len(),
{
    if s.len() == 0 {
        0
    } else {
        newlines(s.drop_first()) + if s[0] == '\n' {
            1nat
        } else {
            0nat
        }
    }
}

/// No `/*` stands in `s`.
pub open spec fn has_no_block_start(s: Seq<char>) -> bool {
    forall|k: int| 0 <= k && k + 1 < s.len() ==> !(#[trigger] s[k] == '/' && s[k + 1] == '*')
}

/// Outside multi-line comments the scanner writes every newline it reads.
pub proof fn lemma_newlines_tail(s: Seq<char>, i: int, state: State)
    requires
        has_no_block_start(s),
        0 <= i <= s.len(),
        state != State::MultiLineComment,
    ensures
        newlines(scan(s, i, state)) == newlines(s.subrange(i, s.len() as int)),
    decreases s.len() - i,
{
    let end = s.len() as int;
    if i < s.len() {
        let t = state.step(prev_at(s, i), s[i], ahead_at(s, i));
        assert(s.subrange(i, end).drop_first() =~= s.subrange(i + 1, end));
        if t.skip {
            assert(s.subrange(i + 1, end).drop_first() =~= s.subrange(i + 2, end));
            lemma_newlines_tail(s, i + 2, t.state);
        } else {
            lemma_newlines_tail(s, i + 1, t.state);
            if t.emit {
                let rest = scan(s, i + 1, t.state);
                assert((seq![s[i]] + rest).drop_first() =~= rest);
            }
            assert(newlines(s.subrange(i, end)) == newlines(s.subrange(i + 1, end)) + if s[i]
                == '\n' {
                1nat
            } else {
                0nat
            });
        }
    }
}

/// A text without `/*` keeps its line count: every newline of the input,
/// also one that ends a `//` comment, stands in the output.
pub proof fn law_newlines_kept(s: Seq<char>)
    requires
        has_no_block_start(s),
    ensures
        newlines(strip_comments(s)) == newlines(s),
{
    lemma_newlines_tail(s, 0, State::Code);
    assert(s.subrange(0, s.len() as int) =~= s);
}

} // verus!
