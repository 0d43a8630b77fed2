//! Balance checks for parentheses and square brackets, each done with a
//! single stack in one pass over the text.

use vstd::prelude::*;
use vstd::std_specs::iter::IteratorSpec;
use crate::nesting::{law_well_nested_is_nested, lemma_failure_lasts};

verus! {

/// The nesting depth behind `s`: the `(` read minus the `)` read.
pub open spec fn depth(s: Seq<char>) -> int
    decreases s.len(),
{
    if s.len() == 0 {
        0
    } else {
        depth(s.drop_last()) + if s.last() == '(' {
            1int
        } else if s.last() == ')' {
            -1int
        } else {
            0int
        }
    }
}

/// Every `)` of `s` closes an earlier `(`, and no `(` is left open. Other
/// characters do not count.
pub open spec fn balanced(s: Seq<char>) -> bool {
    &&& depth(s) == 0
    &&& forall|k: int| 0 <= k <= s.len() ==> depth(#[trigger] s.take(k)) >= 0
}

/// Whether the parentheses of `input` are balanced.
pub fn check_parentheses(input: &str) -> (ok: bool)
    ensures
        ok == balanced(input@),
{
    let mut stack: Vec<char> = Vec::new();
    let mut chars = input.chars();
    let ghost mut i: int = 0;
    loop
        invariant
            0 <= i <= input@.len(),
            chars.remaining() == input@.subrange(i, input@.len() as int),
            stack@.len() == depth(input@.take(i)),
            forall|j: int| 0 <= j < stack@.len() ==> stack@[j] == '(',
            forall|k: int| 0 <= k <= i ==> depth(#[trigger] input@.take(k)) >= 0,
        ensures
            i == input@.len(),
            stack@.len() == depth(input@),
            forall|k: int| 0 <= k <= input@.len() ==> depth(#[trigger] input@.take(k)) >= 0,
        decreases input@.len() - i,
    {
        let c = match chars.next() {
            Some(c) => c,
            None => {
                assert(input@.take(i) =~= input@);
                break;
            },
        };
        proof {
            assert(input@.take(i + 1).drop_last() =~= input@.take(i));
        }
        if c == '(' {
            stack.push(c);
        } else if c == ')' {
            if stack.pop() != Some('(') {
                return false;
            }
        }
        proof {
            i = i + 1;
        }
    }
    stack.is_empty()
}

/// `c` is one of the four brackets.
pub open spec fn is_bracket(c: char) -> bool {
    c == '(' || c == ')' || c == '[' || c == ']'
}

/// `closing` is the closing bracket of the kind of `opening`.
pub open spec fn closes(opening: char, closing: char) -> bool {
    (opening == '(' && closing == ')') || (opening == '[' && closing == ']')
}

/// What one character does to the brackets that are open, innermost last:
/// an opening bracket joins them, a closing bracket removes its partner
/// where that is the innermost and fails (`None`) where it is not, and any
/// other character leaves them as they are.
pub open spec fn after_char(open: Seq<char>, c: char) -> Option<Seq<char>> {
    if c == '(' || c == '[' {
        Some(open.push(c))
    } else if c == ')' || c == ']' {
        if open.len() > 0 && closes(open.last(), c) {
            Some(open.drop_last())
        } else {
            None
        }
    } else {
        Some(open)
    }
}

/// The brackets left open behind `s` when those of `start` were open
/// before it, or `None` where a closing bracket of `s` met no partner.
pub open spec fn open_after(start: Seq<char>, s: Seq<char>) -> Option<Seq<char>>
    decreases s.len(),
{
    if s.len() == 0 {
        Some(start)
    } else {
        match open_after(start, s.drop_last()) {
            Some(open) => after_char(open, s.last()),
            None => None,
        }
    }
}

/// Read with nothing open, `s` closes each bracket by one of its own
/// kind, the innermost first, and leaves none open.
pub open spec fn well_nested(s: Seq<char>) -> bool {
    open_after(Seq::empty(), s) == Some(Seq::<char>::empty())
}

/// The grammar of nested brackets: the empty text; a nested text
/// followed by a character that is no bracket; and a nested text followed
/// by a nested text in a pair of brackets of one kind.
pub open spec fn nested(s: Seq<char>) -> bool
    decreases s.len(),
{
    ||| s.len() == 0
    ||| s.len() > 0 && !is_bracket(s.last()) && nested(s.drop_last())
    ||| exists|k: int|
        0 <= k < s.len() - 1 && closes(s[k], s.last()) && nested(#[trigger] s.take(k)) && nested(
            s.subrange(k + 1, s.len() - 1),
        )
}

/// Whether the parentheses and square brackets of `input` are properly
/// nested: whether a single stack accepts it, which is whether the
/// grammar yields it.
pub fn check_parentheses_and_brackets(input: &str) -> (ok: bool)
    ensures
        ok == well_nested(input@),
        ok == nested(input@),
{
    proof {
        law_well_nested_is_nested(input@);
    }
    let mut stack: Vec<char> = Vec::new();
    let mut chars = input.chars();
    let ghost mut i: int = 0;
    loop
        invariant
            0 <= i <= input@.len(),
            chars.remaining() == input@.subrange(i, input@.len() as int),
            open_after(Seq::empty(), input@.take(i)) == Some(stack@),
            well_nested(input@) == nested(input@),
        ensures
            open_after(Seq::empty(), input@) == Some(stack@),
        decreases input@.len() - i,
    {
        let c = match chars.next() {
            Some(c) => c,
            None => {
                assert(input@.take(i) =~= input@);
                break;
            },
        };
        proof {
            assert(input@.take(i + 1).drop_last() =~= input@.take(i));
        }
        if c == '(' || c == '[' {
            stack.push(c);
        } else if c == ')' {
            if stack.pop() != Some('(') {
                proof {
                    lemma_failure_lasts(Seq::empty(), input@, i + 1);
                }
                return false;
            }
        } else if c == ']' {
            if stack.pop() != Some('[') {
                proof {
                    lemma_failure_lasts(Seq::empty(), input@, i + 1);
                }
                return false;
            }
        }
        proof {
            i = i + 1;
        }
    }
    assert(stack@.len() == 0 <==> stack@ =~= Seq::<char>::empty());
    stack.is_empty()
}

} // verus!
