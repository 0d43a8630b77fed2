//! The comment stripper: the scanner run over a whole text.

use vstd::prelude::*;
use vstd::std_specs::iter::IteratorSpec;
use crate::laws::law_never_longer;
use crate::scanner::{prev_at, scan, strip_comments, State};
use crate::segments::{law_strip_by_segments, without_comments};

verus! {

/// Taken on trust from the standard library: `String::push` appends `ch`
/// to the end of the string and changes nothing else, so the characters
/// afterwards are those before, followed by `ch`. As with `Vec::push` in
/// vstd, running out of memory is left aside.
pub assume_specification[ std::string::String::push ](s: &mut std::string::String, ch: char)
    ensures
        final(s)@ == old(s)@.push(ch),
;

/// Removes comments from C-like source text.
pub struct Obfuscator;

impl Obfuscator {
    /// A new comment stripper. It holds no state.
    pub fn new() -> (r: Self)
        ensures
            r == Obfuscator,
    {
        Obfuscator
    }

    /// Removes `//` and `/* */` comments from `input` and keeps the rest.
    ///
    /// The result is what the scanner writes when it reads all of `input`
    /// from the state `Code`, which is also what the description by
    /// segments keeps; it is never longer than `input`. A comment or a
    /// literal that is not closed reaches to the end of the text.
    ///
    /// Known limitation: whether a quote is escaped is decided by the one
    /// character before it. A quote behind an escaped backslash, as in
    /// `"a\\"`, therefore does not close its literal.
    pub fn obfuscate(&self, input: &str) -> (output: String)
        ensures
            output@ == strip_comments(input@),
            output@ == without_comments(input@),
            output@.len() <= input@.len(),
    {
        let mut output = String::new();
        let mut state = State::Code;
        let mut chars = input.chars();
        let mut prev: Option<char> = None;
        // The character at the scanner's position is fetched one step
        // early, so that the one behind it can be seen before it is taken.
        let mut current: Option<char> = chars.next();
        let ghost mut i: int = 0;
        loop
            invariant
                0 <= i <= input@.len(),
                current == if i < input@.len() {
                    Some(input@[i])
                } else {
                    None::<char>
                },
                chars.remaining() == if i < input@.len() {
                    input@.subrange(i + 1, input@.len() as int)
                } else {
                    Seq::<char>::empty()
                },
                state is String ==> prev == prev_at(input@, i),
                output@ + scan(input@, i, state) == strip_comments(input@),
            ensures
                output@ == strip_comments(input@),
            decreases input@.len() - i,
        {
            let ch = match current {
                Some(ch) => ch,
                None => {
                    break;
                },
            };
            let ahead = chars.next();
            let t = state.advance(prev, ch, ahead);
            if t.emit {
                output.push(ch);
            }
            if t.skip {
                current = chars.next();
                proof {
                    i = i + 2;
                }
            } else {
                current = ahead;
                proof {
                    i = i + 1;
                }
            }
            state = t.state;
            prev = Some(ch);
        }
        proof {
            law_strip_by_segments(input@);
            law_never_longer(input@);
        }
        output
    }
}

} // verus!
