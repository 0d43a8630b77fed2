//! The scanner's states, its transition function, and the text it writes.

use vstd::prelude::*;

verus! {

/// The scanner's classification of the current position.
#[derive(Clone, Copy, Debug, PartialEq, Eq, Structural)]
pub enum State {
    /// Plain source text.
    Code,
    /// Inside a `//` comment.
    SingleLineComment,
    /// Inside a `/* */` comment.
    MultiLineComment,
    /// Inside a literal opened by the given quote character.
    String(char),
}

/// What the scanner does with one character.
#[derive(Clone, Copy, Debug, PartialEq, Eq, Structural)]
pub struct Transition {
    /// The state after the character.
    pub state: State,
    /// Whether the character is appended to the output.
    pub emit: bool,
    /// Whether the character after it is consumed with it, unseen.
    pub skip: bool,
}

/// The two characters that open and close a literal.
pub open spec fn is_quote(c: char) -> bool {
    c == '"' || c == '\''
}

impl State {
    /// Whether `c` and the character after it form a delimiter that is
    /// recognised in state `self`: `//` or `/*` in code, `*/` in a
    /// multi-line comment. Both characters are then consumed together.
    pub open spec fn takes_pair(self, c: char, ahead: Option<char>) -> bool {
        match self {
            State::Code => c == '/' && (ahead == Some('/') || ahead == Some('*')),
            State::MultiLineComment => c == '*' && ahead == Some('/'),
            _ => false,
        }
    }

    /// Whether `c` reaches the output: code that opens no comment, the
    /// newline that ends a single-line comment, and all of a literal.
    pub open spec fn emits(self, c: char, ahead: Option<char>) -> bool {
        match self {
            State::Code => !self.takes_pair(c, ahead),
            State::SingleLineComment => c == '\n',
            State::MultiLineComment => false,
            State::String(_) => true,
        }
    }

    /// The state after `c`, where `prev` is the character consumed just
    /// before `c` and `ahead` the one that follows it. A literal closes at
    /// its quote unless `prev` is a backslash; backslashes further back
    /// are not counted.
    pub open spec fn successor(self, prev: Option<char>, c: char, ahead: Option<char>) -> State {
        match self {
            State::Code => if c == '/' && ahead == Some('/') {
                State::SingleLineComment
            } else if c == '/' && ahead == Some('*') {
                State::MultiLineComment
            } else if is_quote(c) {
                State::String(c)
            } else {
                State::Code
            },
            State::SingleLineComment => if c == '\n' {
                State::Code
            } else {
                State::SingleLineComment
            },
            State::MultiLineComment => if self.takes_pair(c, ahead) {
                State::Code
            } else {
                State::MultiLineComment
            },
            State::String(quote) => if c == quote && prev != Some('\\') {
                State::Code
            } else {
                State::String(quote)
            },
        }
    }

    /// The transition table, one column per field.
    pub open spec fn step(self, prev: Option<char>, c: char, ahead: Option<char>) -> Transition {
        Transition {
            state: self.successor(prev, c, ahead),
            emit: self.emits(c, ahead),
            skip: self.takes_pair(c, ahead),
        }
    }

    /// Computes one transition of the scanner.
    pub fn advance(self, prev: Option<char>, c: char, ahead: Option<char>) -> (t: Transition)
        ensures
            t == self.step(prev, c, ahead),
    {
        match self {
            State::Code => {
                if c == '/' && ahead == Some('/') {
                    Transition { state: State::SingleLineComment, emit: false, skip: true }
                } else if c == '/' && ahead == Some('*') {
                    Transition { state: State::MultiLineComment, emit: false, skip: true }
                } else if c == '"' || c == '\'' {
                    Transition { state: State::String(c), emit: true, skip: false }
                } else {
                    Transition { state: State::Code, emit: true, skip: false }
                }
            },
            State::SingleLineComment => {
                if c == '\n' {
                    Transition { state: State::Code, emit: true, skip: false }
                } else {
                    Transition { state: State::SingleLineComment, emit: false, skip: false }
                }
            },
            State::MultiLineComment => {
                if c == '*' && ahead == Some('/') {
                    Transition { state: State::Code, emit: false, skip: true }
                } else {
                    Transition { state: State::MultiLineComment, emit: false, skip: false }
                }
            },
            State::String(quote) => {
                if c == quote && prev != Some('\\') {
                    Transition { state: State::Code, emit: true, skip: false }
                } else {
                    Transition { state: State::String(quote), emit: true, skip: false }
                }
            },
        }
    }
}

/// The character consumed just before position `i` of `s`, if any.
pub open spec fn prev_at(s: Seq<char>, i: int) -> Option<char> {
    if 0 < i <= s.len() {
        Some(s[i - 1])
    } else {
        None
    }
}

/// The character that follows position `i` of `s`, if any.
pub open spec fn ahead_at(s: Seq<char>, i: int) -> Option<char> {
    if 0 <= i + 1 < s.len() {
        Some(s[i + 1])
    } else {
        None
    }
}

/// What the scanner writes when it stands at position `i` of `s` in state
/// `state` and runs to the end of `s`.
pub open spec fn scan(s: Seq<char>, i: int, state: State) -> Seq<char>
    decreases s.len() - i,
{
    if 0 <= i < s.len() {
        let t = state.step(prev_at(s, i), s[i], ahead_at(s, i));
        let rest = scan(s, if t.skip { i + 2 } else { i + 1 }, t.state);
        if t.emit {
            seq![s[i]] + rest
        } else {
            rest
        }
    } else {
        Seq::empty()
    }
}

/// The text `s` without its comments.
pub open spec fn strip_comments(s: Seq<char>) -> Seq<char> {
    scan(s, 0, State::Code)
}

} // verus!
