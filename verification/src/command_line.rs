//! The `:` command line: the text typed after `:` and the command it names.
use vstd::prelude::*;

use crate::text::{chars_of, string_of_range, push_char};

verus! {

/// A command typed on the command line.
#[derive(Clone, Debug, Copy, PartialEq, Eq, Structural)]
pub enum Command {
    Save,
    Quit,
    SaveQuit,
    Unknown,
}

/// The command that the text `s` names: `w` saves, `q` quits, `wq` or `qw`
/// does both; anything else is unknown.
pub open spec fn command_of(s: Seq<char>) -> Command {
    if s == seq!['w'] {
        Command::Save
    } else if s == seq!['q'] {
        Command::Quit
    } else if s == seq!['w', 'q'] || s == seq!['q', 'w'] {
        Command::SaveQuit
    } else {
        Command::Unknown
    }
}

/// The text typed so far after `:`.
pub struct CommandLine {
    buffer: String,
}

impl View for CommandLine {
    type V = Seq<char>;

    closed spec fn view(&self) -> Seq<char> {
        self.buffer@
    }
}

impl CommandLine {
    /// An empty command line.
    pub fn new() -> (c: Self)
        ensures
            c@ == Seq::<char>::empty(),
    {
        Self { buffer: String::new() }
    }

    /// Whether nothing has been typed.
    pub fn is_empty(&self) -> (b: bool)
        ensures
            b == (self@.len() == 0),
    {
        self.buffer.as_str().is_empty()
    }

    /// Type `c` at the end.
    pub fn push(&mut self, c: char)
        ensures
            final(self)@ == old(self)@.push(c),
    {
        push_char(&mut self.buffer, c);
    }

    /// Erase the last char, if any.
    pub fn pop(&mut self)
        ensures
            final(self)@ == (if old(self)@.len() > 0 { old(self)@.drop_last() } else { old(self)@ }),
    {
        let chars = chars_of(self.buffer.as_str());
        if chars.len() > 0 {
            self.buffer = string_of_range(&chars, 0, chars.len() - 1);
            proof {
                assert(self@ =~= old(self)@.drop_last());
            }
        }
    }

    /// Erase everything.
    pub fn clear(&mut self)
        ensures
            final(self)@ == Seq::<char>::empty(),
    {
        self.buffer = String::new();
    }

    /// The command the typed text names.
    pub fn parse(&self) -> (c: Command)
        ensures
            c == command_of(self@),
    {
        let s = chars_of(self.buffer.as_str());
        proof {
            assert(s@.len() == 1 ==> (s@ == seq![s@[0]]));
            assert(s@.len() == 2 ==> (s@ == seq![s@[0], s@[1]]));
        }
        if s.len() == 1 && s[0] == 'w' {
            Command::Save
        } else if s.len() == 1 && s[0] == 'q' {
            Command::Quit
        } else if s.len() == 2 && ((s[0] == 'w' && s[1] == 'q') || (s[0] == 'q' && s[1] == 'w')) {
            Command::SaveQuit
        } else {
            Command::Unknown
        }
    }

    /// The typed chars.
    pub fn chars(&self) -> (v: Vec<char>)
        ensures
            v@ == self@,
    {
        chars_of(self.buffer.as_str())
    }

    /// A copy of the command line.
    pub fn snapshot(&self) -> (c: Self)
        ensures
            c@ == self@,
    {
        Self { buffer: self.buffer.clone() }
    }
}

} // verus!
