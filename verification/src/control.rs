//! Run control: the two flags of a run, the keys that set them, and the
//! answer to the opening notice.

use vstd::prelude::*;
use crate::text::{trimmed, trim_range, chars_of};

verus! {

/// The flags that the scan reads before every dispatch. A stop, once
/// requested, stays requested.
#[derive(Clone, Copy, Debug, PartialEq, Eq, Structural)]
pub struct RunState {
    stop_requested: bool,
    paused: bool,
}

/// What a key asks for.
#[derive(Clone, Copy, Debug, PartialEq, Eq, Structural)]
pub enum Command {
    Pause,
    Resume,
    Stop,
}

/// The command on a key: `p` pauses, `r` resumes, `q` stops, in either case.
pub open spec fn command_of(key: char) -> Option<Command> {
    if key == 'p' || key == 'P' {
        Some(Command::Pause)
    } else if key == 'r' || key == 'R' {
        Some(Command::Resume)
    } else if key == 'q' || key == 'Q' {
        Some(Command::Stop)
    } else {
        None
    }
}

pub fn key_command(key: char) -> (r: Option<Command>)
    ensures
        r == command_of(key),
{
    if key == 'p' || key == 'P' {
        Some(Command::Pause)
    } else if key == 'r' || key == 'R' {
        Some(Command::Resume)
    } else if key == 'q' || key == 'Q' {
        Some(Command::Stop)
    } else {
        None
    }
}

impl RunState {
    pub closed spec fn spec_stop_requested(&self) -> bool {
        self.stop_requested
    }

    pub closed spec fn spec_paused(&self) -> bool {
        self.paused
    }

    /// Neither stopped nor paused.
    pub fn new() -> (s: RunState)
        ensures
            !s.stop_requested(),
            !s.paused(),
    {
        RunState { stop_requested: false, paused: false }
    }

    #[verifier::when_used_as_spec(spec_stop_requested)]
    pub fn stop_requested(&self) -> (b: bool)
        ensures
            b == self.spec_stop_requested(),
    {
        self.stop_requested
    }

    #[verifier::when_used_as_spec(spec_paused)]
    pub fn paused(&self) -> (b: bool)
        ensures
            b == self.spec_paused(),
    {
        self.paused
    }

    /// Asks the scan to end. Asking again changes nothing.
    pub fn request_stop(&mut self)
        ensures
            final(self).stop_requested(),
            final(self).paused() == old(self).paused(),
    {
        self.stop_requested = true;
    }

    /// Pauses or resumes the scan. A stop that was requested stays.
    pub fn set_paused(&mut self, paused: bool)
        ensures
            final(self).paused() == paused,
            final(self).stop_requested() == old(self).stop_requested(),
    {
        self.paused = paused;
    }

    /// Carries out a command.
    pub fn apply(&mut self, command: Command)
        ensures
            final(self).stop_requested() == (old(self).stop_requested() || command
                == Command::Stop),
            final(self).paused() == match command {
                Command::Pause => true,
                Command::Resume => false,
                Command::Stop => old(self).paused(),
            },
    {
        match command {
            Command::Pause => self.set_paused(true),
            Command::Resume => self.set_paused(false),
            Command::Stop => self.request_stop(),
        }
    }
}

/// The answer that accepts the notice: the letter `y`, in either case, with
/// nothing but whitespace around it.
pub open spec fn accepts(answer: Seq<char>) -> bool {
    trimmed(answer) == seq!['y'] || trimmed(answer) == seq!['Y']
}

/// Whether a typed answer accepts the notice.
pub fn consent_given(answer: &str) -> (b: bool)
    ensures
        b == accepts(answer@),
{
    let text = chars_of(answer);
    let (start, end) = trim_range(&text, 0, text.len());
    assert(text@.subrange(0, text.len() as int) == text@);
    let ghost t = text@.subrange(start as int, end as int);
    if end - start == 1 {
        let c: char = text[start];
        assert(t =~= seq![c]);
        assert(seq![c] == seq!['y'] <==> c == 'y') by {
            assert(seq![c][0] == c);
            assert(seq!['y'][0] == 'y');
        }
        assert(seq![c] == seq!['Y'] <==> c == 'Y') by {
            assert(seq![c][0] == c);
            assert(seq!['Y'][0] == 'Y');
        }
        c == 'y' || c == 'Y'
    } else {
        assert(t.len() != 1);
        assert(seq!['y'].len() == 1);
        assert(seq!['Y'].len() == 1);
        false
    }
}

} // verus!
