//! Commands typed into a server's console, keystroke by keystroke.
//!
//! The server takes commands only from its console window. This module says which input
//! events make up a command and in which order; posting them to the window, and waiting
//! where a pause is asked for, is the caller's part. Two commands for one window must not
//! run at the same time, or their keystrokes mix.

use vstd::prelude::*;
use crate::text::to_chars;

verus! {

/// How long to wait after the window was brought to the front, in milliseconds.
pub const FOCUS_DELAY_MS: u64 = 120;

/// How long to wait after each character, in milliseconds.
pub const KEY_DELAY_MS: u64 = 10;

/// How long to wait after the Enter key, in milliseconds.
pub const SETTLE_DELAY_MS: u64 = 60;

/// How long to wait between the notice and the kick, in milliseconds.
pub const KICK_DELAY_MS: u64 = 400;

/// One thing to do to the console window.
#[derive(Debug, Clone, Copy, PartialEq, Eq, Structural)]
pub enum InputStep {
    /// Bring the window to the front.
    Focus,
    /// Post a character, given by its 16-bit code.
    Character(u16),
    /// Press the Enter key.
    Enter,
    /// Wait for so many milliseconds.
    Pause(u64),
}

/// The steps for the characters of a command: each character with a 16-bit code is
/// posted and followed by a pause; the others are passed over.
pub open spec fn typed(command: Seq<char>) -> Seq<InputStep>
    decreases command.len(),
{
    if command.len() == 0 {
        Seq::empty()
    } else {
        let before = typed(command.drop_last());
        let code = command.last() as u32;
        if code <= 0xFFFF {
            before.push(InputStep::Character(code as u16)).push(InputStep::Pause(KEY_DELAY_MS))
        } else {
            before
        }
    }
}

/// The steps that send a command: focus and a pause, the characters in order, then Enter
/// and a pause.
pub open spec fn keystrokes(command: Seq<char>) -> Seq<InputStep> {
    seq![InputStep::Focus, InputStep::Pause(FOCUS_DELAY_MS)] + typed(command) + seq![
        InputStep::Enter,
        InputStep::Pause(SETTLE_DELAY_MS),
    ]
}

/// The steps that send `command` to a console window.
pub fn command_keystrokes(command: &str) -> (steps: Vec<InputStep>)
    ensures
        steps@ == keystrokes(command@),
{
    let mut steps: Vec<InputStep> = Vec::new();
    steps.push(InputStep::Focus);
    steps.push(InputStep::Pause(FOCUS_DELAY_MS));
    let ghost head = steps@;
    let chars = to_chars(command);
    let mut i: usize = 0;
    assert(chars@.take(0) =~= Seq::<char>::empty());
    assert(steps@ =~= head + typed(chars@.take(0)));
    while i < chars.len()
        invariant
            i <= chars.len(),
            steps@ == head + typed(chars@.take(i as int)),
        decreases chars.len() - i,
    {
        let code: u32 = chars[i] as u32;
        proof {
            let upto = chars@.take(i + 1);
            assert(upto.drop_last() =~= chars@.take(i as int));
            assert(upto.last() == chars@[i as int]);
        }
        if code <= 0xFFFF {
            steps.push(InputStep::Character(code as u16));
            steps.push(InputStep::Pause(KEY_DELAY_MS));
        }
        assert(steps@ =~= head + typed(chars@.take(i + 1)));
        i += 1;
    }
    assert(chars@.take(chars.len() as int) =~= chars@);
    steps.push(InputStep::Enter);
    steps.push(InputStep::Pause(SETTLE_DELAY_MS));
    assert(steps@ =~= keystrokes(command@));
    steps
}

} // verus!
