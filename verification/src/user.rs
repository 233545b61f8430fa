//! The input classifier: maps a keystroke, already reduced to a plain key
//! value, to the session event it stands for. Guesses are compared to the
//! expected character case-insensitively: the guess is lowercased, the
//! expected character is assumed already normalized by the dataset.

use vstd::prelude::*;
use crate::casing::{lower_char, lower_of};
use crate::data::BuiltinMode;

verus! {

/// A non-guess request from the user.
pub enum UserRequest {
    /// Show the hint for the current expected character.
    Hint,
    /// End the session immediately.
    Exit,
}

/// One classified keystroke, as consumed by the session state machine.
pub enum UserInput {
    Request(UserRequest),
    Guess { correct: bool },
}

/// A keystroke reduced to what the classifier reads of it.
pub enum Key {
    /// The escape key.
    Esc,
    /// The backspace key.
    Backspace,
    /// A printable character.
    Char(char),
    /// Any other key.
    Other,
}

/// Classifies one keystroke against the expected character: escape asks to
/// exit, backspace asks for a hint, a printable character is a guess which
/// is correct iff its lowercase form equals the expected character, and any
/// other key counts as an always-incorrect guess.
pub fn classify_input(key: Key, expected: char) -> (r: UserInput)
    ensures
        (match key {
            Key::Esc => r == UserInput::Request(UserRequest::Exit),
            Key::Backspace => r == UserInput::Request(UserRequest::Hint),
            Key::Char(g) => r == (UserInput::Guess { correct: lower_of(g) == expected }),
            Key::Other => r == (UserInput::Guess { correct: false }),
        }),
{
    match key {
        Key::Esc => UserInput::Request(UserRequest::Exit),
        Key::Backspace => UserInput::Request(UserRequest::Hint),
        Key::Char(g) => {
            let folded = lower_char(g);
            UserInput::Guess { correct: folded == expected }
        }
        Key::Other => UserInput::Guess { correct: false },
    }
}

/// The dataset choice offered at startup: key '1' picks the Russian
/// dataset, '2' the Greek one, and anything else is no choice.
pub fn mode_for_key(c: char) -> (r: Option<BuiltinMode>)
    ensures
        c == '1' ==> r == Some(BuiltinMode::Russian),
        c == '2' ==> r == Some(BuiltinMode::Greek),
        c != '1' && c != '2' ==> r is None,
{
    if c == '1' {
        Some(BuiltinMode::Russian)
    } else if c == '2' {
        Some(BuiltinMode::Greek)
    } else {
        None
    }
}

} // verus!
