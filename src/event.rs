//! User intents, and the keys that ask for them.
use vstd::prelude::*;

use crate::sort::{column_of, SortColumn};

verus! {

/// What the user asks the engine to do.
#[derive(PartialEq, Eq, Structural, Clone, Copy, Debug)]
pub enum AppEvent {
    Quit,
    Pause,
    ScrollUpSelection,
    ScrollDownSelection,
    ScrollUpPage,
    ScrollDownPage,
    ToggleIpVersion,
    ToggleProtoVersion,
    ToggleDnsResolution,
    Sort(SortColumn),
    ShowHelp,
    ToggleProcessInfo,
}

/// A key as the terminal reports it.
#[derive(PartialEq, Eq, Structural, Clone, Copy, Debug)]
pub enum KeyPress {
    Char(char),
    Esc,
    Pause,
    Up,
    Down,
    PageUp,
    PageDown,
    Other,
}

/// The ordinal of a digit key from '1' to '8', or 0.
pub open spec fn digit_ordinal(c: char) -> u8 {
    if c == '1' {
        1
    } else if c == '2' {
        2
    } else if c == '3' {
        3
    } else if c == '4' {
        4
    } else if c == '5' {
        5
    } else if c == '6' {
        6
    } else if c == '7' {
        7
    } else if c == '8' {
        8
    } else {
        0
    }
}

/// The intent of a key; `control_only` says that Control, and no other
/// modifier, was held.
pub open spec fn intent_of(key: KeyPress, control_only: bool) -> Option<AppEvent> {
    match key {
        KeyPress::Esc => Some(AppEvent::Quit),
        KeyPress::Pause => Some(AppEvent::Pause),
        KeyPress::Up => Some(AppEvent::ScrollUpSelection),
        KeyPress::Down => Some(AppEvent::ScrollDownSelection),
        KeyPress::PageUp => Some(AppEvent::ScrollUpPage),
        KeyPress::PageDown => Some(AppEvent::ScrollDownPage),
        KeyPress::Other => None,
        KeyPress::Char(c) => if c == 'q' {
            Some(AppEvent::Quit)
        } else if c == ' ' {
            Some(AppEvent::Pause)
        } else if (c == 'c' || c == 'C') && control_only {
            Some(AppEvent::Quit)
        } else if c == 'v' || c == 'V' {
            Some(AppEvent::ToggleIpVersion)
        } else if c == 'p' || c == 'P' {
            Some(AppEvent::ToggleProtoVersion)
        } else if c == 'd' || c == 'D' {
            Some(AppEvent::ToggleDnsResolution)
        } else if c == 'h' || c == 'H' {
            Some(AppEvent::ShowHelp)
        } else if c == 'i' || c == 'I' {
            Some(AppEvent::ToggleProcessInfo)
        } else {
            match column_of(digit_ordinal(c)) {
                Some(col) => Some(AppEvent::Sort(col)),
                None => None,
            }
        },
    }
}

fn ordinal_of_digit(c: char) -> (r: u8)
    ensures
        r == digit_ordinal(c),
{
    if c == '1' {
        1
    } else if c == '2' {
        2
    } else if c == '3' {
        3
    } else if c == '4' {
        4
    } else if c == '5' {
        5
    } else if c == '6' {
        6
    } else if c == '7' {
        7
    } else if c == '8' {
        8
    } else {
        0
    }
}

/// Decodes a key into the intent it asks for, if any.
pub fn intent_for_key(key: KeyPress, control_only: bool) -> (r: Option<AppEvent>)
    ensures
        r == intent_of(key, control_only),
{
    match key {
        KeyPress::Esc => Some(AppEvent::Quit),
        KeyPress::Pause => Some(AppEvent::Pause),
        KeyPress::Up => Some(AppEvent::ScrollUpSelection),
        KeyPress::Down => Some(AppEvent::ScrollDownSelection),
        KeyPress::PageUp => Some(AppEvent::ScrollUpPage),
        KeyPress::PageDown => Some(AppEvent::ScrollDownPage),
        KeyPress::Other => None,
        KeyPress::Char(c) => {
            if c == 'q' {
                Some(AppEvent::Quit)
            } else if c == ' ' {
                Some(AppEvent::Pause)
            } else if (c == 'c' || c == 'C') && control_only {
                Some(AppEvent::Quit)
            } else if c == 'v' || c == 'V' {
                Some(AppEvent::ToggleIpVersion)
            } else if c == 'p' || c == 'P' {
                Some(AppEvent::ToggleProtoVersion)
            } else if c == 'd' || c == 'D' {
                Some(AppEvent::ToggleDnsResolution)
            } else if c == 'h' || c == 'H' {
                Some(AppEvent::ShowHelp)
            } else if c == 'i' || c == 'I' {
                Some(AppEvent::ToggleProcessInfo)
            } else {
                match SortColumn::from_ordinal(ordinal_of_digit(c)) {
                    Some(col) => Some(AppEvent::Sort(col)),
                    None => None,
                }
            }
        },
    }
}

} // verus!
