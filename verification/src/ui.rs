//! What the screen shows that is more than drawing: durations, key hints.
use vstd::prelude::*;

use crate::state::{AppState, CurrentScreen};
use crate::text::{decimal, decimal_chars, extend_chars, extend_str, string_of};

verus! {

/// A duration in minutes as shown: `Nm` below an hour, else `Nh` or `Nh Mm`.
pub open spec fn minutes_text(minutes: nat) -> Seq<char> {
    if minutes < 60 {
        decimal(minutes) + "m"@
    } else if minutes % 60 == 0 {
        decimal(minutes / 60) + "h"@
    } else {
        decimal(minutes / 60) + "h "@ + decimal(minutes % 60) + "m"@
    }
}

/// A duration in minutes as shown.
pub fn format_minutes(minutes: u32) -> (s: String)
    ensures
        s@ == minutes_text(minutes as nat),
{
    let mut cs: Vec<char> = Vec::new();
    if minutes < 60 {
        extend_chars(&mut cs, &decimal_chars(minutes as u64));
        extend_str(&mut cs, "m");
        assert(cs@ =~= minutes_text(minutes as nat));
        return string_of(cs.as_slice());
    }
    let hours = minutes / 60;
    let rem = minutes % 60;
    extend_chars(&mut cs, &decimal_chars(hours as u64));
    if rem == 0 {
        extend_str(&mut cs, "h");
    } else {
        extend_str(&mut cs, "h ");
        extend_chars(&mut cs, &decimal_chars(rem as u64));
        extend_str(&mut cs, "m");
    }
    assert(cs@ =~= minutes_text(minutes as nat));
    string_of(cs.as_slice())
}

/// The key hints of a screen, followed by help and quit.
pub open spec fn hints_for(screen: CurrentScreen) -> Seq<(Seq<char>, Seq<char>)> {
    let own: Seq<(Seq<char>, Seq<char>)> = match screen {
        CurrentScreen::Plan => seq![("tab"@, "pane"@), ("a"@, "add"@), ("s"@, "start"@), ("enter"@, "execute"@)],
        CurrentScreen::Execute => seq![("space"@, "done"@), ("f"@, "finish"@), (":"@, "command"@)],
        CurrentScreen::Review => seq![("f"@, "finish day"@), (":"@, "command"@)],
    };
    own + seq![("?"@, "help"@), ("q"@, "quit"@)]
}

/// The characters of a list of key hints.
pub open spec fn hint_texts(hints: Seq<(&str, &str)>) -> Seq<(Seq<char>, Seq<char>)> {
    hints.map_values(|h: (&str, &str)| (h.0@, h.1@))
}

/// The key hints of the current screen: key and what it does.
pub fn current_hints(app: &AppState) -> (hints: Vec<(&'static str, &'static str)>)
    ensures
        hint_texts(hints@) == hints_for(app.current_screen),
{
    let mut hints: Vec<(&'static str, &'static str)> = Vec::new();
    match app.current_screen {
        CurrentScreen::Plan => {
            hints.push(("tab", "pane"));
            hints.push(("a", "add"));
            hints.push(("s", "start"));
            hints.push(("enter", "execute"));
        },
        CurrentScreen::Execute => {
            hints.push(("space", "done"));
            hints.push(("f", "finish"));
            hints.push((":", "command"));
        },
        CurrentScreen::Review => {
            hints.push(("f", "finish day"));
            hints.push((":", "command"));
        },
    }
    hints.push(("?", "help"));
    hints.push(("q", "quit"));
    assert(hint_texts(hints@) =~= hints_for(app.current_screen));
    hints
}

} // verus!
