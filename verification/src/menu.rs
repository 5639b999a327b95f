//! Menu navigation state machine.
//!
//! The menu is a cyclic selector: `ShortPress` advances to the next option
//! (wrapping), while `Idle` and `LongPress` leave it alone — a long press is
//! the caller's signal to confirm the current option and leave the menu.

use vstd::prelude::*;

use crate::button::ButtonEvent;

verus! {

/// The menu options, in display and cycling order.
#[derive(Clone, Copy, Debug, PartialEq, Eq, Structural)]
pub enum InitMenuDisplayOptions {
    Scan,
    Dump,
    Size,
    Exit,
}

/// Number of menu options: cycling that many times is the identity.
pub const MENU_OPTION_COUNT: u32 = 4;

/// Successor in the display order, wrapping from the last back to the first.
pub open spec fn spec_next_option(option: InitMenuDisplayOptions) -> InitMenuDisplayOptions {
    match option {
        InitMenuDisplayOptions::Scan => InitMenuDisplayOptions::Dump,
        InitMenuDisplayOptions::Dump => InitMenuDisplayOptions::Size,
        InitMenuDisplayOptions::Size => InitMenuDisplayOptions::Exit,
        InitMenuDisplayOptions::Exit => InitMenuDisplayOptions::Scan,
    }
}

/// Menu transition: only a short press moves the selection.
pub open spec fn spec_update_menu(
    option: InitMenuDisplayOptions,
    event: ButtonEvent,
) -> InitMenuDisplayOptions {
    match event {
        ButtonEvent::ShortPress => spec_next_option(option),
        ButtonEvent::Idle => option,
        ButtonEvent::LongPress => option,
    }
}

/// The selection the menu starts on.
pub fn initial_menu_option() -> (option: InitMenuDisplayOptions)
    ensures
        option == InitMenuDisplayOptions::Scan,
{
    InitMenuDisplayOptions::Scan
}

/// Advance the menu selection for one button event: a short press cycles to
/// the next option, anything else leaves the selection unchanged.
pub fn update_initial_menu_state(
    state: &mut InitMenuDisplayOptions,
    button_event: &ButtonEvent,
)
    ensures
        *final(state) == spec_update_menu(*old(state), *button_event),
{
    match button_event {
        ButtonEvent::Idle => {},
        ButtonEvent::ShortPress => {
            match *state {
                InitMenuDisplayOptions::Scan => {
                    *state = InitMenuDisplayOptions::Dump;
                },
                InitMenuDisplayOptions::Dump => {
                    *state = InitMenuDisplayOptions::Size;
                },
                InitMenuDisplayOptions::Size => {
                    *state = InitMenuDisplayOptions::Exit;
                },
                InitMenuDisplayOptions::Exit => {
                    *state = InitMenuDisplayOptions::Scan;
                },
            }
        },
        ButtonEvent::LongPress => {},
    }
}

/// The label drawn for `option` when `selected` is the current selection:
/// the selected option is marked with a leading dash.
pub fn menu_label(
    option: InitMenuDisplayOptions,
    selected: InitMenuDisplayOptions,
) -> (label: &'static str)
    ensures
        label@ == spec_menu_label(option, selected),
{
    match option {
        InitMenuDisplayOptions::Scan => {
            if matches!(selected, InitMenuDisplayOptions::Scan) {
                "-Scan"
            } else {
                "Scan"
            }
        },
        InitMenuDisplayOptions::Dump => {
            if matches!(selected, InitMenuDisplayOptions::Dump) {
                "-Dump"
            } else {
                "Dump"
            }
        },
        InitMenuDisplayOptions::Size => {
            if matches!(selected, InitMenuDisplayOptions::Size) {
                "-Size"
            } else {
                "Size"
            }
        },
        InitMenuDisplayOptions::Exit => {
            if matches!(selected, InitMenuDisplayOptions::Exit) {
                "-Exit"
            } else {
                "Exit"
            }
        },
    }
}

/// Label of `option` under selection `selected`.
pub open spec fn spec_menu_label(
    option: InitMenuDisplayOptions,
    selected: InitMenuDisplayOptions,
) -> Seq<char> {
    match option {
        InitMenuDisplayOptions::Scan => if selected == option { "-Scan"@ } else { "Scan"@ },
        InitMenuDisplayOptions::Dump => if selected == option { "-Dump"@ } else { "Dump"@ },
        InitMenuDisplayOptions::Size => if selected == option { "-Size"@ } else { "Size"@ },
        InitMenuDisplayOptions::Exit => if selected == option { "-Exit"@ } else { "Exit"@ },
    }
}

/// The four menu lines in display order, with the selected one marked.
pub fn menu_lines(selected: InitMenuDisplayOptions) -> (lines: Vec<&'static str>)
    ensures
        lines@.len() == MENU_OPTION_COUNT,
        lines@[0]@ == spec_menu_label(InitMenuDisplayOptions::Scan, selected),
        lines@[1]@ == spec_menu_label(InitMenuDisplayOptions::Dump, selected),
        lines@[2]@ == spec_menu_label(InitMenuDisplayOptions::Size, selected),
        lines@[3]@ == spec_menu_label(InitMenuDisplayOptions::Exit, selected),
{
    let mut lines: Vec<&'static str> = Vec::new();
    lines.push(menu_label(InitMenuDisplayOptions::Scan, selected));
    lines.push(menu_label(InitMenuDisplayOptions::Dump, selected));
    lines.push(menu_label(InitMenuDisplayOptions::Size, selected));
    lines.push(menu_label(InitMenuDisplayOptions::Exit, selected));
    lines
}

/// Applying the short-press transition `n` times.
pub open spec fn spec_cycle(option: InitMenuDisplayOptions, n: nat) -> InitMenuDisplayOptions
    decreases n,
{
    if n == 0 {
        option
    } else {
        spec_cycle(spec_next_option(option), (n - 1) as nat)
    }
}

/// Cycling is closed: short-pressing as many times as there are options
/// returns to the starting selection, and `Idle` or `LongPress` never move
/// it at all.
pub proof fn lemma_menu_cycle_closed(option: InitMenuDisplayOptions)
    ensures
        spec_cycle(option, MENU_OPTION_COUNT as nat) == option,
        spec_update_menu(option, ButtonEvent::Idle) == option,
        spec_update_menu(option, ButtonEvent::LongPress) == option,
{
    let o1 = spec_next_option(option);
    let o2 = spec_next_option(o1);
    let o3 = spec_next_option(o2);
    assert(spec_cycle(option, 4) == spec_cycle(o1, 3));
    assert(spec_cycle(o1, 3) == spec_cycle(o2, 2));
    assert(spec_cycle(o2, 2) == spec_cycle(o3, 1));
    let o4 = spec_next_option(o3);
    assert(spec_cycle(o3, 1) == spec_cycle(o4, 0));
    assert(spec_cycle(o4, 0) == o4);
}

/// Cycling any whole number of rounds returns to the starting selection.
pub proof fn lemma_menu_cycle_rounds(option: InitMenuDisplayOptions, rounds: nat)
    ensures
        spec_cycle(option, rounds * MENU_OPTION_COUNT as nat) == option,
    decreases rounds,
{
    if rounds == 0 {
    } else {
        lemma_cycle_add(option, MENU_OPTION_COUNT as nat, ((rounds - 1) * MENU_OPTION_COUNT as nat) as nat);
        lemma_menu_cycle_closed(option);
        lemma_menu_cycle_rounds(option, (rounds - 1) as nat);
        assert(rounds * MENU_OPTION_COUNT as nat
            == MENU_OPTION_COUNT as nat + (rounds - 1) * MENU_OPTION_COUNT as nat)
            by (nonlinear_arith);
    }
}

/// Cycling `a + b` times is cycling `a` times and then `b` more.
pub proof fn lemma_cycle_add(option: InitMenuDisplayOptions, a: nat, b: nat)
    ensures
        spec_cycle(option, a + b) == spec_cycle(spec_cycle(option, a), b),
    decreases a,
{
    if a > 0 {
        lemma_cycle_add(spec_next_option(option), (a - 1) as nat, b);
    }
}

} // verus!
