use std::path::PathBuf;
use vstd::prelude::*;

use crate::game::display::{show, show_json, slot, slot_json_of};
use crate::game::engine::{
    bought_slot, buy_slot, click, cookies_per_click, purchase_overflows,
};
use crate::game::amount::saturate;
use crate::game::state::GameState;

verus! {

#[verifier::external_type_specification]
#[verifier::external_body]
pub struct ExPathBuf(PathBuf);

/// The command line: an optional save file and a command.
pub struct Cli {
    /// Path to the save file. Defaults to
    /// ~/.local/share/waybar_cookie_clicker/state.json
    pub state: Option<PathBuf>,
    pub command: Command,
}

/// What one run of the program does.
pub enum Command {
    Show,
    Click,
    /// Output waybar JSON for the Nth slot (buildings + upgrades)
    Slot { index: usize },
    /// Buy whatever is in the Nth slot
    BuySlot { index: usize },
}

/// Whether `c` may be carried out on `s`: a purchase may not take a
/// building past the largest count.
pub open spec fn command_allowed(s: &GameState, c: Command) -> bool {
    match c {
        Command::BuySlot { index } => !purchase_overflows(s, index as int),
        _ => true,
    }
}

/// Carries out `command` on a state that is up to date, and returns what
/// to print and whether the state changed and must be saved.
pub fn run_command(state: &mut GameState, command: &Command) -> (r: (String, bool))
    requires
        command_allowed(&*old(state), *command),
    ensures
        match *command {
            Command::Show => {
                &&& r.0@ == show_json(&*old(state))
                &&& !r.1
                &&& *final(state) == *old(state)
            },
            Command::Click => {
                &&& final(state).cookies == saturate(
                    old(state).cookies + cookies_per_click(old(state).upgrades_purchased@),
                )
                &&& final(state).total_cookies == saturate(
                    old(state).total_cookies + cookies_per_click(old(state).upgrades_purchased@),
                )
                &&& final(state).last_tick_ms == old(state).last_tick_ms
                &&& final(state).buildings@ == old(state).buildings@
                &&& final(state).upgrades_purchased@ == old(state).upgrades_purchased@
                &&& r.0@ == show_json(&*final(state))
                &&& r.1
            },
            Command::Slot { index } => {
                &&& r.0@ == slot_json_of(&*old(state), index as int)
                &&& !r.1
                &&& *final(state) == *old(state)
            },
            Command::BuySlot { index } => {
                &&& bought_slot(&*old(state), index as int, &*final(state))
                &&& r.0@ == show_json(&*final(state))
                &&& r.1
            },
        },
{
    match command {
        Command::Show => (show(state), false),
        Command::Click => {
            click(state);
            (show(state), true)
        },
        Command::Slot { index } => (slot(state, *index), false),
        Command::BuySlot { index } => {
            buy_slot(state, *index);
            (show(state), true)
        },
    }
}

} // verus!
