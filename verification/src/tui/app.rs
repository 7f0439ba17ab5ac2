//! State of the interactive wizard and doctor views, and how keys change it.
//!
//! Drawing and reading the terminal are left to the caller, which feeds each
//! key press to `TuiApp::on_key` until `should_quit` is set.

use vstd::prelude::*;

verus! {

#[derive(Debug, Clone, Copy, PartialEq, Eq, Structural)]
pub struct TuiState {
    pub current_tab: usize,
    pub selected_cores: u32,
    pub should_quit: bool,
}

impl Default for TuiState {
    /// The first tab, 8 cores selected, running.
    fn default() -> (s: Self)
        ensures
            s == (TuiState { current_tab: 0, selected_cores: 8, should_quit: false }),
    {
        TuiState { current_tab: 0, selected_cores: 8, should_quit: false }
    }
}

/// A key press, as far as the views distinguish keys.
#[derive(Debug, Clone, Copy, PartialEq, Eq, Structural)]
pub enum TuiKey {
    Char(char),
    Esc,
    Tab,
    BackTab,
    Up,
    Down,
    Other,
}

/// The state after key `key` (with Control held when `ctrl`): 'q' and Esc
/// quit, as does Control-C; Tab and Shift-Tab cycle through the five tabs;
/// Up and Down move the core selection by two within [2, 32]; other keys do nothing.
pub open spec fn next_state(s: TuiState, key: TuiKey, ctrl: bool) -> TuiState {
    match key {
        TuiKey::Char(c) => if c == 'q' || (c == 'c' && ctrl) {
            TuiState { should_quit: true, ..s }
        } else {
            s
        },
        TuiKey::Esc => TuiState { should_quit: true, ..s },
        TuiKey::Tab => TuiState { current_tab: ((s.current_tab + 1) % 5) as usize, ..s },
        TuiKey::BackTab => TuiState {
            current_tab: if s.current_tab == 0 { 4 } else { (s.current_tab - 1) as usize },
            ..s
        },
        TuiKey::Up => TuiState {
            selected_cores: if s.selected_cores + 2 < 32 { (s.selected_cores + 2) as u32 } else { 32 },
            ..s
        },
        TuiKey::Down => TuiState {
            selected_cores: if s.selected_cores >= 4 { (s.selected_cores - 2) as u32 } else { 2 },
            ..s
        },
        TuiKey::Other => s,
    }
}

/// The key can be handled without overflow.
pub open spec fn key_in_range(s: TuiState, key: TuiKey) -> bool {
    &&& key == TuiKey::Tab ==> s.current_tab < usize::MAX
    &&& key == TuiKey::Up ==> s.selected_cores <= u32::MAX - 2
}

pub struct TuiApp;

impl TuiApp {
    /// Applies one key press to the state.
    pub fn on_key(state: &mut TuiState, key: TuiKey, ctrl: bool)
        requires
            key_in_range(*old(state), key),
        ensures
            *final(state) == next_state(*old(state), key, ctrl),
    {
        match key {
            TuiKey::Char(c) => {
                if c == 'q' || (c == 'c' && ctrl) {
                    state.should_quit = true;
                }
            },
            TuiKey::Esc => {
                state.should_quit = true;
            },
            TuiKey::Tab => {
                state.current_tab = (state.current_tab + 1) % 5;
            },
            TuiKey::BackTab => {
                state.current_tab = if state.current_tab == 0 { 4 } else { state.current_tab - 1 };
            },
            TuiKey::Up => {
                let c = state.selected_cores + 2;
                state.selected_cores = if c < 32 { c } else { 32 };
            },
            TuiKey::Down => {
                let c = state.selected_cores.saturating_sub(2);
                state.selected_cores = if c > 2 { c } else { 2 };
            },
            TuiKey::Other => {},
        }
    }

    /// Whether the key can be handled without overflow.
    pub fn key_fits(state: &TuiState, key: TuiKey) -> (b: bool)
        ensures
            b == key_in_range(*state, key),
    {
        match key {
            TuiKey::Tab => state.current_tab < usize::MAX,
            TuiKey::Up => state.selected_cores <= u32::MAX - 2,
            _ => true,
        }
    }
}

/// The views only ever show one of the five tabs: every key keeps the tab in range.
pub proof fn law_tab_stays_in_range(s: TuiState, key: TuiKey, ctrl: bool)
    requires
        s.current_tab < 5,
    ensures
        next_state(s, key, ctrl).current_tab < 5,
{
}

/// The core selection never leaves [2, 32] once inside it.
pub proof fn law_cores_stay_in_range(s: TuiState, key: TuiKey, ctrl: bool)
    requires
        2 <= s.selected_cores <= 32,
    ensures
        2 <= next_state(s, key, ctrl).selected_cores <= 32,
{
}

/// Tab followed by Shift-Tab, or Shift-Tab followed by Tab, returns to the same state.
pub proof fn law_tab_backtab_inverse(s: TuiState)
    requires
        s.current_tab < 5,
    ensures
        next_state(next_state(s, TuiKey::Tab, false), TuiKey::BackTab, false) == s,
        next_state(next_state(s, TuiKey::BackTab, false), TuiKey::Tab, false) == s,
{
}

/// Once the views are told to quit, no key takes that back.
pub proof fn law_quit_is_final(s: TuiState, key: TuiKey, ctrl: bool)
    requires
        s.should_quit,
    ensures
        next_state(s, key, ctrl).should_quit,
{
}

/// Five presses of Tab come back to the starting tab.
pub proof fn law_tab_cycle(s: TuiState)
    requires
        s.current_tab < 5,
    ensures
        ({
            let s1 = next_state(s, TuiKey::Tab, false);
            let s2 = next_state(s1, TuiKey::Tab, false);
            let s3 = next_state(s2, TuiKey::Tab, false);
            let s4 = next_state(s3, TuiKey::Tab, false);
            next_state(s4, TuiKey::Tab, false) == s
        }),
{
}

} // verus!
