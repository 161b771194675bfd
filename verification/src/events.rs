use vstd::prelude::*;

use crate::nav::{NavState, advance_model, nav_wf, retreat_model};

verus! {

/// A keyboard event as the engine sees it: the pressed key (only the kinds
/// it can react to) together with whether the control modifier was held.
#[derive(Clone, Copy, Debug, PartialEq, Eq, Structural)]
pub enum KeyInput {
    Enter,
    Char(char),
    Other,
}

/// What a key press asks the engine to do.
#[derive(Clone, Copy, Debug, PartialEq, Eq, Structural)]
pub enum Action {
    Advance,
    Retreat,
    ToggleTimer,
    Suspend,
    Quit,
    Ignore,
}

/// The key bindings: space, enter and `n` advance; `p` retreats; `t`
/// toggles the elapsed-time readout; control-`z` suspends; `q` or
/// control-`c` quits; everything else is silently ignored.
pub open spec fn action_for(key: KeyInput, ctrl: bool) -> Action {
    if key == KeyInput::Enter || key == KeyInput::Char('n') || key == KeyInput::Char(' ') {
        Action::Advance
    } else if key == KeyInput::Char('p') {
        Action::Retreat
    } else if key == KeyInput::Char('t') {
        Action::ToggleTimer
    } else if key == KeyInput::Char('z') && ctrl {
        Action::Suspend
    } else if key == KeyInput::Char('q') || (key == KeyInput::Char('c') && ctrl) {
        Action::Quit
    } else {
        Action::Ignore
    }
}

/// Maps a key press to the action it is bound to.
pub fn dispatch(key: KeyInput, ctrl: bool) -> (a: Action)
    ensures
        a == action_for(key, ctrl),
{
    match key {
        KeyInput::Enter => Action::Advance,
        KeyInput::Char(c) => {
            if c == 'n' || c == ' ' {
                Action::Advance
            } else if c == 'p' {
                Action::Retreat
            } else if c == 't' {
                Action::ToggleTimer
            } else if c == 'z' && ctrl {
                Action::Suspend
            } else if c == 'q' || (c == 'c' && ctrl) {
                Action::Quit
            } else {
                Action::Ignore
            }
        },
        KeyInput::Other => Action::Ignore,
    }
}

/// What one loop iteration must do after a key was handled: repaint the
/// whole slide, only refresh the timer region, suspend the process, or quit.
#[derive(Clone, Copy, Debug, PartialEq, Eq, Structural)]
pub enum StepCmd {
    Repaint,
    TimerOnly,
    Suspend,
    Quit,
}

/// Handles one key press: navigation keys move the cursor (and ask for a
/// full repaint only when the cursor actually moved), the timer key flips
/// the readout flag, and the suspend and quit keys leave both untouched and
/// hand the decision back as a command.
pub fn handle_key(nav: &mut NavState, show_timer: &mut bool, key: KeyInput, ctrl: bool) -> (cmd:
    StepCmd)
    requires
        nav_wf(old(nav)@),
    ensures
        nav_wf(final(nav)@),
        ({
            let a = action_for(key, ctrl);
            let kept_timer = *final(show_timer) == *old(show_timer);
            let kept_nav = final(nav)@ == old(nav)@;
            &&& (a == Action::Advance ==> final(nav)@ == advance_model(old(nav)@) && kept_timer
                && cmd == (if old(nav)@.forward.len() > 0 {
                StepCmd::Repaint
            } else {
                StepCmd::TimerOnly
            }))
            &&& (a == Action::Retreat ==> final(nav)@ == retreat_model(old(nav)@) && kept_timer
                && cmd == (if old(nav)@.backward.len() > 0 {
                StepCmd::Repaint
            } else {
                StepCmd::TimerOnly
            }))
            &&& (a == Action::ToggleTimer ==> kept_nav && *final(show_timer) == !*old(show_timer)
                && cmd == StepCmd::TimerOnly)
            &&& (a == Action::Suspend ==> kept_nav && kept_timer && cmd == StepCmd::Suspend)
            &&& (a == Action::Quit ==> kept_nav && kept_timer && cmd == StepCmd::Quit)
            &&& (a == Action::Ignore ==> kept_nav && kept_timer && cmd == StepCmd::TimerOnly)
        }),
{
    match dispatch(key, ctrl) {
        Action::Advance => {
            let changed = nav.advance();
            if changed {
                StepCmd::Repaint
            } else {
                StepCmd::TimerOnly
            }
        },
        Action::Retreat => {
            let changed = nav.retreat();
            if changed {
                StepCmd::Repaint
            } else {
                StepCmd::TimerOnly
            }
        },
        Action::ToggleTimer => {
            *show_timer = !*show_timer;
            StepCmd::TimerOnly
        },
        Action::Suspend => StepCmd::Suspend,
        Action::Quit => StepCmd::Quit,
        Action::Ignore => StepCmd::TimerOnly,
    }
}

} // verus!
