use termslides::events::{dispatch, handle_key, Action, KeyInput, StepCmd};
use termslides::nav::NavState;
use termslides::session::{SessionController, SessionMode, TermOp};

#[test]
fn key_bindings_match_the_documented_actions() {
    assert_eq!(dispatch(KeyInput::Enter, false), Action::Advance);
    assert_eq!(dispatch(KeyInput::Char('n'), false), Action::Advance);
    assert_eq!(dispatch(KeyInput::Char(' '), false), Action::Advance);
    assert_eq!(dispatch(KeyInput::Char('p'), false), Action::Retreat);
    assert_eq!(dispatch(KeyInput::Char('t'), false), Action::ToggleTimer);
    assert_eq!(dispatch(KeyInput::Char('z'), true), Action::Suspend);
    assert_eq!(dispatch(KeyInput::Char('z'), false), Action::Ignore);
    assert_eq!(dispatch(KeyInput::Char('q'), false), Action::Quit);
    assert_eq!(dispatch(KeyInput::Char('c'), true), Action::Quit);
    assert_eq!(dispatch(KeyInput::Char('c'), false), Action::Ignore);
    assert_eq!(dispatch(KeyInput::Char('x'), false), Action::Ignore);
    assert_eq!(dispatch(KeyInput::Other, false), Action::Ignore);
}

#[test]
fn advance_key_repaints_when_the_cursor_moves() {
    let mut nav = NavState::new(2);
    let mut show = false;
    let cmd = handle_key(&mut nav, &mut show, KeyInput::Char('n'), false);
    assert_eq!(cmd, StepCmd::Repaint);
    assert_eq!(nav.position(), 1);
    assert!(!show);
}

#[test]
fn advance_key_at_deck_end_only_refreshes_the_timer() {
    let mut nav = NavState::new(1);
    let mut show = false;
    handle_key(&mut nav, &mut show, KeyInput::Enter, false);
    let cmd = handle_key(&mut nav, &mut show, KeyInput::Enter, false);
    assert_eq!(cmd, StepCmd::TimerOnly);
    assert_eq!(nav.position(), 1);
}

#[test]
fn noop_retreat_does_not_repaint() {
    let mut nav = NavState::new(3);
    let mut show = false;
    handle_key(&mut nav, &mut show, KeyInput::Char('n'), false);
    let cmd = handle_key(&mut nav, &mut show, KeyInput::Char('p'), false);
    assert_eq!(cmd, StepCmd::TimerOnly);
    assert_eq!(nav.position(), 1);
}

#[test]
fn retreat_key_repaints_when_a_slide_was_left_behind() {
    let mut nav = NavState::new(3);
    let mut show = false;
    handle_key(&mut nav, &mut show, KeyInput::Char(' '), false);
    handle_key(&mut nav, &mut show, KeyInput::Char(' '), false);
    let cmd = handle_key(&mut nav, &mut show, KeyInput::Char('p'), false);
    assert_eq!(cmd, StepCmd::Repaint);
    assert_eq!(nav.position(), 1);
    assert_eq!(nav.current(), Some(0));
}

#[test]
fn timer_key_flips_the_readout_flag_only() {
    let mut nav = NavState::new(3);
    let mut show = false;
    let cmd = handle_key(&mut nav, &mut show, KeyInput::Char('t'), false);
    assert_eq!(cmd, StepCmd::TimerOnly);
    assert!(show);
    assert_eq!(nav.position(), 0);
    handle_key(&mut nav, &mut show, KeyInput::Char('t'), false);
    assert!(!show);
}

#[test]
fn suspend_and_quit_leave_navigation_untouched() {
    let mut nav = NavState::new(3);
    let mut show = true;
    nav.advance();
    let cmd = handle_key(&mut nav, &mut show, KeyInput::Char('z'), true);
    assert_eq!(cmd, StepCmd::Suspend);
    assert_eq!(nav.position(), 1);
    assert!(show);
    let cmd = handle_key(&mut nav, &mut show, KeyInput::Char('q'), false);
    assert_eq!(cmd, StepCmd::Quit);
    assert_eq!(nav.position(), 1);
}

#[test]
fn session_transitions_apply_the_documented_terminal_changes() {
    let mut session = SessionController::new();
    assert_eq!(session.mode(), SessionMode::Inactive);
    let ops = session.take_terminal();
    assert_eq!(session.mode(), SessionMode::Active);
    assert_eq!(ops, vec![TermOp::ClearAll, TermOp::HideCursor, TermOp::EnableRaw]);
    let ops = session.release_terminal(false);
    assert_eq!(session.mode(), SessionMode::Suspended);
    assert_eq!(ops, vec![TermOp::ClearAll, TermOp::ShowCursor, TermOp::DisableRaw]);
    // resuming re-acquires with the same idempotent sequence
    let ops = session.take_terminal();
    assert_eq!(session.mode(), SessionMode::Active);
    assert_eq!(ops, vec![TermOp::ClearAll, TermOp::HideCursor, TermOp::EnableRaw]);
    let ops = session.release_terminal(true);
    assert_eq!(session.mode(), SessionMode::Inactive);
    assert_eq!(ops, vec![TermOp::ClearAll, TermOp::ShowCursor, TermOp::DisableRaw]);
}
