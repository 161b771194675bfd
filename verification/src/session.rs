use vstd::prelude::*;

verus! {

/// Whether the controller currently holds the physical terminal: `Active`
/// means raw mode is on and the cursor hidden; `Suspended` means the
/// terminal was handed back for job control; `Inactive` means the session
/// has not started or has ended.
#[derive(Clone, Copy, Debug, PartialEq, Eq, Structural)]
pub enum SessionMode {
    Inactive,
    Active,
    Suspended,
}

/// The primitive terminal-state changes a transition asks for, in order.
#[derive(Clone, Copy, Debug, PartialEq, Eq, Structural)]
pub enum TermOp {
    ClearAll,
    HideCursor,
    ShowCursor,
    EnableRaw,
    DisableRaw,
}

/// The session controller: it owns the raw-mode/cursor state of the
/// terminal and decides, on every transition, which terminal-state changes
/// must be applied and in what order.
pub struct SessionController {
    pub mode: SessionMode,
}

impl SessionController {
    /// A controller for a session that has not touched the terminal yet.
    pub fn new() -> (c: SessionController)
        ensures
            c.mode == SessionMode::Inactive,
    {
        SessionController { mode: SessionMode::Inactive }
    }

    /// The mode the controller is in.
    pub fn mode(&self) -> (m: SessionMode)
        ensures
            m == self.mode,
    {
        self.mode
    }

    /// Takes (or re-takes) the terminal: clear the screen, hide the cursor,
    /// enable raw mode. Idempotent re-acquisition on purpose — entering
    /// `Active` from any mode, including a resume from `Suspended`, applies
    /// the same changes, because job control may have reset the terminal
    /// behind our back.
    pub fn take_terminal(&mut self) -> (ops: Vec<TermOp>)
        ensures
            final(self).mode == SessionMode::Active,
            ops@ == seq![TermOp::ClearAll, TermOp::HideCursor, TermOp::EnableRaw],
    {
        self.mode = SessionMode::Active;
        let mut ops: Vec<TermOp> = Vec::new();
        ops.push(TermOp::ClearAll);
        ops.push(TermOp::HideCursor);
        ops.push(TermOp::EnableRaw);
        proof {
            assert(ops@ =~= seq![TermOp::ClearAll, TermOp::HideCursor, TermOp::EnableRaw]);
        }
        ops
    }

    /// Releases the terminal so the shell sees a sane state again: clear
    /// the screen, show the cursor again, disable raw mode — the full
    /// inverse of what taking the terminal applied. `exiting` distinguishes
    /// quitting for good from yielding for an OS-level suspension.
    pub fn release_terminal(&mut self, exiting: bool) -> (ops: Vec<TermOp>)
        ensures
            final(self).mode == (if exiting {
                SessionMode::Inactive
            } else {
                SessionMode::Suspended
            }),
            ops@ == seq![TermOp::ClearAll, TermOp::ShowCursor, TermOp::DisableRaw],
    {
        self.mode = if exiting {
            SessionMode::Inactive
        } else {
            SessionMode::Suspended
        };
        let mut ops: Vec<TermOp> = Vec::new();
        ops.push(TermOp::ClearAll);
        ops.push(TermOp::ShowCursor);
        ops.push(TermOp::DisableRaw);
        proof {
            assert(ops@ =~= seq![TermOp::ClearAll, TermOp::ShowCursor, TermOp::DisableRaw]);
        }
        ops
    }
}

} // verus!
