//! Terminal modes, sizes and saved state, and the flag that says whether an
//! interaction runs (shared with whoever may stop it).
use vstd::prelude::*;
use std::sync::atomic::{AtomicBool, Ordering};
use std::sync::Arc;

verus! {

/// A terminal mode.
#[derive(Debug, Clone, Copy, PartialEq, Eq, Structural)]
pub enum TerminalMode {
    /// Raw: no processing.
    Raw,
    /// Cooked: line editing and echo.
    Cooked,
    /// Character at a time, with signals.
    Cbreak,
}

/// A terminal size.
#[derive(Debug, Clone, Copy, PartialEq, Eq, Structural)]
pub struct TerminalSize {
    /// Columns.
    pub cols: u16,
    /// Rows.
    pub rows: u16,
}

impl TerminalSize {
    /// A size.
    pub fn new(cols: u16, rows: u16) -> (r: Self)
        ensures
            r == (TerminalSize { cols, rows }),
    {
        TerminalSize { cols, rows }
    }
}

impl Default for TerminalSize {
    fn default() -> (r: Self)
        ensures
            r == (TerminalSize { cols: 80, rows: 24 }),
    {
        TerminalSize { cols: 80, rows: 24 }
    }
}

/// A saved terminal state.
#[derive(Debug, Clone, Copy, PartialEq, Eq, Structural)]
pub struct TerminalState {
    /// The mode.
    pub mode: TerminalMode,
    /// Whether input is echoed.
    pub echo: bool,
    /// Whether input is line-buffered.
    pub canonical: bool,
}

impl Default for TerminalState {
    fn default() -> (r: Self)
        ensures
            r == (TerminalState { mode: TerminalMode::Cooked, echo: true, canonical: true }),
    {
        TerminalState { mode: TerminalMode::Cooked, echo: true, canonical: true }
    }
}

/// Creates a shared flag (calls `Arc::new` on `AtomicBool::new`).
#[verifier::external_body]
fn new_flag(v: bool) -> Arc<AtomicBool> {
    Arc::new(AtomicBool::new(v))
}

/// Shares a flag (calls `Arc::clone`).
#[verifier::external_body]
fn share_flag(f: &Arc<AtomicBool>) -> Arc<AtomicBool> {
    Arc::clone(f)
}

/// Reads a shared flag (calls `AtomicBool::load`).
#[verifier::external_body]
fn load_flag(f: &Arc<AtomicBool>) -> bool {
    f.load(Ordering::SeqCst)
}

/// Sets a shared flag (calls `AtomicBool::store`).
#[verifier::external_body]
fn store_flag(f: &Arc<AtomicBool>, v: bool) {
    f.store(v, Ordering::SeqCst);
}

/// The terminal of an interaction.
#[derive(Debug)]
pub struct Terminal {
    running: Arc<AtomicBool>,
    mode: TerminalMode,
    saved_state: Option<TerminalState>,
}

impl Terminal {
    /// The mode.
    pub closed spec fn spec_mode(&self) -> TerminalMode {
        self.mode
    }

    /// The saved state.
    pub closed spec fn spec_saved(&self) -> Option<TerminalState> {
        self.saved_state
    }

    /// A cooked terminal with nothing saved and the flag down.
    pub fn new() -> (r: Self)
        ensures
            r.spec_mode() == TerminalMode::Cooked,
            r.spec_saved() is None,
    {
        Terminal { running: new_flag(false), mode: TerminalMode::Cooked, saved_state: None }
    }

    /// Whether the interaction runs. The flag is shared (see
    /// [`Terminal::running_flag`]), so any holder may change it at any time;
    /// nothing is stated of the value read.
    pub fn is_running(&self) -> bool {
        load_flag(&self.running)
    }

    /// Raise or lower the flag.
    pub fn set_running(&self, running: bool) {
        store_flag(&self.running, running);
    }

    /// The flag, shared.
    pub fn running_flag(&self) -> Arc<AtomicBool> {
        share_flag(&self.running)
    }

    /// The mode.
    pub fn mode(&self) -> (r: TerminalMode)
        ensures
            r == self.spec_mode(),
    {
        self.mode
    }

    /// Set the mode.
    pub fn set_mode(&mut self, mode: TerminalMode)
        ensures
            final(self).spec_mode() == mode,
            final(self).spec_saved() == old(self).spec_saved(),
    {
        self.mode = mode;
    }

    /// Save the state: the mode, echo on, and line-buffering in cooked mode.
    pub fn save_state(&mut self)
        ensures
            final(self).spec_mode() == old(self).spec_mode(),
            final(self).spec_saved() == Some(TerminalState {
                mode: old(self).spec_mode(),
                echo: true,
                canonical: old(self).spec_mode() == TerminalMode::Cooked,
            }),
    {
        self.saved_state = Some(TerminalState {
            mode: self.mode,
            echo: true,
            canonical: self.mode == TerminalMode::Cooked,
        });
    }

    /// Restore the saved mode, if any; nothing stays saved.
    pub fn restore_state(&mut self)
        ensures
            final(self).spec_saved() is None,
            final(self).spec_mode() == match old(self).spec_saved() {
                Some(s) => s.mode,
                None => old(self).spec_mode(),
            },
    {
        let mut saved: Option<TerminalState> = None;
        std::mem::swap(&mut saved, &mut self.saved_state);
        match saved {
            Some(s) => {
                self.mode = s.mode;
            },
            None => {},
        }
    }
}

/// Saving the state, changing the mode, then restoring gives back the mode
/// that was saved: `a` is saved into `b`, `b`'s mode is changed into `c`,
/// `c` is restored into `d`.
pub proof fn law_save_restore(a: Terminal, b: Terminal, c: Terminal, d: Terminal)
    requires
        b.spec_mode() == a.spec_mode(),
        b.spec_saved() == Some(TerminalState {
            mode: a.spec_mode(),
            echo: true,
            canonical: a.spec_mode() == TerminalMode::Cooked,
        }),
        c.spec_saved() == b.spec_saved(),
        d.spec_saved() is None,
        d.spec_mode() == match c.spec_saved() {
            Some(s) => s.mode,
            None => c.spec_mode(),
        },
    ensures
        d.spec_mode() == a.spec_mode(),
{
}

} // verus!
