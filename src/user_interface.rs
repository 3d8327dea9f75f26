use vstd::prelude::*;

use crate::circular_buffer::appended;
use crate::logs::{LogLevel, LogMessage, Logs};

verus! {

/// Bit of `KeyEvent::modifiers` set while Control is held.
pub const CONTROL: u8 = 0b0000_0010;

/// The key that was hit, as far as the interface tells keys apart.
#[derive(Debug, Clone, Copy, PartialEq, Eq, Structural)]
pub enum KeyCode {
    Esc,
    Char(char),
    Other,
}

/// Whether a key went down, repeated, or came up.
#[derive(Debug, Clone, Copy, PartialEq, Eq, Structural)]
pub enum KeyKind {
    Press,
    Repeat,
    Release,
}

/// A key event: the key, the modifier bits held (Shift 1, Control 2, Alt 4,
/// Super 8, Hyper 16, Meta 32) and its kind.
#[derive(Debug, Clone, Copy, PartialEq, Eq, Structural)]
pub struct KeyEvent {
    pub code: KeyCode,
    pub modifiers: u8,
    pub kind: KeyKind,
}

/// An input event; everything but keys (mouse, resize, focus, paste) is `Other`.
#[derive(Debug, Clone, Copy, PartialEq, Eq, Structural)]
pub enum InputEvent {
    Key(KeyEvent),
    Other,
}

/// Esc or `q` with any modifiers, or `c` / `C` with Control alone, ends the
/// interface.
pub open spec fn is_quit_key(key: KeyEvent) -> bool {
    match key.code {
        KeyCode::Esc => true,
        KeyCode::Char(ch) => ch == 'q' || ((ch == 'c' || ch == 'C') && key.modifiers == CONTROL),
        KeyCode::Other => false,
    }
}

/// Only a key press is acted on.
pub open spec fn is_quit_event(event: InputEvent) -> bool {
    match event {
        InputEvent::Key(key) => key.kind == KeyKind::Press && is_quit_key(key),
        InputEvent::Other => false,
    }
}

/// The state of the interface: whether its loop runs, and its log panel.
#[derive(Debug)]
pub struct UserInterface {
    running: bool,
    logs: Logs,
}

impl UserInterface {
    /// The log panel is well formed.
    pub closed spec fn wf(&self) -> bool {
        self.logs.wf()
    }

    /// Whether the loop runs.
    pub closed spec fn running(&self) -> bool {
        self.running
    }

    /// The log panel's messages, oldest first.
    pub closed spec fn log_view(&self) -> Seq<(LogLevel, Seq<char>)> {
        self.logs@
    }

    /// The log panel's capacity.
    pub closed spec fn log_cap(&self) -> nat {
        self.logs.cap()
    }

    /// A stopped interface with an empty log of the default capacity.
    pub fn new() -> (r: Self)
        ensures
            r.wf(),
            !r.running(),
            r.log_view() == Seq::<(LogLevel, Seq<char>)>::empty(),
            r.log_cap() == crate::circular_buffer::DEFAULT_CAPACITY,
    {
        UserInterface { running: false, logs: Logs::default() }
    }

    /// Marks the loop as running; done once before the first frame.
    pub fn start(&mut self)
        requires
            old(self).wf(),
        ensures
            final(self).wf(),
            final(self).running(),
            final(self).log_view() == old(self).log_view(),
            final(self).log_cap() == old(self).log_cap(),
    {
        self.running = true;
    }

    /// Whether the loop should draw another frame.
    pub fn is_running(&self) -> (r: bool)
        ensures
            r == self.running(),
    {
        self.running
    }

    /// Acts on one input event: a quit key press stops the loop, anything else
    /// is ignored.
    pub fn handle_event(&mut self, event: InputEvent)
        requires
            old(self).wf(),
        ensures
            final(self).wf(),
            final(self).running() == (old(self).running() && !is_quit_event(event)),
            final(self).log_view() == old(self).log_view(),
            final(self).log_cap() == old(self).log_cap(),
    {
        match event {
            InputEvent::Key(key) => {
                if key.kind == KeyKind::Press {
                    self.on_key_event(key);
                }
            },
            InputEvent::Other => {},
        }
    }

    /// Acts on a pressed key: a quit key stops the loop.
    pub fn on_key_event(&mut self, key: KeyEvent)
        requires
            old(self).wf(),
        ensures
            final(self).wf(),
            final(self).running() == (old(self).running() && !is_quit_key(key)),
            final(self).log_view() == old(self).log_view(),
            final(self).log_cap() == old(self).log_cap(),
    {
        let quits = match key.code {
            KeyCode::Esc => true,
            KeyCode::Char(ch) => ch == 'q' || ((ch == 'c' || ch == 'C') && key.modifiers
                == CONTROL),
            KeyCode::Other => false,
        };
        if quits {
            self.quit();
        }
    }

    /// Stops the loop.
    pub fn quit(&mut self)
        requires
            old(self).wf(),
        ensures
            final(self).wf(),
            !final(self).running(),
            final(self).log_view() == old(self).log_view(),
            final(self).log_cap() == old(self).log_cap(),
    {
        self.running = false;
    }

    /// Records `message` in the log panel.
    pub fn log(&mut self, message: LogMessage)
        requires
            old(self).wf(),
        ensures
            final(self).wf(),
            final(self).running() == old(self).running(),
            final(self).log_view() == appended(old(self).log_view(), old(self).log_cap(), message@),
            final(self).log_cap() == old(self).log_cap(),
    {
        self.logs.append(message);
    }

    /// The log panel.
    pub fn logs(&self) -> (r: &Logs)
        requires
            self.wf(),
        ensures
            r.wf(),
            r@ == self.log_view(),
            r.cap() == self.log_cap(),
    {
        &self.logs
    }
}

impl Default for UserInterface {
    /// The same as `UserInterface::new`.
    fn default() -> (r: Self)
        ensures
            r.wf(),
            !r.running(),
            r.log_view() == Seq::<(LogLevel, Seq<char>)>::empty(),
            r.log_cap() == crate::circular_buffer::DEFAULT_CAPACITY,
    {
        UserInterface::new()
    }
}

} // verus!
