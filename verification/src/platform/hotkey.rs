//! The push-to-talk hotkey: Control and Function held together. The key codes
//! and modifier flags are those of macOS (`CGKeyCode`, `CGEventFlags`); the
//! caller reads them off each event, and passes the time in nanoseconds from
//! any fixed origin.
use vstd::prelude::*;

verus! {

/// The key code of the left Control key.
pub const CONTROL: u16 = 0x3B;

/// The key code of the right Control key.
pub const RIGHT_CONTROL: u16 = 0x3E;

/// The key code of the Function key.
pub const FUNCTION: u16 = 0x3F;

/// The key code of Escape.
pub const ESCAPE: u16 = 0x35;

/// The key code of V on an ANSI keyboard.
pub const ANSI_V: u16 = 0x09;

/// The flag of a held Control key.
pub const FLAG_CONTROL: u64 = 0x0004_0000;

/// The flag of a held Command key.
pub const FLAG_COMMAND: u64 = 0x0010_0000;

/// The flag of a held Function key.
pub const FLAG_SECONDARY_FN: u64 = 0x0080_0000;

/// How long after the hotkey is released a paste or Escape still belongs to
/// the capture, in nanoseconds.
pub const TRANSCRIPT_TIMEOUT_NANOS: u64 = 15_000_000_000;

/// `CGEventFlags::contains`: every bit of `flag` is set in `flags`.
pub open spec fn has_flag(flags: u64, flag: u64) -> bool {
    flags & flag == flag
}

/// What a key press means to the capture.
#[derive(Clone, Copy, Debug, PartialEq, Eq, Structural)]
pub enum KeyAction {
    /// Nothing.
    Ignore,
    /// Command-V while waiting for the transcript: paste it into the capture.
    Paste,
    /// Escape while holding the hotkey or waiting: stop the capture.
    Cancel,
}

/// The hotkey's state.
#[derive(Debug)]
pub struct State {
    pub control_down: bool,
    pub function_down: bool,
    pub combo_down: bool,
    /// When the hotkey was last released, while a transcript is awaited.
    pub waiting_since: Option<u64>,
}

/// Control is down after an event of a Control key exactly when the event
/// has the Control flag; Function is down after a Function event when the
/// event has the Function flag, and otherwise the event toggles it (macOS
/// may leave the flag out of such events).
pub open spec fn next_modifiers(state: State, key: u16, flags: u64) -> (bool, bool) {
    if key == CONTROL || key == RIGHT_CONTROL {
        (has_flag(flags, FLAG_CONTROL), state.function_down)
    } else if key == FUNCTION {
        (state.control_down, if has_flag(flags, FLAG_SECONDARY_FN) {
            true
        } else {
            !state.function_down
        })
    } else {
        (state.control_down, state.function_down)
    }
}

/// A transcript is still awaited at time `now`.
pub open spec fn waiting_at(state: State, now: u64) -> bool {
    match state.waiting_since {
        Some(since) => (if now >= since {
            now - since
        } else {
            0
        }) <= TRANSCRIPT_TIMEOUT_NANOS,
        None => false,
    }
}

impl State {
    /// Nothing held, nothing awaited.
    pub fn new() -> (s: State)
        ensures
            !s.control_down && !s.function_down && !s.combo_down && s.waiting_since is None,
    {
        State { control_down: false, function_down: false, combo_down: false, waiting_since: None }
    }

    /// Tracks a modifier event; answers `Some(true)` when the hotkey becomes
    /// held, `Some(false)` when it is let go, and `None` otherwise.
    pub fn modifier_changed(&mut self, key: u16, flags: u64) -> (r: Option<bool>)
        ensures
            (final(self).control_down, final(self).function_down) == next_modifiers(
                *old(self),
                key,
                flags,
            ),
            final(self).combo_down == (final(self).control_down && final(self).function_down),
            final(self).waiting_since == old(self).waiting_since,
            r == if final(self).combo_down == old(self).combo_down {
                None
            } else {
                Some(final(self).combo_down)
            },
    {
        if key == CONTROL || key == RIGHT_CONTROL {
            self.control_down = flags & FLAG_CONTROL == FLAG_CONTROL;
        } else if key == FUNCTION {
            self.function_down = if flags & FLAG_SECONDARY_FN == FLAG_SECONDARY_FN {
                true
            } else {
                !self.function_down
            };
        }
        let pressed = self.control_down && self.function_down;
        if pressed == self.combo_down {
            return None;
        }
        self.combo_down = pressed;
        Some(pressed)
    }

    /// Tracks a modifier event at time `now`: holding the hotkey ends any
    /// wait, letting it go starts one.
    pub fn modifiers_changed(&mut self, key: u16, flags: u64, now: u64) -> (r: Option<bool>)
        ensures
            (final(self).control_down, final(self).function_down) == next_modifiers(
                *old(self),
                key,
                flags,
            ),
            final(self).combo_down == (final(self).control_down && final(self).function_down),
            r == if final(self).combo_down == old(self).combo_down {
                None
            } else {
                Some(final(self).combo_down)
            },
            final(self).waiting_since == match r {
                Some(true) => None,
                Some(false) => Some(now),
                None => old(self).waiting_since,
            },
    {
        let changed = self.modifier_changed(key, flags);
        match changed {
            Some(true) => {
                self.waiting_since = None;
            },
            Some(false) => {
                self.waiting_since = Some(now);
            },
            None => {},
        }
        changed
    }

    /// What a key press at time `now` means: Command-V while a transcript is
    /// awaited pastes it; Escape while the hotkey is held or a transcript is
    /// awaited cancels. Either ends the wait; a cancel also lets the hotkey go.
    pub fn key_down(&mut self, key: u16, flags: u64, now: u64) -> (r: KeyAction)
        ensures
            r == if waiting_at(*old(self), now) && key == ANSI_V && has_flag(flags, FLAG_COMMAND) {
                KeyAction::Paste
            } else if key == ESCAPE && (old(self).combo_down || waiting_at(*old(self), now)) {
                KeyAction::Cancel
            } else {
                KeyAction::Ignore
            },
            final(self).control_down == old(self).control_down,
            final(self).function_down == old(self).function_down,
            final(self).combo_down == (old(self).combo_down && r != KeyAction::Cancel),
            final(self).waiting_since == if r == KeyAction::Ignore {
                old(self).waiting_since
            } else {
                None
            },
    {
        let waiting = match self.waiting_since {
            Some(since) => now.saturating_sub(since) <= TRANSCRIPT_TIMEOUT_NANOS,
            None => false,
        };
        if waiting && key == ANSI_V && flags & FLAG_COMMAND == FLAG_COMMAND {
            self.waiting_since = None;
            return KeyAction::Paste;
        }
        if key != ESCAPE {
            return KeyAction::Ignore;
        }
        if !self.combo_down && !waiting {
            return KeyAction::Ignore;
        }
        self.combo_down = false;
        self.waiting_since = None;
        KeyAction::Cancel
    }
}

impl Default for State {
    fn default() -> (s: State)
        ensures
            !s.control_down && !s.function_down && !s.combo_down && s.waiting_since is None,
    {
        State::new()
    }
}

} // verus!
