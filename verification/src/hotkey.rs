//! The first hotkey listener: Control and Function held together start a
//! dictation, and the Command-V with which Wispr Flow pastes the transcript
//! is caught and read instead of pasted. Times are in nanoseconds from any
//! fixed origin.
use crate::platform::hotkey::{has_flag, ANSI_V, ESCAPE, FLAG_COMMAND, FLAG_CONTROL, FLAG_SECONDARY_FN};
use vstd::prelude::*;

verus! {

/// How long after the hotkey is released the transcript's paste is awaited.
pub const PASTE_TIMEOUT_NANOS: u64 = 15_000_000_000;

/// What the listener reports for a modifier event.
#[derive(Clone, Copy, Debug, PartialEq, Eq, Structural)]
pub enum Change {
    Nothing,
    Pressed,
    Released,
}

/// What the listener does with a key press.
#[derive(Clone, Copy, Debug, PartialEq, Eq, Structural)]
pub enum KeyOutcome {
    /// Let the key through.
    Keep,
    /// Report a cancelled capture and let the key through.
    Cancelled,
    /// Read the transcript from the pasteboard and swallow the key.
    ReadTranscript,
}

/// The listener's state.
#[derive(Debug)]
pub struct State {
    pub combo_down: bool,
    pub waiting_since: Option<u64>,
}

impl State {
    /// Nothing held, nothing awaited.
    pub fn new() -> (s: State)
        ensures
            !s.combo_down && s.waiting_since is None,
    {
        State { combo_down: false, waiting_since: None }
    }

    /// A modifier event at `now` with the given flags.
    pub fn modifiers_changed(&mut self, flags: u64, now: u64) -> (r: Change)
        ensures
            ({
                let pressed = has_flag(flags, FLAG_CONTROL) && has_flag(flags, FLAG_SECONDARY_FN);
                if pressed && !old(self).combo_down {
                    r == Change::Pressed && final(self).combo_down && final(self).waiting_since
                        is None
                } else if !pressed && old(self).combo_down {
                    r == Change::Released && !final(self).combo_down && final(self).waiting_since
                        == Some(now)
                } else {
                    r == Change::Nothing && final(self).combo_down == old(self).combo_down
                        && final(self).waiting_since == old(self).waiting_since
                }
            }),
    {
        let pressed = flags & FLAG_CONTROL == FLAG_CONTROL && flags & FLAG_SECONDARY_FN
            == FLAG_SECONDARY_FN;
        if pressed && !self.combo_down {
            self.combo_down = true;
            self.waiting_since = None;
            Change::Pressed
        } else if !pressed && self.combo_down {
            self.combo_down = false;
            self.waiting_since = Some(now);
            Change::Released
        } else {
            Change::Nothing
        }
    }

    /// A key press at `now`: Escape during a capture cancels it; once the
    /// wait has run out any key cancels it; Command-V within the wait is the
    /// transcript's paste.
    pub fn key_down(&mut self, key: u16, flags: u64, now: u64) -> (r: KeyOutcome)
        ensures
            key == ESCAPE && (old(self).combo_down || old(self).waiting_since is Some) ==> (r
                == KeyOutcome::Cancelled && !final(self).combo_down && final(self).waiting_since
                is None),
            !(key == ESCAPE && (old(self).combo_down || old(self).waiting_since is Some)) ==> match old(
                self,
            ).waiting_since {
                None => r == KeyOutcome::Keep && final(self).combo_down == old(self).combo_down
                    && final(self).waiting_since is None,
                Some(since) => if (if now >= since {
                    now - since
                } else {
                    0
                }) > PASTE_TIMEOUT_NANOS {
                    r == KeyOutcome::Cancelled && final(self).combo_down == old(self).combo_down
                        && final(self).waiting_since is None
                } else if key != ANSI_V || !has_flag(flags, FLAG_COMMAND) {
                    r == KeyOutcome::Keep && final(self).combo_down == old(self).combo_down
                        && final(self).waiting_since == old(self).waiting_since
                } else {
                    r == KeyOutcome::ReadTranscript && final(self).combo_down == old(
                        self,
                    ).combo_down && final(self).waiting_since is None
                },
            },
    {
        if key == ESCAPE && (self.combo_down || self.waiting_since.is_some()) {
            self.combo_down = false;
            self.waiting_since = None;
            return KeyOutcome::Cancelled;
        }
        let started = match self.waiting_since {
            Some(started) => started,
            None => return KeyOutcome::Keep,
        };
        if now.saturating_sub(started) > PASTE_TIMEOUT_NANOS {
            self.waiting_since = None;
            return KeyOutcome::Cancelled;
        }
        if key != ANSI_V || flags & FLAG_COMMAND != FLAG_COMMAND {
            return KeyOutcome::Keep;
        }
        self.waiting_since = None;
        KeyOutcome::ReadTranscript
    }
}

impl Default for State {
    fn default() -> (s: State)
        ensures
            !s.combo_down && s.waiting_since is None,
    {
        State::new()
    }
}

} // verus!
