//! The phase that the CMUX indicator shows, shared between the worker that
//! sets it and the main thread that draws it.
use crate::platform::capture;
use std::sync::atomic::{AtomicU8, Ordering};
use std::sync::Arc;
use vstd::prelude::*;

verus! {

/// The phases of the agent, in the order of their numbers.
#[derive(Clone, Copy, Debug, Default, PartialEq, Eq, Structural)]
pub enum Phase {
    #[default]
    Off,
    Ready,
    Listening,
    Transcribing,
    Working,
    Done,
    Error,
}

/// The number under which a phase is stored.
pub open spec fn phase_number(phase: Phase) -> u8 {
    match phase {
        Phase::Off => 0,
        Phase::Ready => 1,
        Phase::Listening => 2,
        Phase::Transcribing => 3,
        Phase::Working => 4,
        Phase::Done => 5,
        Phase::Error => 6,
    }
}

/// The phase stored under a number; unknown numbers read as `Off`.
pub open spec fn phase_of(value: u8) -> Phase {
    if value == 1 {
        Phase::Ready
    } else if value == 2 {
        Phase::Listening
    } else if value == 3 {
        Phase::Transcribing
    } else if value == 4 {
        Phase::Working
    } else if value == 5 {
        Phase::Done
    } else if value == 6 {
        Phase::Error
    } else {
        Phase::Off
    }
}

/// Reading back the number of a phase gives the phase.
pub proof fn phase_number_round_trip(phase: Phase)
    ensures
        phase_of(phase_number(phase)) == phase,
{
}

impl Phase {
    /// The number under which the phase is stored.
    pub fn to_raw(self) -> (n: u8)
        ensures
            n == phase_number(self),
    {
        match self {
            Phase::Off => 0,
            Phase::Ready => 1,
            Phase::Listening => 2,
            Phase::Transcribing => 3,
            Phase::Working => 4,
            Phase::Done => 5,
            Phase::Error => 6,
        }
    }

    /// The phase stored under a number.
    pub fn from_raw(value: u8) -> (p: Phase)
        ensures
            p == phase_of(value),
    {
        match value {
            1 => Phase::Ready,
            2 => Phase::Listening,
            3 => Phase::Transcribing,
            4 => Phase::Working,
            5 => Phase::Done,
            6 => Phase::Error,
            _ => Phase::Off,
        }
    }
}

/// The color of a phase's icon.
#[derive(Clone, Copy, Debug, PartialEq, Eq, Structural)]
pub enum Tone {
    Muted,
    Red,
    Orange,
    Blue,
    Green,
}

/// How a phase is shown: its text, the SF Symbol of its icon, the icon's
/// color, and whether the text is dimmed.
#[derive(Clone, Copy, Debug, PartialEq, Eq)]
pub struct Presentation {
    pub text: &'static str,
    pub symbol: &'static str,
    pub tone: Tone,
    pub dimmed: bool,
}

/// The text of each phase.
pub open spec fn phase_text(phase: Phase) -> Seq<char> {
    match phase {
        Phase::Off => "Off"@,
        Phase::Ready => "Ready"@,
        Phase::Listening => "Listening"@,
        Phase::Transcribing => "Transcribing"@,
        Phase::Working => "Working"@,
        Phase::Done => "Done"@,
        Phase::Error => "Error"@,
    }
}

/// The icon of each phase.
pub open spec fn phase_symbol(phase: Phase) -> Seq<char> {
    match phase {
        Phase::Off => "circle"@,
        Phase::Ready => "circle.fill"@,
        Phase::Listening => "waveform"@,
        Phase::Transcribing => "ellipsis"@,
        Phase::Working => "sparkles"@,
        Phase::Done => "checkmark"@,
        Phase::Error => "exclamationmark"@,
    }
}

/// The color of each phase's icon.
pub open spec fn phase_tone(phase: Phase) -> Tone {
    match phase {
        Phase::Off | Phase::Ready => Tone::Muted,
        Phase::Listening | Phase::Error => Tone::Red,
        Phase::Transcribing => Tone::Orange,
        Phase::Working => Tone::Blue,
        Phase::Done => Tone::Green,
    }
}

impl Phase {
    /// How the phase is shown; the text of `Off` and `Ready` is dimmed.
    pub fn presentation(self) -> (p: Presentation)
        ensures
            p.text@ == phase_text(self),
            p.symbol@ == phase_symbol(self),
            p.tone == phase_tone(self),
            p.dimmed == (self is Off || self is Ready),
    {
        match self {
            Phase::Off => Presentation { text: "Off", symbol: "circle", tone: Tone::Muted, dimmed: true },
            Phase::Ready => Presentation {
                text: "Ready",
                symbol: "circle.fill",
                tone: Tone::Muted,
                dimmed: true,
            },
            Phase::Listening => Presentation {
                text: "Listening",
                symbol: "waveform",
                tone: Tone::Red,
                dimmed: false,
            },
            Phase::Transcribing => Presentation {
                text: "Transcribing",
                symbol: "ellipsis",
                tone: Tone::Orange,
                dimmed: false,
            },
            Phase::Working => Presentation {
                text: "Working",
                symbol: "sparkles",
                tone: Tone::Blue,
                dimmed: false,
            },
            Phase::Done => Presentation {
                text: "Done",
                symbol: "checkmark",
                tone: Tone::Green,
                dimmed: false,
            },
            Phase::Error => Presentation {
                text: "Error",
                symbol: "exclamationmark",
                tone: Tone::Red,
                dimmed: false,
            },
        }
    }
}

/// How many refreshes pass between two placements of the indicator.
pub const POSITION_TICKS: u8 = 20;

/// The indicator window's refresh state: the phase it shows and the
/// refreshes since it was last placed.
#[derive(Debug)]
pub struct Painter {
    pub phase: Option<Phase>,
    pub ticks: u8,
}

/// What one refresh of the indicator window does.
#[derive(Clone, Copy, Debug, PartialEq, Eq, Structural)]
pub struct Repaint {
    /// Show the new phase.
    pub phase: bool,
    /// Place the window again over CMUX's window.
    pub place: bool,
}

impl Painter {
    /// A window that shows no phase yet, and is placed at its first refresh.
    pub fn new() -> (p: Painter)
        ensures
            p.phase is None && p.ticks == POSITION_TICKS,
    {
        Painter { phase: None, ticks: POSITION_TICKS }
    }

    /// One refresh with the phase to show: a new phase is shown and the
    /// window placed at once; otherwise it is placed every
    /// `POSITION_TICKS` refreshes.
    pub fn refresh(&mut self, phase: Phase) -> (r: Repaint)
        ensures
            r.phase == (old(self).phase != Some(phase)),
            final(self).phase == Some(phase),
            ({
                let ticks = if r.phase {
                    POSITION_TICKS
                } else {
                    old(self).ticks
                };
                let next = if ticks == 255 {
                    255
                } else {
                    (ticks + 1) as u8
                };
                &&& r.place == (next >= POSITION_TICKS)
                &&& final(self).ticks == if r.place {
                    0
                } else {
                    next
                }
            }),
    {
        let changed = match self.phase {
            Some(shown) => shown != phase,
            None => true,
        };
        if changed {
            self.phase = Some(phase);
            self.ticks = POSITION_TICKS;
        }
        self.ticks = self.ticks.saturating_add(1);
        if self.ticks < POSITION_TICKS {
            return Repaint { phase: changed, place: false };
        }
        self.ticks = 0;
        Repaint { phase: changed, place: true }
    }
}

/// Whether the indicator shows over CMUX's window: it needs the window's
/// frame, and shows while CMUX is in front, a capture runs, or the phase is
/// other than `Ready`.
pub fn shown(has_frame: bool, cmux_frontmost: bool, capturing: bool, phase: Phase) -> (b: bool)
    ensures
        b == (has_frame && (cmux_frontmost || capturing || phase != Phase::Ready)),
{
    has_frame && (cmux_frontmost || capturing || phase != Phase::Ready)
}

/// The worker's end of the indicator: the phase, and the capture handshake.
/// Clones share both.
#[derive(Clone)]
pub struct Handle {
    pub phase: Arc<AtomicU8>,
    pub capture: capture::Handle,
}

impl Handle {
    /// An indicator that shows `Off`.
    pub fn new() -> Self {
        Handle { phase: Arc::new(AtomicU8::new(0)), capture: capture::Handle::new() }
    }

    /// Shows a phase.
    pub fn set(&self, phase: Phase) {
        self.phase.store(phase.to_raw(), Ordering::Release);
    }

    /// The phase last shown (by any clone).
    pub fn get(&self) -> Phase {
        Phase::from_raw(self.phase.load(Ordering::Acquire))
    }

    /// Asks for a capture; the number of the request is returned for
    /// `capture_ready`.
    pub fn start_capture(&self) -> u64 {
        self.capture.start_request()
    }

    /// Whether the window has acknowledged the capture request `request`.
    pub fn capture_ready(&self, request: u64) -> bool {
        self.capture.is_ready(request)
    }

    /// Asks for a capture and waits briefly for the window to acknowledge
    /// it (see `capture::Handle::request`).
    pub fn request_capture<S: Fn(u64), C: Fn() -> u64>(&self, sleep: &S, clock: &C) -> bool
        requires
            forall|ms: u64| sleep.requires((ms,)),
            clock.requires(()),
    {
        self.capture.request(sleep, clock)
    }

    /// Stops the capture.
    pub fn cancel_capture(&self) {
        self.capture.cancel();
    }

    /// Pastes into the capture field.
    pub fn paste_capture(&self) {
        self.capture.paste();
    }
}

impl Default for Handle {
    fn default() -> Self {
        Handle::new()
    }
}

} // verus!
