//! The handshake between the hotkey listener and the capture window, which
//! lives on the main thread: the listener asks for a capture and waits for
//! the window to acknowledge it, and may ask the window to paste or to stop.
//!
//! The counters are shared between threads, so no call here can promise
//! what another thread sees next; the waiting itself (a short poll against a
//! deadline) is run by the caller, with `start_request` and `is_ready`.
use std::sync::atomic::{AtomicBool, AtomicU64, Ordering};
use std::sync::Arc;
use crate::text::{chars_of, trim, trimmed};
use vstd::prelude::*;

verus! {

/// How long the window is given to acknowledge a capture, in milliseconds.
pub const ACK_TIMEOUT_MS: u64 = 100;

/// How long each look for the acknowledgement is followed by a sleep.
pub const ACK_POLL_MS: u64 = 1;

/// The most looks for the acknowledgement: each one sleeps `ACK_POLL_MS`,
/// so the time allowed runs out within them.
pub const ACK_ROUNDS: u64 = 128;

/// The counters of the handshake.
pub struct Shared {
    pub request: AtomicU64,
    pub ready: AtomicU64,
    pub paste: AtomicU64,
    pub cancelled: AtomicBool,
}

/// One end of the handshake; clones share the counters.
#[derive(Clone)]
pub struct Handle(pub Arc<Shared>);

impl Handle {
    /// A handshake with every counter at zero.
    pub fn new() -> Self {
        Handle(
            Arc::new(
                Shared {
                    request: AtomicU64::new(0),
                    ready: AtomicU64::new(0),
                    paste: AtomicU64::new(0),
                    cancelled: AtomicBool::new(false),
                },
            ),
        )
    }

    /// Clears a cancellation and counts one more request; the number of the
    /// new request is what the window acknowledges.
    pub fn start_request(&self) -> u64 {
        self.0.cancelled.store(false, Ordering::Release);
        let previous = self.0.request.fetch_add(1, Ordering::AcqRel);
        previous.wrapping_add(1)
    }

    /// Whether the window has acknowledged the request numbered `request`.
    pub fn is_ready(&self, request: u64) -> bool {
        self.0.ready.load(Ordering::Acquire) >= request
    }

    /// Asks for a capture and waits for the window to acknowledge it, for
    /// at most `ACK_TIMEOUT_MS` by `clock`, looking every `ACK_POLL_MS`;
    /// tells whether it did.
    pub fn request<S: Fn(u64), C: Fn() -> u64>(&self, sleep: &S, clock: &C) -> bool
        requires
            forall|ms: u64| sleep.requires((ms,)),
            clock.requires(()),
    {
        let request = self.start_request();
        let started = clock();
        let mut round: u64 = 0;
        while round < ACK_ROUNDS
            invariant
                forall|ms: u64| sleep.requires((ms,)),
                clock.requires(()),
            decreases ACK_ROUNDS - round,
        {
            let now = clock();
            if now.saturating_sub(started) >= ACK_TIMEOUT_MS {
                break;
            }
            if self.is_ready(request) {
                return true;
            }
            sleep(ACK_POLL_MS);
            round = round + 1;
        }
        false
    }

    /// Asks the window to stop the capture.
    pub fn cancel(&self) {
        self.0.cancelled.store(true, Ordering::Release);
    }

    /// Asks the window to paste into the capture field.
    pub fn paste(&self) {
        self.0.paste.fetch_add(1, Ordering::AcqRel);
    }
}

impl Default for Handle {
    fn default() -> Self {
        Handle::new()
    }
}

/// How long a capture may wait for its transcript, in milliseconds.
pub const LIFETIME_MS: u64 = 20_000;

/// How long the window stays after the transcript was sent, in
/// milliseconds.
pub const CLEANUP_DELAY_MS: u64 = 1_000;

/// The capture window's side of the handshake: the last request and paste
/// it has seen, and when the current capture started and when its
/// transcript was sent (milliseconds of a monotonic clock).
#[derive(Debug)]
pub struct Window {
    pub request: u64,
    pub paste: u64,
    pub started: Option<u64>,
    pub completed: Option<u64>,
}

/// What the window does for the handshake's counters.
#[derive(Clone, Copy, Debug, PartialEq, Eq, Structural)]
pub struct Handshake {
    /// Begin a capture (clear the field, show and focus the window) and
    /// acknowledge this request.
    pub begin: Option<u64>,
    /// End the capture (clear the field, hide the window, give CMUX the
    /// focus back).
    pub end: bool,
    /// Paste into the field, where it is empty.
    pub paste: bool,
    /// Read the field next and hand its text to `on_text`.
    pub look: bool,
}

/// What the window does with the text of its field.
#[derive(Clone, Debug)]
pub enum TextStep {
    /// Nothing yet.
    Wait,
    /// Send the text as the transcript.
    Send(String),
    /// End the capture.
    End,
}

/// The window after the first half of a refresh (see `Window::on_handshake`).
pub open spec fn handshake_window(w: Window, now: u64, request: u64, cancelled: bool, paste: u64) -> Window {
    let begun = request > w.request;
    let req = if begun {
        request
    } else {
        w.request
    };
    let started = if begun {
        Some(now)
    } else {
        w.started
    };
    let completed = if begun {
        None
    } else {
        w.completed
    };
    if cancelled {
        Window {
            request: req,
            paste: w.paste,
            started: None,
            completed: if started is Some {
                None
            } else {
                completed
            },
        }
    } else if started is None {
        Window { request: req, paste: w.paste, started: None, completed }
    } else {
        Window {
            request: req,
            paste: if paste > w.paste {
                paste
            } else {
                w.paste
            },
            started,
            completed,
        }
    }
}

/// The milliseconds from `from` to `now`, or none where the clock went back.
pub open spec fn elapsed(now: u64, from: u64) -> int {
    if now >= from {
        now - from
    } else {
        0
    }
}

/// A refresh with the field's `text` sends it as the transcript: a capture
/// runs, has sent nothing yet, and the text is not blank.
pub open spec fn text_sends(w: Window, text: Seq<char>) -> bool {
    w.started is Some && w.completed is None && trim(text).len() > 0
}

/// The window after the second half of a refresh (see `Window::on_text`).
pub open spec fn text_window(w: Window, now: u64, text: Seq<char>) -> Window {
    let ended = Window { request: w.request, paste: w.paste, started: None, completed: None };
    match w.started {
        None => w,
        Some(started) => match w.completed {
            None => if trim(text).len() > 0 {
                Window { request: w.request, paste: w.paste, started: w.started, completed: Some(now) }
            } else if elapsed(now, started) >= LIFETIME_MS {
                ended
            } else {
                w
            },
            Some(completed) => if elapsed(now, completed) >= CLEANUP_DELAY_MS {
                ended
            } else {
                w
            },
        },
    }
}

/// How many transcripts a window sends over refreshes, each the time, the
/// handshake's request, cancel flag and paste counter, and the field's text.
pub open spec fn sent_over(w: Window, refreshes: Seq<(u64, u64, bool, u64, Seq<char>)>) -> nat
    decreases refreshes.len(),
{
    if refreshes.len() == 0 {
        0
    } else {
        let r = refreshes[0];
        let after = handshake_window(w, r.0, r.1, r.2, r.3);
        (if text_sends(after, r.4) {
            1nat
        } else {
            0nat
        }) + sent_over(text_window(after, r.0, r.4), refreshes.drop_first())
    }
}

/// One capture sends at most one transcript: over refreshes that begin no
/// newer capture, a window sends at most once, and not at all once it has
/// sent or while no capture runs. What it sends is never blank (see
/// `text_sends`).
pub proof fn one_capture_sends_once(w: Window, refreshes: Seq<(u64, u64, bool, u64, Seq<char>)>)
    requires
        forall|i: int| 0 <= i < refreshes.len() ==> (#[trigger] refreshes[i]).1 <= w.request,
    ensures
        sent_over(w, refreshes) <= (if w.started is Some && w.completed is None {
            1nat
        } else {
            0nat
        }),
    decreases refreshes.len(),
{
    if refreshes.len() > 0 {
        let r = refreshes[0];
        let after = handshake_window(w, r.0, r.1, r.2, r.3);
        let next = text_window(after, r.0, r.4);
        let rest = refreshes.drop_first();
        assert(r.1 <= w.request);
        assert(next.request == w.request);
        assert forall|i: int| 0 <= i < rest.len() implies (#[trigger] rest[i]).1 <= next.request by {
            assert(rest[i] == refreshes[i + 1]);
        }
        one_capture_sends_once(next, rest);
    }
}

impl Window {
    /// A window that has seen nothing.
    pub fn new() -> (w: Window)
        ensures
            w.request == 0 && w.paste == 0 && w.started is None && w.completed is None,
    {
        Window { request: 0, paste: 0, started: None, completed: None }
    }

    /// Whether a capture runs.
    pub fn is_active(&self) -> (b: bool)
        ensures
            b == self.started is Some,
    {
        self.started.is_some()
    }

    /// The first half of a refresh at `now`, given the handshake's request
    /// and paste counters and its cancel flag: a newer request begins a
    /// capture; a cancel ends the running one (and nothing else happens); a
    /// newer paste is pasted while a capture runs, whose field is then read.
    pub fn on_handshake(&mut self, now: u64, request: u64, cancelled: bool, paste: u64) -> (h:
        Handshake)
        ensures
            *final(self) == handshake_window(*old(self), now, request, cancelled, paste),
            h.begin == (if request > old(self).request {
                Some(request)
            } else {
                None
            }),
            final(self).request == (if request > old(self).request {
                request
            } else {
                old(self).request
            }),
            ({
                let started = if request > old(self).request {
                    Some(now)
                } else {
                    old(self).started
                };
                let completed = if request > old(self).request {
                    None
                } else {
                    old(self).completed
                };
                if cancelled {
                    &&& h.end == started is Some
                    &&& !h.paste && !h.look
                    &&& final(self).started is None
                    &&& final(self).completed == (if started is Some {
                        None
                    } else {
                        completed
                    })
                    &&& final(self).paste == old(self).paste
                } else if started is None {
                    &&& !h.end && !h.paste && !h.look
                    &&& final(self).started is None
                    &&& final(self).completed == completed
                    &&& final(self).paste == old(self).paste
                } else {
                    &&& !h.end && h.look
                    &&& h.paste == (paste > old(self).paste)
                    &&& final(self).paste == (if paste > old(self).paste {
                        paste
                    } else {
                        old(self).paste
                    })
                    &&& final(self).started == started
                    &&& final(self).completed == completed
                }
            }),
    {
        let mut h = Handshake { begin: None, end: false, paste: false, look: false };
        if request > self.request {
            self.request = request;
            self.completed = None;
            self.started = Some(now);
            h.begin = Some(request);
        }
        if cancelled {
            if self.started.is_some() {
                self.started = None;
                self.completed = None;
                h.end = true;
            }
            return h;
        }
        if self.started.is_none() {
            return h;
        }
        if paste > self.paste {
            self.paste = paste;
            h.paste = true;
        }
        h.look = true;
        h
    }

    /// The second half of a refresh at `now`, with the text of the field:
    /// a capture not yet completed sends a nonblank text as its transcript,
    /// or ends once its lifetime is over; a completed one ends after the
    /// cleanup delay.
    pub fn on_text(&mut self, now: u64, text: &str) -> (t: TextStep)
        ensures
            *final(self) == text_window(*old(self), now, text@),
            t is Send == text_sends(*old(self), text@),
            final(self).request == old(self).request,
            final(self).paste == old(self).paste,
            match old(self).started {
                None => t is Wait && final(self).started == old(self).started && final(self).completed == old(self).completed,
                Some(started) => match old(self).completed {
                    None => if trim(text@).len() > 0 {
                        t matches TextStep::Send(sent) && sent@ == text@ && final(self).completed
                            == Some(now) && final(self).started == old(self).started
                    } else if (if now >= started {
                        now - started
                    } else {
                        0
                    }) >= LIFETIME_MS {
                        t is End && final(self).started is None && final(self).completed is None
                    } else {
                        t is Wait && final(self).started == old(self).started && final(self).completed == old(self).completed
                    },
                    Some(completed) => if (if now >= completed {
                        now - completed
                    } else {
                        0
                    }) >= CLEANUP_DELAY_MS {
                        t is End && final(self).started is None && final(self).completed is None
                    } else {
                        t is Wait && final(self).started == old(self).started && final(self).completed == old(self).completed
                    },
                },
            },
    {
        let started = match self.started {
            Some(s) => s,
            None => return TextStep::Wait,
        };
        match self.completed {
            None => {
                if trimmed(&chars_of(text)).len() > 0 {
                    self.completed = Some(now);
                    TextStep::Send(text.to_owned())
                } else if now.saturating_sub(started) >= LIFETIME_MS {
                    self.started = None;
                    self.completed = None;
                    TextStep::End
                } else {
                    TextStep::Wait
                }
            },
            Some(completed) => {
                if now.saturating_sub(completed) >= CLEANUP_DELAY_MS {
                    self.started = None;
                    self.completed = None;
                    TextStep::End
                } else {
                    TextStep::Wait
                }
            },
        }
    }
}

} // verus!
