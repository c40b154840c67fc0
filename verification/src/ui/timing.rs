//! The decisions the event loop takes on the clock: when a window resize reaches
//! the shell, when a frame is drawn, how long to sleep and when the cursor blinks.
//! Times are milliseconds since the loop started; the caller reads the clock.
use vstd::prelude::*;

verus! {

/// How long the window size must stay unchanged before the shell is told.
pub const RESIZE_DEBOUNCE_MS: u64 = 80;

/// How long the cursor stays on or off.
pub const BLINK_MS: u64 = 600;

/// Abstract state of a [`ResizeDebounce`].
pub struct DebounceModel {
    pub pending: Option<(u32, u32)>,
    pub deadline: Option<u64>,
}

/// The state after asking at `now`, and the size to apply then.
pub open spec fn due_result(m: DebounceModel, now: u64) -> (DebounceModel, Option<(u32, u32)>) {
    match m.deadline {
        Some(d) => if now >= d {
            (DebounceModel { pending: None, deadline: None }, m.pending)
        } else {
            (m, None)
        },
        None => (m, None),
    }
}

/// Holds back window resizes until the size has settled, so that the shell
/// receives one size change rather than one per animation frame.
pub struct ResizeDebounce {
    pending: Option<(u32, u32)>,
    deadline: Option<u64>,
}

impl View for ResizeDebounce {
    type V = DebounceModel;

    closed spec fn view(&self) -> DebounceModel {
        DebounceModel { pending: self.pending, deadline: self.deadline }
    }
}

impl ResizeDebounce {
    /// Nothing pending.
    pub fn new() -> (d: Self)
        ensures
            d@ == (DebounceModel { pending: None, deadline: None }),
    {
        ResizeDebounce { pending: None, deadline: None }
    }

    /// The window became `w` x `h` at `now`: that size is the one to apply once
    /// [`RESIZE_DEBOUNCE_MS`] pass without another resize.
    pub fn on_resize(&mut self, w: u32, h: u32, now: u64)
        requires
            now + RESIZE_DEBOUNCE_MS <= u64::MAX,
        ensures
            final(self)@ == (DebounceModel { pending: Some((w, h)), deadline: Some((now + RESIZE_DEBOUNCE_MS) as u64) }),
    {
        self.pending = Some((w, h));
        self.deadline = Some(now + RESIZE_DEBOUNCE_MS);
    }

    /// At `now`: once the deadline has passed, hands out the size to apply (if
    /// any) and clears the state; before it, nothing changes (see [`due_result`]).
    pub fn due(&mut self, now: u64) -> (r: Option<(u32, u32)>)
        ensures
            (final(self)@, r) == due_result(old(self)@, now),
    {
        match self.deadline {
            Some(d) => {
                if now >= d {
                    let p = self.pending;
                    self.pending = None;
                    self.deadline = None;
                    p
                } else {
                    None
                }
            },
            None => None,
        }
    }

    /// A resize is waiting for its deadline.
    pub fn is_pending(&self) -> (b: bool)
        ensures
            b == (self@.deadline is Some),
    {
        self.deadline.is_some()
    }
}

/// Whether the loop draws a frame: new output, a selection being dragged, a
/// pending resize, or the cursor's tick (the first 2 ms of every 16).
pub open spec fn frame_due_spec(had_data: bool, selecting: bool, elapsed: u64, resize_pending: bool) -> bool {
    had_data || selecting || elapsed % 16 < 2 || resize_pending
}

pub fn frame_due(had_data: bool, selecting: bool, elapsed: u64, resize_pending: bool) -> (b: bool)
    ensures
        b == frame_due_spec(had_data, selecting, elapsed, resize_pending),
{
    had_data || selecting || elapsed % 16 < 2 || resize_pending
}

/// How long the loop sleeps: 8 ms while a resize is pending, else one 60 Hz frame.
pub fn next_wake_ms(resize_pending: bool) -> (ms: u64)
    ensures
        ms == (if resize_pending { 8u64 } else { 16u64 }),
{
    if resize_pending { 8 } else { 16 }
}

/// The blinking state of the cursor.
pub struct CursorBlink {
    pub on: bool,
    pub last: u64,
}

impl CursorBlink {
    /// Shown, the last toggle at `now`.
    pub fn new(now: u64) -> (b: Self)
        ensures
            b.on && b.last == now,
    {
        CursorBlink { on: true, last: now }
    }

    /// At `now`: toggles when more than [`BLINK_MS`] have passed since the last
    /// toggle (a clock reading before it counts as no time passed).
    pub fn tick(&mut self, now: u64)
        ensures
            if now > old(self).last && now - old(self).last > BLINK_MS {
                final(self).on == !old(self).on && final(self).last == now
            } else {
                *final(self) == *old(self)
            },
    {
        if now > self.last && now - self.last > BLINK_MS {
            self.on = !self.on;
            self.last = now;
        }
    }
}

/// Law: a size reaches the shell at most once: after it has been handed out,
/// later calls hand out nothing until the window is resized again.
pub proof fn law_resize_applied_once(m: DebounceModel, t1: u64, t2: u64)
    requires
        due_result(m, t1).1 is Some,
    ensures
        due_result(due_result(m, t1).0, t2).1 is None,
{
}

} // verus!
