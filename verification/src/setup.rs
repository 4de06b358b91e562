//! Setup state of the frontend windows: a bit per window that has completed
//! its setup.

use vstd::prelude::*;

verus! {

/// The frontend windows of the application.
#[derive(Clone, Copy, Debug, PartialEq, Eq, Structural)]
pub enum DeskulptWindow {
    /// The canvas window, where widgets are rendered.
    Canvas,
    /// The manager window.
    Manager,
}

/// The setup bit of the canvas window.
pub const CANVAS_FLAG: u8 = 1;

/// The setup bit of the manager window.
pub const MANAGER_FLAG: u8 = 2;

/// All setup bits.
pub const ALL_FLAGS: u8 = 3;

/// The setup bit of a window.
pub open spec fn window_flag(w: DeskulptWindow) -> u8 {
    match w {
        DeskulptWindow::Canvas => CANVAS_FLAG,
        DeskulptWindow::Manager => MANAGER_FLAG,
    }
}

/// The bit of window `w` is set in `bits`.
pub open spec fn has_flag(bits: u8, w: DeskulptWindow) -> bool {
    bits & window_flag(w) != 0
}

/// Every window either is `w` or has its bit set in `prev`.
pub open spec fn all_done_with(prev: u8, w: DeskulptWindow) -> bool {
    (w == DeskulptWindow::Canvas || has_flag(prev, DeskulptWindow::Canvas)) && (w == DeskulptWindow::Manager
        || has_flag(prev, DeskulptWindow::Manager))
}

/// The setup bit of a window.
pub fn flag_of(window: DeskulptWindow) -> (f: u8)
    ensures
        f == window_flag(window),
{
    match window {
        DeskulptWindow::Canvas => CANVAS_FLAG,
        DeskulptWindow::Manager => MANAGER_FLAG,
    }
}

proof fn lemma_flag_bits(prev: u8)
    by (bit_vector)
    ensures
        (((prev & 3) | 1) == 3) == (prev & 2 != 0),
        (((prev & 3) | 2) == 3) == (prev & 1 != 0),
        (prev | 1) & 1 != 0,
        (prev | 2) & 2 != 0,
        ((prev | 1) & 2 != 0) == (prev & 2 != 0),
        ((prev | 2) & 1 != 0) == (prev & 1 != 0),
        prev & 3 == prev ==> (prev | 1) & 3 == prev | 1,
        prev & 3 == prev ==> (prev | 2) & 3 == prev | 2,
        (0u8 & 1 != 0) == false,
        (0u8 & 2 != 0) == false,
        0u8 & 3 == 0u8,
{
}

/// Whether all windows have completed setup once `window` completes, given
/// the bits set before (bits of no window are ignored).
pub fn all_complete_after(prev: u8, window: DeskulptWindow) -> (b: bool)
    ensures
        b == (((prev & ALL_FLAGS) | window_flag(window)) == ALL_FLAGS),
        b == all_done_with(prev, window),
{
    proof {
        lemma_flag_bits(prev);
    }
    let current = (prev & ALL_FLAGS) | flag_of(window);
    current == ALL_FLAGS
}

/// Which windows have completed setup.
#[derive(Debug)]
pub struct SetupState {
    bits: u8,
}

impl SetupState {
    /// The setup bits.
    pub closed spec fn bits(&self) -> u8 {
        self.bits
    }

    /// Only bits of windows are ever set.
    pub closed spec fn wf(&self) -> bool {
        self.bits & ALL_FLAGS == self.bits
    }

    /// Window `w` has completed setup.
    pub open spec fn done(&self, w: DeskulptWindow) -> bool {
        has_flag(self.bits(), w)
    }

    /// No window has completed setup.
    pub fn new() -> (s: Self)
        ensures
            s.wf(),
            !s.done(DeskulptWindow::Canvas),
            !s.done(DeskulptWindow::Manager),
    {
        proof {
            lemma_flag_bits(0);
        }
        SetupState { bits: 0 }
    }

    /// Mark `window` as having completed setup; returns whether all windows
    /// have completed setup after this.
    pub fn complete(&mut self, window: DeskulptWindow) -> (all: bool)
        requires
            old(self).wf(),
        ensures
            final(self).wf(),
            final(self).done(window),
            forall|w: DeskulptWindow| w != window ==> final(self).done(w) == old(self).done(w),
            all == (final(self).done(DeskulptWindow::Canvas) && final(self).done(DeskulptWindow::Manager)),
            all == all_done_with(old(self).bits(), window),
    {
        let prev = self.bits;
        proof {
            lemma_flag_bits(prev);
        }
        self.bits = prev | flag_of(window);
        all_complete_after(prev, window)
    }
}

/// Setup completes exactly when both windows have reported, in either order,
/// and a window reporting again changes nothing.
pub proof fn lemma_setup_completes(prev: u8, first: DeskulptWindow, second: DeskulptWindow)
    requires
        prev == 0,
    ensures
        !all_done_with(prev, first),
        all_done_with(prev | window_flag(first), second) == (first != second),
        all_done_with(prev | window_flag(first), first) == all_done_with(prev, first),
{
    lemma_flag_bits(prev);
    lemma_flag_bits(prev | window_flag(first));
}

} // verus!
