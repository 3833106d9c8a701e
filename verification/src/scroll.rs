//! Scrolling the transcript: when it leaves its end, and when it glides.
use vstd::prelude::*;

use crate::panel;
use crate::panel::Panel;

verus! {

/// What becomes of a turn of the wheel.
#[derive(Clone, Copy, PartialEq, Eq, Debug, Structural)]
pub enum ScrollInput {
    /// It does not move.
    Ignored,
    /// The transcript moves at once, and what still glided stops.
    Direct,
    /// The transcript glides.
    Glide,
}

/// What is to be done in a frame of a glide.
#[derive(Clone, Copy, PartialEq, Eq, Debug, Structural)]
pub enum WheelFrame {
    /// Nothing glides.
    Nothing,
    /// The glide is stale: the window was hidden meanwhile.
    Cancel,
    /// No time has passed: draw again.
    Again,
    /// Move by what the time since the last frame gives.
    Advance,
}

/// The longest time between two frames of one glide, in nanoseconds.
pub const STALE_FRAME_NANOS: u128 = 250_000_000;

/// What is to be done in a frame at `now`, where the last one was at `previous`.
pub open spec fn frame_of(previous: Option<u128>, now: u128) -> WheelFrame {
    match previous {
        None => WheelFrame::Nothing,
        Some(previous) => if now - previous > STALE_FRAME_NANOS {
            WheelFrame::Cancel
        } else if now <= previous {
            WheelFrame::Again
        } else {
            WheelFrame::Advance
        },
    }
}

/// What is to be done in a frame at `now`, where the last one was at `previous`; both in
/// nanoseconds of one clock.
pub fn wheel_frame(previous: Option<u128>, now: u128) -> (r: WheelFrame)
    ensures
        r == frame_of(previous, now),
{
    match previous {
        None => WheelFrame::Nothing,
        Some(previous) => {
            if now <= previous {
                WheelFrame::Again
            } else if now - previous > STALE_FRAME_NANOS {
                WheelFrame::Cancel
            } else {
                WheelFrame::Advance
            }
        },
    }
}

/// A panel whose transcript was scrolled: moving up leaves the end.
pub open spec fn scrolled(p: panel::PanelView, moves: bool, up: bool) -> panel::PanelView {
    panel::PanelView { stick_to_bottom: p.stick_to_bottom && !(moves && up), ..p }
}

impl Panel {
    /// Takes in a turn of the wheel: whether it moves at all, whether upwards, and whether
    /// motion is to be kept still.
    pub fn scroll_input(&mut self, moves: bool, up: bool, still: bool) -> (r: ScrollInput)
        ensures
            r == (if !moves {
                ScrollInput::Ignored
            } else if still {
                ScrollInput::Direct
            } else {
                ScrollInput::Glide
            }),
            final(self)@ == scrolled(old(self)@, moves, up),
    {
        if !moves {
            assert(self@ =~= scrolled(self@, moves, up));
            return ScrollInput::Ignored;
        }
        let ghost p = self@;
        if up {
            self.stick_to_bottom = false;
        }
        assert(self@ =~= scrolled(p, moves, up));
        if still {
            ScrollInput::Direct
        } else {
            ScrollInput::Glide
        }
    }
}

/// Scrolling changes nothing but whether the transcript follows its end, and only
/// scrolling up stops that.
pub proof fn only_scrolling_up_leaves_the_end(p: panel::PanelView, moves: bool, up: bool)
    ensures
        scrolled(p, moves, false) == p,
        scrolled(p, false, up) == p,
        !scrolled(p, true, true).stick_to_bottom,
        scrolled(p, moves, up).items == p.items,
{
}

} // verus!
