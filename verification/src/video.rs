//! Shared video types: the 16-bit address bus value, the memory page
//! selector, and the frame-position counter that steps once per machine
//! cycle.

use vstd::prelude::*;

pub mod scanpos;
pub mod signal;

use crate::video::scanpos::ScanPos;

verus! {

/// A value on the 16-bit hardware address bus. All address arithmetic in
/// this crate is masked so that it stays inside the 16-bit range, exactly
/// as the hardware's registers would wrap.
pub type Addr = u16;

/// Selects one of the two fixed display-memory windows; page two shifts
/// the window base one more bit to the left.
#[derive(Clone, Copy, Debug, PartialEq, Eq, Structural)]
pub enum Page {
    One,
    Two,
}

impl Page {
    /// The extra left shift this page applies to the window base address.
    pub open spec fn spec_shift(self) -> u16 {
        match self {
            Page::One => 0,
            Page::Two => 1,
        }
    }

    /// Executable form of [`Page::spec_shift`].
    pub fn shift(self) -> (r: u16)
        ensures
            r == self.spec_shift(),
    {
        match self {
            Page::One => 0,
            Page::Two => 1,
        }
    }
}

/// The raster beam's position within the frame, stepped once per cycle.
/// `last_pos` remembers where the previous redraw stopped.
pub struct Video {
    pub last_pos: ScanPos,
    pub pos: ScanPos,
    pub mixed: bool,
}

impl Video {
    /// A position is inside one frame's timing grid: 262 lines of 65
    /// columns each.
    pub open spec fn wf(self) -> bool {
        self.pos.line < 262 && self.pos.col < 65
    }

    /// The position one cycle after `pos`: the column advances, wraps to a
    /// new line after column 64, and the line wraps to a new frame after
    /// line 261.
    pub open spec fn spec_step(pos: ScanPos) -> ScanPos {
        if pos.col < 64 {
            ScanPos { line: pos.line, col: (pos.col + 1) as u16 }
        } else if pos.line < 261 {
            ScanPos { line: (pos.line + 1) as u16, col: 0 }
        } else {
            ScanPos { line: 0, col: 0 }
        }
    }

    /// Returns `None` exactly when the beam is back at the top of the
    /// frame and a finished frame is ready to be drawn.
    pub fn pre_tick(&self) -> (r: Option<()>)
        ensures
            r is None <==> (self.pos.line == 0 && self.pos.col == 0),
    {
        if self.pos.line == 0 && self.pos.col == 0 {
            None
        } else {
            Some(())
        }
    }

    /// Advances the beam by one cycle. The mixed-mode switch points fall
    /// on fixed lines but change no state except at the frame wrap.
    pub fn post_tick(&mut self)
        requires
            old(self).wf(),
        ensures
            final(self).pos == Self::spec_step(old(self).pos),
            final(self).last_pos == old(self).last_pos,
            final(self).mixed == old(self).mixed,
            final(self).wf(),
    {
        self.pos.col = self.pos.col + 1;
        if self.pos.col == 65 {
            self.pos.col = 0;
            self.pos.line = self.pos.line + 1;
            if self.mixed {
                match self.pos.line {
                    160 => (),
                    192 => (),
                    224 => (),
                    262 => {
                        self.pos.line = 0;
                    },
                    _ => (),
                }
            } else {
                if self.pos.line == 262 {
                    self.pos.line = 0;
                }
            }
        }
    }
}

} // verus!
