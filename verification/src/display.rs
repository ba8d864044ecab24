use vstd::prelude::*;

verus! {

/// Width of the display in pixels.
pub const DISPLAY_WIDTH: usize = 64;

/// Height of the display in pixels.
pub const DISPLAY_HEIGHT: usize = 32;

/// Number of pixels on the display.
pub const DISPLAY_SIZE: usize = 2048;

/// The monochrome display: 2048 pixel states in row-major order, so pixel
/// (x, y) lives at index `y * 64 + x`.
pub struct ChipDisplay {
    /// The pixel states, row-major.
    pub display: Vec<bool>,
}

impl View for ChipDisplay {
    type V = Seq<bool>;

    open spec fn view(&self) -> Seq<bool> {
        self.display@
    }
}

/// The fully dark display.
pub open spec fn all_pixels_off() -> Seq<bool> {
    Seq::new(DISPLAY_SIZE as nat, |i: int| false)
}

impl ChipDisplay {
    pub open spec fn wf(&self) -> bool {
        self@.len() == DISPLAY_SIZE
    }

    /// A fresh display: every pixel off.
    pub fn init() -> (d: ChipDisplay)
        ensures
            d.wf(),
            d@ == all_pixels_off(),
    {
        let mut display: Vec<bool> = Vec::new();
        while display.len() < DISPLAY_SIZE
            invariant
                display@.len() <= DISPLAY_SIZE,
                forall|i: int| 0 <= i < display@.len() ==> display@[i] == false,
            decreases DISPLAY_SIZE - display@.len(),
        {
            display.push(false);
        }
        proof {
            assert(display@ =~= all_pixels_off());
        }
        ChipDisplay { display }
    }

    /// Turn every pixel off, whatever was shown before.
    pub fn clear_display(&mut self)
        requires
            old(self).wf(),
        ensures
            final(self).wf(),
            final(self)@ == all_pixels_off(),
    {
        let mut i: usize = 0;
        while i < DISPLAY_SIZE
            invariant
                self@.len() == DISPLAY_SIZE,
                i <= DISPLAY_SIZE,
                forall|k: int| 0 <= k < i ==> self@[k] == false,
            decreases DISPLAY_SIZE - i,
        {
            self.display.set(i, false);
            i = i + 1;
        }
        proof {
            assert(self@ =~= all_pixels_off());
        }
    }

    /// Read the pixel at column `x`, row `y`; coordinates off the grid give
    /// `None`.
    pub fn get_pixel(&self, x: usize, y: usize) -> (result: Option<bool>)
        requires
            self.wf(),
        ensures
            x < DISPLAY_WIDTH && y < DISPLAY_HEIGHT ==> result == Some::<bool>(
                self@[y * DISPLAY_WIDTH + x],
            ),
            x >= DISPLAY_WIDTH || y >= DISPLAY_HEIGHT ==> result is None,
    {
        if x < DISPLAY_WIDTH && y < DISPLAY_HEIGHT {
            Some(self.display[y * DISPLAY_WIDTH + x])
        } else {
            None
        }
    }
}

} // verus!
