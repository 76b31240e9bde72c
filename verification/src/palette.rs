//! The palette: sixteen display-ready colours in slot order.
//!
//! Slot 0 is the background and slot 15 the foreground; slots 7 and 8 lie
//! between them; slots 1 to 6 and 9 to 14 are the six hues at normal and at
//! bright intensity.

use vstd::prelude::*;

verus! {

/// Number of slots in a palette.
pub const SLOTS: usize = 16;

/// One display-ready colour: its 8-bit channels, and each channel as a
/// fraction of full intensity, written out by the caller.
pub struct Swatch {
    pub irgb: [u8; 3],
    pub frgb: [String; 3],
}

/// The sixteen display-ready colours of a theme, in slot order.
pub struct Palette {
    swatches: Vec<Swatch>,
}

impl Palette {
    /// The colours, in slot order.
    pub closed spec fn view(&self) -> Seq<Swatch> {
        self.swatches@
    }

    #[verifier::type_invariant]
    spec fn full(&self) -> bool {
        self.swatches@.len() == SLOTS
    }

    /// A palette of the given colours, which must be sixteen.
    pub fn new(swatches: Vec<Swatch>) -> (palette: Option<Palette>)
        ensures
            match palette {
                Some(p) => swatches@.len() == SLOTS && p@ == swatches@,
                None => swatches@.len() != SLOTS,
            },
    {
        if swatches.len() == SLOTS {
            Some(Palette { swatches })
        } else {
            None
        }
    }

    /// The colour of one slot; none for an index that is no slot.
    pub fn swatch(&self, slot: usize) -> (found: Option<&Swatch>)
        ensures
            self@.len() == SLOTS,
            match found {
                Some(sw) => slot < SLOTS && *sw == self@[slot as int],
                None => slot >= SLOTS,
            },
    {
        proof {
            use_type_invariant(self);
        }
        if slot < SLOTS {
            Some(&self.swatches[slot])
        } else {
            None
        }
    }
}

} // verus!
