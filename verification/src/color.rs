use vstd::prelude::*;

verus! {

/// One color with three 8-bit channels.
#[derive(Clone, Copy, PartialEq, Eq, Structural, Debug)]
pub struct Rgb {
    pub r: u8,
    pub g: u8,
    pub b: u8,
}

impl Rgb {
    /// The component-wise photographic inverse: each channel becomes
    /// 255 minus itself. Both operands are bounded by 255, so the
    /// subtraction never underflows.
    pub open spec fn complement_spec(self) -> Rgb {
        Rgb { r: (255 - self.r) as u8, g: (255 - self.g) as u8, b: (255 - self.b) as u8 }
    }

    /// Returns the component-wise photographic inverse of this color.
    pub fn complement(self) -> (c: Rgb)
        ensures
            c == self.complement_spec(),
    {
        Rgb { r: 255 - self.r, g: 255 - self.g, b: 255 - self.b }
    }
}

/// Taking the complement twice gives the same color back.
pub proof fn lemma_complement_involution(c: Rgb)
    ensures
        c.complement_spec().complement_spec() == c,
{
}

} // verus!
