use vstd::prelude::*;

verus! {

/// Number of particle colors; the affinity table is `NUM_COLORS` by `NUM_COLORS`.
pub const NUM_COLORS: usize = 4;

/// The closed set of particle colors. Each has a dense ordinal in
/// `0..NUM_COLORS`, which indexes the affinity table.
#[derive(Clone, Copy, Debug, PartialEq, Eq, Structural)]
pub enum ParticleColor {
    Red,
    Green,
    Blue,
    Yellow,
}

impl ParticleColor {
    /// The ordinal of a color: Red 0, Green 1, Blue 2, Yellow 3.
    pub open spec fn ordinal(self) -> nat {
        match self {
            ParticleColor::Red => 0,
            ParticleColor::Green => 1,
            ParticleColor::Blue => 2,
            ParticleColor::Yellow => 3,
        }
    }

    /// The color whose ordinal is `i`.
    pub open spec fn of_ordinal(i: nat) -> ParticleColor
        recommends
            i < NUM_COLORS,
    {
        if i == 0 {
            ParticleColor::Red
        } else if i == 1 {
            ParticleColor::Green
        } else if i == 2 {
            ParticleColor::Blue
        } else {
            ParticleColor::Yellow
        }
    }

    /// Side length of the affinity table: one more than the largest ordinal.
    pub fn matrix_len() -> (r: usize)
        ensures
            r == NUM_COLORS,
            forall|c: ParticleColor| #[trigger] c.ordinal() < r,
    {
        NUM_COLORS
    }

    /// The ordinal of this color, as an index into the affinity table.
    pub fn index(self) -> (r: usize)
        ensures
            r == self.ordinal(),
            r < NUM_COLORS,
    {
        match self {
            ParticleColor::Red => 0,
            ParticleColor::Green => 1,
            ParticleColor::Blue => 2,
            ParticleColor::Yellow => 3,
        }
    }

    /// The color whose ordinal is `i`, if there is one.
    pub fn from_index(i: usize) -> (r: Option<ParticleColor>)
        ensures
            i < NUM_COLORS ==> r == Some(ParticleColor::of_ordinal(i as nat)),
            i >= NUM_COLORS ==> r.is_none(),
    {
        if i == 0 {
            Some(ParticleColor::Red)
        } else if i == 1 {
            Some(ParticleColor::Green)
        } else if i == 2 {
            Some(ParticleColor::Blue)
        } else if i == 3 {
            Some(ParticleColor::Yellow)
        } else {
            None
        }
    }

    /// The display color as red, green and blue channels.
    pub fn rgb(self) -> (r: (u8, u8, u8))
        ensures
            self == ParticleColor::Red ==> r == (255u8, 0u8, 0u8),
            self == ParticleColor::Green ==> r == (0u8, 255u8, 0u8),
            self == ParticleColor::Blue ==> r == (0u8, 0u8, 255u8),
            self == ParticleColor::Yellow ==> r == (252u8, 186u8, 3u8),
    {
        match self {
            ParticleColor::Red => (255, 0, 0),
            ParticleColor::Green => (0, 255, 0),
            ParticleColor::Blue => (0, 0, 255),
            ParticleColor::Yellow => (252, 186, 3),
        }
    }
}

} // verus!
