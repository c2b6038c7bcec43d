//! The tagged-union material type: each variant carries only the counters its
//! own transition rule needs, plus a display label and a default-color mapping.

use vstd::prelude::*;

verus! {

/// A cosmetic color in 8-bit RGBA channels. The simulation never branches on
/// colors; they exist for renderers that read the grid between ticks.
#[derive(Clone, Copy, Debug, PartialEq, Eq, Structural)]
pub struct Rgba {
    pub red: u8,
    pub green: u8,
    pub blue: u8,
    pub alpha: u8,
}

impl Rgba {
    /// Opaque black, the color a freshly created cell starts with.
    pub open spec fn spec_black() -> Rgba {
        Rgba { red: 0, green: 0, blue: 0, alpha: 255 }
    }

    pub fn black() -> (c: Rgba)
        ensures
            c == Rgba::spec_black(),
    {
        Rgba { red: 0, green: 0, blue: 0, alpha: 255 }
    }
}

/// The material held by one grid cell, with the per-variant evolution counters.
#[derive(Clone, Copy, Debug, PartialEq, Eq, Structural)]
pub enum Substance {
    /// Empty space.
    Void,
    /// Sentinel reported for reads past the grid edge; never stored in the grid.
    OutOfBounds,
    /// Falls downward; the flag records whether the grain is currently falling.
    Sand(bool),
    /// Static; erodes to sand when water sits nearby.
    Rock,
    /// Falls and flows sideways; erodes rock and soaks dirt.
    Water,
    /// Falls like sand; the counter tallies ticks of open air above, driving
    /// the conversion to grass. Touching water turns it to mud.
    Dirt(bool, u8),
    /// Soil; falls through void and water and dries back to dirt once the
    /// exposure counter passes its threshold.
    Mud(bool, u8),
    /// Grows upward: the first counter is accumulated grow ticks, the second
    /// the remaining height budget.
    Grass(u8, u8),
    /// Burns nearby grass and sheds smoke; the counter is the remaining fuel.
    Fire(u8),
    /// Drifts upward and decays to void; the counter is the remaining lifetime.
    Smoke(u8),
}

impl Default for Substance {
    fn default() -> (s: Self)
        ensures
            s == Substance::Void,
    {
        Substance::Void
    }
}

impl Substance {
    /// The display label of each variant.
    pub open spec fn spec_name(self) -> Seq<char> {
        match self {
            Substance::Void => "void"@,
            Substance::OutOfBounds => "out of bounds"@,
            Substance::Sand(_) => "sand"@,
            Substance::Rock => "rock"@,
            Substance::Water => "water"@,
            Substance::Dirt(_, _) => "dirt"@,
            Substance::Mud(_, _) => "mud"@,
            Substance::Grass(_, _) => "grass"@,
            Substance::Fire(_) => "fire"@,
            Substance::Smoke(_) => "smoke"@,
        }
    }

    /// The display label of this substance.
    pub fn name(&self) -> (r: &'static str)
        ensures
            r@ == self.spec_name(),
    {
        match self {
            Substance::Void => "void",
            Substance::OutOfBounds => "out of bounds",
            Substance::Sand(_) => "sand",
            Substance::Rock => "rock",
            Substance::Water => "water",
            Substance::Dirt(_, _) => "dirt",
            Substance::Mud(_, _) => "mud",
            Substance::Grass(_, _) => "grass",
            Substance::Fire(_) => "fire",
            Substance::Smoke(_) => "smoke",
        }
    }

    /// The default cosmetic color of each variant.
    pub open spec fn spec_default_color(self) -> Rgba {
        match self {
            Substance::Void => Rgba { red: 0, green: 0, blue: 0, alpha: 255 },
            Substance::OutOfBounds => Rgba { red: 255, green: 0, blue: 0, alpha: 255 },
            Substance::Sand(_) => Rgba { red: 245, green: 245, blue: 220, alpha: 255 },
            Substance::Rock => Rgba { red: 128, green: 128, blue: 128, alpha: 255 },
            Substance::Water => Rgba { red: 0, green: 0, blue: 255, alpha: 255 },
            Substance::Dirt(_, _) => Rgba { red: 139, green: 69, blue: 19, alpha: 255 },
            Substance::Mud(_, _) => Rgba { red: 165, green: 42, blue: 42, alpha: 255 },
            Substance::Grass(_, _) => Rgba { red: 0, green: 128, blue: 0, alpha: 255 },
            Substance::Fire(_) => Rgba { red: 218, green: 165, blue: 32, alpha: 255 },
            Substance::Smoke(_) => Rgba { red: 169, green: 169, blue: 169, alpha: 255 },
        }
    }

    /// The default cosmetic color of this substance.
    pub fn default_color(&self) -> (c: Rgba)
        ensures
            c == self.spec_default_color(),
    {
        match self {
            Substance::Void => Rgba { red: 0, green: 0, blue: 0, alpha: 255 },
            Substance::OutOfBounds => Rgba { red: 255, green: 0, blue: 0, alpha: 255 },
            Substance::Sand(_) => Rgba { red: 245, green: 245, blue: 220, alpha: 255 },
            Substance::Rock => Rgba { red: 128, green: 128, blue: 128, alpha: 255 },
            Substance::Water => Rgba { red: 0, green: 0, blue: 255, alpha: 255 },
            Substance::Dirt(_, _) => Rgba { red: 139, green: 69, blue: 19, alpha: 255 },
            Substance::Mud(_, _) => Rgba { red: 165, green: 42, blue: 42, alpha: 255 },
            Substance::Grass(_, _) => Rgba { red: 0, green: 128, blue: 0, alpha: 255 },
            Substance::Fire(_) => Rgba { red: 218, green: 165, blue: 32, alpha: 255 },
            Substance::Smoke(_) => Rgba { red: 169, green: 169, blue: 169, alpha: 255 },
        }
    }

    /// The substance a paint selection digit stands for, with the default
    /// counters a fresh instance starts with; `None` for an unassigned digit.
    pub open spec fn spec_for_digit(digit: u8) -> Option<Substance> {
        match digit {
            0u8 => Some(Substance::Void),
            1u8 => Some(Substance::Rock),
            2u8 => Some(Substance::Sand(false)),
            3u8 => Some(Substance::Water),
            4u8 => Some(Substance::Dirt(false, 0)),
            5u8 => Some(Substance::Mud(false, 0)),
            6u8 => Some(Substance::Grass(0, 5)),
            _ => None,
        }
    }

    /// Map a paint selection digit to a fresh default-parameter substance.
    pub fn for_digit(digit: u8) -> (r: Option<Substance>)
        ensures
            r == Substance::spec_for_digit(digit),
    {
        match digit {
            0u8 => Some(Substance::Void),
            1u8 => Some(Substance::Rock),
            2u8 => Some(Substance::Sand(false)),
            3u8 => Some(Substance::Water),
            4u8 => Some(Substance::Dirt(false, 0)),
            5u8 => Some(Substance::Mud(false, 0)),
            6u8 => Some(Substance::Grass(0, 5)),
            _ => None,
        }
    }
}

} // verus!
