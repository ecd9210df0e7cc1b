//! The color records of a palette, and the flavors that select a palette.

use vstd::prelude::*;

verus! {

/// One named color of a palette, with what a template can show of it.
///
/// The hue is in whole degrees; saturation and lightness are fractions
/// between 0 and 1, held as whole hundredths (`92` stands for `0.92`).
pub struct Color {
    pub name: String,
    pub red: u8,
    pub green: u8,
    pub blue: u8,
    pub hex: String,
    pub hue: u32,
    pub saturation: u32,
    pub lightness: u32,
}

/// A variant of the palette.
#[derive(Clone, Copy, Debug, PartialEq, Eq, Structural)]
pub enum Flavor {
    Latte,
    Frappe,
    Macchiato,
    Mocha,
}

impl Default for Flavor {
    /// The flavor used when none is asked for.
    fn default() -> (r: Flavor)
        ensures
            r == Flavor::Macchiato,
    {
        Flavor::Macchiato
    }
}

} // verus!
