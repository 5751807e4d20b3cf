use vstd::prelude::*;

verus! {

/// One of the flat colours that surfaces are made of.
#[derive(Clone, Copy, Debug, PartialEq, Eq, Structural)]
pub enum Tone {
    White,
    Grey,
    Black,
}

/// The unit square of the X-Z plane that a point lies in: `x` and `z` are the
/// floors of the point's coordinates.
#[derive(Clone, Copy, Debug, PartialEq, Eq, Structural)]
pub struct Cell {
    pub x: i64,
    pub z: i64,
}

/// A cell is odd when the sum of its coordinates is odd.
pub open spec fn odd_cell(c: Cell) -> bool {
    (c.x + c.z) % 2 != 0
}

/// The optical properties of a material, as a function of where it is struck.
/// Reflectivity is given in tenths.
pub trait Surface {
    spec fn diffuse_spec(&self, cell: Cell) -> Tone;

    spec fn specular_spec(&self, cell: Cell) -> Tone;

    spec fn reflect_spec(&self, cell: Cell) -> u32;

    spec fn roughness_spec(&self) -> u32;

    /// Colour of the light scattered in every direction.
    fn diffuse(&self, cell: Cell) -> (r: Tone)
        ensures
            r == self.diffuse_spec(cell),
    ;

    /// Colour of the highlight.
    fn specular(&self, cell: Cell) -> (r: Tone)
        ensures
            r == self.specular_spec(cell),
    ;

    /// Share of the mirrored light, in tenths.
    fn reflect(&self, cell: Cell) -> (r: u32)
        ensures
            r == self.reflect_spec(cell),
            r <= 10,
    ;

    /// Exponent of the specular highlight.
    fn roughness(&self) -> (r: u32)
        ensures
            r == self.roughness_spec(),
    ;
}

/// A uniform, mirror-like material.
#[derive(Clone, Copy, Debug)]
pub struct Shiny;

/// A checkerboard of unit squares on the X-Z plane.
#[derive(Clone, Copy, Debug)]
pub struct CheckBoard;

impl Surface for Shiny {
    open spec fn diffuse_spec(&self, cell: Cell) -> Tone {
        Tone::White
    }

    open spec fn specular_spec(&self, cell: Cell) -> Tone {
        Tone::Grey
    }

    open spec fn reflect_spec(&self, cell: Cell) -> u32 {
        7
    }

    open spec fn roughness_spec(&self) -> u32 {
        250
    }

    fn diffuse(&self, cell: Cell) -> (r: Tone) {
        Tone::White
    }

    fn specular(&self, cell: Cell) -> (r: Tone) {
        Tone::Grey
    }

    fn reflect(&self, cell: Cell) -> (r: u32) {
        7
    }

    fn roughness(&self) -> (r: u32) {
        250
    }
}

/// Whether the cell is odd, computed without overflow.
pub fn is_odd_cell(c: Cell) -> (r: bool)
    ensures
        r == odd_cell(c),
{
    let s: i128 = c.x as i128 + c.z as i128;
    s % 2 != 0
}

impl Surface for CheckBoard {
    open spec fn diffuse_spec(&self, cell: Cell) -> Tone {
        if odd_cell(cell) {
            Tone::White
        } else {
            Tone::Black
        }
    }

    open spec fn specular_spec(&self, cell: Cell) -> Tone {
        Tone::White
    }

    open spec fn reflect_spec(&self, cell: Cell) -> u32 {
        if odd_cell(cell) {
            1
        } else {
            7
        }
    }

    open spec fn roughness_spec(&self) -> u32 {
        150
    }

    fn diffuse(&self, cell: Cell) -> (r: Tone) {
        if is_odd_cell(cell) {
            Tone::White
        } else {
            Tone::Black
        }
    }

    fn specular(&self, cell: Cell) -> (r: Tone) {
        Tone::White
    }

    fn reflect(&self, cell: Cell) -> (r: u32) {
        if is_odd_cell(cell) {
            1
        } else {
            7
        }
    }

    fn roughness(&self) -> (r: u32) {
        150
    }
}

} // verus!
