use vstd::prelude::*;

verus! {

/// Width of a default canvas.
pub const WIDTH: usize = 264;

/// Height of a default canvas.
pub const HEIGHT: usize = 264;

// Packed colors: byte 0 red, byte 1 green, byte 2 blue, byte 3 unused.
pub const BLACK: u32 = 0x00000000;

pub const WHITE: u32 = 0x00FFFFFF;

pub const RED: u32 = 0x000000FF;

pub const GREEN: u32 = 0x0000FF00;

pub const BLUE: u32 = 0x00FF0000;

/// Color of a default canvas.
pub const BACKGROUND_COLOR: u32 = BLACK;

} // verus!
