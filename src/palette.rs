//! The colours bodies are drawn with.
use vstd::prelude::*;

verus! {

/// The star's colour: yellow.
pub const STAR_COLOR: [u8; 4] = [255, 255, 100, 255];

/// The colour of a planet whose id has no entry: a neutral white.
pub const DEFAULT_COLOR: [u8; 4] = [244, 244, 244, 244];

/// The colour of the planet with id `id`, counted outward from the star.
pub open spec fn planet_color_spec(id: u32) -> [u8; 4] {
    if id == 1 {
        [0xa0, 0x85, 0x68, 255]
    } else if id == 2 {
        [0x99, 0x7d, 0x4d, 255]
    } else if id == 3 {
        [0x1c, 0x24, 0x3b, 255]
    } else if id == 4 {
        [0xc2, 0x5a, 0x1e, 255]
    } else if id == 5 {
        [0xbb, 0xbf, 0xc2, 255]
    } else if id == 6 {
        [0xde, 0xbc, 0x7c, 255]
    } else if id == 7 {
        [0xbd, 0xe3, 0xe6, 255]
    } else if id == 8 {
        [0x40, 0x68, 0xfd, 255]
    } else if id == 9 {
        [0xed, 0xc7, 0xa2, 255]
    } else {
        DEFAULT_COLOR
    }
}

/// Looks up the colour of the planet with id `id`; unknown ids get `DEFAULT_COLOR`.
pub fn planet_color(id: u32) -> (r: [u8; 4])
    ensures
        r == planet_color_spec(id),
{
    match id {
        1 => [0xa0, 0x85, 0x68, 255],
        2 => [0x99, 0x7d, 0x4d, 255],
        3 => [0x1c, 0x24, 0x3b, 255],
        4 => [0xc2, 0x5a, 0x1e, 255],
        5 => [0xbb, 0xbf, 0xc2, 255],
        6 => [0xde, 0xbc, 0x7c, 255],
        7 => [0xbd, 0xe3, 0xe6, 255],
        8 => [0x40, 0x68, 0xfd, 255],
        9 => [0xed, 0xc7, 0xa2, 255],
        _ => DEFAULT_COLOR,
    }
}

} // verus!
