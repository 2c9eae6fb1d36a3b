//! Sprites and how they are composited onto the framebuffer.

use vstd::prelude::*;

verus! {

/// Width of the framebuffer in pixels.
pub const DISPLAY_WIDTH: usize = 64;

/// Height of the framebuffer in pixels.
pub const DISPLAY_HEIGHT: usize = 32;

/// Number of pixels in the framebuffer.
pub const DISPLAY_SIZE: usize = 2048;

/// Whether column `col` (0 is the leftmost) of a sprite row is lit: bit
/// `7 - col` of the row's byte is 1.
pub open spec fn sprite_bit(row_bits: u8, col: int) -> bool {
    (row_bits >> ((7 - col) as u8)) & 1 == 1
}

/// The framebuffer cell of the pixel in row `row`, column `col` of a sprite
/// drawn at `(x, y)`. Cells are row-major; a column beyond the right edge
/// runs on into the next row.
pub open spec fn pixel_index(x: u8, y: u8, row: int, col: int) -> int {
    (x + col) + (y + row) * DISPLAY_WIDTH
}

/// The sprite drawn at `(x, y)` has a lit pixel on framebuffer cell `p`.
pub open spec fn sprite_lights(sprite: Seq<u8>, x: u8, y: u8, p: int) -> bool {
    exists|row: int, col: int|
        0 <= row < sprite.len() && 0 <= col < 8 && sprite_bit(sprite[row], col)
            && #[trigger] pixel_index(x, y, row, col) == p
}

/// The sprite drawn at `(x, y)` has a lit pixel beyond the framebuffer.
pub open spec fn sprite_overruns(sprite: Seq<u8>, x: u8, y: u8) -> bool {
    exists|row: int, col: int|
        0 <= row < sprite.len() && 0 <= col < 8 && sprite_bit(sprite[row], col)
            && #[trigger] pixel_index(x, y, row, col) >= DISPLAY_SIZE
}

/// The framebuffer after the sprite is drawn at `(x, y)`: each cell under a
/// lit pixel is toggled, every other cell is kept.
pub open spec fn draw_sprite(display: Seq<u8>, sprite: Seq<u8>, x: u8, y: u8) -> Seq<u8> {
    Seq::new(
        display.len(),
        |p: int|
            if sprite_lights(sprite, x, y, p) {
                display[p] ^ 1
            } else {
                display[p]
            },
    )
}

/// How far framebuffer cell `p` lies behind the cell of the top left pixel
/// of a sprite drawn at `(x, y)`.
pub open spec fn cell_offset(x: u8, y: u8, p: int) -> int {
    p - pixel_index(x, y, 0, 0)
}

/// [`sprite_lights`] without a search: the row and column that fall on cell
/// `p` are computed from its offset, and that pixel is lit.
pub open spec fn sprite_lights_at(sprite: Seq<u8>, x: u8, y: u8, p: int) -> bool {
    let offset = cell_offset(x, y, p);
    &&& 0 <= offset
    &&& offset % 64 < 8
    &&& offset / 64 < sprite.len()
    &&& sprite_bit(sprite[offset / 64], offset % 64)
}

/// The lit pixel on cell `p`, if any, comes before row `row`, column `col`
/// in drawing order.
pub open spec fn lit_before(sprite: Seq<u8>, x: u8, y: u8, row: int, col: int, p: int) -> bool {
    let offset = cell_offset(x, y, p);
    &&& sprite_lights_at(sprite, x, y, p)
    &&& (offset / 64 < row || (offset / 64 == row && offset % 64 < col))
}

/// A sprite lights a cell exactly if the pixel that the cell's offset
/// names is lit: no two pixels of a sprite fall on one cell.
pub proof fn lemma_sprite_lights(sprite: Seq<u8>, x: u8, y: u8, p: int)
    ensures
        sprite_lights(sprite, x, y, p) == sprite_lights_at(sprite, x, y, p),
{
    if sprite_lights(sprite, x, y, p) {
        let (row, col) = choose|row: int, col: int|
            0 <= row < sprite.len() && 0 <= col < 8 && sprite_bit(sprite[row], col)
                && #[trigger] pixel_index(x, y, row, col) == p;
        assert(cell_offset(x, y, p) == row * 64 + col);
        assert(cell_offset(x, y, p) / 64 == row);
        assert(cell_offset(x, y, p) % 64 == col);
    }
    if sprite_lights_at(sprite, x, y, p) {
        let offset = cell_offset(x, y, p);
        assert(pixel_index(x, y, offset / 64, offset % 64) == p);
    }
}

/// A sprite overruns the framebuffer exactly if it lights a cell beyond it.
pub proof fn lemma_sprite_overruns(sprite: Seq<u8>, x: u8, y: u8)
    ensures
        sprite_overruns(sprite, x, y) == exists|p: int|
            p >= DISPLAY_SIZE && #[trigger] sprite_lights_at(sprite, x, y, p),
{
    if sprite_overruns(sprite, x, y) {
        let (row, col) = choose|row: int, col: int|
            0 <= row < sprite.len() && 0 <= col < 8 && sprite_bit(sprite[row], col)
                && #[trigger] pixel_index(x, y, row, col) >= DISPLAY_SIZE;
        let p = pixel_index(x, y, row, col);
        assert(sprite_lights(sprite, x, y, p));
        lemma_sprite_lights(sprite, x, y, p);
    }
    if exists|p: int| p >= DISPLAY_SIZE && #[trigger] sprite_lights_at(sprite, x, y, p) {
        let p = choose|p: int| p >= DISPLAY_SIZE && #[trigger] sprite_lights_at(sprite, x, y, p);
        let offset = cell_offset(x, y, p);
        assert(pixel_index(x, y, offset / 64, offset % 64) == p);
    }
}

} // verus!
