//! The display: a grid of 64 by 32 pixels, and sprites composed onto it by
//! exclusive or.
//!
//! A sprite is a column of bytes, one byte per row, the high bit leftmost.
//! It is drawn with its top left corner at a pixel of the grid. The part of
//! it that would fall beyond the right or the bottom edge is clipped: it
//! does not wrap round to the other side.

use vstd::prelude::*;

verus! {

/// The width of the display, in pixels.
pub const DISPLAY_WIDTH: usize = 64;

/// The height of the display, in pixels.
pub const DISPLAY_HEIGHT: usize = 32;

/// The number of pixels of the display.
pub const DISPLAY_SIZE: usize = 2048;

/// The width of a sprite, in pixels.
pub const SPRITE_WIDTH: usize = 8;

/// Whether the bit of `row` for column `col` is set. Column 0 is the high
/// bit.
pub open spec fn sprite_bit(row: u8, col: u8) -> bool {
    row & (0x80u8 >> col) != 0
}

/// Whether the sprite, drawn at (`x0`, `y0`), has a set bit on the pixel
/// (`px`, `py`).
pub open spec fn sprite_pixel(sprite: Seq<u8>, x0: int, y0: int, px: int, py: int) -> bool {
    &&& x0 <= px < x0 + 8
    &&& y0 <= py < y0 + sprite.len()
    &&& sprite_bit(sprite[py - y0], (px - x0) as u8)
}

/// Whether the sprite, drawn at (`x0`, `y0`), has a set bit on the element
/// `k` of the display. Pixel (`px`, `py`) is the element `py * 64 + px`.
pub open spec fn covers(sprite: Seq<u8>, x0: int, y0: int, k: int) -> bool {
    sprite_pixel(sprite, x0, y0, k % 64, k / 64)
}

/// The display after the sprite is drawn at (`x0`, `y0`): each pixel under a
/// set bit of the sprite is flipped, every other pixel is kept.
pub open spec fn draw(display: Seq<bool>, sprite: Seq<u8>, x0: int, y0: int) -> Seq<bool> {
    Seq::new(2048, |k: int| display[k] != covers(sprite, x0, y0, k))
}

/// Whether drawing the sprite at (`x0`, `y0`) turns a lit pixel off.
pub open spec fn collides(display: Seq<bool>, sprite: Seq<u8>, x0: int, y0: int) -> bool {
    exists|k: int|
        0 <= k < 2048 && display[k] && #[trigger] covers(sprite, x0, y0, k)
}

/// Whether the sprite, drawn at (`x0`, `y0`), has a set bit on a pixel that
/// is dark.
pub open spec fn lights(display: Seq<bool>, sprite: Seq<u8>, x0: int, y0: int) -> bool {
    exists|k: int|
        0 <= k < 2048 && !display[k] && #[trigger] covers(sprite, x0, y0, k)
}

/// Drawing a sprite twice at the same place gives the display back as it
/// was. The second drawing turns off exactly the pixels that the first one
/// lit, so it reports a collision if and only if the first one lit a pixel.
pub proof fn lemma_draw_twice(display: Seq<bool>, sprite: Seq<u8>, x0: int, y0: int)
    requires
        display.len() == 2048,
    ensures
        draw(draw(display, sprite, x0, y0), sprite, x0, y0) == display,
        collides(draw(display, sprite, x0, y0), sprite, x0, y0) == lights(display, sprite, x0, y0),
{
    let once = draw(display, sprite, x0, y0);
    let twice = draw(once, sprite, x0, y0);
    assert(twice =~= display);
    if collides(once, sprite, x0, y0) {
        let k = choose|k: int|
            0 <= k < 2048 && once[k] && #[trigger] covers(sprite, x0, y0, k);
        assert(!display[k] && covers(sprite, x0, y0, k));
    }
    if lights(display, sprite, x0, y0) {
        let k = choose|k: int|
            0 <= k < 2048 && !display[k] && #[trigger] covers(sprite, x0, y0, k);
        assert(once[k] && covers(sprite, x0, y0, k));
    }
}

/// Whether the one-row sprite `bits`, drawn at (`x0`, `py`), has a set bit
/// on pixel `k`, in one of its first `cols` columns.
spec fn row_pixel(bits: u8, x0: int, py: int, cols: int, k: int) -> bool {
    covers(seq![bits], x0, py, k) && k % 64 < x0 + cols
}

/// Draws the one-row sprite `bits` at (`x0`, `py`), and tells whether that
/// turned a lit pixel off.
fn draw_row(display: &mut [bool; DISPLAY_SIZE], bits: u8, x0: usize, py: usize) -> (collision:
    bool)
    requires
        x0 < DISPLAY_WIDTH,
        py < DISPLAY_HEIGHT,
    ensures
        final(display)@ == draw(old(display)@, seq![bits], x0 as int, py as int),
        collision == collides(old(display)@, seq![bits], x0 as int, py as int),
{
    let ghost before = display@;
    let mut collision = false;
    let mut col: usize = 0;
    while col < SPRITE_WIDTH && x0 + col < DISPLAY_WIDTH
        invariant
            x0 < DISPLAY_WIDTH,
            py < DISPLAY_HEIGHT,
            col <= SPRITE_WIDTH,
            before.len() == 2048,
            forall|k: int|
                0 <= k < 2048 ==> display@[k] == (before[k] != row_pixel(
                    bits,
                    x0 as int,
                    py as int,
                    col as int,
                    k,
                )),
            collision == (exists|k: int|
                0 <= k < 2048 && before[k] && #[trigger] row_pixel(
                    bits,
                    x0 as int,
                    py as int,
                    col as int,
                    k,
                )),
        decreases SPRITE_WIDTH - col,
    {
        let k: usize = py * DISPLAY_WIDTH + x0 + col;
        let ghost set = sprite_bit(bits, col as u8);
        let ghost hit = before[k as int] && set;
        let ghost collided = collision;
        assert(forall|j: int|
            0 <= j < 2048 ==> (#[trigger] row_pixel(bits, x0 as int, py as int, col + 1, j) <==> (
            row_pixel(bits, x0 as int, py as int, col as int, j) || (j == k && set)))) by {
            assert forall|j: int| 0 <= j < 2048 implies (#[trigger] row_pixel(
                bits,
                x0 as int,
                py as int,
                col + 1,
                j,
            ) <==> (row_pixel(bits, x0 as int, py as int, col as int, j) || (j == k && set))) by {
                assert(seq![bits][0] == bits);
                if j % 64 == x0 + col && j / 64 == py {
                    assert(j == k);
                }
            }
        }
        if bits & (0x80u8 >> col) != 0 {
            if display[k] {
                collision = true;
            }
            display[k] = !display[k];
        }
        proof {
            if hit {
                assert(row_pixel(bits, x0 as int, py as int, col + 1, k as int));
            }
            if collided {
                let j = choose|j: int|
                    0 <= j < 2048 && before[j] && #[trigger] row_pixel(
                        bits,
                        x0 as int,
                        py as int,
                        col as int,
                        j,
                    );
                assert(row_pixel(bits, x0 as int, py as int, col + 1, j));
            }
            if exists|j: int|
                0 <= j < 2048 && before[j] && #[trigger] row_pixel(
                    bits,
                    x0 as int,
                    py as int,
                    col + 1,
                    j,
                ) {
                let j = choose|j: int|
                    0 <= j < 2048 && before[j] && #[trigger] row_pixel(
                        bits,
                        x0 as int,
                        py as int,
                        col + 1,
                        j,
                    );
                assert(row_pixel(bits, x0 as int, py as int, col as int, j) || (j == k && set));
            }
        }
        col += 1;
    }
    proof {
        assert forall|k: int| 0 <= k < 2048 implies row_pixel(
            bits,
            x0 as int,
            py as int,
            col as int,
            k,
        ) == covers(seq![bits], x0 as int, py as int, k) by {}
        assert(display@ =~= draw(before, seq![bits], x0 as int, py as int));
        if collision {
            let k = choose|k: int|
                0 <= k < 2048 && before[k] && #[trigger] row_pixel(
                    bits,
                    x0 as int,
                    py as int,
                    col as int,
                    k,
                );
            assert(covers(seq![bits], x0 as int, py as int, k));
        }
        if collides(before, seq![bits], x0 as int, py as int) {
            let k = choose|k: int|
                0 <= k < 2048 && before[k] && #[trigger] covers(
                    seq![bits],
                    x0 as int,
                    py as int,
                    k,
                );
            assert(row_pixel(bits, x0 as int, py as int, col as int, k));
        }
    }
    collision
}

/// Drawing the first `rows + 1` rows of a sprite is drawing the first
/// `rows` rows and then the next row alone, one line further down; and the
/// first collides if and only if one of the two others does.
proof fn lemma_draw_next_row(display: Seq<bool>, sprite: Seq<u8>, x0: int, y0: int, rows: int)
    requires
        display.len() == 2048,
        0 <= rows < sprite.len(),
    ensures
        draw(display, sprite.take(rows + 1), x0, y0) == draw(
            draw(display, sprite.take(rows), x0, y0),
            seq![sprite[rows]],
            x0,
            y0 + rows,
        ),
        collides(display, sprite.take(rows + 1), x0, y0) == (collides(
            display,
            sprite.take(rows),
            x0,
            y0,
        ) || collides(draw(display, sprite.take(rows), x0, y0), seq![sprite[rows]], x0, y0 + rows)),
{
    let head = sprite.take(rows);
    let more = sprite.take(rows + 1);
    let line = seq![sprite[rows]];
    let partial = draw(display, head, x0, y0);
    assert(line[0] == sprite[rows]);
    assert forall|k: int| 0 <= k < 2048 implies covers(more, x0, y0, k) == (
    covers(head, x0, y0, k) || covers(line, x0, y0 + rows, k)) by {}
    assert forall|k: int| 0 <= k < 2048 implies !(covers(head, x0, y0, k)
        && covers(line, x0, y0 + rows, k)) by {}
    assert(draw(display, more, x0, y0) =~= draw(partial, line, x0, y0 + rows));
    if collides(display, more, x0, y0) {
        let k = choose|k: int|
            0 <= k < 2048 && display[k] && #[trigger] covers(more, x0, y0, k);
        if covers(head, x0, y0, k) {
        } else {
            assert(partial[k] && covers(line, x0, y0 + rows, k));
        }
    }
    if collides(display, head, x0, y0) {
        let k = choose|k: int|
            0 <= k < 2048 && display[k] && #[trigger] covers(head, x0, y0, k);
        assert(covers(more, x0, y0, k));
    }
    if collides(partial, line, x0, y0 + rows) {
        let k = choose|k: int|
            0 <= k < 2048 && partial[k] && #[trigger] covers(line, x0, y0 + rows, k);
        assert(display[k] && covers(more, x0, y0, k));
    }
}

/// Rows of a sprite that would lie below the display do not count: if the
/// row numbered `rows` is the first below the bottom edge, the sprite draws
/// and collides as its first `rows` rows do.
proof fn lemma_draw_clipped(display: Seq<bool>, sprite: Seq<u8>, x0: int, y0: int, rows: int)
    requires
        display.len() == 2048,
        0 <= rows <= sprite.len(),
        rows == sprite.len() || y0 + rows >= 32,
    ensures
        draw(display, sprite.take(rows), x0, y0) == draw(display, sprite, x0, y0),
        collides(display, sprite.take(rows), x0, y0) == collides(display, sprite, x0, y0),
{
    let head = sprite.take(rows);
    assert forall|k: int| 0 <= k < 2048 implies covers(head, x0, y0, k)
        == covers(sprite, x0, y0, k) by {}
    assert(draw(display, head, x0, y0) =~= draw(display, sprite, x0, y0));
    if collides(display, head, x0, y0) {
        let k = choose|k: int|
            0 <= k < 2048 && display[k] && #[trigger] covers(head, x0, y0, k);
        assert(covers(sprite, x0, y0, k));
    }
    if collides(display, sprite, x0, y0) {
        let k = choose|k: int|
            0 <= k < 2048 && display[k] && #[trigger] covers(sprite, x0, y0, k);
        assert(covers(head, x0, y0, k));
    }
}

/// Draws the sprite, a byte for each row, with its corner at (`x0`, `y0`),
/// and tells whether that turned a lit pixel off.
pub fn draw_sprite(
    display: &mut [bool; DISPLAY_SIZE],
    sprite: &[u8],
    x0: usize,
    y0: usize,
) -> (collision: bool)
    requires
        x0 < DISPLAY_WIDTH,
        y0 < DISPLAY_HEIGHT,
    ensures
        final(display)@ == draw(old(display)@, sprite@, x0 as int, y0 as int),
        collision == collides(old(display)@, sprite@, x0 as int, y0 as int),
{
    let ghost before = display@;
    let height = sprite.len();
    let mut collision = false;
    let mut row: usize = 0;
    proof {
        assert(display@ =~= draw(before, sprite@.take(0), x0 as int, y0 as int));
    }
    while row < height && y0 + row < DISPLAY_HEIGHT
        invariant
            x0 < DISPLAY_WIDTH,
            y0 < DISPLAY_HEIGHT,
            row <= height,
            y0 + row <= DISPLAY_HEIGHT,
            height == sprite@.len(),
            before.len() == 2048,
            display@ == draw(before, sprite@.take(row as int), x0 as int, y0 as int),
            collision == collides(before, sprite@.take(row as int), x0 as int, y0 as int),
        decreases height - row,
    {
        let bits = sprite[row];
        proof {
            lemma_draw_next_row(before, sprite@, x0 as int, y0 as int, row as int);
        }
        let hit = draw_row(display, bits, x0, y0 + row);
        if hit {
            collision = true;
        }
        row += 1;
    }
    proof {
        lemma_draw_clipped(before, sprite@, x0 as int, y0 as int, row as int);
    }
    collision
}

} // verus!
