//! A small auxiliary renderer, independent of the automaton: it paints a
//! fixed 8-by-8 checkerboard into an RGBA pixel buffer from two colours.

use vstd::arithmetic::div_mod::lemma_fundamental_div_mod_converse;
use vstd::prelude::*;

verus! {

/// Whether the square at `(x, y)` is painted in the dark colour: exactly
/// when one of the two coordinates is even and the other is odd. The square
/// at the origin is light.
pub open spec fn square_is_dark(x: int, y: int) -> bool {
    (y % 2 == 0) != (x % 2 == 0)
}

/// The byte at offset `i` of the rendered buffer: the square's colour
/// channel for the first three bytes of each pixel, and a fully opaque alpha
/// for the fourth.
pub open spec fn checker_byte(lr: u8, lg: u8, lb: u8, dr: u8, dg: u8, db: u8, i: int) -> u8 {
    let ch = i % 4;
    let x = (i / 4) % 8;
    let y = i / 32;
    if ch == 3 {
        255
    } else if square_is_dark(x, y) {
        if ch == 0 {
            dr
        } else if ch == 1 {
            dg
        } else {
            db
        }
    } else {
        if ch == 0 {
            lr
        } else if ch == 1 {
            lg
        } else {
            lb
        }
    }
}

/// The full rendered buffer: a pure function of the two colours and the
/// fixed board geometry, and of nothing else.
pub open spec fn checkerboard(lr: u8, lg: u8, lb: u8, dr: u8, dg: u8, db: u8) -> Seq<u8> {
    Seq::new(256, |i: int| checker_byte(lr, lg, lb, dr, dg, db, i))
}

/// Paints the checkerboard into `frame`, light colour `(lr, lg, lb)` and
/// dark colour `(dr, dg, db)`, one RGBA pixel per square, row-major, with a
/// fully opaque alpha everywhere.
pub fn populate_frame_buffer(
    frame: &mut Vec<u8>,
    lr: u8,
    lg: u8,
    lb: u8,
    dr: u8,
    dg: u8,
    db: u8,
)
    requires
        old(frame)@.len() == 256,
    ensures
        final(frame)@ == checkerboard(lr, lg, lb, dr, dg, db),
{
    let mut y: usize = 0;
    while y < 8
        invariant
            y <= 8,
            frame@.len() == 256,
            forall|i: int|
                0 <= i < 32 * y ==> frame@[i] == checker_byte(lr, lg, lb, dr, dg, db, i),
        decreases 8 - y,
    {
        let mut x: usize = 0;
        while x < 8
            invariant
                y < 8,
                x <= 8,
                frame@.len() == 256,
                forall|i: int|
                    0 <= i < 32 * y + 4 * x ==> frame@[i] == checker_byte(lr, lg, lb, dr, dg, db, i),
            decreases 8 - x,
        {
            let dark = (y % 2 == 0) != (x % 2 == 0);
            let base = (y * 8 + x) * 4;
            if dark {
                frame.set(base, dr);
                frame.set(base + 1, dg);
                frame.set(base + 2, db);
            } else {
                frame.set(base, lr);
                frame.set(base + 1, lg);
                frame.set(base + 2, lb);
            }
            frame.set(base + 3, 255);
            proof {
                let b = base as int;
                assert forall|i: int|
                    0 <= i < 32 * y + 4 * x + 4 implies frame@[i] == checker_byte(
                    lr,
                    lg,
                    lb,
                    dr,
                    dg,
                    db,
                    i,
                ) by {
                    if i >= b {
                        lemma_fundamental_div_mod_converse(i, 4, 8 * y + x, i - b);
                        lemma_fundamental_div_mod_converse(8 * y + x, 8, y as int, x as int);
                        lemma_fundamental_div_mod_converse(i, 32, y as int, 4 * x + (i - b));
                    }
                }
            }
            x = x + 1;
        }
        y = y + 1;
    }
    proof {
        assert(frame@ =~= checkerboard(lr, lg, lb, dr, dg, db));
    }
}

/// Renders the checkerboard into a fresh buffer and hands it back by value:
/// the result depends only on the two colours.
pub fn render_checkerboard(lr: u8, lg: u8, lb: u8, dr: u8, dg: u8, db: u8) -> (r: Vec<u8>)
    ensures
        r@ == checkerboard(lr, lg, lb, dr, dg, db),
        r@.len() == 256,
{
    let mut frame: Vec<u8> = Vec::new();
    while frame.len() < 256
        invariant
            frame@.len() <= 256,
        decreases 256 - frame.len(),
    {
        frame.push(0);
    }
    populate_frame_buffer(&mut frame, lr, lg, lb, dr, dg, db);
    frame
}

} // verus!
