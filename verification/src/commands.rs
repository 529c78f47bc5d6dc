//! Render commands as exchanged with a renderer process, and their
//! effect on a frame.
//!
//! A renderer sends pixel writes and redraw requests; the display side
//! applies each pixel write at the pixel's row-major byte offset with an
//! opaque alpha. Applying a command changes at most that pixel's four
//! bytes.

use vstd::prelude::*;

verus! {

/// A command from the renderer to the display side.
#[derive(Clone, Copy, Debug)]
pub enum Command {
    SetPixel { pos: [usize; 2], color: [u8; 3] },
    Redraw,
    Nop,
}

/// Apply a command to a packed frame of the given width. A pixel write whose
/// pixel lies within the frame writes the three color bytes and an
/// opaque alpha at the pixel's row-major offset and reports `true`;
/// everything else leaves the frame untouched.
pub fn apply_command(frame: &mut Vec<u8>, width: usize, cmd: &Command) -> (wrote: bool)
    ensures
        final(frame)@.len() == old(frame)@.len(),
        ({
            match *cmd {
                Command::SetPixel { pos, color } => {
                    let base = 4 * (pos[1] * width + pos[0]);
                    if pos[0] < width && base + 4 <= old(frame)@.len() {
                        &&& wrote
                        &&& final(frame)@[base] == color[0]
                        &&& final(frame)@[base + 1] == color[1]
                        &&& final(frame)@[base + 2] == color[2]
                        &&& final(frame)@[base + 3] == 255
                        &&& forall|j: int|
                            0 <= j < old(frame)@.len() && !(base <= j < base + 4)
                                ==> final(frame)@[j] == old(frame)@[j]
                    } else {
                        !wrote && *final(frame) == *old(frame)
                    }
                },
                _ => !wrote && *final(frame) == *old(frame),
            }
        }),
{
    match cmd {
        Command::SetPixel { pos, color } => {
            let x = pos[0];
            let y = pos[1];
            proof {
                assert(y as int * width as int <= u128::MAX - x) by (nonlinear_arith)
                    requires
                        y <= usize::MAX,
                        width <= usize::MAX,
                        x <= usize::MAX,
                        usize::MAX <= u64::MAX,
                ;
            }
            let p: u128 = (y as u128) * (width as u128) + (x as u128);
            let flen = frame.len();
            proof {
                assert(p == y * width + x);
                assert(frame@.len() == flen);
            }
            if x < width && p <= usize::MAX as u128 {
                let b4: u128 = 4 * p;
                if b4 + 4 <= flen as u128 {
                    let base: usize = b4 as usize;
                    proof {
                        assert(base == 4 * (y * width + x));
                    }
                    frame[base] = color[0];
                    frame[base + 1] = color[1];
                    frame[base + 2] = color[2];
                    frame[base + 3] = 255;
                    true
                } else {
                    proof {
                        assert(4 * (y * width + x) + 4 > frame@.len());
                    }
                    false
                }
            } else {
                proof {
                    if x < width {
                        assert(4 * (y * width + x) + 4 > frame@.len());
                    }
                }
                false
            }
        },
        _ => false,
    }
}

/// Spec mirror of the test-pattern color: red grows along the columns,
/// green along the rows counted from the bottom, blue fixed.
pub open spec fn sp_gradient_color(i: int, j: int, width: int, height: int) -> [u8; 3] {
    [((i * 255) / (width - 1)) as u8, ((j * 255) / (height - 1)) as u8, 63u8]
}

/// The test-pattern color for pixel `(i, j)` of a frame with at least
/// two pixels on each side.
pub fn gradient_color(i: usize, j: usize, width: usize, height: usize) -> (r: [u8; 3])
    requires
        2 <= width,
        2 <= height,
        i < width,
        j < height,
    ensures
        r == sp_gradient_color(i as int, j as int, width as int, height as int),
{
    let red = scale_channel(i, width);
    let green = scale_channel(j, height);
    [red, green, 63]
}

/// One gradient channel: `floor(v * 255 / (side - 1))`, a byte since
/// `v` is at most `side - 1`.
fn scale_channel(v: usize, side: usize) -> (r: u8)
    requires
        2 <= side,
        v < side,
    ensures
        r == (v * 255) / (side - 1),
{
    let n: u128 = (v as u128) * 255;
    let d: u128 = (side - 1) as u128;
    let q: u128 = n / d;
    proof {
        vstd::arithmetic::div_mod::lemma_fundamental_div_mod(n as int, d as int);
        assert(q <= 255) by (nonlinear_arith)
            requires
                n == v * 255,
                v <= d,
                1 <= d,
                q * d + n % d == n,
                0 <= n % d < d,
        ;
    }
    q as u8
}

} // verus!