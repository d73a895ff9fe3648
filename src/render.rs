//! Turning the framebuffer into RGBA texture bytes.
use vstd::prelude::*;

verus! {

/// A colour as red, green and blue channels.
#[derive(Clone, Copy, Debug, PartialEq, Eq, Structural)]
pub struct Rgb {
    pub r: u8,
    pub g: u8,
    pub b: u8,
}

/// Channel `ch` (red, green, blue, alpha) of an opaque pixel of colour `c`.
pub open spec fn channel(c: Rgb, ch: int) -> u8 {
    if ch == 0 {
        c.r
    } else if ch == 1 {
        c.g
    } else if ch == 2 {
        c.b
    } else {
        255
    }
}

/// Four bytes per pixel, red, green, blue and alpha: `on` for a lit pixel, `off` for a dark
/// one, always opaque.
pub open spec fn rgba_of(pixels: Seq<bool>, on: Rgb, off: Rgb) -> Seq<u8> {
    Seq::new(
        4 * pixels.len(),
        |i: int| channel(if pixels[i / 4] { on } else { off }, i % 4),
    )
}

/// Converts pixel states into RGBA bytes, `on` for a lit pixel and `off` for a dark one.
pub fn pixels_to_rgba(pixels: &[bool], on: Rgb, off: Rgb) -> (out: Vec<u8>)
    requires
        4 * pixels@.len() <= usize::MAX,
    ensures
        out@ == rgba_of(pixels@, on, off),
{
    let mut out: Vec<u8> = Vec::with_capacity(pixels.len() * 4);
    for i in 0..pixels.len()
        invariant
            4 * pixels@.len() <= usize::MAX,
            out@.len() == 4 * i,
            forall|j: int| 0 <= j < 4 * i ==> #[trigger] out@[j] == rgba_of(pixels@, on, off)[j],
    {
        let c = if pixels[i] { on } else { off };
        out.push(c.r);
        out.push(c.g);
        out.push(c.b);
        out.push(255);
        proof {
            assert forall|j: int| 0 <= j < 4 * i + 4 implies #[trigger] out@[j] == rgba_of(
                pixels@,
                on,
                off,
            )[j] by {
                if j >= 4 * i {
                    assert(j / 4 == i && j % 4 == j - 4 * i) by (nonlinear_arith)
                        requires
                            4 * i <= j < 4 * i + 4,
                    ;
                }
            }
        }
    }
    assert(out@ =~= rgba_of(pixels@, on, off));
    out
}

} // verus!
