//! Plain RGB pixel values and the per-frame colour pipeline.
//!
//! The LED transport consumes a stream of RGB triples; this module holds the
//! pixel type the core hands across that boundary and the pure stage that
//! gamma-corrects and dithers one reconstructed frame.

use crate::dithering::{correct_22, spec_correct_22};
use vstd::prelude::*;

verus! {

/// One pixel: three 8-bit colour channels.
#[derive(Clone, Copy, Debug, PartialEq, Eq, Structural)]
pub struct Rgb {
    pub r: u8,
    pub g: u8,
    pub b: u8,
}

/// The gamma-corrected, dithered output pixel for one linear input pixel.
///
/// The red and green channels swap places: the serial LED transport expects
/// its colour order as green first.
pub open spec fn spec_render_pixel(p: Rgb, frame_number: u32, pixel_index: u32) -> Rgb {
    Rgb {
        r: spec_correct_22(p.g, frame_number, pixel_index),
        g: spec_correct_22(p.r, frame_number, pixel_index),
        b: spec_correct_22(p.b, frame_number, pixel_index),
    }
}

/// Apply gamma correction and temporal dithering to a whole frame, swapping
/// the red and green channels for the LED transport.
pub fn render_frame(leds: &Vec<Rgb>, frame_number: u32) -> (r: Vec<Rgb>)
    requires
        leds@.len() <= u32::MAX,
    ensures
        r@.len() == leds@.len(),
        forall|i: int|
            0 <= i < leds@.len() ==> r@[i] == spec_render_pixel(leds@[i], frame_number, i as u32),
{
    let mut out: Vec<Rgb> = Vec::new();
    let mut i: usize = 0;
    while i < leds.len()
        invariant
            0 <= i <= leds@.len(),
            leds@.len() <= u32::MAX,
            out@.len() == i,
            forall|j: int|
                0 <= j < i ==> out@[j] == spec_render_pixel(leds@[j], frame_number, j as u32),
        decreases leds@.len() - i,
    {
        let p = leds[i];
        out.push(
            Rgb {
                r: correct_22(p.g, frame_number, i as u32),
                g: correct_22(p.r, frame_number, i as u32),
                b: correct_22(p.b, frame_number, i as u32),
            },
        );
        i += 1;
    }
    out
}

} // verus!
