//! Plain-text PPM ("P3") framing: one line per pixel, after a short header.
use vstd::prelude::*;

use crate::decimal::{decimal, push_decimal, push_signed_decimal, signed_decimal};

verus! {

/// The three integer channels of one pixel, as written to the image.
///
/// Channels are normally in `0..=255`; nothing clamps them, so a colour
/// that left the unit range shows up here as an out-of-gamut or negative
/// value and is written as such.
#[derive(Clone, Copy, Debug, PartialEq, Eq)]
pub struct ColorBytes {
    pub r: i64,
    pub g: i64,
    pub b: i64,
}

/// `"<r> <g> <b>\n"` for one pixel.
pub open spec fn color_text(c: ColorBytes) -> Seq<u8> {
    signed_decimal(c.r as int) + seq![32u8] + signed_decimal(c.g as int) + seq![32u8]
        + signed_decimal(c.b as int) + seq![10u8]
}

/// `"P3\n<width> <height>\n255\n"`.
pub open spec fn header_text(width: nat, height: nat) -> Seq<u8> {
    seq![80u8, 51u8, 10u8] + decimal(width) + seq![32u8] + decimal(height) + seq![
        10u8,
        50u8,
        53u8,
        53u8,
        10u8,
    ]
}

/// The pixel lines of `pixels`, in the order given.
pub open spec fn body_text(pixels: Seq<ColorBytes>) -> Seq<u8>
    decreases pixels.len(),
{
    if pixels.len() == 0 {
        Seq::empty()
    } else {
        body_text(pixels.drop_last()) + color_text(pixels.last())
    }
}

/// The pixel lines of consecutive runs of pixels (rows, or shards of rows
/// rendered apart) are the pixel lines of the whole run, joined in order.
pub proof fn lemma_body_concat(first: Seq<ColorBytes>, rest: Seq<ColorBytes>)
    ensures
        body_text(first + rest) == body_text(first) + body_text(rest),
    decreases rest.len(),
{
    if rest.len() == 0 {
        assert(first + rest =~= first);
        assert(body_text(first) + body_text(rest) =~= body_text(first));
    } else {
        lemma_body_concat(first, rest.drop_last());
        assert((first + rest).drop_last() =~= first + rest.drop_last());
        assert(body_text(first + rest) =~= body_text(first) + body_text(rest));
    }
}

/// A whole image file: the header, then every pixel line in scan order.
pub open spec fn image_text(width: nat, height: nat, pixels: Seq<ColorBytes>) -> Seq<u8> {
    header_text(width, height) + body_text(pixels)
}

/// Appends the line of one pixel to `out`.
pub fn push_color_line(out: &mut Vec<u8>, c: ColorBytes)
    ensures
        final(out)@ == old(out)@ + color_text(c),
{
    push_signed_decimal(out, c.r);
    out.push(32u8);
    push_signed_decimal(out, c.g);
    out.push(32u8);
    push_signed_decimal(out, c.b);
    out.push(10u8);
    assert(out@ =~= old(out)@ + color_text(c));
}

/// The line of one pixel: its three channels in decimal, separated by
/// single spaces, ended by a newline.
pub fn color_line(c: ColorBytes) -> (line: Vec<u8>)
    ensures
        line@ == color_text(c),
{
    let mut line: Vec<u8> = Vec::new();
    push_color_line(&mut line, c);
    assert(line@ =~= color_text(c));
    line
}

/// The header of a `width` by `height` image with channels up to 255.
pub fn ppm_header(width: u64, height: u64) -> (header: Vec<u8>)
    ensures
        header@ == header_text(width as nat, height as nat),
{
    let mut header: Vec<u8> = Vec::new();
    header.push(80u8);
    header.push(51u8);
    header.push(10u8);
    push_decimal(&mut header, width);
    header.push(32u8);
    push_decimal(&mut header, height);
    header.push(10u8);
    header.push(50u8);
    header.push(53u8);
    header.push(53u8);
    header.push(10u8);
    assert(header@ =~= header_text(width as nat, height as nat));
    header
}

/// The whole image file for `pixels`, which hold the colours of a `width`
/// by `height` grid in scan order (top row first, each row left to right).
pub fn encode_image(width: u64, height: u64, pixels: &Vec<ColorBytes>) -> (bytes: Vec<u8>)
    requires
        pixels.len() == width * height,
    ensures
        bytes@ == image_text(width as nat, height as nat, pixels@),
{
    let mut bytes = ppm_header(width, height);
    let mut i: usize = 0;
    while i < pixels.len()
        invariant
            i <= pixels.len(),
            bytes@ == header_text(width as nat, height as nat) + body_text(pixels@.take(i as int)),
        decreases pixels.len() - i,
    {
        push_color_line(&mut bytes, pixels[i]);
        proof {
            let next = pixels@.take(i + 1);
            assert(next.drop_last() =~= pixels@.take(i as int));
            assert(bytes@ =~= header_text(width as nat, height as nat) + body_text(next));
        }
        i = i + 1;
    }
    assert(pixels@.take(pixels.len() as int) =~= pixels@);
    bytes
}

} // verus!
