//! Conversion of a decoded planar frame into an interleaved RGB raster.
//!
//! The raster has the dimensions of the luma plane and holds, row after row,
//! one (R, G, B) triple per pixel. Its channels are bytes in narrow output
//! mode and 16-bit words in wide output mode; the mode is the channel type the
//! caller asks for. The conversion is a function of the frame, the stream
//! descriptor and the colorimetry standard alone: the same frame always
//! yields the same raster.

use vstd::prelude::*;
use vstd::arithmetic::div_mod::lemma_fundamental_div_mod_converse;
use vstd::arithmetic::mul::lemma_mul_is_commutative;
use yuv::color::{Depth, MatrixCoefficients, Range};
use yuv::convert::RGBConvert;
use yuv::YUV;
use crate::frame::{lemma_picture_within_samples, plane_shape, DecodedFrame, Plane, Reading};
use crate::stream::{BitDepth, ChromaLayout, SampleWidth, StreamDescriptor};

verus! {

/// The luma/chroma-to-RGB matrix standard of a conversion.
#[derive(Clone, Copy, Debug, PartialEq, Eq, Structural)]
pub enum Colorimetry {
    /// The standard-definition matrix.
    Bt601,
    /// The high-definition matrix.
    Bt709,
}

/// Tallest frame that is still taken for standard definition.
pub const SD_MAX_HEIGHT: usize = 576;

/// The standard chosen for a frame of the given height: high definition
/// above 576 rows, standard definition up to and including 576.
pub open spec fn colorimetry_for_height(height: int) -> Colorimetry {
    if height > SD_MAX_HEIGHT {
        Colorimetry::Bt709
    } else {
        Colorimetry::Bt601
    }
}

/// Chooses the colorimetry standard from the height of a frame.
pub fn select_colorimetry(height: usize) -> (standard: Colorimetry)
    ensures
        standard == colorimetry_for_height(height as int),
{
    if height > SD_MAX_HEIGHT {
        Colorimetry::Bt709
    } else {
        Colorimetry::Bt601
    }
}

/// A sample brought to 8 bits: a narrow sample as it is, a wide sample
/// shifted right by the bits the stream's depth has beyond 8. Only the low
/// byte of the result is kept, so a wide sample that exceeds the depth wraps.
pub open spec fn narrowed(reading: Reading, depth: BitDepth) -> u8 {
    match reading.width {
        SampleWidth::Narrow => reading.value as u8,
        SampleWidth::Wide => (reading.value >> depth.narrowing_shift()) as u8,
    }
}

/// Brings a sample to 8 bits.
pub fn narrow(reading: Reading, depth: BitDepth) -> (byte: u8)
    ensures
        byte == narrowed(reading, depth),
{
    match reading.width {
        SampleWidth::Narrow => #[verifier::truncate]
        (reading.value as u8),
        SampleWidth::Wide => #[verifier::truncate]
        ((reading.value >> depth.narrowing_shift()) as u8),
    }
}

/// A luma coordinate brought to the chroma grid: halved when the axis is
/// subsampled (`shift` 1), kept otherwise.
pub open spec fn subsampled(coordinate: int, shift: int) -> int {
    if shift == 1 {
        coordinate / 2
    } else {
        coordinate
    }
}

/// Brings a luma coordinate to the chroma grid.
fn subsample(coordinate: usize, shift: u32) -> (at: usize)
    requires
        shift <= 1,
    ensures
        at == subsampled(coordinate as int, shift as int),
{
    assert(coordinate >> 0u32 == coordinate) by (bit_vector);
    assert(coordinate >> 1u32 == coordinate / 2) by (bit_vector);
    coordinate >> shift
}

/// What the limited-range 8-bit converter of the `yuv` crate makes of one
/// (Y, U, V) triple under the given standard.
pub uninterp spec fn limited_range_rgb(standard: Colorimetry, y: u8, u: u8, v: u8) -> (u8, u8, u8);

/// What the limited-range 16-bit converter of the `yuv` crate makes of one
/// (Y, U, V) triple of the given bit depth under the given standard.
pub uninterp spec fn limited_range_rgb16(
    standard: Colorimetry,
    depth: BitDepth,
    y: u16,
    u: u16,
    v: u16,
) -> (u16, u16, u16);

/// Converts one limited-range 8-bit (Y, U, V) triple to (R, G, B).
///
/// Calls `yuv::convert::RGBConvert::<u8>::new` with `Range::Limited` and the
/// matrix coefficients of the standard, then `RGBConvert::to_rgb` on the
/// triple. `new` accepts both matrices this library knows, and `to_rgb` is a
/// fixed computation on its operands; the contract claims no more than that
/// the result is a function of the standard and the triple.
#[verifier::external_body]
fn matrix_rgb(standard: Colorimetry, y: u8, u: u8, v: u8) -> (rgb: (u8, u8, u8))
    ensures
        rgb == limited_range_rgb(standard, y, u, v),
{
    let coefficients = match standard {
        Colorimetry::Bt601 => MatrixCoefficients::BT601,
        Colorimetry::Bt709 => MatrixCoefficients::BT709,
    };
    let converter = RGBConvert::<u8>::new(Range::Limited, coefficients).unwrap();
    let rgb = converter.to_rgb(YUV { y, u, v });
    (rgb.r, rgb.g, rgb.b)
}

/// Converts one limited-range (Y, U, V) triple of the given bit depth to a
/// 16-bit (R, G, B) triple.
///
/// Calls `yuv::convert::RGBConvert::<u16>::new` with `Range::Limited`, the
/// matrix coefficients of the standard and the depth, then
/// `RGBConvert::to_rgb` on the triple. `new` accepts both matrices at all four
/// depths, and `to_rgb` is a fixed computation on its operands; the contract
/// claims no more than that the result is a function of the standard, the
/// depth and the triple.
#[verifier::external_body]
fn matrix_rgb16(standard: Colorimetry, depth: BitDepth, y: u16, u: u16, v: u16) -> (rgb: (
    u16,
    u16,
    u16,
))
    ensures
        rgb == limited_range_rgb16(standard, depth, y, u, v),
{
    let coefficients = match standard {
        Colorimetry::Bt601 => MatrixCoefficients::BT601,
        Colorimetry::Bt709 => MatrixCoefficients::BT709,
    };
    let depth = match depth {
        BitDepth::Depth8 => Depth::Depth8,
        BitDepth::Depth10 => Depth::Depth10,
        BitDepth::Depth12 => Depth::Depth12,
        BitDepth::Depth16 => Depth::Depth16,
    };
    let converter = RGBConvert::<u16>::new(Range::Limited, coefficients, depth).unwrap();
    let rgb = converter.to_rgb(YUV { y, u, v });
    (rgb.r, rgb.g, rgb.b)
}

/// The channel type of a raster, and with it the output mode: `u8` is narrow
/// output, `u16` is wide output.
pub trait Channel: Copy {
    /// The value all three channels of a monochrome pixel take.
    spec fn spec_gray(depth: BitDepth, luma: Reading) -> Self;

    /// The color of a pixel with chroma.
    spec fn spec_color(
        standard: Colorimetry,
        depth: BitDepth,
        luma: Reading,
        u: Reading,
        v: Reading,
    ) -> (Self, Self, Self);

    /// The value all three channels of a monochrome pixel take.
    fn gray(depth: BitDepth, luma: Reading) -> (value: Self)
        ensures
            value == Self::spec_gray(depth, luma),
    ;

    /// The color of a pixel with chroma.
    fn color(standard: Colorimetry, depth: BitDepth, luma: Reading, u: Reading, v: Reading) -> (rgb:
        (Self, Self, Self))
        ensures
            rgb == Self::spec_color(standard, depth, luma, u, v),
    ;
}

/// Narrow output: every sample is brought to 8 bits, and a pixel with chroma
/// goes through the 8-bit limited-range matrix.
impl Channel for u8 {
    open spec fn spec_gray(depth: BitDepth, luma: Reading) -> u8 {
        narrowed(luma, depth)
    }

    open spec fn spec_color(
        standard: Colorimetry,
        depth: BitDepth,
        luma: Reading,
        u: Reading,
        v: Reading,
    ) -> (u8, u8, u8) {
        limited_range_rgb(standard, narrowed(luma, depth), narrowed(u, depth), narrowed(v, depth))
    }

    fn gray(depth: BitDepth, luma: Reading) -> (value: u8) {
        narrow(luma, depth)
    }

    fn color(standard: Colorimetry, depth: BitDepth, luma: Reading, u: Reading, v: Reading) -> (rgb:
        (u8, u8, u8)) {
        matrix_rgb(standard, narrow(luma, depth), narrow(u, depth), narrow(v, depth))
    }
}

/// Wide output: every sample is kept at full precision, and a pixel with
/// chroma goes through the limited-range matrix of the stream's bit depth.
impl Channel for u16 {
    open spec fn spec_gray(depth: BitDepth, luma: Reading) -> u16 {
        luma.value
    }

    open spec fn spec_color(
        standard: Colorimetry,
        depth: BitDepth,
        luma: Reading,
        u: Reading,
        v: Reading,
    ) -> (u16, u16, u16) {
        limited_range_rgb16(standard, depth, luma.value, u.value, v.value)
    }

    fn gray(depth: BitDepth, luma: Reading) -> (value: u16) {
        luma.value
    }

    fn color(standard: Colorimetry, depth: BitDepth, luma: Reading, u: Reading, v: Reading) -> (rgb:
        (u16, u16, u16)) {
        matrix_rgb16(standard, depth, luma.value, u.value, v.value)
    }
}

/// Appends one pixel to a raster: red, then green, then blue.
pub fn push_rgb<T>(raster: &mut Vec<T>, rgb: (T, T, T))
    ensures
        final(raster)@ == old(raster)@.push(rgb.0).push(rgb.1).push(rgb.2),
{
    raster.push(rgb.0);
    raster.push(rgb.1);
    raster.push(rgb.2);
}

/// Whether a chroma plane holds a sample for every pixel of a luma plane of
/// `width` by `height` pixels, at the coordinates the layout pairs it with.
pub open spec fn covers(plane: &Plane, width: int, height: int, layout: ChromaLayout) -> bool {
    forall|x: int, y: int|
        0 <= x < width && 0 <= y < height ==> #[trigger] plane.holds(
            subsampled(x, layout.shift_x()),
            subsampled(y, layout.shift_y()),
        )
}

/// Whether a frame can be converted under a descriptor: unless the stream is
/// monochrome, the frame has chroma planes and both hold a sample for every
/// luma pixel.
pub open spec fn fits(frame: &DecodedFrame, desc: &StreamDescriptor) -> bool {
    desc.chroma_layout != ChromaLayout::Mono ==> {
        &&& frame.chroma matches Some((u_plane, v_plane))
        &&& covers(
            &u_plane,
            frame.luma.width() as int,
            frame.luma.height() as int,
            desc.chroma_layout,
        )
        &&& covers(
            &v_plane,
            frame.luma.width() as int,
            frame.luma.height() as int,
            desc.chroma_layout,
        )
    }
}

/// A chroma plane holds a sample for every luma pixel exactly when it holds
/// one for the last pixel of the last row: no other pixel reads further into
/// the plane.
proof fn lemma_covers_by_corner(plane: &Plane, width: int, height: int, layout: ChromaLayout)
    ensures
        covers(plane, width, height, layout) <==> (width <= 0 || height <= 0 || plane.holds(
            subsampled(width - 1, layout.shift_x()),
            subsampled(height - 1, layout.shift_y()),
        )),
{
    let sx = layout.shift_x();
    let sy = layout.shift_y();
    let stride = plane.spec_stride() as int;
    if width > 0 && height > 0 {
        let far_x = subsampled(width - 1, sx);
        let far_y = subsampled(height - 1, sy);
        if plane.holds(far_x, far_y) {
            assert forall|x: int, y: int| 0 <= x < width && 0 <= y < height implies #[trigger] plane.holds(
                subsampled(x, sx),
                subsampled(y, sy),
            ) by {
                let cx = subsampled(x, sx);
                let cy = subsampled(y, sy);
                assert(0 <= cx <= far_x && 0 <= cy <= far_y);
                assert(cy * stride <= far_y * stride) by (nonlinear_arith)
                    requires
                        0 <= cy <= far_y,
                        0 <= stride,
                ;
            }
        }
        if covers(plane, width, height, layout) {
            assert(plane.holds(subsampled(width - 1, sx), subsampled(height - 1, sy)));
        }
    }
}

/// Whether a chroma plane holds a sample for every pixel of a luma plane of
/// `width` by `height` pixels under the given layout.
pub fn plane_covers(plane: &Plane, width: usize, height: usize, layout: ChromaLayout) -> (ok: bool)
    ensures
        ok == covers(plane, width as int, height as int, layout),
{
    proof {
        lemma_covers_by_corner(plane, width as int, height as int, layout);
    }
    if width == 0 || height == 0 {
        return true;
    }
    let (sx, sy) = match layout.chroma_shifts() {
        Some(shifts) => shifts,
        None => (0, 0),
    };
    let far_x = subsample(width - 1, sx);
    let far_y = subsample(height - 1, sy);
    let len = plane.samples().len();
    match far_y.checked_mul(plane.stride()) {
        Some(row) => match row.checked_add(far_x) {
            Some(offset) => offset < len,
            None => false,
        },
        None => false,
    }
}

/// Whether a frame can be converted under a descriptor.
pub fn frame_fits(frame: &DecodedFrame, desc: &StreamDescriptor) -> (ok: bool)
    ensures
        ok == fits(frame, desc),
{
    let layout = desc.chroma_layout;
    match layout {
        ChromaLayout::Mono => true,
        _ => match &frame.chroma {
            Some((u_plane, v_plane)) => {
                let width = frame.luma.width();
                let height = frame.luma.height();
                plane_covers(u_plane, width, height, layout) && plane_covers(
                    v_plane,
                    width,
                    height,
                    layout,
                )
            },
            None => false,
        },
    }
}

/// The (R, G, B) triple of the pixel at column `x` of row `y`.
///
/// A monochrome stream gives one value, made of its luma sample alone, to all
/// three channels. Any other stream pairs the luma sample with the chroma
/// samples at the subsampled coordinates and puts the three through the
/// limited-range matrix of the standard.
pub open spec fn pixel<T: Channel>(
    frame: &DecodedFrame,
    desc: &StreamDescriptor,
    standard: Colorimetry,
    x: int,
    y: int,
) -> (T, T, T) {
    let luma = frame.luma.reading(x, y);
    match frame.chroma {
        Some((u_plane, v_plane)) if desc.chroma_layout != ChromaLayout::Mono => {
            let cx = subsampled(x, desc.chroma_layout.shift_x());
            let cy = subsampled(y, desc.chroma_layout.shift_y());
            T::spec_color(
                standard,
                desc.bit_depth,
                luma,
                u_plane.reading(cx, cy),
                v_plane.reading(cx, cy),
            )
        },
        _ => {
            let gray = T::spec_gray(desc.bit_depth, luma);
            (gray, gray, gray)
        },
    }
}

/// One channel of a triple: 0 is red, 1 green, 2 blue.
pub open spec fn channel<T>(rgb: (T, T, T), index: int) -> T {
    if index == 0 {
        rgb.0
    } else if index == 1 {
        rgb.1
    } else {
        rgb.2
    }
}

/// The raster of a frame: three channels per luma pixel, rows first.
pub open spec fn raster<T: Channel>(
    frame: &DecodedFrame,
    desc: &StreamDescriptor,
    standard: Colorimetry,
) -> Seq<T> {
    let width = frame.luma.width() as int;
    let height = frame.luma.height() as int;
    Seq::new(
        (3 * (width * height)) as nat,
        |i: int| channel(pixel::<T>(frame, desc, standard, (i / 3) % width, (i / 3) / width), i % 3),
    )
}

/// Where the three channels of the pixel at column `x` of row `y` lie in a
/// raster of `width` by `height` pixels.
proof fn lemma_raster_position(width: int, height: int, x: int, y: int, c: int)
    requires
        0 <= x < width,
        0 <= y < height,
        0 <= c < 3,
    ensures
        0 <= 3 * (y * width + x) + c < 3 * (width * height),
        (3 * (y * width + x) + c) / 3 == y * width + x,
        (3 * (y * width + x) + c) % 3 == c,
        (y * width + x) % width == x,
        (y * width + x) / width == y,
{
    assert(y * width + x < width * height && 0 <= y * width) by (nonlinear_arith)
        requires
            0 <= x < width,
            0 <= y < height,
    ;
    lemma_fundamental_div_mod_converse(3 * (y * width + x) + c, 3, y * width + x, c);
    lemma_fundamental_div_mod_converse(y * width + x, width, y, x);
}

/// Converts a frame to an RGB raster under a given colorimetry standard.
///
/// The raster has exactly the dimensions of the luma plane; neither the frame
/// nor the descriptor is changed.
pub fn to_rgb_with<T: Channel>(
    frame: &DecodedFrame,
    desc: &StreamDescriptor,
    standard: Colorimetry,
) -> (pixels: Vec<T>)
    requires
        fits(frame, desc),
    ensures
        pixels@ == raster::<T>(frame, desc, standard),
{
    let width = frame.luma.width();
    let height = frame.luma.height();
    let depth = desc.bit_depth;
    let shifts = desc.chroma_layout.chroma_shifts();
    let luma_stride = frame.luma.stride();
    let ghost luma_len = frame.luma.spec_samples().spec_len() as int;
    let ghost want = raster::<T>(frame, desc, standard);
    let mut pixels: Vec<T> = Vec::new();
    let mut y: usize = 0;
    while y < height
        invariant
            y <= height,
            width == frame.luma.width(),
            height == frame.luma.height(),
            depth == desc.bit_depth,
            shifts == desc.chroma_layout.chroma_shifts(),
            fits(frame, desc),
            luma_stride == frame.luma.spec_stride(),
            luma_len == frame.luma.spec_samples().spec_len(),
            plane_shape(width as int, height as int, luma_stride as int, luma_len),
            want == raster::<T>(frame, desc, standard),
            pixels@.len() == 3 * (y * width),
            pixels@.len() <= want.len(),
            forall|i: int| 0 <= i < pixels@.len() ==> pixels@[i] == want[i],
        decreases height - y,
    {
        let mut x: usize = 0;
        while x < width
            invariant
                y < height,
                x <= width,
                width == frame.luma.width(),
                height == frame.luma.height(),
                depth == desc.bit_depth,
                shifts == desc.chroma_layout.chroma_shifts(),
                fits(frame, desc),
                luma_stride == frame.luma.spec_stride(),
                luma_len == frame.luma.spec_samples().spec_len(),
                plane_shape(width as int, height as int, luma_stride as int, luma_len),
                want == raster::<T>(frame, desc, standard),
                pixels@.len() == 3 * (y * width + x),
                pixels@.len() <= want.len(),
                forall|i: int| 0 <= i < pixels@.len() ==> pixels@[i] == want[i],
            decreases width - x,
        {
            proof {
                lemma_picture_within_samples(
                    width as int,
                    height as int,
                    luma_stride as int,
                    luma_len,
                    x as int,
                    y as int,
                );
            }
            let luma = frame.luma.read(x, y);
            let rgb = match (&frame.chroma, shifts) {
                (Some((u_plane, v_plane)), Some((sx, sy))) => {
                    let cx = subsample(x, sx);
                    let cy = subsample(y, sy);
                    assert(u_plane.holds(cx as int, cy as int));
                    assert(v_plane.holds(cx as int, cy as int));
                    T::color(standard, depth, luma, u_plane.read(cx, cy), v_plane.read(cx, cy))
                },
                _ => {
                    let gray = T::gray(depth, luma);
                    (gray, gray, gray)
                },
            };
            assert(rgb == pixel::<T>(frame, desc, standard, x as int, y as int));
            let ghost before = pixels@;
            push_rgb(&mut pixels, rgb);
            proof {
                lemma_raster_position(width as int, height as int, x as int, y as int, 0);
                lemma_raster_position(width as int, height as int, x as int, y as int, 1);
                lemma_raster_position(width as int, height as int, x as int, y as int, 2);
                let base = 3 * (y * width + x);
                assert(pixels@.len() == base + 3);
                assert(pixels@[base] == want[base]);
                assert(pixels@[base + 1] == want[base + 1]);
                assert(pixels@[base + 2] == want[base + 2]);
                assert forall|i: int| 0 <= i < pixels@.len() implies pixels@[i] == want[i] by {
                    if i < base {
                        assert(pixels@[i] == before[i]);
                    }
                }
                assert(3 * (y * width + (x + 1)) == base + 3);
            }
            x += 1;
        }
        proof {
            assert(3 * (y * width + width) == 3 * ((y + 1) * width)) by (nonlinear_arith);
        }
        y += 1;
    }
    proof {
        assert(pixels@.len() == want.len()) by {
            lemma_mul_is_commutative(height as int, width as int);
        }
    }
    pixels
}

/// Converts a frame to an RGB raster, with the colorimetry standard chosen
/// from the height of its luma plane.
pub fn to_rgb<T: Channel>(frame: &DecodedFrame, desc: &StreamDescriptor) -> (pixels: Vec<T>)
    requires
        fits(frame, desc),
    ensures
        pixels@ == raster::<T>(frame, desc, colorimetry_for_height(frame.luma.height() as int)),
{
    to_rgb_with(frame, desc, select_colorimetry(frame.luma.height()))
}

/// Converts a frame to an RGB raster if it can be converted under the
/// descriptor, and says so if it cannot.
pub fn to_rgb_checked<T: Channel>(frame: &DecodedFrame, desc: &StreamDescriptor) -> (pixels: Option<
    Vec<T>,
>)
    ensures
        fits(frame, desc) <==> pixels is Some,
        pixels matches Some(made) ==> made@ == raster::<T>(
            frame,
            desc,
            colorimetry_for_height(frame.luma.height() as int),
        ),
{
    if frame_fits(frame, desc) {
        Some(to_rgb(frame, desc))
    } else {
        None
    }
}

/// Converts a frame to an 8-bit RGB raster: narrow output.
pub fn yuv_to_rgb_u8(frame: &DecodedFrame, desc: &StreamDescriptor) -> (pixels: Vec<u8>)
    requires
        fits(frame, desc),
    ensures
        pixels@ == raster::<u8>(frame, desc, colorimetry_for_height(frame.luma.height() as int)),
{
    to_rgb::<u8>(frame, desc)
}

/// Converts a frame to a 16-bit RGB raster: wide output.
pub fn yuv_to_rgb_u16(frame: &DecodedFrame, desc: &StreamDescriptor) -> (pixels: Vec<u16>)
    requires
        fits(frame, desc),
    ensures
        pixels@ == raster::<u16>(frame, desc, colorimetry_for_height(frame.luma.height() as int)),
{
    to_rgb::<u16>(frame, desc)
}

/// The raster holds three channels per luma pixel, and those of the pixel at
/// column `x` of row `y` stand at `3 * (y * width + x)`: red first, then
/// green, then blue.
pub proof fn lemma_raster_pixel<T: Channel>(
    frame: &DecodedFrame,
    desc: &StreamDescriptor,
    standard: Colorimetry,
    x: int,
    y: int,
    c: int,
)
    requires
        0 <= x < frame.luma.width(),
        0 <= y < frame.luma.height(),
        0 <= c < 3,
    ensures
        raster::<T>(frame, desc, standard).len() == 3 * (frame.luma.width() * frame.luma.height()),
        0 <= 3 * (y * frame.luma.width() + x) + c < raster::<T>(frame, desc, standard).len(),
        raster::<T>(frame, desc, standard)[3 * (y * frame.luma.width() + x) + c] == channel(
            pixel::<T>(frame, desc, standard, x, y),
            c,
        ),
{
    lemma_raster_position(frame.luma.width() as int, frame.luma.height() as int, x, y, c);
}

/// A monochrome stream converts to gray: every pixel has the same value in
/// all three channels, made of its luma sample alone, whatever the
/// colorimetry standard. In narrow output that value is the narrowed luma
/// sample, in wide output the luma sample itself.
pub proof fn lemma_mono_is_gray<T: Channel>(
    frame: &DecodedFrame,
    desc: &StreamDescriptor,
    standard: Colorimetry,
    x: int,
    y: int,
    c: int,
)
    requires
        desc.chroma_layout == ChromaLayout::Mono,
        0 <= x < frame.luma.width(),
        0 <= y < frame.luma.height(),
        0 <= c < 3,
    ensures
        raster::<T>(frame, desc, standard)[3 * (y * frame.luma.width() + x) + c] == T::spec_gray(
            desc.bit_depth,
            frame.luma.reading(x, y),
        ),
        u8::spec_gray(desc.bit_depth, frame.luma.reading(x, y)) == narrowed(
            frame.luma.reading(x, y),
            desc.bit_depth,
        ),
        u16::spec_gray(desc.bit_depth, frame.luma.reading(x, y)) == frame.luma.at(x, y),
{
    lemma_raster_pixel::<T>(frame, desc, standard, x, y, c);
}

/// The raster of a monochrome stream does not depend on the colorimetry
/// standard.
pub proof fn lemma_mono_ignores_colorimetry<T: Channel>(
    frame: &DecodedFrame,
    desc: &StreamDescriptor,
    first: Colorimetry,
    second: Colorimetry,
)
    requires
        desc.chroma_layout == ChromaLayout::Mono,
    ensures
        raster::<T>(frame, desc, first) == raster::<T>(frame, desc, second),
{
    assert(raster::<T>(frame, desc, first) =~= raster::<T>(frame, desc, second));
}

/// Whether two frames give a conversion the same to read: luma planes of one
/// size, and at every pixel the same luma sample and, unless the stream is
/// monochrome, the same pair of chroma samples.
pub open spec fn same_readings(
    first: &DecodedFrame,
    second: &DecodedFrame,
    desc: &StreamDescriptor,
) -> bool {
    &&& first.luma.width() == second.luma.width()
    &&& first.luma.height() == second.luma.height()
    &&& first.chroma is Some <==> second.chroma is Some
    &&& forall|x: int, y: int|
        0 <= x < first.luma.width() && 0 <= y < first.luma.height() ==> {
            &&& #[trigger] first.luma.reading(x, y) == second.luma.reading(x, y)
            &&& desc.chroma_layout != ChromaLayout::Mono ==> (first.chroma matches Some(
                (first_u, first_v),
            ) ==> (second.chroma matches Some((second_u, second_v)) ==> {
                let cx = subsampled(x, desc.chroma_layout.shift_x());
                let cy = subsampled(y, desc.chroma_layout.shift_y());
                first_u.reading(cx, cy) == second_u.reading(cx, cy) && first_v.reading(cx, cy)
                    == second_v.reading(cx, cy)
            }))
        }
}

/// The raster is made of the samples a conversion reads and of nothing else:
/// two frames that give it the same to read convert to the same raster,
/// however their planes are padded. Converting one frame twice gives one
/// raster.
pub proof fn lemma_same_readings_same_raster<T: Channel>(
    first: &DecodedFrame,
    second: &DecodedFrame,
    desc: &StreamDescriptor,
    standard: Colorimetry,
)
    requires
        same_readings(first, second, desc),
    ensures
        raster::<T>(first, desc, standard) == raster::<T>(second, desc, standard),
{
    let width = first.luma.width() as int;
    let height = first.luma.height() as int;
    let a = raster::<T>(first, desc, standard);
    let b = raster::<T>(second, desc, standard);
    assert(a.len() == b.len());
    assert forall|i: int| 0 <= i < a.len() implies a[i] == b[i] by {
        let p = i / 3;
        assert(0 <= p < width * height);
        assert(width > 0) by (nonlinear_arith)
            requires
                0 <= p < width * height,
                0 <= width,
        ;
        let x = p % width;
        let y = p / width;
        assert(0 <= y < height) by (nonlinear_arith)
            requires
                0 <= p < width * height,
                0 < width,
                y == p / width,
        ;
        assert(first.luma.reading(x, y) == second.luma.reading(x, y));
    }
    assert(a =~= b);
}

/// Whether every pixel of the frame reads the luma sample `y_value` and,
/// unless the stream is monochrome, the chroma samples `u_value` and
/// `v_value`.
pub open spec fn uniform_frame(
    frame: &DecodedFrame,
    desc: &StreamDescriptor,
    y_value: u16,
    u_value: u16,
    v_value: u16,
) -> bool {
    forall|x: int, y: int|
        0 <= x < frame.luma.width() && 0 <= y < frame.luma.height() ==> {
            &&& #[trigger] frame.luma.at(x, y) == y_value
            &&& desc.chroma_layout != ChromaLayout::Mono ==> (frame.chroma matches Some(
                (u_plane, v_plane),
            ) && u_plane.at(
                subsampled(x, desc.chroma_layout.shift_x()),
                subsampled(y, desc.chroma_layout.shift_y()),
            ) == u_value && v_plane.at(
                subsampled(x, desc.chroma_layout.shift_x()),
                subsampled(y, desc.chroma_layout.shift_y()),
            ) == v_value)
        }
}

/// The one color of a frame whose pixels all read the same samples: gray for
/// a monochrome stream, else what the matrix makes of the triple.
pub open spec fn uniform_color<T: Channel>(
    frame: &DecodedFrame,
    desc: &StreamDescriptor,
    standard: Colorimetry,
    y_value: u16,
    u_value: u16,
    v_value: u16,
) -> (T, T, T) {
    let luma = Reading { value: y_value, width: frame.luma.spec_samples().spec_width() };
    match frame.chroma {
        Some((u_plane, v_plane)) if desc.chroma_layout != ChromaLayout::Mono => T::spec_color(
            standard,
            desc.bit_depth,
            luma,
            Reading { value: u_value, width: u_plane.spec_samples().spec_width() },
            Reading { value: v_value, width: v_plane.spec_samples().spec_width() },
        ),
        _ => {
            let gray = T::spec_gray(desc.bit_depth, luma);
            (gray, gray, gray)
        },
    }
}

/// A frame of one luma value and one pair of chroma values converts to a
/// raster of one color, for every bit depth, every chroma layout and both
/// output modes: each pixel is the color that the standard gives to that
/// triple at that depth.
pub proof fn lemma_uniform_frame_uniform_raster<T: Channel>(
    frame: &DecodedFrame,
    desc: &StreamDescriptor,
    standard: Colorimetry,
    y_value: u16,
    u_value: u16,
    v_value: u16,
    x: int,
    y: int,
    c: int,
)
    requires
        uniform_frame(frame, desc, y_value, u_value, v_value),
        0 <= x < frame.luma.width(),
        0 <= y < frame.luma.height(),
        0 <= c < 3,
    ensures
        raster::<T>(frame, desc, standard)[3 * (y * frame.luma.width() + x) + c] == channel(
            uniform_color::<T>(frame, desc, standard, y_value, u_value, v_value),
            c,
        ),
{
    lemma_raster_pixel::<T>(frame, desc, standard, x, y, c);
    assert(frame.luma.at(x, y) == y_value);
}

/// Whether a sample lies within a bit depth: below 2 to the power of its
/// bits.
pub open spec fn within_depth(value: u16, depth: BitDepth) -> bool {
    match depth {
        BitDepth::Depth8 => value < 256,
        BitDepth::Depth10 => value < 1024,
        BitDepth::Depth12 => value < 4096,
        BitDepth::Depth16 => true,
    }
}

/// What a sample of a bit depth is divided by to reach 8 bits: 2 to the power
/// of the bits the depth has beyond 8.
pub open spec fn narrowing_divisor(depth: BitDepth) -> int {
    match depth {
        BitDepth::Depth8 => 1,
        BitDepth::Depth10 => 4,
        BitDepth::Depth12 => 16,
        BitDepth::Depth16 => 256,
    }
}

/// A wide sample that lies within its stream's bit depth is narrowed without
/// loss of its high bits: the result is the sample divided by 1, 4, 16 or 256.
/// A narrow sample is kept as it is.
pub proof fn lemma_narrowed_within_depth(value: u16, depth: BitDepth)
    ensures
        within_depth(value, depth) ==> narrowed(Reading { value, width: SampleWidth::Wide }, depth)
            == value as int / narrowing_divisor(depth),
        value < 256 ==> narrowed(Reading { value, width: SampleWidth::Narrow }, depth) == value,
{
    assert(value < 256 ==> value as u8 == value) by (bit_vector);
    assert(value < 256 ==> (value >> 0u32) as u8 == value / 1) by (bit_vector);
    assert(value < 1024 ==> (value >> 2u32) as u8 == value / 4) by (bit_vector);
    assert(value < 4096 ==> (value >> 4u32) as u8 == value / 16) by (bit_vector);
    assert((value >> 8u32) as u8 == value / 256) by (bit_vector);
}

} // verus!
