//! Decoded planar frames: one luma plane and, unless the stream is
//! monochrome, two chroma planes.

use vstd::prelude::*;
use crate::stream::{ChromaLayout, SampleWidth};

verus! {

/// The samples of one plane, row after row, in the container they were
/// decoded into.
#[derive(Debug)]
pub enum Samples {
    /// One byte per sample.
    Narrow(Vec<u8>),
    /// Two bytes per sample.
    Wide(Vec<u16>),
}

impl Samples {
    /// Number of samples held.
    pub open spec fn spec_len(&self) -> nat {
        match self {
            Samples::Narrow(bytes) => bytes@.len(),
            Samples::Wide(words) => words@.len(),
        }
    }

    /// The sample at `index`, widened to 16 bits.
    pub open spec fn spec_value(&self, index: int) -> u16 {
        match self {
            Samples::Narrow(bytes) => bytes@[index] as u16,
            Samples::Wide(words) => words@[index],
        }
    }

    /// The container the samples are held in.
    pub open spec fn spec_width(&self) -> SampleWidth {
        match self {
            Samples::Narrow(_) => SampleWidth::Narrow,
            Samples::Wide(_) => SampleWidth::Wide,
        }
    }

    /// Number of samples held.
    pub fn len(&self) -> (count: usize)
        ensures
            count == self.spec_len(),
    {
        match self {
            Samples::Narrow(bytes) => bytes.len(),
            Samples::Wide(words) => words.len(),
        }
    }

    /// The sample at `index`, widened to 16 bits.
    pub fn value(&self, index: usize) -> (sample: u16)
        requires
            index < self.spec_len(),
        ensures
            sample == self.spec_value(index as int),
            self.spec_width() == SampleWidth::Narrow ==> sample < 256,
    {
        match self {
            Samples::Narrow(bytes) => bytes[index] as u16,
            Samples::Wide(words) => words[index],
        }
    }

    /// The container the samples are held in.
    #[verifier::when_used_as_spec(spec_width)]
    pub fn width(&self) -> (width: SampleWidth)
        ensures
            width == self.spec_width(),
    {
        match self {
            Samples::Narrow(_) => SampleWidth::Narrow,
            Samples::Wide(_) => SampleWidth::Wide,
        }
    }
}

/// One sample as it was read from a plane: its value, widened to 16 bits,
/// and the container it was held in.
#[derive(Clone, Copy, Debug, PartialEq, Eq, Structural)]
pub struct Reading {
    pub value: u16,
    pub width: SampleWidth,
}

/// One two-dimensional sample plane.
///
/// Rows lie `stride` samples apart, and the first `width` samples of each of
/// the `height` rows are the picture. A plane always holds all of its rows:
/// `width <= stride` and `stride * height <= samples.len()`.
#[derive(Debug)]
pub struct Plane {
    width: usize,
    height: usize,
    stride: usize,
    samples: Samples,
}

/// Whether rows of `width` samples, `stride` apart, `height` of them, lie
/// within `len` samples.
pub open spec fn plane_shape(width: int, height: int, stride: int, len: int) -> bool {
    width <= stride && stride * height <= len
}

impl Plane {
    #[verifier::type_invariant]
    spec fn holds_its_rows(self) -> bool {
        plane_shape(
            self.width as int,
            self.height as int,
            self.stride as int,
            self.samples.spec_len() as int,
        )
    }

    /// Width of the picture in samples.
    pub closed spec fn spec_width(&self) -> usize {
        self.width
    }

    /// Height of the picture in rows.
    pub closed spec fn spec_height(&self) -> usize {
        self.height
    }

    /// Distance between the starts of two rows, in samples.
    pub closed spec fn spec_stride(&self) -> usize {
        self.stride
    }

    /// The samples of the plane.
    pub closed spec fn spec_samples(&self) -> Samples {
        self.samples
    }

    /// Position, among the samples, of column `x` in row `y`.
    pub open spec fn offset(&self, x: int, y: int) -> int {
        y * self.spec_stride() + x
    }

    /// Whether the plane holds a sample for column `x` of row `y`. Rows are
    /// addressed by the stride alone, so a column past the width reads on into
    /// the padding of its row and from there into the following row.
    pub open spec fn holds(&self, x: int, y: int) -> bool {
        0 <= x && 0 <= y && self.offset(x, y) < self.spec_samples().spec_len()
    }

    /// The sample at column `x` of row `y`, widened to 16 bits.
    pub open spec fn at(&self, x: int, y: int) -> u16 {
        self.spec_samples().spec_value(self.offset(x, y))
    }

    /// The sample at column `x` of row `y`, with the container it is held in.
    pub open spec fn reading(&self, x: int, y: int) -> Reading {
        Reading { value: self.at(x, y), width: self.spec_samples().spec_width() }
    }

    /// Makes a plane. Fails exactly when the samples do not hold `height`
    /// rows of `stride` samples, or when a row is wider than the stride.
    pub fn new(width: usize, height: usize, stride: usize, samples: Samples) -> (made: Option<Plane>)
        ensures
            plane_shape(width as int, height as int, stride as int, samples.spec_len() as int)
                <==> made is Some,
            made matches Some(plane) ==> {
                &&& plane.spec_width() == width
                &&& plane.spec_height() == height
                &&& plane.spec_stride() == stride
                &&& plane.spec_samples() == samples
            },
    {
        if width > stride {
            return None;
        }
        let len = samples.len();
        match stride.checked_mul(height) {
            Some(needed) => {
                if needed <= len {
                    Some(Plane { width, height, stride, samples })
                } else {
                    None
                }
            },
            None => None,
        }
    }

    /// Makes a plane whose rows follow each other without padding.
    pub fn packed(width: usize, height: usize, samples: Samples) -> (made: Option<Plane>)
        ensures
            width * height <= samples.spec_len() <==> made is Some,
            made matches Some(plane) ==> {
                &&& plane.spec_width() == width
                &&& plane.spec_height() == height
                &&& plane.spec_stride() == width
                &&& plane.spec_samples() == samples
            },
    {
        Plane::new(width, height, width, samples)
    }

    /// Width of the picture in samples.
    #[verifier::when_used_as_spec(spec_width)]
    pub fn width(&self) -> (width: usize)
        ensures
            width == self.spec_width(),
    {
        self.width
    }

    /// Height of the picture in rows.
    #[verifier::when_used_as_spec(spec_height)]
    pub fn height(&self) -> (height: usize)
        ensures
            height == self.spec_height(),
    {
        self.height
    }

    /// Distance between the starts of two rows, in samples.
    #[verifier::when_used_as_spec(spec_stride)]
    pub fn stride(&self) -> (stride: usize)
        ensures
            stride == self.spec_stride(),
            plane_shape(
                self.spec_width() as int,
                self.spec_height() as int,
                stride as int,
                self.spec_samples().spec_len() as int,
            ),
    {
        proof {
            use_type_invariant(self);
        }
        self.stride
    }

    /// The samples of the plane.
    pub fn samples(&self) -> (samples: &Samples)
        ensures
            *samples == self.spec_samples(),
    {
        &self.samples
    }

    /// Reads the sample at column `x` of row `y`.
    pub fn read(&self, x: usize, y: usize) -> (reading: Reading)
        requires
            self.holds(x as int, y as int),
        ensures
            reading == self.reading(x as int, y as int),
    {
        let len = self.samples.len();
        assert(0 <= y * self.stride <= y * self.stride + x) by (nonlinear_arith)
            requires
                0 <= x,
                0 <= y,
                0 <= self.stride,
        ;
        let offset = y * self.stride + x;
        Reading { value: self.samples.value(offset), width: self.samples.width() }
    }
}

/// Every pixel of the picture lies within the samples of a plane that holds
/// its rows.
pub proof fn lemma_picture_within_samples(
    width: int,
    height: int,
    stride: int,
    len: int,
    x: int,
    y: int,
)
    requires
        plane_shape(width, height, stride, len),
        0 <= x < width,
        0 <= y < height,
    ensures
        0 <= y * stride + x < len,
{
    assert(y * stride + x < stride * height && 0 <= y * stride) by (nonlinear_arith)
        requires
            0 <= x < width,
            0 <= y < height,
            width <= stride,
    ;
}

/// One decoded frame.
#[derive(Debug)]
pub struct DecodedFrame {
    /// The luma plane, at full resolution.
    pub luma: Plane,
    /// The two chroma planes, U then V; absent for a monochrome stream.
    pub chroma: Option<(Plane, Plane)>,
}

} // verus!
