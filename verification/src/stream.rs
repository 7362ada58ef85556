//! Stream-level properties of a decoded video: dimensions, bit depth and
//! chroma layout.

use vstd::prelude::*;
use crate::error::Error;

verus! {

/// How the chroma planes of a stream are subsampled relative to luma.
#[derive(Clone, Copy, Debug, PartialEq, Eq, Structural)]
pub enum ChromaLayout {
    /// Luma only.
    Mono,
    /// 4:2:0: a chroma sample is looked up at half the column and half the row.
    Cs420,
    /// 4:2:2: a chroma sample is looked up at the column itself and half the row.
    Cs422,
    /// 4:4:4: a chroma sample is looked up at the column and the row themselves.
    Cs444,
}

/// The sample container a stream has to be read with.
#[derive(Clone, Copy, Debug, PartialEq, Eq, Structural)]
pub enum SampleWidth {
    /// One byte per sample: 8-bit streams.
    Narrow,
    /// Two bytes per sample: everything deeper than 8 bits.
    Wide,
}

/// The bit depths a stream may declare.
pub open spec fn supported_bit_depth(bit_depth: int) -> bool {
    bit_depth == 8 || bit_depth == 10 || bit_depth == 12 || bit_depth == 16
}

impl ChromaLayout {
    /// The pair of right-shifts (columns, rows) that lead from a luma
    /// coordinate to its chroma sample; `None` for a layout without chroma.
    pub open spec fn spec_chroma_shifts(self) -> Option<(u32, u32)> {
        match self {
            ChromaLayout::Mono => None,
            ChromaLayout::Cs420 => Some((1, 1)),
            ChromaLayout::Cs422 => Some((0, 1)),
            ChromaLayout::Cs444 => Some((0, 0)),
        }
    }

    /// Right-shift applied to a luma column to find the paired chroma column.
    pub open spec fn shift_x(self) -> int {
        match self.spec_chroma_shifts() {
            Some((columns, _)) => columns as int,
            None => 0,
        }
    }

    /// Right-shift applied to a luma row to find the paired chroma row.
    pub open spec fn shift_y(self) -> int {
        match self.spec_chroma_shifts() {
            Some((_, rows)) => rows as int,
            None => 0,
        }
    }

    /// The pair of right-shifts (columns, rows) that lead from a luma
    /// coordinate to its chroma sample; `None` for a layout without chroma.
    #[verifier::when_used_as_spec(spec_chroma_shifts)]
    pub fn chroma_shifts(self) -> (shifts: Option<(u32, u32)>)
        ensures
            shifts == self.spec_chroma_shifts(),
    {
        match self {
            ChromaLayout::Mono => None,
            ChromaLayout::Cs420 => Some((1, 1)),
            ChromaLayout::Cs422 => Some((0, 1)),
            ChromaLayout::Cs444 => Some((0, 0)),
        }
    }
}

/// A bit depth a stream may declare.
#[derive(Clone, Copy, Debug, PartialEq, Eq, Structural)]
pub enum BitDepth {
    Depth8,
    Depth10,
    Depth12,
    Depth16,
}

impl BitDepth {
    /// Number of bits per sample.
    pub open spec fn spec_bits(self) -> usize {
        match self {
            BitDepth::Depth8 => 8,
            BitDepth::Depth10 => 10,
            BitDepth::Depth12 => 12,
            BitDepth::Depth16 => 16,
        }
    }

    /// Number of bits a wide sample is shifted right by to reach 8 bits.
    pub open spec fn spec_narrowing_shift(self) -> u32 {
        (self.spec_bits() - 8) as u32
    }

    /// The sample container a stream of this depth is read with.
    pub open spec fn spec_sample_width(self) -> SampleWidth {
        if self.spec_bits() == 8 {
            SampleWidth::Narrow
        } else {
            SampleWidth::Wide
        }
    }

    /// The depth of `bits` bits per sample, if it is one of 8, 10, 12 and 16.
    pub fn from_bits(bits: usize) -> (depth: Option<BitDepth>)
        ensures
            supported_bit_depth(bits as int) <==> depth is Some,
            depth matches Some(d) ==> d.spec_bits() == bits,
    {
        if bits == 8 {
            Some(BitDepth::Depth8)
        } else if bits == 10 {
            Some(BitDepth::Depth10)
        } else if bits == 12 {
            Some(BitDepth::Depth12)
        } else if bits == 16 {
            Some(BitDepth::Depth16)
        } else {
            None
        }
    }

    /// Number of bits per sample.
    #[verifier::when_used_as_spec(spec_bits)]
    pub fn bits(self) -> (bits: usize)
        ensures
            bits == self.spec_bits(),
            supported_bit_depth(bits as int),
    {
        match self {
            BitDepth::Depth8 => 8,
            BitDepth::Depth10 => 10,
            BitDepth::Depth12 => 12,
            BitDepth::Depth16 => 16,
        }
    }

    /// Number of bits a wide sample is shifted right by to reach 8 bits: the
    /// depth less 8.
    #[verifier::when_used_as_spec(spec_narrowing_shift)]
    pub fn narrowing_shift(self) -> (shift: u32)
        ensures
            shift == self.spec_narrowing_shift(),
            shift == self.spec_bits() - 8,
    {
        match self {
            BitDepth::Depth8 => 0,
            BitDepth::Depth10 => 2,
            BitDepth::Depth12 => 4,
            BitDepth::Depth16 => 8,
        }
    }

    /// The sample container a stream of this depth is read with: one byte per
    /// sample at 8 bits, two bytes for everything deeper.
    #[verifier::when_used_as_spec(spec_sample_width)]
    pub fn sample_width(self) -> (width: SampleWidth)
        ensures
            width == self.spec_sample_width(),
    {
        match self {
            BitDepth::Depth8 => SampleWidth::Narrow,
            _ => SampleWidth::Wide,
        }
    }
}

/// Immutable description of one stream, produced once when it is opened.
#[derive(Clone, Copy, Debug, PartialEq, Eq, Structural)]
pub struct StreamDescriptor {
    /// Width in pixels.
    pub width: usize,
    /// Height in pixels.
    pub height: usize,
    /// Bits per sample.
    pub bit_depth: BitDepth,
    /// Subsampling of the chroma planes.
    pub chroma_layout: ChromaLayout,
}

impl StreamDescriptor {
    /// Describes a stream. Fails exactly when the bit depth is not one of
    /// 8, 10, 12 and 16.
    pub fn new(width: usize, height: usize, bit_depth: usize, chroma_layout: ChromaLayout) -> (made:
        Result<StreamDescriptor, Error>)
        ensures
            supported_bit_depth(bit_depth as int) <==> made is Ok,
            made matches Ok(d) ==> d.width == width && d.height == height && d.bit_depth.spec_bits()
                == bit_depth && d.chroma_layout == chroma_layout,
            made matches Err(e) ==> e == Error::UnsupportedBitDepth,
    {
        match BitDepth::from_bits(bit_depth) {
            Some(depth) => Ok(StreamDescriptor { width, height, bit_depth: depth, chroma_layout }),
            None => Err(Error::UnsupportedBitDepth),
        }
    }
}

/// Two streams can be compared only when they agree in width and height.
pub open spec fn same_dimensions(first: &StreamDescriptor, second: &StreamDescriptor) -> bool {
    first.width == second.width && first.height == second.height
}

/// Checks, once and before any frame is pulled, that two streams agree in
/// width and height. Bit depth and chroma layout are free to differ.
pub fn check_dimensions(first: &StreamDescriptor, second: &StreamDescriptor) -> (checked: Result<
    (),
    Error,
>)
    ensures
        same_dimensions(first, second) <==> checked is Ok,
        checked matches Err(e) ==> e == Error::DimensionMismatch,
{
    if first.width == second.width && first.height == second.height {
        Ok(())
    } else {
        Err(Error::DimensionMismatch)
    }
}

} // verus!
