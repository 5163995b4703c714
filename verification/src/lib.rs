//! Decoder and geometry builder for binary curve collection (BCC) files:
//! collections of piecewise Catmull-Rom curves with uniform parameterization
//! in 3d space, stored with 4-byte integers and 4-byte floats.
//!
//! Floating-point control points are carried as their IEEE 754 bit patterns
//! (`u32`), so every value round-trips exactly; hosts convert bits to floats
//! at the boundary.

use vstd::prelude::*;

pub mod bytes;
pub mod mesh;
pub mod reader;
pub mod writer;

verus! {

/// First byte of the required signature: ASCII `B`.
pub const SIGNATURE_0: u8 = 0x42;

/// Second byte of the required signature: ASCII `C`.
pub const SIGNATURE_1: u8 = 0x43;

/// Third byte of the required signature: ASCII `C`.
pub const SIGNATURE_2: u8 = 0x43;

/// The required precision byte: 4-byte integers (high nibble) and 4-byte
/// floats (low nibble).
pub const PRECISION_BYTE: u8 = 0x44;

/// First byte of the required curve-type code: ASCII `C`.
pub const CURVE_TYPE_0: u8 = 0x43;

/// Second byte of the required curve-type code: ASCII `0`.
pub const CURVE_TYPE_1: u8 = 0x30;

/// Errors that can happen while parsing a [`BinaryCurveCollection`].
#[derive(Clone, Copy, Debug, PartialEq, Eq, Structural)]
pub enum BinaryCurveCollectionParserError {
    /// The signature was not `BCC`.
    InvalidSignature,
    /// The precision byte was not 0x44 (4-byte integers, 4-byte floats).
    InvalidPrecision,
    /// The curve type was not `C0` (Catmull-Rom with uniform parameterization).
    InvalidCurve,
    /// The up direction was not `1` (Y up) or `2` (Z up).
    InvalidUpDirection,
    /// The number of curves does not fit in the host's addressable size.
    TooManyCurves,
    /// The number of control points does not fit in the host's addressable size.
    TooManyControlPoints,
    /// The byte source ended before the collection was fully read.
    Io,
    /// The per-curve point counts do not add up to the declared control-point
    /// count.
    CorruptData,
}

/// Mathematical model of a [`BinaryCurveCollectionHeader`].
pub ghost struct HeaderV {
    pub signature: Seq<u8>,
    pub precision: u8,
    pub curve: Seq<u8>,
    pub dimensions: u8,
    pub up_direction: u8,
    pub number_of_curves: u64,
    pub number_of_control_points: u64,
    pub file_information: Seq<u8>,
}

impl HeaderV {
    /// What parsing guarantees of every header it returns: the fixed fields
    /// carry their required values, the up direction is known, and both
    /// counts fit in the host's addressable size.
    pub open spec fn wf(self) -> bool {
        &&& self.signature == seq![SIGNATURE_0, SIGNATURE_1, SIGNATURE_2]
        &&& self.precision == PRECISION_BYTE
        &&& self.curve == seq![CURVE_TYPE_0, CURVE_TYPE_1]
        &&& self.up_direction == 1 || self.up_direction == 2
        &&& self.file_information.len() == 40
        &&& self.number_of_curves <= usize::MAX
        &&& self.number_of_control_points <= usize::MAX
    }
}

/// Header of a [`BinaryCurveCollection`].
#[derive(Clone, Debug)]
pub struct BinaryCurveCollectionHeader {
    /// Signature of the file. Must be `BCC`. Three bytes.
    pub signature: Vec<u8>,
    /// Precision of the curves. The high nibble is the integer width, the low
    /// nibble the float width; both must be 4.
    pub precision: u8,
    /// Type of curve. Two bytes.
    ///
    /// * `C0`: Catmull-Rom curves with uniform parameterization
    pub curve: Vec<u8>,
    /// Number of dimensions. Should always be 3.
    pub dimensions: u8,
    /// Up direction
    ///
    /// * `1`: Y
    /// * `2`: Z
    pub up_direction: u8,
    /// Number of curves
    pub number_of_curves: u64,
    /// Number of control points
    pub number_of_control_points: u64,
    /// File information in ASCII, NUL-padded. Forty bytes.
    pub file_information: Vec<u8>,
}

impl View for BinaryCurveCollectionHeader {
    type V = HeaderV;

    open spec fn view(&self) -> HeaderV {
        HeaderV {
            signature: self.signature@,
            precision: self.precision,
            curve: self.curve@,
            dimensions: self.dimensions,
            up_direction: self.up_direction,
            number_of_curves: self.number_of_curves,
            number_of_control_points: self.number_of_control_points,
            file_information: self.file_information@,
        }
    }
}

impl BinaryCurveCollectionHeader {
    /// Get the dimensions of the curves.
    ///
    /// Should always be 3.
    pub fn dimensions(&self) -> (r: u8)
        ensures
            r == self@.dimensions,
    {
        self.dimensions
    }

    /// Get the number of curves in the collection.
    pub fn number_of_curves(&self) -> (r: u64)
        ensures
            r == self@.number_of_curves,
    {
        self.number_of_curves
    }

    /// Get the number of control points in the collection, over all curves.
    pub fn number_of_control_points(&self) -> (r: u64)
        ensures
            r == self@.number_of_control_points,
    {
        self.number_of_control_points
    }

    /// Get the up direction: `1` for Y up, `2` for Z up.
    pub fn up_direction(&self) -> (r: u8)
        ensures
            r == self@.up_direction,
    {
        self.up_direction
    }

    /// Get the free-form file information: 40 bytes of NUL-padded ASCII.
    pub fn file_information(&self) -> (r: &Vec<u8>)
        ensures
            r@ == self@.file_information,
    {
        &self.file_information
    }
}

/// A list of offsets as mathematical integers.
pub open spec fn usize_as_ints(s: Seq<usize>) -> Seq<int> {
    s.map_values(|x: usize| x as int)
}

pub proof fn lemma_usize_as_ints_push(s: Seq<usize>, x: usize)
    ensures
        usize_as_ints(s.push(x)) == usize_as_ints(s).push(x as int),
{
    assert(usize_as_ints(s.push(x)) =~= usize_as_ints(s).push(x as int));
}

/// Mathematical model of a [`BinaryCurveCollection`].
pub ghost struct CollectionV {
    pub header: HeaderV,
    pub looping: Seq<bool>,
    pub first_control_points: Seq<int>,
    pub control_points: Seq<u32>,
}

impl CollectionV {
    /// The invariant every decoded collection satisfies: one looping flag per
    /// curve, one more offset than curves, offsets starting at zero and
    /// non-decreasing, the last offset equal to the declared control-point
    /// count, and three stored values per control point.
    pub open spec fn wf(self) -> bool {
        &&& self.header.wf()
        &&& self.looping.len() == self.header.number_of_curves
        &&& self.first_control_points.len() == self.looping.len() + 1
        &&& self.first_control_points[0] == 0
        &&& forall|i: int|
            0 <= i < self.looping.len() ==> #[trigger] self.first_control_points[i]
                <= self.first_control_points[i + 1]
        &&& forall|i: int|
            0 <= i < self.first_control_points.len() ==> #[trigger] self.first_control_points[i]
                <= self.header.number_of_control_points
        &&& self.first_control_points[self.looping.len() as int]
            == self.header.number_of_control_points
        &&& self.control_points.len() == 3 * self.header.number_of_control_points
    }
}

/// A collection of curves.
///
/// Curves can only be represented by Catmull-Rom curves with uniform
/// parameterization in 3d space with 4-byte integer and 4-byte float
/// precision. Each control-point component is stored as the bit pattern of
/// the IEEE 754 single-precision value read from the file.
#[derive(Clone, Debug)]
pub struct BinaryCurveCollection {
    /// Header of the collection
    pub header: BinaryCurveCollectionHeader,
    /// Flag if curve N is looping. This list has length
    /// [`number_of_curves`](BinaryCurveCollectionHeader::number_of_curves).
    pub looping: Vec<bool>,
    /// Index of the first control point of each curve. This list has length
    /// [`number_of_curves`](BinaryCurveCollectionHeader::number_of_curves) + 1.
    pub first_control_points: Vec<usize>,
    /// Control points, three values per point, as float bit patterns.
    pub control_points: Vec<u32>,
}

impl View for BinaryCurveCollection {
    type V = CollectionV;

    open spec fn view(&self) -> CollectionV {
        CollectionV {
            header: self.header@,
            looping: self.looping@,
            first_control_points: usize_as_ints(self.first_control_points@),
            control_points: self.control_points@,
        }
    }
}

impl BinaryCurveCollection {
    /// Get the header of the [`BinaryCurveCollection`].
    pub fn header(&self) -> (r: &BinaryCurveCollectionHeader)
        ensures
            r@ == self@.header,
    {
        &self.header
    }

    /// Check if the Nth curve is looping. This accepts values for N from
    /// 0 through [`number_of_curves`](BinaryCurveCollectionHeader::number_of_curves)
    /// exclusive; anything beyond gives `None`.
    pub fn looping(&self, n: usize) -> (r: Option<bool>)
        ensures
            r == if n < self@.looping.len() {
                Some(self@.looping[n as int])
            } else {
                None::<bool>
            },
    {
        if n < self.looping.len() {
            Some(self.looping[n])
        } else {
            None
        }
    }

    /// Get the first control point of the Nth curve. This accepts values for N
    /// from 0 through [`number_of_curves`](BinaryCurveCollectionHeader::number_of_curves)
    /// inclusive; anything beyond gives `None`.
    pub fn first_control_point(&self, n: usize) -> (r: Option<usize>)
        ensures
            r == if n < self@.first_control_points.len() {
                Some(self.first_control_points@[n as int])
            } else {
                None::<usize>
            },
    {
        if n < self.first_control_points.len() {
            Some(self.first_control_points[n])
        } else {
            None
        }
    }

    /// Get the control points of the [`BinaryCurveCollection`].
    ///
    /// The returned list is flattened: each control point contributes three
    /// consecutive values, the bit patterns of its x, y and z components.
    pub fn control_points(&self) -> (r: &Vec<u32>)
        ensures
            r@ == self@.control_points,
    {
        &self.control_points
    }
}

/// Loader tag for hosts that read `bcc` files from an asset pipeline. The
/// decoding itself is [`BinaryCurveCollection::parse`]; a host wires this
/// name and [`extensions`](Self::extensions) into its own loader machinery.
pub struct BinaryCurveCollectionAssetLoader;

impl BinaryCurveCollectionAssetLoader {
    /// The file extensions the loader answers for.
    pub fn extensions(&self) -> (r: Vec<&'static str>)
        ensures
            r@.len() == 1,
            r@[0]@ == "bcc"@,
    {
        let mut r: Vec<&'static str> = Vec::new();
        r.push("bcc");
        r
    }
}

} // verus!
