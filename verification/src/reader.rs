//! Reader for a [`BinaryCurveCollection`].
//!
//! [`spec_parse`] is the mathematical model of the file format: it maps every
//! byte sequence either to the collection it encodes or to the exact error the
//! decoder reports. [`BinaryCurveCollection::parse`] is the executable decoder,
//! proved to return precisely what [`spec_parse`] says.

use vstd::prelude::*;

use crate::bytes::{le_u32_at, le_u32_seq, le_u64_at, read_le_u32, read_le_u64};
use crate::{
    lemma_usize_as_ints_push, usize_as_ints, BinaryCurveCollection, BinaryCurveCollectionHeader,
    BinaryCurveCollectionParserError, CollectionV, HeaderV, CURVE_TYPE_0, CURVE_TYPE_1,
    PRECISION_BYTE, SIGNATURE_0, SIGNATURE_1, SIGNATURE_2,
};

verus! {

/// Parses and validates the fixed 64-byte header, field by field in file
/// order: each field is read and checked before the next one is looked at,
/// and a source that ends inside a field gives `Io`.
pub open spec fn spec_parse_header(bytes: Seq<u8>) -> Result<
    HeaderV,
    BinaryCurveCollectionParserError,
> {
    if bytes.len() < 3 {
        Err(BinaryCurveCollectionParserError::Io)
    } else if !(bytes[0] == SIGNATURE_0 && bytes[1] == SIGNATURE_1 && bytes[2] == SIGNATURE_2) {
        Err(BinaryCurveCollectionParserError::InvalidSignature)
    } else if bytes.len() < 4 {
        Err(BinaryCurveCollectionParserError::Io)
    } else if bytes[3] != PRECISION_BYTE {
        Err(BinaryCurveCollectionParserError::InvalidPrecision)
    } else if bytes.len() < 6 {
        Err(BinaryCurveCollectionParserError::Io)
    } else if !(bytes[4] == CURVE_TYPE_0 && bytes[5] == CURVE_TYPE_1) {
        Err(BinaryCurveCollectionParserError::InvalidCurve)
    } else if bytes.len() < 8 {
        Err(BinaryCurveCollectionParserError::Io)
    } else if !(bytes[7] == 1 || bytes[7] == 2) {
        Err(BinaryCurveCollectionParserError::InvalidUpDirection)
    } else if bytes.len() < 64 {
        Err(BinaryCurveCollectionParserError::Io)
    } else {
        Ok(
            HeaderV {
                signature: bytes.subrange(0, 3),
                precision: bytes[3],
                curve: bytes.subrange(4, 6),
                dimensions: bytes[6],
                up_direction: bytes[7],
                number_of_curves: le_u64_at(bytes, 8) as u64,
                number_of_control_points: le_u64_at(bytes, 16) as u64,
                file_information: bytes.subrange(24, 64),
            },
        )
    }
}

/// Whether the signed 32-bit per-curve point count, seen as the unsigned
/// word `w`, is negative, which marks the curve as looping.
pub open spec fn spec_word_looping(w: int) -> bool {
    w >= 0x8000_0000
}

/// The number of control points encoded by the word `w`: the absolute value
/// of `w` read as a signed two's-complement 32-bit integer.
pub open spec fn spec_word_count(w: int) -> int {
    if w >= 0x8000_0000 {
        0x1_0000_0000 - w
    } else {
        w
    }
}

/// Decodes `remaining` per-curve records from `bytes` starting at `pos`,
/// extending the accumulated looping flags, first-control-point offsets and
/// control-point values; `offset` is the running count of points decoded so
/// far. A source that ends inside a record gives `Io`. On success the offsets
/// list receives one final entry: the total number of points decoded.
pub open spec fn spec_decode_curves(
    bytes: Seq<u8>,
    pos: int,
    remaining: nat,
    looping: Seq<bool>,
    first_control_points: Seq<int>,
    control_points: Seq<u32>,
    offset: int,
) -> Result<(Seq<bool>, Seq<int>, Seq<u32>), BinaryCurveCollectionParserError>
    decreases remaining,
{
    if remaining == 0 {
        Ok((looping, first_control_points.push(offset), control_points))
    } else if pos + 4 > bytes.len() {
        Err(BinaryCurveCollectionParserError::Io)
    } else {
        let w = le_u32_at(bytes, pos);
        let count = spec_word_count(w);
        if pos + 4 + 12 * count > bytes.len() {
            Err(BinaryCurveCollectionParserError::Io)
        } else {
            spec_decode_curves(
                bytes,
                pos + 4 + 12 * count,
                (remaining - 1) as nat,
                looping.push(spec_word_looping(w)),
                first_control_points.push(offset),
                control_points + le_u32_seq(bytes, pos + 4, 3 * count),
                offset + count,
            )
        }
    }
}

/// Builds the final collection from a validated header and the outcome of the
/// curve decode: the decoded total must equal the declared control-point
/// count, else the file is corrupt.
pub open spec fn spec_assemble(
    header: HeaderV,
    decoded: Result<(Seq<bool>, Seq<int>, Seq<u32>), BinaryCurveCollectionParserError>,
) -> Result<CollectionV, BinaryCurveCollectionParserError> {
    match decoded {
        Err(e) => Err(e),
        Ok(t) => {
            if t.1[t.1.len() - 1] != header.number_of_control_points {
                Err(BinaryCurveCollectionParserError::CorruptData)
            } else {
                Ok(
                    CollectionV {
                        header,
                        looping: t.0,
                        first_control_points: t.1,
                        control_points: t.2,
                    },
                )
            }
        },
    }
}

/// The file format: what any byte sequence decodes to. The header is
/// validated first; both counts must fit in the host's addressable size; then
/// the per-curve records follow, and their points must add up to the declared
/// control-point count.
pub open spec fn spec_parse(bytes: Seq<u8>) -> Result<
    CollectionV,
    BinaryCurveCollectionParserError,
> {
    match spec_parse_header(bytes) {
        Err(e) => Err(e),
        Ok(h) => {
            if h.number_of_curves > usize::MAX {
                Err(BinaryCurveCollectionParserError::TooManyCurves)
            } else if h.number_of_control_points > usize::MAX {
                Err(BinaryCurveCollectionParserError::TooManyControlPoints)
            } else {
                spec_assemble(
                    h,
                    spec_decode_curves(
                        bytes,
                        64,
                        h.number_of_curves as nat,
                        Seq::empty(),
                        Seq::empty(),
                        Seq::empty(),
                        0,
                    ),
                )
            }
        },
    }
}

impl BinaryCurveCollection {
    /// Parses the bytes of a BCC file into a [`BinaryCurveCollection`].
    ///
    /// The outcome is exactly what [`spec_parse`] assigns to the input: the
    /// collection the bytes encode, or the error at the first offending
    /// field. Every collection returned is well formed; in particular its
    /// first offset is 0 and its last offset equals the declared
    /// control-point count.
    #[verifier::loop_isolation(false)]
    #[verifier::rlimit(60)]
    pub fn parse(bytes: &Vec<u8>) -> (r: Result<Self, BinaryCurveCollectionParserError>)
        ensures
            match r {
                Ok(c) => spec_parse(bytes@) == Ok::<
                    CollectionV,
                    BinaryCurveCollectionParserError,
                >(c@) && c@.wf() && c@.first_control_points[0] == 0
                    && c@.first_control_points[c@.looping.len() as int]
                    == c@.header.number_of_control_points,
                Err(e) => spec_parse(bytes@) == Err::<
                    CollectionV,
                    BinaryCurveCollectionParserError,
                >(e),
            },
    {
        let len: usize = bytes.len();
        if len < 3 {
            return Err(BinaryCurveCollectionParserError::Io);
        }
        if !(bytes[0] == SIGNATURE_0 && bytes[1] == SIGNATURE_1 && bytes[2] == SIGNATURE_2) {
            return Err(BinaryCurveCollectionParserError::InvalidSignature);
        }
        if len < 4 {
            return Err(BinaryCurveCollectionParserError::Io);
        }
        if bytes[3] != PRECISION_BYTE {
            return Err(BinaryCurveCollectionParserError::InvalidPrecision);
        }
        if len < 6 {
            return Err(BinaryCurveCollectionParserError::Io);
        }
        if !(bytes[4] == CURVE_TYPE_0 && bytes[5] == CURVE_TYPE_1) {
            return Err(BinaryCurveCollectionParserError::InvalidCurve);
        }
        if len < 8 {
            return Err(BinaryCurveCollectionParserError::Io);
        }
        let up_direction = bytes[7];
        if !(up_direction == 1 || up_direction == 2) {
            return Err(BinaryCurveCollectionParserError::InvalidUpDirection);
        }
        if len < 64 {
            return Err(BinaryCurveCollectionParserError::Io);
        }
        let dimensions = bytes[6];
        let precision = bytes[3];
        let number_of_curves = read_le_u64(bytes, 8);
        let number_of_control_points = read_le_u64(bytes, 16);

        let ghost header_v = HeaderV {
            signature: bytes@.subrange(0, 3),
            precision: bytes@[3],
            curve: bytes@.subrange(4, 6),
            dimensions: dimensions,
            up_direction: up_direction,
            number_of_curves: number_of_curves,
            number_of_control_points: number_of_control_points,
            file_information: bytes@.subrange(24, 64),
        };
        assert(spec_parse_header(bytes@) == Ok::<HeaderV, BinaryCurveCollectionParserError>(
            header_v,
        ));

        if number_of_curves > usize::MAX as u64 {
            return Err(BinaryCurveCollectionParserError::TooManyCurves);
        }
        let curve_count = number_of_curves as usize;
        if number_of_control_points > usize::MAX as u64 {
            return Err(BinaryCurveCollectionParserError::TooManyControlPoints);
        }
        let declared_control_points = number_of_control_points as usize;

        let ghost decoded = spec_decode_curves(
            bytes@,
            64,
            curve_count as nat,
            Seq::empty(),
            Seq::empty(),
            Seq::empty(),
            0,
        );
        assert(spec_parse(bytes@) == spec_assemble(header_v, decoded));

        let mut signature: Vec<u8> = Vec::new();
        signature.push(bytes[0]);
        signature.push(bytes[1]);
        signature.push(bytes[2]);
        assert(signature@ =~= bytes@.subrange(0, 3));
        let mut curve: Vec<u8> = Vec::new();
        curve.push(bytes[4]);
        curve.push(bytes[5]);
        assert(curve@ =~= bytes@.subrange(4, 6));
        let mut file_information: Vec<u8> = Vec::new();
        let mut j: usize = 24;
        while j < 64
            invariant
                24 <= j <= 64,
                file_information@ == bytes@.subrange(24, j as int),
            decreases 64 - j,
        {
            file_information.push(bytes[j]);
            assert(file_information@ =~= bytes@.subrange(24, j as int + 1));
            j = j + 1;
        }

        let header = BinaryCurveCollectionHeader {
            signature,
            precision,
            curve,
            dimensions,
            up_direction,
            number_of_curves,
            number_of_control_points,
            file_information,
        };
        assert(header@ == header_v);

        let mut looping: Vec<bool> = Vec::new();
        let mut first_control_points: Vec<usize> = Vec::new();
        let mut control_points: Vec<u32> = Vec::new();
        proof {
            assert(usize_as_ints(first_control_points@) =~= Seq::<int>::empty());
            assert(looping@ =~= Seq::<bool>::empty());
            assert(control_points@ =~= Seq::<u32>::empty());
        }
        let mut offset: usize = 0;
        let mut cursor: usize = 64;
        let mut i: usize = 0;
        while i < curve_count
            invariant
                0 <= i <= curve_count,
                64 <= cursor <= len,
                looping@.len() == i,
                first_control_points@.len() == i,
                control_points@.len() == 3 * offset,
                12 * offset + 64 <= cursor,
                i == 0 ==> offset == 0,
                i > 0 ==> first_control_points@[0] == 0,
                forall|k: int|
                    0 <= k < i - 1 ==> #[trigger] first_control_points@[k]
                        <= first_control_points@[k + 1],
                forall|k: int| 0 <= k < i ==> #[trigger] first_control_points@[k] <= offset,
                spec_decode_curves(
                    bytes@,
                    cursor as int,
                    (curve_count - i) as nat,
                    looping@,
                    usize_as_ints(first_control_points@),
                    control_points@,
                    offset as int,
                ) == decoded,
            decreases curve_count - i,
        {
            let ghost l0 = looping@;
            let ghost f0 = usize_as_ints(first_control_points@);
            let ghost p0 = control_points@;
            let ghost off0 = offset as int;
            let ghost cur0 = cursor as int;

            if len - cursor < 4 {
                return Err(BinaryCurveCollectionParserError::Io);
            }
            let w = read_le_u32(bytes, cursor);
            let is_looping = w >= 0x8000_0000;
            let count64: u64 = if is_looping {
                0x1_0000_0000u64 - (w as u64)
            } else {
                w as u64
            };
            assert(count64 == spec_word_count(le_u32_at(bytes@, cur0)));
            cursor = cursor + 4;
            if count64 * 12 > (len - cursor) as u64 {
                return Err(BinaryCurveCollectionParserError::Io);
            }
            let count = count64 as usize;
            let words = 3 * count;

            let ghost fraw0 = first_control_points@;
            looping.push(is_looping);
            first_control_points.push(offset);
            proof {
                lemma_usize_as_ints_push(fraw0, offset);
            }

            let ghost prev_points = control_points@;
            let base = cursor;
            let mut k: usize = 0;
            while k < words
                invariant
                    0 <= k <= words,
                    cursor == base + 4 * k,
                    base + 4 * words <= len,
                    control_points@ == prev_points + le_u32_seq(bytes@, base as int, k as int),
                decreases words - k,
            {
                let v = read_le_u32(bytes, cursor);
                control_points.push(v);
                cursor = cursor + 4;
                k = k + 1;
                assert(control_points@ =~= prev_points + le_u32_seq(
                    bytes@,
                    base as int,
                    k as int,
                ));
            }
            offset = offset + count;
            i = i + 1;
            proof {
                assert(usize_as_ints(first_control_points@) =~= f0.push(off0));
                assert(spec_decode_curves(
                    bytes@,
                    cur0,
                    (curve_count - (i - 1)) as nat,
                    l0,
                    f0,
                    p0,
                    off0,
                ) == spec_decode_curves(
                    bytes@,
                    cursor as int,
                    (curve_count - i) as nat,
                    looping@,
                    usize_as_ints(first_control_points@),
                    control_points@,
                    offset as int,
                ));
            }
        }
        let ghost fraw = first_control_points@;
        let ghost lfin = looping@;
        let ghost pfin = control_points@;
        first_control_points.push(offset);
        proof {
            lemma_usize_as_ints_push(fraw, offset);
            assert(decoded == Ok::<(Seq<bool>, Seq<int>, Seq<u32>), BinaryCurveCollectionParserError>(
                (lfin, usize_as_ints(fraw).push(offset as int), pfin),
            ));
        }
        if offset != declared_control_points {
            return Err(BinaryCurveCollectionParserError::CorruptData);
        }

        let c = BinaryCurveCollection { header, looping, first_control_points, control_points };
        proof {
            let expected = CollectionV {
                header: header_v,
                looping: lfin,
                first_control_points: usize_as_ints(fraw).push(offset as int),
                control_points: pfin,
            };
            assert(spec_assemble(header_v, decoded) == Ok::<
                CollectionV,
                BinaryCurveCollectionParserError,
            >(expected));
            assert(c@ == expected);
            assert(header_v.signature =~= seq![SIGNATURE_0, SIGNATURE_1, SIGNATURE_2]);
            assert(header_v.curve =~= seq![CURVE_TYPE_0, CURVE_TYPE_1]);
            assert(c@.wf());
        }
        Ok(c)
    }
}

} // verus!
