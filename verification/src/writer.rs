//! Encoder for a [`BinaryCurveCollection`]: the inverse of the reader,
//! producing the byte-exact file layout from plain values. Encoding a
//! collection and decoding the bytes again gives the collection back;
//! [`lemma_encode_parse_round_trip`] states and proves this.

use vstd::prelude::*;

use crate::bytes::{
    le_u32_at, le_u32_seq, le_u64_at, lemma_u32_le_round_trip, lemma_u64_le_round_trip,
    push_le_u32, push_le_u64, u32_le_bytes, u64_le_bytes,
};
use crate::reader::{
    spec_decode_curves, spec_parse, spec_parse_header, spec_word_count, spec_word_looping,
};
use crate::{
    BinaryCurveCollectionParserError, CollectionV, HeaderV, CURVE_TYPE_0, CURVE_TYPE_1,
    PRECISION_BYTE, SIGNATURE_0, SIGNATURE_1, SIGNATURE_2,
};

verus! {

/// The sum of the first `i` per-curve point counts: the offset of curve `i`'s
/// first control point.
pub open spec fn psum(counts: Seq<usize>, i: int) -> int
    decreases i,
{
    if i <= 0 {
        0
    } else {
        psum(counts, i - 1) + counts[i - 1]
    }
}

/// Partial sums of the counts never decrease.
pub proof fn lemma_psum_le(counts: Seq<usize>, i: int, j: int)
    requires
        0 <= i <= j,
    ensures
        psum(counts, i) <= psum(counts, j),
    decreases j - i,
{
    if i < j {
        lemma_psum_le(counts, i, j - 1);
    }
}

/// The unsigned word that encodes a curve's point count: the count itself,
/// or its 32-bit two's-complement negation for a looping curve.
pub open spec fn curve_word(looping: bool, count: int) -> int {
    if looping {
        0x1_0000_0000 - count
    } else {
        count
    }
}

/// The bytes of `m` consecutive control-point values starting at `j`, each
/// four bytes little-endian.
pub open spec fn points_bytes(points: Seq<u32>, j: int, m: int) -> Seq<u8>
    decreases m,
{
    if m <= 0 {
        Seq::empty()
    } else {
        u32_le_bytes(points[j]) + points_bytes(points, j + 1, m - 1)
    }
}

proof fn lemma_points_bytes_len(points: Seq<u32>, j: int, m: int)
    ensures
        points_bytes(points, j, m).len() == if m >= 0 {
            4 * m
        } else {
            0
        },
    decreases m,
{
    if m > 0 {
        lemma_points_bytes_len(points, j + 1, m - 1);
    }
}

proof fn lemma_points_bytes_snoc(points: Seq<u32>, j: int, m: int)
    requires
        m >= 0,
    ensures
        points_bytes(points, j, m + 1) == points_bytes(points, j, m) + u32_le_bytes(
            points[j + m],
        ),
    decreases m,
{
    reveal_with_fuel(points_bytes, 3);
    if m == 0 {
        assert(points_bytes(points, j, 1) =~= points_bytes(points, j, 0) + u32_le_bytes(
            points[j],
        ));
    } else {
        lemma_points_bytes_snoc(points, j + 1, m - 1);
        assert(points_bytes(points, j, m + 1) =~= points_bytes(points, j, m) + u32_le_bytes(
            points[j + m],
        ));
    }
}

/// The little-endian value stored four-bytes-aligned inside a run of encoded
/// points is the point that was encoded.
proof fn lemma_points_bytes_index(points: Seq<u32>, j: int, m: int, k: int)
    requires
        0 <= k < m,
    ensures
        le_u32_at(points_bytes(points, j, m), 4 * k) == points[j + k],
    decreases k,
{
    lemma_points_bytes_len(points, j + 1, m - 1);
    if k == 0 {
        lemma_u32_le_round_trip(points[j]);
    } else {
        lemma_points_bytes_index(points, j + 1, m - 1, k - 1);
    }
}

/// The bytes of `s` from `at` on begin with `part`.
spec fn has_part_at(s: Seq<u8>, at: int, part: Seq<u8>) -> bool {
    &&& 0 <= at
    &&& at + part.len() <= s.len()
    &&& forall|t: int| 0 <= t < part.len() ==> s[at + t] == #[trigger] part[t]
}

/// A suffix of `s` equal to a concatenation places both halves.
proof fn lemma_part_split(s: Seq<u8>, at: int, a: Seq<u8>, b: Seq<u8>)
    requires
        has_part_at(s, at, a + b),
    ensures
        has_part_at(s, at, a),
        has_part_at(s, at + a.len(), b),
{
    assert forall|t: int| 0 <= t < a.len() implies s[at + t] == #[trigger] a[t] by {
        assert((a + b)[t] == a[t]);
        assert(s[at + t] == (a + b)[t]);
    }
    assert forall|t: int| 0 <= t < b.len() implies s[at + a.len() + t] == #[trigger] b[t] by {
        assert((a + b)[a.len() + t] == b[t]);
        assert(s[at + (a.len() + t)] == (a + b)[a.len() + t]);
    }
}

proof fn lemma_subrange_to_part(s: Seq<u8>, at: int, p: Seq<u8>)
    requires
        0 <= at <= s.len(),
        s.subrange(at, s.len() as int) == p,
    ensures
        has_part_at(s, at, p),
{
    assert forall|t: int| 0 <= t < p.len() implies s[at + t] == #[trigger] p[t] by {
        assert(s.subrange(at, s.len() as int)[t] == s[at + t]);
    }
}

proof fn lemma_part_to_subrange(s: Seq<u8>, at: int, p: Seq<u8>)
    requires
        has_part_at(s, at, p),
        at + p.len() == s.len(),
    ensures
        s.subrange(at, s.len() as int) == p,
{
    assert forall|t: int| 0 <= t < p.len() implies s.subrange(at, s.len() as int)[t]
        == #[trigger] p[t] by {
        assert(s.subrange(at, s.len() as int)[t] == s[at + t]);
    }
    assert(s.subrange(at, s.len() as int) =~= p);
}

/// Where the four bytes of a 32-bit value sit, that value is read back.
proof fn lemma_le_u32_of_part(s: Seq<u8>, at: int, v: u32)
    requires
        has_part_at(s, at, u32_le_bytes(v)),
    ensures
        le_u32_at(s, at) == v,
{
    lemma_u32_le_round_trip(v);
    assert(s[at + 0] == u32_le_bytes(v)[0]);
    assert(s[at + 1] == u32_le_bytes(v)[1]);
    assert(s[at + 2] == u32_le_bytes(v)[2]);
    assert(s[at + 3] == u32_le_bytes(v)[3]);
}

/// Where the eight bytes of a 64-bit value sit, that value is read back.
proof fn lemma_le_u64_of_part(s: Seq<u8>, at: int, v: u64)
    requires
        has_part_at(s, at, u64_le_bytes(v)),
    ensures
        le_u64_at(s, at) == v,
{
    lemma_u64_le_round_trip(v);
    assert forall|t: int| 0 <= t < 8 implies s[at + t] == #[trigger] u64_le_bytes(v)[t] by {}
    assert(s[at + 0] == u64_le_bytes(v)[0]);
    assert(s[at + 1] == u64_le_bytes(v)[1]);
    assert(s[at + 2] == u64_le_bytes(v)[2]);
    assert(s[at + 3] == u64_le_bytes(v)[3]);
    assert(s[at + 4] == u64_le_bytes(v)[4]);
    assert(s[at + 5] == u64_le_bytes(v)[5]);
    assert(s[at + 6] == u64_le_bytes(v)[6]);
    assert(s[at + 7] == u64_le_bytes(v)[7]);
}

/// Where the bytes of a run of points sit, those points are read back.
proof fn lemma_points_decode(bytes: Seq<u8>, at: int, points: Seq<u32>, j: int, m: int)
    requires
        0 <= j,
        0 <= m,
        j + m <= points.len(),
        has_part_at(bytes, at, points_bytes(points, j, m)),
    ensures
        le_u32_seq(bytes, at, m) == points.subrange(j, j + m),
{
    lemma_points_bytes_len(points, j, m);
    let pb = points_bytes(points, j, m);
    assert forall|k: int| 0 <= k < m implies #[trigger] le_u32_at(bytes, at + 4 * k) == points[j
        + k] by {
        lemma_points_bytes_index(points, j, m, k);
        assert(bytes[at + (4 * k + 0)] == pb[4 * k + 0]);
        assert(bytes[at + (4 * k + 1)] == pb[4 * k + 1]);
        assert(bytes[at + (4 * k + 2)] == pb[4 * k + 2]);
        assert(bytes[at + (4 * k + 3)] == pb[4 * k + 3]);
        assert(le_u32_at(bytes, at + 4 * k) == le_u32_at(pb, 4 * k));
    }
    assert(le_u32_seq(bytes, at, m) =~= points.subrange(j, j + m));
}

/// The per-curve records of curves `i` onward: for each curve the word that
/// encodes its point count and looping flag, then its points.
pub open spec fn spec_encode_curves(
    looping: Seq<bool>,
    counts: Seq<usize>,
    points: Seq<u32>,
    i: int,
) -> Seq<u8>
    decreases looping.len() - i,
{
    if i < 0 || i >= looping.len() {
        Seq::empty()
    } else {
        u32_le_bytes(curve_word(looping[i], counts[i] as int) as u32) + points_bytes(
            points,
            3 * psum(counts, i),
            3 * counts[i],
        ) + spec_encode_curves(looping, counts, points, i + 1)
    }
}

/// The fixed 64-byte header encoding the given field values.
pub open spec fn spec_encode_header(
    dimensions: u8,
    up_direction: u8,
    file_information: Seq<u8>,
    number_of_curves: u64,
    number_of_control_points: u64,
) -> Seq<u8> {
    seq![
        SIGNATURE_0,
        SIGNATURE_1,
        SIGNATURE_2,
        PRECISION_BYTE,
        CURVE_TYPE_0,
        CURVE_TYPE_1,
        dimensions,
        up_direction,
    ] + u64_le_bytes(number_of_curves) + u64_le_bytes(number_of_control_points) + file_information
}

/// The byte-exact encoding of a whole collection: header, then one record
/// per curve.
pub open spec fn spec_encode(
    dimensions: u8,
    up_direction: u8,
    file_information: Seq<u8>,
    looping: Seq<bool>,
    counts: Seq<usize>,
    points: Seq<u32>,
) -> Seq<u8> {
    spec_encode_header(
        dimensions,
        up_direction,
        file_information,
        looping.len() as u64,
        psum(counts, counts.len() as int) as u64,
    ) + spec_encode_curves(looping, counts, points, 0)
}

/// Encodes a collection, given as plain values, into the bytes of a BCC
/// file: the exact inverse of parsing.
///
/// `counts` gives the number of control points of each curve; a looping
/// curve needs at least one point, and no count may exceed the largest
/// encodable signed 32-bit value. `control_points` holds three values per
/// point, for all curves in order.
#[verifier::loop_isolation(false)]
#[verifier::rlimit(100)]
pub fn encode(
    dimensions: u8,
    up_direction: u8,
    file_information: &Vec<u8>,
    looping: &Vec<bool>,
    counts: &Vec<usize>,
    control_points: &Vec<u32>,
) -> (r: Vec<u8>)
    requires
        file_information@.len() == 40,
        counts@.len() == looping@.len(),
        forall|i: int| 0 <= i < counts@.len() ==> #[trigger] counts@[i] <= 0x7FFF_FFFF,
        forall|i: int| 0 <= i < counts@.len() ==> (looping@[i] ==> #[trigger] counts@[i] >= 1),
        psum(counts@, counts@.len() as int) <= usize::MAX,
        control_points@.len() == 3 * psum(counts@, counts@.len() as int),
    ensures
        r@ == spec_encode(
            dimensions,
            up_direction,
            file_information@,
            looping@,
            counts@,
            control_points@,
        ),
{
    let n_curves = counts.len();
    let cp_len = control_points.len();
    let mut total: usize = 0;
    let mut i: usize = 0;
    while i < n_curves
        invariant
            0 <= i <= n_curves,
            total == psum(counts@, i as int),
        decreases n_curves - i,
    {
        proof {
            lemma_psum_le(counts@, i as int + 1, n_curves as int);
        }
        total = total + counts[i];
        i = i + 1;
    }

    let mut out: Vec<u8> = Vec::new();
    out.push(SIGNATURE_0);
    out.push(SIGNATURE_1);
    out.push(SIGNATURE_2);
    out.push(PRECISION_BYTE);
    out.push(CURVE_TYPE_0);
    out.push(CURVE_TYPE_1);
    out.push(dimensions);
    out.push(up_direction);
    push_le_u64(&mut out, n_curves as u64);
    push_le_u64(&mut out, total as u64);
    let ghost pre_info = out@;
    let mut j: usize = 0;
    while j < 40
        invariant
            0 <= j <= 40,
            out@ == pre_info + file_information@.subrange(0, j as int),
        decreases 40 - j,
    {
        out.push(file_information[j]);
        j = j + 1;
        assert(out@ =~= pre_info + file_information@.subrange(0, j as int));
    }
    let ghost header_bytes = spec_encode_header(
        dimensions,
        up_direction,
        file_information@,
        n_curves as u64,
        psum(counts@, counts@.len() as int) as u64,
    );
    assert(out@ =~= header_bytes);

    let ghost genc = spec_encode(
        dimensions,
        up_direction,
        file_information@,
        looping@,
        counts@,
        control_points@,
    );
    let mut offset: usize = 0;
    let mut i: usize = 0;
    while i < n_curves
        invariant
            0 <= i <= n_curves,
            offset == psum(counts@, i as int),
            genc == out@ + spec_encode_curves(looping@, counts@, control_points@, i as int),
        decreases n_curves - i,
    {
        let ghost pre_curve = out@;
        let count = counts[i];
        let word: u32 = if looping[i] {
            (0x1_0000_0000u64 - count as u64) as u32
        } else {
            count as u32
        };
        assert(word == curve_word(looping@[i as int], counts@[i as int] as int) as u32);
        push_le_u32(&mut out, word);

        proof {
            lemma_psum_le(counts@, i as int + 1, n_curves as int);
            assert(psum(counts@, i as int + 1) == psum(counts@, i as int) + counts@[i as int]);
            assert(3 * (offset + count) <= cp_len);
        }
        let words = 3 * count;
        let base = 3 * offset;
        let ghost pre_points = out@;
        let mut k: usize = 0;
        while k < words
            invariant
                0 <= k <= words,
                out@ == pre_points + points_bytes(control_points@, base as int, k as int),
            decreases words - k,
        {
            push_le_u32(&mut out, control_points[base + k]);
            proof {
                lemma_points_bytes_snoc(control_points@, base as int, k as int);
            }
            k = k + 1;
        }
        offset = offset + count;
        i = i + 1;
        proof {
            assert(spec_encode_curves(looping@, counts@, control_points@, i as int - 1)
                == u32_le_bytes(word) + points_bytes(
                control_points@,
                base as int,
                words as int,
            ) + spec_encode_curves(looping@, counts@, control_points@, i as int));
            assert(genc =~= out@ + spec_encode_curves(looping@, counts@, control_points@, i as int));
        }
    }
    assert(out@ =~= genc);
    out
}

/// Decoding the records that encode curves `i` onward extends the
/// accumulated flags, offsets and points with exactly what was encoded.
#[verifier::rlimit(60)]
proof fn lemma_decode_encoded_curves(
    bytes: Seq<u8>,
    looping: Seq<bool>,
    counts: Seq<usize>,
    points: Seq<u32>,
    i: int,
    pos: int,
    acc_l: Seq<bool>,
    acc_f: Seq<int>,
    acc_p: Seq<u32>,
)
    requires
        0 <= i <= looping.len(),
        counts.len() == looping.len(),
        forall|k: int| 0 <= k < counts.len() ==> #[trigger] counts[k] <= 0x7FFF_FFFF,
        forall|k: int| 0 <= k < counts.len() ==> (looping[k] ==> #[trigger] counts[k] >= 1),
        points.len() == 3 * psum(counts, counts.len() as int),
        0 <= pos <= bytes.len(),
        bytes.subrange(pos, bytes.len() as int) == spec_encode_curves(looping, counts, points, i),
    ensures
        spec_decode_curves(
            bytes,
            pos,
            (looping.len() - i) as nat,
            acc_l,
            acc_f,
            acc_p,
            psum(counts, i),
        ) == Ok::<(Seq<bool>, Seq<int>, Seq<u32>), BinaryCurveCollectionParserError>(
            (
                acc_l + looping.skip(i),
                acc_f + Seq::new((looping.len() - i + 1) as nat, |k: int| psum(counts, i + k)),
                acc_p + points.subrange(3 * psum(counts, i), 3 * psum(counts, counts.len() as int)),
            ),
        ),
    decreases looping.len() - i,
{
    let n = looping.len() as int;
    if i == n {
        assert(acc_l + looping.skip(i) =~= acc_l);
        assert(acc_f + Seq::new(1, |k: int| psum(counts, i + k)) =~= acc_f.push(psum(counts, i)));
        assert(acc_p + points.subrange(3 * psum(counts, i), 3 * psum(counts, n)) =~= acc_p);
    } else {
        let c = counts[i] as int;
        let word = curve_word(looping[i], c);
        let wb = u32_le_bytes(word as u32);
        let pb = points_bytes(points, 3 * psum(counts, i), 3 * c);
        let rest = spec_encode_curves(looping, counts, points, i + 1);
        assert(bytes.subrange(pos, bytes.len() as int) == wb + pb + rest);
        lemma_points_bytes_len(points, 3 * psum(counts, i), 3 * c);

        lemma_subrange_to_part(bytes, pos, wb + pb + rest);
        lemma_part_split(bytes, pos, wb + pb, rest);
        lemma_part_split(bytes, pos, wb, pb);
        let pos2 = pos + 4 + 12 * c;
        assert(has_part_at(bytes, pos + 4, pb));
        assert(has_part_at(bytes, pos2, rest));
        assert(pos2 + rest.len() == bytes.len());

        // the word decodes to the count and flag that were encoded
        lemma_le_u32_of_part(bytes, pos, word as u32);
        assert(le_u32_at(bytes, pos) == word);
        assert(spec_word_looping(word) == looping[i]);
        assert(spec_word_count(word) == c);

        // the encoded points decode to the points that were encoded
        lemma_psum_le(counts, 0, i);
        lemma_psum_le(counts, i, i + 1);
        lemma_psum_le(counts, i + 1, n);
        lemma_points_decode(bytes, pos + 4, points, 3 * psum(counts, i), 3 * c);
        assert(le_u32_seq(bytes, pos + 4, 3 * c) == points.subrange(
            3 * psum(counts, i),
            3 * psum(counts, i + 1),
        ));

        // the remaining bytes are the encoding of the remaining curves
        lemma_part_to_subrange(bytes, pos2, rest);

        lemma_decode_encoded_curves(
            bytes,
            looping,
            counts,
            points,
            i + 1,
            pos2,
            acc_l.push(looping[i]),
            acc_f.push(psum(counts, i)),
            acc_p + le_u32_seq(bytes, pos + 4, 3 * c),
        );

        assert(acc_l.push(looping[i]) + looping.skip(i + 1) =~= acc_l + looping.skip(i));
        assert(acc_f.push(psum(counts, i)) + Seq::new(
            (n - i) as nat,
            |k: int| psum(counts, i + 1 + k),
        ) =~= acc_f + Seq::new((n - i + 1) as nat, |k: int| psum(counts, i + k)));
        assert((acc_p + points.subrange(3 * psum(counts, i), 3 * psum(counts, i + 1)))
            + points.subrange(3 * psum(counts, i + 1), 3 * psum(counts, n)) =~= acc_p
            + points.subrange(3 * psum(counts, i), 3 * psum(counts, n)));
    }
}

/// Where each header field and the curve records sit inside an encoding.
proof fn lemma_encode_layout(
    dimensions: u8,
    up_direction: u8,
    file_information: Seq<u8>,
    looping: Seq<bool>,
    counts: Seq<usize>,
    points: Seq<u32>,
)
    requires
        file_information.len() == 40,
    ensures
        ({
            let enc = spec_encode(
                dimensions,
                up_direction,
                file_information,
                looping,
                counts,
                points,
            );
            let curves = spec_encode_curves(looping, counts, points, 0);
            &&& enc.len() == 64 + curves.len()
            &&& has_part_at(
                enc,
                0,
                seq![
                    SIGNATURE_0,
                    SIGNATURE_1,
                    SIGNATURE_2,
                    PRECISION_BYTE,
                    CURVE_TYPE_0,
                    CURVE_TYPE_1,
                    dimensions,
                    up_direction,
                ],
            )
            &&& has_part_at(enc, 8, u64_le_bytes(looping.len() as u64))
            &&& has_part_at(
                enc,
                16,
                u64_le_bytes(psum(counts, counts.len() as int) as u64),
            )
            &&& has_part_at(enc, 24, file_information)
            &&& has_part_at(enc, 64, curves)
        }),
{
    let enc = spec_encode(dimensions, up_direction, file_information, looping, counts, points);
    let fixed = seq![
        SIGNATURE_0,
        SIGNATURE_1,
        SIGNATURE_2,
        PRECISION_BYTE,
        CURVE_TYPE_0,
        CURVE_TYPE_1,
        dimensions,
        up_direction,
    ];
    let nb = u64_le_bytes(looping.len() as u64);
    let tb = u64_le_bytes(psum(counts, counts.len() as int) as u64);
    let head = spec_encode_header(
        dimensions,
        up_direction,
        file_information,
        looping.len() as u64,
        psum(counts, counts.len() as int) as u64,
    );
    let curves = spec_encode_curves(looping, counts, points, 0);
    assert(head.len() == 64);
    assert(enc.subrange(0, enc.len() as int) =~= head + curves);
    lemma_subrange_to_part(enc, 0, head + curves);
    lemma_part_split(enc, 0, head, curves);
    assert(has_part_at(enc, 0, fixed + nb + tb + file_information));
    lemma_part_split(enc, 0, fixed + nb + tb, file_information);
    lemma_part_split(enc, 0, fixed + nb, tb);
    lemma_part_split(enc, 0, fixed, nb);
}

/// Round trip: the bytes that encode a collection parse back to exactly that
/// collection, with identical header fields, looping flags, offsets and
/// control points. This holds for every encodable collection: any number of
/// curves whose counts are encodable, with a looping curve never empty.
pub proof fn lemma_encode_parse_round_trip(
    dimensions: u8,
    up_direction: u8,
    file_information: Seq<u8>,
    looping: Seq<bool>,
    counts: Seq<usize>,
    points: Seq<u32>,
)
    requires
        up_direction == 1 || up_direction == 2,
        file_information.len() == 40,
        counts.len() == looping.len(),
        looping.len() <= usize::MAX,
        forall|k: int| 0 <= k < counts.len() ==> #[trigger] counts[k] <= 0x7FFF_FFFF,
        forall|k: int| 0 <= k < counts.len() ==> (looping[k] ==> #[trigger] counts[k] >= 1),
        psum(counts, counts.len() as int) <= usize::MAX,
        points.len() == 3 * psum(counts, counts.len() as int),
    ensures
        spec_parse(spec_encode(dimensions, up_direction, file_information, looping, counts, points))
            == Ok::<CollectionV, BinaryCurveCollectionParserError>(
            CollectionV {
                header: HeaderV {
                    signature: seq![SIGNATURE_0, SIGNATURE_1, SIGNATURE_2],
                    precision: PRECISION_BYTE,
                    curve: seq![CURVE_TYPE_0, CURVE_TYPE_1],
                    dimensions,
                    up_direction,
                    number_of_curves: looping.len() as u64,
                    number_of_control_points: psum(counts, counts.len() as int) as u64,
                    file_information,
                },
                looping,
                first_control_points: Seq::new(
                    (counts.len() + 1) as nat,
                    |k: int| psum(counts, k),
                ),
                control_points: points,
            },
        ),
{
    let n = looping.len() as int;
    let total = psum(counts, n);
    let enc = spec_encode(dimensions, up_direction, file_information, looping, counts, points);
    let fixed = seq![
        SIGNATURE_0,
        SIGNATURE_1,
        SIGNATURE_2,
        PRECISION_BYTE,
        CURVE_TYPE_0,
        CURVE_TYPE_1,
        dimensions,
        up_direction,
    ];
    let nb = u64_le_bytes(n as u64);
    let tb = u64_le_bytes(total as u64);
    let head = spec_encode_header(
        dimensions,
        up_direction,
        file_information,
        n as u64,
        total as u64,
    );
    let curves = spec_encode_curves(looping, counts, points, 0);
    assert(head.len() == 64);
    lemma_encode_layout(dimensions, up_direction, file_information, looping, counts, points);
    assert(has_part_at(enc, 0, fixed));
    assert(has_part_at(enc, 8, nb));
    assert(has_part_at(enc, 16, tb));
    assert(has_part_at(enc, 24, file_information));

    // the fixed bytes read back
    assert(enc[0int + 0] == fixed[0]);
    assert(enc[0int + 1] == fixed[1]);
    assert(enc[0int + 2] == fixed[2]);
    assert(enc[0int + 3] == fixed[3]);
    assert(enc[0int + 4] == fixed[4]);
    assert(enc[0int + 5] == fixed[5]);
    assert(enc[0int + 6] == fixed[6]);
    assert(enc[0int + 7] == fixed[7]);

    // the counts read back
    lemma_le_u64_of_part(enc, 8, n as u64);
    lemma_le_u64_of_part(enc, 16, total as u64);

    let hv = HeaderV {
        signature: seq![SIGNATURE_0, SIGNATURE_1, SIGNATURE_2],
        precision: PRECISION_BYTE,
        curve: seq![CURVE_TYPE_0, CURVE_TYPE_1],
        dimensions,
        up_direction,
        number_of_curves: n as u64,
        number_of_control_points: total as u64,
        file_information,
    };
    assert(enc.subrange(0, 3) =~= hv.signature);
    assert(enc.subrange(4, 6) =~= hv.curve);
    assert forall|t: int| 0 <= t < 40 implies enc.subrange(24, 64)[t]
        == #[trigger] file_information[t] by {
        assert(enc.subrange(24, 64)[t] == enc[24 + t]);
    }
    assert(enc.subrange(24, 64) =~= file_information);
    assert(spec_parse_header(enc) == Ok::<HeaderV, BinaryCurveCollectionParserError>(hv));

    // the records parse back to the encoded curves
    assert(has_part_at(enc, 64, curves));
    lemma_part_to_subrange(enc, 64, curves);
    lemma_decode_encoded_curves(
        enc,
        looping,
        counts,
        points,
        0,
        64,
        Seq::empty(),
        Seq::empty(),
        Seq::empty(),
    );
    let fcp = Seq::new((n + 1) as nat, |k: int| psum(counts, k));
    assert(Seq::<bool>::empty() + looping.skip(0) =~= looping);
    assert(Seq::<int>::empty() + Seq::new((n + 1) as nat, |k: int| psum(counts, 0 + k)) =~= fcp);
    assert(Seq::<u32>::empty() + points.subrange(0, 3 * total) =~= points);
    assert(spec_decode_curves(enc, 64, n as nat, Seq::empty(), Seq::empty(), Seq::empty(), 0)
        == Ok::<(Seq<bool>, Seq<int>, Seq<u32>), BinaryCurveCollectionParserError>(
        (looping, fcp, points),
    ));
    assert(fcp[fcp.len() - 1] == total);
}

/// A part of `s` that lies within a prefix of `s` is a part of that prefix.
proof fn lemma_part_of_prefix(s: Seq<u8>, pre: Seq<u8>, at: int, p: Seq<u8>)
    requires
        has_part_at(s, at, p),
        pre == s.subrange(0, pre.len() as int),
        at + p.len() <= pre.len() <= s.len(),
    ensures
        has_part_at(pre, at, p),
{
    assert forall|t: int| 0 <= t < p.len() implies pre[at + t] == #[trigger] p[t] by {
        assert(s.subrange(0, pre.len() as int)[at + t] == s[at + t]);
    }
}

/// Decoding curve records from a source cut off before their end gives `Io`,
/// whatever was accumulated so far.
#[verifier::rlimit(60)]
proof fn lemma_decode_truncated_curves(
    bytes: Seq<u8>,
    pre: Seq<u8>,
    looping: Seq<bool>,
    counts: Seq<usize>,
    points: Seq<u32>,
    i: int,
    pos: int,
    acc_l: Seq<bool>,
    acc_f: Seq<int>,
    acc_p: Seq<u32>,
)
    requires
        0 <= i <= looping.len(),
        counts.len() == looping.len(),
        forall|k: int| 0 <= k < counts.len() ==> #[trigger] counts[k] <= 0x7FFF_FFFF,
        forall|k: int| 0 <= k < counts.len() ==> (looping[k] ==> #[trigger] counts[k] >= 1),
        points.len() == 3 * psum(counts, counts.len() as int),
        0 <= pos <= bytes.len(),
        bytes.subrange(pos, bytes.len() as int) == spec_encode_curves(looping, counts, points, i),
        pre == bytes.subrange(0, pre.len() as int),
        pos <= pre.len() < bytes.len(),
    ensures
        spec_decode_curves(
            pre,
            pos,
            (looping.len() - i) as nat,
            acc_l,
            acc_f,
            acc_p,
            psum(counts, i),
        ) == Err::<(Seq<bool>, Seq<int>, Seq<u32>), BinaryCurveCollectionParserError>(
            BinaryCurveCollectionParserError::Io,
        ),
    decreases looping.len() - i,
{
    let n = looping.len() as int;
    let m = pre.len() as int;
    if i == n {
        // the records from i on are empty, so pos is already the end of
        // bytes, yet pos lies within the strictly shorter prefix
        assert(bytes.subrange(pos, bytes.len() as int).len() == 0);
        assert(false);
    } else {
        let c = counts[i] as int;
        let word = curve_word(looping[i], c);
        let wb = u32_le_bytes(word as u32);
        let pb = points_bytes(points, 3 * psum(counts, i), 3 * c);
        let rest = spec_encode_curves(looping, counts, points, i + 1);
        assert(bytes.subrange(pos, bytes.len() as int) == wb + pb + rest);
        lemma_points_bytes_len(points, 3 * psum(counts, i), 3 * c);
        lemma_subrange_to_part(bytes, pos, wb + pb + rest);
        lemma_part_split(bytes, pos, wb + pb, rest);
        lemma_part_split(bytes, pos, wb, pb);
        let pos2 = pos + 4 + 12 * c;

        if pos + 4 > m {
            // the count word itself is cut off
        } else {
            lemma_part_of_prefix(bytes, pre, pos, wb);
            lemma_le_u32_of_part(pre, pos, word as u32);
            assert(le_u32_at(pre, pos) == word);
            assert(spec_word_count(word) == c);
            if pos2 > m {
                // the point stream of this curve is cut off
            } else {
                assert(bytes.subrange(pos2, bytes.len() as int) =~= rest) by {
                    lemma_part_to_subrange(bytes, pos2, rest);
                }
                lemma_decode_truncated_curves(
                    bytes,
                    pre,
                    looping,
                    counts,
                    points,
                    i + 1,
                    pos2,
                    acc_l.push(spec_word_looping(word)),
                    acc_f.push(psum(counts, i)),
                    acc_p + le_u32_seq(pre, pos + 4, 3 * c),
                );
            }
        }
    }
}

/// A byte source truncated anywhere inside an encoded collection, in the
/// header or in the point stream, fails with `Io`: decoding any strict
/// prefix of an encoding gives exactly that error.
pub proof fn lemma_truncated_encoding_is_io(
    dimensions: u8,
    up_direction: u8,
    file_information: Seq<u8>,
    looping: Seq<bool>,
    counts: Seq<usize>,
    points: Seq<u32>,
    m: int,
)
    requires
        up_direction == 1 || up_direction == 2,
        file_information.len() == 40,
        counts.len() == looping.len(),
        looping.len() <= usize::MAX,
        forall|k: int| 0 <= k < counts.len() ==> #[trigger] counts[k] <= 0x7FFF_FFFF,
        forall|k: int| 0 <= k < counts.len() ==> (looping[k] ==> #[trigger] counts[k] >= 1),
        psum(counts, counts.len() as int) <= usize::MAX,
        points.len() == 3 * psum(counts, counts.len() as int),
        0 <= m < spec_encode(
            dimensions,
            up_direction,
            file_information,
            looping,
            counts,
            points,
        ).len(),
    ensures
        spec_parse(
            spec_encode(
                dimensions,
                up_direction,
                file_information,
                looping,
                counts,
                points,
            ).subrange(0, m),
        ) == Err::<CollectionV, BinaryCurveCollectionParserError>(
            BinaryCurveCollectionParserError::Io,
        ),
{
    let n = looping.len() as int;
    let total = psum(counts, n);
    let enc = spec_encode(dimensions, up_direction, file_information, looping, counts, points);
    let pre = enc.subrange(0, m);
    let fixed = seq![
        SIGNATURE_0,
        SIGNATURE_1,
        SIGNATURE_2,
        PRECISION_BYTE,
        CURVE_TYPE_0,
        CURVE_TYPE_1,
        dimensions,
        up_direction,
    ];
    let curves = spec_encode_curves(looping, counts, points, 0);
    lemma_encode_layout(dimensions, up_direction, file_information, looping, counts, points);

    // whatever bytes the prefix still has agree with the full encoding
    assert forall|t: int| 0 <= t < 8 && t < m implies pre[t] == fixed[t] by {
        assert(enc.subrange(0, m)[t] == enc[0int + t]);
        assert(enc[0int + t] == fixed[t]);
    }
    if m < 64 {
        // cut inside the fixed header: every field that is fully present is
        // valid, so the decoder runs into the end of the source
        assert(spec_parse_header(pre) == Err::<HeaderV, BinaryCurveCollectionParserError>(
            BinaryCurveCollectionParserError::Io,
        ));
    } else {
        lemma_part_of_prefix(enc, pre, 0, fixed);
        lemma_part_of_prefix(enc, pre, 8, u64_le_bytes(n as u64));
        lemma_part_of_prefix(enc, pre, 16, u64_le_bytes(total as u64));
        lemma_part_of_prefix(enc, pre, 24, file_information);
        lemma_le_u64_of_part(pre, 8, n as u64);
        lemma_le_u64_of_part(pre, 16, total as u64);
        let hv = HeaderV {
            signature: pre.subrange(0, 3),
            precision: pre[3],
            curve: pre.subrange(4, 6),
            dimensions: pre[6],
            up_direction: pre[7],
            number_of_curves: n as u64,
            number_of_control_points: total as u64,
            file_information: pre.subrange(24, 64),
        };
        assert(pre[0int + 3] == fixed[3]);
        assert(pre[0int + 6] == fixed[6]);
        assert(pre[0int + 7] == fixed[7]);
        assert(spec_parse_header(pre) == Ok::<HeaderV, BinaryCurveCollectionParserError>(hv));
        assert(pre == enc.subrange(0, pre.len() as int));
        lemma_part_to_subrange(enc, 64, curves);
        lemma_decode_truncated_curves(
            enc,
            pre,
            looping,
            counts,
            points,
            0,
            64,
            Seq::empty(),
            Seq::empty(),
            Seq::empty(),
        );
    }
}

} // verus!
