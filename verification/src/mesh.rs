//! Conversion of a [`BinaryCurveCollection`] into renderable line-strip
//! geometry: one vertex per control point, normalized to a Y-up convention,
//! and a single index stream in which a reserved sentinel separates the
//! strips of the individual curves.

use vstd::prelude::*;

use crate::BinaryCurveCollection;

verus! {

/// The reserved index value that separates line strips. It is never used as
/// a control-point index.
pub const PRIMITIVE_RESTART: u32 = 0xFFFF_FFFF;

/// Errors that can happen while building geometry from a collection.
#[derive(Clone, Copy, Debug, PartialEq, Eq, Structural)]
pub enum BinaryCurveCollectionMeshError {
    /// The header's dimensions field was not 3.
    InvalidDimensions,
    /// The collection has more control points than the index width can
    /// address once the restart sentinel is reserved.
    IndexOverflow,
}

/// The bit pattern of the negated IEEE 754 single-precision value: the sign
/// bit flipped.
pub open spec fn flip_sign(v: u32) -> u32 {
    v ^ 0x8000_0000
}

/// The vertex for one control point. A Y-up collection passes the components
/// through unchanged; a Z-up collection remaps (x, y, z) to (x, -z, y) to
/// normalize into the Y-up convention.
pub open spec fn spec_vertex(up_direction: u8, x: u32, y: u32, z: u32) -> (u32, u32, u32) {
    if up_direction == 2 {
        (x, flip_sign(z), y)
    } else {
        (x, y, z)
    }
}

/// The vertices of a flat control-point list, in order: one per group of
/// three stored values.
pub open spec fn spec_positions(up_direction: u8, control_points: Seq<u32>) -> Seq<(u32, u32, u32)> {
    Seq::new(
        (control_points.len() / 3) as nat,
        |j: int|
            spec_vertex(
                up_direction,
                control_points[3 * j],
                control_points[3 * j + 1],
                control_points[3 * j + 2],
            ),
    )
}

/// The ascending indices l, l+1, ..., r-1.
pub open spec fn range_indices(l: int, r: int) -> Seq<u32> {
    Seq::new(
        if r >= l {
            (r - l) as nat
        } else {
            0
        },
        |j: int| (l + j) as u32,
    )
}

/// The index stream from curve `i` on: for each curve the ascending indices
/// of its range, the repeated first index if it loops, and the restart
/// sentinel unless the curve ends at the last control point.
pub open spec fn spec_indices(
    looping: Seq<bool>,
    first_control_points: Seq<int>,
    total: int,
    i: int,
) -> Seq<u32>
    decreases looping.len() - i,
{
    if i < 0 || i >= looping.len() {
        Seq::empty()
    } else {
        let l = first_control_points[i];
        let r = first_control_points[i + 1];
        range_indices(l, r) + (if looping[i] {
            seq![(l as u32)]
        } else {
            Seq::empty()
        }) + (if r != total {
            seq![PRIMITIVE_RESTART]
        } else {
            Seq::empty()
        }) + spec_indices(looping, first_control_points, total, i + 1)
    }
}

/// The number of looping curves from index `i` on.
pub open spec fn count_looping(looping: Seq<bool>, i: int) -> int
    decreases looping.len() - i,
{
    if i < 0 || i >= looping.len() {
        0
    } else {
        (if looping[i] {
            1int
        } else {
            0int
        }) + count_looping(looping, i + 1)
    }
}

/// Renderable line-strip geometry of a collection.
///
/// Vertex components are IEEE 754 single-precision bit patterns. The indices
/// describe connected line strips sharing this one buffer, separated by
/// [`PRIMITIVE_RESTART`].
pub struct BinaryCurveCollectionGeometry {
    /// One vertex per control point, in file order, as (x, y, z) bit
    /// patterns in the Y-up convention.
    pub positions: Vec<(u32, u32, u32)>,
    /// Line-strip indices into `positions`, with [`PRIMITIVE_RESTART`]
    /// between consecutive strips.
    pub indices: Vec<u32>,
}

/// Geometry builder for a [`BinaryCurveCollection`].
pub struct BinaryCurveCollectionMeshBuilder<'a> {
    /// The collection from which the geometry will be built.
    pub bcc: &'a BinaryCurveCollection,
}

impl<'a> BinaryCurveCollectionMeshBuilder<'a> {
    /// Builds the vertex and index buffers.
    ///
    /// Building is pure: it reads the collection and never changes it, so
    /// repeated calls give identical output. It succeeds exactly when the
    /// collection is 3-dimensional and small enough for the index width;
    /// the outputs are pinned down by [`spec_positions`] and
    /// [`spec_indices`].
    #[verifier::loop_isolation(false)]
    #[verifier::rlimit(60)]
    pub fn build(&self) -> (r: Result<
        BinaryCurveCollectionGeometry,
        BinaryCurveCollectionMeshError,
    >)
        requires
            self.bcc@.wf(),
        ensures
            match r {
                Ok(g) => self.bcc@.header.dimensions == 3
                    && self.bcc@.header.number_of_control_points <= u32::MAX && g.positions@
                    == spec_positions(self.bcc@.header.up_direction, self.bcc@.control_points)
                    && g.indices@ == spec_indices(
                    self.bcc@.looping,
                    self.bcc@.first_control_points,
                    self.bcc@.header.number_of_control_points as int,
                    0,
                ),
                Err(e) => (e == BinaryCurveCollectionMeshError::InvalidDimensions
                    <==> self.bcc@.header.dimensions != 3) && (e
                    == BinaryCurveCollectionMeshError::IndexOverflow <==> (
                self.bcc@.header.dimensions == 3 && self.bcc@.header.number_of_control_points
                    > u32::MAX)),
            },
    {
        if self.bcc.header.dimensions != 3 {
            return Err(BinaryCurveCollectionMeshError::InvalidDimensions);
        }
        if self.bcc.header.number_of_control_points > u32::MAX as u64 {
            return Err(BinaryCurveCollectionMeshError::IndexOverflow);
        }
        let total = self.bcc.header.number_of_control_points as usize;
        let up = self.bcc.header.up_direction;

        let cp = &self.bcc.control_points;
        let n_values = cp.len();
        let mut positions: Vec<(u32, u32, u32)> = Vec::new();
        let mut j: usize = 0;
        while j < total
            invariant
                0 <= j <= total,
                positions@.len() == j,
                forall|m: int| 0 <= m < j ==> positions@[m] == spec_positions(up, cp@)[m],
            decreases total - j,
        {
            let x = cp[3 * j];
            let y = cp[3 * j + 1];
            let z = cp[3 * j + 2];
            let v = if up == 2 {
                (x, z ^ 0x8000_0000, y)
            } else {
                (x, y, z)
            };
            positions.push(v);
            j = j + 1;
        }
        assert(positions@ =~= spec_positions(up, cp@));

        let fcp = &self.bcc.first_control_points;
        let n_curves = self.bcc.looping.len();
        let ghost gl = self.bcc@.looping;
        let ghost gf = self.bcc@.first_control_points;
        let ghost gtotal = self.bcc@.header.number_of_control_points as int;
        let mut indices: Vec<u32> = Vec::new();
        let mut i: usize = 0;
        while i < n_curves
            invariant
                0 <= i <= n_curves,
                spec_indices(gl, gf, gtotal, 0) == indices@ + spec_indices(gl, gf, gtotal, i as int),
            decreases n_curves - i,
        {
            let l = fcp[i];
            let r = fcp[i + 1];
            assert(l as int == gf[i as int] && r as int == gf[i as int + 1]);
            assert(l <= r && r <= total);
            let ghost pre = indices@;
            let l32 = l as u32;
            let mut k: usize = l;
            while k < r
                invariant
                    l <= k <= r,
                    indices@ == pre + range_indices(l as int, k as int),
                decreases r - k,
            {
                indices.push(k as u32);
                k = k + 1;
                assert(indices@ =~= pre + range_indices(l as int, k as int));
            }
            if self.bcc.looping[i] {
                indices.push(l32);
            }
            if r != total {
                indices.push(PRIMITIVE_RESTART);
            }
            proof {
                let chunk = range_indices(gf[i as int], gf[i as int + 1]) + (if gl[i as int] {
                    seq![(gf[i as int] as u32)]
                } else {
                    Seq::empty()
                }) + (if gf[i as int + 1] != gtotal {
                    seq![PRIMITIVE_RESTART]
                } else {
                    Seq::empty()
                });
                assert((l as u32) == (gf[i as int] as u32));
                assert(indices@ =~= pre + chunk);
                assert(spec_indices(gl, gf, gtotal, i as int) == chunk + spec_indices(
                    gl,
                    gf,
                    gtotal,
                    i as int + 1,
                ));
                assert(spec_indices(gl, gf, gtotal, 0) =~= indices@ + spec_indices(
                    gl,
                    gf,
                    gtotal,
                    i as int + 1,
                ));
            }
            i = i + 1;
        }
        assert(indices@ =~= spec_indices(gl, gf, gtotal, 0));
        Ok(BinaryCurveCollectionGeometry { positions, indices })
    }
}

impl BinaryCurveCollection {
    /// Start building renderable geometry from this collection.
    pub fn mesh<'a>(&'a self) -> (r: BinaryCurveCollectionMeshBuilder<'a>)
        ensures
            r.bcc == self,
    {
        BinaryCurveCollectionMeshBuilder { bcc: self }
    }
}

proof fn lemma_spec_indices_len(looping: Seq<bool>, fcp: Seq<int>, total: int, i: int)
    requires
        0 <= i <= looping.len(),
        fcp.len() == looping.len() + 1,
        forall|k: int| 0 <= k < looping.len() ==> #[trigger] fcp[k] <= fcp[k + 1],
        fcp[looping.len() as int] == total,
        forall|k: int| i <= k < looping.len() - 1 ==> #[trigger] fcp[k + 1] != total,
    ensures
        spec_indices(looping, fcp, total, i).len() == (total - fcp[i]) + count_looping(looping, i)
            + if i < looping.len() {
            looping.len() - 1 - i
        } else {
            0
        },
    decreases looping.len() - i,
{
    if i == looping.len() {
    } else {
        lemma_spec_indices_len(looping, fcp, total, i + 1);
    }
}

/// For `n` curves with `p` total control points, `k` of the curves looping,
/// the index stream holds exactly `p + k + (n - 1)` entries when `n > 0`, and
/// none when `n == 0`. For `n > 0` this requires that no curve before the
/// last one already ends at the last control point (in particular, that the
/// collection has no trailing run of empty curves): such a curve emits no
/// restart sentinel, and the stream is shorter.
pub proof fn lemma_index_stream_length(looping: Seq<bool>, first_control_points: Seq<int>, total: int)
    requires
        first_control_points.len() == looping.len() + 1,
        first_control_points[0] == 0,
        forall|k: int|
            0 <= k < looping.len() ==> #[trigger] first_control_points[k]
                <= first_control_points[k + 1],
        first_control_points[looping.len() as int] == total,
        forall|k: int|
            0 <= k < looping.len() - 1 ==> #[trigger] first_control_points[k + 1] != total,
    ensures
        looping.len() == 0 ==> spec_indices(looping, first_control_points, total, 0).len() == 0,
        looping.len() > 0 ==> spec_indices(looping, first_control_points, total, 0).len() == total
            + count_looping(looping, 0) + looping.len() - 1,
{
    lemma_spec_indices_len(looping, first_control_points, total, 0);
}

} // verus!
