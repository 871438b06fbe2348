use vstd::prelude::*;
use crate::coord_ijk::{
    CoordIJK, Ijk, _ijkAdd, _ijkNormalize, _ijkRotate60ccw, _ijkRotate60cw, _ijkScale, _ijkSub,
    _setIJK, lemma_rotation_keeps_span,
};
use crate::face_ijk::neighbors::{
    faceNeighbor, face_neighbor, lemma_face_neighbors_bounded, lemma_grid_sizes, max_dim,
    max_dim_of, unit_scale, unit_scale_of,
};

pub mod neighbors;

verus! {

/// A lattice coordinate on one face of the icosahedron.
#[derive(Clone, Copy, Debug, PartialEq, Eq, Structural)]
pub struct FaceIJK {
    /// The face, `0..=19`.
    pub face: i32,
    /// The coordinate in the frame of that face.
    pub coord: CoordIJK,
}

/// The mathematical value of a `FaceIJK`: a face and an unbounded
/// coordinate.
pub struct FaceCoord {
    pub face: int,
    pub coord: Ijk,
}

impl View for FaceIJK {
    type V = FaceCoord;

    open spec fn view(&self) -> FaceCoord {
        FaceCoord { face: self.face as int, coord: self.coord@ }
    }
}

/// How to carry a coordinate over into the frame of an adjacent face.
#[derive(Clone, Copy, Debug, PartialEq, Eq, Structural)]
pub struct FaceOrientIJK {
    /// The adjacent face.
    pub face: i32,
    /// The translation at resolution 0, in the frame of the adjacent face.
    pub translate: CoordIJK,
    /// The number of counter-clockwise turns of 60 degrees.
    pub ccwRot60: i32,
}

/// Where a coordinate lies relative to the face it was given on.
#[derive(Clone, Copy, Debug, PartialEq, Eq, Structural)]
pub enum Overage {
    /// On the face itself.
    NoOverage,
    /// On the edge of the face; only on substrate grids.
    FaceEdge,
    /// On the interior of an adjacent face.
    NewFace,
}

/// The quadrant of a face that borders its neighbour across the `ij` edge.
pub const IJ: usize = 1;

/// The quadrant of a face that borders its neighbour across the `ki` edge.
pub const KI: usize = 2;

/// The quadrant of a face that borders its neighbour across the `jk` edge.
pub const JK: usize = 3;

/// The largest component, in absolute value, that `_adjustOverageClassII`
/// takes.
pub const MAX_OVERAGE_COORD: i32 = 0x1000_0000;

impl Ijk {
    /// The sum of the three components.
    pub open spec fn sum(self) -> int {
        self.i + self.j + self.k
    }

    /// The point turned counter-clockwise `n` times.
    pub open spec fn rotated_ccw_times(self, n: nat) -> Ijk
        decreases n,
    {
        if n == 0 {
            self
        } else {
            self.rotated_ccw().rotated_ccw_times((n - 1) as nat)
        }
    }
}

/// The quadrant in which a coordinate leaves its face.
pub open spec fn overage_quadrant(c: Ijk) -> int {
    if c.k > 0 {
        if c.j > 0 {
            JK as int
        } else {
            KI as int
        }
    } else {
        IJ as int
    }
}

/// A coordinate that leaves the face of a pentagon through the `ki`
/// quadrant with leading digit 4 is first turned clockwise about the apex
/// of the face, which closes the gap of the missing sequence.
pub open spec fn overage_start(c: Ijk, res: int, pent_leading_4: bool, substrate: bool) -> Ijk {
    if overage_quadrant(c) == KI && pent_leading_4 {
        let origin = Ijk { i: max_dim(res, substrate), j: 0, k: 0 };
        c.minus(origin).rotated_cw().plus(origin)
    } else {
        c
    }
}

/// A coordinate past the edge of its face, carried over into the frame of
/// the adjacent face.
pub open spec fn carried_over(
    face: int,
    c: Ijk,
    res: int,
    pent_leading_4: bool,
    substrate: bool,
) -> Ijk {
    let orient = face_neighbor(face, overage_quadrant(c));
    overage_start(c, res, pent_leading_4, substrate).rotated_ccw_times(
        orient.ccwRot60 as nat,
    ).plus(orient.translate@.scaled(unit_scale(res, substrate))).normalized()
}

/// Whether a coordinate lies past the edge of its face.
pub open spec fn is_past_edge(c: Ijk, res: int, substrate: bool) -> bool {
    c.sum() > max_dim(res, substrate)
}

/// Whether a coordinate of a substrate grid lies on the edge of its face.
pub open spec fn is_on_edge(c: Ijk, res: int, substrate: bool) -> bool {
    substrate && c.sum() == max_dim(res, substrate)
}

/// The face on which a coordinate lies: the adjacent face of its quadrant
/// where it is past the edge, else the face it was given on.
#[verifier::opaque]
pub open spec fn adjusted_face(face: int, c: Ijk, res: int, substrate: bool) -> int {
    if !is_on_edge(c, res, substrate) && is_past_edge(c, res, substrate) {
        face_neighbor(face, overage_quadrant(c)).face as int
    } else {
        face
    }
}

/// The coordinate in the frame of the face on which it lies.
#[verifier::opaque]
pub open spec fn adjusted_coord(
    face: int,
    c: Ijk,
    res: int,
    pent_leading_4: bool,
    substrate: bool,
) -> Ijk {
    if !is_on_edge(c, res, substrate) && is_past_edge(c, res, substrate) {
        carried_over(face, c, res, pent_leading_4, substrate)
    } else {
        c
    }
}

/// What kind of overage a coordinate has.
#[verifier::opaque]
pub open spec fn overage_kind(
    face: int,
    c: Ijk,
    res: int,
    pent_leading_4: bool,
    substrate: bool,
) -> Overage {
    if is_on_edge(c, res, substrate) {
        Overage::FaceEdge
    } else if is_past_edge(c, res, substrate) {
        if is_on_edge(carried_over(face, c, res, pent_leading_4, substrate), res, substrate) {
            Overage::FaceEdge
        } else {
            Overage::NewFace
        }
    } else {
        Overage::NoOverage
    }
}

/// Turning a point any number of times keeps it in normal form and within
/// its span.
pub proof fn lemma_rotated_ccw_times(c: Ijk, n: nat)
    requires
        n > 0,
    ensures
        c.rotated_ccw_times(n).is_normal(),
        c.rotated_ccw_times(n).max_component() == c.max_component() - c.min_component(),
    decreases n,
{
    lemma_rotation_keeps_span(c);
    if n > 1 {
        lemma_rotated_ccw_times(c.rotated_ccw(), (n - 1) as nat);
    } else {
        assert(c.rotated_ccw().rotated_ccw_times(0) == c.rotated_ccw());
    }
}

/// A coordinate turned about the apex of its face lies no further from the
/// origin than before by more than twice the width of the face.
proof fn lemma_overage_start_span(c: Ijk, res: int, pent_leading_4: bool, bound: int)
    requires
        0 <= res <= 16,
        c.is_normal(),
        c.max_component() <= bound,
    ensures
        overage_start(c, res, pent_leading_4, false).span() <= bound + (if pent_leading_4 {
            23059205int
        } else {
            0int
        }),
{
    lemma_grid_sizes(res, false);
    if overage_quadrant(c) == KI && pent_leading_4 {
        let origin = Ijk { i: max_dim(res, false), j: 0, k: 0 };
        lemma_rotation_keeps_span(c.minus(origin));
    }
}

/// A coordinate turned and then moved by a translation lies, in normal
/// form, no further from the origin than its span and that of the
/// translation together.
proof fn lemma_turned_and_moved(start: Ijk, turns: nat, t: Ijk)
    ensures
        start.rotated_ccw_times(turns).plus(t).normalized().is_normal(),
        start.rotated_ccw_times(turns).plus(t).normalized().max_component() <= start.span()
            + t.span(),
{
    if turns > 0 {
        lemma_rotated_ccw_times(start, turns);
    }
    lemma_rotation_keeps_span(start);
    lemma_rotation_keeps_span(start.rotated_ccw_times(turns).plus(t));
}

/// The translation between the frames of two faces spans no more than two
/// units of the grid.
proof fn lemma_translation_span(t: Ijk, us: int)
    requires
        0 <= t.i <= 2,
        0 <= t.j <= 2,
        0 <= t.k <= 2,
        -1 <= us <= 5764801,
    ensures
        t.scaled(us).span() <= 11529602,
{
    assert(t.scaled(us).within(11529602) && (us >= 0 ==> t.scaled(us).i >= 0 && t.scaled(us).j >= 0
        && t.scaled(us).k >= 0)) by (nonlinear_arith)
        requires
            0 <= t.i <= 2,
            0 <= t.j <= 2,
            0 <= t.k <= 2,
            -1 <= us <= 5764801,
    ;
    if us < 0 {
        assert(t.scaled(us).i == -t.i && t.scaled(us).j == -t.j && t.scaled(us).k == -t.k)
            by (nonlinear_arith)
            requires
                us == -1,
        ;
    }
}

/// A coordinate that is found on its face is left where it is, and on a
/// grid that is no substrate grid none is found on an edge.
pub proof fn lemma_no_overage(face: int, c: Ijk, res: int, pent_leading_4: bool, substrate: bool)
    ensures
        overage_kind(face, c, res, pent_leading_4, substrate) == Overage::NoOverage ==> adjusted_face(
            face,
            c,
            res,
            substrate,
        ) == face && adjusted_coord(face, c, res, pent_leading_4, substrate) == c,
        !substrate ==> overage_kind(face, c, res, pent_leading_4, substrate) != Overage::FaceEdge,
{
    reveal(adjusted_face);
    reveal(adjusted_coord);
    reveal(overage_kind);
}

/// A coordinate in normal form stays in normal form when it is put into
/// the frame of the face on which it lies, and moves away from the origin
/// by no more than the translation between the two frames, and twice the
/// width of a face where it is first turned about the apex.
pub proof fn lemma_adjusted_coord_bound(
    face: int,
    c: Ijk,
    res: int,
    pent_leading_4: bool,
    bound: int,
)
    requires
        0 <= face < 20,
        0 <= res <= 16,
        c.is_normal(),
        c.max_component() <= bound,
    ensures
        adjusted_coord(face, c, res, pent_leading_4, false).is_normal(),
        adjusted_coord(face, c, res, pent_leading_4, false).max_component() <= bound + (
        if pent_leading_4 {
            34588807int
        } else {
            11529602int
        }),
        0 <= adjusted_face(face, c, res, false) < 20,
{
    reveal(adjusted_face);
    reveal(adjusted_coord);
    if is_past_edge(c, res, false) {
        let orient = face_neighbor(face, overage_quadrant(c));
        lemma_face_neighbors_bounded(face, overage_quadrant(c));
        lemma_grid_sizes(res, false);
        lemma_overage_start_span(c, res, pent_leading_4, bound);
        lemma_translation_span(orient.translate@, unit_scale(res, false));
        lemma_turned_and_moved(
            overage_start(c, res, pent_leading_4, false),
            orient.ccwRot60 as nat,
            orient.translate@.scaled(unit_scale(res, false)),
        );
    }
}

/// Turns a coordinate clockwise about the apex of its face.
fn turn_about_apex(ijk: &mut CoordIJK, maxDim: i32)
    requires
        old(ijk)@.within(MAX_OVERAGE_COORD as int),
        -3 <= maxDim <= 34588806,
    ensures
        final(ijk)@ == old(ijk)@.minus(Ijk { i: maxDim as int, j: 0, k: 0 }).rotated_cw().plus(
            Ijk { i: maxDim as int, j: 0, k: 0 },
        ),
        final(ijk)@.within(0x2800_0000),
{
    // translate origin to center of pentagon
    let mut origin: CoordIJK = CoordIJK { i: 0, j: 0, k: 0 };
    _setIJK(&mut origin, maxDim, 0, 0);
    let mut tmp: CoordIJK = CoordIJK { i: 0, j: 0, k: 0 };
    _ijkSub(*ijk, origin, &mut tmp);
    // rotate to adjust for the missing sequence
    proof {
        lemma_rotation_keeps_span(tmp@);
    }
    _ijkRotate60cw(&mut tmp);
    // translate the origin back to the center of the triangle
    _ijkAdd(tmp, origin, ijk);
}

/// Turns a coordinate counter-clockwise a number of times.
fn turn_ccw_times(ijk: &mut CoordIJK, turns: i32)
    requires
        0 <= turns,
        old(ijk)@.within(0x2800_0000),
    ensures
        final(ijk)@ == old(ijk)@.rotated_ccw_times(turns as nat),
        final(ijk)@.within(0x5000_0000),
        final(ijk)@.max_component() - final(ijk)@.min_component() <= 0x5000_0000,
{
    let ghost start = ijk@;
    let mut n: i32 = 0;
    while n < turns
        invariant
            0 <= n <= turns,
            ijk@ == start.rotated_ccw_times(n as nat),
            start.within(0x2800_0000),
            ijk@.within(0x5000_0000),
            ijk@.max_component() - ijk@.min_component() <= 0x5000_0000,
        decreases turns - n,
    {
        proof {
            lemma_rotation_keeps_span(ijk@);
            lemma_rotation_keeps_span(start);
            if n > 0 {
                lemma_rotated_ccw_times(start, n as nat);
            }
            lemma_rotated_ccw_times_step(start, n as nat);
        }
        _ijkRotate60ccw(ijk);
        n = n + 1;
    }
}

/// Carries a coordinate over into the frame of an adjacent face.
fn carry_over(ijk: &mut CoordIJK, orient: FaceOrientIJK, unitScale: i32)
    requires
        old(ijk)@.within(0x2800_0000),
        0 <= orient.ccwRot60,
        0 <= orient.translate.i <= 2,
        0 <= orient.translate.j <= 2,
        0 <= orient.translate.k <= 2,
        -3 <= unitScale <= 17294403,
    ensures
        final(ijk)@ == old(ijk)@.rotated_ccw_times(orient.ccwRot60 as nat).plus(
            orient.translate@.scaled(unitScale as int),
        ).normalized(),
{
    turn_ccw_times(ijk, orient.ccwRot60);
    let mut transVec: CoordIJK = orient.translate;
    assert(transVec@.scaled(unitScale as int).within(34588806)) by (nonlinear_arith)
        requires
            -3 <= unitScale <= 17294403,
            0 <= transVec.i <= 2,
            0 <= transVec.j <= 2,
            0 <= transVec.k <= 2,
    ;
    _ijkScale(&mut transVec, unitScale);
    let turned: CoordIJK = *ijk;
    _ijkAdd(turned, transVec, ijk);
    _ijkNormalize(ijk);
}

/// The sum of the three components.
fn component_sum(ijk: CoordIJK) -> (sum: i64)
    ensures
        sum == ijk@.sum(),
{
    ijk.i as i64 + ijk.j as i64 + ijk.k as i64
}

/// Puts a coordinate that has run past the edge of its face into the frame
/// of the adjacent face on which it lies. The grid is that of a Class II
/// resolution, or its substrate grid. Says what was found: nothing to do,
/// a point on the edge of the face (substrate grids only), or a new face.
pub fn _adjustOverageClassII(
    fijk: &mut FaceIJK,
    res: i32,
    pentLeading4: bool,
    substrate: bool,
) -> (overage: Overage)
    requires
        0 <= res <= 16,
        0 <= old(fijk).face < 20,
        old(fijk).coord@.within(MAX_OVERAGE_COORD as int),
    ensures
        overage == overage_kind(
            old(fijk).face as int,
            old(fijk).coord@,
            res as int,
            pentLeading4,
            substrate,
        ),
        final(fijk).face == adjusted_face(
            old(fijk).face as int,
            old(fijk).coord@,
            res as int,
            substrate,
        ),
        final(fijk).coord@ == adjusted_coord(
            old(fijk).face as int,
            old(fijk).coord@,
            res as int,
            pentLeading4,
            substrate,
        ),
        0 <= final(fijk).face < 20,
        overage == Overage::NoOverage ==> *final(fijk) == *old(fijk),
        !substrate ==> overage != Overage::FaceEdge,
{
    proof {
        reveal(adjusted_face);
        reveal(adjusted_coord);
        reveal(overage_kind);
    }
    let mut overage = Overage::NoOverage;
    let mut ijk: CoordIJK = fijk.coord;
    let ghost start = fijk.coord@;
    let ghost face0 = fijk.face as int;

    // get the maximum dimension value; scale if a substrate grid
    let maxDim: i32 = max_dim_of(res, substrate);

    // check for overage
    if substrate && component_sum(ijk) == maxDim as i64 {
        // on edge
        overage = Overage::FaceEdge;
    } else if component_sum(ijk) > maxDim as i64 {
        // overage
        overage = Overage::NewFace;

        let fijkOrient: FaceOrientIJK;
        if ijk.k > 0 {
            if ijk.j > 0 {
                // jk "quadrant"
                fijkOrient = faceNeighbor(fijk.face, JK);
            } else {
                // ik "quadrant"
                fijkOrient = faceNeighbor(fijk.face, KI);

                // adjust for the pentagonal missing sequence
                if pentLeading4 {
                    turn_about_apex(&mut ijk, maxDim);
                }
            }
        } else {
            // ij "quadrant"
            fijkOrient = faceNeighbor(fijk.face, IJ);
        }
        proof {
            lemma_face_neighbors_bounded(face0, overage_quadrant(start));
        }

        fijk.face = fijkOrient.face;

        // rotate and translate for adjacent face
        let unitScale: i32 = unit_scale_of(res, substrate);
        carry_over(&mut ijk, fijkOrient, unitScale);

        // overage points on pentagon boundaries can end up on edges
        if substrate && component_sum(ijk) == maxDim as i64 {
            // on edge
            overage = Overage::FaceEdge;
        }
    }
    fijk.coord = ijk;
    overage
}

/// One more turn after `n` turns is `n + 1` turns.
pub proof fn lemma_rotated_ccw_times_step(c: Ijk, n: nat)
    ensures
        c.rotated_ccw_times(n).rotated_ccw() == c.rotated_ccw_times(n + 1),
    decreases n,
{
    if n > 0 {
        lemma_rotated_ccw_times_step(c.rotated_ccw(), (n - 1) as nat);
    } else {
        assert(c.rotated_ccw().rotated_ccw_times(0) == c.rotated_ccw());
    }
}

} // verus!
