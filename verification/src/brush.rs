//! A brush of a given thickness.
//!
//! The brush is the set of integer pixel offsets inside a disk of
//! diameter equal to the thickness; stamping it at every point of a
//! line thickens the line into a stroke.

use vstd::prelude::*;

verus! {

/// Whether offset `(di, dj)` belongs to the disk stamp of the given
/// thickness: `4*di^2 + 4*dj^2 <= thickness^2`, scanned over the
/// half-open square `[-thickness, thickness)`.
pub open spec fn brush_pred(th: int, di: int, dj: int) -> bool {
    &&& -th <= di < th
    &&& -th <= dj < th
    &&& 4 * (di * di) + 4 * (dj * dj) <= th * th
}

/// A brush that thickens a line or curve: a disk-shaped stamp of
/// integer pixel offsets.
#[derive(Clone, Debug)]
pub struct Brush {
    /// The thickness the stamp was built for.
    pub thickness: i32,
    /// The offsets of the stamp, in scan order.
    pub points: Vec<(i32, i32)>,
}

/// Pushing one element extends a sequence's membership by that
/// element.
proof fn lemma_push_contains<A>(s: Seq<A>, v: A, x: A)
    ensures
        s.push(v).contains(x) <==> (s.contains(x) || x == v),
{
    if s.push(v).contains(x) {
        let i = choose|i: int| 0 <= i < s.push(v).len() && s.push(v)[i] == x;
        if i < s.len() {
            assert(s[i] == x);
        }
    }
    if s.contains(x) {
        let i = choose|i: int| 0 <= i < s.len() && s[i] == x;
        assert(s.push(v)[i] == x);
    }
    if x == v {
        assert(s.push(v)[s.len() as int] == x);
    }
}

/// The offsets listed before reaching scan position `(i, j)`.
spec fn brush_upto(th: int, i: int, j: int, q: (i32, i32)) -> bool {
    &&& brush_pred(th, q.0 as int, q.1 as int)
    &&& (q.0 < i || (q.0 == i && q.1 < j))
}

impl Brush {
    /// The stamp holds exactly the offsets of the disk of its
    /// thickness.
    pub open spec fn wf(self) -> bool {
        forall|q: (i32, i32)|
            self.points@.contains(q) <==> brush_pred(self.thickness as int, q.0 as int, q.1 as int)
    }

    /// Build the disk stamp for the given thickness.  A thickness of
    /// zero or less yields an empty stamp: a valid, degenerate brush.
    pub fn new(thickness: i32) -> (b: Brush)
        requires
            -crate::bezier::MAX_THICKNESS <= thickness <= crate::bezier::MAX_THICKNESS,
        ensures
            b.thickness == thickness,
            b.wf(),
    {
        let mut points: Vec<(i32, i32)> = Vec::new();
        if thickness <= 0 {
            proof {
                assert forall|q: (i32, i32)| !brush_pred(thickness as int, q.0 as int, q.1 as int)
                by {}
            }
            return Brush { thickness, points };
        }
        let th: i32 = thickness;
        let mut i: i32 = -th;
        while i < th
            invariant
                0 < th <= 10000,
                -th <= i <= th,
                forall|q: (i32, i32)|
                    points@.contains(q) <==> brush_upto(th as int, i as int, -th as int, q),
            decreases th - i,
        {
            let mut j: i32 = -th;
            while j < th
                invariant
                    0 < th <= 10000,
                    -th <= i < th,
                    -th <= j <= th,
                    forall|q: (i32, i32)|
                        points@.contains(q) <==> brush_upto(th as int, i as int, j as int, q),
                decreases th - j,
            {
                let ghost before = points@;
                proof {
                    assert((i as int) * (i as int) <= 100000000 && (j as int) * (j as int)
                        <= 100000000 && 0 <= (th as int) * (th as int) <= 100000000
                        && 0 <= (i as int) * (i as int) && 0 <= (j as int) * (j as int))
                        by (nonlinear_arith)
                        requires -10000 <= i <= 10000 && -10000 <= j <= 10000 && 0 < th <= 10000,
                    ;
                }
                if 4 * (i * i) + 4 * (j * j) <= th * th {
                    points.push((i, j));
                    proof {
                        assert forall|q: (i32, i32)|
                            points@.contains(q) <==> brush_upto(th as int, i as int, j as int + 1, q)
                        by {
                            lemma_push_contains(before, (i, j), q);
                            assert(before.contains(q) <==> brush_upto(
                                th as int,
                                i as int,
                                j as int,
                                q,
                            ));
                        }
                    }
                } else {
                    proof {
                        assert forall|q: (i32, i32)|
                            points@.contains(q) <==> brush_upto(th as int, i as int, j as int + 1, q)
                        by {
                            assert(points@.contains(q) <==> brush_upto(
                                th as int,
                                i as int,
                                j as int,
                                q,
                            ));
                        }
                    }
                }
                j = j + 1;
            }
            proof {
                assert forall|q: (i32, i32)|
                    brush_upto(th as int, i as int, th as int, q) <==> brush_upto(
                        th as int,
                        i as int + 1,
                        -th as int,
                        q,
                    )
                by {}
            }
            i = i + 1;
        }
        proof {
            assert forall|q: (i32, i32)|
                brush_upto(th as int, th as int, -th as int, q) <==> brush_pred(
                    th as int,
                    q.0 as int,
                    q.1 as int,
                )
            by {}
        }
        Brush { thickness, points }
    }
}

} // verus!
