//! General properties of the stroker, stated and proved once for all
//! inputs: output counts, dot extent, rectangle area of axis-aligned
//! segments, determinism, and degenerate-segment handling.

use crate::geom::PointV;
use crate::geom::abs_val;
use crate::num::is_sqrt;
use crate::num::lemma_qdiv_exact;
use crate::num::lemma_sqrt_of;
use crate::num::qdiv;
use crate::stroke::CmdV;
use crate::stroke::Diagnostic;
use crate::stroke::cmd_target;
use crate::stroke::dot_outline;
use crate::stroke::half_width_along;
use crate::stroke::seg_outline;
use crate::stroke::stroke_diagnostics_spec;
use crate::stroke::stroke_outlines_spec;
use vstd::prelude::*;

verus! {

/// Twice the signed area of the quadrilateral `c0 c1 c2 c3` (shoelace
/// formula).
pub open spec fn quad_area_x2(c0: PointV, c1: PointV, c2: PointV, c3: PointV) -> int {
    (c0.x * c1.y - c1.x * c0.y) + (c1.x * c2.y - c2.x * c1.y) + (c2.x * c3.y - c3.x * c2.y) + (
    c3.x * c0.y - c0.x * c3.y)
}

/// For every point sequence and width, the stroker owes a finite
/// command sequence: no outline for an empty sequence, one for a single
/// point, one per consecutive pair otherwise, and every outline consists
/// of exactly five commands (one move and four straight edges).
pub proof fn lemma_stroke_finite(pts: Seq<PointV>, w: int)
    ensures
        stroke_outlines_spec(pts, w).len() == if pts.len() == 0 {
            0int
        } else if pts.len() == 1 {
            1int
        } else {
            pts.len() - 1
        },
        forall|i: int|
            0 <= i < stroke_outlines_spec(pts, w).len() ==> (#[trigger] stroke_outlines_spec(
                pts,
                w,
            )[i]).len() == 5,
{
}

/// An empty point sequence produces no outlines and exactly one
/// warning-level diagnostic.
pub proof fn lemma_empty_points(w: int)
    ensures
        stroke_outlines_spec(Seq::<PointV>::empty(), w).len() == 0,
        stroke_diagnostics_spec(Seq::<PointV>::empty()) == seq![Diagnostic::EmptyPoints],
{
}

/// A single point produces exactly one outline: the square dot of side
/// `2 * (w / 2)` centered on the point.
pub proof fn lemma_single_point_dot(p: PointV, w: int)
    ensures
        stroke_outlines_spec(seq![p], w) == seq![dot_outline(p, w)],
{
}

/// Every command of the dot outline stays within the square of
/// half-side `w / 2` around `p`, and opposite corners of that square
/// are attained, so the bounding region of the dot has extent
/// `2 * (w / 2)` in each axis, centered on `p`.
pub proof fn lemma_dot_extent(p: PointV, w: int)
    requires
        0 <= w,
    ensures
        dot_outline(p, w).len() == 5,
        forall|i: int|
            0 <= i < 5 ==> {
                let c = cmd_target(#[trigger] dot_outline(p, w)[i]);
                p.x - w / 2 <= c.x <= p.x + w / 2 && p.y - w / 2 <= c.y <= p.y + w / 2
            },
        cmd_target(dot_outline(p, w)[0]) == (PointV { x: p.x - w / 2, y: p.y - w / 2 }),
        cmd_target(dot_outline(p, w)[2]) == (PointV { x: p.x + w / 2, y: p.y + w / 2 }),
        cmd_target(dot_outline(p, w)[2]).x - cmd_target(dot_outline(p, w)[0]).x == 2 * (w / 2),
        cmd_target(dot_outline(p, w)[2]).y - cmd_target(dot_outline(p, w)[0]).y == 2 * (w / 2),
{
}

/// A polyline of `n >= 2` points is decomposed into exactly `n - 1`
/// independently stroked segments: the outline at index `i` is the
/// stroke of the segment from point `i` to point `i + 1`.
pub proof fn lemma_segment_decomposition(pts: Seq<PointV>, w: int)
    requires
        pts.len() >= 2,
    ensures
        stroke_outlines_spec(pts, w).len() == pts.len() - 1,
        forall|i: int|
            0 <= i < pts.len() - 1 ==> #[trigger] stroke_outlines_spec(pts, w)[i] == seg_outline(
                pts[i],
                pts[i + 1],
                w,
            ),
{
}

/// Stroking is a pure function of the line value: any two outline
/// sequences that satisfy the stroker's contract for the same points
/// and width are identical.
pub proof fn lemma_stroke_deterministic(
    pts: Seq<PointV>,
    w: int,
    r1: Seq<Seq<CmdV>>,
    r2: Seq<Seq<CmdV>>,
)
    requires
        r1 == stroke_outlines_spec(pts, w),
        r2 == stroke_outlines_spec(pts, w),
    ensures
        r1 == r2,
{
}

/// A degenerate segment of two identical points yields the same square
/// dot as the single point itself; no segment direction is ever
/// normalized for it, so no division by a zero length occurs.
pub proof fn lemma_degenerate_segment(a: PointV, w: int)
    ensures
        seg_outline(a, a, w) == dot_outline(a, w),
        stroke_outlines_spec(seq![a, a], w) == seq![dot_outline(a, w)],
{
    assert(stroke_outlines_spec(seq![a, a], w) =~= seq![dot_outline(a, w)]);
}

/// The shoelace sum of the stroked rectangle, for arbitrary endpoint
/// and offset coordinates.  The corners follow the pattern of
/// `seg_outline`: `a - e + n`, `b + e + n`, `b + e - n`, `a - e - n`
/// with `n` the left-hand perpendicular of `e`.
#[verifier::rlimit(60)]
proof fn lemma_rect_shoelace(ax: int, ay: int, bx: int, by: int, ex: int, ey: int)
    by (nonlinear_arith)
    ensures
        quad_area_x2(
            PointV { x: ax - ex - ey, y: ay - ey + ex },
            PointV { x: bx + ex - ey, y: by + ey + ex },
            PointV { x: bx + ex + ey, y: by + ey - ex },
            PointV { x: ax - ex + ey, y: ay - ey - ex },
        ) == -4 * (ex * ((bx - ax) + 2 * ex) + ey * ((by - ay) + 2 * ey)),
{
}

/// For an axis-aligned segment of even width, the stroked outline is a
/// rectangle whose area is exactly `w * (d + w)`: the stroked length
/// `d` plus the two square caps of half-width `w / 2` each, times the
/// stroke width.
pub proof fn lemma_axis_aligned_area(a: PointV, b: PointV, w: int)
    requires
        a.x == b.x || a.y == b.y,
        a != b,
        0 <= w,
        w % 2 == 0,
    ensures
        ({
            let o = seg_outline(a, b, w);
            let d = abs_val(b.x - a.x) + abs_val(b.y - a.y);
            abs_val(
                quad_area_x2(
                    cmd_target(o[0]),
                    cmd_target(o[1]),
                    cmd_target(o[2]),
                    cmd_target(o[3]),
                ),
            ) == 2 * w * (d + w)
        }),
{
    let dx = b.x - a.x;
    let dy = b.y - a.y;
    let h = w / 2;
    let d = abs_val(dx) + abs_val(dy);
    assert(w == 2 * h);
    assert(is_sqrt(dx * dx + dy * dy, d)) by (nonlinear_arith)
        requires
            dx == 0 || dy == 0,
            d == abs_val(dx) + abs_val(dy);
    lemma_sqrt_of(dx * dx + dy * dy, d);
    let e = half_width_along(a, b, w);
    assert(d >= 1);
    if dy == 0 {
        assert(e.y == qdiv(0 * d, 2 * d)) by {
            assert(w * dy == 0 * (2 * d)) by (nonlinear_arith)
                requires
                    dy == 0;
        }
        lemma_qdiv_exact(0, 2 * d);
        assert(e.y == 0);
        if dx > 0 {
            assert(w * dx == h * (2 * d)) by (nonlinear_arith)
                requires
                    w == 2 * h && d == dx;
            lemma_qdiv_exact(h, 2 * d);
            assert(e.x == h);
        } else {
            assert(w * dx == (-h) * (2 * d)) by (nonlinear_arith)
                requires
                    w == 2 * h && d == -dx;
            lemma_qdiv_exact(-h, 2 * d);
            assert(e.x == -h);
        }
        lemma_rect_shoelace(a.x, a.y, b.x, b.y, e.x, e.y);
        assert(-4 * (e.x * (dx + 2 * e.x) + e.y * (dy + 2 * e.y)) == -4 * (h * (d + 2 * h)))
            by (nonlinear_arith)
            requires
                e.y == 0,
                (dx > 0 && e.x == h && d == dx) || (dx < 0 && e.x == -h && d == -dx);
        assert(abs_val(-4 * (h * (d + 2 * h))) == 2 * w * (d + w)) by (nonlinear_arith)
            requires
                0 <= h,
                1 <= d,
                w == 2 * h;
    } else {
        assert(dx == 0);
        assert(e.x == qdiv(0 * d, 2 * d)) by {
            assert(w * dx == 0 * (2 * d)) by (nonlinear_arith)
                requires
                    dx == 0;
        }
        lemma_qdiv_exact(0, 2 * d);
        assert(e.x == 0);
        if dy > 0 {
            assert(w * dy == h * (2 * d)) by (nonlinear_arith)
                requires
                    w == 2 * h && d == dy;
            lemma_qdiv_exact(h, 2 * d);
            assert(e.y == h);
        } else {
            assert(w * dy == (-h) * (2 * d)) by (nonlinear_arith)
                requires
                    w == 2 * h && d == -dy;
            lemma_qdiv_exact(-h, 2 * d);
            assert(e.y == -h);
        }
        lemma_rect_shoelace(a.x, a.y, b.x, b.y, e.x, e.y);
        assert(-4 * (e.x * (dx + 2 * e.x) + e.y * (dy + 2 * e.y)) == -4 * (h * (d + 2 * h)))
            by (nonlinear_arith)
            requires
                e.x == 0,
                (dy > 0 && e.y == h && d == dy) || (dy < 0 && e.y == -h && d == -dy);
        assert(abs_val(-4 * (h * (d + 2 * h))) == 2 * w * (d + w)) by (nonlinear_arith)
            requires
                0 <= h,
                1 <= d,
                w == 2 * h;
    }
}

} // verus!
