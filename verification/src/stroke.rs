//! The stroker: expands `(points, width)` into outline paths.
//!
//! Segment-independent mode: the polyline is decomposed into consecutive
//! point pairs and each segment is stroked into its own rectangular
//! outline with square caps (each cap extends half the width beyond the
//! endpoint along the segment direction).  A single point, and a
//! degenerate segment of two identical points, produce a square dot
//! centered on the point.  An empty point sequence produces no outlines
//! and one warning-level diagnostic.  No input causes a failure.

use crate::geom::Point;
use crate::geom::PointV;
use crate::geom::point_in_range;
use crate::geom::width_in_range;
use crate::line::Color;
use crate::line::Line;
use crate::num::div_trunc;
use crate::num::isqrt;
use crate::num::lemma_qdiv_bound;
use crate::num::lemma_sqrt_ge_component;
use crate::num::qdiv;
use crate::num::sqrt_of;
use vstd::prelude::*;

verus! {

/// One drawing command of an outline path.  `MoveTo` starts a new
/// contour, `LineTo` extends the current contour with a straight edge.
#[derive(Clone, Copy, Debug, PartialEq, Eq, Structural)]
pub enum Command {
    MoveTo(Point),
    LineTo(Point),
}

/// The mathematical view of a drawing command.
pub enum CmdV {
    MoveTo(PointV),
    LineTo(PointV),
}

impl View for Command {
    type V = CmdV;

    open spec fn view(&self) -> CmdV {
        match *self {
            Command::MoveTo(p) => CmdV::MoveTo(p@),
            Command::LineTo(p) => CmdV::LineTo(p@),
        }
    }
}

/// The point a command draws to.
pub open spec fn cmd_target(c: CmdV) -> PointV {
    match c {
        CmdV::MoveTo(p) => p,
        CmdV::LineTo(p) => p,
    }
}

/// One outline path: an ordered sequence of drawing commands whose
/// filled interior renders one stroked element.
#[derive(Clone, Debug, PartialEq)]
pub struct Outline {
    pub commands: Vec<Command>,
}

impl View for Outline {
    type V = Seq<CmdV>;

    open spec fn view(&self) -> Seq<CmdV> {
        self.commands@.map_values(|c: Command| c@)
    }
}

/// A non-fatal condition reported by the stroker.
#[derive(Clone, Copy, Debug, PartialEq, Eq, Structural)]
pub enum Diagnostic {
    /// A line must have at least one point to produce any output.
    EmptyPoints,
}

/// Everything one stroking pass produces: the outlines, the diagnostics,
/// and the paint color passed through unchanged.
#[derive(Clone, Debug, PartialEq)]
pub struct StrokeOutput {
    pub outlines: Vec<Outline>,
    pub diagnostics: Vec<Diagnostic>,
    pub color: Color,
}

/// The square dot emitted for a single point (or a degenerate segment):
/// the square of side `2 * (w / 2)` centered on `p`, drawn as a closed
/// contour of four edges.
pub open spec fn dot_outline(p: PointV, w: int) -> Seq<CmdV> {
    let h = w / 2;
    seq![
        CmdV::MoveTo(PointV { x: p.x - h, y: p.y - h }),
        CmdV::LineTo(PointV { x: p.x + h, y: p.y - h }),
        CmdV::LineTo(PointV { x: p.x + h, y: p.y + h }),
        CmdV::LineTo(PointV { x: p.x - h, y: p.y + h }),
        CmdV::LineTo(PointV { x: p.x - h, y: p.y - h }),
    ]
}

/// Half the width, as an offset vector along the segment from `a` to
/// `b`: `(w * d) / (2 * len)` in each coordinate, rounded toward zero,
/// where `len` is the integer square root of the squared segment length.
pub open spec fn half_width_along(a: PointV, b: PointV, w: int) -> PointV
    recommends
        a != b,
{
    let dx = b.x - a.x;
    let dy = b.y - a.y;
    let l = sqrt_of(dx * dx + dy * dy);
    PointV { x: qdiv(w * dx, 2 * l), y: qdiv(w * dy, 2 * l) }
}

/// The outline of one stroked segment from `a` to `b`: a degenerate
/// segment yields a dot; otherwise the rectangle swept half the width to
/// each side of the segment, extended half the width beyond both
/// endpoints (square caps), drawn as a closed contour of four edges.
///
/// With `e = (ex, ey)` half the width along the segment direction, the
/// perpendicular half-width offset is `n = (-ey, ex)`, and the corners
/// are `a - e + n`, `b + e + n`, `b + e - n`, `a - e - n`.
pub open spec fn seg_outline(a: PointV, b: PointV, w: int) -> Seq<CmdV> {
    if a == b {
        dot_outline(a, w)
    } else {
        let e = half_width_along(a, b, w);
        seq![
            CmdV::MoveTo(PointV { x: a.x - e.x - e.y, y: a.y - e.y + e.x }),
            CmdV::LineTo(PointV { x: b.x + e.x - e.y, y: b.y + e.y + e.x }),
            CmdV::LineTo(PointV { x: b.x + e.x + e.y, y: b.y + e.y - e.x }),
            CmdV::LineTo(PointV { x: a.x - e.x + e.y, y: a.y - e.y - e.x }),
            CmdV::LineTo(PointV { x: a.x - e.x - e.y, y: a.y - e.y + e.x }),
        ]
    }
}

/// The outlines the stroker owes for a point sequence: none for an empty
/// sequence, one dot for a single point, and one outline per consecutive
/// point pair otherwise.
pub open spec fn stroke_outlines_spec(pts: Seq<PointV>, w: int) -> Seq<Seq<CmdV>> {
    if pts.len() == 0 {
        seq![]
    } else if pts.len() == 1 {
        seq![dot_outline(pts[0], w)]
    } else {
        Seq::new((pts.len() - 1) as nat, |i: int| seg_outline(pts[i], pts[i + 1], w))
    }
}

/// The diagnostics the stroker owes: exactly one `EmptyPoints` warning
/// for an empty point sequence, none otherwise.
pub open spec fn stroke_diagnostics_spec(pts: Seq<PointV>) -> Seq<Diagnostic> {
    if pts.len() == 0 {
        seq![Diagnostic::EmptyPoints]
    } else {
        seq![]
    }
}

/// The view of a point vector.
pub open spec fn points_view(pts: Seq<Point>) -> Seq<PointV> {
    pts.map_values(|p: Point| p@)
}

/// All points of the line and its width are within the accepted range.
pub open spec fn strokable(line: Line) -> bool {
    &&& forall|i: int|
        0 <= i < line.points@.len() ==> point_in_range(#[trigger] line.points@[i]@)
    &&& width_in_range(line.width as int)
}

/// The dot outline for one point, as executable code.
fn dot_outline_at(p: Point, w: i64) -> (r: Outline)
    requires
        point_in_range(p@),
        width_in_range(w as int),
    ensures
        r@ == dot_outline(p@, w as int),
{
    let h = div_trunc(w, 2);
    assert(h as int == w as int / 2);
    let c0 = Point { x: p.x - h, y: p.y - h };
    let c1 = Point { x: p.x + h, y: p.y - h };
    let c2 = Point { x: p.x + h, y: p.y + h };
    let c3 = Point { x: p.x - h, y: p.y + h };
    let mut commands: Vec<Command> = Vec::new();
    commands.push(Command::MoveTo(c0));
    commands.push(Command::LineTo(c1));
    commands.push(Command::LineTo(c2));
    commands.push(Command::LineTo(c3));
    commands.push(Command::LineTo(c0));
    let r = Outline { commands };
    proof {
        assert(r@ =~= dot_outline(p@, w as int));
    }
    r
}

/// The outline for one stroked segment, as executable code.
fn stroke_segment(a: Point, b: Point, w: i64) -> (r: Outline)
    requires
        point_in_range(a@),
        point_in_range(b@),
        width_in_range(w as int),
    ensures
        r@ == seg_outline(a@, b@, w as int),
{
    if a.x == b.x && a.y == b.y {
        let r = dot_outline_at(a, w);
        proof {
            assert(a@ == b@);
        }
        r
    } else {
        let dx = b.x - a.x;
        let dy = b.y - a.y;
        assert(0 <= dx * dx <= 0x10_0000_0000_0000) by (nonlinear_arith)
            requires
                -2097152 <= dx <= 2097152;
        assert(0 <= dy * dy <= 0x10_0000_0000_0000) by (nonlinear_arith)
            requires
                -2097152 <= dy <= 2097152;
        assert(dx * dx + dy * dy >= 1) by (nonlinear_arith)
            requires
                dx != 0 || dy != 0;
        let n2 = dx * dx + dy * dy;
        let l = isqrt(n2);
        proof {
            lemma_sqrt_ge_component(dx as int, dy as int, l as int);
            assert(l >= 1);
        }
        assert(-(w as int * (2 * l as int)) <= w as int * dx as int <= w as int * (2 * l as int))
            by (nonlinear_arith)
            requires
                0 <= w,
                -(l as int) <= dx as int <= l as int;
        assert(-(w as int * (2 * l as int)) <= w as int * dy as int <= w as int * (2 * l as int))
            by (nonlinear_arith)
            requires
                0 <= w,
                -(l as int) <= dy as int <= l as int;
        assert(w * dx <= 0x4000_0000_0000_0000 && w * dx >= -0x4000_0000_0000_0000)
            by (nonlinear_arith)
            requires
                0 <= w <= 1048576,
                -2097152 <= dx <= 2097152;
        assert(w * dy <= 0x4000_0000_0000_0000 && w * dy >= -0x4000_0000_0000_0000)
            by (nonlinear_arith)
            requires
                0 <= w <= 1048576,
                -2097152 <= dy <= 2097152;
        let ex = div_trunc(w * dx, 2 * l);
        let ey = div_trunc(w * dy, 2 * l);
        proof {
            lemma_qdiv_bound(w as int * dx as int, 2 * l as int, w as int);
            lemma_qdiv_bound(w as int * dy as int, 2 * l as int, w as int);
        }
        let c0 = Point { x: a.x - ex - ey, y: a.y - ey + ex };
        let c1 = Point { x: b.x + ex - ey, y: b.y + ey + ex };
        let c2 = Point { x: b.x + ex + ey, y: b.y + ey - ex };
        let c3 = Point { x: a.x - ex + ey, y: a.y - ey - ex };
        let mut commands: Vec<Command> = Vec::new();
        commands.push(Command::MoveTo(c0));
        commands.push(Command::LineTo(c1));
        commands.push(Command::LineTo(c2));
        commands.push(Command::LineTo(c3));
        commands.push(Command::LineTo(c0));
        let r = Outline { commands };
        proof {
            assert(a@ != b@);
            let e = half_width_along(a@, b@, w as int);
            assert(e.x == ex as int && e.y == ey as int);
            assert(r@ =~= seg_outline(a@, b@, w as int));
        }
        r
    }
}

/// Strokes `line`: expands its point sequence at its width into outline
/// paths, one per stroked element, together with the diagnostics owed
/// and the line's color.  Pure function of the line value; total over
/// the accepted input range.
pub fn stroke(line: &Line) -> (r: StrokeOutput)
    requires
        strokable(*line),
    ensures
        r.outlines@.map_values(|o: Outline| o@) == stroke_outlines_spec(
            points_view(line.points@),
            line.width as int,
        ),
        r.diagnostics@ == stroke_diagnostics_spec(points_view(line.points@)),
        r.color == line.color,
{
    let ghost pv = points_view(line.points@);
    let mut outlines: Vec<Outline> = Vec::new();
    let mut diagnostics: Vec<Diagnostic> = Vec::new();
    let n = line.points.len();
    if n == 0 {
        diagnostics.push(Diagnostic::EmptyPoints);
        proof {
            assert(diagnostics@ =~= stroke_diagnostics_spec(pv));
            assert(outlines@.map_values(|o: Outline| o@) =~= stroke_outlines_spec(
                pv,
                line.width as int,
            ));
        }
    } else if n == 1 {
        let o = dot_outline_at(line.points[0], line.width);
        outlines.push(o);
        proof {
            assert(pv[0] == line.points@[0]@);
            assert(outlines@.map_values(|o: Outline| o@) =~= stroke_outlines_spec(
                pv,
                line.width as int,
            ));
            assert(diagnostics@ =~= stroke_diagnostics_spec(pv));
        }
    } else {
        let mut i: usize = 0;
        while i + 1 < n
            invariant
                strokable(*line),
                pv == points_view(line.points@),
                n == line.points@.len(),
                2 <= n,
                0 <= i <= n - 1,
                outlines@.len() == i,
                forall|j: int|
                    0 <= j < i ==> (#[trigger] outlines@[j])@ == seg_outline(
                        pv[j],
                        pv[j + 1],
                        line.width as int,
                    ),
            decreases n - i,
        {
            let o = stroke_segment(line.points[i], line.points[i + 1], line.width);
            proof {
                assert(pv[i as int] == line.points@[i as int]@);
                assert(pv[i + 1] == line.points@[i + 1]@);
            }
            outlines.push(o);
            i = i + 1;
        }
        proof {
            assert(i == n - 1);
            assert(outlines@.map_values(|o: Outline| o@) =~= stroke_outlines_spec(
                pv,
                line.width as int,
            ));
            assert(diagnostics@ =~= stroke_diagnostics_spec(pv));
        }
    }
    StrokeOutput { outlines, diagnostics, color: line.color }
}

} // verus!
