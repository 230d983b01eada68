//! The `Line` data holder: an ordered sequence of points plus stroke
//! width and color, with builder-style mutation.

use crate::geom::MAX_COORD;
use crate::geom::Point;
use vstd::prelude::*;

verus! {

/// An opaque paint value, passed through unchanged to the renderer.
/// Channels are hue, saturation, lightness and alpha, each in
/// thousandths of full scale (0 ..= 1000).
#[derive(Clone, Copy, Debug, PartialEq, Eq, Structural)]
pub struct Color {
    pub h: u16,
    pub s: u16,
    pub l: u16,
    pub a: u16,
}

impl Color {
    /// Opaque black.
    pub fn black() -> (c: Color)
        ensures
            c == (Color { h: 0u16, s: 0u16, l: 0u16, a: 1000u16 }),
    {
        Color { h: 0, s: 0, l: 0, a: 1000 }
    }
}

/// A width passed to the fluent setter is clamped into the accepted
/// range: negative values become 0, values over `MAX_COORD` become
/// `MAX_COORD`.
pub open spec fn clamp_width(w: int) -> int {
    if w < 0 {
        0
    } else if w > MAX_COORD as int {
        MAX_COORD as int
    } else {
        w
    }
}

/// An ordered sequence of 2D points plus width and color.  Insertion
/// order is significant: it defines the polyline traversal order.
/// Consecutive duplicate points are legal; no deduplication or
/// reordering is performed.
#[derive(Clone, Debug, PartialEq)]
pub struct Line {
    pub points: Vec<Point>,
    pub width: i64,
    pub color: Color,
}

impl Line {
    /// An empty line with default width (1 unit) and opaque black color.
    pub fn new() -> (line: Line)
        ensures
            line.points@.len() == 0,
            line.width == 1i64,
            line.color == (Color { h: 0u16, s: 0u16, l: 0u16, a: 1000u16 }),
    {
        Line { points: Vec::new(), width: 1, color: Color::black() }
    }

    /// A line containing exactly the two points `[start, end]`, with the
    /// default width and color.
    pub fn between_points(start: Point, end: Point) -> (line: Line)
        ensures
            line.points@ == seq![start, end],
            line.width == 1i64,
            line.color == (Color { h: 0u16, s: 0u16, l: 0u16, a: 1000u16 }),
    {
        let mut line = Self::new();
        line.add_point(start);
        line.add_point(end);
        proof {
            assert(line.points@ =~= seq![start, end]);
        }
        line
    }

    /// Fluent width setter.  The width is clamped into the accepted
    /// range (negative widths become 0).
    pub fn width(self, width: i64) -> (line: Line)
        ensures
            line.width as int == clamp_width(width as int),
            line.points@ == self.points@,
            line.color == self.color,
    {
        let w: i64 = if width < 0 {
            0
        } else if width > MAX_COORD {
            MAX_COORD
        } else {
            width
        };
        Line { width: w, ..self }
    }

    /// Fluent color setter.
    pub fn color(self, color: Color) -> (line: Line)
        ensures
            line.color == color,
            line.points@ == self.points@,
            line.width == self.width,
    {
        Line { color, ..self }
    }

    /// Appends `point` to the end of the point sequence.
    pub fn add_point(&mut self, point: Point)
        ensures
            final(self).points@ == old(self).points@.push(point),
            final(self).width == old(self).width,
            final(self).color == old(self).color,
    {
        self.points.push(point);
    }
}

impl Default for Line {
    /// Same as `Line::new`.
    fn default() -> (line: Line)
        ensures
            line.points@.len() == 0,
            line.width == 1i64,
            line.color == (Color { h: 0u16, s: 0u16, l: 0u16, a: 1000u16 }),
    {
        Line::new()
    }
}

} // verus!
