//! Stroke-to-fill conversion for polylines.
//!
//! A `Line` is an ordered sequence of 2D points together with a stroke
//! width and a color.  The stroker expands such a line into zero or more
//! outline paths (sequences of move-to / line-to commands) that, when
//! filled, render as a line of the given width following the polyline.
//!
//! Coordinates are integers in caller-chosen device subunits; a host that
//! works in fractional pixels scales its coordinates up before building a
//! `Line` and scales the resulting outlines back down.

pub mod geom;
pub mod laws;
pub mod line;
pub mod num;
pub mod stroke;
