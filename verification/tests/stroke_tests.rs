use stroker::geom::Point;
use stroker::line::Color;
use stroker::line::Line;
use stroker::stroke::Command;
use stroker::stroke::Diagnostic;
use stroker::stroke::Outline;
use stroker::stroke::stroke;

fn cmd_point(c: &Command) -> Point {
    match c {
        Command::MoveTo(p) => *p,
        Command::LineTo(p) => *p,
    }
}

/// Twice the signed area of the quadrilateral drawn by the outline's
/// first four commands (shoelace formula, closing back to the start).
fn outline_area_x2(o: &Outline) -> i64 {
    let pts: Vec<Point> = o.commands.iter().take(4).map(cmd_point).collect();
    let mut sum: i64 = 0;
    for i in 0..4 {
        let p = pts[i];
        let q = pts[(i + 1) % 4];
        sum += p.x * q.y - q.x * p.y;
    }
    sum
}

#[test]
fn empty_line_emits_diagnostic() {
    let line = Line::new();
    let out = stroke(&line);
    assert_eq!(out.outlines.len(), 0);
    assert_eq!(out.diagnostics, vec![Diagnostic::EmptyPoints]);
}

#[test]
fn empty_line_width_one_scenario() {
    let line = Line::new().width(1);
    let out = stroke(&line);
    assert_eq!(out.outlines.len(), 0);
    assert_eq!(out.diagnostics.len(), 1);
}

#[test]
fn single_point_dot_centered() {
    let mut line = Line::new();
    line.add_point(Point { x: 5, y: 5 });
    let line = line.width(4);
    let out = stroke(&line);
    assert_eq!(out.diagnostics.len(), 0);
    assert_eq!(out.outlines.len(), 1);
    let cmds = &out.outlines[0].commands;
    assert_eq!(
        cmds.as_slice(),
        &[
            Command::MoveTo(Point { x: 3, y: 3 }),
            Command::LineTo(Point { x: 7, y: 3 }),
            Command::LineTo(Point { x: 7, y: 7 }),
            Command::LineTo(Point { x: 3, y: 7 }),
            Command::LineTo(Point { x: 3, y: 3 }),
        ]
    );
    // bounding region has extent 4 in each axis, centered on (5, 5)
    let xs: Vec<i64> = cmds.iter().map(|c| cmd_point(c).x).collect();
    let ys: Vec<i64> = cmds.iter().map(|c| cmd_point(c).y).collect();
    assert_eq!(xs.iter().max().unwrap() - xs.iter().min().unwrap(), 4);
    assert_eq!(ys.iter().max().unwrap() - ys.iter().min().unwrap(), 4);
    assert_eq!(xs.iter().max().unwrap() + xs.iter().min().unwrap(), 10);
    assert_eq!(ys.iter().max().unwrap() + ys.iter().min().unwrap(), 10);
}

#[test]
fn horizontal_segment_rectangle() {
    let mut line = Line::new();
    line.add_point(Point { x: 0, y: 0 });
    line.add_point(Point { x: 10, y: 0 });
    let line = line.width(2);
    let out = stroke(&line);
    assert_eq!(out.diagnostics.len(), 0);
    assert_eq!(out.outlines.len(), 1);
    let cmds = &out.outlines[0].commands;
    // x spans [0, 10] extended by the half-width caps, y spans [-1, 1]
    assert_eq!(
        cmds.as_slice(),
        &[
            Command::MoveTo(Point { x: -1, y: 1 }),
            Command::LineTo(Point { x: 11, y: 1 }),
            Command::LineTo(Point { x: 11, y: -1 }),
            Command::LineTo(Point { x: -1, y: -1 }),
            Command::LineTo(Point { x: -1, y: 1 }),
        ]
    );
    // area = width * (distance + width): the caps add one width
    assert_eq!(outline_area_x2(&out.outlines[0]).abs(), 2 * 2 * (10 + 2));
}

#[test]
fn vertical_segment_rectangle() {
    let mut line = Line::new();
    line.add_point(Point { x: 0, y: 0 });
    line.add_point(Point { x: 0, y: 10 });
    let line = line.width(2);
    let out = stroke(&line);
    assert_eq!(out.outlines.len(), 1);
    let cmds = &out.outlines[0].commands;
    assert_eq!(
        cmds.as_slice(),
        &[
            Command::MoveTo(Point { x: -1, y: -1 }),
            Command::LineTo(Point { x: -1, y: 11 }),
            Command::LineTo(Point { x: 1, y: 11 }),
            Command::LineTo(Point { x: 1, y: -1 }),
            Command::LineTo(Point { x: -1, y: -1 }),
        ]
    );
    assert_eq!(outline_area_x2(&out.outlines[0]).abs(), 2 * 2 * (10 + 2));
}

#[test]
fn diagonal_segment_offsets() {
    // 3-4-5 triangle: length 50, so the offsets are exact
    let mut line = Line::new();
    line.add_point(Point { x: 0, y: 0 });
    line.add_point(Point { x: 30, y: 40 });
    let line = line.width(10);
    let out = stroke(&line);
    assert_eq!(out.outlines.len(), 1);
    let cmds = &out.outlines[0].commands;
    assert_eq!(
        cmds.as_slice(),
        &[
            Command::MoveTo(Point { x: -7, y: -1 }),
            Command::LineTo(Point { x: 29, y: 47 }),
            Command::LineTo(Point { x: 37, y: 41 }),
            Command::LineTo(Point { x: 1, y: -7 }),
            Command::LineTo(Point { x: -7, y: -1 }),
        ]
    );
}

#[test]
fn duplicate_points_produce_dot() {
    let mut line = Line::new();
    line.add_point(Point { x: 4, y: 4 });
    line.add_point(Point { x: 4, y: 4 });
    let line = line.width(2);
    let out = stroke(&line);
    assert_eq!(out.outlines.len(), 1);
    // same dot as stroking the single point
    let mut single = Line::new();
    single.add_point(Point { x: 4, y: 4 });
    let single = single.width(2);
    let dot = stroke(&single);
    assert_eq!(out.outlines, dot.outlines);
}

#[test]
fn polyline_one_outline_per_segment() {
    let mut line = Line::new();
    line.add_point(Point { x: 0, y: 0 });
    line.add_point(Point { x: 10, y: 0 });
    line.add_point(Point { x: 10, y: 10 });
    line.add_point(Point { x: 0, y: 10 });
    let line = line.width(2);
    let out = stroke(&line);
    assert_eq!(out.outlines.len(), 3);
    for o in &out.outlines {
        assert_eq!(o.commands.len(), 5);
        assert!(matches!(o.commands[0], Command::MoveTo(_)));
        for c in &o.commands[1..] {
            assert!(matches!(c, Command::LineTo(_)));
        }
    }
    // each outline is the stroke of the corresponding point pair
    let pts = [
        Point { x: 0, y: 0 },
        Point { x: 10, y: 0 },
        Point { x: 10, y: 10 },
        Point { x: 0, y: 10 },
    ];
    for i in 0..3 {
        let seg = Line::between_points(pts[i], pts[i + 1]).width(2);
        let seg_out = stroke(&seg);
        assert_eq!(seg_out.outlines.len(), 1);
        assert_eq!(out.outlines[i], seg_out.outlines[0]);
    }
}

#[test]
fn stroking_twice_is_identical() {
    let mut line = Line::new();
    line.add_point(Point { x: 3, y: 1 });
    line.add_point(Point { x: 3, y: 1 });
    line.add_point(Point { x: -20, y: 17 });
    line.add_point(Point { x: 5, y: 5 });
    let line = line.width(7);
    let first = stroke(&line);
    let second = stroke(&line);
    assert_eq!(first, second);
}

#[test]
fn self_overlapping_polyline_is_tolerated() {
    let mut line = Line::new();
    line.add_point(Point { x: 0, y: 0 });
    line.add_point(Point { x: 10, y: 0 });
    line.add_point(Point { x: 0, y: 0 });
    let line = line.width(2);
    let out = stroke(&line);
    assert_eq!(out.outlines.len(), 2);
    assert_eq!(out.diagnostics.len(), 0);
}

#[test]
fn negative_width_is_clamped_to_zero() {
    let line = Line::new().width(-5);
    assert_eq!(line.width, 0);
}

#[test]
fn zero_width_single_point_degenerates_in_place() {
    let mut line = Line::new();
    line.add_point(Point { x: 9, y: -2 });
    let line = line.width(0);
    let out = stroke(&line);
    assert_eq!(out.outlines.len(), 1);
    for c in &out.outlines[0].commands {
        assert_eq!(cmd_point(c), Point { x: 9, y: -2 });
    }
}

#[test]
fn zero_width_segment_is_hairline() {
    let mut line = Line::new();
    line.add_point(Point { x: 0, y: 0 });
    line.add_point(Point { x: 10, y: 0 });
    let line = line.width(0);
    let out = stroke(&line);
    assert_eq!(out.outlines.len(), 1);
    assert_eq!(outline_area_x2(&out.outlines[0]), 0);
}

#[test]
fn odd_width_dot_extent_is_within_one() {
    let mut line = Line::new();
    line.add_point(Point { x: 0, y: 0 });
    let line = line.width(5);
    let out = stroke(&line);
    let xs: Vec<i64> = out.outlines[0].commands.iter().map(|c| cmd_point(c).x).collect();
    let extent = xs.iter().max().unwrap() - xs.iter().min().unwrap();
    assert_eq!(extent, 4);
}

#[test]
fn extreme_coordinates_do_not_overflow() {
    let mut line = Line::new();
    line.add_point(Point { x: -1048576, y: -1048576 });
    line.add_point(Point { x: 1048576, y: 1048576 });
    let line = line.width(1048576);
    let out = stroke(&line);
    assert_eq!(out.outlines.len(), 1);
    assert_eq!(out.outlines[0].commands.len(), 5);
}

#[test]
fn new_line_defaults() {
    let line = Line::new();
    assert_eq!(line.points.len(), 0);
    assert_eq!(line.width, 1);
    assert_eq!(line.color, Color { h: 0, s: 0, l: 0, a: 1000 });
    assert_eq!(Line::default(), Line::new());
}

#[test]
fn between_points_holds_exactly_both() {
    let a = Point { x: 1, y: 2 };
    let b = Point { x: 3, y: 4 };
    let line = Line::between_points(a, b);
    assert_eq!(line.points, vec![a, b]);
    assert_eq!(line.width, 1);
}

#[test]
fn color_is_passed_through_unchanged() {
    let c = Color { h: 120, s: 900, l: 400, a: 750 };
    let mut line = Line::new().color(c);
    line.add_point(Point { x: 0, y: 0 });
    let out = stroke(&line);
    assert_eq!(out.color, c);
}
