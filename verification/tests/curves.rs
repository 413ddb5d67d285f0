use qmath::bezier::Bezier;
use qmath::contour::{ContourPoint, Handle, PointType};
use qmath::error::CurveError;
use qmath::evaluate::Evaluate;
use qmath::piecewise::Piecewise;
use qmath::skpath::{PathVerb, SkPath};
use qmath::vector::{Scalar, Vector};

fn pt(x: i128, y: i128) -> Vector {
    Vector::from_ints(x, y)
}

fn sc(n: i128, d: i128) -> Scalar {
    Scalar { n, d }
}

fn corner(x: i128, y: i128) -> ContourPoint {
    ContourPoint { pos: pt(x, y), a: Handle::Colocated, b: Handle::Colocated, ptype: PointType::Curve }
}

fn unit_square() -> Vec<ContourPoint> {
    vec![corner(0, 0), corner(1, 0), corner(1, 1), corner(0, 1)]
}

#[test]
fn round_trip_control_points() {
    let p0 = pt(0, 0);
    let p1 = pt(10, -3);
    let p2 = pt(7, 22);
    let p3 = pt(-4, 5);
    let b = Bezier::from_points(p0, p1, p2, p3);
    let cps = b.to_control_points();
    assert!(cps[0].eq_value(&p0));
    assert!(cps[1].eq_value(&p1));
    assert!(cps[2].eq_value(&p2));
    assert!(cps[3].eq_value(&p3));
}

#[test]
fn round_trip_control_points_vec() {
    let p0 = pt(1, 2);
    let p1 = pt(3, 4);
    let p2 = pt(5, 6);
    let p3 = pt(7, 8);
    let b = Bezier::from_points(p0, p1, p2, p3);
    let cps = b.to_control_points_vec();
    assert_eq!(cps.len(), 4);
    assert!(cps[0].eq_value(&p0));
    assert!(cps[1].eq_value(&p1));
    assert!(cps[2].eq_value(&p2));
    assert!(cps[3].eq_value(&p3));
}

#[test]
fn round_trip_mixed_denominators() {
    let p0 = Vector { x: sc(1, 2), y: sc(0, 1) };
    let p1 = Vector { x: sc(2, 3), y: sc(5, 4) };
    let p2 = Vector { x: sc(-7, 5), y: sc(1, 6) };
    let p3 = Vector { x: sc(9, 7), y: sc(-2, 3) };
    let b = Bezier::from_points(p0, p1, p2, p3);
    let cps = b.to_control_points();
    assert!(cps[0].eq_value(&p0));
    assert!(cps[1].eq_value(&p1));
    assert!(cps[2].eq_value(&p2));
    assert!(cps[3].eq_value(&p3));
}

#[test]
fn evaluate_boundaries() {
    let p0 = pt(2, 3);
    let p3 = pt(11, -5);
    let b = Bezier::from_points(p0, pt(4, 9), pt(8, 1), p3);
    let at0 = b.evaluate(0, 1).unwrap();
    let at1 = b.evaluate(1, 1).unwrap();
    assert!(at0.eq_value(&p0));
    assert!(at1.eq_value(&p3));
}

#[test]
fn evaluate_cubic_midpoint() {
    // the cubic with control points 0, 0, 6, 6 on the x axis has
    // x(1/2) = (0 + 3*0 + 3*6 + 6) / 8 = 3.
    let b = Bezier::from_points(pt(0, 0), pt(0, 0), pt(6, 0), pt(6, 0));
    let mid = b.evaluate(1, 2).unwrap();
    assert!(mid.eq_value(&pt(3, 0)));
}

#[test]
fn subdivision_coverage() {
    let b = Bezier::from_points(pt(0, 0), pt(3, 9), pt(6, -2), pt(10, 4));
    let (left, right) = b.subdivide(1, 3);
    let at_t = b.evaluate(1, 3).unwrap();
    let left_end = left.evaluate(1, 1).unwrap();
    let right_start = right.evaluate(0, 1).unwrap();
    assert!(left_end.eq_value(&at_t));
    assert!(right_start.eq_value(&at_t));
    // the halves keep the original endpoints
    assert!(left.evaluate(0, 1).unwrap().eq_value(&pt(0, 0)));
    assert!(right.evaluate(1, 1).unwrap().eq_value(&pt(10, 4)));
}

#[test]
fn subdivision_extrapolates() {
    // the linearly parameterized line through (0,0) and (6,0); subdividing
    // at t = 3/2 is permitted and the left half ends at the extrapolated
    // point x = 9.
    let b = Bezier::from_points(pt(0, 0), pt(2, 0), pt(4, 0), pt(6, 0));
    let (left, _right) = b.subdivide(3, 2);
    let end = left.evaluate(1, 1).unwrap();
    assert!(end.eq_value(&pt(9, 0)));
}

#[test]
fn derivative_of_line() {
    // x(t) for control points 0, 0, 4, 4 is 12 t^2 - 8 t^3; its derivative
    // at t = 1/2 is 24*(1/2) - 24*(1/4) = 6.
    let b = Bezier::from_points(pt(0, 0), pt(0, 0), pt(4, 0), pt(4, 0));
    let d = b.derivative(1, 2).unwrap();
    assert!(d.eq_value(&pt(6, 0)));
    // both handles colocated: the parameterization is stationary at the ends
    let d0 = b.derivative(0, 1).unwrap();
    assert!(d0.eq_value(&pt(0, 0)));
}

#[test]
fn piecewise_partition() {
    // four unit segments along the x axis
    let mut curves = Vec::new();
    for k in 0..4i128 {
        curves.push(Bezier::from_points(
            pt(k, 0),
            pt(k, 0),
            pt(k + 1, 0),
            pt(k + 1, 0),
        ));
    }
    let pw = Piecewise { curves };
    for k in 0..4i128 {
        let v = pw.evaluate(k, 4).unwrap();
        assert!(v.eq_value(&pt(k, 0)));
    }
    // t = 1 lands on the last segment's end, not out of range
    let end = pw.evaluate(1, 1).unwrap();
    let last_end = pw.curves[3].evaluate(1, 1).unwrap();
    assert!(end.eq_value(&last_end));
    assert!(end.eq_value(&pt(4, 0)));
}

#[test]
fn empty_piecewise_fails() {
    let pw: Piecewise<Bezier> = Piecewise { curves: Vec::new() };
    assert_eq!(pw.evaluate(1, 2), Err(CurveError::EmptySequence));
    assert_eq!(pw.derivative(1, 2), Err(CurveError::EmptySequence));
    assert_eq!(pw.bounds(), Err(CurveError::EmptySequence));
    assert_eq!(pw.to_contour(), Err(CurveError::EmptySequence));
}

#[test]
fn short_contour_is_malformed() {
    let one = vec![corner(0, 0)];
    assert!(matches!(
        Piecewise::<Bezier>::from_contour(&one),
        Err(CurveError::MalformedContour)
    ));
    let none: Vec<ContourPoint> = Vec::new();
    assert!(matches!(
        Piecewise::<Bezier>::from_contour(&none),
        Err(CurveError::MalformedContour)
    ));
}

#[test]
fn contour_round_trip_square() {
    let square = unit_square();
    let pw = Piecewise::<Bezier>::from_contour(&square).unwrap();
    assert_eq!(pw.curves.len(), 4);
    let back = pw.to_contour().unwrap();
    assert_eq!(back.len(), 4);
    for i in 0..4 {
        assert!(back[i].pos.eq_value(&square[i].pos));
        assert!(matches!(back[i].a, Handle::Colocated));
        assert!(matches!(back[i].b, Handle::Colocated));
        assert_eq!(back[i].ptype, PointType::Curve);
    }
}

#[test]
fn contour_round_trip_curved() {
    // a triangle with one genuinely curved edge: absolute handles come back
    // with the same values
    let points = vec![
        ContourPoint {
            pos: pt(0, 0),
            a: Handle::At(pt(2, 5)),
            b: Handle::Colocated,
            ptype: PointType::Curve,
        },
        ContourPoint {
            pos: pt(10, 0),
            a: Handle::Colocated,
            b: Handle::At(pt(8, 5)),
            ptype: PointType::Curve,
        },
        ContourPoint {
            pos: pt(5, 9),
            a: Handle::Colocated,
            b: Handle::Colocated,
            ptype: PointType::Curve,
        },
    ];
    let pw = Piecewise::<Bezier>::from_contour(&points).unwrap();
    assert_eq!(pw.curves.len(), 3);
    let back = pw.to_contour().unwrap();
    assert_eq!(back.len(), 3);
    for i in 0..3 {
        assert!(back[i].pos.eq_value(&points[i].pos));
        match (&back[i].a, &points[i].a) {
            (Handle::Colocated, Handle::Colocated) => {}
            (Handle::At(u), Handle::At(v)) => assert!(u.eq_value(v)),
            _ => panic!("outgoing handle changed kind at {}", i),
        }
        match (&back[i].b, &points[i].b) {
            (Handle::Colocated, Handle::Colocated) => {}
            (Handle::At(u), Handle::At(v)) => assert!(u.eq_value(v)),
            _ => panic!("incoming handle changed kind at {}", i),
        }
    }
}

#[test]
fn open_contour_skips_closing_segment() {
    let mut points = unit_square();
    points[0].ptype = PointType::Move;
    let pw = Piecewise::<Bezier>::from_contour(&points).unwrap();
    assert_eq!(pw.curves.len(), 3);
}

#[test]
fn degree_elevated_line_stays_on_segment() {
    // the elevated line from (0,0) to (16,0): at t = 1/4 the weight is
    // t^2 (3 - 2t) = 5/32, so the point is 16 * 5/32 = 5/2.
    let b = Bezier::from_points(pt(0, 0), pt(0, 0), pt(16, 0), pt(16, 0));
    let v = b.evaluate(1, 4).unwrap();
    assert!(v.x.eq_value(&sc(5, 2)));
    assert!(v.y.eq_value(&sc(0, 1)));
    // endpoints are exact
    assert!(b.evaluate(0, 1).unwrap().eq_value(&pt(0, 0)));
    assert!(b.evaluate(1, 1).unwrap().eq_value(&pt(16, 0)));
}

#[test]
fn unit_square_bounds() {
    let pw = Piecewise::<Bezier>::from_contour(&unit_square()).unwrap();
    // each segment's box degenerates to its two endpoints
    let b0 = pw.curves[0].bounds().unwrap();
    assert!(b0.left.eq_value(&sc(0, 1)));
    assert!(b0.right.eq_value(&sc(1, 1)));
    assert!(b0.bottom.eq_value(&sc(0, 1)));
    assert!(b0.top.eq_value(&sc(0, 1)));
    let b1 = pw.curves[1].bounds().unwrap();
    assert!(b1.left.eq_value(&sc(1, 1)));
    assert!(b1.right.eq_value(&sc(1, 1)));
    assert!(b1.bottom.eq_value(&sc(0, 1)));
    assert!(b1.top.eq_value(&sc(1, 1)));
    // the whole contour's box is exactly the unit square
    let all = pw.bounds().unwrap();
    assert!(all.left.eq_value(&sc(0, 1)));
    assert!(all.bottom.eq_value(&sc(0, 1)));
    assert!(all.right.eq_value(&sc(1, 1)));
    assert!(all.top.eq_value(&sc(1, 1)));
}

#[test]
fn piecewise_subdivide_doubles_segments() {
    let pw = Piecewise::<Bezier>::from_contour(&unit_square()).unwrap();
    let sub = pw.subdivide(1, 2);
    assert_eq!(sub.curves.len(), 8);
    // the image is unchanged: the midpoint of the first edge is the end of
    // the first half
    let v = sub.curves[0].evaluate(1, 1).unwrap();
    let w = pw.curves[0].evaluate(1, 2).unwrap();
    assert!(v.eq_value(&w));
}

#[test]
fn outline_round_trip() {
    let outline = vec![unit_square(), vec![corner(5, 5), corner(7, 5), corner(6, 8)]];
    let pw = Piecewise::<Piecewise<Bezier>>::from_outline(&outline).unwrap();
    assert_eq!(pw.curves.len(), 2);
    assert_eq!(pw.curves[0].curves.len(), 4);
    assert_eq!(pw.curves[1].curves.len(), 3);
    let back = pw.to_outline().unwrap();
    assert_eq!(back.len(), 2);
    assert_eq!(back[0].len(), 4);
    assert_eq!(back[1].len(), 3);
    for (c_in, c_out) in outline.iter().zip(back.iter()) {
        for (p_in, p_out) in c_in.iter().zip(c_out.iter()) {
            assert!(p_in.pos.eq_value(&p_out.pos));
        }
    }
    let sub = pw.subdivide(1, 2);
    assert_eq!(sub.curves[0].curves.len(), 8);
    assert_eq!(sub.curves[1].curves.len(), 6);
}

#[test]
fn from_skpath_parses_verbs() {
    let path = SkPath {
        verbs: vec![
            PathVerb::Move(pt(0, 0)),
            PathVerb::Line(pt(0, 0), pt(6, 0)),
            PathVerb::Quad(pt(6, 0), pt(6, 3), pt(6, 6)),
            PathVerb::Cubic(pt(6, 6), pt(4, 8), pt(2, 8), pt(0, 6)),
            PathVerb::Close,
        ],
    };
    let pw = Piecewise::<Piecewise<Bezier>>::from_skpath(&path).unwrap();
    assert_eq!(pw.curves.len(), 1);
    assert_eq!(pw.curves[0].curves.len(), 3);
    // the degree-elevated line evaluates to its endpoints
    let line = &pw.curves[0].curves[0];
    assert!(line.evaluate(0, 1).unwrap().eq_value(&pt(0, 0)));
    assert!(line.evaluate(1, 1).unwrap().eq_value(&pt(6, 0)));
    // the degree-elevated quadratic passes through the quadratic's own
    // midpoint (6, (0 + 2*3 + 6)/4) = (6, 3)
    let quad = &pw.curves[0].curves[1];
    let mid = quad.evaluate(1, 2).unwrap();
    assert!(mid.eq_value(&pt(6, 3)));
    // the cubic is taken as given
    let cubic = &pw.curves[0].curves[2];
    assert!(cubic.evaluate(1, 1).unwrap().eq_value(&pt(0, 6)));
}

#[test]
fn from_skpath_splits_subpaths_on_move() {
    let path = SkPath {
        verbs: vec![
            PathVerb::Move(pt(0, 0)),
            PathVerb::Line(pt(0, 0), pt(1, 0)),
            PathVerb::Move(pt(5, 5)),
            PathVerb::Line(pt(5, 5), pt(6, 5)),
        ],
    };
    let pw = Piecewise::<Piecewise<Bezier>>::from_skpath(&path).unwrap();
    assert_eq!(pw.curves.len(), 2);
    assert_eq!(pw.curves[0].curves.len(), 1);
    assert_eq!(pw.curves[1].curves.len(), 1);
}

#[test]
fn from_skpath_rejects_conic() {
    let path = SkPath {
        verbs: vec![
            PathVerb::Move(pt(0, 0)),
            PathVerb::Conic(pt(0, 0), pt(1, 1), pt(2, 0)),
        ],
    };
    assert!(matches!(
        Piecewise::<Piecewise<Bezier>>::from_skpath(&path),
        Err(CurveError::UnsupportedPrimitive)
    ));
}

#[test]
fn append_to_skpath_emits_cubics() {
    let pw = Piecewise::<Bezier>::from_contour(&unit_square()).unwrap();
    let path = pw.append_to_skpath(SkPath::new());
    // one move, then one cubic per segment; the degeneracy test
    // (first == third and second == fourth control point) does not fire on
    // an elevated line, whose interior points sit on its endpoints
    assert_eq!(path.verbs.len(), 1 + 4);
    match &path.verbs[0] {
        PathVerb::Move(p) => assert!(p.eq_value(&pt(0, 0))),
        other => panic!("expected a move first, got {:?}", other),
    }
    match &path.verbs[1] {
        PathVerb::Cubic(a, _b, _c, d) => {
            assert!(a.eq_value(&pt(0, 0)));
            assert!(d.eq_value(&pt(1, 0)));
        }
        other => panic!("expected a cubic, got {:?}", other),
    }
}

#[test]
fn append_to_skpath_emits_line_for_degenerate_segment() {
    // a segment whose four control points coincide passes the degeneracy
    // test and emits a line before its cubic
    let b = Bezier::from_points(pt(2, 3), pt(2, 3), pt(2, 3), pt(2, 3));
    let pw = Piecewise { curves: vec![b] };
    let path = pw.append_to_skpath(SkPath::new());
    assert_eq!(path.verbs.len(), 3);
    assert!(matches!(path.verbs[0], PathVerb::Move(..)));
    match &path.verbs[1] {
        PathVerb::Line(a, b2) => {
            assert!(a.eq_value(&pt(2, 3)));
            assert!(b2.eq_value(&pt(2, 3)));
        }
        other => panic!("expected a line, got {:?}", other),
    }
    assert!(matches!(path.verbs[2], PathVerb::Cubic(..)));
}

#[test]
fn skpath_round_trip() {
    let outline = vec![unit_square()];
    let pw = Piecewise::<Piecewise<Bezier>>::from_outline(&outline).unwrap();
    let path = pw.to_skpath();
    let back = Piecewise::<Piecewise<Bezier>>::from_skpath(&path).unwrap();
    assert_eq!(back.curves.len(), 1);
    // each square edge was emitted as one cubic
    assert_eq!(back.curves[0].curves.len(), 4);
    let corner_back = back.curves[0].curves[0].evaluate(0, 1).unwrap();
    assert!(corner_back.eq_value(&pt(0, 0)));
}

#[test]
fn apply_transform_translates() {
    let b = Bezier::from_points(pt(0, 0), pt(1, 2), pt(3, 4), pt(5, 6));
    let shift = |v: Vector| Vector {
        x: Scalar { n: v.x.n + v.x.d, d: v.x.d },
        y: Scalar { n: v.y.n + 2 * v.y.d, d: v.y.d },
    };
    let moved = b.apply_transform(&shift);
    let cps = moved.to_control_points();
    assert!(cps[0].eq_value(&pt(1, 2)));
    assert!(cps[3].eq_value(&pt(6, 8)));
    let pw = Piecewise { curves: vec![b] };
    let moved_pw = pw.apply_transform(&shift);
    assert!(moved_pw.curves[0].evaluate(0, 1).unwrap().eq_value(&pt(1, 2)));
    let outline = Piecewise { curves: vec![pw] };
    let moved_outline = outline.apply_transform(&shift);
    assert!(moved_outline.curves[0].curves[0]
        .evaluate(1, 1)
        .unwrap()
        .eq_value(&pt(6, 8)));
}

#[test]
fn scalar_value_equality() {
    assert!(sc(1, 2).eq_value(&sc(2, 4)));
    assert!(!sc(1, 2).eq_value(&sc(2, 3)));
    assert!(sc(0, 5).eq_value(&sc(0, 1)));
    assert!(sc(1, 2).le(&sc(2, 3)));
    assert!(!sc(2, 3).le(&sc(1, 2)));
}

#[test]
fn error_descriptions() {
    assert_eq!(CurveError::EmptySequence.describe(), "empty piecewise");
    assert_eq!(CurveError::MalformedContour.describe(), "malformed contour");
    assert_eq!(
        CurveError::UnsupportedPrimitive.describe(),
        "unsupported path primitive"
    );
}
