use vglyph::compiler::{compile_smooth_line, interpolate};
use vglyph::geometry::{fit_inside, Line, Point, Rect};
use vglyph::number::integer::Integer;
use vglyph::number::natural::Natural;
use vglyph::number::rational::Rational;

fn q(num: i64, den: u64) -> Rational {
    Rational::from_ratio(num, den).unwrap()
}

fn pt(x: Rational, y: Rational) -> Point {
    Point { x, y }
}

fn ipt(x: i64, y: i64) -> Point {
    pt(Rational::from_int(x), Rational::from_int(y))
}

fn rect(x0: Rational, y0: Rational, x1: Rational, y1: Rational) -> Rect {
    Rect { x0, y0, x1, y1 }
}

fn same_point(p: &Point, x: &Rational, y: &Rational) -> bool {
    p.x.same_value(x) && p.y.same_value(y)
}

fn same_terms(a: &Rational, b: &Rational) -> bool {
    a.numerator().equals(&b.numerator()) && a.denominator().equals(&b.denominator())
}

fn same_rect(r: &Rect, x0: Rational, y0: Rational, x1: Rational, y1: Rational) -> bool {
    r.x0.same_value(&x0) && r.y0.same_value(&y0) && r.x1.same_value(&x1) && r.y1.same_value(&y1)
}

#[test]
fn fit_into_unit_square_changes_nothing() {
    let lines = vec![
        Line { from: pt(q(1, 3), q(2, 7)), to: pt(q(5, 4), q(0, 9)) },
        Line { from: pt(q(-1, 2), q(1, 1)), to: pt(q(6, 8), q(3, 3)) },
    ];
    let fitted = fit_inside(&lines, &Rect::unit());
    assert_eq!(fitted.len(), 2);
    for (a, b) in fitted.iter().zip(lines.iter()) {
        assert!(same_terms(&a.from.x, &b.from.x));
        assert!(same_terms(&a.from.y, &b.from.y));
        assert!(same_terms(&a.to.x, &b.to.x));
        assert!(same_terms(&a.to.y, &b.to.y));
    }
}

#[test]
fn fit_into_unit_square_in_other_terms_keeps_the_points() {
    let lines = vec![Line { from: pt(q(1, 3), q(2, 7)), to: pt(q(5, 4), q(0, 9)) }];
    let unit = rect(q(0, 2), q(0, 3), q(4, 4), q(5, 5));
    let fitted = fit_inside(&lines, &unit);
    assert!(same_point(&fitted[0].from, &q(1, 3), &q(2, 7)));
    assert!(same_point(&fitted[0].to, &q(5, 4), &q(0, 1)));
}

#[test]
fn fit_scales_and_moves() {
    // (px, py) -> (x0 + px * (x1 - x0), y0 + py * (y1 - y0))
    let lines = vec![Line { from: pt(q(1, 4), q(1, 2)), to: ipt(1, 1) }];
    let fitted = fit_inside(&lines, &rect(q(2, 1), q(-1, 1), q(6, 1), q(3, 1)));
    assert!(same_point(&fitted[0].from, &q(3, 1), &q(1, 1)));
    assert!(same_point(&fitted[0].to, &q(6, 1), &q(3, 1)));
    // the terms are those of p * w + x0, as computed
    let x = &fitted[0].from.x;
    assert!(x.numerator().equals(&Integer::from_i64(12)));
    assert!(x.denominator().equals(&Natural::from_u64(4)));
}

#[test]
fn fit_into_a_mirrored_rectangle_mirrors() {
    let lines = vec![Line { from: ipt(0, 0), to: pt(q(1, 4), q(1, 1)) }];
    let fitted = fit_inside(&lines, &rect(q(1, 1), q(0, 1), q(0, 1), q(2, 1)));
    assert!(same_point(&fitted[0].from, &q(1, 1), &q(0, 1)));
    assert!(same_point(&fitted[0].to, &q(3, 4), &q(2, 1)));
}

#[test]
fn fits_compose() {
    let lines = vec![
        Line { from: pt(q(1, 3), q(2, 7)), to: pt(q(5, 4), q(0, 9)) },
        Line { from: ipt(0, 0), to: ipt(1, 1) },
    ];
    let a = rect(q(1, 2), q(1, 4), q(3, 2), q(2, 1));
    let b = rect(q(-1, 1), q(2, 3), q(5, 1), q(7, 2));
    let twice = fit_inside(&fit_inside(&lines, &a), &b);
    // the rectangle that a covers within b: its corners placed into b
    let corners = vec![Line {
        from: pt(a.x0.clone(), a.y0.clone()),
        to: pt(a.x1.clone(), a.y1.clone()),
    }];
    let placed = fit_inside(&corners, &b);
    let composed = rect(
        placed[0].from.x.clone(),
        placed[0].from.y.clone(),
        placed[0].to.x.clone(),
        placed[0].to.y.clone(),
    );
    let once = fit_inside(&lines, &composed);
    assert_eq!(twice.len(), once.len());
    for (l, r) in twice.iter().zip(once.iter()) {
        assert!(same_point(&l.from, &r.from.x, &r.from.y));
        assert!(same_point(&l.to, &r.to.x, &r.to.y));
    }
    // one value by hand: x = 1/3 goes to 1/2 + 1/3 = 5/6 in a, then to -1 + 5/6 * 6 = 4 in b
    assert!(twice[0].from.x.same_value(&q(4, 1)));
}

#[test]
fn square_fit_of_a_wide_rectangle() {
    let wide = rect(q(0, 1), q(0, 1), q(4, 1), q(2, 1));
    assert!(same_rect(&wide.square(), q(1, 1), q(0, 1), q(3, 1), q(2, 1)));
    assert!(same_rect(&wide.halfway_square(), q(1, 2), q(0, 1), q(7, 2), q(2, 1)));
}

#[test]
fn square_fit_of_a_tall_rectangle() {
    let tall = rect(q(0, 1), q(0, 1), q(2, 1), q(4, 1));
    assert!(same_rect(&tall.square(), q(0, 1), q(1, 1), q(2, 1), q(3, 1)));
    assert!(same_rect(&tall.halfway_square(), q(0, 1), q(1, 2), q(2, 1), q(7, 2)));
}

#[test]
fn square_fit_of_a_square_keeps_the_terms() {
    let square = rect(q(2, 4), q(1, 3), q(3, 2), q(4, 3));
    let fitted = square.halfway_square();
    assert!(same_terms(&fitted.x0, &square.x0));
    assert!(same_terms(&fitted.y0, &square.y0));
    assert!(same_terms(&fitted.x1, &square.x1));
    assert!(same_terms(&fitted.y1, &square.y1));
}

#[test]
fn rect_from_corners_takes_the_coordinates() {
    let r = Rect::from_corners(&pt(q(1, 5), q(2, 5)), &pt(q(3, 5), q(4, 5)));
    assert!(same_rect(&r, q(1, 5), q(2, 5), q(3, 5), q(4, 5)));
}

#[test]
fn curve_of_two_points_is_the_segment() {
    let lines = compile_smooth_line(&vec![ipt(0, 0), ipt(1, 1)]);
    assert_eq!(lines.len(), 1);
    assert!(same_terms(&lines[0].from.x, &Rational::from_int(0)));
    assert!(same_terms(&lines[0].from.y, &Rational::from_int(0)));
    assert!(same_terms(&lines[0].to.x, &Rational::from_int(1)));
    assert!(same_terms(&lines[0].to.y, &Rational::from_int(1)));
}

#[test]
fn curve_of_three_points_has_twenty_segments() {
    let lines = compile_smooth_line(&vec![ipt(0, 0), ipt(1, 0), ipt(1, 1)]);
    assert_eq!(lines.len(), 20);
    assert!(same_point(&lines[0].from, &q(0, 1), &q(0, 1)));
    assert!(same_point(&lines[19].to, &q(1, 1), &q(1, 1)));
    // consecutive segments share their end points
    for k in 1..20 {
        assert!(same_point(&lines[k].from, &lines[k - 1].to.x, &lines[k - 1].to.y));
    }
    // the middle sample of the quadratic curve: (1-t)^2 A + 2t(1-t) B + t^2 C at t = 1/2
    assert!(same_point(&lines[9].to, &q(3, 4), &q(1, 4)));
    // at t = 1/20: x = 2t(1-t) + t^2 = 39/400, y = t^2 = 1/400
    assert!(same_point(&lines[0].to, &q(39, 400), &q(1, 400)));
}

#[test]
fn curve_of_five_points_has_twenty_segments() {
    let dots = vec![ipt(0, 0), ipt(1, 0), ipt(1, 1), ipt(0, 1), ipt(0, 0)];
    assert_eq!(compile_smooth_line(&dots).len(), 20);
}

#[test]
fn curve_of_no_point_is_empty_and_of_one_point_stays_there() {
    assert_eq!(compile_smooth_line(&Vec::new()).len(), 0);
    let lines = compile_smooth_line(&vec![pt(q(1, 3), q(2, 3))]);
    assert_eq!(lines.len(), 20);
    assert!(same_point(&lines[7].from, &q(1, 3), &q(2, 3)));
    assert!(same_point(&lines[7].to, &q(1, 3), &q(2, 3)));
}

#[test]
fn interpolate_blends_linearly() {
    assert!(interpolate(&q(1, 2), &Vec::new()).is_none());
    let one = interpolate(&q(1, 2), &vec![pt(q(1, 3), q(2, 3))]).unwrap();
    assert!(same_terms(&one.x, &q(1, 3)));
    let mid = interpolate(&q(1, 4), &vec![ipt(0, 4), ipt(8, 0)]).unwrap();
    assert!(same_point(&mid, &q(2, 1), &q(3, 1)));
    // the terms are those of p * (1 - t) + q * t
    assert!(mid.x.numerator().equals(&Integer::from_i64(32)));
    assert!(mid.x.denominator().equals(&Natural::from_u64(16)));
}
