//! Points, line segments and rectangles, and the affine map that places
//! geometry drawn in the unit square into a rectangle.

use crate::number::rational::{
    lemma_add_associates, lemma_add_same, lemma_add_whole_zero, lemma_mul_associates,
    lemma_mul_distributes, lemma_mul_same, lemma_mul_whole_one, lemma_same_transitive,
    lemma_sub_cancels, lemma_sub_factors, lemma_sub_same, lemma_valid_closed, Ratio, Rational,
};
use vstd::prelude::*;

verus! {

/// What a `Point` holds.
pub struct SpecPoint {
    pub x: Ratio,
    pub y: Ratio,
}

/// What a `Line` holds.
pub struct SpecLine {
    pub from: SpecPoint,
    pub to: SpecPoint,
}

/// What a `Rect` holds.
pub struct SpecRect {
    pub x0: Ratio,
    pub y0: Ratio,
    pub x1: Ratio,
    pub y1: Ratio,
}

impl SpecPoint {
    /// Both coordinates are fractions.
    pub open spec fn valid(self) -> bool {
        self.x.valid() && self.y.valid()
    }

    /// Whether the two are the same point, whatever the terms of their
    /// coordinates.
    pub open spec fn same(self, other: SpecPoint) -> bool {
        self.x.same(other.x) && self.y.same(other.y)
    }
}

impl SpecLine {
    /// All coordinates are fractions.
    pub open spec fn valid(self) -> bool {
        self.from.valid() && self.to.valid()
    }

    /// Whether the two are the same line, end for end, whatever the terms
    /// of their coordinates.
    pub open spec fn same(self, other: SpecLine) -> bool {
        self.from.same(other.from) && self.to.same(other.to)
    }
}

impl SpecRect {
    /// The unit square, each bound in lowest terms.
    pub open spec fn unit() -> SpecRect {
        SpecRect { x0: Ratio::whole(0), y0: Ratio::whole(0), x1: Ratio::whole(1), y1: Ratio::whole(1) }
    }

    /// All bounds are fractions.
    pub open spec fn valid(self) -> bool {
        self.x0.valid() && self.y0.valid() && self.x1.valid() && self.y1.valid()
    }

    /// Whether the two are the same rectangle, whatever the terms of their
    /// bounds.
    pub open spec fn same(self, other: SpecRect) -> bool {
        &&& self.x0.same(other.x0)
        &&& self.y0.same(other.y0)
        &&& self.x1.same(other.x1)
        &&& self.y1.same(other.y1)
    }

    /// `x1 - x0`
    pub open spec fn width(self) -> Ratio {
        self.x1.sub(self.x0)
    }

    /// `y1 - y0`
    pub open spec fn height(self) -> Ratio {
        self.y1.sub(self.y0)
    }

    /// Where a point of the unit square lies in this rectangle:
    /// `(x0 + px * width, y0 + py * height)`.
    pub open spec fn place(self, p: SpecPoint) -> SpecPoint {
        SpecPoint { x: p.x.mul(self.width()).add(self.x0), y: p.y.mul(self.height()).add(self.y0) }
    }

    /// Where a line of the unit square lies in this rectangle.
    pub open spec fn place_line(self, l: SpecLine) -> SpecLine {
        SpecLine { from: self.place(l.from), to: self.place(l.to) }
    }

    /// Where lines of the unit square lie in this rectangle.
    pub open spec fn place_lines(self, lines: Seq<SpecLine>) -> Seq<SpecLine> {
        Seq::new(lines.len(), |i: int| self.place_line(lines[i]))
    }

    /// This rectangle moved towards its centred square: the longer side gives
    /// up the difference of the sides divided by `divisor` at either end.
    /// With a divisor of two the result is the centred square.
    pub open spec fn centred(self, divisor: int) -> SpecRect {
        let w = self.width();
        let h = self.height();
        if w.less_than(h) {
            let d = h.sub(w).div(Ratio::whole(divisor));
            SpecRect { x0: self.x0, y0: self.y0.add(d), x1: self.x1, y1: self.y1.sub(d) }
        } else if h.less_than(w) {
            let d = w.sub(h).div(Ratio::whole(divisor));
            SpecRect { x0: self.x0.add(d), y0: self.y0, x1: self.x1.sub(d), y1: self.y1 }
        } else {
            self
        }
    }

    /// The rectangle that `inner`, given relative to the unit square, covers
    /// once the unit square is placed into this rectangle.
    pub open spec fn place_rect(self, inner: SpecRect) -> SpecRect {
        let low = self.place(SpecPoint { x: inner.x0, y: inner.y0 });
        let high = self.place(SpecPoint { x: inner.x1, y: inner.y1 });
        SpecRect { x0: low.x, y0: low.y, x1: high.x, y1: high.y }
    }
}

/// A point of the plane.
#[derive(Debug)]
pub struct Point {
    pub x: Rational,
    pub y: Rational,
}

/// A straight line segment between two points.
#[derive(Debug)]
pub struct Line {
    pub from: Point,
    pub to: Point,
}

/// An axis-parallel rectangle, given by two opposite corners.
#[derive(Debug)]
pub struct Rect {
    pub x0: Rational,
    pub y0: Rational,
    pub x1: Rational,
    pub y1: Rational,
}

impl View for Point {
    type V = SpecPoint;

    open spec fn view(&self) -> SpecPoint {
        SpecPoint { x: self.x@, y: self.y@ }
    }
}

impl View for Line {
    type V = SpecLine;

    open spec fn view(&self) -> SpecLine {
        SpecLine { from: self.from@, to: self.to@ }
    }
}

impl View for Rect {
    type V = SpecRect;

    open spec fn view(&self) -> SpecRect {
        SpecRect { x0: self.x0@, y0: self.y0@, x1: self.x1@, y1: self.y1@ }
    }
}

impl Clone for Point {
    fn clone(&self) -> (r: Point)
        ensures
            r@ == self@,
    {
        Point { x: self.x.clone(), y: self.y.clone() }
    }
}

impl Clone for Line {
    fn clone(&self) -> (r: Line)
        ensures
            r@ == self@,
    {
        Line { from: self.from.clone(), to: self.to.clone() }
    }
}

impl Clone for Rect {
    fn clone(&self) -> (r: Rect)
        ensures
            r@ == self@,
    {
        Rect { x0: self.x0.clone(), y0: self.y0.clone(), x1: self.x1.clone(), y1: self.y1.clone() }
    }
}

impl Rect {
    /// The unit square `(0, 0, 1, 1)`.
    pub fn unit() -> (r: Rect)
        ensures
            r@ == SpecRect::unit(),
    {
        Rect {
            x0: Rational::from_int(0),
            y0: Rational::from_int(0),
            x1: Rational::from_int(1),
            y1: Rational::from_int(1),
        }
    }

    /// The centred square of this rectangle: the longer side gives up half
    /// the difference of the sides at either end.
    pub fn square(&self) -> (r: Rect)
        ensures
            r@ == self@.centred(2),
    {
        self.centred(2)
    }

    /// The rectangle halfway between this one and its centred square: the
    /// longer side gives up a quarter of the difference of the sides at
    /// either end.
    pub fn halfway_square(&self) -> (r: Rect)
        ensures
            r@ == self@.centred(4),
    {
        self.centred(4)
    }

    fn centred(&self, divisor: u32) -> (r: Rect)
        requires
            divisor > 0,
        ensures
            r@ == self@.centred(divisor as int),
    {
        let w: Rational = self.x1.sub(&self.x0);
        let h: Rational = self.y1.sub(&self.y0);
        let parts: Rational = Rational::from_int(divisor as i64);
        if w.less_than(&h) {
            match h.sub(&w).div(&parts) {
                Some(d) => Rect {
                    x0: self.x0.clone(),
                    y0: self.y0.add(&d),
                    x1: self.x1.clone(),
                    y1: self.y1.sub(&d),
                },
                None => vstd::pervasive::unreached(),
            }
        } else if h.less_than(&w) {
            match w.sub(&h).div(&parts) {
                Some(d) => Rect {
                    x0: self.x0.add(&d),
                    y0: self.y0.clone(),
                    x1: self.x1.sub(&d),
                    y1: self.y1.clone(),
                },
                None => vstd::pervasive::unreached(),
            }
        } else {
            self.clone()
        }
    }

    /// The rectangle with the corners `from` and `to`.
    pub fn from_corners(from: &Point, to: &Point) -> (r: Rect)
        ensures
            r@ == (SpecRect { x0: from@.x, y0: from@.y, x1: to@.x, y1: to@.y }),
    {
        Rect { x0: from.x.clone(), y0: from.y.clone(), x1: to.x.clone(), y1: to.y.clone() }
    }
}

/// The views of a sequence of rectangles.
pub open spec fn rects_view(rects: Seq<Rect>) -> Seq<SpecRect> {
    Seq::new(rects.len(), |i: int| rects[i]@)
}

/// The views of a sequence of lines.
pub open spec fn lines_view(lines: Seq<Line>) -> Seq<SpecLine> {
    Seq::new(lines.len(), |i: int| lines[i]@)
}

fn fit_point(p: &Point, bounds: &Rect, w: &Rational, h: &Rational) -> (r: Point)
    requires
        w@ == bounds@.width(),
        h@ == bounds@.height(),
    ensures
        r@ == bounds@.place(p@),
{
    Point { x: p.x.mul(w).add(&bounds.x0), y: p.y.mul(h).add(&bounds.y0) }
}

/// Places lines drawn in the unit square into `bounds`: every point
/// `(px, py)` moves to `(x0 + px * (x1 - x0), y0 + py * (y1 - y0))`.
pub fn fit_inside(lines: &Vec<Line>, bounds: &Rect) -> (r: Vec<Line>)
    ensures
        lines_view(r@) == bounds@.place_lines(lines_view(lines@)),
{
    let w: Rational = bounds.x1.sub(&bounds.x0);
    let h: Rational = bounds.y1.sub(&bounds.y0);
    let mut out: Vec<Line> = Vec::new();
    let mut i: usize = 0;
    while i < lines.len()
        invariant
            i <= lines.len(),
            out.len() == i,
            w@ == bounds@.width(),
            h@ == bounds@.height(),
            forall|j: int| 0 <= j < i ==> out@[j]@ == bounds@.place_line(lines@[j]@),
        decreases lines.len() - i,
    {
        let from: Point = fit_point(&lines[i].from, bounds, &w, &h);
        let to: Point = fit_point(&lines[i].to, bounds, &w, &h);
        out.push(Line { from, to });
        i += 1;
    }
    assert(lines_view(out@) =~= bounds@.place_lines(lines_view(lines@)));
    out
}

/// Placing into the unit square changes nothing, not even the terms of a
/// coordinate.
pub proof fn lemma_fit_unit_square(lines: Seq<SpecLine>)
    ensures
        SpecRect::unit().place_lines(lines) == lines,
{
    let unit = SpecRect::unit();
    assert forall|i: int| 0 <= i < lines.len() implies unit.place_line(lines[i]) == lines[i] by {
        lemma_place_unit_point(lines[i].from);
        lemma_place_unit_point(lines[i].to);
    }
    assert(unit.place_lines(lines) =~= lines);
}

proof fn lemma_place_unit_point(p: SpecPoint)
    ensures
        SpecRect::unit().place(p) == p,
{
    let unit = SpecRect::unit();
    let q = unit.place(p);
    assert(unit.width() == Ratio::whole(1));
    assert(unit.height() == Ratio::whole(1));
    lemma_mul_whole_one(p.x, unit.width());
    lemma_mul_whole_one(p.y, unit.height());
    lemma_add_whole_zero(p.x, unit.x0);
    lemma_add_whole_zero(p.y, unit.y0);
}

/// Every coordinate of every line is a fraction.
pub open spec fn lines_valid(lines: Seq<SpecLine>) -> bool {
    forall|i: int| 0 <= i < lines.len() ==> (#[trigger] lines[i]).valid()
}

/// The two sequences hold the same lines, point for point, whatever the
/// terms of the coordinates.
pub open spec fn lines_same(left: Seq<SpecLine>, right: Seq<SpecLine>) -> bool {
    &&& left.len() == right.len()
    &&& forall|i: int| 0 <= i < left.len() ==> (#[trigger] left[i]).same(right[i])
}

/// One coordinate placed between `lo` and `hi`: `p * (hi - lo) + lo`.
pub open spec fn place_along(p: Ratio, lo: Ratio, hi: Ratio) -> Ratio {
    p.mul(hi.sub(lo)).add(lo)
}

proof fn lemma_place_along_unit(p: Ratio, lo: Ratio, hi: Ratio)
    requires
        p.valid(),
        lo.valid(),
        hi.valid(),
        lo.same(Ratio::whole(0)),
        hi.same(Ratio::whole(1)),
    ensures
        place_along(p, lo, hi).same(p),
{
    let zero = Ratio::whole(0);
    let one = Ratio::whole(1);
    lemma_sub_same(hi, one, lo, zero);
    assert(one.sub(zero) == one);
    lemma_mul_same(p, p, hi.sub(lo), one);
    lemma_mul_whole_one(p, one);
    lemma_add_same(p.mul(hi.sub(lo)), p, lo, zero);
    lemma_add_whole_zero(p, zero);
}

proof fn lemma_place_along_compose(p: Ratio, a0: Ratio, a1: Ratio, b0: Ratio, b1: Ratio)
    requires
        p.valid(),
        a0.valid(),
        a1.valid(),
        b0.valid(),
        b1.valid(),
    ensures
        place_along(place_along(p, a0, a1), b0, b1).same(
            place_along(p, place_along(a0, b0, b1), place_along(a1, b0, b1)),
        ),
{
    let wa = a1.sub(a0);
    let wb = b1.sub(b0);
    let c0 = a0.mul(wb).add(b0);
    let c1 = a1.mul(wb).add(b0);
    let wc = c1.sub(c0);
    lemma_valid_closed(a1, a0);
    lemma_valid_closed(b1, b0);
    lemma_valid_closed(a0, wb);
    lemma_valid_closed(a1, wb);
    lemma_valid_closed(a0.mul(wb), b0);
    lemma_valid_closed(a1.mul(wb), b0);
    lemma_valid_closed(c1, c0);
    lemma_valid_closed(a1.mul(wb), a0.mul(wb));
    lemma_valid_closed(wa, wb);
    lemma_valid_closed(p, wa);
    lemma_valid_closed(p, wc);
    lemma_valid_closed(p, wa.mul(wb));
    lemma_valid_closed(p.mul(wa), wb);
    lemma_valid_closed(p.mul(wa), a0);
    lemma_valid_closed(p.mul(wa).mul(wb), a0.mul(wb));
    lemma_valid_closed(p.mul(wa).mul(wb), c0);
    // the width of the composed rectangle is the product of the widths
    lemma_sub_cancels(a1.mul(wb), a0.mul(wb), b0);
    lemma_sub_factors(a1, a0, wb);
    lemma_same_transitive(wc, a1.mul(wb).sub(a0.mul(wb)), wa.mul(wb));
    // hence p * wc is (p * wa) * wb
    lemma_mul_same(p, p, wc, wa.mul(wb));
    lemma_mul_associates(p, wa, wb);
    lemma_same_transitive(p.mul(wc), p.mul(wa.mul(wb)), p.mul(wa).mul(wb));
    // the left side, multiplied out
    lemma_mul_distributes(p.mul(wa), a0, wb);
    let spread = p.mul(wa).mul(wb).add(a0.mul(wb));
    lemma_add_same(p.mul(wa).add(a0).mul(wb), spread, b0, b0);
    lemma_add_associates(p.mul(wa).mul(wb), a0.mul(wb), b0);
    let middle = p.mul(wa).mul(wb).add(c0);
    assert(spread.add(b0) == middle);
    lemma_add_same(p.mul(wa).mul(wb), p.mul(wc), c0, c0);
    lemma_same_transitive(place_along(place_along(p, a0, a1), b0, b1), middle, p.mul(wc).add(c0));
}

/// Placing into a rectangle that is the unit square, in whatever terms,
/// leaves every point where it is.
pub proof fn lemma_fit_unit_square_same(lines: Seq<SpecLine>, rect: SpecRect)
    requires
        rect.valid(),
        rect.same(SpecRect::unit()),
        lines_valid(lines),
    ensures
        lines_same(rect.place_lines(lines), lines),
{
    assert forall|i: int| 0 <= i < lines.len() implies (#[trigger] rect.place_lines(lines)[i]).same(
        lines[i],
    ) by {
        let l = lines[i];
        assert(l.valid());
        lemma_place_along_unit(l.from.x, rect.x0, rect.x1);
        lemma_place_along_unit(l.from.y, rect.y0, rect.y1);
        lemma_place_along_unit(l.to.x, rect.x0, rect.x1);
        lemma_place_along_unit(l.to.y, rect.y0, rect.y1);
    }
}

/// Placing into `a` and then into `b` is placing into the rectangle that
/// `a` covers within `b`.
pub proof fn lemma_fit_composition(lines: Seq<SpecLine>, a: SpecRect, b: SpecRect)
    requires
        a.valid(),
        b.valid(),
        lines_valid(lines),
    ensures
        lines_same(b.place_lines(a.place_lines(lines)), b.place_rect(a).place_lines(lines)),
{
    let twice = b.place_lines(a.place_lines(lines));
    let once = b.place_rect(a).place_lines(lines);
    assert forall|i: int| 0 <= i < twice.len() implies (#[trigger] twice[i]).same(once[i]) by {
        let l = lines[i];
        assert(l.valid());
        lemma_place_along_compose(l.from.x, a.x0, a.x1, b.x0, b.x1);
        lemma_place_along_compose(l.from.y, a.y0, a.y1, b.y0, b.y1);
        lemma_place_along_compose(l.to.x, a.x0, a.x1, b.x0, b.x1);
        lemma_place_along_compose(l.to.y, a.y0, a.y1, b.y0, b.y1);
    }
}

} // verus!
