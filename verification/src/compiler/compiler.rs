//! The tree compiler: a layout expression, drawn into a rectangle.

use crate::compiler::table::Table;
use crate::compiler::{compile_smooth_line, smooth_line};
use crate::geometry::{fit_inside, lines_view, rects_view, Line, Rect, SpecLine, SpecPoint, SpecRect};
use crate::number::rational::{lemma_product_positive, Ratio, Rational};
use crate::parser::character::{Annotations, SpecAnnotations};
use crate::parser::syntax_tree::{strokes_view, trees_view, SpecTree, SyntaxTree};
use vstd::prelude::*;

verus! {

/// A compiled character: its lines in the unit square, and its annotations.
#[derive(Debug)]
pub struct Compiled {
    pub lines: Vec<Line>,
    pub annotations: Annotations,
}

/// What a `Compiled` holds.
pub struct SpecCompiled {
    pub lines: Seq<SpecLine>,
    pub annotations: SpecAnnotations,
}

impl View for Compiled {
    type V = SpecCompiled;

    open spec fn view(&self) -> SpecCompiled {
        SpecCompiled { lines: lines_view(self.lines@), annotations: self.annotations@ }
    }
}

/// The characters compiled so far, by name.
pub type Registry = Table<Compiled>;

/// What a registry holds.
pub open spec fn registry_view(registry: Map<Seq<char>, Compiled>) -> Map<Seq<char>, SpecCompiled> {
    Map::new(|name: Seq<char>| registry.contains_key(name), |name: Seq<char>| registry[name]@)
}

/// Why an expression cannot be compiled.
#[derive(Debug)]
pub enum CompileError {
    /// The expression names a character that the registry does not hold.
    UnresolvedReference(String),
    /// The outer part of a nesting is neither a rectangle nor a name.
    UnsupportedOuter,
    /// A definition bears the name of a character that the registry holds
    /// already.
    Redefined(String),
}

/// What a `CompileError` holds.
pub enum SpecCompileError {
    UnresolvedReference(Seq<char>),
    UnsupportedOuter,
    Redefined(Seq<char>),
}

impl View for CompileError {
    type V = SpecCompileError;

    open spec fn view(&self) -> SpecCompileError {
        match self {
            CompileError::UnresolvedReference(name) => SpecCompileError::UnresolvedReference(name@),
            CompileError::UnsupportedOuter => SpecCompileError::UnsupportedOuter,
            CompileError::Redefined(name) => SpecCompileError::Redefined(name@),
        }
    }
}

/// What the result of a compilation holds.
pub open spec fn result_view(r: Result<Vec<Line>, CompileError>) -> Result<
    Seq<SpecLine>,
    SpecCompileError,
> {
    match r {
        Ok(lines) => Ok(lines_view(lines@)),
        Err(e) => Err(e@),
    }
}

/// The segments of all strokes, stroke after stroke.
pub open spec fn strokes_lines(strokes: Seq<Seq<SpecPoint>>) -> Seq<SpecLine>
    decreases strokes.len(),
{
    if strokes.len() == 0 {
        Seq::empty()
    } else {
        strokes_lines(strokes.drop_last()) + smooth_line(strokes.last())
    }
}

/// The sum of the weights of `parts`, added up from the first.
pub open spec fn total_weight(parts: Seq<SpecTree>) -> Ratio
    decreases parts.len(),
{
    if parts.len() == 0 {
        Ratio::whole(0)
    } else {
        total_weight(parts.drop_last()).add(parts.last().weight())
    }
}

/// The extent of the slice of `part`: `weight / total * extent`.
pub open spec fn share(part: SpecTree, total: Ratio, extent: Ratio) -> Ratio {
    part.weight().div(total).mul(extent)
}

/// Where the slice of part `i` begins: at `origin`, moved on by the extents
/// of the slices before it.
pub open spec fn slice_start(parts: Seq<SpecTree>, origin: Ratio, extent: Ratio, i: nat) -> Ratio
    decreases i,
{
    if i == 0 {
        origin
    } else {
        slice_start(parts, origin, extent, (i - 1) as nat).add(
            share(parts[i - 1], total_weight(parts), extent),
        )
    }
}

/// Where the slice of part `i` ends.
pub open spec fn slice_end(parts: Seq<SpecTree>, origin: Ratio, extent: Ratio, i: nat) -> Ratio {
    slice_start(parts, origin, extent, i).add(share(parts[i as int], total_weight(parts), extent))
}

/// The slice of part `i` in a row that fills `bounds`.
pub open spec fn row_slice(parts: Seq<SpecTree>, bounds: SpecRect, i: int) -> SpecRect {
    SpecRect {
        x0: slice_start(parts, bounds.x0, bounds.width(), i as nat),
        y0: bounds.y0,
        x1: slice_end(parts, bounds.x0, bounds.width(), i as nat),
        y1: bounds.y1,
    }
}

/// The slice of part `i` in a column that fills `bounds`.
pub open spec fn column_slice(parts: Seq<SpecTree>, bounds: SpecRect, i: int) -> SpecRect {
    SpecRect {
        x0: bounds.x0,
        y0: slice_start(parts, bounds.y0, bounds.height(), i as nat),
        x1: bounds.x1,
        y1: slice_end(parts, bounds.y0, bounds.height(), i as nat),
    }
}

/// The lines of `tree` drawn into `bounds`, with the characters of
/// `registry` at hand; or the first obstacle met, going through the
/// expression from left to right.
pub open spec fn compiled(
    tree: SpecTree,
    registry: Map<Seq<char>, SpecCompiled>,
    bounds: SpecRect,
) -> Result<Seq<SpecLine>, SpecCompileError>
    decreases tree,
{
    match tree {
        SpecTree::Lines(strokes) => Ok(bounds.place_lines(strokes_lines(strokes))),
        SpecTree::Bounds(_, _) => Ok(Seq::empty()),
        SpecTree::Shrink(_, part) => compiled(*part, registry, bounds),
        SpecTree::Plus(parts) => compiled_each(
            parts,
            registry,
            Seq::new(parts.len(), |i: int| bounds),
        ),
        SpecTree::Horizontal(parts) => compiled_each(
            parts,
            registry,
            Seq::new(parts.len(), |i: int| row_slice(parts, bounds, i)),
        ),
        SpecTree::Vertical(parts) => compiled_each(
            parts,
            registry,
            Seq::new(parts.len(), |i: int| column_slice(parts, bounds, i)),
        ),
        SpecTree::Square(part) => compiled(*part, registry, bounds.centred(2)),
        SpecTree::HalfwaySquare(part) => compiled(*part, registry, bounds.centred(4)),
        SpecTree::Ident(name) => if registry.contains_key(name) {
            Ok(bounds.place_lines(registry[name].lines))
        } else {
            Err(SpecCompileError::UnresolvedReference(name))
        },
        SpecTree::Inner(outer, inner) => match *outer {
            SpecTree::Bounds(from, to) => {
                let frame = SpecRect { x0: from.x, y0: from.y, x1: to.x, y1: to.y };
                match compiled(*inner, registry, frame) {
                    Ok(lines) => Ok(bounds.place_lines(lines)),
                    Err(e) => Err(e),
                }
            },
            SpecTree::Ident(name) => if registry.contains_key(name) {
                let slots = registry[name].annotations.inner;
                match compiled(*inner, registry, slots.1) {
                    Ok(lines) => Ok(
                        bounds.place_lines(slots.0.place_lines(registry[name].lines) + lines),
                    ),
                    Err(e) => Err(e),
                }
            } else {
                Err(SpecCompileError::UnresolvedReference(name))
            },
            _ => Err(SpecCompileError::UnsupportedOuter),
        },
    }
}

/// The lines of each part drawn into its own rectangle, part after part; or
/// the obstacle that the first part to fail met.
pub open spec fn compiled_each(
    parts: Seq<SpecTree>,
    registry: Map<Seq<char>, SpecCompiled>,
    rects: Seq<SpecRect>,
) -> Result<Seq<SpecLine>, SpecCompileError>
    decreases parts,
{
    if parts.len() == 0 {
        Ok(Seq::empty())
    } else {
        match compiled_each(parts.drop_last(), registry, rects.drop_last()) {
            Err(e) => Err(e),
            Ok(head) => match compiled(parts.last(), registry, rects[parts.len() - 1]) {
                Err(e) => Err(e),
                Ok(tail) => Ok(head + tail),
            },
        }
    }
}

/// A name is drawn exactly where the registry holds it: then its lines are
/// placed into the rectangle; else the name is the obstacle.
pub proof fn lemma_reference_resolution(
    name: Seq<char>,
    registry: Map<Seq<char>, SpecCompiled>,
    bounds: SpecRect,
)
    ensures
        registry.contains_key(name) ==> compiled(SpecTree::Ident(name), registry, bounds) == Ok::<
            Seq<SpecLine>,
            SpecCompileError,
        >(bounds.place_lines(registry[name].lines)),
        !registry.contains_key(name) ==> compiled(SpecTree::Ident(name), registry, bounds) == Err::<
            Seq<SpecLine>,
            SpecCompileError,
        >(SpecCompileError::UnresolvedReference(name)),
{
}

/// Once a part has failed, the parts after it change nothing.
pub proof fn lemma_compiled_each_fails(
    parts: Seq<SpecTree>,
    registry: Map<Seq<char>, SpecCompiled>,
    rects: Seq<SpecRect>,
    k: int,
    n: int,
)
    requires
        0 <= k <= n <= parts.len(),
        compiled_each(parts.take(k), registry, rects.take(k)) is Err,
        rects.len() == parts.len(),
    ensures
        compiled_each(parts.take(n), registry, rects.take(n)) == compiled_each(
            parts.take(k),
            registry,
            rects.take(k),
        ),
    decreases n - k,
{
    if k < n {
        lemma_compiled_each_fails(parts, registry, rects, k, n - 1);
        assert(parts.take(n).drop_last() =~= parts.take(n - 1));
        assert(rects.take(n).drop_last() =~= rects.take(n - 1));
    }
}

proof fn lemma_swap_ends(a: int, t: int, e: int, c: int)
    by (nonlinear_arith)
    ensures
        ((a * t) * e) * c == ((c * t) * e) * a,
{
}

proof fn lemma_negated_products(a: int, c: int, t: int, e: int)
    by (nonlinear_arith)
    ensures
        ((-(a * t)) * e) * c == ((-(c * t)) * e) * a,
{
}

/// The extents of two slices of one row or column are to each other as the
/// weights of their parts: `share(p) * weight(q)` is the number
/// `share(q) * weight(p)`.
pub proof fn lemma_shares_proportional(p: SpecTree, q: SpecTree, total: Ratio, extent: Ratio)
    ensures
        share(p, total, extent).mul(q.weight()).same(share(q, total, extent).mul(p.weight())),
{
    let wp = p.weight();
    let wq = q.weight();
    if total.num < 0 {
        lemma_negated_products(wp.num, wq.num, total.den, extent.num);
        lemma_swap_ends(wp.den, -total.num, extent.den, wq.den);
    } else {
        lemma_swap_ends(wp.num, total.den, extent.num, wq.num);
        lemma_swap_ends(wp.den, total.num, extent.den, wq.den);
    }
}

/// The weights of one or more parts add up to a positive number.
pub proof fn lemma_total_weight_positive(parts: Seq<SpecTree>)
    ensures
        total_weight(parts).den > 0,
        total_weight(parts).num >= 0,
        parts.len() > 0 ==> total_weight(parts).num > 0,
    decreases parts.len(),
{
    if parts.len() > 0 {
        lemma_total_weight_positive(parts.drop_last());
        let t = total_weight(parts.drop_last());
        let w = parts.last().weight();
        assert(w.num == 1 && w.den > 0);
        lemma_product_positive(t.den, w.den);
        assert(t.num * w.den + w.num * t.den > 0) by (nonlinear_arith)
            requires
                t.num >= 0,
                w.den > 0,
                w.num == 1,
                t.den > 0,
        ;
    }
}

fn total_weight_of(parts: &Vec<SyntaxTree>) -> (total: Rational)
    ensures
        total@ == total_weight(trees_view(parts@)),
{
    let mut total: Rational = Rational::from_int(0);
    let mut i: usize = 0;
    while i < parts.len()
        invariant
            i <= parts.len(),
            total@ == total_weight(trees_view(parts@).take(i as int)),
        decreases parts.len() - i,
    {
        proof {
            let tv = trees_view(parts@);
            assert(tv.take(i + 1).drop_last() =~= tv.take(i as int));
        }
        total = total.add(&parts[i].weight());
        i += 1;
    }
    assert(trees_view(parts@).take(parts.len() as int) =~= trees_view(parts@));
    total
}

/// The two edges of every slice along one axis.
fn slice_edges(parts: &Vec<SyntaxTree>, origin: &Rational, extent: &Rational) -> (r: Vec<
    (Rational, Rational),
>)
    ensures
        r.len() == parts.len(),
        forall|i: int|
            0 <= i < r.len() ==> {
                &&& (#[trigger] r@[i]).0@ == slice_start(
                    trees_view(parts@),
                    origin@,
                    extent@,
                    i as nat,
                )
                &&& r@[i].1@ == slice_end(trees_view(parts@), origin@, extent@, i as nat)
            },
{
    let total: Rational = total_weight_of(parts);
    let mut edges: Vec<(Rational, Rational)> = Vec::new();
    let mut at: Rational = origin.clone();
    let mut i: usize = 0;
    while i < parts.len()
        invariant
            i <= parts.len(),
            edges.len() == i,
            total@ == total_weight(trees_view(parts@)),
            at@ == slice_start(trees_view(parts@), origin@, extent@, i as nat),
            forall|j: int|
                0 <= j < i ==> {
                    &&& (#[trigger] edges@[j]).0@ == slice_start(
                        trees_view(parts@),
                        origin@,
                        extent@,
                        j as nat,
                    )
                    &&& edges@[j].1@ == slice_end(trees_view(parts@), origin@, extent@, j as nat)
                },
        decreases parts.len() - i,
    {
        proof {
            lemma_total_weight_positive(trees_view(parts@));
        }
        let step: Rational = match parts[i].weight().div(&total) {
            Some(q) => q.mul(extent),
            None => vstd::pervasive::unreached(),
        };
        let next: Rational = at.add(&step);
        edges.push((at, next.clone()));
        at = next;
        i += 1;
    }
    edges
}

fn row_slices(parts: &Vec<SyntaxTree>, bounds: &Rect) -> (r: Vec<Rect>)
    ensures
        rects_view(r@) == Seq::new(
            parts.len() as nat,
            |i: int| row_slice(trees_view(parts@), bounds@, i),
        ),
{
    let extent: Rational = bounds.x1.sub(&bounds.x0);
    let edges: Vec<(Rational, Rational)> = slice_edges(parts, &bounds.x0, &extent);
    let mut rects: Vec<Rect> = Vec::new();
    let mut i: usize = 0;
    while i < edges.len()
        invariant
            i <= edges.len(),
            edges.len() == parts.len(),
            rects.len() == i,
            forall|j: int|
                0 <= j < i ==> (#[trigger] rects@[j])@ == (SpecRect {
                    x0: edges@[j].0@,
                    y0: bounds@.y0,
                    x1: edges@[j].1@,
                    y1: bounds@.y1,
                }),
        decreases edges.len() - i,
    {
        rects.push(
            Rect {
                x0: edges[i].0.clone(),
                y0: bounds.y0.clone(),
                x1: edges[i].1.clone(),
                y1: bounds.y1.clone(),
            },
        );
        i += 1;
    }
    assert(rects_view(rects@) =~= Seq::new(
        parts.len() as nat,
        |i: int| row_slice(trees_view(parts@), bounds@, i),
    ));
    rects
}

fn column_slices(parts: &Vec<SyntaxTree>, bounds: &Rect) -> (r: Vec<Rect>)
    ensures
        rects_view(r@) == Seq::new(
            parts.len() as nat,
            |i: int| column_slice(trees_view(parts@), bounds@, i),
        ),
{
    let extent: Rational = bounds.y1.sub(&bounds.y0);
    let edges: Vec<(Rational, Rational)> = slice_edges(parts, &bounds.y0, &extent);
    let mut rects: Vec<Rect> = Vec::new();
    let mut i: usize = 0;
    while i < edges.len()
        invariant
            i <= edges.len(),
            edges.len() == parts.len(),
            rects.len() == i,
            forall|j: int|
                0 <= j < i ==> (#[trigger] rects@[j])@ == (SpecRect {
                    x0: bounds@.x0,
                    y0: edges@[j].0@,
                    x1: bounds@.x1,
                    y1: edges@[j].1@,
                }),
        decreases edges.len() - i,
    {
        rects.push(
            Rect {
                x0: bounds.x0.clone(),
                y0: edges[i].0.clone(),
                x1: bounds.x1.clone(),
                y1: edges[i].1.clone(),
            },
        );
        i += 1;
    }
    assert(rects_view(rects@) =~= Seq::new(
        parts.len() as nat,
        |i: int| column_slice(trees_view(parts@), bounds@, i),
    ));
    rects
}

fn same_rects(count: usize, bounds: &Rect) -> (r: Vec<Rect>)
    ensures
        rects_view(r@) == Seq::new(count as nat, |i: int| bounds@),
{
    let mut rects: Vec<Rect> = Vec::new();
    let mut i: usize = 0;
    while i < count
        invariant
            i <= count,
            rects.len() == i,
            forall|j: int| 0 <= j < i ==> (#[trigger] rects@[j])@ == bounds@,
        decreases count - i,
    {
        rects.push(bounds.clone());
        i += 1;
    }
    assert(rects_view(rects@) =~= Seq::new(count as nat, |i: int| bounds@));
    rects
}

fn strokes_to_lines(strokes: &Vec<Vec<crate::geometry::Point>>) -> (r: Vec<Line>)
    ensures
        lines_view(r@) == strokes_lines(strokes_view(strokes@)),
{
    let mut all: Vec<Line> = Vec::new();
    let mut i: usize = 0;
    while i < strokes.len()
        invariant
            i <= strokes.len(),
            lines_view(all@) == strokes_lines(strokes_view(strokes@).take(i as int)),
        decreases strokes.len() - i,
    {
        let mut segment: Vec<Line> = compile_smooth_line(&strokes[i]);
        proof {
            let sv = strokes_view(strokes@);
            assert(sv.take(i + 1).drop_last() =~= sv.take(i as int));
            assert(lines_view(all@ + segment@) =~= lines_view(all@) + lines_view(segment@));
        }
        all.append(&mut segment);
        i += 1;
    }
    assert(strokes_view(strokes@).take(strokes.len() as int) =~= strokes_view(strokes@));
    all
}

fn unresolved(name: &String) -> (e: CompileError)
    ensures
        e@ == SpecCompileError::UnresolvedReference(name@),
{
    CompileError::UnresolvedReference(name.clone())
}

fn compile_each(parts: &Vec<SyntaxTree>, reference: &Registry, rects: &Vec<Rect>) -> (r: Result<
    Vec<Line>,
    CompileError,
>)
    requires
        rects.len() == parts.len(),
    ensures
        result_view(r) == compiled_each(
            trees_view(parts@),
            registry_view(reference@),
            rects_view(rects@),
        ),
    decreases parts,
{
    let ghost tv = trees_view(parts@);
    let ghost rv = rects_view(rects@);
    let ghost reg = registry_view(reference@);
    let mut out: Vec<Line> = Vec::new();
    let mut i: usize = 0;
    proof {
        assert(tv.take(0).len() == 0);
        assert(lines_view(out@) =~= Seq::<SpecLine>::empty());
    }
    while i < parts.len()
        invariant
            i <= parts.len(),
            rects.len() == parts.len(),
            tv == trees_view(parts@),
            rv == rects_view(rects@),
            reg == registry_view(reference@),
            compiled_each(tv.take(i as int), reg, rv.take(i as int)) == Ok::<
                Seq<SpecLine>,
                SpecCompileError,
            >(lines_view(out@)),
        decreases parts.len() - i,
    {
        proof {
            assert(tv.take(i + 1).drop_last() =~= tv.take(i as int));
            assert(rv.take(i + 1).drop_last() =~= rv.take(i as int));
        }
        match parts[i].compile(reference, &rects[i]) {
            Ok(mut lines) => {
                proof {
                    assert(lines_view(out@ + lines@) =~= lines_view(out@) + lines_view(lines@));
                }
                out.append(&mut lines);
            },
            Err(e) => {
                proof {
                    lemma_compiled_each_fails(tv, reg, rv, i + 1, tv.len() as int);
                    assert(tv.take(tv.len() as int) =~= tv);
                    assert(rv.take(tv.len() as int) =~= rv);
                }
                return Err(e);
            },
        }
        i += 1;
    }
    proof {
        assert(tv.take(tv.len() as int) =~= tv);
        assert(rv.take(tv.len() as int) =~= rv);
    }
    Ok(out)
}

impl SyntaxTree {
    /// Draws this expression into `bounds`, with the characters of
    /// `reference` at hand.
    pub fn compile(&self, reference: &Registry, bounds: &Rect) -> (r: Result<
        Vec<Line>,
        CompileError,
    >)
        ensures
            result_view(r) == compiled(self@, registry_view(reference@), bounds@),
        decreases self,
    {
        match self {
            SyntaxTree::Lines(strokes) => {
                let lines: Vec<Line> = strokes_to_lines(strokes);
                Ok(fit_inside(&lines, bounds))
            },
            SyntaxTree::Bounds(_, _) => {
                let none: Vec<Line> = Vec::new();
                assert(lines_view(none@) =~= Seq::<SpecLine>::empty());
                Ok(none)
            },
            SyntaxTree::Shrink(_, tree) => tree.compile(reference, bounds),
            SyntaxTree::Plus(trees) => {
                let rects: Vec<Rect> = same_rects(trees.len(), bounds);
                proof {
                    assert(rects.len() == rects_view(rects@).len());
                    assert(rects_view(rects@) =~= Seq::new(
                        trees_view(trees@).len(),
                        |i: int| bounds@,
                    ));
                }
                compile_each(trees, reference, &rects)
            },
            SyntaxTree::Square(tree) => tree.compile(reference, &bounds.square()),
            SyntaxTree::HalfwaySquare(tree) => tree.compile(reference, &bounds.halfway_square()),
            SyntaxTree::Horizontal(trees) => {
                let rects: Vec<Rect> = row_slices(trees, bounds);
                proof {
                    assert(rects.len() == rects_view(rects@).len());
                    assert(rects_view(rects@) =~= Seq::new(
                        trees_view(trees@).len(),
                        |i: int| row_slice(trees_view(trees@), bounds@, i),
                    ));
                }
                compile_each(trees, reference, &rects)
            },
            SyntaxTree::Vertical(trees) => {
                let rects: Vec<Rect> = column_slices(trees, bounds);
                proof {
                    assert(rects.len() == rects_view(rects@).len());
                    assert(rects_view(rects@) =~= Seq::new(
                        trees_view(trees@).len(),
                        |i: int| column_slice(trees_view(trees@), bounds@, i),
                    ));
                }
                compile_each(trees, reference, &rects)
            },
            SyntaxTree::Inner(outer, inner) => {
                match &**outer {
                    SyntaxTree::Bounds(from, to) => {
                        assert(outer@ == SpecTree::Bounds(from@, to@));
                        let frame: Rect = Rect::from_corners(from, to);
                        match inner.compile(reference, &frame) {
                            Ok(lines) => Ok(fit_inside(&lines, bounds)),
                            Err(e) => Err(e),
                        }
                    },
                    SyntaxTree::Ident(name) => {
                        assert(outer@ == SpecTree::Ident(name@));
                        match reference.get(name) {
                            Some(entry) => {
                                assert(registry_view(reference@)[name@] == entry@);
                                let mut combined: Vec<Line> = fit_inside(
                                    &entry.lines,
                                    &entry.annotations.inner.0,
                                );
                                match inner.compile(reference, &entry.annotations.inner.1) {
                                    Ok(mut lines) => {
                                        proof {
                                            assert(lines_view(combined@ + lines@) =~= lines_view(
                                                combined@,
                                            ) + lines_view(lines@));
                                        }
                                        combined.append(&mut lines);
                                        Ok(fit_inside(&combined, bounds))
                                    },
                                    Err(e) => Err(e),
                                }
                            },
                            None => Err(unresolved(name)),
                        }
                    },
                    _ => {
                        assert(!(outer@ is Bounds) && !(outer@ is Ident));
                        Err(CompileError::UnsupportedOuter)
                    },
                }
            },
            SyntaxTree::Ident(ident) => {
                match reference.get(ident) {
                    Some(entry) => {
                        assert(registry_view(reference@)[ident@] == entry@);
                        Ok(fit_inside(&entry.lines, bounds))
                    },
                    None => Err(unresolved(ident)),
                }
            },
        }
    }
}

} // verus!
