//! The layout expression of a character.

use crate::compiler::points_view;
use crate::geometry::{Point, SpecPoint};
use crate::number::integer::Integer;
use crate::number::natural::Natural;
use crate::number::rational::{Ratio, Rational};
use vstd::prelude::*;

verus! {

/// A layout expression: how a character is put together from strokes, other
/// characters and layout operators.
#[derive(Debug)]
pub enum SyntaxTree {
    /// The character of this name, compiled earlier.
    Ident(String),
    /// Strokes, each a sequence of control points in the unit square.
    Lines(Vec<Vec<Point>>),
    /// A rectangle given by two opposite corners; it draws nothing.
    Bounds(Point, Point),
    /// All parts drawn into the same rectangle.
    Plus(Vec<SyntaxTree>),
    /// The parts side by side, in widths proportional to their weights.
    Horizontal(Vec<SyntaxTree>),
    /// The parts one above the other, in heights proportional to their weights.
    Vertical(Vec<SyntaxTree>),
    /// An outer expression with an inner one set into its slot.
    Inner(Box<SyntaxTree>, Box<SyntaxTree>),
    /// A part whose weight is `1 / (level + 1)`.
    Shrink(usize, Box<SyntaxTree>),
    /// A part drawn into the centred square of its rectangle.
    Square(Box<SyntaxTree>),
    /// A part drawn halfway between its rectangle and the centred square.
    HalfwaySquare(Box<SyntaxTree>),
}

/// What a `SyntaxTree` holds.
pub enum SpecTree {
    Ident(Seq<char>),
    Lines(Seq<Seq<SpecPoint>>),
    Bounds(SpecPoint, SpecPoint),
    Plus(Seq<SpecTree>),
    Horizontal(Seq<SpecTree>),
    Vertical(Seq<SpecTree>),
    Inner(Box<SpecTree>, Box<SpecTree>),
    Shrink(nat, Box<SpecTree>),
    Square(Box<SpecTree>),
    HalfwaySquare(Box<SpecTree>),
}

/// The views of a sequence of strokes.
pub open spec fn strokes_view(strokes: Seq<Vec<Point>>) -> Seq<Seq<SpecPoint>> {
    Seq::new(strokes.len(), |i: int| points_view(strokes[i]@))
}

/// The views of a sequence of expressions.
pub open spec fn trees_view(trees: Seq<SyntaxTree>) -> Seq<SpecTree>
    decreases trees,
{
    Seq::new(
        trees.len(),
        |i: int|
            if 0 <= i < trees.len() {
                tree_view(trees[i])
            } else {
                arbitrary()
            },
    )
}

/// What an expression holds.
pub open spec fn tree_view(tree: SyntaxTree) -> SpecTree
    decreases tree,
{
    match tree {
        SyntaxTree::Ident(name) => SpecTree::Ident(name@),
        SyntaxTree::Lines(strokes) => SpecTree::Lines(strokes_view(strokes@)),
        SyntaxTree::Bounds(from, to) => SpecTree::Bounds(from@, to@),
        SyntaxTree::Plus(parts) => SpecTree::Plus(trees_view(parts@)),
        SyntaxTree::Horizontal(parts) => SpecTree::Horizontal(trees_view(parts@)),
        SyntaxTree::Vertical(parts) => SpecTree::Vertical(trees_view(parts@)),
        SyntaxTree::Inner(outer, inner) => SpecTree::Inner(
            Box::new(tree_view(*outer)),
            Box::new(tree_view(*inner)),
        ),
        SyntaxTree::Shrink(level, part) => SpecTree::Shrink(
            level as nat,
            Box::new(tree_view(*part)),
        ),
        SyntaxTree::Square(part) => SpecTree::Square(Box::new(tree_view(*part))),
        SyntaxTree::HalfwaySquare(part) => SpecTree::HalfwaySquare(Box::new(tree_view(*part))),
    }
}

impl View for SyntaxTree {
    type V = SpecTree;

    open spec fn view(&self) -> SpecTree {
        tree_view(*self)
    }
}

impl SpecTree {
    /// The share that an expression claims of a row or a column: `1 / (level + 1)`
    /// for a shrunk part, one for every other expression.
    pub open spec fn weight(self) -> Ratio {
        match self {
            SpecTree::Shrink(level, _) => Ratio { num: 1, den: level as int + 1 },
            _ => Ratio::whole(1),
        }
    }
}

/// A part shrunk by `level` weighs `1 / (level + 1)`, whatever the part.
pub proof fn lemma_shrink_weight(level: nat, part: SpecTree)
    ensures
        SpecTree::Shrink(level, Box::new(part)).weight() == (Ratio { num: 1, den: level as int + 1 }),
{
}

impl SyntaxTree {
    /// The share that this expression claims of a row or a column.
    pub fn weight(&self) -> (w: Rational)
        ensures
            w@ == self@.weight(),
    {
        match self {
            SyntaxTree::Shrink(level, _) => {
                let den: Natural = Natural::from_u64(*level as u64).add(&Natural::from_u64(1));
                match Rational::new(Integer::from_i64(1), den) {
                    Some(w) => w,
                    None => vstd::pervasive::unreached(),
                }
            },
            _ => Rational::from_int(1),
        }
    }
}

} // verus!
