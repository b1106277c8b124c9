//! A character definition and its annotations.

use crate::geometry::{Rect, SpecRect};
use crate::number::rational::{Ratio, Rational};
use crate::parser::syntax_tree::{SpecTree, SyntaxTree};
use vstd::prelude::*;

verus! {

/// One definition of the source text.
#[derive(Debug)]
pub struct Character {
    /// Whether the character is a radical: a primitive that stands for itself.
    pub is_radical: bool,
    /// The names of the character; the first is the one it is known by.
    pub names: Vec<String>,
    pub syntax_tree: SyntaxTree,
    pub annotations: Annotations,
}

/// What a `Character` holds.
pub struct SpecCharacter {
    pub is_radical: bool,
    pub names: Seq<Seq<char>>,
    pub syntax_tree: SpecTree,
    pub annotations: SpecAnnotations,
}

/// The views of a sequence of names.
pub open spec fn names_view(names: Seq<String>) -> Seq<Seq<char>> {
    Seq::new(names.len(), |i: int| names[i]@)
}

impl View for Character {
    type V = SpecCharacter;

    open spec fn view(&self) -> SpecCharacter {
        SpecCharacter {
            is_radical: self.is_radical,
            names: names_view(self.names@),
            syntax_tree: self.syntax_tree@,
            annotations: self.annotations@,
        }
    }
}

/// The views of a sequence of definitions.
pub open spec fn characters_view(characters: Seq<Character>) -> Seq<SpecCharacter> {
    Seq::new(characters.len(), |i: int| characters[i]@)
}

/// Where a character sits: alone, and around another character.
#[derive(Debug)]
pub struct Annotations {
    /// The rectangle of the character drawn on its own.
    pub standalone: Rect,
    /// The slot of the character itself and the slot of what is set into it.
    pub inner: (Rect, Rect),
}

/// What `Annotations` hold.
pub struct SpecAnnotations {
    pub standalone: SpecRect,
    pub inner: (SpecRect, SpecRect),
}

impl View for Annotations {
    type V = SpecAnnotations;

    open spec fn view(&self) -> SpecAnnotations {
        SpecAnnotations { standalone: self.standalone@, inner: (self.inner.0@, self.inner.1@) }
    }
}

impl SpecAnnotations {
    /// The slot for an inner character where none is given: the centred
    /// square of three fifths of the side.
    pub open spec fn default_inner_slot() -> SpecRect {
        SpecRect {
            x0: Ratio { num: 1, den: 5 },
            y0: Ratio { num: 1, den: 5 },
            x1: Ratio { num: 4, den: 5 },
            y1: Ratio { num: 4, den: 5 },
        }
    }

    /// The annotations of a character that gives none.
    pub open spec fn initial() -> SpecAnnotations {
        SpecAnnotations {
            standalone: SpecRect::unit(),
            inner: (SpecRect::unit(), SpecAnnotations::default_inner_slot()),
        }
    }
}

fn fifths(n: i64) -> (r: Rational)
    ensures
        r@ == (Ratio { num: n as int, den: 5 }),
{
    match Rational::from_ratio(n, 5) {
        Some(q) => q,
        None => vstd::pervasive::unreached(),
    }
}

impl Annotations {
    /// The annotations of a character that gives none: alone it fills the
    /// unit square; as an outer character it fills the unit square and leaves
    /// the centred square of three fifths of the side to the inner one.
    pub fn new() -> (r: Annotations)
        ensures
            r@ == SpecAnnotations::initial(),
    {
        Annotations {
            standalone: Rect::unit(),
            inner: (Rect::unit(), Rect { x0: fifths(1), y0: fifths(1), x1: fifths(4), y1: fifths(4) }),
        }
    }
}

impl Clone for Annotations {
    fn clone(&self) -> (r: Annotations)
        ensures
            r@ == self@,
    {
        Annotations {
            standalone: self.standalone.clone(),
            inner: (self.inner.0.clone(), self.inner.1.clone()),
        }
    }
}

} // verus!
