//! Which primitive components a character is drawn from.

use crate::compiler::compiler::{CompileError, SpecCompileError};
use crate::compiler::table::Table;
use crate::parser::character::{names_view, Character, SpecCharacter};
use crate::parser::syntax_tree::{trees_view, SpecTree, SyntaxTree};
use vstd::prelude::*;

verus! {

/// The components of the characters looked into so far, by name.
pub type Components = Table<Vec<String>>;

/// What a table of components holds.
pub open spec fn components_view(components: Map<Seq<char>, Vec<String>>) -> Map<
    Seq<char>,
    Seq<Seq<char>>,
> {
    Map::new(
        |name: Seq<char>| components.contains_key(name),
        |name: Seq<char>| names_view(components[name]@),
    )
}

/// The name under which a stroke drawn by hand counts as a component.
pub open spec fn stroke_name() -> Seq<char> {
    "stroke"@
}

/// What the result of looking into a character holds.
pub open spec fn input_view(r: Result<Vec<String>, CompileError>) -> Result<
    Seq<Seq<char>>,
    SpecCompileError,
> {
    match r {
        Ok(names) => Ok(names_view(names@)),
        Err(e) => Err(e@),
    }
}

/// The components of an expression, from left to right and with
/// repetitions: those on record for a name; one stroke for strokes; none for
/// a rectangle; for every other expression those of its parts. A name that
/// is not on record is an obstacle.
pub open spec fn tree_input(tree: SpecTree, reference: Map<Seq<char>, Seq<Seq<char>>>) -> Result<
    Seq<Seq<char>>,
    SpecCompileError,
>
    decreases tree,
{
    match tree {
        SpecTree::Ident(name) => if reference.contains_key(name) {
            Ok(reference[name])
        } else {
            Err(SpecCompileError::UnresolvedReference(name))
        },
        SpecTree::Lines(_) => Ok(seq![stroke_name()]),
        SpecTree::Bounds(_, _) => Ok(Seq::empty()),
        SpecTree::Plus(parts) => input_each(parts, reference),
        SpecTree::Horizontal(parts) => input_each(parts, reference),
        SpecTree::Vertical(parts) => input_each(parts, reference),
        SpecTree::Inner(outer, inner) => match tree_input(*outer, reference) {
            Err(e) => Err(e),
            Ok(head) => match tree_input(*inner, reference) {
                Err(e) => Err(e),
                Ok(tail) => Ok(head + tail),
            },
        },
        SpecTree::Shrink(_, part) => tree_input(*part, reference),
        SpecTree::Square(part) => tree_input(*part, reference),
        SpecTree::HalfwaySquare(part) => tree_input(*part, reference),
    }
}

/// The components of each part, part after part.
pub open spec fn input_each(parts: Seq<SpecTree>, reference: Map<Seq<char>, Seq<Seq<char>>>) -> Result<
    Seq<Seq<char>>,
    SpecCompileError,
>
    decreases parts,
{
    if parts.len() == 0 {
        Ok(Seq::empty())
    } else {
        match input_each(parts.drop_last(), reference) {
            Err(e) => Err(e),
            Ok(head) => match tree_input(parts.last(), reference) {
                Err(e) => Err(e),
                Ok(tail) => Ok(head + tail),
            },
        }
    }
}

/// The components of a character: its own name for a radical, else those of
/// its expression.
pub open spec fn character_input(
    character: SpecCharacter,
    reference: Map<Seq<char>, Seq<Seq<char>>>,
) -> Result<Seq<Seq<char>>, SpecCompileError> {
    if character.is_radical {
        Ok(seq![character.names[0]])
    } else {
        tree_input(character.syntax_tree, reference)
    }
}

/// Once a part has failed, the parts after it change nothing.
pub proof fn lemma_input_each_fails(
    parts: Seq<SpecTree>,
    reference: Map<Seq<char>, Seq<Seq<char>>>,
    k: int,
    n: int,
)
    requires
        0 <= k <= n <= parts.len(),
        input_each(parts.take(k), reference) is Err,
    ensures
        input_each(parts.take(n), reference) == input_each(parts.take(k), reference),
    decreases n - k,
{
    if k < n {
        lemma_input_each_fails(parts, reference, k, n - 1);
        assert(parts.take(n).drop_last() =~= parts.take(n - 1));
    }
}

/// A copy of `names`.
pub fn clone_names(names: &Vec<String>) -> (r: Vec<String>)
    ensures
        names_view(r@) == names_view(names@),
{
    let mut out: Vec<String> = Vec::new();
    let mut i: usize = 0;
    while i < names.len()
        invariant
            i <= names.len(),
            out.len() == i,
            forall|j: int| 0 <= j < i ==> out@[j]@ == names@[j]@,
        decreases names.len() - i,
    {
        out.push(names[i].clone());
        i += 1;
    }
    assert(names_view(out@) =~= names_view(names@));
    out
}

fn input_of_each(parts: &Vec<SyntaxTree>, reference: &Components) -> (r: Result<
    Vec<String>,
    CompileError,
>)
    ensures
        input_view(r) == input_each(trees_view(parts@), components_view(reference@)),
    decreases parts,
{
    let ghost tv = trees_view(parts@);
    let ghost known = components_view(reference@);
    let mut out: Vec<String> = Vec::new();
    let mut i: usize = 0;
    proof {
        assert(tv.take(0).len() == 0);
        assert(names_view(out@) =~= Seq::<Seq<char>>::empty());
    }
    while i < parts.len()
        invariant
            i <= parts.len(),
            tv == trees_view(parts@),
            known == components_view(reference@),
            input_each(tv.take(i as int), known) == Ok::<Seq<Seq<char>>, SpecCompileError>(
                names_view(out@),
            ),
        decreases parts.len() - i,
    {
        proof {
            assert(tv.take(i + 1).drop_last() =~= tv.take(i as int));
        }
        match parts[i].get_input(reference) {
            Ok(mut names) => {
                proof {
                    assert(names_view(out@ + names@) =~= names_view(out@) + names_view(names@));
                }
                out.append(&mut names);
            },
            Err(e) => {
                proof {
                    lemma_input_each_fails(tv, known, i + 1, tv.len() as int);
                    assert(tv.take(tv.len() as int) =~= tv);
                }
                return Err(e);
            },
        }
        i += 1;
    }
    proof {
        assert(tv.take(tv.len() as int) =~= tv);
    }
    Ok(out)
}

impl Character {
    /// The components that this character is drawn from.
    pub fn get_input(&self, reference: &Components) -> (r: Result<Vec<String>, CompileError>)
        requires
            self.is_radical ==> self.names.len() > 0,
        ensures
            input_view(r) == character_input(self@, components_view(reference@)),
    {
        if self.is_radical {
            let mut own: Vec<String> = Vec::new();
            own.push(self.names[0].clone());
            assert(names_view(own@) =~= seq![self@.names[0]]);
            Ok(own)
        } else {
            self.syntax_tree.get_input(reference)
        }
    }
}

impl SyntaxTree {
    /// The components that this expression is drawn from.
    pub fn get_input(&self, reference: &Components) -> (r: Result<Vec<String>, CompileError>)
        ensures
            input_view(r) == tree_input(self@, components_view(reference@)),
        decreases self,
    {
        match self {
            SyntaxTree::Ident(ident) => {
                match reference.get(ident) {
                    Some(names) => Ok(clone_names(names)),
                    None => Err(CompileError::UnresolvedReference(ident.clone())),
                }
            },
            SyntaxTree::Lines(_) => {
                let mut one: Vec<String> = Vec::new();
                one.push("stroke".to_owned());
                assert(names_view(one@) =~= seq![stroke_name()]);
                Ok(one)
            },
            SyntaxTree::Bounds(_, _) => {
                let none: Vec<String> = Vec::new();
                assert(names_view(none@) =~= Seq::<Seq<char>>::empty());
                Ok(none)
            },
            SyntaxTree::Plus(parts) => input_of_each(parts, reference),
            SyntaxTree::Horizontal(parts) => input_of_each(parts, reference),
            SyntaxTree::Vertical(parts) => input_of_each(parts, reference),
            SyntaxTree::Inner(outer, inner) => {
                match outer.get_input(reference) {
                    Err(e) => Err(e),
                    Ok(mut head) => {
                        match inner.get_input(reference) {
                            Err(e) => Err(e),
                            Ok(mut tail) => {
                                proof {
                                    assert(names_view(head@ + tail@) =~= names_view(head@)
                                        + names_view(tail@));
                                }
                                head.append(&mut tail);
                                Ok(head)
                            },
                        }
                    },
                }
            },
            SyntaxTree::Shrink(_, tree) => tree.get_input(reference),
            SyntaxTree::Square(tree) => tree.get_input(reference),
            SyntaxTree::HalfwaySquare(tree) => tree.get_input(reference),
        }
    }
}

} // verus!
