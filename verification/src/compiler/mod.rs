//! From layout expressions to line segments: the curve sampler and the
//! driver that compiles a source text definition by definition.

pub mod compiler;
pub mod input;
pub mod table;

use crate::compiler::compiler::{
    compiled, registry_view, Compiled, CompileError, Registry, SpecCompileError, SpecCompiled,
};
use crate::geometry::{lines_view, Line, Point, Rect, SpecLine, SpecPoint, SpecRect};
use crate::number::rational::{Ratio, Rational};
use crate::lexer::lexer::{tokens_of, Lexer};
use crate::parser::character::{characters_view, Character, SpecCharacter};
use crate::parser::syntax_tree::SpecTree;
use crate::parser::parser::{characters_of, Parser};
use vstd::prelude::*;

verus! {

/// The number of segments that approximate a curve.
pub const LINE_STEPS: u64 = 20;

/// The views of a sequence of points.
pub open spec fn points_view(points: Seq<Point>) -> Seq<SpecPoint> {
    Seq::new(points.len(), |i: int| points[i]@)
}

/// The point between `p` and `q` at parameter `t`: `p * (1 - t) + q * t`.
pub open spec fn blend(p: SpecPoint, q: SpecPoint, t: Ratio) -> SpecPoint {
    let s = Ratio::whole(1).sub(t);
    SpecPoint { x: p.x.mul(s).add(q.x.mul(t)), y: p.y.mul(s).add(q.y.mul(t)) }
}

/// One round of blending: each point with its successor.
pub open spec fn blend_round(dots: Seq<SpecPoint>, t: Ratio) -> Seq<SpecPoint> {
    Seq::new((dots.len() - 1) as nat, |i: int| blend(dots[i], dots[i + 1], t))
}

/// The point of the curve with control points `dots` at parameter `t`:
/// rounds of blending until one point is left. No point for no control
/// points.
pub open spec fn interpolated(t: Ratio, dots: Seq<SpecPoint>) -> Option<SpecPoint>
    decreases dots.len(),
{
    if dots.len() == 0 {
        None
    } else if dots.len() == 1 {
        Some(dots[0])
    } else {
        interpolated(t, blend_round(dots, t))
    }
}

/// The sample of the curve at parameter `k / LINE_STEPS`.
pub open spec fn sample(dots: Seq<SpecPoint>, k: int) -> SpecPoint {
    interpolated(Ratio { num: k, den: LINE_STEPS as int }, dots).unwrap()
}

/// The segments that stand for one stroke: the stroke itself where it has
/// two points, none where it has no point, else the `LINE_STEPS` segments
/// between consecutive samples.
pub open spec fn smooth_line(dots: Seq<SpecPoint>) -> Seq<SpecLine> {
    if dots.len() == 2 {
        seq![SpecLine { from: dots[0], to: dots[1] }]
    } else if dots.len() == 0 {
        Seq::empty()
    } else {
        Seq::new(
            LINE_STEPS as nat,
            |k: int| SpecLine { from: sample(dots, k), to: sample(dots, k + 1) },
        )
    }
}

/// A stroke of three or more points becomes exactly `LINE_STEPS` segments.
pub proof fn lemma_sample_count(dots: Seq<SpecPoint>)
    requires
        dots.len() >= 3,
    ensures
        smooth_line(dots).len() == LINE_STEPS,
{
}

/// A stroke of two points becomes the one segment between them.
pub proof fn lemma_two_points_exact(dots: Seq<SpecPoint>)
    requires
        dots.len() == 2,
    ensures
        smooth_line(dots) == seq![SpecLine { from: dots[0], to: dots[1] }],
{
}

fn blend_points(p: &Point, q: &Point, t: &Rational, s: &Rational) -> (r: Point)
    requires
        s@ == Ratio::whole(1).sub(t@),
    ensures
        r@ == blend(p@, q@, t@),
{
    Point { x: p.x.mul(s).add(&q.x.mul(t)), y: p.y.mul(s).add(&q.y.mul(t)) }
}

/// The point of the curve with control points `dots` at `progress`.
pub fn interpolate(progress: &Rational, dots: &Vec<Point>) -> (r: Option<Point>)
    ensures
        r is Some <==> dots.len() > 0,
        match r {
            Some(p) => Some(p@) == interpolated(progress@, points_view(dots@)),
            None => interpolated(progress@, points_view(dots@)) is None,
        },
{
    if dots.len() == 0 {
        return None;
    }
    let rest: Rational = Rational::from_int(1).sub(progress);
    let mut current: Vec<Point> = Vec::new();
    let mut i: usize = 0;
    while i < dots.len()
        invariant
            i <= dots.len(),
            current.len() == i,
            forall|j: int| 0 <= j < i ==> current@[j]@ == dots@[j]@,
        decreases dots.len() - i,
    {
        current.push(dots[i].clone());
        i += 1;
    }
    assert(points_view(current@) =~= points_view(dots@));
    while current.len() > 1
        invariant
            current.len() >= 1,
            rest@ == Ratio::whole(1).sub(progress@),
            interpolated(progress@, points_view(current@)) == interpolated(
                progress@,
                points_view(dots@),
            ),
        decreases current.len(),
    {
        let mut next: Vec<Point> = Vec::new();
        let mut k: usize = 1;
        while k < current.len()
            invariant
                1 <= k <= current.len(),
                next.len() == k - 1,
                rest@ == Ratio::whole(1).sub(progress@),
                forall|j: int|
                    0 <= j < k - 1 ==> next@[j]@ == blend(
                        current@[j]@,
                        current@[j + 1]@,
                        progress@,
                    ),
            decreases current.len() - k,
        {
            next.push(blend_points(&current[k - 1], &current[k], progress, &rest));
            k += 1;
        }
        assert(points_view(next@) =~= blend_round(points_view(current@), progress@));
        current = next;
    }
    let last: Point = current[0].clone();
    Some(last)
}

/// The segments that stand for one stroke.
pub fn compile_smooth_line(dots: &Vec<Point>) -> (r: Vec<Line>)
    ensures
        lines_view(r@) == smooth_line(points_view(dots@)),
        dots.len() == 2 ==> r.len() == 1,
        dots.len() >= 3 ==> r.len() == LINE_STEPS,
{
    if dots.len() == 2 {
        let mut single: Vec<Line> = Vec::new();
        single.push(Line { from: dots[0].clone(), to: dots[1].clone() });
        assert(lines_view(single@) =~= smooth_line(points_view(dots@)));
        return single;
    }
    if dots.len() == 0 {
        let none: Vec<Line> = Vec::new();
        assert(lines_view(none@) =~= smooth_line(points_view(dots@)));
        return none;
    }
    let mut samples: Vec<Point> = Vec::new();
    let mut idx: u64 = 0;
    while idx < LINE_STEPS + 1
        invariant
            idx <= LINE_STEPS + 1,
            dots.len() > 0,
            samples.len() == idx,
            forall|j: int| 0 <= j < idx ==> samples@[j]@ == sample(points_view(dots@), j),
        decreases LINE_STEPS + 1 - idx,
    {
        let progress: Rational = match Rational::from_ratio(idx as i64, LINE_STEPS) {
            Some(t) => t,
            None => vstd::pervasive::unreached(),
        };
        match interpolate(&progress, dots) {
            Some(p) => samples.push(p),
            None => vstd::pervasive::unreached(),
        }
        idx += 1;
    }
    let mut out: Vec<Line> = Vec::new();
    let mut k: usize = 1;
    while k < samples.len()
        invariant
            1 <= k <= samples.len(),
            samples.len() == LINE_STEPS + 1,
            out.len() == k - 1,
            forall|j: int| 0 <= j < samples.len() ==> samples@[j]@ == sample(points_view(dots@), j),
            forall|j: int|
                0 <= j < k - 1 ==> out@[j]@ == (SpecLine {
                    from: sample(points_view(dots@), j),
                    to: sample(points_view(dots@), j + 1),
                }),
        decreases samples.len() - k,
    {
        out.push(Line { from: samples[k - 1].clone(), to: samples[k].clone() });
        k += 1;
    }
    assert(lines_view(out@) =~= smooth_line(points_view(dots@)));
    out
}

/// The registry after the definitions `definitions`, taken in their order:
/// each one that is no radical is drawn into the unit square, with the
/// registry as it then stands at hand, and put under its first name. A
/// radical is passed over. What the registry holds is never replaced: a
/// definition whose first name is taken is an obstacle, met before its
/// expression is looked at. The first obstacle ends it all.
pub open spec fn compiled_definitions(definitions: Seq<SpecCharacter>) -> Result<
    Map<Seq<char>, SpecCompiled>,
    SpecCompileError,
>
    decreases definitions.len(),
{
    if definitions.len() == 0 {
        Ok(Map::empty())
    } else {
        match compiled_definitions(definitions.drop_last()) {
            Err(e) => Err(e),
            Ok(registry) => {
                let definition = definitions.last();
                if definition.is_radical {
                    Ok(registry)
                } else if registry.contains_key(definition.names[0]) {
                    Err(SpecCompileError::Redefined(definition.names[0]))
                } else {
                    match compiled(definition.syntax_tree, registry, SpecRect::unit()) {
                        Err(e) => Err(e),
                        Ok(lines) => Ok(
                            registry.insert(
                                definition.names[0],
                                SpecCompiled { lines, annotations: definition.annotations },
                            ),
                        ),
                    }
                }
            },
        }
    }
}

/// What the result of compiling definitions holds.
pub open spec fn registry_result_view(r: Result<Registry, CompileError>) -> Result<
    Map<Seq<char>, SpecCompiled>,
    SpecCompileError,
> {
    match r {
        Ok(registry) => Ok(registry_view(registry@)),
        Err(e) => Err(e@),
    }
}

/// Once a definition has failed, the definitions after it change nothing.
pub proof fn lemma_compiled_definitions_fail(definitions: Seq<SpecCharacter>, k: int, n: int)
    requires
        0 <= k <= n <= definitions.len(),
        compiled_definitions(definitions.take(k)) is Err,
    ensures
        compiled_definitions(definitions.take(n)) == compiled_definitions(definitions.take(k)),
    decreases n - k,
{
    if k < n {
        lemma_compiled_definitions_fail(definitions, k, n - 1);
        assert(definitions.take(n).drop_last() =~= definitions.take(n - 1));
    }
}

/// Compiles definitions in their order into a registry.
pub fn compile_definitions(definitions: &Vec<Character>) -> (r: Result<Registry, CompileError>)
    requires
        forall|i: int|
            0 <= i < definitions.len() && !definitions@[i].is_radical
                ==> definitions@[i].names.len() > 0,
    ensures
        registry_result_view(r) == compiled_definitions(characters_view(definitions@)),
{
    let ghost all = characters_view(definitions@);
    let unit: Rect = Rect::unit();
    let mut registry: Registry = Registry::new();
    let mut i: usize = 0;
    proof {
        assert(all.take(0).len() == 0);
        assert(registry_view(registry@) =~= Map::<Seq<char>, SpecCompiled>::empty());
    }
    while i < definitions.len()
        invariant
            i <= definitions.len(),
            all == characters_view(definitions@),
            unit@ == SpecRect::unit(),
            forall|i: int|
                0 <= i < definitions.len() && !definitions@[i].is_radical
                    ==> definitions@[i].names.len() > 0,
            compiled_definitions(all.take(i as int)) == Ok::<
                Map<Seq<char>, SpecCompiled>,
                SpecCompileError,
            >(registry_view(registry@)),
        decreases definitions.len() - i,
    {
        let definition: &Character = &definitions[i];
        proof {
            assert(all.take(i + 1).drop_last() =~= all.take(i as int));
            assert(all.take(i + 1).last() == definition@);
        }
        if !definition.is_radical {
            if registry.get(&definition.names[0]).is_some() {
                proof {
                    lemma_compiled_definitions_fail(all, i + 1, all.len() as int);
                    assert(all.take(all.len() as int) =~= all);
                }
                return Err(CompileError::Redefined(definition.names[0].clone()));
            }
            match definition.syntax_tree.compile(&registry, &unit) {
                Ok(lines) => {
                    let name: String = definition.names[0].clone();
                    let entry: Compiled = Compiled {
                        lines,
                        annotations: definition.annotations.clone(),
                    };
                    proof {
                        assert(registry_view(registry@.insert(name@, entry)) =~= registry_view(
                            registry@,
                        ).insert(name@, entry@));
                    }
                    let _ = registry.insert(name, entry);
                },
                Err(e) => {
                    proof {
                        lemma_compiled_definitions_fail(all, i + 1, all.len() as int);
                        assert(all.take(all.len() as int) =~= all);
                    }
                    return Err(e);
                },
            }
        }
        i += 1;
    }
    proof {
        assert(all.take(all.len() as int) =~= all);
    }
    Ok(registry)
}

/// The definitions that the source text `src` holds.
pub open spec fn definitions_of(src: Seq<char>) -> Seq<SpecCharacter> {
    characters_of(tokens_of(src))
}

/// Reads the definitions of `src`, up to the end of the text or to the first
/// place that is no definition.
pub fn parse(src: &str) -> (definitions: Vec<Character>)
    ensures
        characters_view(definitions@) == definitions_of(src@),
        forall|i: int| 0 <= i < definitions.len() ==> definitions@[i].names.len() > 0,
{
    let mut parser: Parser = Parser::new(Lexer::new(src));
    let ghost tokens = parser@;
    let mut definitions: Vec<Character> = Vec::new();
    loop
        invariant_except_break
            characters_view(definitions@) + characters_of(parser@) =~= characters_of(tokens),
        invariant
            forall|i: int| 0 <= i < definitions.len() ==> definitions@[i].names.len() > 0,
        ensures
            characters_view(definitions@) =~= characters_of(tokens),
        decreases parser@.len(),
    {
        match parser.next() {
            Some(character) => {
                proof {
                    assert(characters_view(definitions@.push(character)) =~= characters_view(
                        definitions@,
                    ).push(character@));
                }
                definitions.push(character);
            },
            None => {
                break ;
            },
        }
    }
    definitions
}

/// Compiles the source text `src`: its definitions, in their order, into a
/// registry.
pub fn compile(src: &str) -> (r: Result<Registry, CompileError>)
    ensures
        registry_result_view(r) == compiled_definitions(definitions_of(src@)),
{
    let definitions: Vec<Character> = parse(src);
    compile_definitions(&definitions)
}

/// Compiling the same text twice gives the same registry, line for line and
/// term for term, or the same obstacle.
pub proof fn lemma_compile_deterministic(
    src: Seq<char>,
    first: Result<Registry, CompileError>,
    second: Result<Registry, CompileError>,
)
    requires
        registry_result_view(first) == compiled_definitions(definitions_of(src)),
        registry_result_view(second) == compiled_definitions(definitions_of(src)),
    ensures
        registry_result_view(first) == registry_result_view(second),
{
}

/// A definition that is only a name fails where nothing was defined before
/// it, and succeeds behind a definition of that name that compiles. The two
/// definitions bear different names.
pub proof fn lemma_define_before_use(definition: SpecCharacter, reference: SpecCharacter)
    requires
        !definition.is_radical,
        !reference.is_radical,
        definition.names.len() > 0,
        reference.names.len() > 0,
        reference.names[0] != definition.names[0],
        reference.syntax_tree == SpecTree::Ident(definition.names[0]),
        compiled(definition.syntax_tree, Map::empty(), SpecRect::unit()) is Ok,
    ensures
        compiled_definitions(seq![reference]) == Err::<
            Map<Seq<char>, SpecCompiled>,
            SpecCompileError,
        >(SpecCompileError::UnresolvedReference(definition.names[0])),
        compiled_definitions(seq![definition, reference]) is Ok,
{
    let alone = seq![reference];
    assert(alone.drop_last() =~= Seq::<SpecCharacter>::empty());
    assert(compiled_definitions(alone.drop_last()) == Ok::<
        Map<Seq<char>, SpecCompiled>,
        SpecCompileError,
    >(Map::empty()));
    let both = seq![definition, reference];
    let first = seq![definition];
    assert(both.drop_last() =~= first);
    assert(first.drop_last() =~= Seq::<SpecCharacter>::empty());
    assert(compiled_definitions(first.drop_last()) == Ok::<
        Map<Seq<char>, SpecCompiled>,
        SpecCompileError,
    >(Map::empty()));
    assert(compiled_definitions(first) is Ok);
}

/// The registry only grows: what it holds after some of the definitions it
/// holds unchanged after more of them, where those compile.
pub proof fn lemma_registry_append_only(
    definitions: Seq<SpecCharacter>,
    k: int,
    n: int,
    name: Seq<char>,
)
    requires
        0 <= k <= n <= definitions.len(),
        compiled_definitions(definitions.take(k)) is Ok,
        compiled_definitions(definitions.take(n)) is Ok,
        compiled_definitions(definitions.take(k))->Ok_0.contains_key(name),
    ensures
        compiled_definitions(definitions.take(n))->Ok_0.contains_key(name),
        compiled_definitions(definitions.take(n))->Ok_0[name] == compiled_definitions(
            definitions.take(k),
        )->Ok_0[name],
    decreases n - k,
{
    if k < n {
        assert(definitions.take(n).drop_last() =~= definitions.take(n - 1));
        lemma_registry_append_only(definitions, k, n - 1, name);
    }
}

/// A name that is defined twice is an obstacle, whatever the second
/// definition holds: the first is not replaced.
pub proof fn lemma_second_definition_refused(first: SpecCharacter, second: SpecCharacter)
    requires
        !first.is_radical,
        !second.is_radical,
        first.names.len() > 0,
        second.names.len() > 0,
        second.names[0] == first.names[0],
        compiled(first.syntax_tree, Map::empty(), SpecRect::unit()) is Ok,
    ensures
        compiled_definitions(seq![first, second]) == Err::<
            Map<Seq<char>, SpecCompiled>,
            SpecCompileError,
        >(SpecCompileError::Redefined(first.names[0])),
{
    let both = seq![first, second];
    let one = seq![first];
    assert(both.drop_last() =~= one);
    assert(one.drop_last() =~= Seq::<SpecCharacter>::empty());
    assert(compiled_definitions(one.drop_last()) == Ok::<
        Map<Seq<char>, SpecCompiled>,
        SpecCompileError,
    >(Map::empty()));
    assert(one.last() == first);
    assert(compiled_definitions(one) is Ok);
    assert(compiled_definitions(one)->Ok_0.contains_key(first.names[0]));
    assert(both.last() == second);
}

} // verus!
