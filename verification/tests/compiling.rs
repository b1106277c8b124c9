use vglyph::compile;
use vglyph::compiler::compile_definitions;
use vglyph::compiler::compiler::{CompileError, Compiled, Registry};
use vglyph::compiler::input::{clone_names, Components};
use vglyph::compiler::parse;
use vglyph::compiler::table::Table;
use vglyph::geometry::{Line, Point, Rect};
use vglyph::number::rational::Rational;
use vglyph::parser::character::{Annotations, Character};
use vglyph::parser::SyntaxTree;

fn q(num: i64, den: u64) -> Rational {
    Rational::from_ratio(num, den).unwrap()
}

fn pt(x: Rational, y: Rational) -> Point {
    Point { x, y }
}

fn rect(x0: Rational, y0: Rational, x1: Rational, y1: Rational) -> Rect {
    Rect { x0, y0, x1, y1 }
}

fn is_line(l: &Line, x0: Rational, y0: Rational, x1: Rational, y1: Rational) -> bool {
    l.from.x.same_value(&x0)
        && l.from.y.same_value(&y0)
        && l.to.x.same_value(&x1)
        && l.to.y.same_value(&y1)
}

fn same_terms(a: &Rational, b: &Rational) -> bool {
    a.numerator().equals(&b.numerator()) && a.denominator().equals(&b.denominator())
}

fn stroke(x0: Rational, y0: Rational, x1: Rational, y1: Rational) -> SyntaxTree {
    SyntaxTree::Lines(vec![vec![pt(x0, y0), pt(x1, y1)]])
}

fn diagonal() -> SyntaxTree {
    stroke(q(0, 1), q(0, 1), q(1, 1), q(1, 1))
}

fn floor() -> SyntaxTree {
    stroke(q(0, 1), q(0, 1), q(1, 1), q(0, 1))
}

fn name(n: &str) -> SyntaxTree {
    SyntaxTree::Ident(n.to_string())
}

fn shrunk(level: usize, tree: SyntaxTree) -> SyntaxTree {
    SyntaxTree::Shrink(level, Box::new(tree))
}

fn registry_with(n: &str, lines: Vec<Line>, annotations: Annotations) -> Registry {
    let mut registry = Registry::new();
    assert!(registry.insert(n.to_string(), Compiled { lines, annotations }));
    registry
}

fn diagonal_line() -> Line {
    Line { from: pt(q(0, 1), q(0, 1)), to: pt(q(1, 1), q(1, 1)) }
}

fn lines_of<'a>(registry: &'a Registry, n: &str) -> &'a Vec<Line> {
    &registry.get(&n.to_string()).expect("a compiled character").lines
}

#[test]
fn end_to_end_two_copies_side_by_side() {
    let registry = compile("a := 0 0 -> 1 1;\nb := a | a;").unwrap();
    let a = lines_of(&registry, "a");
    assert_eq!(a.len(), 1);
    assert!(is_line(&a[0], q(0, 1), q(0, 1), q(1, 1), q(1, 1)));
    let b = lines_of(&registry, "b");
    assert_eq!(b.len(), 2);
    assert!(is_line(&b[0], q(0, 1), q(0, 1), q(1, 2), q(1, 1)));
    assert!(is_line(&b[1], q(1, 2), q(0, 1), q(1, 1), q(1, 1)));
}

#[test]
fn a_name_must_be_defined_before_it_is_used() {
    match compile("b := a | a;\na := 0 0 -> 1 1;") {
        Err(CompileError::UnresolvedReference(n)) => assert_eq!(n, "a"),
        other => panic!("not an unresolved reference: {:?}", other),
    }
    assert!(compile("a := 0 0 -> 1 1;\nb := a | a;").is_ok());
}

#[test]
fn compiling_twice_gives_the_same_terms() {
    let src = "a := 0 0 -> .5 1 ~> 1 0 -> 1 1;\nb := &a | [a] / a;\nc := b { a + b };";
    let first = compile(src).unwrap();
    let second = compile(src).unwrap();
    for n in ["a", "b", "c"] {
        let left = lines_of(&first, n);
        let right = lines_of(&second, n);
        assert_eq!(left.len(), right.len());
        for (l, r) in left.iter().zip(right.iter()) {
            assert!(same_terms(&l.from.x, &r.from.x));
            assert!(same_terms(&l.from.y, &r.from.y));
            assert!(same_terms(&l.to.x, &r.to.x));
            assert!(same_terms(&l.to.y, &r.to.y));
        }
    }
    assert_eq!(lines_of(&first, "a").len(), 21);
}

#[test]
fn weights_of_levels_nought_and_one_split_two_to_one() {
    let row = SyntaxTree::Horizontal(vec![shrunk(0, floor()), shrunk(1, floor())]);
    let lines = row.compile(&Registry::new(), &Rect::unit()).unwrap();
    assert_eq!(lines.len(), 2);
    assert!(is_line(&lines[0], q(0, 1), q(0, 1), q(2, 3), q(0, 1)));
    assert!(is_line(&lines[1], q(2, 3), q(0, 1), q(1, 1), q(0, 1)));
}

#[test]
fn weight_is_one_over_level_plus_one() {
    assert!(same_terms(&shrunk(0, floor()).weight(), &q(1, 1)));
    assert!(same_terms(&shrunk(1, floor()).weight(), &q(1, 2)));
    assert!(same_terms(&shrunk(4, floor()).weight(), &q(1, 5)));
    assert!(same_terms(&floor().weight(), &q(1, 1)));
    assert!(same_terms(&name("a").weight(), &q(1, 1)));
    // the weight is that of the node itself, not of what it holds
    let nested = SyntaxTree::Square(Box::new(shrunk(3, floor())));
    assert!(same_terms(&nested.weight(), &q(1, 1)));
    let greatest = shrunk(usize::MAX, floor()).weight();
    assert!(greatest.less_than(&q(1, u64::MAX)));
}

#[test]
fn a_row_fills_the_rectangle_it_is_given() {
    let row = SyntaxTree::Horizontal(vec![floor(), floor()]);
    let bounds = rect(q(2, 1), q(1, 1), q(4, 1), q(2, 1));
    let lines = row.compile(&Registry::new(), &bounds).unwrap();
    assert!(is_line(&lines[0], q(2, 1), q(1, 1), q(3, 1), q(1, 1)));
    assert!(is_line(&lines[1], q(3, 1), q(1, 1), q(4, 1), q(1, 1)));
}

#[test]
fn a_column_splits_the_height() {
    let column = SyntaxTree::Vertical(vec![diagonal(), shrunk(2, diagonal()), diagonal()]);
    let bounds = rect(q(0, 1), q(0, 1), q(1, 1), q(7, 1));
    let lines = column.compile(&Registry::new(), &bounds).unwrap();
    // weights 1, 1/3, 1 of a total 7/3: heights 3, 1, 3
    assert_eq!(lines.len(), 3);
    assert!(is_line(&lines[0], q(0, 1), q(0, 1), q(1, 1), q(3, 1)));
    assert!(is_line(&lines[1], q(0, 1), q(3, 1), q(1, 1), q(4, 1)));
    assert!(is_line(&lines[2], q(0, 1), q(4, 1), q(1, 1), q(7, 1)));
}

#[test]
fn rows_and_columns_without_parts_draw_nothing() {
    let registry = Registry::new();
    let unit = Rect::unit();
    assert_eq!(SyntaxTree::Horizontal(Vec::new()).compile(&registry, &unit).unwrap().len(), 0);
    assert_eq!(SyntaxTree::Vertical(Vec::new()).compile(&registry, &unit).unwrap().len(), 0);
    assert_eq!(SyntaxTree::Plus(Vec::new()).compile(&registry, &unit).unwrap().len(), 0);
    assert_eq!(SyntaxTree::Lines(Vec::new()).compile(&registry, &unit).unwrap().len(), 0);
}

#[test]
fn an_overlay_draws_all_parts_into_the_same_rectangle_in_order() {
    let overlay = SyntaxTree::Plus(vec![floor(), diagonal()]);
    let bounds = rect(q(1, 1), q(1, 1), q(3, 1), q(2, 1));
    let lines = overlay.compile(&Registry::new(), &bounds).unwrap();
    assert_eq!(lines.len(), 2);
    assert!(is_line(&lines[0], q(1, 1), q(1, 1), q(3, 1), q(1, 1)));
    assert!(is_line(&lines[1], q(1, 1), q(1, 1), q(3, 1), q(2, 1)));
}

#[test]
fn strokes_are_sampled_and_placed() {
    let tree = SyntaxTree::Lines(vec![
        vec![pt(q(0, 1), q(0, 1)), pt(q(1, 1), q(1, 1))],
        vec![pt(q(0, 1), q(0, 1)), pt(q(1, 1), q(0, 1)), pt(q(1, 1), q(1, 1))],
    ]);
    let bounds = rect(q(0, 1), q(0, 1), q(4, 1), q(4, 1));
    let lines = tree.compile(&Registry::new(), &bounds).unwrap();
    assert_eq!(lines.len(), 21);
    assert!(is_line(&lines[0], q(0, 1), q(0, 1), q(4, 1), q(4, 1)));
    // the middle sample (3/4, 1/4) of the curve, placed
    assert!(lines[10].to.x.same_value(&q(3, 1)));
    assert!(lines[10].to.y.same_value(&q(1, 1)));
}

#[test]
fn a_rectangle_alone_draws_nothing() {
    let anchor = SyntaxTree::Bounds(pt(q(0, 1), q(0, 1)), pt(q(1, 1), q(1, 1)));
    assert_eq!(anchor.compile(&Registry::new(), &Rect::unit()).unwrap().len(), 0);
}

#[test]
fn a_shrunk_part_is_drawn_as_the_part() {
    let bounds = rect(q(1, 1), q(0, 1), q(2, 1), q(3, 1));
    let plain = diagonal().compile(&Registry::new(), &bounds).unwrap();
    let wrapped = shrunk(5, diagonal()).compile(&Registry::new(), &bounds).unwrap();
    assert_eq!(plain.len(), wrapped.len());
    assert!(same_terms(&plain[0].to.x, &wrapped[0].to.x));
    assert!(same_terms(&plain[0].to.y, &wrapped[0].to.y));
}

#[test]
fn square_fit_draws_into_the_centred_square() {
    let bounds = rect(q(0, 1), q(0, 1), q(4, 1), q(2, 1));
    let square = SyntaxTree::Square(Box::new(diagonal()));
    let lines = square.compile(&Registry::new(), &bounds).unwrap();
    assert!(is_line(&lines[0], q(1, 1), q(0, 1), q(3, 1), q(2, 1)));
    let halfway = SyntaxTree::HalfwaySquare(Box::new(diagonal()));
    let lines = halfway.compile(&Registry::new(), &bounds).unwrap();
    assert!(is_line(&lines[0], q(1, 2), q(0, 1), q(7, 2), q(2, 1)));
}

#[test]
fn a_name_is_drawn_from_the_registry() {
    let registry = registry_with("a", vec![diagonal_line()], Annotations::new());
    let bounds = rect(q(1, 1), q(2, 1), q(3, 1), q(5, 1));
    let lines = name("a").compile(&registry, &bounds).unwrap();
    assert_eq!(lines.len(), 1);
    assert!(is_line(&lines[0], q(1, 1), q(2, 1), q(3, 1), q(5, 1)));
}

#[test]
fn an_unknown_name_is_reported() {
    let registry = registry_with("a", vec![diagonal_line()], Annotations::new());
    match name("b").compile(&registry, &Rect::unit()) {
        Err(CompileError::UnresolvedReference(n)) => assert_eq!(n, "b"),
        other => panic!("not an unresolved reference: {:?}", other),
    }
}

#[test]
fn the_first_obstacle_is_the_one_reported() {
    let registry = registry_with("a", vec![diagonal_line()], Annotations::new());
    let row = SyntaxTree::Horizontal(vec![name("a"), name("x"), name("y")]);
    match row.compile(&registry, &Rect::unit()) {
        Err(CompileError::UnresolvedReference(n)) => assert_eq!(n, "x"),
        other => panic!("not an unresolved reference: {:?}", other),
    }
    let nested = SyntaxTree::Inner(Box::new(name("z")), Box::new(name("x")));
    match nested.compile(&registry, &Rect::unit()) {
        Err(CompileError::UnresolvedReference(n)) => assert_eq!(n, "z"),
        other => panic!("not an unresolved reference: {:?}", other),
    }
    let inner_fails = SyntaxTree::Inner(Box::new(name("a")), Box::new(name("x")));
    match inner_fails.compile(&registry, &Rect::unit()) {
        Err(CompileError::UnresolvedReference(n)) => assert_eq!(n, "x"),
        other => panic!("not an unresolved reference: {:?}", other),
    }
}

#[test]
fn nesting_into_a_name_uses_its_slots() {
    let registry = registry_with("o", vec![diagonal_line()], Annotations::new());
    let nested = SyntaxTree::Inner(Box::new(name("o")), Box::new(floor()));
    let bounds = rect(q(0, 1), q(0, 1), q(10, 1), q(5, 1));
    let lines = nested.compile(&registry, &bounds).unwrap();
    assert_eq!(lines.len(), 2);
    // the outer character in its slot, the unit square
    assert!(is_line(&lines[0], q(0, 1), q(0, 1), q(10, 1), q(5, 1)));
    // the inner expression in the slot (1/5, 1/5, 4/5, 4/5)
    assert!(is_line(&lines[1], q(2, 1), q(1, 1), q(8, 1), q(1, 1)));
}

#[test]
fn nesting_into_a_name_uses_its_own_annotations() {
    let mut annotations = Annotations::new();
    annotations.inner = (
        rect(q(0, 1), q(1, 2), q(1, 1), q(1, 1)),
        rect(q(0, 1), q(0, 1), q(1, 1), q(1, 2)),
    );
    let registry = registry_with("roof", vec![diagonal_line()], annotations);
    let nested = SyntaxTree::Inner(Box::new(name("roof")), Box::new(diagonal()));
    let lines = nested.compile(&registry, &Rect::unit()).unwrap();
    assert!(is_line(&lines[0], q(0, 1), q(1, 2), q(1, 1), q(1, 1)));
    assert!(is_line(&lines[1], q(0, 1), q(0, 1), q(1, 1), q(1, 2)));
}

#[test]
fn nesting_into_a_rectangle_draws_into_it_within_the_bounds() {
    let anchor = SyntaxTree::Bounds(pt(q(1, 4), q(1, 4)), pt(q(3, 4), q(1, 2)));
    let nested = SyntaxTree::Inner(Box::new(anchor), Box::new(diagonal()));
    let lines = nested.compile(&Registry::new(), &Rect::unit()).unwrap();
    assert!(is_line(&lines[0], q(1, 4), q(1, 4), q(3, 4), q(1, 2)));
    let bounds = rect(q(0, 1), q(0, 1), q(4, 1), q(8, 1));
    let lines = nested.compile(&Registry::new(), &bounds).unwrap();
    assert!(is_line(&lines[0], q(1, 1), q(2, 1), q(3, 1), q(4, 1)));
}

#[test]
fn nesting_into_anything_else_is_refused() {
    let registry = registry_with("a", vec![diagonal_line()], Annotations::new());
    let outer = SyntaxTree::Plus(vec![name("a"), name("a")]);
    let nested = SyntaxTree::Inner(Box::new(outer), Box::new(name("a")));
    assert!(matches!(
        nested.compile(&registry, &Rect::unit()),
        Err(CompileError::UnsupportedOuter)
    ));
    assert!(matches!(
        compile("a := 0 0 -> 1 1; b := (a + a) { a };"),
        Err(CompileError::UnsupportedOuter)
    ));
    let wrapped = SyntaxTree::Inner(Box::new(shrunk(0, name("a"))), Box::new(name("a")));
    assert!(matches!(
        wrapped.compile(&registry, &Rect::unit()),
        Err(CompileError::UnsupportedOuter)
    ));
}

#[test]
fn source_text_nests_through_its_annotations() {
    let src = "o := 0 0 -> 1 1 ? {} := 0 .5 => 1 1 + 0 0 => 1 .5;\nc := o { 0 0 -> 1 0 };";
    let registry = compile(src).unwrap();
    let c = lines_of(&registry, "c");
    assert_eq!(c.len(), 2);
    assert!(is_line(&c[0], q(0, 1), q(1, 2), q(1, 1), q(1, 1)));
    assert!(is_line(&c[1], q(0, 1), q(0, 1), q(1, 1), q(0, 1)));
}

#[test]
fn only_the_first_name_is_registered() {
    let registry = compile("a, b := 0 0 -> 1 1;").unwrap();
    assert!(registry.get(&"a".to_string()).is_some());
    assert!(registry.get(&"b".to_string()).is_none());
    match compile("a, b := 0 0 -> 1 1; c := b;") {
        Err(CompileError::UnresolvedReference(n)) => assert_eq!(n, "b"),
        other => panic!("not an unresolved reference: {:?}", other),
    }
}

#[test]
fn a_radical_is_not_compiled() {
    let registry = compile("\u{a7} r := x | y; a := 0 0 -> 1 1;").unwrap();
    assert!(registry.get(&"r".to_string()).is_none());
    assert!(registry.get(&"a".to_string()).is_some());
    match compile("\u{a7} r := 0 0 -> 1 1; a := r;") {
        Err(CompileError::UnresolvedReference(n)) => assert_eq!(n, "r"),
        other => panic!("not an unresolved reference: {:?}", other),
    }
}

#[test]
fn a_second_definition_of_a_name_is_refused() {
    match compile("a := 0 0 -> 1 1; a := 0 1 -> 1 0;") {
        Err(CompileError::Redefined(n)) => assert_eq!(n, "a"),
        other => panic!("not a redefinition: {:?}", other),
    }
    match compile("a := 0 0 -> 1 1; b := a; a := 0 0 -> 1 0; c := a;") {
        Err(CompileError::Redefined(n)) => assert_eq!(n, "a"),
        other => panic!("not a redefinition: {:?}", other),
    }
    // the same definition twice is refused as well
    assert!(matches!(
        compile("a := 0 0 -> 1 1; a := 0 0 -> 1 1;"),
        Err(CompileError::Redefined(_))
    ));
}

#[test]
fn a_redefinition_is_met_before_its_expression() {
    match compile("a := 0 0 -> 1 1; a := missing;") {
        Err(CompileError::Redefined(n)) => assert_eq!(n, "a"),
        other => panic!("not a redefinition: {:?}", other),
    }
    // an earlier obstacle still comes first
    match compile("a := missing; a := 0 0 -> 1 1;") {
        Err(CompileError::UnresolvedReference(n)) => assert_eq!(n, "missing"),
        other => panic!("not an unresolved reference: {:?}", other),
    }
}

#[test]
fn only_first_names_count_as_defined() {
    // the second name of a definition is not registered, so it is free
    let registry = compile("a, b := 0 0 -> 1 1; b := 0 0 -> 1 0;").unwrap();
    let b = lines_of(&registry, "b");
    assert!(is_line(&b[0], q(0, 1), q(0, 1), q(1, 1), q(0, 1)));
    // a radical is not registered either
    assert!(compile("\u{a7} r := 0 0 -> 1 1; r := 0 0 -> 1 0;").is_ok());
    assert!(matches!(
        compile("r := 0 0 -> 1 1; \u{a7} r := x; r := 0 0 -> 1 0;"),
        Err(CompileError::Redefined(_))
    ));
}

#[test]
fn what_the_registry_holds_stays_as_more_is_defined() {
    let short = compile("a := 0 0 -> 1 1;").unwrap();
    let long = compile("a := 0 0 -> 1 1; b := a | a; c := b / a;").unwrap();
    let before = lines_of(&short, "a");
    let after = lines_of(&long, "a");
    assert_eq!(before.len(), after.len());
    assert!(same_terms(&before[0].to.x, &after[0].to.x));
    assert!(same_terms(&before[0].to.y, &after[0].to.y));
    let names: Vec<&str> = long.entries().iter().map(|e| e.name.as_str()).collect();
    assert_eq!(names, vec!["a", "b", "c"]);
}

#[test]
fn the_registry_keeps_the_annotations() {
    let registry = compile("a := 0 0 -> 1 1 ? := 0 0 => 2 2;").unwrap();
    let a = registry.get(&"a".to_string()).unwrap();
    assert!(a.annotations.standalone.x1.same_value(&q(2, 1)));
    assert!(a.annotations.inner.1.x0.same_value(&q(1, 5)));
}

#[test]
fn text_without_definitions_compiles_to_an_empty_registry() {
    assert_eq!(compile("").unwrap().entries().len(), 0);
    assert_eq!(compile("a := ;").unwrap().entries().len(), 0);
}

#[test]
fn definitions_compile_as_the_text_does() {
    let definitions = parse("a := 0 0 -> 1 1;\nb := a / a;");
    let registry = compile_definitions(&definitions).unwrap();
    let b = lines_of(&registry, "b");
    assert!(is_line(&b[0], q(0, 1), q(0, 1), q(1, 1), q(1, 2)));
    assert!(is_line(&b[1], q(0, 1), q(1, 2), q(1, 1), q(1, 1)));
}

#[test]
fn a_table_keeps_the_first_value_under_a_name() {
    let mut table: Table<u32> = Table::new();
    assert!(table.get(&"a".to_string()).is_none());
    assert!(table.insert("a".to_string(), 1));
    assert!(table.insert("b".to_string(), 2));
    assert!(!table.insert("a".to_string(), 3));
    assert_eq!(table.get(&"a".to_string()), Some(&1));
    assert_eq!(table.get(&"b".to_string()), Some(&2));
    assert!(table.get(&"".to_string()).is_none());
    assert!(table.insert("".to_string(), 4));
    assert_eq!(table.get(&"".to_string()), Some(&4));
    let names: Vec<&str> = table.entries().iter().map(|e| e.name.as_str()).collect();
    assert_eq!(names, vec!["a", "b", ""]);
}

fn character(is_radical: bool, names: &[&str], syntax_tree: SyntaxTree) -> Character {
    Character {
        is_radical,
        names: names.iter().map(|n| n.to_string()).collect(),
        syntax_tree,
        annotations: Annotations::new(),
    }
}

fn components(entries: &[(&str, &[&str])]) -> Components {
    let mut table = Components::new();
    for (n, parts) in entries {
        assert!(table.insert(n.to_string(), parts.iter().map(|p| p.to_string()).collect()));
    }
    table
}

#[test]
fn a_radical_is_its_own_component() {
    let c = character(true, &["water", "wet"], name("missing"));
    assert_eq!(c.get_input(&Components::new()).unwrap(), vec!["water".to_string()]);
}

#[test]
fn components_are_gathered_from_left_to_right() {
    let known = components(&[("a", &["x", "y"]), ("b", &["y"])]);
    let tree = SyntaxTree::Plus(vec![
        name("a"),
        SyntaxTree::Horizontal(vec![floor(), shrunk(1, name("b"))]),
        SyntaxTree::Vertical(vec![
            SyntaxTree::Bounds(pt(q(0, 1), q(0, 1)), pt(q(1, 1), q(1, 1))),
            SyntaxTree::Square(Box::new(name("a"))),
        ]),
        SyntaxTree::Inner(
            Box::new(name("b")),
            Box::new(SyntaxTree::HalfwaySquare(Box::new(diagonal()))),
        ),
    ]);
    let c = character(false, &["c"], tree);
    assert_eq!(
        c.get_input(&known).unwrap(),
        vec!["x", "y", "stroke", "y", "x", "y", "y", "stroke"]
    );
}

#[test]
fn components_of_an_unknown_name_are_refused() {
    let known = components(&[("a", &["x"])]);
    let tree = SyntaxTree::Horizontal(vec![name("a"), name("q"), name("r")]);
    match tree.get_input(&known) {
        Err(CompileError::UnresolvedReference(n)) => assert_eq!(n, "q"),
        other => panic!("not an unresolved reference: {:?}", other),
    }
    let nested = SyntaxTree::Inner(Box::new(name("q")), Box::new(name("r")));
    match nested.get_input(&known) {
        Err(CompileError::UnresolvedReference(n)) => assert_eq!(n, "q"),
        other => panic!("not an unresolved reference: {:?}", other),
    }
}

#[test]
fn clone_names_copies_every_name() {
    let names = vec!["a".to_string(), "bc".to_string()];
    assert_eq!(clone_names(&names), names);
}
