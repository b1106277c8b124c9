//! The parser: from tokens to character definitions.
//!
//! ```text
//! definition  := [section] name {"," name} ":=" tree {"?" annotation} ";"
//! annotation  := ":=" rect  |  "{" "}" ":=" rect "+" rect
//! tree        := horizontal {"+" horizontal}
//! horizontal  := vertical {"|" vertical}
//! vertical    := shrink {"/" shrink}
//! shrink      := {"&"} inner
//! inner       := value ["{" tree "}"]
//! value       := "(" tree ")" | "[" tree "]" | "[[" tree "]]" | name | line | rect
//! line        := point ("->" | "~>") point {("->" | "~>") point}
//! rect        := point "=>" point
//! ```

use crate::geometry::{Point, Rect, SpecPoint, SpecRect};
use crate::lexer::lexer::{tokens_of, Lexer};
use crate::lexer::{tokens_view, SpecToken, Token, TokenKind};
use crate::parser::character::{
    names_view, Annotations, Character, SpecAnnotations, SpecCharacter,
};
use crate::compiler::points_view;
use crate::parser::syntax_tree::{strokes_view, trees_view, SpecTree, SyntaxTree};
use vstd::prelude::*;

verus! {

/// Whether `ts` begins with a token of the kind `kind`.
pub open spec fn front(ts: Seq<SpecToken>, kind: TokenKind) -> bool {
    ts.len() > 0 && ts[0].kind() == kind
}

/// The point that a pair of numbers stands for.
pub open spec fn point_of(token: SpecToken) -> SpecPoint {
    match token {
        SpecToken::ValuePair(x, y) => SpecPoint { x, y },
        _ => arbitrary(),
    }
}

/// The name that a name token holds.
pub open spec fn name_of(token: SpecToken) -> Seq<char> {
    match token {
        SpecToken::Ident(name) => name,
        _ => arbitrary(),
    }
}

/// The strokes that go on at `ts`: `->` ends a stroke at the next point and
/// begins another there, `~>` carries the stroke on to the next point. The
/// strokes end before the first token that is neither, and one must be
/// there; the stroke that is open then is dropped.
pub open spec fn parse_line(
    ts: Seq<SpecToken>,
    done: Seq<Seq<SpecPoint>>,
    current: Seq<SpecPoint>,
) -> Option<(SpecTree, Seq<SpecToken>)>
    decreases ts.len(),
{
    if ts.len() == 0 {
        None
    } else if front(ts, TokenKind::Arrow) {
        if front(ts.skip(1), TokenKind::ValuePair) {
            let p = point_of(ts[1]);
            parse_line(ts.skip(2), done.push(current.push(p)), seq![p])
        } else {
            None
        }
    } else if front(ts, TokenKind::TildeArrow) {
        if front(ts.skip(1), TokenKind::ValuePair) {
            let p = point_of(ts[1]);
            parse_line(ts.skip(2), done, current.push(p))
        } else {
            None
        }
    } else {
        Some((SpecTree::Lines(done), ts))
    }
}

/// The rectangle from `start`: `=>` and the opposite corner.
pub open spec fn parse_bound(ts: Seq<SpecToken>, start: SpecPoint) -> Option<
    (SpecTree, Seq<SpecToken>),
> {
    if front(ts, TokenKind::WideArrow) && front(ts.skip(1), TokenKind::ValuePair) {
        Some((SpecTree::Bounds(start, point_of(ts[1])), ts.skip(2)))
    } else {
        None
    }
}

/// Strokes or a rectangle: a point, and what the arrow after it asks for.
pub open spec fn parse_arrow(ts: Seq<SpecToken>) -> Option<(SpecTree, Seq<SpecToken>)> {
    if front(ts, TokenKind::ValuePair) {
        let start = point_of(ts[0]);
        let rest = ts.skip(1);
        if front(rest, TokenKind::Arrow) || front(rest, TokenKind::TildeArrow) {
            parse_line(rest, Seq::empty(), seq![start])
        } else if front(rest, TokenKind::WideArrow) {
            parse_bound(rest, start)
        } else {
            None
        }
    } else {
        None
    }
}

/// The token that parts the items of a list of the level `level`: `/` in a
/// column (level 0), `|` in a row (level 1), `+` in an overlay (above).
pub open spec fn separator(level: nat) -> TokenKind {
    if level == 0 {
        TokenKind::Slash
    } else if level == 1 {
        TokenKind::Pipe
    } else {
        TokenKind::Plus
    }
}

/// The expression that the items of a list make: the item itself where it
/// is alone, else the column, row or overlay of them.
pub open spec fn wrap(level: nat, items: Seq<SpecTree>) -> SpecTree {
    if items.len() == 1 {
        items[0]
    } else if level == 0 {
        SpecTree::Vertical(items)
    } else if level == 1 {
        SpecTree::Horizontal(items)
    } else {
        SpecTree::Plus(items)
    }
}

/// A value: an expression in round brackets, in square brackets (drawn
/// halfway to the square), in wide brackets (drawn into the square), a
/// name, strokes or a rectangle.
pub open spec fn parse_value(ts: Seq<SpecToken>) -> Option<(SpecTree, Seq<SpecToken>)>
    decreases ts.len(), 0nat,
{
    if ts.len() == 0 {
        None
    } else if front(ts, TokenKind::LParen) {
        match parse_list(ts.skip(1), 2) {
            Some((tree, rest)) => if front(rest, TokenKind::RParen) {
                Some((tree, rest.skip(1)))
            } else {
                None
            },
            None => None,
        }
    } else if front(ts, TokenKind::LBracket) {
        match parse_list(ts.skip(1), 2) {
            Some((tree, rest)) => if front(rest, TokenKind::RBracket) {
                Some((SpecTree::HalfwaySquare(Box::new(tree)), rest.skip(1)))
            } else {
                None
            },
            None => None,
        }
    } else if front(ts, TokenKind::LWideBracket) {
        match parse_list(ts.skip(1), 2) {
            Some((tree, rest)) => if front(rest, TokenKind::RWideBracket) {
                Some((SpecTree::Square(Box::new(tree)), rest.skip(1)))
            } else {
                None
            },
            None => None,
        }
    } else if front(ts, TokenKind::Ident) {
        Some((SpecTree::Ident(name_of(ts[0])), ts.skip(1)))
    } else {
        parse_arrow(ts)
    }
}

/// A value, and the expression in curly brackets that is set into it, if
/// one follows.
pub open spec fn parse_inner(ts: Seq<SpecToken>) -> Option<(SpecTree, Seq<SpecToken>)>
    decreases ts.len(), 1nat,
{
    match parse_value(ts) {
        None => None,
        Some((value, rest)) => if front(rest, TokenKind::LCurly) {
            if rest.len() <= ts.len() {
                match parse_list(rest.skip(1), 2) {
                    Some((inner, end)) => if front(end, TokenKind::RCurly) {
                        Some((SpecTree::Inner(Box::new(value), Box::new(inner)), end.skip(1)))
                    } else {
                        None
                    },
                    None => None,
                }
            } else {
                None
            }
        } else {
            Some((value, rest))
        },
    }
}

/// An inner expression behind any number of `&`: `level` counts those
/// passed so far.
pub open spec fn parse_shrink(ts: Seq<SpecToken>, level: nat) -> Option<
    (SpecTree, Seq<SpecToken>),
>
    decreases ts.len(), 2nat,
{
    if front(ts, TokenKind::Ampersand) {
        parse_shrink(ts.skip(1), level + 1)
    } else {
        match parse_inner(ts) {
            Some((tree, rest)) => Some((SpecTree::Shrink(level, Box::new(tree)), rest)),
            None => None,
        }
    }
}

/// One item of a list of the level `level`: a shrunk expression in a
/// column, else a list of the level below.
pub open spec fn parse_item(ts: Seq<SpecToken>, level: nat) -> Option<(SpecTree, Seq<SpecToken>)>
    decreases ts.len(), 3 + 2 * level,
{
    if level == 0 {
        parse_shrink(ts, 0)
    } else {
        parse_list(ts, (level - 1) as nat)
    }
}

/// A list of the level `level`: items with the separator of the level
/// between them.
pub open spec fn parse_list(ts: Seq<SpecToken>, level: nat) -> Option<(SpecTree, Seq<SpecToken>)>
    decreases ts.len(), 4 + 2 * level,
{
    match parse_item(ts, level) {
        None => None,
        Some((first, rest)) => if rest.len() < ts.len() {
            parse_rest(rest, level, seq![first])
        } else {
            None
        },
    }
}

/// The rest of a list of which `items` have been read.
pub open spec fn parse_rest(ts: Seq<SpecToken>, level: nat, items: Seq<SpecTree>) -> Option<
    (SpecTree, Seq<SpecToken>),
>
    decreases ts.len(), 0nat,
{
    if front(ts, separator(level)) {
        match parse_item(ts.skip(1), level) {
            None => None,
            Some((item, rest)) => if rest.len() < ts.len() {
                parse_rest(rest, level, items.push(item))
            } else {
                None
            },
        }
    } else {
        Some((wrap(level, items), ts))
    }
}

/// A whole expression: an overlay of rows of columns.
pub open spec fn parse_tree(ts: Seq<SpecToken>) -> Option<(SpecTree, Seq<SpecToken>)> {
    parse_list(ts, 2)
}

/// A rectangle of an annotation: a point, `=>`, and the opposite corner.
pub open spec fn parse_rect(ts: Seq<SpecToken>) -> Option<(SpecRect, Seq<SpecToken>)> {
    if front(ts, TokenKind::ValuePair) && front(ts.skip(1), TokenKind::WideArrow) && front(
        ts.skip(2),
        TokenKind::ValuePair,
    ) {
        let from = point_of(ts[0]);
        let to = point_of(ts[2]);
        Some((SpecRect { x0: from.x, y0: from.y, x1: to.x, y1: to.y }, ts.skip(3)))
    } else {
        None
    }
}

/// One annotation, laid over `annotations`: `:= rect` gives the rectangle
/// of the character alone; `{} := rect + rect` gives its slot as an outer
/// character and the slot of the inner one.
pub open spec fn parse_annotation(ts: Seq<SpecToken>, annotations: SpecAnnotations) -> Option<
    (SpecAnnotations, Seq<SpecToken>),
> {
    if front(ts, TokenKind::LCurly) {
        if front(ts.skip(1), TokenKind::RCurly) && front(ts.skip(2), TokenKind::Assign) {
            match parse_rect(ts.skip(3)) {
                Some((outer, rest)) => if front(rest, TokenKind::Plus) {
                    match parse_rect(rest.skip(1)) {
                        Some((inner, end)) => Some(
                            (SpecAnnotations { inner: (outer, inner), ..annotations }, end),
                        ),
                        None => None,
                    }
                } else {
                    None
                },
                None => None,
            }
        } else {
            None
        }
    } else if front(ts, TokenKind::Assign) {
        match parse_rect(ts.skip(1)) {
            Some((rect, rest)) => Some((SpecAnnotations { standalone: rect, ..annotations }, rest)),
            None => None,
        }
    } else {
        None
    }
}

/// The annotations of a definition, each behind a `?`, laid over
/// `annotations` one after the other.
pub open spec fn parse_annotations(ts: Seq<SpecToken>, annotations: SpecAnnotations) -> Option<
    (SpecAnnotations, Seq<SpecToken>),
>
    decreases ts.len(),
{
    if front(ts, TokenKind::QuestionMark) {
        match parse_annotation(ts.skip(1), annotations) {
            Some((next, rest)) => if rest.len() < ts.len() {
                parse_annotations(rest, next)
            } else {
                None
            },
            None => None,
        }
    } else {
        Some((annotations, ts))
    }
}

/// The further names of a definition, each behind a `,`, up to the `:=`.
pub open spec fn parse_names(ts: Seq<SpecToken>, names: Seq<Seq<char>>) -> Option<
    (Seq<Seq<char>>, Seq<SpecToken>),
>
    decreases ts.len(),
{
    if front(ts, TokenKind::Comma) {
        if front(ts.skip(1), TokenKind::Ident) {
            parse_names(ts.skip(2), names.push(name_of(ts[1])))
        } else {
            None
        }
    } else if front(ts, TokenKind::Assign) {
        Some((names, ts.skip(1)))
    } else {
        None
    }
}

/// One definition, and the tokens after it.
pub open spec fn parse_character(ts: Seq<SpecToken>) -> Option<(SpecCharacter, Seq<SpecToken>)> {
    let is_radical = front(ts, TokenKind::Section);
    let body = if is_radical {
        ts.skip(1)
    } else {
        ts
    };
    if front(body, TokenKind::Ident) {
        match parse_names(body.skip(1), seq![name_of(body[0])]) {
            Some((names, after_names)) => match parse_tree(after_names) {
                Some((syntax_tree, after_tree)) => match parse_annotations(
                    after_tree,
                    SpecAnnotations::initial(),
                ) {
                    Some((annotations, end)) => if front(end, TokenKind::Semicolon) {
                        Some(
                            (
                                SpecCharacter { is_radical, names, syntax_tree, annotations },
                                end.skip(1),
                            ),
                        )
                    } else {
                        None
                    },
                    None => None,
                },
                None => None,
            },
            None => None,
        }
    } else {
        None
    }
}

/// The definitions that `ts` holds, up to the end of the tokens or to the
/// first place where there is no definition.
pub open spec fn characters_of(ts: Seq<SpecToken>) -> Seq<SpecCharacter>
    decreases ts.len(),
{
    match parse_character(ts) {
        Some((character, rest)) => if rest.len() < ts.len() {
            seq![character] + characters_of(rest)
        } else {
            seq![character]
        },
        None => Seq::empty(),
    }
}

/// Whether `r`, with `rest` left to read, is what `expected` says.
pub open spec fn tree_parsed(
    r: Option<SyntaxTree>,
    rest: Seq<SpecToken>,
    before: Seq<SpecToken>,
    expected: Option<(SpecTree, Seq<SpecToken>)>,
) -> bool {
    match expected {
        Some((tree, end)) => r is Some && r->0@ == tree && rest == end && rest.len() <= before.len(),
        None => r is None,
    }
}

/// A parser over the tokens of a source text.
#[derive(Debug)]
pub struct Parser {
    tokens: Vec<Token>,
    pos: usize,
}

impl View for Parser {
    type V = Seq<SpecToken>;

    /// The tokens that are still to be read.
    closed spec fn view(&self) -> Seq<SpecToken> {
        if self.pos <= self.tokens.len() {
            tokens_view(self.tokens@).skip(self.pos as int)
        } else {
            Seq::empty()
        }
    }
}

impl Parser {
    /// A parser over the tokens that `lexer` reads.
    pub fn new(lexer: Lexer) -> (r: Parser)
        ensures
            r@ == tokens_of(lexer@),
    {
        let ghost text = lexer@;
        let mut lexer = lexer;
        let mut tokens: Vec<Token> = Vec::new();
        loop
            invariant_except_break
                tokens_view(tokens@) + tokens_of(lexer@) =~= tokens_of(text),
            ensures
                tokens_view(tokens@) =~= tokens_of(text),
            decreases lexer@.len(),
        {
            match lexer.next() {
                Some(t) => {
                    proof {
                        assert(tokens_view(tokens@.push(t)) =~= tokens_view(tokens@).push(t@));
                    }
                    tokens.push(t);
                },
                None => {
                    break ;
                },
            }
        }
        assert(tokens_view(tokens@).skip(0) =~= tokens_view(tokens@));
        Parser { tokens, pos: 0 }
    }

    fn at(&self, kind: TokenKind) -> (b: bool)
        ensures
            b == front(self@, kind),
    {
        if self.pos < self.tokens.len() {
            self.tokens[self.pos].kind() == kind
        } else {
            false
        }
    }

    fn advance(&mut self)
        requires
            old(self)@.len() > 0,
        ensures
            final(self)@ == old(self)@.skip(1),
    {
        assert(tokens_view(self.tokens@).skip(self.pos as int).skip(1) =~= tokens_view(
            self.tokens@,
        ).skip(self.pos + 1));
        self.pos = self.pos + 1;
    }

    /// Reads a point.
    fn point(&mut self) -> (r: Option<Point>)
        ensures
            r is Some <==> front(old(self)@, TokenKind::ValuePair),
            r is Some ==> r->0@ == point_of(old(self)@[0]) && final(self)@ == old(self)@.skip(1),
    {
        if self.pos < self.tokens.len() {
            match &self.tokens[self.pos] {
                Token::ValuePair(x, y) => {
                    let p: Point = Point { x: x.clone(), y: y.clone() };
                    self.advance();
                    Some(p)
                },
                _ => None,
            }
        } else {
            None
        }
    }

    /// Reads a name.
    fn name(&mut self) -> (r: Option<String>)
        ensures
            r is Some <==> front(old(self)@, TokenKind::Ident),
            r is Some ==> r->0@ == name_of(old(self)@[0]) && final(self)@ == old(self)@.skip(1),
    {
        if self.pos < self.tokens.len() {
            match &self.tokens[self.pos] {
                Token::Ident(name) => {
                    let n: String = name.clone();
                    self.advance();
                    Some(n)
                },
                _ => None,
            }
        } else {
            None
        }
    }

    fn at_end(&self) -> (b: bool)
        ensures
            b == (self@.len() == 0),
    {
        self.pos >= self.tokens.len()
    }

    /// Reads strokes that begin at `start`.
    fn parse_line(&mut self, start: Point) -> (r: Option<SyntaxTree>)
        ensures
            tree_parsed(
                r,
                final(self)@,
                old(self)@,
                parse_line(old(self)@, Seq::empty(), seq![start@]),
            ),
    {
        let mut lines: Vec<Vec<Point>> = Vec::new();
        let mut current: Vec<Point> = Vec::new();
        current.push(start);
        proof {
            assert(strokes_view(lines@) =~= Seq::<Seq<SpecPoint>>::empty());
            assert(points_view(current@) =~= seq![start@]);
        }
        loop
            invariant
                self@.len() <= old(self)@.len(),
                parse_line(self@, strokes_view(lines@), points_view(current@)) == parse_line(
                    old(self)@,
                    Seq::empty(),
                    seq![start@],
                ),
            ensures
                self@.len() <= old(self)@.len(),
                parse_line(old(self)@, Seq::empty(), seq![start@]) == Some(
                    (SpecTree::Lines(strokes_view(lines@)), self@),
                ),
            decreases self@.len(),
        {
            let ghost ts = self@;
            if self.at(TokenKind::Arrow) {
                self.advance();
                match self.point() {
                    Some(p) => {
                        let ghost done = strokes_view(lines@);
                        let ghost open = points_view(current@);
                        let mut next: Vec<Point> = Vec::new();
                        next.push(p.clone());
                        current.push(p);
                        lines.push(current);
                        current = next;
                        proof {
                            assert(ts.skip(1).skip(1) =~= ts.skip(2));
                            assert(points_view(lines@.last()@) =~= open.push(p@));
                            assert(strokes_view(lines@) =~= done.push(open.push(p@)));
                            assert(points_view(current@) =~= seq![p@]);
                        }
                    },
                    None => {
                        return None;
                    },
                }
            } else if self.at(TokenKind::TildeArrow) {
                self.advance();
                match self.point() {
                    Some(p) => {
                        proof {
                            assert(ts.skip(1).skip(1) =~= ts.skip(2));
                            assert(points_view(current@.push(p)) =~= points_view(current@).push(
                                p@,
                            ));
                        }
                        current.push(p);
                    },
                    None => {
                        return None;
                    },
                }
            } else if self.at_end() {
                return None;
            } else {
                break ;
            }
        }
        Some(SyntaxTree::Lines(lines))
    }

    /// Reads the rest of a rectangle that begins at `start`.
    fn parse_bound(&mut self, start: Point) -> (r: Option<SyntaxTree>)
        ensures
            tree_parsed(r, final(self)@, old(self)@, parse_bound(old(self)@, start@)),
    {
        let ghost ts = self@;
        if self.at(TokenKind::WideArrow) {
            self.advance();
            match self.point() {
                Some(p) => {
                    assert(ts.skip(1).skip(1) =~= ts.skip(2));
                    Some(SyntaxTree::Bounds(start, p))
                },
                None => None,
            }
        } else {
            None
        }
    }

    /// Reads strokes or a rectangle.
    fn parse_arrow(&mut self) -> (r: Option<SyntaxTree>)
        ensures
            tree_parsed(r, final(self)@, old(self)@, parse_arrow(old(self)@)),
            r is Some ==> final(self)@.len() < old(self)@.len(),
    {
        match self.point() {
            None => None,
            Some(start) => {
                if self.at(TokenKind::Arrow) || self.at(TokenKind::TildeArrow) {
                    self.parse_line(start)
                } else if self.at(TokenKind::WideArrow) {
                    self.parse_bound(start)
                } else {
                    None
                }
            },
        }
    }

    /// Reads a value.
    fn parse_value(&mut self) -> (r: Option<SyntaxTree>)
        ensures
            tree_parsed(r, final(self)@, old(self)@, parse_value(old(self)@)),
            r is Some ==> final(self)@.len() < old(self)@.len(),
        decreases old(self)@.len(), 0nat,
    {
        if self.at_end() {
            None
        } else if self.at(TokenKind::LParen) {
            self.advance();
            match self.parse_tree() {
                None => None,
                Some(tree) => {
                    if self.at(TokenKind::RParen) {
                        self.advance();
                        Some(tree)
                    } else {
                        None
                    }
                },
            }
        } else if self.at(TokenKind::LBracket) {
            self.advance();
            match self.parse_tree() {
                None => None,
                Some(tree) => {
                    if self.at(TokenKind::RBracket) {
                        self.advance();
                        Some(SyntaxTree::HalfwaySquare(Box::new(tree)))
                    } else {
                        None
                    }
                },
            }
        } else if self.at(TokenKind::LWideBracket) {
            self.advance();
            match self.parse_tree() {
                None => None,
                Some(tree) => {
                    if self.at(TokenKind::RWideBracket) {
                        self.advance();
                        Some(SyntaxTree::Square(Box::new(tree)))
                    } else {
                        None
                    }
                },
            }
        } else if self.at(TokenKind::Ident) {
            match self.name() {
                Some(ident) => Some(SyntaxTree::Ident(ident)),
                None => None,
            }
        } else {
            self.parse_arrow()
        }
    }

    /// Reads a value and what is set into it, if anything.
    fn parse_inner(&mut self) -> (r: Option<SyntaxTree>)
        ensures
            tree_parsed(r, final(self)@, old(self)@, parse_inner(old(self)@)),
            r is Some ==> final(self)@.len() < old(self)@.len(),
        decreases old(self)@.len(), 1nat,
    {
        match self.parse_value() {
            None => None,
            Some(value) => {
                if self.at(TokenKind::LCurly) {
                    self.advance();
                    match self.parse_tree() {
                        None => None,
                        Some(inner) => {
                            if self.at(TokenKind::RCurly) {
                                self.advance();
                                Some(SyntaxTree::Inner(Box::new(value), Box::new(inner)))
                            } else {
                                None
                            }
                        },
                    }
                } else {
                    Some(value)
                }
            },
        }
    }

    /// Reads an inner expression behind any number of `&`.
    fn parse_shrink(&mut self) -> (r: Option<SyntaxTree>)
        ensures
            tree_parsed(r, final(self)@, old(self)@, parse_shrink(old(self)@, 0)),
            r is Some ==> final(self)@.len() < old(self)@.len(),
        decreases old(self)@.len(), 2nat,
    {
        let mut shrinkage: usize = 0;
        while self.at(TokenKind::Ampersand)
            invariant
                shrinkage + self@.len() == old(self)@.len(),
                old(self)@.len() <= usize::MAX,
                parse_shrink(self@, shrinkage as nat) == parse_shrink(old(self)@, 0),
            decreases self@.len(),
        {
            self.advance();
            shrinkage += 1;
        }
        match self.parse_inner() {
            Some(tree) => Some(SyntaxTree::Shrink(shrinkage, Box::new(tree))),
            None => None,
        }
    }

    /// Reads one item of a list.
    fn parse_item(&mut self, level: u8) -> (r: Option<SyntaxTree>)
        requires
            level <= 2,
        ensures
            tree_parsed(r, final(self)@, old(self)@, parse_item(old(self)@, level as nat)),
            r is Some ==> final(self)@.len() < old(self)@.len(),
        decreases old(self)@.len(), 3 + 3 * level,
    {
        if level == 0 {
            self.parse_shrink()
        } else if level == 1 {
            self.parse_vertical()
        } else {
            self.parse_horizontal()
        }
    }

    /// Reads a list: a column (level 0), a row (level 1) or an overlay
    /// (level 2).
    fn parse_list(&mut self, level: u8) -> (r: Option<SyntaxTree>)
        requires
            level <= 2,
        ensures
            tree_parsed(r, final(self)@, old(self)@, parse_list(old(self)@, level as nat)),
            r is Some ==> final(self)@.len() < old(self)@.len(),
        decreases old(self)@.len(), 4 + 3 * level,
    {
        let sep: TokenKind = if level == 0 {
            TokenKind::Slash
        } else if level == 1 {
            TokenKind::Pipe
        } else {
            TokenKind::Plus
        };
        let first: SyntaxTree = match self.parse_item(level) {
            Some(tree) => tree,
            None => {
                return None;
            },
        };
        let ghost started = self@;
        let ghost first_view = first@;
        let mut result: Vec<SyntaxTree> = Vec::new();
        result.push(first);
        assert(trees_view(result@) =~= seq![first_view]);
        while self.at(sep)
            invariant
                level <= 2,
                sep == separator(level as nat),
                self@.len() < old(self)@.len(),
                result.len() >= 1,
                started.len() < old(self)@.len(),
                parse_item(old(self)@, level as nat) == Some((first_view, started)),
                parse_rest(self@, level as nat, trees_view(result@)) == parse_rest(
                    started,
                    level as nat,
                    seq![first_view],
                ),
            decreases self@.len(),
        {
            self.advance();
            match self.parse_item(level) {
                Some(item) => {
                    proof {
                        assert(trees_view(result@.push(item)) =~= trees_view(result@).push(item@));
                    }
                    result.push(item);
                },
                None => {
                    return None;
                },
            }
        }
        if result.len() == 1 {
            let ghost items = trees_view(result@);
            match result.pop() {
                Some(only) => {
                    assert(only@ == items[0]);
                    Some(only)
                },
                None => None,
            }
        } else if level == 0 {
            Some(SyntaxTree::Vertical(result))
        } else if level == 1 {
            Some(SyntaxTree::Horizontal(result))
        } else {
            Some(SyntaxTree::Plus(result))
        }
    }

    /// Reads a column: shrunk expressions with `/` between them.
    fn parse_vertical(&mut self) -> (r: Option<SyntaxTree>)
        ensures
            tree_parsed(r, final(self)@, old(self)@, parse_list(old(self)@, 0)),
            r is Some ==> final(self)@.len() < old(self)@.len(),
        decreases old(self)@.len(), 5nat,
    {
        self.parse_list(0)
    }

    /// Reads a row: columns with `|` between them.
    fn parse_horizontal(&mut self) -> (r: Option<SyntaxTree>)
        ensures
            tree_parsed(r, final(self)@, old(self)@, parse_list(old(self)@, 1)),
            r is Some ==> final(self)@.len() < old(self)@.len(),
        decreases old(self)@.len(), 8nat,
    {
        self.parse_list(1)
    }

    /// Reads a whole expression: rows with `+` between them.
    fn parse_tree(&mut self) -> (r: Option<SyntaxTree>)
        ensures
            tree_parsed(r, final(self)@, old(self)@, parse_tree(old(self)@)),
            r is Some ==> final(self)@.len() < old(self)@.len(),
        decreases old(self)@.len(), 11nat,
    {
        self.parse_list(2)
    }

    /// Reads the rectangle of an annotation.
    fn parse_bounds_as_rect_pair(&mut self) -> (r: Option<Rect>)
        ensures
            match parse_rect(old(self)@) {
                Some((rect, rest)) => r is Some && r->0@ == rect && final(self)@ == rest,
                None => r is None,
            },
            r is Some ==> final(self)@.len() < old(self)@.len(),
    {
        let ghost ts = self@;
        match self.point() {
            None => None,
            Some(from) => {
                if self.at(TokenKind::WideArrow) {
                    self.advance();
                    match self.point() {
                        Some(to) => {
                            proof {
                                assert(ts.skip(1).skip(1) =~= ts.skip(2));
                                assert(ts.skip(2).skip(1) =~= ts.skip(3));
                            }
                            Some(Rect { x0: from.x, y0: from.y, x1: to.x, y1: to.y })
                        },
                        None => {
                            assert(ts.skip(1).skip(1) =~= ts.skip(2));
                            None
                        },
                    }
                } else {
                    None
                }
            },
        }
    }

    /// Reads one annotation and lays it over `annotations`.
    fn parse_annotation(&mut self, annotations: &mut Annotations) -> (r: Option<()>)
        ensures
            match parse_annotation(old(self)@, old(annotations)@) {
                Some((next, rest)) => r is Some && final(annotations)@ == next && final(self)@
                    == rest,
                None => r is None,
            },
            r is None ==> final(annotations)@ == old(annotations)@,
            r is Some ==> final(self)@.len() < old(self)@.len(),
    {
        let ghost ts = self@;
        if self.at(TokenKind::LCurly) {
            self.advance();
            if !self.at(TokenKind::RCurly) {
                return None;
            }
            self.advance();
            if !self.at(TokenKind::Assign) {
                assert(ts.skip(1).skip(1) =~= ts.skip(2));
                return None;
            }
            self.advance();
            proof {
                assert(ts.skip(1).skip(1) =~= ts.skip(2));
                assert(ts.skip(2).skip(1) =~= ts.skip(3));
            }
            let start: Rect = match self.parse_bounds_as_rect_pair() {
                Some(rect) => rect,
                None => {
                    return None;
                },
            };
            if !self.at(TokenKind::Plus) {
                return None;
            }
            self.advance();
            let end: Rect = match self.parse_bounds_as_rect_pair() {
                Some(rect) => rect,
                None => {
                    return None;
                },
            };
            annotations.inner = (start, end);
            Some(())
        } else if self.at(TokenKind::Assign) {
            self.advance();
            match self.parse_bounds_as_rect_pair() {
                Some(rect) => {
                    annotations.standalone = rect;
                    Some(())
                },
                None => None,
            }
        } else {
            None
        }
    }

    /// Reads the annotations of a definition.
    fn parse_annotations(&mut self) -> (r: Option<Annotations>)
        ensures
            match parse_annotations(old(self)@, SpecAnnotations::initial()) {
                Some((annotations, rest)) => r is Some && r->0@ == annotations && final(self)@
                    == rest,
                None => r is None,
            },
            final(self)@.len() <= old(self)@.len(),
    {
        let mut result: Annotations = Annotations::new();
        while self.at(TokenKind::QuestionMark)
            invariant
                self@.len() <= old(self)@.len(),
                parse_annotations(self@, result@) == parse_annotations(
                    old(self)@,
                    SpecAnnotations::initial(),
                ),
            decreases self@.len(),
        {
            self.advance();
            match self.parse_annotation(&mut result) {
                Some(_) => {},
                None => {
                    self.pos = self.tokens.len();
                    return None;
                },
            }
        }
        Some(result)
    }

    /// Reads the next definition. Where there is none, nothing is left to
    /// read.
    pub fn next(&mut self) -> (r: Option<Character>)
        ensures
            match parse_character(old(self)@) {
                Some((character, rest)) => r is Some && r->0@ == character && final(self)@ == rest,
                None => r is None && final(self)@.len() == 0,
            },
            r is Some ==> final(self)@.len() < old(self)@.len() && r->0.names.len() > 0,
    {
        let r: Option<Character> = self.definition();
        if r.is_none() {
            assert(tokens_view(self.tokens@).skip(self.tokens.len() as int).len() == 0);
            self.pos = self.tokens.len();
        }
        r
    }

    /// Reads one definition.
    fn definition(&mut self) -> (r: Option<Character>)
        ensures
            match parse_character(old(self)@) {
                Some((character, rest)) => r is Some && r->0@ == character && final(self)@ == rest,
                None => r is None,
            },
            r is Some ==> final(self)@.len() < old(self)@.len() && r->0.names.len() > 0,
    {
        let ghost ts = self@;
        let is_radical: bool = self.at(TokenKind::Section);
        if is_radical {
            self.advance();
        }
        let ghost body = self@;
        let mut names: Vec<String> = Vec::new();
        match self.name() {
            Some(n) => {
                names.push(n);
            },
            None => {
                return None;
            },
        }
        assert(names_view(names@) =~= seq![name_of(body[0])]);
        loop
            invariant_except_break
                parse_names(self@, names_view(names@)) == parse_names(
                    body.skip(1),
                    seq![name_of(body[0])],
                ),
            invariant
                names.len() > 0,
                self@.len() < ts.len(),
                ts == old(self)@,
                is_radical == front(ts, TokenKind::Section),
                body == (if is_radical {
                    ts.skip(1)
                } else {
                    ts
                }),
                front(body, TokenKind::Ident),
            ensures
                names.len() > 0,
                self@.len() < ts.len(),
                parse_names(body.skip(1), seq![name_of(body[0])]) == Some(
                    (names_view(names@), self@),
                ),
            decreases self@.len(),
        {
            let ghost here = self@;
            if self.at(TokenKind::Comma) {
                self.advance();
                match self.name() {
                    Some(n) => {
                        proof {
                            assert(here.skip(1).skip(1) =~= here.skip(2));
                            assert(names_view(names@.push(n)) =~= names_view(names@).push(n@));
                        }
                        names.push(n);
                    },
                    None => {
                        return None;
                    },
                }
            } else if self.at(TokenKind::Assign) {
                self.advance();
                break ;
            } else {
                return None;
            }
        }
        let syntax_tree: SyntaxTree = match self.parse_tree() {
            Some(tree) => tree,
            None => {
                return None;
            },
        };
        let annotations: Annotations = match self.parse_annotations() {
            Some(a) => a,
            None => {
                return None;
            },
        };
        if !self.at(TokenKind::Semicolon) {
            return None;
        }
        self.advance();
        Some(Character { is_radical, names, syntax_tree, annotations })
    }
}

} // verus!
