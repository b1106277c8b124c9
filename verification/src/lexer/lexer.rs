//! The lexer: from the characters of a source text to tokens.

use crate::lexer::{token_view, SpecToken, Token};
use crate::number::integer::Integer;
use crate::number::natural::Natural;
use crate::number::rational::{lemma_product_positive, Ratio, Rational};
use vstd::prelude::*;
use vstd::std_specs::iter::IteratorSpec;

verus! {

/// Whether `c` is a letter, as `char::is_alphabetic` tells.
pub uninterp spec fn char_is_alphabetic(c: char) -> bool;

/// Whether `c` is white space: one of the twenty-five characters with the
/// Unicode property White_Space.
pub open spec fn is_white_space(c: char) -> bool {
    ||| '\u{9}' <= c <= '\u{d}'
    ||| c == ' '
    ||| c == '\u{85}'
    ||| c == '\u{a0}'
    ||| c == '\u{1680}'
    ||| '\u{2000}' <= c <= '\u{200a}'
    ||| c == '\u{2028}'
    ||| c == '\u{2029}'
    ||| c == '\u{202f}'
    ||| c == '\u{205f}'
    ||| c == '\u{3000}'
}

/// Whether `c` is white space.
pub fn is_space(c: char) -> (b: bool)
    ensures
        b == is_white_space(c),
{
    ('\u{9}' <= c && c <= '\u{d}') || c == ' ' || c == '\u{85}' || c == '\u{a0}' || c
        == '\u{1680}' || ('\u{2000}' <= c && c <= '\u{200a}') || c == '\u{2028}' || c
        == '\u{2029}' || c == '\u{202f}' || c == '\u{205f}' || c == '\u{3000}'
}

/// `char::is_alphabetic`: whether `c` has the Unicode property Alphabetic.
/// The result is taken as it comes and given the name `char_is_alphabetic`.
#[verifier::external_body]
fn is_alphabetic(c: char) -> (b: bool)
    ensures
        b == char_is_alphabetic(c),
{
    c.is_alphabetic()
}

/// `String::push`: appends `c` to the end of `text`.
#[verifier::external_body]
fn push_char(text: &mut String, c: char)
    ensures
        final(text)@ == old(text)@.push(c),
{
    text.push(c)
}

/// Whether `c` is one of the ten decimal digits.
pub open spec fn is_digit(c: char) -> bool {
    '0' <= c <= '9'
}

/// The kinds of characters of which the lexer reads a run.
#[derive(Clone, Copy, Debug)]
pub enum CharClass {
    /// White space.
    Space,
    /// What a comment holds: anything but the end of the line.
    CommentBody,
    /// What a name is made of: letters, `_` and `-`.
    IdentBody,
    /// What a number is made of: digits and `.`.
    NumberBody,
}

impl CharClass {
    /// Whether `c` is of this kind.
    pub open spec fn holds(self, c: char) -> bool {
        match self {
            CharClass::Space => is_white_space(c),
            CharClass::CommentBody => c != '\n',
            CharClass::IdentBody => char_is_alphabetic(c) || c == '_' || c == '-',
            CharClass::NumberBody => is_digit(c) || c == '.',
        }
    }

    fn test(self, c: char) -> (b: bool)
        ensures
            b == self.holds(c),
    {
        match self {
            CharClass::Space => is_space(c),
            CharClass::CommentBody => c != '\n',
            CharClass::IdentBody => is_alphabetic(c) || c == '_' || c == '-',
            CharClass::NumberBody => ('0' <= c && c <= '9') || c == '.',
        }
    }
}

/// The length of the longest prefix of `s` made of characters of one kind.
pub open spec fn run_length(s: Seq<char>, class: CharClass) -> nat
    decreases s.len(),
{
    if s.len() > 0 && class.holds(s[0]) {
        1 + run_length(s.drop_first(), class)
    } else {
        0
    }
}

/// A run is no longer than the text.
pub proof fn lemma_run_length_bound(s: Seq<char>, class: CharClass)
    ensures
        run_length(s, class) <= s.len(),
    decreases s.len(),
{
    if s.len() > 0 && class.holds(s[0]) {
        lemma_run_length_bound(s.drop_first(), class);
    }
}

/// A run that has reached `i` characters goes on from there.
proof fn lemma_run_length_split(s: Seq<char>, class: CharClass, i: int)
    requires
        0 <= i <= s.len(),
        forall|j: int| 0 <= j < i ==> class.holds(s[j]),
    ensures
        run_length(s, class) == i + run_length(s.skip(i), class),
    decreases i,
{
    if i > 0 {
        let t = s.drop_first();
        assert forall|j: int| 0 <= j < i - 1 implies class.holds(t[j]) by {
            assert(t[j] == s[j + 1]);
        }
        lemma_run_length_split(t, class, i - 1);
        assert(t.skip(i - 1) =~= s.skip(i));
    } else {
        assert(s.skip(0) =~= s);
    }
}

/// The text from the first character on that is no white space.
pub open spec fn after_space(s: Seq<char>) -> Seq<char> {
    s.skip(run_length(s, CharClass::Space) as int)
}

/// The text after the comments that it begins with. A comment runs from `#`
/// to the end of its line, or of the text; white space may follow it.
pub open spec fn after_comments(s: Seq<char>) -> Seq<char>
    decreases s.len(),
{
    if s.len() > 0 && s[0] == '#' {
        let rest = after_space(s.skip(run_length(s, CharClass::CommentBody) as int));
        if rest.len() < s.len() {
            after_comments(rest)
        } else {
            rest
        }
    } else {
        s
    }
}

/// What the scan of a decimal numeral has found.
pub struct Decimal {
    /// The digits read as one whole number.
    pub mantissa: nat,
    /// Ten to the number of digits after the first point.
    pub den: nat,
    /// The number of points.
    pub dots: nat,
    /// The number of digits.
    pub digits: nat,
    /// The number of characters that are neither.
    pub strays: nat,
}

/// The digit `c` as a number.
pub open spec fn digit_value(c: char) -> nat {
    (c as int - '0' as int) as nat
}

/// The scan of `text` from left to right.
pub open spec fn decimal_scan(text: Seq<char>) -> Decimal
    decreases text.len(),
{
    if text.len() == 0 {
        Decimal { mantissa: 0, den: 1, dots: 0, digits: 0, strays: 0 }
    } else {
        let before = decimal_scan(text.drop_last());
        let c = text.last();
        if c == '.' {
            Decimal { dots: before.dots + 1, ..before }
        } else if is_digit(c) {
            Decimal {
                mantissa: before.mantissa * 10 + digit_value(c),
                den: if before.dots > 0 {
                    before.den * 10
                } else {
                    before.den
                },
                digits: before.digits + 1,
                ..before
            }
        } else {
            Decimal { strays: before.strays + 1, ..before }
        }
    }
}

/// The number that the decimal numeral `text` stands for: digits with at
/// most one point among them, and one digit at least.
pub open spec fn decimal_value(text: Seq<char>) -> Option<Ratio> {
    let scan = decimal_scan(text);
    if scan.dots <= 1 && scan.digits >= 1 && scan.strays == 0 {
        Some(Ratio { num: scan.mantissa as int, den: scan.den as int })
    } else {
        None
    }
}

/// What a number that may be missing holds.
pub open spec fn rational_view(r: Option<Rational>) -> Option<Ratio> {
    match r {
        Some(q) => Some(q@),
        None => None,
    }
}

/// The number at the start of `s`, and the text after it: the longest run
/// of digits and points is read, whether or not it is a numeral.
pub open spec fn number_token(s: Seq<char>) -> (Option<Ratio>, Seq<char>) {
    let n = run_length(s, CharClass::NumberBody) as int;
    (decimal_value(s.take(n)), s.skip(n))
}

/// The pair of numbers at the start of `s`, white space between them or
/// none, and the text after it.
pub open spec fn value_pair_token(s: Seq<char>) -> (Option<SpecToken>, Seq<char>) {
    let (first, rest) = number_token(s);
    match first {
        None => (None, rest),
        Some(x) => {
            let (second, end) = number_token(after_space(rest));
            match second {
                None => (None, end),
                Some(y) => (Some(SpecToken::ValuePair(x, y)), end),
            }
        },
    }
}

/// The name at the start of `s`, and the text after it. A name in double
/// quotes is not read: the quote is passed over and there is no token.
pub open spec fn ident_token(s: Seq<char>) -> (Option<SpecToken>, Seq<char>) {
    if s.len() > 0 && s[0] == '"' {
        (None, s.skip(1))
    } else {
        let n = run_length(s, CharClass::IdentBody) as int;
        (Some(SpecToken::Ident(s.take(n))), s.skip(n))
    }
}

/// An operator of two characters, of which `s` begins with the first: two
/// characters are read, and they are the operator where the second is
/// `second`.
pub open spec fn pair_token(s: Seq<char>, second: char, token: SpecToken) -> (
    Option<SpecToken>,
    Seq<char>,
) {
    if s.len() < 2 {
        (None, s.skip(1))
    } else if s[1] == second {
        (Some(token), s.skip(2))
    } else {
        (None, s.skip(2))
    }
}

/// A bracket, of which `s` begins with the first character: the wide
/// bracket where the same character follows, else the plain one.
pub open spec fn bracket_token(s: Seq<char>, bracket: char, plain: SpecToken, wide: SpecToken) -> (
    Option<SpecToken>,
    Seq<char>,
) {
    if s.len() >= 2 && s[1] == bracket {
        (Some(wide), s.skip(2))
    } else {
        (Some(plain), s.skip(1))
    }
}

/// The operator of more than one form at the start of `s`, and the text
/// after it.
pub open spec fn operator_token(s: Seq<char>) -> (Option<SpecToken>, Seq<char>) {
    if s.len() == 0 {
        (None, s)
    } else if s[0] == '-' {
        pair_token(s, '>', SpecToken::Arrow)
    } else if s[0] == '~' {
        pair_token(s, '>', SpecToken::TildeArrow)
    } else if s[0] == '=' {
        pair_token(s, '>', SpecToken::WideArrow)
    } else if s[0] == ':' {
        pair_token(s, '=', SpecToken::Assign)
    } else if s[0] == '[' {
        bracket_token(s, '[', SpecToken::LBracket, SpecToken::LWideBracket)
    } else if s[0] == ']' {
        bracket_token(s, ']', SpecToken::RBracket, SpecToken::RWideBracket)
    } else {
        (None, s.skip(1))
    }
}

/// The token that the single character `c` is, if it is one.
pub open spec fn punctuation(c: char) -> Option<SpecToken> {
    if c == ',' {
        Some(SpecToken::Comma)
    } else if c == '+' {
        Some(SpecToken::Plus)
    } else if c == '(' {
        Some(SpecToken::LParen)
    } else if c == ')' {
        Some(SpecToken::RParen)
    } else if c == '{' {
        Some(SpecToken::LCurly)
    } else if c == '}' {
        Some(SpecToken::RCurly)
    } else if c == '|' {
        Some(SpecToken::Pipe)
    } else if c == '/' {
        Some(SpecToken::Slash)
    } else if c == '?' {
        Some(SpecToken::QuestionMark)
    } else if c == ';' {
        Some(SpecToken::Semicolon)
    } else if c == '\u{a7}' {
        Some(SpecToken::Section)
    } else if c == '&' {
        Some(SpecToken::Ampersand)
    } else {
        None
    }
}

/// Whether a token of more than one form begins with `c`.
pub open spec fn starts_operator(c: char) -> bool {
    c == '~' || c == '-' || c == '=' || c == ':' || c == '[' || c == ']'
}

/// The next token of `s`, after white space and comments, and the text
/// after it. What the text goes on with decides: an operator of more than
/// one form, a pair of numbers, a token of one character, a name. There is
/// no token at the end of the text, nor where the text goes on with a
/// character that begins none: that character is passed over.
pub open spec fn next_token(s: Seq<char>) -> (Option<SpecToken>, Seq<char>) {
    let t = after_comments(after_space(s));
    if t.len() == 0 {
        (None, t)
    } else if starts_operator(t[0]) {
        operator_token(t)
    } else if t[0] == '.' || is_digit(t[0]) {
        value_pair_token(t)
    } else if punctuation(t[0]) is Some {
        (punctuation(t[0]), t.skip(1))
    } else if char_is_alphabetic(t[0]) || t[0] == '"' || t[0] == '_' {
        ident_token(t)
    } else {
        (None, t.skip(1))
    }
}

/// The tokens of `s`, up to the end of the text or to the first place
/// where there is no token.
pub open spec fn tokens_of(s: Seq<char>) -> Seq<SpecToken>
    decreases s.len(),
{
    let (token, rest) = next_token(s);
    match token {
        Some(t) => if rest.len() < s.len() {
            seq![t] + tokens_of(rest)
        } else {
            seq![t]
        },
        None => Seq::empty(),
    }
}

/// Passing over white space does not lengthen the text.
pub proof fn lemma_after_space_bound(s: Seq<char>)
    ensures
        after_space(s).len() <= s.len(),
{
    lemma_run_length_bound(s, CharClass::Space);
}

/// Passing over comments does not lengthen the text.
pub proof fn lemma_after_comments_bound(s: Seq<char>)
    ensures
        after_comments(s).len() <= s.len(),
    decreases s.len(),
{
    if s.len() > 0 && s[0] == '#' {
        lemma_run_length_bound(s, CharClass::CommentBody);
        let body = s.skip(run_length(s, CharClass::CommentBody) as int);
        lemma_after_space_bound(body);
        let rest = after_space(body);
        if rest.len() < s.len() {
            lemma_after_comments_bound(rest);
        }
    }
}

/// A numeral has a digit.
proof fn lemma_decimal_scan_digits(text: Seq<char>)
    ensures
        decimal_scan(text).digits <= text.len(),
    decreases text.len(),
{
    if text.len() > 0 {
        lemma_decimal_scan_digits(text.drop_last());
    }
}

/// A number that is read takes one character at least.
proof fn lemma_number_token_consumes(s: Seq<char>)
    ensures
        number_token(s).1.len() <= s.len(),
        number_token(s).0 is Some ==> number_token(s).1.len() < s.len(),
{
    lemma_run_length_bound(s, CharClass::NumberBody);
    let n = run_length(s, CharClass::NumberBody) as int;
    lemma_decimal_scan_digits(s.take(n));
}

/// Every token takes one character at least.
pub proof fn lemma_token_consumes(s: Seq<char>)
    ensures
        next_token(s).1.len() <= s.len(),
        next_token(s).0 is Some ==> next_token(s).1.len() < s.len(),
{
    lemma_after_space_bound(s);
    lemma_after_comments_bound(after_space(s));
    let t = after_comments(after_space(s));
    if t.len() == 0 {
    } else if starts_operator(t[0]) {
    } else if t[0] == '.' || is_digit(t[0]) {
        lemma_number_token_consumes(t);
        let rest = number_token(t).1;
        lemma_after_space_bound(rest);
        lemma_number_token_consumes(after_space(rest));
    } else if punctuation(t[0]) is Some {
    } else if char_is_alphabetic(t[0]) || t[0] == '"' || t[0] == '_' {
        lemma_run_length_bound(t, CharClass::IdentBody);
    } else {
    }
}

/// A lexer over the characters of a source text.
#[derive(Debug)]
pub struct Lexer {
    chars: Vec<char>,
    pos: usize,
}

impl View for Lexer {
    type V = Seq<char>;

    /// The text that is still to be read.
    closed spec fn view(&self) -> Seq<char> {
        if self.pos <= self.chars.len() {
            self.chars@.skip(self.pos as int)
        } else {
            Seq::empty()
        }
    }
}

impl Lexer {
    /// A lexer at the start of `chars`.
    pub fn new(chars: &str) -> (r: Lexer)
        ensures
            r@ == chars@,
    {
        let mut all: Vec<char> = Vec::new();
        let mut it = chars.chars();
        loop
            invariant
                all@ + it.remaining() =~= chars@,
                it.decrease() is Some,
            ensures
                all@ =~= chars@,
            decreases it.decrease()->0,
        {
            match it.next() {
                Some(c) => {
                    all.push(c);
                },
                None => {
                    break ;
                },
            }
        }
        assert(all@.skip(0) =~= all@);
        Lexer { chars: all, pos: 0 }
    }

    fn peek(&self) -> (c: Option<char>)
        ensures
            c == (if self@.len() > 0 {
                Some(self@[0])
            } else {
                None
            }),
    {
        if self.pos < self.chars.len() {
            Some(self.chars[self.pos])
        } else {
            None
        }
    }

    fn bump(&mut self) -> (c: Option<char>)
        ensures
            c == (if old(self)@.len() > 0 {
                Some(old(self)@[0])
            } else {
                None
            }),
            final(self)@ == (if old(self)@.len() > 0 {
                old(self)@.skip(1)
            } else {
                old(self)@
            }),
    {
        if self.pos < self.chars.len() {
            let c: char = self.chars[self.pos];
            assert(self.chars@.skip(self.pos as int).skip(1) =~= self.chars@.skip(self.pos + 1));
            self.pos = self.pos + 1;
            Some(c)
        } else {
            None
        }
    }

    /// Reads the longest run of characters of one kind.
    fn take_run(&mut self, class: CharClass) -> (run: Vec<char>)
        ensures
            run@ == old(self)@.take(run_length(old(self)@, class) as int),
            final(self)@ == old(self)@.skip(run_length(old(self)@, class) as int),
    {
        let ghost text = self@;
        let mut run: Vec<char> = Vec::new();
        loop
            invariant
                run.len() <= text.len(),
                run@ == text.take(run.len() as int),
                self@ == text.skip(run.len() as int),
                forall|j: int| 0 <= j < run.len() ==> class.holds(text[j]),
            ensures
                run@ == text.take(run_length(text, class) as int),
                self@ == text.skip(run_length(text, class) as int),
            decreases text.len() - run.len(),
        {
            proof {
                lemma_run_length_split(text, class, run.len() as int);
            }
            match self.peek() {
                Some(c) => {
                    if class.test(c) {
                        let _ = self.bump();
                        proof {
                            assert(text.skip(run.len() as int).skip(1) =~= text.skip(
                                run.len() + 1,
                            ));
                            assert(text.take(run.len() + 1) =~= text.take(run.len() as int).push(
                                c,
                            ));
                        }
                        run.push(c);
                    } else {
                        break ;
                    }
                },
                None => {
                    break ;
                },
            }
        }
        run
    }

    /// Passes over white space.
    pub fn skip_whitespace(&mut self)
        ensures
            final(self)@ == after_space(old(self)@),
    {
        let _ = self.take_run(CharClass::Space);
    }

    /// Passes over comments and the white space that follows each.
    pub fn skip_comment(&mut self)
        ensures
            final(self)@ == after_comments(old(self)@),
    {
        loop
            invariant
                after_comments(self@) == after_comments(old(self)@),
            ensures
                self@ == after_comments(old(self)@),
            decreases self@.len(),
        {
            match self.peek() {
                Some('#') => {
                    let ghost before = self@;
                    proof {
                        lemma_run_length_bound(before, CharClass::CommentBody);
                        lemma_run_length_bound(
                            before.skip(run_length(before, CharClass::CommentBody) as int),
                            CharClass::Space,
                        );
                        assert(run_length(before, CharClass::CommentBody) >= 1);
                    }
                    let _ = self.take_run(CharClass::CommentBody);
                    self.skip_whitespace();
                },
                _ => {
                    break ;
                },
            }
        }
    }

    /// Reads two characters; they are `token` where the second is `second`.
    fn second_of_pair(&mut self, second: char, token: Token) -> (r: Option<Token>)
        requires
            old(self)@.len() >= 1,
        ensures
            (token_view(r), final(self)@) == pair_token(old(self)@, second, token@),
    {
        let ghost s = self@;
        let _ = self.bump();
        match self.bump() {
            Some(c) => {
                assert(s.skip(1).skip(1) =~= s.skip(2));
                if c == second {
                    Some(token)
                } else {
                    None
                }
            },
            None => None,
        }
    }

    /// Reads a bracket, plain or wide.
    fn bracket(&mut self, bracket: char, plain: Token, wide: Token) -> (r: Option<Token>)
        requires
            old(self)@.len() >= 1,
        ensures
            (token_view(r), final(self)@) == bracket_token(old(self)@, bracket, plain@, wide@),
    {
        let ghost s = self@;
        let _ = self.bump();
        match self.peek() {
            Some(c) => {
                if c == bracket {
                    let _ = self.bump();
                    assert(s.skip(1).skip(1) =~= s.skip(2));
                    Some(wide)
                } else {
                    Some(plain)
                }
            },
            None => Some(plain),
        }
    }

    /// Reads an operator of more than one form: `->`, `~>`, `=>`, `:=`, a
    /// bracket or a wide bracket.
    pub fn parse_nontrivial_operator(&mut self) -> (r: Option<Token>)
        ensures
            (token_view(r), final(self)@) == operator_token(old(self)@),
    {
        match self.peek() {
            None => None,
            Some(c) => {
                if c == '-' {
                    self.second_of_pair('>', Token::Arrow)
                } else if c == '~' {
                    self.second_of_pair('>', Token::TildeArrow)
                } else if c == '=' {
                    self.second_of_pair('>', Token::WideArrow)
                } else if c == ':' {
                    self.second_of_pair('=', Token::Assign)
                } else if c == '[' {
                    self.bracket('[', Token::LBracket, Token::LWideBracket)
                } else if c == ']' {
                    self.bracket(']', Token::RBracket, Token::RWideBracket)
                } else {
                    let _ = self.bump();
                    None
                }
            },
        }
    }

    /// Reads the longest run of digits and points, and takes it for a
    /// decimal numeral.
    pub fn parse_number(&mut self) -> (r: Option<Rational>)
        ensures
            (rational_view(r), final(self)@) == number_token(old(self)@),
    {
        let text: Vec<char> = self.take_run(CharClass::NumberBody);
        parse_decimal(&text)
    }

    /// Reads two numbers, white space between them or none.
    pub fn parse_value_pair(&mut self) -> (r: Option<Token>)
        ensures
            (token_view(r), final(self)@) == value_pair_token(old(self)@),
    {
        match self.parse_number() {
            None => None,
            Some(first) => {
                self.skip_whitespace();
                match self.parse_number() {
                    None => None,
                    Some(second) => Some(Token::ValuePair(first, second)),
                }
            },
        }
    }

    /// Reads a name: the longest run of letters, `_` and `-`.
    pub fn parse_ident(&mut self) -> (r: Option<Token>)
        ensures
            (token_view(r), final(self)@) == ident_token(old(self)@),
    {
        match self.peek() {
            Some('"') => {
                let _ = self.bump();
                None
            },
            _ => {
                let run: Vec<char> = self.take_run(CharClass::IdentBody);
                Some(Token::Ident(string_of(&run)))
            },
        }
    }

    /// Reads the next token.
    pub fn next(&mut self) -> (r: Option<Token>)
        ensures
            (token_view(r), final(self)@) == next_token(old(self)@),
            final(self)@.len() <= old(self)@.len(),
            r is Some ==> final(self)@.len() < old(self)@.len(),
    {
        proof {
            lemma_token_consumes(self@);
        }
        self.skip_whitespace();
        self.skip_comment();
        match self.peek() {
            None => None,
            Some(c) => {
                if c == '~' || c == '-' || c == '=' || c == ':' || c == '[' || c == ']' {
                    self.parse_nontrivial_operator()
                } else if c == '.' || ('0' <= c && c <= '9') {
                    self.parse_value_pair()
                } else {
                    let single: Option<Token> = punctuation_of(c);
                    if single.is_some() {
                        let _ = self.bump();
                        single
                    } else if is_alphabetic(c) || c == '"' || c == '_' {
                        self.parse_ident()
                    } else {
                        let _ = self.bump();
                        None
                    }
                }
            },
        }
    }
}

/// The characters of `chars` as a string.
fn string_of(chars: &Vec<char>) -> (text: String)
    ensures
        text@ == chars@,
{
    let mut text: String = String::new();
    let mut i: usize = 0;
    while i < chars.len()
        invariant
            i <= chars.len(),
            text@ == chars@.take(i as int),
        decreases chars.len() - i,
    {
        assert(chars@.take(i + 1) =~= chars@.take(i as int).push(chars@[i as int]));
        push_char(&mut text, chars[i]);
        i += 1;
    }
    assert(chars@.take(chars.len() as int) =~= chars@);
    text
}

fn punctuation_of(c: char) -> (r: Option<Token>)
    ensures
        token_view(r) == punctuation(c),
{
    if c == ',' {
        Some(Token::Comma)
    } else if c == '+' {
        Some(Token::Plus)
    } else if c == '(' {
        Some(Token::LParen)
    } else if c == ')' {
        Some(Token::RParen)
    } else if c == '{' {
        Some(Token::LCurly)
    } else if c == '}' {
        Some(Token::RCurly)
    } else if c == '|' {
        Some(Token::Pipe)
    } else if c == '/' {
        Some(Token::Slash)
    } else if c == '?' {
        Some(Token::QuestionMark)
    } else if c == ';' {
        Some(Token::Semicolon)
    } else if c == '\u{a7}' {
        Some(Token::Section)
    } else if c == '&' {
        Some(Token::Ampersand)
    } else {
        None
    }
}

/// The number that the decimal numeral `text` stands for.
pub fn parse_decimal(text: &Vec<char>) -> (r: Option<Rational>)
    ensures
        rational_view(r) == decimal_value(text@),
{
    let ten: Natural = Natural::from_u64(10);
    let mut mantissa: Natural = Natural::zero();
    let mut den: Natural = Natural::from_u64(1);
    let mut dots: usize = 0;
    let mut digits: usize = 0;
    let mut strays: usize = 0;
    let mut i: usize = 0;
    while i < text.len()
        invariant
            i <= text.len(),
            ten@ == 10,
            dots + digits + strays == i,
            den@ > 0,
            decimal_scan(text@.take(i as int)) == (Decimal {
                mantissa: mantissa@,
                den: den@,
                dots: dots as nat,
                digits: digits as nat,
                strays: strays as nat,
            }),
        decreases text.len() - i,
    {
        let c: char = text[i];
        proof {
            assert(text@.take(i + 1).drop_last() =~= text@.take(i as int));
            assert(text@.take(i + 1).last() == c);
        }
        if c == '.' {
            dots += 1;
        } else if '0' <= c && c <= '9' {
            let d: u64 = (c as u32 - '0' as u32) as u64;
            mantissa = mantissa.mul(&ten).add(&Natural::from_u64(d));
            if dots > 0 {
                proof {
                    lemma_product_positive(den@ as int, 10);
                }
                den = den.mul(&ten);
            }
            digits += 1;
        } else {
            strays += 1;
        }
        i += 1;
    }
    assert(text@.take(text.len() as int) =~= text@);
    if dots <= 1 && digits >= 1 && strays == 0 {
        Rational::new(Integer::from_natural(mantissa), den)
    } else {
        None
    }
}

} // verus!
