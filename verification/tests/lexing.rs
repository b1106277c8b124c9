use vglyph::lexer::lexer::{is_space, parse_decimal, Lexer};
use vglyph::lexer::{Token, TokenKind};
use vglyph::number::integer::Integer;
use vglyph::number::natural::Natural;
use vglyph::number::rational::Rational;

fn kinds(src: &str) -> Vec<TokenKind> {
    let mut lexer = Lexer::new(src);
    let mut out = Vec::new();
    while let Some(token) = lexer.next() {
        out.push(token.kind());
    }
    out
}

fn has_terms(q: &Rational, num: i64, den: u64) -> bool {
    q.numerator().equals(&Integer::from_i64(num)) && q.denominator().equals(&Natural::from_u64(den))
}

fn pair(src: &str) -> Option<(Rational, Rational)> {
    match Lexer::new(src).next() {
        Some(Token::ValuePair(x, y)) => Some((x, y)),
        Some(other) => panic!("not a pair of numbers: {:?}", other),
        None => None,
    }
}

fn ident(src: &str) -> Option<String> {
    match Lexer::new(src).next() {
        Some(Token::Ident(name)) => Some(name),
        Some(other) => panic!("not a name: {:?}", other),
        None => None,
    }
}

#[test]
fn lexes_operators_of_two_characters() {
    assert_eq!(
        kinds("-> ~> => := [ [[ ] ]]"),
        vec![
            TokenKind::Arrow,
            TokenKind::TildeArrow,
            TokenKind::WideArrow,
            TokenKind::Assign,
            TokenKind::LBracket,
            TokenKind::LWideBracket,
            TokenKind::RBracket,
            TokenKind::RWideBracket,
        ]
    );
}

#[test]
fn lexes_brackets_greedily() {
    assert_eq!(
        kinds("[[[]]]"),
        vec![
            TokenKind::LWideBracket,
            TokenKind::LBracket,
            TokenKind::RWideBracket,
            TokenKind::RBracket,
        ]
    );
}

#[test]
fn lexes_single_characters() {
    assert_eq!(
        kinds(", + ( ) { } | / ? ; \u{a7} &"),
        vec![
            TokenKind::Comma,
            TokenKind::Plus,
            TokenKind::LParen,
            TokenKind::RParen,
            TokenKind::LCurly,
            TokenKind::RCurly,
            TokenKind::Pipe,
            TokenKind::Slash,
            TokenKind::QuestionMark,
            TokenKind::Semicolon,
            TokenKind::Section,
            TokenKind::Ampersand,
        ]
    );
}

#[test]
fn half_an_operator_is_no_token() {
    assert_eq!(kinds("-"), Vec::<TokenKind>::new());
    assert_eq!(kinds("-x"), Vec::<TokenKind>::new());
    assert_eq!(kinds(":"), Vec::<TokenKind>::new());
    assert_eq!(kinds("=="), Vec::<TokenKind>::new());
    assert_eq!(kinds("~-"), Vec::<TokenKind>::new());
}

#[test]
fn an_unknown_character_is_no_token_and_is_passed_over() {
    let mut lexer = Lexer::new("$ a");
    assert!(lexer.next().is_none());
    assert!(matches!(lexer.next(), Some(Token::Ident(name)) if name == "a"));
    assert!(lexer.next().is_none());
}

#[test]
fn the_end_of_the_text_is_no_token() {
    assert!(Lexer::new("").next().is_none());
    assert!(Lexer::new("  \n\t ").next().is_none());
    assert!(Lexer::new("# only a comment").next().is_none());
}

#[test]
fn lexes_pairs_of_numbers_exactly() {
    let (x, y) = pair("0 1").unwrap();
    assert!(has_terms(&x, 0, 1));
    assert!(has_terms(&y, 1, 1));
    let (x, y) = pair("1.5 .25").unwrap();
    assert!(has_terms(&x, 15, 10));
    assert!(has_terms(&y, 25, 100));
    let (x, y) = pair("5. 03.10").unwrap();
    assert!(has_terms(&x, 5, 1));
    assert!(has_terms(&y, 310, 100));
    let (x, y) = pair("0.2\n\t0.8").unwrap();
    assert!(x.same_value(&Rational::from_ratio(1, 5).unwrap()));
    assert!(y.same_value(&Rational::from_ratio(4, 5).unwrap()));
}

#[test]
fn lexes_numbers_too_long_for_a_machine_word() {
    let (x, y) = pair("123456789012345678901234567890 0.000000000000000000001").unwrap();
    let big = Natural::from_u64(123456789012345)
        .mul(&Natural::from_u64(1_000_000_000_000_000))
        .add(&Natural::from_u64(678901234567890));
    assert!(x.numerator().equals(&Integer::from_natural(big)));
    assert!(x.denominator().equals(&Natural::from_u64(1)));
    assert!(y.numerator().equals(&Integer::from_i64(1)));
    let scale = Natural::from_u64(100_000_000_000).mul(&Natural::from_u64(10_000_000_000));
    assert!(y.denominator().equals(&scale));
}

#[test]
fn a_malformed_number_is_no_token() {
    assert!(pair("1.2.3 4").is_none());
    assert!(pair("1 2..3").is_none());
    assert!(pair(". 1").is_none());
    assert!(pair("12").is_none());
    assert!(pair("1,2").is_none());
    assert!(pair("1 x").is_none());
}

#[test]
fn a_malformed_number_is_read_to_its_end() {
    let mut lexer = Lexer::new("1.2.3 ;");
    assert!(lexer.next().is_none());
    assert!(matches!(lexer.next(), Some(Token::Semicolon)));
}

#[test]
fn parse_decimal_reads_digits_and_one_point() {
    let chars = |s: &str| s.chars().collect::<Vec<char>>();
    assert!(has_terms(&parse_decimal(&chars("42")).unwrap(), 42, 1));
    assert!(has_terms(&parse_decimal(&chars("4.25")).unwrap(), 425, 100));
    assert!(has_terms(&parse_decimal(&chars(".5")).unwrap(), 5, 10));
    assert!(has_terms(&parse_decimal(&chars("0007")).unwrap(), 7, 1));
    assert!(parse_decimal(&chars("")).is_none());
    assert!(parse_decimal(&chars(".")).is_none());
    assert!(parse_decimal(&chars("1..2")).is_none());
    assert!(parse_decimal(&chars("1a")).is_none());
    assert!(parse_decimal(&chars("-1")).is_none());
}

#[test]
fn lexes_names() {
    assert_eq!(ident("foo").unwrap(), "foo");
    assert_eq!(ident("foo_bar-baz qux").unwrap(), "foo_bar-baz");
    assert_eq!(ident("_x").unwrap(), "_x");
    assert_eq!(ident("a1").unwrap(), "a");
    assert_eq!(ident("\u{e9}t\u{e9}").unwrap(), "\u{e9}t\u{e9}");
    assert_eq!(ident("\u{6c34}").unwrap(), "\u{6c34}");
    assert_eq!(ident("a->b").unwrap(), "a-");
}

#[test]
fn a_quoted_name_is_no_token() {
    let mut lexer = Lexer::new("\"a\" b");
    assert!(lexer.next().is_none());
    assert!(matches!(lexer.next(), Some(Token::Ident(name)) if name == "a"));
}

#[test]
fn parse_ident_reads_the_empty_name_where_no_name_starts() {
    let mut lexer = Lexer::new("123");
    assert!(matches!(lexer.parse_ident(), Some(Token::Ident(name)) if name.is_empty()));
    assert!(matches!(lexer.next(), None));
}

#[test]
fn white_space_is_what_the_standard_library_takes_for_it() {
    let mut count = 0;
    for code in 0..=0x10ffffu32 {
        if let Some(c) = char::from_u32(code) {
            assert_eq!(is_space(c), c.is_whitespace(), "U+{:04X}", code);
            if is_space(c) {
                count += 1;
            }
        }
    }
    assert_eq!(count, 25);
}

#[test]
fn no_token_of_one_character_is_a_letter() {
    for c in [',', '+', '(', ')', '{', '}', '|', '/', '?', ';', '\u{a7}', '&'] {
        assert!(!c.is_alphabetic(), "{:?}", c);
        assert!(c != '"' && c != '_');
        let text = c.to_string();
        assert!(Lexer::new(&text).next().is_some(), "{:?}", c);
    }
}

#[test]
fn a_character_that_begins_no_token_is_passed_over() {
    for text in ["$", "!", "*", "\u{2764}", "%", "'"] {
        let mut lexer = Lexer::new(text);
        assert!(lexer.next().is_none());
        assert!(lexer.next().is_none());
    }
    let mut lexer = Lexer::new("%;");
    assert!(lexer.next().is_none());
    assert!(matches!(lexer.next(), Some(Token::Semicolon)));
}

#[test]
fn skips_white_space_of_every_kind() {
    assert_eq!(kinds(" \t\r\n\u{2003}\u{a0};"), vec![TokenKind::Semicolon]);
    let mut lexer = Lexer::new("   x");
    lexer.skip_whitespace();
    assert!(matches!(lexer.parse_ident(), Some(Token::Ident(name)) if name == "x"));
}

#[test]
fn skips_comments_to_the_end_of_the_line() {
    assert_eq!(kinds("# one\n  # two ; + \n ; # three"), vec![TokenKind::Semicolon]);
    assert_eq!(kinds("a # b\nc"), vec![TokenKind::Ident, TokenKind::Ident]);
    let mut lexer = Lexer::new("#x\n#y\nz");
    lexer.skip_comment();
    assert!(matches!(lexer.parse_ident(), Some(Token::Ident(name)) if name == "z"));
}

#[test]
fn a_comment_at_the_end_of_the_text_ends() {
    assert_eq!(kinds("a # no line end"), vec![TokenKind::Ident]);
}

#[test]
fn lexes_a_definition() {
    assert_eq!(
        kinds("\u{a7}a, b := 0 0 -> .5 1 ~> 1 1 | &[[c]] {d} ? := 0 0 => 1 1;"),
        vec![
            TokenKind::Section,
            TokenKind::Ident,
            TokenKind::Comma,
            TokenKind::Ident,
            TokenKind::Assign,
            TokenKind::ValuePair,
            TokenKind::Arrow,
            TokenKind::ValuePair,
            TokenKind::TildeArrow,
            TokenKind::ValuePair,
            TokenKind::Pipe,
            TokenKind::Ampersand,
            TokenKind::LWideBracket,
            TokenKind::Ident,
            TokenKind::RWideBracket,
            TokenKind::LCurly,
            TokenKind::Ident,
            TokenKind::RCurly,
            TokenKind::QuestionMark,
            TokenKind::Assign,
            TokenKind::ValuePair,
            TokenKind::WideArrow,
            TokenKind::ValuePair,
            TokenKind::Semicolon,
        ]
    );
}

#[test]
fn operator_function_reads_from_where_it_stands() {
    let mut lexer = Lexer::new("->=>");
    assert!(matches!(lexer.parse_nontrivial_operator(), Some(Token::Arrow)));
    assert!(matches!(lexer.parse_nontrivial_operator(), Some(Token::WideArrow)));
    assert!(lexer.parse_nontrivial_operator().is_none());
    let mut other = Lexer::new("x;");
    assert!(other.parse_nontrivial_operator().is_none());
    assert!(matches!(other.next(), Some(Token::Semicolon)));
}

#[test]
fn number_functions_read_from_where_they_stand() {
    let mut lexer = Lexer::new("1.5  2;");
    assert!(has_terms(&lexer.parse_number().unwrap(), 15, 10));
    assert!(lexer.parse_number().is_none());
    let mut pairs = Lexer::new("3 4 5");
    assert!(matches!(pairs.parse_value_pair(), Some(Token::ValuePair(_, _))));
    assert!(pairs.parse_value_pair().is_none());
}

#[test]
fn token_clone_keeps_what_it_holds() {
    let token = Lexer::new("1.5 2").next().unwrap();
    match token.clone() {
        Token::ValuePair(x, y) => {
            assert!(has_terms(&x, 15, 10));
            assert!(has_terms(&y, 2, 1));
        }
        other => panic!("not a pair of numbers: {:?}", other),
    }
    assert!(matches!(Token::Ident("ab".to_string()).clone(), Token::Ident(name) if name == "ab"));
}
