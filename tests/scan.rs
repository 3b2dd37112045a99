use blossom::interner::Interner;
use blossom::token::{parse, transition, Class, Kind, Lexeme, ScanState, Token};

fn text(interner: &Interner, sym: u32) -> String {
    interner.resolve(sym).expect("symbol has a string").to_string()
}

fn kinds(tokens: &[Token]) -> Vec<Kind> {
    tokens.iter().map(|t| t.kind).collect()
}

#[test]
fn intern_then_resolve_gives_string_back() {
    let mut interner = Interner::new();
    let a = interner.intern("abc");
    let b = interner.intern("xyz");
    let a2 = interner.intern("abc");
    assert_eq!(a, a2);
    assert_ne!(a, b);
    assert_eq!(interner.resolve(a), Some("abc"));
    assert_eq!(interner.resolve(b), Some("xyz"));
    assert_eq!(interner.resolve(7), None);
    assert_eq!(interner.resolve(u32::MAX), None);
}

#[test]
fn empty_string_interns() {
    let mut interner = Interner::new();
    let e = interner.intern("");
    assert_eq!(interner.resolve(e), Some(""));
    assert_eq!(interner.intern(""), e);
}

#[test]
fn scan_one_plus_two() {
    let (tokens, interner) = parse("1+2");
    assert_eq!(tokens.len(), 3);
    match (tokens[0].kind, tokens[1].kind, tokens[2].kind) {
        (Kind::Number(a), Kind::Plus, Kind::Number(b)) => {
            assert_eq!(text(&interner, a), "1");
            assert_eq!(text(&interner, b), "2");
        }
        other => panic!("unexpected tokens {:?}", other),
    }
    assert_eq!(tokens[0].span, (0, 1));
    assert_eq!(tokens[1].span, (1, 2));
    assert_eq!(tokens[2].span, (2, 3));
}

#[test]
fn scan_unknown_character() {
    let (tokens, interner) = parse("@");
    assert_eq!(tokens.len(), 1);
    match tokens[0].kind {
        Kind::Unknown(s) => assert_eq!(text(&interner, s), "@"),
        other => panic!("unexpected token {:?}", other),
    }
    assert_eq!(tokens[0].span, (0, 1));
}

#[test]
fn scan_empty_and_blank_input() {
    assert!(parse("").0.is_empty());
    assert!(parse("   \n\t ").0.is_empty());
    assert!(parse("; only a comment").0.is_empty());
}

#[test]
fn scan_keywords() {
    let (tokens, _) = parse("if else for in import and or not return break continue loop external");
    assert_eq!(
        kinds(&tokens),
        vec![
            Kind::If,
            Kind::Else,
            Kind::For,
            Kind::In,
            Kind::Import,
            Kind::And,
            Kind::Or,
            Kind::Not,
            Kind::Return,
            Kind::Break,
            Kind::Continue,
            Kind::Loop,
            Kind::External,
        ]
    );
}

#[test]
fn scan_identifiers_share_symbols() {
    let (tokens, interner) = parse("foo _bar foo iffy");
    assert_eq!(tokens.len(), 4);
    let syms: Vec<u32> = tokens
        .iter()
        .map(|t| match t.kind {
            Kind::Identifier(s) => s,
            other => panic!("unexpected token {:?}", other),
        })
        .collect();
    assert_eq!(syms[0], syms[2]);
    assert_ne!(syms[0], syms[1]);
    assert_eq!(text(&interner, syms[1]), "_bar");
    assert_eq!(text(&interner, syms[3]), "iffy");
}

#[test]
fn scan_operators() {
    let (tokens, _) = parse("+ - * / < > = <= >= == := :: -> , .");
    assert_eq!(
        kinds(&tokens),
        vec![
            Kind::Plus,
            Kind::Minus,
            Kind::Multiply,
            Kind::Divide,
            Kind::LessThan,
            Kind::GreaterThan,
            Kind::Equal,
            Kind::LessThanOrEqual,
            Kind::GreaterThanOrEqual,
            Kind::EqualEqual,
            Kind::ColonEqual,
            Kind::ColonColon,
            Kind::Arrow,
            Kind::Comma,
            Kind::Dot,
        ]
    );
}

#[test]
fn scan_unmatched_operator_run_is_unknown() {
    let (tokens, interner) = parse("a =< b");
    assert_eq!(tokens.len(), 3);
    match tokens[1].kind {
        Kind::Unknown(s) => assert_eq!(text(&interner, s), "=<"),
        other => panic!("unexpected token {:?}", other),
    }
    assert_eq!(tokens[1].span, (2, 4));
}

#[test]
fn scan_bang_equal_splits() {
    let (tokens, interner) = parse("a!=b");
    assert_eq!(tokens.len(), 4);
    match tokens[1].kind {
        Kind::Unknown(s) => assert_eq!(text(&interner, s), "!"),
        other => panic!("unexpected token {:?}", other),
    }
    assert_eq!(tokens[2].kind, Kind::Equal);
}

#[test]
fn scan_delimiters() {
    let (tokens, _) = parse("()[]{}");
    assert_eq!(
        kinds(&tokens),
        vec![
            Kind::LParen,
            Kind::RParen,
            Kind::LBracket,
            Kind::RBracket,
            Kind::LBrace,
            Kind::RBrace,
        ]
    );
    for (k, t) in tokens.iter().enumerate() {
        assert_eq!(t.span, (k, k + 1));
    }
}

#[test]
fn scan_decimal_numbers() {
    let (tokens, interner) = parse("3.14 7. 1.2.3");
    let texts: Vec<(String, (usize, usize))> = tokens
        .iter()
        .map(|t| match t.kind {
            Kind::Number(s) => (text(&interner, s), t.span),
            Kind::Dot => (".".to_string(), t.span),
            other => panic!("unexpected token {:?}", other),
        })
        .collect();
    assert_eq!(
        texts,
        vec![
            ("3.14".to_string(), (0, 4)),
            ("7.".to_string(), (5, 7)),
            ("1.2".to_string(), (8, 11)),
            (".".to_string(), (11, 12)),
            ("3".to_string(), (12, 13)),
        ]
    );
}

#[test]
fn scan_text_keeps_quotes() {
    let (tokens, interner) = parse("\"hi there\" x");
    assert_eq!(tokens.len(), 2);
    match tokens[0].kind {
        Kind::Text(s) => assert_eq!(text(&interner, s), "\"hi there\""),
        other => panic!("unexpected token {:?}", other),
    }
    assert_eq!(tokens[0].span, (0, 10));
    assert_eq!(tokens[1].span, (11, 12));
}

#[test]
fn scan_unterminated_text_runs_to_end() {
    let (tokens, interner) = parse("\"open");
    assert_eq!(tokens.len(), 1);
    match tokens[0].kind {
        Kind::Text(s) => assert_eq!(text(&interner, s), "\"open"),
        other => panic!("unexpected token {:?}", other),
    }
}

#[test]
fn scan_comment_ends_at_newline() {
    let (tokens, interner) = parse("a ; comment\n b");
    assert_eq!(tokens.len(), 2);
    assert_eq!(tokens[0].span, (0, 1));
    assert_eq!(tokens[1].span, (13, 14));
    match tokens[1].kind {
        Kind::Identifier(s) => assert_eq!(text(&interner, s), "b"),
        other => panic!("unexpected token {:?}", other),
    }
}

#[test]
fn scan_unknown_run_stops_at_whitespace_and_classes() {
    let (tokens, interner) = parse("@# $x");
    assert_eq!(tokens.len(), 3);
    match (tokens[0].kind, tokens[1].kind, tokens[2].kind) {
        (Kind::Unknown(a), Kind::Unknown(b), Kind::Identifier(c)) => {
            assert_eq!(text(&interner, a), "@#");
            assert_eq!(text(&interner, b), "$");
            assert_eq!(text(&interner, c), "x");
        }
        other => panic!("unexpected tokens {:?}", other),
    }
}

#[test]
fn scan_spans_tile_input() {
    let src = "res := 3*if x >10 { return x} else { return 0 } + 2 ; done\n  \"s\"";
    let (tokens, _) = parse(src);
    let chars: Vec<char> = src.chars().collect();
    let mut covered = vec![false; chars.len()];
    let mut last_end = 0;
    for t in &tokens {
        assert!(t.span.0 < t.span.1);
        assert!(last_end <= t.span.0);
        last_end = t.span.1;
        for p in t.span.0..t.span.1 {
            covered[p] = true;
        }
    }
    let comment_start = src.find(';').unwrap();
    let comment_end = src.find('\n').unwrap();
    for (p, c) in chars.iter().enumerate() {
        if !covered[p] {
            assert!(c.is_whitespace() || (comment_start <= p && p <= comment_end), "gap at {}", p);
        }
    }
}

#[test]
fn scan_spans_are_byte_offsets() {
    let (tokens, interner) = parse("é + ß");
    assert_eq!(tokens.len(), 3);
    match (tokens[0].kind, tokens[1].kind, tokens[2].kind) {
        (Kind::Identifier(a), Kind::Plus, Kind::Identifier(b)) => {
            assert_eq!(text(&interner, a), "é");
            assert_eq!(text(&interner, b), "ß");
        }
        other => panic!("unexpected tokens {:?}", other),
    }
    assert_eq!(tokens[0].span, (0, 2));
    assert_eq!(tokens[1].span, (3, 4));
    assert_eq!(tokens[2].span, (5, 7));
}

#[test]
fn scan_non_ascii_unknown_run() {
    let (tokens, interner) = parse("a→b");
    assert_eq!(tokens.len(), 3);
    match tokens[1].kind {
        Kind::Unknown(s) => assert_eq!(text(&interner, s), "→"),
        other => panic!("unexpected token {:?}", other),
    }
    assert_eq!(tokens[1].span, (1, 4));
    assert_eq!(tokens[2].span, (4, 5));
}

#[test]
fn transition_moves_by_class() {
    assert_eq!(transition(ScanState::Start, ' ', 3, true, false, false), (ScanState::Start, 4, None));
    assert_eq!(transition(ScanState::Start, 'a', 3, false, true, false), (ScanState::InIdentifier(3), 4, None));
    assert_eq!(transition(ScanState::Start, '_', 3, false, false, false), (ScanState::InIdentifier(3), 4, None));
    assert_eq!(transition(ScanState::Start, '7', 3, false, false, true), (ScanState::InNumber(3), 4, None));
    assert_eq!(transition(ScanState::Start, ':', 3, false, false, false), (ScanState::InOperator(3), 4, None));
    assert_eq!(
        transition(ScanState::Start, '{', 3, false, false, false),
        (ScanState::Start, 4, Some(Lexeme { class: Class::Delimiter, start: 3, end: 4 }))
    );
    assert_eq!(transition(ScanState::Start, '"', 3, false, false, false), (ScanState::InText(3), 4, None));
    assert_eq!(transition(ScanState::Start, ';', 3, false, false, false), (ScanState::InComment(3), 4, None));
    assert_eq!(transition(ScanState::Start, '@', 3, false, false, false), (ScanState::InUnknown(3), 4, None));
    assert_eq!(transition(ScanState::InNumber(1), '.', 3, false, false, false), (ScanState::InDecimal(1), 4, None));
    assert_eq!(
        transition(ScanState::InDecimal(1), '.', 3, false, false, false),
        (ScanState::Start, 3, Some(Lexeme { class: Class::Number, start: 1, end: 3 }))
    );
    assert_eq!(transition(ScanState::InComment(1), '\n', 3, true, false, false), (ScanState::Start, 4, None));
    assert_eq!(transition(ScanState::InComment(1), 'x', 3, false, true, false), (ScanState::InComment(1), 4, None));
    assert_eq!(
        transition(ScanState::InUnknown(1), ' ', 3, true, false, false),
        (ScanState::Start, 3, Some(Lexeme { class: Class::Unknown, start: 1, end: 3 }))
    );
    assert_eq!(transition(ScanState::InOperator(1), '=', 3, false, false, false), (ScanState::InOperator(1), 4, None));
}

#[test]
fn scan_semicolon_inside_text_is_no_comment() {
    let (tokens, interner) = parse("\";\"x");
    assert_eq!(tokens.len(), 2);
    match (tokens[0].kind, tokens[1].kind) {
        (Kind::Text(a), Kind::Identifier(b)) => {
            assert_eq!(text(&interner, a), "\";\"");
            assert_eq!(text(&interner, b), "x");
        }
        other => panic!("unexpected tokens {:?}", other),
    }
    assert_eq!(tokens[1].span, (3, 4));
}

#[test]
fn scan_unicode_whitespace_separates() {
    let (tokens, _) = parse("a\u{3000}b\u{a0}c\u{2028}1");
    assert_eq!(tokens.len(), 4);
    assert_eq!(tokens[1].span, (4, 5));
    assert_eq!(tokens[2].span, (7, 8));
    assert_eq!(tokens[3].span, (11, 12));
}

#[test]
fn scan_underscore_continues_unknown_run() {
    let (tokens, interner) = parse("@_x");
    assert_eq!(tokens.len(), 2);
    match (tokens[0].kind, tokens[1].kind) {
        (Kind::Unknown(a), Kind::Identifier(b)) => {
            assert_eq!(text(&interner, a), "@_");
            assert_eq!(text(&interner, b), "x");
        }
        other => panic!("unexpected tokens {:?}", other),
    }
    assert_eq!(tokens[0].span, (0, 2));
    assert_eq!(tokens[1].span, (2, 3));
    assert_eq!(
        transition(ScanState::InUnknown(0), '_', 1, false, false, false),
        (ScanState::InUnknown(0), 2, None)
    );
}
