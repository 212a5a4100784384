use ven::token::{TokenKind, Tokenizer};

fn kinds(src: &str) -> Vec<TokenKind> {
    let mut t = Tokenizer::new(src);
    t.tokenize().iter().map(|k| k.kind).collect()
}

#[test]
fn tokenize_declaration_spans() {
    let mut t = Tokenizer::new("@ x i 5\n");
    let toks = t.tokenize().to_vec();
    let got: Vec<(TokenKind, usize, usize)> = toks.iter().map(|k| (k.kind, k.start, k.end)).collect();
    assert_eq!(
        got,
        vec![
            (TokenKind::At, 0, 1),
            (TokenKind::Unknown, 1, 2),
            (TokenKind::Identifier, 2, 3),
            (TokenKind::Unknown, 3, 4),
            (TokenKind::Identifier, 4, 5),
            (TokenKind::Unknown, 5, 6),
            (TokenKind::Identifier, 6, 7),
            (TokenKind::Newline, 7, 8),
        ]
    );
}

#[test]
fn tokenize_two_character_operators() {
    assert_eq!(
        kinds(">=<===!=&&||..>"),
        vec![
            TokenKind::GreaterEqual,
            TokenKind::LessEqual,
            TokenKind::Equal,
            TokenKind::NotEqual,
            TokenKind::And,
            TokenKind::Or,
            TokenKind::DoubleDot,
            TokenKind::Greater,
        ]
    );
}

#[test]
fn tokenize_lone_characters_fall_back() {
    assert_eq!(
        kinds("!&|.=<"),
        vec![
            TokenKind::Unknown,
            TokenKind::Unknown,
            TokenKind::Unknown,
            TokenKind::Unknown,
            TokenKind::Equals,
            TokenKind::LessThan,
        ]
    );
}

#[test]
fn tokenize_unterminated_string_stops_at_newline() {
    let mut t = Tokenizer::new("\"ab\ncd");
    let toks = t.tokenize().to_vec();
    assert_eq!(toks[0].kind, TokenKind::StringLiteral);
    assert_eq!((toks[0].start, toks[0].end), (0, 3));
    assert_eq!(toks[1].kind, TokenKind::Newline);
    assert_eq!(toks[2].kind, TokenKind::Identifier);
}

#[test]
fn tokenize_closed_string_and_comment() {
    let mut t = Tokenizer::new("\"a b\" ; note\n");
    let toks = t.tokenize().to_vec();
    assert_eq!((toks[0].kind, toks[0].start, toks[0].end), (TokenKind::StringLiteral, 0, 5));
    assert_eq!((toks[2].kind, toks[2].start, toks[2].end), (TokenKind::Comment, 6, 12));
    assert_eq!(toks[3].kind, TokenKind::Newline);
}

#[test]
fn tokenize_brackets_and_arithmetic() {
    assert_eq!(
        kinds("{}[]()?+-*/_a1"),
        vec![
            TokenKind::LCurlyB,
            TokenKind::RCurlyB,
            TokenKind::LBigB,
            TokenKind::RBigB,
            TokenKind::LSmallB,
            TokenKind::RSmallB,
            TokenKind::Question,
            TokenKind::Plus,
            TokenKind::Minus,
            TokenKind::Star,
            TokenKind::Slash,
            TokenKind::Identifier,
        ]
    );
}

#[test]
fn tokenize_counts_characters_not_bytes() {
    let mut t = Tokenizer::new("é>");
    let toks = t.tokenize().to_vec();
    assert_eq!((toks[0].kind, toks[0].start, toks[0].end), (TokenKind::Unknown, 0, 1));
    assert_eq!((toks[1].kind, toks[1].start, toks[1].end), (TokenKind::Greater, 1, 2));
    assert_eq!(t.input.len(), 2);
}

#[test]
fn tokenize_empty_input() {
    assert!(kinds("").is_empty());
}
