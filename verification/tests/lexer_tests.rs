use klc::lexer::{LexError, Lexer, LocData, Op, Symbol, TokenType};

fn kinds(src: &str) -> Vec<TokenType> {
    let mut lex = Lexer::new();
    lex.tokenize(src).expect("tokenizes");
    lex.tokens().iter().map(|t| t.kind).collect()
}

#[test]
fn declaration_tokens() {
    assert_eq!(
        kinds("let x = 5;"),
        vec![
            TokenType::KwLet,
            TokenType::VarIdent(Symbol(0)),
            TokenType::Op(Op::Asgn),
            TokenType::IntLit(5),
            TokenType::Semi,
        ]
    );
}

#[test]
fn keywords_and_type_names() {
    assert_eq!(
        kinds("if elif else while for fn return exit mut int float char bool string i32 u8 usize;"),
        vec![
            TokenType::KwIf,
            TokenType::KwElif,
            TokenType::KwElse,
            TokenType::KwWhile,
            TokenType::KwWhile,
            TokenType::KwFn,
            TokenType::KwReturn,
            TokenType::KwExit,
            TokenType::KwMut,
            TokenType::KwInt,
            TokenType::KwFloat,
            TokenType::KwChar,
            TokenType::KwBool,
            TokenType::KwString,
            TokenType::Ti32,
            TokenType::Tu8,
            TokenType::Tusize,
            TokenType::Semi,
        ]
    );
}

#[test]
fn operators_of_one_two_and_three_characters() {
    let ops: Vec<TokenType> = kinds("a ** b << c >= d != e && f || g **= h -> i;")
        .into_iter()
        .filter(|k| matches!(k, TokenType::Op(_)))
        .collect();
    assert_eq!(
        ops,
        vec![
            TokenType::Op(Op::Pwr),
            TokenType::Op(Op::Lsl),
            TokenType::Op(Op::Gte),
            TokenType::Op(Op::Neq),
            TokenType::Op(Op::LgAnd),
            TokenType::Op(Op::LgOr),
            TokenType::Op(Op::PwrAsgn),
            TokenType::Op(Op::ThinArrow),
        ]
    );
}

#[test]
fn unknown_operator_is_nop() {
    assert_eq!(
        kinds("x =- 1;"),
        vec![
            TokenType::VarIdent(Symbol(0)),
            TokenType::Op(Op::Nop),
            TokenType::IntLit(1),
            TokenType::Semi,
        ]
    );
}

#[test]
fn identifiers_are_interned_once() {
    let mut lex = Lexer::new();
    lex.tokenize("foo bar foo;").unwrap();
    let k: Vec<TokenType> = lex.tokens().iter().map(|t| t.kind).collect();
    assert_eq!(
        k,
        vec![
            TokenType::VarIdent(Symbol(0)),
            TokenType::VarIdent(Symbol(1)),
            TokenType::VarIdent(Symbol(0)),
            TokenType::Semi,
        ]
    );
    assert_eq!(lex.sym.get(Symbol(0)), Some("foo".to_string()));
    assert_eq!(lex.sym.get(Symbol(1)), Some("bar".to_string()));
    assert_eq!(lex.sym.get(Symbol(2)), None);
    assert!(lex.sym.contains(Symbol(1)));
    assert!(!lex.sym.contains(Symbol(2)));
}

#[test]
fn integer_literal_overflow_is_an_error() {
    let mut lex = Lexer::new();
    let r = lex.tokenize("let x = 999999999999999999999999999999999999999999;");
    assert_eq!(r, Err(LexError::IntLitOverflow));
}

#[test]
fn largest_integer_literal_is_accepted() {
    assert_eq!(
        kinds("170141183460469231731687303715884105727;"),
        vec![TokenType::IntLit(i128::MAX), TokenType::Semi]
    );
}

#[test]
fn locations_count_columns_from_two() {
    let mut lex = Lexer::new();
    lex.tokenize("x;").unwrap();
    let locs: Vec<LocData> = lex.tokens().iter().map(|t| t.loc).collect();
    assert_eq!(locs, vec![LocData { line: 1, col: 3 }, LocData { line: 1, col: 3 }]);
}

#[test]
fn newline_advances_the_line_but_not_the_column() {
    let mut lex = Lexer::new();
    lex.tokenize("a\nb;").unwrap();
    let locs: Vec<LocData> = lex.tokens().iter().map(|t| t.loc).collect();
    assert_eq!(
        locs,
        vec![
            LocData { line: 1, col: 3 },
            LocData { line: 2, col: 5 },
            LocData { line: 2, col: 5 },
        ]
    );
}

#[test]
fn trailing_word_without_delimiter_is_dropped() {
    assert_eq!(kinds("exit 5"), vec![TokenType::KwExit]);
}

#[test]
fn whitespace_and_newlines_make_no_tokens() {
    assert_eq!(kinds("  \n \n"), Vec::<TokenType>::new());
}

#[test]
fn delimiters() {
    assert_eq!(
        kinds("(){}[]:;,"),
        vec![
            TokenType::Lparen,
            TokenType::Rparen,
            TokenType::Lcurly,
            TokenType::Rcurly,
            TokenType::Lsquare,
            TokenType::Rsquare,
            TokenType::Colon,
            TokenType::Semi,
            TokenType::Comma,
        ]
    );
}

#[test]
fn char_to_token_maps_delimiters() {
    assert_eq!(TokenType::char_to_token(';'), TokenType::Semi);
    assert_eq!(TokenType::char_to_token('\n'), TokenType::NewLine);
    assert_eq!(TokenType::char_to_token(' '), TokenType::WhiteSpace);
    assert_eq!(TokenType::char_to_token(','), TokenType::Comma);
    assert!(TokenType::Op(Op::Add).is_op());
    assert!(!TokenType::Semi.is_op());
    assert!(TokenType::Ti64.is_type_token());
    assert!(!TokenType::KwInt.is_type_token());
}

#[test]
fn cursor_over_tokens() {
    use_cursor();
}

fn use_cursor() {
    let mut lex = Lexer::new();
    lex.tokenize("let x = 5;").unwrap();
    assert_eq!(klc::traits::Iter::peek(&lex).map(|t| t.kind), Some(TokenType::KwLet));
    assert!(klc::traits::Iter::peek_behind(&lex).is_none());
    assert_eq!(
        klc::traits::Iter::peek_ahead(&lex).map(|t| t.kind),
        Some(TokenType::VarIdent(Symbol(0)))
    );
    assert_eq!(
        klc::traits::Iter::next(&mut lex).map(|t| t.kind),
        Some(TokenType::VarIdent(Symbol(0)))
    );
    assert_eq!(klc::traits::Iter::peek_behind(&lex).map(|t| t.kind), Some(TokenType::KwLet));
    for _ in 0..3 {
        klc::traits::Iter::next(&mut lex);
    }
    assert_eq!(klc::traits::Iter::peek(&lex).map(|t| t.kind), Some(TokenType::Semi));
    assert!(klc::traits::Iter::next(&mut lex).is_none());
    assert!(klc::traits::Iter::peek(&lex).is_none());
    assert!(klc::traits::Iter::next(&mut lex).is_none());
}

#[test]
fn comma_separates_words() {
    assert_eq!(
        kinds("a,b;"),
        vec![TokenType::VarIdent(Symbol(0)), TokenType::Comma, TokenType::VarIdent(Symbol(1)), TokenType::Semi]
    );
}

#[test]
fn operator_text_reads_back() {
    let ops = [
        Op::Add, Op::Sub, Op::Mul, Op::Div, Op::Pwr, Op::Mod, Op::Lsl, Op::Lsr, Op::BwNot, Op::BwOr,
        Op::BwAnd, Op::BwXor, Op::LgNot, Op::LgOr, Op::LgAnd, Op::Asgn, Op::AddAsgn, Op::SubAsgn,
        Op::MulAsgn, Op::DivAsgn, Op::PwrAsgn, Op::ModAsgn, Op::AndAsgn, Op::OrAsgn, Op::XorAsgn,
        Op::LslAsgn, Op::LsrAsgn, Op::Eq, Op::Neq, Op::Lt, Op::Gt, Op::Lte, Op::Gte, Op::ThinArrow,
    ];
    assert_eq!(Op::LsrAsgn.symbol(), ">>=");
    for op in ops {
        let src = format!("a {} b;", op.symbol());
        let k = kinds(&src);
        assert_eq!(k[1], TokenType::Op(op), "{}", op.symbol());
    }
}

#[test]
fn classifying_a_word_interns_it() {
    let mut lex = Lexer::new();
    let loc = LocData { line: 1, col: 2 };
    let w = |s: &str| s.chars().collect::<Vec<char>>();
    assert_eq!(lex.classify_token(&w("foo"), loc).unwrap().kind, TokenType::VarIdent(Symbol(0)));
    assert_eq!(lex.classify_token(&w("bar"), loc).unwrap().kind, TokenType::VarIdent(Symbol(1)));
    assert_eq!(lex.classify_token(&w("foo"), loc).unwrap().kind, TokenType::VarIdent(Symbol(0)));
    assert_eq!(lex.sym.symbols, vec!["foo".to_string(), "bar".to_string()]);
    assert_eq!(lex.classify_token(&w("while"), loc).unwrap().kind, TokenType::KwWhile);
    assert_eq!(lex.classify_token(&w("42"), loc).unwrap().kind, TokenType::IntLit(42));
    assert_eq!(lex.sym.symbols.len(), 2);
}
