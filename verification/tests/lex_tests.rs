use smol::lex::Lexer;
use smol::lex::Token;
use smol::lex::TokenKind;
use smol::lex::TokenKind::Assign;
use smol::lex::TokenKind::Div;
use smol::lex::TokenKind::Error;
use smol::lex::TokenKind::Id;
use smol::lex::TokenKind::If;
use smol::lex::TokenKind::LBrace;
use smol::lex::TokenKind::Lt;
use smol::lex::TokenKind::Minus;
use smol::lex::TokenKind::Mul;
use smol::lex::TokenKind::Num;
use smol::lex::TokenKind::Plus;
use smol::lex::TokenKind::Print;
use smol::lex::TokenKind::RBrace;
use smol::lex::TokenKind::Read;
use smol::lex::get_tokens;

// SECTION: helpers

// Create an id token
fn id(text: &str) -> Token {
    Token { kind: Id, text }
}

// Create a num token
fn num(text: &str) -> Token {
    Token { kind: Num, text }
}

// Create an error token
fn error(text: &str) -> Token {
    Token { kind: Error, text }
}

// Create a token with only one lexeme (anything except id, num, error).
fn t(kind: TokenKind) -> Token<'static> {
    Token {
        kind,
        text: match kind {
            Id | Num | Error => unreachable!(),
            Assign => ":=",
            Print => "$print",
            Read => "$read",
            If => "$if",
            LBrace => "{",
            RBrace => "}",
            Plus => "+",
            Minus => "-",
            Mul => "*",
            Div => "/",
            Lt => "<",
        },
    }
}

// SECTION: tests

#[test]
fn skip_whitespace() {
    let mut lexer = Lexer::new("foo");
    lexer.skip_whitespace();
    assert_eq!(lexer.pos, 0);
    let mut lexer = Lexer::new(" \n\t  foo");
    lexer.skip_whitespace();
    assert_eq!(lexer.pos, 5);
    let mut lexer = Lexer::new(" // stuff\n\t  foo ");
    lexer.skip_whitespace();
    assert_eq!(lexer.pos, 13);
}

#[test]
fn empty() {
    assert_eq!(get_tokens(""), vec![]);
    assert_eq!(get_tokens("  \n//hello\n"), vec![]);
    assert_eq!(get_tokens("  \n//hi"), vec![]);
}

#[test]
fn single_token() {
    let tests = [
        ("x", vec![id("x")]),
        ("print", vec![id("print")]),
        ("if", vec![id("if")]),
        ("yolo", vec![id("yolo")]),
        ("3", vec![num("3")]),
        ("0345678910", vec![num("0345678910")]),
        ("%", vec![error("%")]),
        (":=", vec![t(Assign)]),
        ("$print", vec![t(Print)]),
        ("$read", vec![t(Read)]),
        ("$if", vec![t(If)]),
        ("{", vec![t(LBrace)]),
        ("}", vec![t(RBrace)]),
        ("+", vec![t(Plus)]),
        ("-", vec![t(Minus)]),
        ("*", vec![t(Mul)]),
        ("/", vec![t(Div)]),
        ("<", vec![t(Lt)]),
    ];

    for (input, expected) in tests {
        assert_eq!(
            get_tokens(input),
            expected,
            "the lexer produced the wrong results for the input {input:?}"
        )
    }
}

#[test]
fn multi_token() {
    assert_eq!(
        get_tokens("x$print$read$if{}+0-*$/<"),
        vec![
            id("x"),
            t(Print),
            t(Read),
            t(If),
            t(LBrace),
            t(RBrace),
            t(Plus),
            num("0"),
            t(Minus),
            t(Mul),
            error("$"),
            t(Div),
            t(Lt),
        ]
    );
    assert_eq!(
        get_tokens("x yz $print $read $if { } +  0   -  //hi\n * $ read / < "),
        vec![
            id("x"),
            id("yz"),
            t(Print),
            t(Read),
            t(If),
            t(LBrace),
            t(RBrace),
            t(Plus),
            num("0"),
            t(Minus),
            t(Mul),
            error("$"),
            id("read"),
            t(Div),
            t(Lt),
        ]
    );
}

#[test]
fn end_of_input_tracks_position() {
    let mut lexer = Lexer::new("a b");
    assert!(!lexer.end_of_input());
    assert!(lexer.next().is_some());
    assert!(lexer.next().is_some());
    assert!(lexer.next().is_none());
    assert!(lexer.end_of_input());
}

#[test]
fn keyword_prefix_is_split() {
    // "$printx" lexes as the $print keyword followed by an identifier.
    assert_eq!(get_tokens("$printx"), vec![t(Print), id("x")]);
    // "$reader" lexes as the $read keyword followed by an identifier.
    assert_eq!(get_tokens("$reader"), vec![t(Read), id("er")]);
}

#[test]
fn comment_runs_to_end_of_line() {
    assert_eq!(get_tokens("a//b\nc"), vec![id("a"), id("c")]);
    assert_eq!(get_tokens("a//b c d"), vec![id("a")]);
    // A single slash is the division token, not a comment.
    assert_eq!(get_tokens("a/b"), vec![id("a"), t(Div), id("b")]);
}
