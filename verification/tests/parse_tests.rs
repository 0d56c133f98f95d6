use smol::lex::TokenKind;
use smol::parse::Parser;

#[test]
fn parser_reverses_token_stream() {
    let p = Parser::new("x := 3");
    assert_eq!(p.tokens.len(), 3);
    // tokens are held in reverse, so the last element is the first token
    assert_eq!(p.tokens[2].kind, TokenKind::Id);
    assert_eq!(p.tokens[2].text, "x");
    assert_eq!(p.tokens[1].kind, TokenKind::Assign);
    assert_eq!(p.tokens[0].kind, TokenKind::Num);
    assert_eq!(p.tokens[0].text, "3");
}

#[test]
fn peek_does_not_consume() {
    let p = Parser::new("x");
    let t1 = p.peek().unwrap();
    let t2 = p.peek().unwrap();
    assert_eq!(t1, t2);
    assert_eq!(t1.text, "x");
}

#[test]
fn next_consumes_in_order() {
    let mut p = Parser::new("x + 1");
    assert_eq!(p.next().unwrap().text, "x");
    assert_eq!(p.next().unwrap().text, "+");
    assert_eq!(p.next().unwrap().text, "1");
    let err = p.next().unwrap_err();
    assert_eq!(err.message(), "Unexpected end of input.");
}

#[test]
fn next_is_checks_the_head() {
    let p = Parser::new("{ }");
    assert!(p.next_is(TokenKind::LBrace));
    assert!(!p.next_is(TokenKind::RBrace));
    let empty = Parser::new("");
    assert!(!empty.next_is(TokenKind::LBrace));
}

#[test]
fn eat_accepts_the_expected_kind() {
    let p = Parser::new(":= x");
    assert!(p.eat(TokenKind::Assign).is_ok());
}

#[test]
fn eat_reports_the_found_token() {
    let p = Parser::new("x");
    let err = p.eat(TokenKind::Plus).unwrap_err();
    assert_eq!(
        err.message(),
        "Expected a token with kind +, found a token with kind id and text `x`."
    );
}

#[test]
fn eat_reports_end_of_input() {
    let p = Parser::new("  // nothing here\n");
    let err = p.eat(TokenKind::Print).unwrap_err();
    assert_eq!(err.message(), "Expected a token with kind $print but reached the end of input.");
}
