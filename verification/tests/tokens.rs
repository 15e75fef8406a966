use flipvm::token::Token;

#[test]
fn illegal() {
    assert_eq!(Token::from(b' '), Token::Illegal);
}

#[test]
fn eof() {
    assert_eq!(Token::from(0), Token::Eof);
}

#[test]
fn newline() {
    assert_eq!(Token::from(b'\n'), Token::Newline);
}

#[test]
fn equal() {
    assert_eq!(Token::from((b'=', b'=')), Token::Equal);
}

#[test]
fn not_equal() {
    assert_eq!(Token::from((b'!', b'=')), Token::NotEqual);
}

#[test]
fn plus() {
    assert_eq!(Token::from(b'+'), Token::Plus);
}

#[test]
fn minus() {
    assert_eq!(Token::from(b'-'), Token::Minus);
}

#[test]
fn asterisk() {
    assert_eq!(Token::from(b'*'), Token::Asterisk);
}

#[test]
fn forward_slash() {
    assert_eq!(Token::from(b'/'), Token::ForwardSlash);
}

#[test]
fn lesser_than() {
    assert_eq!(Token::from(b'<'), Token::LessThan);
}

#[test]
fn lesser_than_equal() {
    assert_eq!(Token::from((b'<', b'=')), Token::LessThanEqual);
}

#[test]
fn greater_than() {
    assert_eq!(Token::from(b'>'), Token::GreaterThan);
}

#[test]
fn greater_than_equal() {
    assert_eq!(Token::from((b'>', b'=')), Token::GreaterThanEqual);
}

#[test]
fn left_paren() {
    assert_eq!(Token::from(b'('), Token::LParen);
}

#[test]
fn right_paren() {
    assert_eq!(Token::from(b')'), Token::RParen);
}

#[test]
fn left_brace() {
    assert_eq!(Token::from(b'{'), Token::LBrace);
}

#[test]
fn right_brace() {
    assert_eq!(Token::from(b'}'), Token::RBrace);
}

#[test]
fn comma() {
    assert_eq!(Token::from(b','), Token::Comma);
}

#[test]
fn semi_colon() {
    assert_eq!(Token::from(b';'), Token::SemiColon);
}

#[test]
fn ident() {
    assert_eq!(Token::from(String::from("let")), Token::Let);
    assert_eq!(Token::from(String::from("if")), Token::If);
    assert_eq!(Token::from(String::from("else")), Token::Else);
    assert_eq!(Token::from(String::from("while")), Token::While);
    assert_eq!(Token::from(String::from("return")), Token::Return);
    assert_eq!(
        Token::from(String::from("foobar")),
        Token::Ident(String::from("foobar"))
    );
}

#[test]
fn char_token_display() {
    assert_eq!(Token::Char('x').to_display_string(), "Char(x)");
    assert_eq!(Token::Char('\u{e9}').to_display_string(), "Char(\u{e9})");
}
