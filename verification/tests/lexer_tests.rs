use calc::lexer::{tokenise, Lexer, LexerErr};
use calc::token::Token;

#[test]
fn tokenise_valid_operators() {
    assert_eq!(tokenise("+"), Ok(vec![Token::Plus(0), Token::Eof(1)]));
    assert_eq!(tokenise("-"), Ok(vec![Token::Minus(0), Token::Eof(1)]));
    assert_eq!(tokenise("*"), Ok(vec![Token::Mul(0), Token::Eof(1)]));
    assert_eq!(tokenise("/"), Ok(vec![Token::Div(0), Token::Eof(1)]));
    assert_eq!(tokenise("%"), Ok(vec![Token::Mod(0), Token::Eof(1)]));
    assert_eq!(tokenise("^"), Ok(vec![Token::Xor(0), Token::Eof(1)]));
}

#[test]
fn tokenise_valid_delimiters() {
    assert_eq!(tokenise("("), Ok(vec![Token::Lparen(0), Token::Eof(1)]));
    assert_eq!(tokenise(")"), Ok(vec![Token::Rparen(0), Token::Eof(1)]));
    assert_eq!(tokenise(","), Ok(vec![Token::Comma(0), Token::Eof(1)]));
}

#[test]
fn tokenise_valid_integer() {
    assert_eq!(
        tokenise("23"),
        Ok(vec![Token::Int("23".to_string(), 10, 0), Token::Eof(2)])
    );
    assert_eq!(
        tokenise("0023"),
        Ok(vec![Token::Int("0023".to_string(), 10, 0), Token::Eof(4)])
    );
    assert_eq!(
        tokenise("0230"),
        Ok(vec![Token::Int("0230".to_string(), 10, 0), Token::Eof(4)])
    );
}

#[test]
fn tokenise_valid_float() {
    assert_eq!(
        tokenise("23.5"),
        Ok(vec![Token::Float("23.5".to_string(), 0), Token::Eof(4)])
    );
    assert_eq!(
        tokenise("23.500"),
        Ok(vec![Token::Float("23.500".to_string(), 0), Token::Eof(6)])
    );
    assert_eq!(
        tokenise("0.05"),
        Ok(vec![Token::Float("0.05".to_string(), 0), Token::Eof(4)])
    );
}

#[test]
fn tokenise_valid_scientific_format() {
    assert_eq!(
        tokenise("5e10"),
        Ok(vec![Token::Float("5e10".to_string(), 0), Token::Eof(4)])
    );
    assert_eq!(
        tokenise("20.0E3"),
        Ok(vec![Token::Float("20.0E3".to_string(), 0), Token::Eof(6)])
    );
    assert_eq!(
        tokenise("5e+1"),
        Ok(vec![Token::Float("5e+1".to_string(), 0), Token::Eof(4)])
    );
    assert_eq!(
        tokenise("5e-10"),
        Ok(vec![Token::Float("5e-10".to_string(), 0), Token::Eof(5)])
    );
}

#[test]
fn tokenise_every_single_operator_token() {
    assert_eq!(tokenise("**"), Ok(vec![Token::Pow(0), Token::Eof(2)]));
    assert_eq!(tokenise("&"), Ok(vec![Token::And(0), Token::Eof(1)]));
    assert_eq!(tokenise("|"), Ok(vec![Token::Or(0), Token::Eof(1)]));
    assert_eq!(tokenise("~"), Ok(vec![Token::Not(0), Token::Eof(1)]));
}

#[test]
fn tokenise_radix_prefixed_integers() {
    assert_eq!(
        tokenise("0x1F"),
        Ok(vec![Token::Int("1F".to_string(), 16, 0), Token::Eof(4)])
    );
    assert_eq!(
        tokenise("0b101"),
        Ok(vec![Token::Int("101".to_string(), 2, 0), Token::Eof(5)])
    );
    assert_eq!(
        tokenise("0o17"),
        Ok(vec![Token::Int("17".to_string(), 8, 0), Token::Eof(4)])
    );
    assert_eq!(tokenise("0x"), Err(LexerErr::InvalidValue(0)));
    assert_eq!(tokenise("0bz"), Err(LexerErr::InvalidValue(0)));
}

#[test]
fn tokenise_names_and_spaces() {
    assert_eq!(
        tokenise("  foo "),
        Ok(vec![Token::Name("foo".to_string(), 2), Token::Eof(6)])
    );
    assert_eq!(
        tokenise("a b"),
        Ok(vec![
            Token::Name("a".to_string(), 0),
            Token::Name("b".to_string(), 2),
            Token::Eof(3)
        ])
    );
}

#[test]
fn tokenise_illegal_character() {
    assert_eq!(tokenise("$"), Err(LexerErr::IllegalChar('$', 0)));
    assert_eq!(tokenise("2 + #"), Err(LexerErr::IllegalChar('#', 4)));
}

#[test]
fn peek_and_next_agree() {
    let mut lexer = Lexer::new("1+2");
    let peeked = lexer.peek_token();
    let peeked_again = lexer.peek_token();
    assert_eq!(peeked, peeked_again);
    let next = lexer.next_token();
    assert_eq!(peeked, next);
    assert_eq!(lexer.next_token(), Ok(Token::Plus(1)));
    assert_eq!(
        lexer.next_token(),
        Ok(Token::Int("2".to_string(), 10, 2))
    );
    assert_eq!(lexer.next_token(), Ok(Token::Eof(3)));
}

#[test]
fn float_lexing_edge_shapes() {
    // a digit run followed by a bare exponent marker still lexes as a
    // float token; it fails only at numeric conversion
    assert_eq!(
        tokenise("5e"),
        Ok(vec![Token::Float("5e".to_string(), 0), Token::Eof(2)])
    );
    assert_eq!(
        tokenise("2."),
        Ok(vec![Token::Float("2.".to_string(), 0), Token::Eof(2)])
    );
}
