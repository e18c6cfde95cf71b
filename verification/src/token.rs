//! Lexical units of the expression language. Every token carries the
//! character offset at which it starts.

use vstd::prelude::*;

verus! {

/// A lexical token. Integer literals carry their digit text (without any
/// radix prefix) and their radix; float literals and names carry their text.
#[derive(Debug, PartialEq)]
pub enum Token {
    Int(String, u32, usize),
    Float(String, usize),
    Name(String, usize),
    Plus(usize),
    Minus(usize),
    Mul(usize),
    Div(usize),
    Mod(usize),
    Pow(usize),
    And(usize),
    Or(usize),
    Xor(usize),
    Not(usize),
    Lparen(usize),
    Rparen(usize),
    Comma(usize),
    Eof(usize),
}

/// The mathematical shape of a token: its texts as character sequences,
/// its offsets as unbounded integers.
pub enum TokenView {
    Int(Seq<char>, u32, int),
    Float(Seq<char>, int),
    Name(Seq<char>, int),
    Plus(int),
    Minus(int),
    Mul(int),
    Div(int),
    Mod(int),
    Pow(int),
    And(int),
    Or(int),
    Xor(int),
    Not(int),
    Lparen(int),
    Rparen(int),
    Comma(int),
    Eof(int),
}

impl View for Token {
    type V = TokenView;

    open spec fn view(&self) -> TokenView {
        match *self {
            Token::Int(ref s, r, o) => TokenView::Int(s@, r, o as int),
            Token::Float(ref s, o) => TokenView::Float(s@, o as int),
            Token::Name(ref s, o) => TokenView::Name(s@, o as int),
            Token::Plus(o) => TokenView::Plus(o as int),
            Token::Minus(o) => TokenView::Minus(o as int),
            Token::Mul(o) => TokenView::Mul(o as int),
            Token::Div(o) => TokenView::Div(o as int),
            Token::Mod(o) => TokenView::Mod(o as int),
            Token::Pow(o) => TokenView::Pow(o as int),
            Token::And(o) => TokenView::And(o as int),
            Token::Or(o) => TokenView::Or(o as int),
            Token::Xor(o) => TokenView::Xor(o as int),
            Token::Not(o) => TokenView::Not(o as int),
            Token::Lparen(o) => TokenView::Lparen(o as int),
            Token::Rparen(o) => TokenView::Rparen(o as int),
            Token::Comma(o) => TokenView::Comma(o as int),
            Token::Eof(o) => TokenView::Eof(o as int),
        }
    }
}

} // verus!
