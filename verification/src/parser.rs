//! Precedence-climbing parser: consumes tokens through the lexer's
//! peek/consume contract and builds an expression tree.
//!
//! The parser's meaning is given by the `spec_parse_*` functions, which map
//! the expression text and a position to the parsed expression view and the
//! position after it. They mirror the grammar: a prefix/primary term first,
//! then binary operators folded in as long as their left binding power
//! reaches the floor the caller set. Each recursive step stands behind a
//! progress guard (`pos < next <= s.len()`); the verified parser shows the
//! guards always pass.

use crate::fbits::float_of_text;
use crate::fbits::parse_float_text;
use crate::lexer::{
    is_dec_digit, lemma_read_token_progress, spec_read_token, Lexer, LexerErr,
};
use crate::nodes::{
    atom_view, exprs_view_seq, Atom, AtomView, BinOp, Expr, ExprView, UnOp,
};
use crate::token::{Token, TokenView};
use vstd::prelude::*;

verus! {

/// A parse failure: a token out of place, a literal whose text does not
/// convert to a number, an expression nested deeper than the parser
/// accepts, or a lexical failure met while reading tokens.
#[derive(Debug, Clone, Copy, PartialEq)]
pub enum ParserErr {
    SyntaxError,
    ParseIntError,
    ParseFloatError,
    NestingTooDeep,
    LexerErr(LexerErr),
}

/// The deepest expression nesting the parser accepts; deeper input is
/// rejected with `NestingTooDeep` rather than exhausting the call stack.
pub const MAX_NESTING_DEPTH: usize = 256;

/// The numeric value of an ASCII digit (decimal or hexadecimal, either
/// case), or -1 for any other character.
pub open spec fn digit_value(c: char) -> int {
    if 48 <= c as u32 <= 57 {
        c as u32 - 48
    } else if 97 <= c as u32 <= 102 {
        c as u32 - 87
    } else if 65 <= c as u32 <= 70 {
        c as u32 - 55
    } else {
        -1
    }
}

/// The value of a digit string read in the given radix: the empty string
/// counts 0, and any character that is not a digit of the radix spoils the
/// whole string.
pub open spec fn digits_value(s: Seq<char>, radix: u32) -> Option<int>
    decreases s.len(),
{
    if s.len() == 0 {
        Some(0)
    } else {
        let d = digit_value(s.last());
        match digits_value(s.drop_last(), radix) {
            Some(v) => if 0 <= d < radix {
                Some(v * radix + d)
            } else {
                None
            },
            None => None,
        }
    }
}

/// What an integer literal's digit text denotes: its value, where the text
/// is non-empty, all digits of the radix, and the value fits a signed
/// 64-bit integer; nothing otherwise.
pub open spec fn spec_parse_int(s: Seq<char>, radix: u32) -> Option<i64> {
    if s.len() == 0 {
        None
    } else {
        match digits_value(s, radix) {
            Some(v) => if v <= i64::MAX {
                Some(v as i64)
            } else {
                None
            },
            None => None,
        }
    }
}

/// A digit string's value is never negative.
pub proof fn lemma_digits_value_nonneg(s: Seq<char>, radix: u32)
    ensures
        digits_value(s, radix) matches Some(v) ==> v >= 0,
    decreases s.len(),
{
    if s.len() > 0 {
        lemma_digits_value_nonneg(s.drop_last(), radix);
        match digits_value(s.drop_last(), radix) {
            Some(v) => {
                let d = digit_value(s.last());
                if 0 <= d < radix {
                    assert(v * radix >= 0) by (nonlinear_arith)
                        requires
                            v >= 0,
                            radix >= 1,
                    ;
                }
            },
            None => {},
        }
    }
}

/// A prefix of a valid digit string is valid and worth no more than the
/// whole.
pub proof fn lemma_digits_value_prefix(s: Seq<char>, radix: u32, i: int)
    requires
        radix >= 1,
        0 <= i <= s.len(),
        digits_value(s, radix) is Some,
    ensures
        digits_value(s.subrange(0, i), radix) is Some,
        digits_value(s.subrange(0, i), radix)->Some_0 <= digits_value(s, radix)->Some_0,
    decreases s.len(),
{
    if i < s.len() {
        assert(s.drop_last().subrange(0, i) =~= s.subrange(0, i));
        lemma_digits_value_prefix(s.drop_last(), radix, i);
        let vdl = digits_value(s.drop_last(), radix)->Some_0;
        let d = digit_value(s.last());
        lemma_digits_value_nonneg(s.drop_last(), radix);
        assert(vdl * radix >= vdl) by (nonlinear_arith)
            requires
                vdl >= 0,
                radix >= 1,
        ;
    } else {
        assert(s.subrange(0, i) =~= s);
    }
}

/// The integer an integer literal's digit text denotes, where it is a
/// valid literal of the radix whose value fits a signed 64-bit integer.
pub fn int_from_text(text: &str, radix: u32) -> (r: Option<i64>)
    requires
        2 <= radix <= 16,
    ensures
        r == spec_parse_int(text@, radix),
{
    let ghost s = text@;
    let len = text.unicode_len();
    if len == 0 {
        return None;
    }
    let mut acc: i64 = 0;
    let mut i: usize = 0;
    while i < len
        invariant
            2 <= radix <= 16,
            0 <= i <= len,
            len == s.len(),
            s == text@,
            0 <= acc,
            digits_value(s.subrange(0, i as int), radix) == Some(acc as int),
        decreases len - i,
    {
        let c = text.get_char(i);
        let x = c as u32;
        let d: i64 = if 48 <= x && x <= 57 {
            (x - 48) as i64
        } else if 97 <= x && x <= 102 {
            (x - 87) as i64
        } else if 65 <= x && x <= 70 {
            (x - 55) as i64
        } else {
            -1
        };
        proof {
            assert(s.subrange(0, i + 1).drop_last() =~= s.subrange(0, i as int));
            assert(s.subrange(0, i + 1).last() == s[i as int]);
        }
        if d < 0 || d >= radix as i64 {
            proof {
                if digits_value(s, radix) is Some {
                    lemma_digits_value_prefix(s, radix, i + 1);
                }
            }
            return None;
        }
        let step = match acc.checked_mul(radix as i64) {
            Some(m) => m.checked_add(d),
            None => None,
        };
        match step {
            Some(next) => {
                acc = next;
                i += 1;
            },
            None => {
                proof {
                    let vp = acc as int * radix + d;
                    assert(digits_value(s.subrange(0, i + 1), radix) == Some(vp));
                    assert(vp > i64::MAX);
                    if digits_value(s, radix) is Some {
                        lemma_digits_value_prefix(s, radix, i + 1);
                    }
                }
                return None;
            },
        }
    }
    proof {
        assert(s.subrange(0, len as int) =~= s);
    }
    Some(acc)
}

/// What a float literal's text denotes: the lexer's float tokens can end
/// in a bare exponent marker or sign, which is no valid literal; any other
/// token text converts as a decimal double. Stated over the conversion's
/// name, with the one malformed tail the token grammar allows rejected
/// here.
pub open spec fn spec_float_value(s: Seq<char>) -> Option<u64> {
    if s.len() == 0 || !(is_dec_digit(s.last()) || s.last() == '.') {
        None
    } else {
        float_of_text(s)
    }
}

/// The digit string rendered from a non-negative integer is worth that
/// integer.
pub proof fn lemma_digits_value_of_udec(n: int)
    requires
        0 <= n,
    ensures
        digits_value(crate::nodes::spec_udec_text(n), 10) == Some(n),
    decreases n,
{
    let s = crate::nodes::spec_udec_text(n);
    if n < 10 {
        crate::nodes::lemma_digit_text(n);
        assert(s.len() == 1);
        assert(s.drop_last() =~= Seq::<char>::empty());
        assert(digits_value(s.drop_last(), 10) == Some(0int));
        assert(s.last() == s[0]);
        assert(digit_value(s.last()) == n);
        assert(digits_value(s, 10) == Some(0int * 10 + n));
    } else {
        lemma_digits_value_of_udec(n / 10);
        crate::nodes::lemma_digit_text(n % 10);
        let prefix = crate::nodes::spec_udec_text(n / 10);
        assert(s.drop_last() =~= prefix);
        assert(s.last() == crate::nodes::spec_digit_text(n % 10)[0]);
        assert(digit_value(s.last()) == n % 10);
        assert((n / 10) * 10 + n % 10 == n) by (nonlinear_arith)
            requires
                n >= 0,
        ;
    }
}

/// The left and right binding powers of an infix operator (higher binds
/// tighter; a right power above the left makes the operator
/// left-associative, below it right-associative). Scaled so that the
/// additive level sits at 10, the multiplicative at 20, the power at 30,
/// and the bitwise operators loosest of all at 1.
pub open spec fn spec_bp(op: BinOp) -> (u32, u32) {
    match op {
        BinOp::Plus | BinOp::Minus => (10u32, 11u32),
        BinOp::Mul | BinOp::Div | BinOp::Mod => (20u32, 21u32),
        BinOp::Pow => (31u32, 30u32),
        BinOp::And | BinOp::Or | BinOp::Xor => (1u32, 2u32),
    }
}

/// How a token looks when a binary operator is expected: an operator, a
/// token that closes the expression (end marker, comma, closing
/// parenthesis), or a token that belongs to no infix form.
pub enum OpCand {
    Op(BinOp),
    Stop,
    Bad,
}

/// The infix-operator reading of a token.
pub open spec fn binop_of_token(tv: TokenView) -> OpCand {
    match tv {
        TokenView::Plus(_) => OpCand::Op(BinOp::Plus),
        TokenView::Minus(_) => OpCand::Op(BinOp::Minus),
        TokenView::Mul(_) => OpCand::Op(BinOp::Mul),
        TokenView::Div(_) => OpCand::Op(BinOp::Div),
        TokenView::Mod(_) => OpCand::Op(BinOp::Mod),
        TokenView::Pow(_) => OpCand::Op(BinOp::Pow),
        TokenView::And(_) => OpCand::Op(BinOp::And),
        TokenView::Or(_) => OpCand::Op(BinOp::Or),
        TokenView::Xor(_) => OpCand::Op(BinOp::Xor),
        TokenView::Eof(_) => OpCand::Stop,
        TokenView::Comma(_) => OpCand::Stop,
        TokenView::Rparen(_) => OpCand::Stop,
        _ => OpCand::Bad,
    }
}

/// One expression starting at `pos`, parsed with the given binding-power
/// floor: a prefix/primary term, then the infix loop.
pub open spec fn spec_parse_expr(s: Seq<char>, pos: int, min_bp: u32, depth: nat) -> Result<
    (ExprView, int),
    ParserErr,
>
    decreases s.len() - pos, 0int, 2int
        when 0 <= pos <= s.len()
{
    if depth == 0 {
        Err(ParserErr::NestingTooDeep)
    } else {
        let (t0, p1) = spec_read_token(s, pos);
        match t0 {
            Err(le) => Err(ParserErr::LexerErr(le)),
            Ok(tv) => match tv {
                TokenView::Int(text, radix, _) => match spec_parse_int(text, radix) {
                    Some(v) => if pos < p1 <= s.len() {
                        spec_parse_loop(s, p1, ExprView::Atom(AtomView::Int(v)), min_bp, depth)
                    } else {
                        Err(ParserErr::SyntaxError)
                    },
                    None => Err(ParserErr::ParseIntError),
                },
                TokenView::Float(text, _) => match spec_float_value(text) {
                    Some(bits) => if pos < p1 <= s.len() {
                        spec_parse_loop(s, p1, ExprView::Atom(AtomView::Float(bits)), min_bp, depth)
                    } else {
                        Err(ParserErr::SyntaxError)
                    },
                    None => Err(ParserErr::ParseFloatError),
                },
                TokenView::Name(name, _) => match spec_read_token(s, p1).0 {
                    Err(le) => Err(ParserErr::LexerErr(le)),
                    Ok(tv1) => if tv1 is Lparen {
                        if pos < p1 <= s.len() {
                            match spec_parse_args(s, p1, depth) {
                                Ok((argvs, p2)) => if pos < p2 <= s.len() {
                                    spec_parse_loop(
                                        s,
                                        p2,
                                        ExprView::Atom(AtomView::Func(name, argvs)),
                                        min_bp,
                                        depth,
                                    )
                                } else {
                                    Err(ParserErr::SyntaxError)
                                },
                                Err(pe) => Err(pe),
                            }
                        } else {
                            Err(ParserErr::SyntaxError)
                        }
                    } else {
                        if pos < p1 <= s.len() {
                            spec_parse_loop(
                                s,
                                p1,
                                ExprView::Atom(AtomView::Const(name)),
                                min_bp,
                                depth,
                            )
                        } else {
                            Err(ParserErr::SyntaxError)
                        }
                    },
                },
                TokenView::Lparen(_) => if pos < p1 <= s.len() {
                    match spec_parse_expr(s, p1, 0, (depth - 1) as nat) {
                        Ok((inner, p2)) => {
                            let (t2, p3) = spec_read_token(s, p2);
                            match t2 {
                                Err(le) => Err(ParserErr::LexerErr(le)),
                                Ok(tv2) => if tv2 is Rparen {
                                    if pos < p3 <= s.len() {
                                        spec_parse_loop(s, p3, inner, min_bp, depth)
                                    } else {
                                        Err(ParserErr::SyntaxError)
                                    }
                                } else {
                                    Err(ParserErr::SyntaxError)
                                },
                            }
                        },
                        Err(pe) => Err(pe),
                    }
                } else {
                    Err(ParserErr::SyntaxError)
                },
                TokenView::Plus(_) => if pos < p1 <= s.len() {
                    match spec_parse_unary(s, p1, (depth - 1) as nat) {
                        Ok((operand, p2)) => if pos < p2 <= s.len() {
                            spec_parse_loop(
                                s,
                                p2,
                                ExprView::UnOp(UnOp::Pos, Box::new(operand)),
                                min_bp,
                                depth,
                            )
                        } else {
                            Err(ParserErr::SyntaxError)
                        },
                        Err(pe) => Err(pe),
                    }
                } else {
                    Err(ParserErr::SyntaxError)
                },
                TokenView::Minus(_) => if pos < p1 <= s.len() {
                    match spec_parse_unary(s, p1, (depth - 1) as nat) {
                        Ok((operand, p2)) => if pos < p2 <= s.len() {
                            spec_parse_loop(
                                s,
                                p2,
                                ExprView::UnOp(UnOp::Neg, Box::new(operand)),
                                min_bp,
                                depth,
                            )
                        } else {
                            Err(ParserErr::SyntaxError)
                        },
                        Err(pe) => Err(pe),
                    }
                } else {
                    Err(ParserErr::SyntaxError)
                },
                _ => Err(ParserErr::SyntaxError),
            },
        }
    }
}

/// The infix loop: starting from a parsed left operand at `pos`, fold in
/// binary operators whose left binding power reaches `min_bp`, each right
/// operand parsed with the operator's right binding power as the new floor.
pub open spec fn spec_parse_loop(
    s: Seq<char>,
    pos: int,
    lhs: ExprView,
    min_bp: u32,
    depth: nat,
) -> Result<(ExprView, int), ParserErr>
    decreases s.len() - pos, 1int, 2int
        when 0 <= pos <= s.len()
{
    let (t0, p1) = spec_read_token(s, pos);
    match t0 {
        Err(le) => Err(ParserErr::LexerErr(le)),
        Ok(tv) => match binop_of_token(tv) {
            OpCand::Op(op) => if spec_bp(op).0 < min_bp {
                Ok((lhs, pos))
            } else if depth == 0 {
                Err(ParserErr::NestingTooDeep)
            } else if pos < p1 <= s.len() {
                match spec_parse_expr(s, p1, spec_bp(op).1, (depth - 1) as nat) {
                    Ok((rhs, p2)) => if pos < p2 <= s.len() {
                        spec_parse_loop(
                            s,
                            p2,
                            ExprView::BinOp(op, Box::new(lhs), Box::new(rhs)),
                            min_bp,
                            depth,
                        )
                    } else {
                        Err(ParserErr::SyntaxError)
                    },
                    Err(pe) => Err(pe),
                }
            } else {
                Err(ParserErr::SyntaxError)
            },
            OpCand::Stop => Ok((lhs, pos)),
            OpCand::Bad => Err(ParserErr::SyntaxError),
        },
    }
}

/// One prefix/primary term starting at `pos`: a literal, a name (constant
/// reference or function call), a parenthesized expression, or a signed
/// unary term. No infix loop follows: a prefix operator binds tighter than
/// any binary operator.
pub open spec fn spec_parse_unary(s: Seq<char>, pos: int, depth: nat) -> Result<
    (ExprView, int),
    ParserErr,
>
    decreases s.len() - pos, 0int, 1int
        when 0 <= pos <= s.len()
{
    if depth == 0 {
        Err(ParserErr::NestingTooDeep)
    } else {
        let (t0, p1) = spec_read_token(s, pos);
        match t0 {
            Err(le) => Err(ParserErr::LexerErr(le)),
            Ok(tv) => match tv {
                TokenView::Int(text, radix, _) => match spec_parse_int(text, radix) {
                    Some(v) => Ok((ExprView::Atom(AtomView::Int(v)), p1)),
                    None => Err(ParserErr::ParseIntError),
                },
                TokenView::Float(text, _) => match spec_float_value(text) {
                    Some(bits) => Ok((ExprView::Atom(AtomView::Float(bits)), p1)),
                    None => Err(ParserErr::ParseFloatError),
                },
                TokenView::Name(name, _) => match spec_read_token(s, p1).0 {
                    Err(le) => Err(ParserErr::LexerErr(le)),
                    Ok(tv1) => if tv1 is Lparen {
                        if pos < p1 <= s.len() {
                            match spec_parse_args(s, p1, depth) {
                                Ok((argvs, p2)) => Ok(
                                    (ExprView::Atom(AtomView::Func(name, argvs)), p2),
                                ),
                                Err(pe) => Err(pe),
                            }
                        } else {
                            Err(ParserErr::SyntaxError)
                        }
                    } else {
                        Ok((ExprView::Atom(AtomView::Const(name)), p1))
                    },
                },
                TokenView::Lparen(_) => if pos < p1 <= s.len() {
                    match spec_parse_expr(s, p1, 0, (depth - 1) as nat) {
                        Ok((inner, p2)) => {
                            let (t2, p3) = spec_read_token(s, p2);
                            match t2 {
                                Err(le) => Err(ParserErr::LexerErr(le)),
                                Ok(tv2) => if tv2 is Rparen {
                                    Ok((inner, p3))
                                } else {
                                    Err(ParserErr::SyntaxError)
                                },
                            }
                        },
                        Err(pe) => Err(pe),
                    }
                } else {
                    Err(ParserErr::SyntaxError)
                },
                TokenView::Plus(_) => if pos < p1 <= s.len() {
                    match spec_parse_unary(s, p1, (depth - 1) as nat) {
                        Ok((operand, p2)) => Ok(
                            (ExprView::UnOp(UnOp::Pos, Box::new(operand)), p2),
                        ),
                        Err(pe) => Err(pe),
                    }
                } else {
                    Err(ParserErr::SyntaxError)
                },
                TokenView::Minus(_) => if pos < p1 <= s.len() {
                    match spec_parse_unary(s, p1, (depth - 1) as nat) {
                        Ok((operand, p2)) => Ok(
                            (ExprView::UnOp(UnOp::Neg, Box::new(operand)), p2),
                        ),
                        Err(pe) => Err(pe),
                    }
                } else {
                    Err(ParserErr::SyntaxError)
                },
                _ => Err(ParserErr::SyntaxError),
            },
        }
    }
}

/// A parenthesized, comma-separated argument list starting at `pos`, which
/// must hold the opening parenthesis.
pub open spec fn spec_parse_args(s: Seq<char>, pos: int, depth: nat) -> Result<
    (Seq<ExprView>, int),
    ParserErr,
>
    decreases s.len() - pos, 0int, 0int
        when 0 <= pos <= s.len()
{
    let (t0, p1) = spec_read_token(s, pos);
    match t0 {
        Err(le) => Err(ParserErr::LexerErr(le)),
        Ok(tv) => if tv is Lparen {
            if pos < p1 <= s.len() {
                spec_args_loop(s, p1, Seq::empty(), depth)
            } else {
                Err(ParserErr::SyntaxError)
            }
        } else {
            Err(ParserErr::SyntaxError)
        },
    }
}

/// The argument-list loop: arguments parsed as full sub-expressions,
/// commas skipped, the list closed by the closing parenthesis.
pub open spec fn spec_args_loop(s: Seq<char>, pos: int, acc: Seq<ExprView>, depth: nat) -> Result<
    (Seq<ExprView>, int),
    ParserErr,
>
    decreases s.len() - pos, 1int, 0int
        when 0 <= pos <= s.len()
{
    let (t0, p1) = spec_read_token(s, pos);
    match t0 {
        Err(le) => Err(ParserErr::LexerErr(le)),
        Ok(tv) => if tv is Rparen {
            Ok((acc, p1))
        } else if tv is Comma {
            if pos < p1 <= s.len() {
                spec_args_loop(s, p1, acc, depth)
            } else {
                Err(ParserErr::SyntaxError)
            }
        } else {
            if depth == 0 {
                Err(ParserErr::NestingTooDeep)
            } else {
                match spec_parse_expr(s, pos, 0, (depth - 1) as nat) {
                    Ok((e, p2)) => if pos < p2 <= s.len() {
                        spec_args_loop(s, p2, acc.push(e), depth)
                    } else {
                        Err(ParserErr::SyntaxError)
                    },
                    Err(pe) => Err(pe),
                }
            }
        },
    }
}

/// One expression covering the whole input from `pos` on: parsed with no
/// binding-power floor, and required to consume everything up to the end
/// marker.
pub open spec fn spec_parse(s: Seq<char>, pos: int) -> Result<ExprView, ParserErr> {
    match spec_parse_expr(s, pos, 0, MAX_NESTING_DEPTH as nat) {
        Ok((e, p)) => match spec_read_token(s, p).0 {
            Ok(tv) => if tv is Eof {
                Ok(e)
            } else {
                Err(ParserErr::SyntaxError)
            },
            Err(le) => Err(ParserErr::LexerErr(le)),
        },
        Err(pe) => Err(pe),
    }
}

/// The parser: drives a lexer and builds the expression tree.
pub struct Parser<'a> {
    lexer: Lexer<'a>,
}

impl<'a> Parser<'a> {
    /// The parser is usable while its lexer is.
    pub closed spec fn wf(&self) -> bool {
        self.lexer.wf()
    }

    /// The expression text under the parser.
    pub closed spec fn text(&self) -> Seq<char> {
        self.lexer.text()
    }

    /// The position the next token will be read from.
    pub closed spec fn pos(&self) -> int {
        self.lexer.pos()
    }

    pub fn new(lexer: Lexer<'a>) -> (r: Parser<'a>)
        ensures
            r.wf() == lexer.wf(),
            r.text() == lexer.text(),
            r.pos() == lexer.pos(),
    {
        Parser { lexer }
    }

    /// The next token, consumed; a lexical failure is wrapped as a parse
    /// failure.
    fn consume(&mut self) -> (r: Result<Token, ParserErr>)
        requires
            old(self).wf(),
        ensures
            final(self).wf(),
            final(self).text() == old(self).text(),
            final(self).pos() == spec_read_token(old(self).text(), old(self).pos()).1,
            match r {
                Ok(t) => spec_read_token(old(self).text(), old(self).pos()).0 == Ok::<
                    TokenView,
                    LexerErr,
                >(t@),
                Err(pe) => pe matches ParserErr::LexerErr(le) && spec_read_token(
                    old(self).text(),
                    old(self).pos(),
                ).0 == Err::<TokenView, LexerErr>(le),
            },
    {
        match self.lexer.next_token() {
            Ok(t) => Ok(t),
            Err(e) => Err(ParserErr::LexerErr(e)),
        }
    }

    /// The next token, not consumed; a lexical failure is wrapped as a
    /// parse failure.
    fn peek(&mut self) -> (r: Result<Token, ParserErr>)
        requires
            old(self).wf(),
        ensures
            final(self).wf(),
            final(self).text() == old(self).text(),
            final(self).pos() == old(self).pos(),
            match r {
                Ok(t) => spec_read_token(old(self).text(), old(self).pos()).0 == Ok::<
                    TokenView,
                    LexerErr,
                >(t@),
                Err(pe) => pe matches ParserErr::LexerErr(le) && spec_read_token(
                    old(self).text(),
                    old(self).pos(),
                ).0 == Err::<TokenView, LexerErr>(le),
            },
    {
        match self.lexer.peek_token() {
            Ok(t) => Ok(t),
            Err(e) => Err(ParserErr::LexerErr(e)),
        }
    }

    /// An integer literal atom from digit text of the given radix.
    fn parse_int(&self, value: String, radix: u32) -> (r: Result<Atom, ParserErr>)
        requires
            2 <= radix <= 16,
        ensures
            match spec_parse_int(value@, radix) {
                Some(v) => r == Ok::<Atom, ParserErr>(Atom::Int(v)),
                None => r == Err::<Atom, ParserErr>(ParserErr::ParseIntError),
            },
    {
        match int_from_text(value.as_str(), radix) {
            Some(v) => Ok(Atom::Int(v)),
            None => Err(ParserErr::ParseIntError),
        }
    }

    /// A float literal atom from literal text; a literal ending in a bare
    /// exponent marker or sign does not convert.
    fn parse_float(&self, value: String) -> (r: Result<Atom, ParserErr>)
        ensures
            match spec_float_value(value@) {
                Some(bits) => r == Ok::<Atom, ParserErr>(Atom::Float(bits)),
                None => r == Err::<Atom, ParserErr>(ParserErr::ParseFloatError),
            },
    {
        let len = value.as_str().unicode_len();
        if len == 0 {
            return Err(ParserErr::ParseFloatError);
        }
        let last = value.as_str().get_char(len - 1);
        let x = last as u32;
        if !((48 <= x && x <= 57) || last == '.') {
            return Err(ParserErr::ParseFloatError);
        }
        match parse_float_text(value.as_str()) {
            Some(bits) => Ok(Atom::Float(bits)),
            None => Err(ParserErr::ParseFloatError),
        }
    }

    /// The binding powers of an infix operator.
    fn infix_binding_power(&self, op: BinOp) -> (r: (u32, u32))
        ensures
            r == spec_bp(op),
    {
        match op {
            BinOp::Plus | BinOp::Minus => (10, 11),
            BinOp::Mul | BinOp::Div | BinOp::Mod => (20, 21),
            BinOp::Pow => (31, 30),
            BinOp::And | BinOp::Or | BinOp::Xor => (1, 2),
        }
    }

    /// One expression from the current position, with the given
    /// binding-power floor and remaining nesting allowance.
    fn parse_expr(&mut self, min_bp: u32, depth: usize) -> (r: Result<Expr, ParserErr>)
        requires
            old(self).wf(),
        ensures
            final(self).wf(),
            final(self).text() == old(self).text(),
            match r {
                Ok(e) => spec_parse_expr(
                    old(self).text(),
                    old(self).pos(),
                    min_bp,
                    depth as nat,
                ) == Ok::<(ExprView, int), ParserErr>((e@, final(self).pos())) && old(self).pos()
                    < final(self).pos() <= old(self).text().len(),
                Err(pe) => spec_parse_expr(old(self).text(), old(self).pos(), min_bp, depth as nat)
                    == Err::<(ExprView, int), ParserErr>(pe),
            },
        decreases old(self).text().len() - old(self).pos(), 0int, 2int,
    {
        let ghost s = self.text();
        let ghost pos0 = self.pos();
        proof {
            self.lexer.lemma_pos_in_text();
            lemma_read_token_progress(s, pos0);
            crate::lexer::lemma_read_token_int_radix(s, pos0);
        }
        if depth == 0 {
            return Err(ParserErr::NestingTooDeep);
        }
        let tok = match self.consume() {
            Ok(t) => t,
            Err(pe) => {
                return Err(pe);
            },
        };
        let mut lhs: Expr = match tok {
            Token::Int(text, radix, _) => {
                let ghost textv = text@;
                match self.parse_int(text, radix) {
                    Ok(a) => {
                        proof {
                            assert(atom_view(a) == AtomView::Int(
                                spec_parse_int(textv, radix)->Some_0,
                            ));
                        }
                        Expr::Atom(a)
                    },
                    Err(pe) => {
                        return Err(pe);
                    },
                }
            },
            Token::Float(text, _) => {
                let ghost textv = text@;
                match self.parse_float(text) {
                    Ok(a) => {
                        proof {
                            assert(atom_view(a) == AtomView::Float(spec_float_value(textv)->Some_0));
                        }
                        Expr::Atom(a)
                    },
                    Err(pe) => {
                        return Err(pe);
                    },
                }
            },
            Token::Name(name, _) => {
                let next = match self.peek() {
                    Ok(t) => t,
                    Err(pe) => {
                        return Err(pe);
                    },
                };
                match next {
                    Token::Lparen(_) => {
                        let args = match self.parse_args(depth) {
                            Ok(a) => a,
                            Err(pe) => {
                                return Err(pe);
                            },
                        };
                        proof {
                            assert(atom_view(Atom::Func(name, args)) == AtomView::Func(
                                name@,
                                exprs_view_seq(args@),
                            ));
                        }
                        Expr::Atom(Atom::Func(name, args))
                    },
                    _ => {
                        proof {
                            assert(atom_view(Atom::Const(name)) == AtomView::Const(name@));
                        }
                        Expr::Atom(Atom::Const(name))
                    },
                }
            },
            Token::Lparen(_) => {
                let inner = match self.parse_expr(0, depth - 1) {
                    Ok(e) => e,
                    Err(pe) => {
                        return Err(pe);
                    },
                };
                proof {
                    lemma_read_token_progress(s, self.pos());
                }
                match self.consume() {
                    Ok(Token::Rparen(_)) => inner,
                    Ok(_) => {
                        return Err(ParserErr::SyntaxError);
                    },
                    Err(pe) => {
                        return Err(pe);
                    },
                }
            },
            Token::Plus(_) => {
                let operand = match self.parse_unary(depth - 1) {
                    Ok(e) => e,
                    Err(pe) => {
                        return Err(pe);
                    },
                };
                Expr::UnOp(UnOp::Pos, Box::new(operand))
            },
            Token::Minus(_) => {
                let operand = match self.parse_unary(depth - 1) {
                    Ok(e) => e,
                    Err(pe) => {
                        return Err(pe);
                    },
                };
                Expr::UnOp(UnOp::Neg, Box::new(operand))
            },
            _ => {
                return Err(ParserErr::SyntaxError);
            },
        };
        proof {
            assert(spec_parse_expr(s, pos0, min_bp, depth as nat) == spec_parse_loop(
                s,
                self.pos(),
                lhs@,
                min_bp,
                depth as nat,
            ));
        }
        loop
            invariant
                self.wf(),
                self.text() == s,
                s == old(self).text(),
                pos0 == old(self).pos(),
                depth >= 1,
                0 <= pos0 < self.pos() <= s.len(),
                spec_parse_expr(s, pos0, min_bp, depth as nat) == spec_parse_loop(
                    s,
                    self.pos(),
                    lhs@,
                    min_bp,
                    depth as nat,
                ),
            decreases s.len() - self.pos(),
        {
            let ghost p = self.pos();
            proof {
                lemma_read_token_progress(s, p);
            }
            let t = match self.peek() {
                Ok(t) => t,
                Err(pe) => {
                    return Err(pe);
                },
            };
            let op = match t {
                Token::Plus(_) => BinOp::Plus,
                Token::Minus(_) => BinOp::Minus,
                Token::Mul(_) => BinOp::Mul,
                Token::Div(_) => BinOp::Div,
                Token::Mod(_) => BinOp::Mod,
                Token::Pow(_) => BinOp::Pow,
                Token::And(_) => BinOp::And,
                Token::Or(_) => BinOp::Or,
                Token::Xor(_) => BinOp::Xor,
                Token::Eof(_) | Token::Comma(_) | Token::Rparen(_) => {
                    return Ok(lhs);
                },
                _ => {
                    return Err(ParserErr::SyntaxError);
                },
            };
            let bp = self.infix_binding_power(op);
            if bp.0 < min_bp {
                return Ok(lhs);
            }
            match self.consume() {
                Ok(_) => {},
                Err(_) => {
                    proof {
                        assert(false);
                    }
                    return Err(ParserErr::SyntaxError);
                },
            }
            let rhs = match self.parse_expr(bp.1, depth - 1) {
                Ok(e) => e,
                Err(pe) => {
                    return Err(pe);
                },
            };
            lhs = Expr::BinOp(op, Box::new(lhs), Box::new(rhs));
        }
    }

    /// One prefix/primary term from the current position.
    fn parse_unary(&mut self, depth: usize) -> (r: Result<Expr, ParserErr>)
        requires
            old(self).wf(),
        ensures
            final(self).wf(),
            final(self).text() == old(self).text(),
            match r {
                Ok(e) => spec_parse_unary(old(self).text(), old(self).pos(), depth as nat) == Ok::<
                    (ExprView, int),
                    ParserErr,
                >((e@, final(self).pos())) && old(self).pos() < final(self).pos() <= old(
                    self,
                ).text().len(),
                Err(pe) => spec_parse_unary(old(self).text(), old(self).pos(), depth as nat)
                    == Err::<(ExprView, int), ParserErr>(pe),
            },
        decreases old(self).text().len() - old(self).pos(), 0int, 1int,
    {
        let ghost s = self.text();
        let ghost pos0 = self.pos();
        proof {
            self.lexer.lemma_pos_in_text();
            lemma_read_token_progress(s, pos0);
            crate::lexer::lemma_read_token_int_radix(s, pos0);
        }
        if depth == 0 {
            return Err(ParserErr::NestingTooDeep);
        }
        let tok = match self.consume() {
            Ok(t) => t,
            Err(pe) => {
                return Err(pe);
            },
        };
        match tok {
            Token::Int(text, radix, _) => {
                let ghost textv = text@;
                match self.parse_int(text, radix) {
                    Ok(a) => {
                        proof {
                            assert(atom_view(a) == AtomView::Int(
                                spec_parse_int(textv, radix)->Some_0,
                            ));
                        }
                        Ok(Expr::Atom(a))
                    },
                    Err(pe) => Err(pe),
                }
            },
            Token::Float(text, _) => {
                let ghost textv = text@;
                match self.parse_float(text) {
                    Ok(a) => {
                        proof {
                            assert(atom_view(a) == AtomView::Float(spec_float_value(textv)->Some_0));
                        }
                        Ok(Expr::Atom(a))
                    },
                    Err(pe) => Err(pe),
                }
            },
            Token::Name(name, _) => {
                let next = match self.peek() {
                    Ok(t) => t,
                    Err(pe) => {
                        return Err(pe);
                    },
                };
                match next {
                    Token::Lparen(_) => {
                        match self.parse_args(depth) {
                            Ok(args) => {
                                proof {
                                    assert(atom_view(Atom::Func(name, args)) == AtomView::Func(
                                        name@,
                                        exprs_view_seq(args@),
                                    ));
                                }
                                Ok(Expr::Atom(Atom::Func(name, args)))
                            },
                            Err(pe) => Err(pe),
                        }
                    },
                    _ => {
                        proof {
                            assert(atom_view(Atom::Const(name)) == AtomView::Const(name@));
                        }
                        Ok(Expr::Atom(Atom::Const(name)))
                    },
                }
            },
            Token::Lparen(_) => {
                let inner = match self.parse_expr(0, depth - 1) {
                    Ok(e) => e,
                    Err(pe) => {
                        return Err(pe);
                    },
                };
                proof {
                    lemma_read_token_progress(s, self.pos());
                }
                match self.consume() {
                    Ok(Token::Rparen(_)) => Ok(inner),
                    Ok(_) => Err(ParserErr::SyntaxError),
                    Err(pe) => Err(pe),
                }
            },
            Token::Plus(_) => {
                match self.parse_unary(depth - 1) {
                    Ok(operand) => Ok(Expr::UnOp(UnOp::Pos, Box::new(operand))),
                    Err(pe) => Err(pe),
                }
            },
            Token::Minus(_) => {
                match self.parse_unary(depth - 1) {
                    Ok(operand) => Ok(Expr::UnOp(UnOp::Neg, Box::new(operand))),
                    Err(pe) => Err(pe),
                }
            },
            _ => Err(ParserErr::SyntaxError),
        }
    }

    /// A parenthesized, comma-separated argument list from the current
    /// position.
    fn parse_args(&mut self, depth: usize) -> (r: Result<Vec<Expr>, ParserErr>)
        requires
            old(self).wf(),
        ensures
            final(self).wf(),
            final(self).text() == old(self).text(),
            match r {
                Ok(args) => spec_parse_args(old(self).text(), old(self).pos(), depth as nat) == Ok::<
                    (Seq<ExprView>, int),
                    ParserErr,
                >((exprs_view_seq(args@), final(self).pos())) && old(self).pos() < final(self).pos() <= old(self).text().len(),
                Err(pe) => spec_parse_args(old(self).text(), old(self).pos(), depth as nat) == Err::<
                    (Seq<ExprView>, int),
                    ParserErr,
                >(pe),
            },
        decreases old(self).text().len() - old(self).pos(), 0int, 0int,
    {
        let ghost s = self.text();
        let ghost pos0 = self.pos();
        proof {
            self.lexer.lemma_pos_in_text();
            lemma_read_token_progress(s, pos0);
        }
        match self.consume() {
            Ok(Token::Lparen(_)) => {},
            Ok(_) => {
                return Err(ParserErr::SyntaxError);
            },
            Err(pe) => {
                return Err(pe);
            },
        }
        let mut args: Vec<Expr> = Vec::new();
        proof {
            assert(exprs_view_seq(args@) =~= Seq::<ExprView>::empty());
        }
        loop
            invariant
                self.wf(),
                self.text() == s,
                s == old(self).text(),
                pos0 == old(self).pos(),
                0 <= pos0 < self.pos() <= s.len(),
                spec_parse_args(s, pos0, depth as nat) == spec_args_loop(
                    s,
                    self.pos(),
                    exprs_view_seq(args@),
                    depth as nat,
                ),
            decreases s.len() - self.pos(),
        {
            let ghost p = self.pos();
            proof {
                lemma_read_token_progress(s, p);
            }
            let t = match self.peek() {
                Ok(t) => t,
                Err(pe) => {
                    return Err(pe);
                },
            };
            match t {
                Token::Rparen(_) => {
                    match self.consume() {
                        Ok(_) => {},
                        Err(_) => {
                            proof {
                                assert(false);
                            }
                            return Err(ParserErr::SyntaxError);
                        },
                    }
                    return Ok(args);
                },
                Token::Comma(_) => {
                    match self.consume() {
                        Ok(_) => {},
                        Err(_) => {
                            proof {
                                assert(false);
                            }
                            return Err(ParserErr::SyntaxError);
                        },
                    }
                },
                _ => {
                    if depth == 0 {
                        return Err(ParserErr::NestingTooDeep);
                    }
                    let e = match self.parse_expr(0, depth - 1) {
                        Ok(e) => e,
                        Err(pe) => {
                            return Err(pe);
                        },
                    };
                    let ghost prev = args@;
                    let ghost ev = e@;
                    args.push(e);
                    proof {
                        assert(args@.drop_last() =~= prev);
                        assert(exprs_view_seq(args@) =~= exprs_view_seq(prev).push(ev));
                    }
                },
            }
        }
    }

    /// One expression covering the whole remaining input: parsed with no
    /// binding-power floor, then the end marker is required.
    pub fn parse(&mut self) -> (r: Result<Expr, ParserErr>)
        requires
            old(self).wf(),
        ensures
            final(self).wf(),
            match r {
                Ok(e) => spec_parse(old(self).text(), old(self).pos()) == Ok::<ExprView, ParserErr>(
                    e@,
                ),
                Err(pe) => spec_parse(old(self).text(), old(self).pos()) == Err::<
                    ExprView,
                    ParserErr,
                >(pe),
            },
    {
        let e = match self.parse_expr(0, MAX_NESTING_DEPTH) {
            Ok(e) => e,
            Err(pe) => {
                return Err(pe);
            },
        };
        match self.consume() {
            Ok(Token::Eof(_)) => Ok(e),
            Ok(_) => Err(ParserErr::SyntaxError),
            Err(pe) => Err(pe),
        }
    }
}

} // verus!
