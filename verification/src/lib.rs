//! Core of a command-line calculator: a small arithmetic expression
//! language with lexing, precedence-climbing parsing, and a tree-walking
//! evaluator over tagged integer/double values. Doubles are carried as
//! their IEEE-754 bit patterns; their arithmetic is done by outside code
//! behind trusted wrappers (see `fbits`).

pub mod constants;
pub mod context;
pub mod eval;
pub mod fbits;
pub mod functions;
pub mod lexer;
pub mod nodes;
pub mod parser;
pub mod token;
pub mod value;

use crate::context::{Context, CtxView};
use crate::eval::{spec_eval, spec_eval_atom, EvalErr, EvalErrView};
use crate::lexer::Lexer;
use crate::parser::{spec_parse, Parser, ParserErr};
use crate::value::Value;
use vstd::prelude::*;

verus! {

/// A failure of the whole pipeline: either the text did not parse (which
/// covers lexical failures), or the parsed expression did not evaluate.
#[derive(Debug, PartialEq)]
pub enum Error {
    Parse(ParserErr),
    Eval(EvalErr),
}

/// The mathematical shape of a pipeline failure.
pub enum ErrorView {
    Parse(ParserErr),
    Eval(EvalErrView),
}

impl View for Error {
    type V = ErrorView;

    open spec fn view(&self) -> ErrorView {
        match *self {
            Error::Parse(pe) => ErrorView::Parse(pe),
            Error::Eval(ref ee) => ErrorView::Eval(ee@),
        }
    }
}

/// What evaluating a piece of expression text under a context gives: the
/// value of the expression the whole text parses to, or the first failure
/// of the pipeline.
pub open spec fn spec_evaluate(ctx: CtxView, s: Seq<char>) -> Result<Value, ErrorView> {
    match spec_parse(s, 0) {
        Ok(e) => match spec_eval(ctx, e) {
            Ok(v) => Ok(v),
            Err(ee) => Err(ErrorView::Eval(ee)),
        },
        Err(pe) => Err(ErrorView::Parse(pe)),
    }
}

/// Evaluate expression text under a context: lex, parse, then walk the
/// tree.
pub fn evaluate(ctx: &Context, text: &str) -> (r: Result<Value, Error>)
    ensures
        (match r {
            Ok(v) => spec_evaluate(ctx@, text@) == Ok::<Value, ErrorView>(v),
            Err(e) => spec_evaluate(ctx@, text@) == Err::<Value, ErrorView>(e@),
        }),
{
    let lexer = Lexer::new(text);
    let mut parser = Parser::new(lexer);
    let expr = match parser.parse() {
        Ok(e) => e,
        Err(pe) => {
            return Err(Error::Parse(pe));
        },
    };
    match eval::eval(ctx, &expr) {
        Ok(v) => Ok(v),
        Err(ee) => Err(Error::Eval(ee)),
    }
}

/// Law (one proved piece of the render/re-parse round trip, whose general
/// form the tests exercise): rendering an integer-literal expression and
/// parsing the text back yields an expression that evaluates, under every
/// context, to the value of the original -- the literal's own integer.
pub proof fn lemma_render_reparse_int_atom(ctx: CtxView, i: i64)
    requires
        0 <= i,
    ensures
        spec_eval(ctx, nodes::ExprView::Atom(nodes::AtomView::Int(i))) == Ok::<
            Value,
            EvalErrView,
        >(Value::Int(i)),
        spec_evaluate(ctx, nodes::spec_render_expr(nodes::ExprView::Atom(nodes::AtomView::Int(i))))
            == Ok::<Value, ErrorView>(Value::Int(i)),
{
    let s = nodes::spec_udec_text(i as int);
    nodes::lemma_udec_text_digits(i as int);
    parser::lemma_digits_value_of_udec(i as int);
    // evaluating the atom gives the literal's integer
    assert(spec_eval_atom(ctx, nodes::AtomView::Int(i)) == Ok::<Value, EvalErrView>(Value::Int(i)));
    // the rendering of the atom is the digit text
    assert(nodes::spec_int_text(i) == s);
    assert(nodes::spec_render_atom(nodes::AtomView::Int(i)) == nodes::spec_int_text(i));
    assert(nodes::spec_render_expr(nodes::ExprView::Atom(nodes::AtomView::Int(i))) == s);
    // the digit text lexes as one decimal integer token covering it all
    assert(lexer::spec_skip_spaces(s, 0) == 0);
    assert(s[0] as u32 >= 48 && s[0] as u32 <= 57);
    if s.len() > 1 {
        assert(lexer::is_dec_digit(s[1 as int]));
        assert(!lexer::is_radix_marker(s[1 as int]));
    }
    lexer::lemma_scan_digits_full(s, 0, 10);
    let (t0, p1) = lexer::spec_read_token(s, 0);
    assert(s.subrange(0, s.len() as int) =~= s);
    assert(t0 == Ok::<token::TokenView, lexer::LexerErr>(token::TokenView::Int(s, 10, 0)));
    assert(p1 == s.len());
    // the token's digit text is worth the literal's integer
    assert(parser::spec_parse_int(s, 10) == Some(i));
    // after the token only the end marker is left
    assert(lexer::spec_skip_spaces(s, s.len() as int) == s.len());
    assert(lexer::spec_read_token(s, s.len() as int) == (
        Ok::<token::TokenView, lexer::LexerErr>(token::TokenView::Eof(s.len() as int)),
        s.len() as int,
    ));
    let atom = nodes::ExprView::Atom(nodes::AtomView::Int(i));
    assert(parser::spec_parse_loop(s, s.len() as int, atom, 0, parser::MAX_NESTING_DEPTH as nat)
        == Ok::<(nodes::ExprView, int), ParserErr>((atom, s.len() as int)));
    assert(parser::spec_parse_expr(s, 0, 0, parser::MAX_NESTING_DEPTH as nat) == Ok::<
        (nodes::ExprView, int),
        ParserErr,
    >((atom, s.len() as int)));
    assert(parser::spec_parse(s, 0) == Ok::<nodes::ExprView, ParserErr>(atom));
}

/// Law (a second proved piece of the render/re-parse round trip): rendering
/// a constant-reference expression and parsing the text back yields an
/// expression that evaluates, under every context, to whatever the original
/// evaluates to -- the constant the name resolves to, or the failure naming
/// it.
pub proof fn lemma_render_reparse_const_atom(ctx: CtxView, name: Seq<char>)
    requires
        name.len() >= 1,
        forall|j: int| 0 <= j < name.len() ==> lexer::is_alpha(#[trigger] name[j]),
    ensures
        spec_evaluate(ctx, nodes::spec_render_expr(nodes::ExprView::Atom(nodes::AtomView::Const(name))))
            == (match spec_eval(ctx, nodes::ExprView::Atom(nodes::AtomView::Const(name))) {
            Ok(v) => Ok::<Value, ErrorView>(v),
            Err(ee) => Err::<Value, ErrorView>(ErrorView::Eval(ee)),
        }),
{
    let s = name;
    assert(nodes::spec_render_atom(nodes::AtomView::Const(name)) == s);
    assert(nodes::spec_render_expr(nodes::ExprView::Atom(nodes::AtomView::Const(name))) == s);
    // the name lexes as one name token covering the whole text
    assert(lexer::spec_skip_spaces(s, 0) == 0);
    assert(65 <= s[0] as u32 <= 90 || 97 <= s[0] as u32 <= 122);
    lexer::lemma_scan_alpha_full(s, 0);
    let (t0, p1) = lexer::spec_read_token(s, 0);
    assert(s.subrange(0, s.len() as int) =~= s);
    assert(t0 == Ok::<token::TokenView, lexer::LexerErr>(token::TokenView::Name(s, 0)));
    assert(p1 == s.len());
    // after the token only the end marker is left, so the name is a
    // constant reference, not a call
    assert(lexer::spec_skip_spaces(s, s.len() as int) == s.len());
    assert(lexer::spec_read_token(s, s.len() as int) == (
        Ok::<token::TokenView, lexer::LexerErr>(token::TokenView::Eof(s.len() as int)),
        s.len() as int,
    ));
    let atom = nodes::ExprView::Atom(nodes::AtomView::Const(name));
    assert(parser::spec_parse_loop(s, s.len() as int, atom, 0, parser::MAX_NESTING_DEPTH as nat)
        == Ok::<(nodes::ExprView, int), ParserErr>((atom, s.len() as int)));
    assert(parser::spec_parse_expr(s, 0, 0, parser::MAX_NESTING_DEPTH as nat) == Ok::<
        (nodes::ExprView, int),
        ParserErr,
    >((atom, s.len() as int)));
    assert(parser::spec_parse(s, 0) == Ok::<nodes::ExprView, ParserErr>(atom));
}

/// The default context: constants `pi` and `e`, the full built-in function
/// library, and bitwise operations on floating operands disallowed.
pub fn create_default_context() -> (r: Context)
    ensures
        r@.consts == constants::spec_builtin_consts(),
        r@.funcs == functions::spec_builtin_funcs(),
        !r@.allow_floating_bitwise_operations,
{
    Context::new(constants::builtin_consts(), functions::builtin_funcs())
}

} // verus!
