//! The evaluator: a single-pass tree walk that reduces an expression to a
//! value against a read-only context, resolving constant and function
//! names only now.

use crate::context::{spec_lookup, Context, CtxView};
use crate::functions::{apply_builtin, spec_apply};
use crate::nodes::{atom_view, expr_view, exprs_view_seq, Atom, BinOp, Expr, UnOp};
use crate::nodes::{AtomView, ExprView};
use crate::value::{
    spec_add, spec_as_int, spec_div, spec_mul, spec_neg, spec_pow, spec_rem, spec_sub, Value,
};
use vstd::prelude::*;

verus! {

broadcast use vstd::std_specs::vec::axiom_vec_index_decreases;

/// An evaluation failure: an unresolved constant or function name (which
/// the failure carries), a call with the wrong number of arguments
/// (expected at least, actual), an argument outside a function's domain,
/// or a bitwise operation on a floating operand that the context's policy
/// forbids.
#[derive(Debug, PartialEq)]
pub enum EvalErr {
    ConstNotExists(String),
    FuncNotExists(String),
    IncorrectArgumentCount(usize, usize),
    InvalidArgument,
    InvalidFloatingPointOperation,
}

/// The mathematical shape of an evaluation failure.
pub enum EvalErrView {
    ConstNotExists(Seq<char>),
    FuncNotExists(Seq<char>),
    IncorrectArgumentCount(int, int),
    InvalidArgument,
    InvalidFloatingPointOperation,
}

impl View for EvalErr {
    type V = EvalErrView;

    open spec fn view(&self) -> EvalErrView {
        match *self {
            EvalErr::ConstNotExists(ref s) => EvalErrView::ConstNotExists(s@),
            EvalErr::FuncNotExists(ref s) => EvalErrView::FuncNotExists(s@),
            EvalErr::IncorrectArgumentCount(e, a) => EvalErrView::IncorrectArgumentCount(
                e as int,
                a as int,
            ),
            EvalErr::InvalidArgument => EvalErrView::InvalidArgument,
            EvalErr::InvalidFloatingPointOperation => EvalErrView::InvalidFloatingPointOperation,
        }
    }
}

impl EvalErr {
    /// An evaluation result with its failure abstracted to its view.
    pub open spec fn result_view(r: Result<Value, EvalErr>) -> Result<Value, EvalErrView> {
        match r {
            Ok(v) => Ok(v),
            Err(e) => Err(e@),
        }
    }
}

/// What a prefix operator gives on an evaluated operand: `+` is the
/// identity, `-` negates preserving the tag, and bitwise `~` complements
/// the integer coercion -- allowed on a floating operand only under the
/// context's policy flag.
pub open spec fn spec_apply_unop(op: UnOp, v: Value, allow: bool) -> Result<Value, EvalErrView> {
    match op {
        UnOp::Pos => Ok(v),
        UnOp::Neg => Ok(spec_neg(v)),
        UnOp::Not => if v is Int || allow {
            Ok(Value::Int(!spec_as_int(v)))
        } else {
            Err(EvalErrView::InvalidFloatingPointOperation)
        },
    }
}

/// What an infix operator gives on evaluated operands. The arithmetic
/// operators follow the value coercion rules; the bitwise operators work
/// on the integer coercions and are allowed with a floating operand only
/// where the other operand is an integer or the context's policy flag is
/// set.
pub open spec fn spec_apply_binop(op: BinOp, a: Value, b: Value, allow: bool) -> Result<
    Value,
    EvalErrView,
> {
    match op {
        BinOp::Plus => Ok(spec_add(a, b)),
        BinOp::Minus => Ok(spec_sub(a, b)),
        BinOp::Mul => Ok(spec_mul(a, b)),
        BinOp::Div => Ok(spec_div(a, b)),
        BinOp::Mod => Ok(spec_rem(a, b)),
        BinOp::Pow => Ok(spec_pow(a, b)),
        BinOp::And => if a is Int || b is Int || allow {
            Ok(Value::Int(spec_as_int(a) & spec_as_int(b)))
        } else {
            Err(EvalErrView::InvalidFloatingPointOperation)
        },
        BinOp::Or => if a is Int || b is Int || allow {
            Ok(Value::Int(spec_as_int(a) | spec_as_int(b)))
        } else {
            Err(EvalErrView::InvalidFloatingPointOperation)
        },
        BinOp::Xor => if a is Int || b is Int || allow {
            Ok(Value::Int(spec_as_int(a) ^ spec_as_int(b)))
        } else {
            Err(EvalErrView::InvalidFloatingPointOperation)
        },
    }
}

/// The value of an expression under a context.
pub open spec fn spec_eval(ctx: CtxView, e: ExprView) -> Result<Value, EvalErrView>
    decreases e,
{
    match e {
        ExprView::Atom(a) => spec_eval_atom(ctx, a),
        ExprView::UnOp(op, inner) => match spec_eval(ctx, *inner) {
            Ok(v) => spec_apply_unop(op, v, ctx.allow_floating_bitwise_operations),
            Err(err) => Err(err),
        },
        ExprView::BinOp(op, lhs, rhs) => match spec_eval(ctx, *lhs) {
            Ok(a) => match spec_eval(ctx, *rhs) {
                Ok(b) => spec_apply_binop(op, a, b, ctx.allow_floating_bitwise_operations),
                Err(err) => Err(err),
            },
            Err(err) => Err(err),
        },
    }
}

/// The value of an atom under a context: literals are their values, a
/// constant reference resolves case-insensitively or fails naming itself,
/// and a function call evaluates its arguments left to right before the
/// function is even resolved.
pub open spec fn spec_eval_atom(ctx: CtxView, a: AtomView) -> Result<Value, EvalErrView>
    decreases a,
{
    match a {
        AtomView::Int(i) => Ok(Value::Int(i)),
        AtomView::Float(b) => Ok(Value::Float(b)),
        AtomView::Const(name) => match spec_lookup(ctx.consts, name) {
            Some(v) => Ok(v),
            None => Err(EvalErrView::ConstNotExists(name)),
        },
        AtomView::Func(name, args) => match spec_eval_args(ctx, args) {
            Ok(vals) => match spec_lookup(ctx.funcs, name) {
                Some(f) => spec_apply(f, vals),
                None => Err(EvalErrView::FuncNotExists(name)),
            },
            Err(err) => Err(err),
        },
    }
}

/// The values of a list of argument expressions, evaluated left to right;
/// the first failure wins.
pub open spec fn spec_eval_args(ctx: CtxView, args: Seq<ExprView>) -> Result<
    Seq<Value>,
    EvalErrView,
>
    decreases args,
{
    if args.len() == 0 {
        Ok(Seq::empty())
    } else {
        match spec_eval_args(ctx, args.drop_last()) {
            Ok(vals) => match spec_eval(ctx, args.last()) {
                Ok(v) => Ok(vals.push(v)),
                Err(err) => Err(err),
            },
            Err(err) => Err(err),
        }
    }
}

/// Evaluate an expression under a context.
pub fn eval(ctx: &Context, expr: &Expr) -> (r: Result<Value, EvalErr>)
    ensures
        EvalErr::result_view(r) == spec_eval(ctx@, expr@),
{
    eval_expr(ctx, expr)
}

fn eval_expr(ctx: &Context, expr: &Expr) -> (r: Result<Value, EvalErr>)
    ensures
        EvalErr::result_view(r) == spec_eval(ctx@, expr_view(*expr)),
    decreases *expr,
{
    match expr {
        Expr::Atom(a) => eval_atom(ctx, a),
        Expr::UnOp(op, e) => {
            let v = match eval_expr(ctx, e) {
                Ok(v) => v,
                Err(err) => {
                    return Err(err);
                },
            };
            eval_unop(ctx, op, v)
        },
        Expr::BinOp(op, lhs, rhs) => {
            let lvalue = match eval_expr(ctx, lhs) {
                Ok(v) => v,
                Err(err) => {
                    return Err(err);
                },
            };
            let rvalue = match eval_expr(ctx, rhs) {
                Ok(v) => v,
                Err(err) => {
                    return Err(err);
                },
            };
            eval_binop(ctx, op, lvalue, rvalue)
        },
    }
}

/// Apply a prefix operator to an evaluated operand.
fn eval_unop(ctx: &Context, op: &UnOp, v: Value) -> (r: Result<Value, EvalErr>)
    ensures
        EvalErr::result_view(r) == spec_apply_unop(*op, v, ctx@.allow_floating_bitwise_operations),
{
    match op {
        UnOp::Pos => Ok(v),
        UnOp::Neg => Ok(v.neg()),
        UnOp::Not => {
            match v {
                Value::Int(i) => Ok(Value::Int(!i)),
                Value::Float(_) => {
                    if ctx.allow_floating_bitwise_operations {
                        Ok(Value::Int(!v.as_int()))
                    } else {
                        Err(EvalErr::InvalidFloatingPointOperation)
                    }
                },
            }
        },
    }
}

/// Apply an infix operator to evaluated operands.
fn eval_binop(ctx: &Context, op: &BinOp, lvalue: Value, rvalue: Value) -> (r: Result<
    Value,
    EvalErr,
>)
    ensures
        EvalErr::result_view(r) == spec_apply_binop(
            *op,
            lvalue,
            rvalue,
            ctx@.allow_floating_bitwise_operations,
        ),
{
    match op {
        BinOp::Plus => Ok(lvalue.add(rvalue)),
        BinOp::Minus => Ok(lvalue.sub(rvalue)),
        BinOp::Mul => Ok(lvalue.mul(rvalue)),
        BinOp::Div => Ok(lvalue.div(rvalue)),
        BinOp::Mod => Ok(lvalue.rem(rvalue)),
        BinOp::Pow => Ok(lvalue.pow(rvalue)),
        BinOp::And => {
            if matches!(lvalue, Value::Int(_)) || matches!(rvalue, Value::Int(_))
                || ctx.allow_floating_bitwise_operations {
                Ok(Value::Int(lvalue.as_int() & rvalue.as_int()))
            } else {
                Err(EvalErr::InvalidFloatingPointOperation)
            }
        },
        BinOp::Or => {
            if matches!(lvalue, Value::Int(_)) || matches!(rvalue, Value::Int(_))
                || ctx.allow_floating_bitwise_operations {
                Ok(Value::Int(lvalue.as_int() | rvalue.as_int()))
            } else {
                Err(EvalErr::InvalidFloatingPointOperation)
            }
        },
        BinOp::Xor => {
            if matches!(lvalue, Value::Int(_)) || matches!(rvalue, Value::Int(_))
                || ctx.allow_floating_bitwise_operations {
                Ok(Value::Int(lvalue.as_int() ^ rvalue.as_int()))
            } else {
                Err(EvalErr::InvalidFloatingPointOperation)
            }
        },
    }
}

fn eval_atom(ctx: &Context, atom: &Atom) -> (r: Result<Value, EvalErr>)
    ensures
        EvalErr::result_view(r) == spec_eval_atom(ctx@, atom_view(*atom)),
    decreases *atom,
{
    match atom {
        Atom::Int(i) => Ok(Value::Int(*i)),
        Atom::Float(b) => Ok(Value::Float(*b)),
        Atom::Const(name) => eval_const(ctx, name),
        Atom::Func(name, args) => {
            let values = match eval_args(ctx, args) {
                Ok(vs) => vs,
                Err(err) => {
                    return Err(err);
                },
            };
            eval_func(ctx, name, &values)
        },
    }
}

/// The values of the argument expressions, left to right; the first
/// failure wins.
fn eval_args(ctx: &Context, args: &Vec<Expr>) -> (r: Result<Vec<Value>, EvalErr>)
    ensures
        (match r {
            Ok(vs) => spec_eval_args(ctx@, exprs_view_seq(args@)) == Ok::<Seq<Value>, EvalErrView>(
                vs@,
            ),
            Err(err) => spec_eval_args(ctx@, exprs_view_seq(args@)) == Err::<
                Seq<Value>,
                EvalErrView,
            >(err@),
        }),
    decreases *args,
{
    let ghost av = exprs_view_seq(args@);
    proof {
        crate::nodes::lemma_exprs_view_seq(args@);
    }
    let mut values: Vec<Value> = Vec::new();
    let mut i: usize = 0;
    while i < args.len()
        invariant
            0 <= i <= args@.len(),
            av == exprs_view_seq(args@),
            av.len() == args@.len(),
            forall|j: int| 0 <= j < args@.len() ==> #[trigger] av[j] == expr_view(args@[j]),
            spec_eval_args(ctx@, av.subrange(0, i as int)) == Ok::<Seq<Value>, EvalErrView>(
                values@,
            ),
        decreases args@.len() - i,
    {
        proof {
            assert(av.subrange(0, i + 1).drop_last() =~= av.subrange(0, i as int));
            assert(av.subrange(0, i + 1).last() == av[i as int]);
        }
        let v = match eval_expr(ctx, &args[i]) {
            Ok(v) => v,
            Err(err) => {
                proof {
                    lemma_eval_args_error(ctx@, av, i as int, err@);
                }
                return Err(err);
            },
        };
        values.push(v);
        i += 1;
    }
    proof {
        assert(av.subrange(0, args@.len() as int) =~= av);
    }
    Ok(values)
}

/// A failure at argument `i` is the failure of the whole list, provided
/// every earlier argument evaluated.
proof fn lemma_eval_args_error(ctx: CtxView, args: Seq<ExprView>, i: int, err: EvalErrView)
    requires
        0 <= i < args.len(),
        spec_eval_args(ctx, args.subrange(0, i)) is Ok,
        spec_eval(ctx, args[i]) == Err::<Value, EvalErrView>(err),
    ensures
        spec_eval_args(ctx, args) == Err::<Seq<Value>, EvalErrView>(err),
    decreases args.len(),
{
    if i == args.len() - 1 {
        assert(args.drop_last() =~= args.subrange(0, i));
        assert(args.last() == args[i]);
    } else {
        assert(args.drop_last().subrange(0, i) =~= args.subrange(0, i));
        assert(args.drop_last()[i] == args[i]);
        lemma_eval_args_error(ctx, args.drop_last(), i, err);
    }
}

fn eval_const(ctx: &Context, name: &String) -> (r: Result<Value, EvalErr>)
    ensures
        EvalErr::result_view(r) == (match spec_lookup(ctx@.consts, name@) {
            Some(v) => Ok::<Value, EvalErrView>(v),
            None => Err(EvalErrView::ConstNotExists(name@)),
        }),
{
    match ctx.lookup_const(name.as_str()) {
        Some(v) => Ok(v),
        None => Err(EvalErr::ConstNotExists(name.clone())),
    }
}

fn eval_func(ctx: &Context, name: &String, args: &Vec<Value>) -> (r: Result<Value, EvalErr>)
    ensures
        EvalErr::result_view(r) == (match spec_lookup(ctx@.funcs, name@) {
            Some(f) => spec_apply(f, args@),
            None => Err(EvalErrView::FuncNotExists(name@)),
        }),
{
    match ctx.lookup_func(name.as_str()) {
        Some(f) => apply_builtin(f, args.as_slice()),
        None => Err(EvalErr::FuncNotExists(name.clone())),
    }
}

} // verus!
