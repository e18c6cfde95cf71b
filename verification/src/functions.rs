//! The built-in function library: trigonometry, extrema, averaging,
//! rounding, logarithm, unit conversion and combinatorics, each checking
//! its arity first and auto-normalizing a whole double result back to an
//! integer.

use crate::context::BuiltinFn;
use crate::eval::{EvalErr, EvalErrView};
use crate::fbits::{
    add_bits, ceil_bits, cos_bits, div_bits, f_eq, f_lt, float_add, float_ceil, float_cos,
    float_div, float_eq, float_floor, float_ln, float_lt, float_mul, float_of_int, float_sin,
    float_tan, floor_bits, int_to_bits, ln_bits, mul_bits, sin_bits, tan_bits, F_DEG_PER_RAD,
    F_ONE, F_RAD_PER_DEG, F_ZERO,
};
use crate::value::{spec_as_float, spec_auto, spec_t_div, Value};
use vstd::prelude::*;

verus! {

/// The argument at the extreme under `<` on the double coercions, scanning
/// left to right from `best`: the first seen of equals wins, NaN never
/// displaces the holder.
pub open spec fn spec_min_fold(args: Seq<Value>, i: int, best: Value) -> Value
    decreases args.len() - i when 0 <= i <= args.len()
{
    if i >= args.len() {
        best
    } else {
        spec_min_fold(
            args,
            i + 1,
            if f_lt(spec_as_float(args[i]), spec_as_float(best)) {
                args[i]
            } else {
                best
            },
        )
    }
}

/// The argument at the extreme under `>` on the double coercions, scanning
/// left to right from `best`.
pub open spec fn spec_max_fold(args: Seq<Value>, i: int, best: Value) -> Value
    decreases args.len() - i when 0 <= i <= args.len()
{
    if i >= args.len() {
        best
    } else {
        spec_max_fold(
            args,
            i + 1,
            if f_lt(spec_as_float(best), spec_as_float(args[i])) {
                args[i]
            } else {
                best
            },
        )
    }
}

/// The extremal fold hands back its seed or one of the scanned arguments.
pub proof fn lemma_min_fold_is_an_argument(args: Seq<Value>, i: int, best: Value)
    requires
        0 <= i <= args.len(),
    ensures
        spec_min_fold(args, i, best) == best || exists|j: int|
            i <= j < args.len() && spec_min_fold(args, i, best) == args[j],
    decreases args.len() - i,
{
    if i < args.len() {
        let next = if f_lt(spec_as_float(args[i]), spec_as_float(best)) {
            args[i]
        } else {
            best
        };
        lemma_min_fold_is_an_argument(args, i + 1, next);
        if spec_min_fold(args, i, best) == next && next == args[i] {
            assert(i <= i < args.len() && spec_min_fold(args, i, best) == args[i]);
        }
    }
}

/// The extremal fold hands back its seed or one of the scanned arguments.
pub proof fn lemma_max_fold_is_an_argument(args: Seq<Value>, i: int, best: Value)
    requires
        0 <= i <= args.len(),
    ensures
        spec_max_fold(args, i, best) == best || exists|j: int|
            i <= j < args.len() && spec_max_fold(args, i, best) == args[j],
    decreases args.len() - i,
{
    if i < args.len() {
        let next = if f_lt(spec_as_float(best), spec_as_float(args[i])) {
            args[i]
        } else {
            best
        };
        lemma_max_fold_is_an_argument(args, i + 1, next);
        if spec_max_fold(args, i, best) == next && next == args[i] {
            assert(i <= i < args.len() && spec_max_fold(args, i, best) == args[i]);
        }
    }
}

/// Law: what `min` or `max` returns is one of the arguments themselves --
/// the original value, tag included, of the extremal argument, never a
/// value re-derived from the floating comparison.
pub proof fn lemma_extremal_returns_an_argument(f: BuiltinFn, args: Seq<Value>)
    requires
        f == BuiltinFn::Min || f == BuiltinFn::Max,
        args.len() >= 2,
    ensures
        spec_apply(f, args) matches Ok(v) ==> exists|j: int| 0 <= j < args.len() && v == args[j],
{
    if f == BuiltinFn::Min {
        lemma_min_fold_is_an_argument(args, 1, args[0]);
        if spec_min_fold(args, 1, args[0]) == args[0] {
            assert(0 <= 0 < args.len() && spec_min_fold(args, 1, args[0]) == args[0]);
        }
    } else {
        lemma_max_fold_is_an_argument(args, 1, args[0]);
        if spec_max_fold(args, 1, args[0]) == args[0] {
            assert(0 <= 0 < args.len() && spec_max_fold(args, 1, args[0]) == args[0]);
        }
    }
}

/// The double sum of the coercions of the arguments from `i` on, folded
/// left to right onto `acc`.
pub open spec fn spec_sum_fold(args: Seq<Value>, i: int, acc: u64) -> u64
    decreases args.len() - i when 0 <= i <= args.len()
{
    if i >= args.len() {
        acc
    } else {
        spec_sum_fold(args, i + 1, add_bits(acc, spec_as_float(args[i])))
    }
}

/// The factorial of `n` computed with wrapping 64-bit multiplication, as
/// the product of 1..n.
pub open spec fn spec_fact_wrap(n: int) -> i64
    decreases n when n >= 0
{
    if n <= 1 {
        1i64
    } else {
        vstd::wrapping::i64_specs::wrapping_mul(spec_fact_wrap(n - 1), n as i64)
    }
}

/// The mathematical factorial.
pub open spec fn spec_fact(n: int) -> int
    decreases n when n >= 0
{
    if n <= 1 {
        1
    } else {
        n * spec_fact(n - 1)
    }
}

/// The factorial is at least one.
pub proof fn lemma_fact_pos(n: int)
    requires
        n >= 0,
    ensures
        spec_fact(n) >= 1,
    decreases n,
{
    if n > 1 {
        lemma_fact_pos(n - 1);
        assert(n * spec_fact(n - 1) >= 1) by (nonlinear_arith)
            requires
                n >= 2,
                spec_fact(n - 1) >= 1,
        ;
    }
}

/// Where the mathematical factorial fits a signed 64-bit integer, the
/// wrapping product computes it exactly.
pub proof fn lemma_fact_wrap_exact(n: int)
    requires
        0 <= n,
        spec_fact(n) <= i64::MAX,
    ensures
        spec_fact_wrap(n) == spec_fact(n),
    decreases n,
{
    if n > 1 {
        lemma_fact_pos(n - 1);
        assert(spec_fact(n - 1) <= spec_fact(n)) by (nonlinear_arith)
            requires
                n >= 2,
                spec_fact(n - 1) >= 1,
                spec_fact(n) == n * spec_fact(n - 1),
        ;
        assert(n <= spec_fact(n)) by (nonlinear_arith)
            requires
                n >= 2,
                spec_fact(n - 1) >= 1,
                spec_fact(n) == n * spec_fact(n - 1),
        ;
        lemma_fact_wrap_exact(n - 1);
        vstd::arithmetic::div_mod::lemma_small_mod(
            spec_fact(n) as nat,
            0x1_0000_0000_0000_0000nat,
        );
        assert(n as i64 == n);
        assert(spec_fact_wrap(n - 1) * (n as i64) == spec_fact(n)) by (nonlinear_arith)
            requires
                spec_fact_wrap(n - 1) == spec_fact(n - 1),
                n as i64 == n,
                spec_fact(n) == n * spec_fact(n - 1),
        ;
        assert(vstd::wrapping::i64_specs::signed_crop(spec_fact(n)) == spec_fact(n));
    }
}

/// The first `i` steps of the multiplicative binomial accumulation
/// `acc = acc * (n - k) / (k + 1)`, with wrapping multiplication and
/// subtraction and truncating division.
pub open spec fn spec_ncr_partial(n: i64, i: int) -> i64
    decreases i when i >= 0
{
    if i <= 0 {
        1i64
    } else {
        spec_t_div(
            vstd::wrapping::i64_specs::wrapping_mul(
                spec_ncr_partial(n, i - 1),
                vstd::wrapping::i64_specs::wrapping_sub(n, (i - 1) as i64),
            ),
            i as i64,
        )
    }
}

/// The first `i` steps of the falling-factorial accumulation
/// `acc = acc * (n - k)`, with wrapping arithmetic.
pub open spec fn spec_npr_partial(n: i64, i: int) -> i64
    decreases i when i >= 0
{
    if i <= 0 {
        1i64
    } else {
        vstd::wrapping::i64_specs::wrapping_mul(
            spec_npr_partial(n, i - 1),
            vstd::wrapping::i64_specs::wrapping_sub(n, (i - 1) as i64),
        )
    }
}

/// The binomial coefficient, by Pascal's rule.
pub open spec fn spec_binom(n: int, k: int) -> int
    decreases n,
{
    if k < 0 || k > n {
        0
    } else if k == 0 {
        1
    } else {
        spec_binom(n - 1, k - 1) + spec_binom(n - 1, k)
    }
}

/// The binomial coefficient of a choice that can be made is at least one.
pub proof fn lemma_binom_pos(n: int, k: int)
    ensures
        spec_binom(n, k) >= 0,
        0 <= k <= n ==> spec_binom(n, k) >= 1,
    decreases n,
{
    if 0 < k <= n {
        lemma_binom_pos(n - 1, k - 1);
        lemma_binom_pos(n - 1, k);
    }
}

/// The absorption identity: `(k+1) * C(n, k+1) == (n-k) * C(n, k)`.
pub proof fn lemma_binom_absorb(n: int, k: int)
    requires
        0 <= k <= n,
    ensures
        (k + 1) * spec_binom(n, k + 1) == (n - k) * spec_binom(n, k),
    decreases n,
{
    if k == n {
        assert(spec_binom(n, k + 1) == 0);
        assert((k + 1) * 0 == 0) by (nonlinear_arith);
        assert((n - k) * spec_binom(n, k) == 0) by (nonlinear_arith)
            requires
                n - k == 0,
        ;
    } else if k == 0 {
        assert(n >= 1);
        lemma_binom_absorb(n - 1, 0);
        assert(spec_binom(n - 1, 1) == (n - 1) * spec_binom(n - 1, 0)) by (nonlinear_arith)
            requires
                1 * spec_binom(n - 1, 1) == (n - 1 - 0) * spec_binom(n - 1, 0),
        ;
        assert(spec_binom(n, 1) == spec_binom(n - 1, 0) + spec_binom(n - 1, 1));
        assert(spec_binom(n - 1, 0) == 1);
        assert((0 + 1) * spec_binom(n, 1) == spec_binom(n, 1)) by (nonlinear_arith);
        assert((n - 0) * spec_binom(n, 0) == n) by (nonlinear_arith)
            requires
                spec_binom(n, 0) == 1,
        ;
    } else {
        lemma_binom_absorb(n - 1, k);
        lemma_binom_absorb(n - 1, k - 1);
        let bk = spec_binom(n - 1, k);
        let bk1 = spec_binom(n - 1, k + 1);
        let bkm = spec_binom(n - 1, k - 1);
        assert(spec_binom(n, k + 1) == bk + bk1);
        assert(spec_binom(n, k) == bkm + bk);
        assert((k + 1) * bk1 == (n - 1 - k) * bk);
        assert(k * bk == (n - k) * bkm) by (nonlinear_arith)
            requires
                (k - 1 + 1) * spec_binom(n - 1, k) == (n - 1 - (k - 1)) * spec_binom(n - 1, k - 1),
                bk == spec_binom(n - 1, k),
                bkm == spec_binom(n - 1, k - 1),
        ;
        assert((k + 1) * (bk + bk1) == (n - k) * (bkm + bk)) by (nonlinear_arith)
            requires
                (k + 1) * bk1 == (n - 1 - k) * bk,
                k * bk == (n - k) * bkm,
        ;
    }
}

/// The binomial coefficient is symmetric: `C(n, k) == C(n, n-k)`.
pub proof fn lemma_binom_symmetry(n: int, k: int)
    requires
        0 <= k <= n,
    ensures
        spec_binom(n, k) == spec_binom(n, n - k),
    decreases n,
{
    if n == 0 {
        assert(spec_binom(0, 0) == 1);
    } else if k == 0 {
        lemma_binom_symmetry(n - 1, 0);
        assert(spec_binom(n, n) == spec_binom(n - 1, n - 1) + spec_binom(n - 1, n));
        assert(spec_binom(n - 1, n) == 0);
    } else if k == n {
        lemma_binom_symmetry(n - 1, 0);
        assert(spec_binom(n, n) == spec_binom(n - 1, n - 1) + spec_binom(n - 1, n));
        assert(spec_binom(n - 1, n) == 0);
    } else {
        lemma_binom_symmetry(n - 1, k);
        lemma_binom_symmetry(n - 1, k - 1);
        assert(spec_binom(n, k) == spec_binom(n - 1, k - 1) + spec_binom(n - 1, k));
        assert(spec_binom(n, n - k) == spec_binom(n - 1, n - k - 1) + spec_binom(n - 1, n - k));
        assert(spec_binom(n - 1, n - k - 1) == spec_binom(n - 1, (n - 1) - (n - k - 1)));
        assert((n - 1) - (n - k - 1) == k);
        assert(spec_binom(n - 1, n - k) == spec_binom(n - 1, k - 1));
    }
}

/// Where every intermediate product fits a signed 64-bit integer, the
/// multiplicative accumulation computes the binomial coefficient exactly:
/// each division is by a divisor that divides its dividend.
pub proof fn lemma_ncr_partial_is_binomial(n: i64, steps: int)
    requires
        0 <= steps <= n,
        forall|j: int| 0 <= j < steps ==> spec_binom(n as int, j) * (n - j) <= i64::MAX,
    ensures
        spec_ncr_partial(n, steps) == spec_binom(n as int, steps),
    decreases steps,
{
    if steps > 0 {
        let i = steps;
        lemma_ncr_partial_is_binomial(n, i - 1);
        lemma_binom_pos(n as int, i - 1);
        lemma_binom_pos(n as int, i);
        let b = spec_binom(n as int, i - 1);
        let m = n - (i - 1);
        // the wrapping subtraction and multiplication stay in range
        assert(vstd::wrapping::i64_specs::wrapping_sub(n, (i - 1) as i64) == m);
        assert(b * m <= i64::MAX);
        assert(b * m >= b) by (nonlinear_arith)
            requires
                b >= 1,
                m >= 1,
        ;
        vstd::arithmetic::div_mod::lemma_small_mod((b * m) as nat, 0x1_0000_0000_0000_0000nat);
        assert(vstd::wrapping::i64_specs::signed_crop(b * m) == b * m);
        assert(vstd::wrapping::i64_specs::wrapping_mul(b as i64, m as i64) == b * m);
        // absorption makes the division exact
        lemma_binom_absorb(n as int, i - 1);
        assert(i * spec_binom(n as int, i) == m * b);
        assert(b * m == m * b) by (nonlinear_arith);
        assert(b * m == i * spec_binom(n as int, i));
        vstd::arithmetic::div_mod::lemma_div_multiples_vanish(spec_binom(n as int, i), i);
        assert((i * spec_binom(n as int, i)) / i == spec_binom(n as int, i));
        assert(spec_t_div((b * m) as i64, i as i64) == spec_binom(n as int, i));
    }
}

/// Law: on integer arguments `0 <= r <= n` whose intermediate products fit
/// a signed 64-bit integer, `ncr` returns exactly the binomial coefficient
/// `C(n, r)`.
pub proof fn lemma_ncr_is_binomial(n: i64, r: i64)
    requires
        0 <= r <= n,
        forall|j: int|
            0 <= j < spec_comb_steps(n, r) ==> spec_binom(n as int, j) * (n - j) <= i64::MAX,
    ensures
        spec_apply(BuiltinFn::Ncr, seq![Value::Int(n), Value::Int(r)]) matches Ok(v) && v
            == Value::Int(spec_binom(n as int, r as int) as i64),
{
    let args = seq![Value::Int(n), Value::Int(r)];
    assert(args.len() == 2);
    assert(crate::value::spec_as_int(args[0]) == n);
    assert(crate::value::spec_as_int(args[1]) == r);
    let d = vstd::wrapping::i64_specs::wrapping_sub(n, r);
    assert(d == n - r);
    let steps = spec_comb_steps(n, r);
    assert(steps == if r < n - r {
        r as int
    } else {
        n - r
    });
    lemma_ncr_partial_is_binomial(n, steps as int);
    if r < n - r {
        assert(spec_binom(n as int, steps as int) == spec_binom(n as int, r as int));
    } else {
        lemma_binom_symmetry(n as int, r as int);
        assert(spec_binom(n as int, steps as int) == spec_binom(n as int, r as int));
    }
}

/// How many loop steps the combinatorial functions take: `r` capped by
/// `n - r` (computed wrapping), never below zero.
pub open spec fn spec_comb_steps(n: i64, r: i64) -> i64 {
    let d = vstd::wrapping::i64_specs::wrapping_sub(n, r);
    if r < d {
        r
    } else {
        d
    }
}

/// What a built-in function returns on an evaluated argument list: the
/// arity failure where the count is wrong, the domain failure where an
/// argument is outside the function's domain, and the value otherwise.
pub open spec fn spec_apply(f: BuiltinFn, args: Seq<Value>) -> Result<Value, EvalErrView> {
    match f {
        BuiltinFn::Sin => if args.len() != 1 {
            Err(EvalErrView::IncorrectArgumentCount(1, args.len() as int))
        } else {
            Ok(spec_auto(sin_bits(spec_as_float(args[0]))))
        },
        BuiltinFn::Cos => if args.len() != 1 {
            Err(EvalErrView::IncorrectArgumentCount(1, args.len() as int))
        } else {
            Ok(spec_auto(cos_bits(spec_as_float(args[0]))))
        },
        BuiltinFn::Tan => if args.len() != 1 {
            Err(EvalErrView::IncorrectArgumentCount(1, args.len() as int))
        } else {
            Ok(spec_auto(tan_bits(spec_as_float(args[0]))))
        },
        BuiltinFn::Min => if args.len() < 2 {
            Err(EvalErrView::IncorrectArgumentCount(2, args.len() as int))
        } else {
            Ok(spec_min_fold(args, 1, args[0]))
        },
        BuiltinFn::Max => if args.len() < 2 {
            Err(EvalErrView::IncorrectArgumentCount(2, args.len() as int))
        } else {
            Ok(spec_max_fold(args, 1, args[0]))
        },
        BuiltinFn::Avg => if args.len() < 1 {
            Err(EvalErrView::IncorrectArgumentCount(1, args.len() as int))
        } else {
            Ok(
                spec_auto(
                    div_bits(
                        spec_sum_fold(args, 0, F_ZERO),
                        int_to_bits(args.len() as i64),
                    ),
                ),
            )
        },
        BuiltinFn::Ceil => if args.len() != 1 {
            Err(EvalErrView::IncorrectArgumentCount(1, args.len() as int))
        } else {
            Ok(spec_auto(ceil_bits(spec_as_float(args[0]))))
        },
        BuiltinFn::Floor => if args.len() != 1 {
            Err(EvalErrView::IncorrectArgumentCount(1, args.len() as int))
        } else {
            Ok(spec_auto(floor_bits(spec_as_float(args[0]))))
        },
        BuiltinFn::Log => if args.len() != 2 {
            Err(EvalErrView::IncorrectArgumentCount(2, args.len() as int))
        } else {
            let base = spec_as_float(args[0]);
            let value = spec_as_float(args[1]);
            if f_lt(base, F_ZERO) || f_eq(base, F_ZERO) || f_eq(base, F_ONE) {
                Err(EvalErrView::InvalidArgument)
            } else if f_lt(value, F_ZERO) || f_eq(value, F_ZERO) {
                Err(EvalErrView::InvalidArgument)
            } else {
                Ok(spec_auto(div_bits(ln_bits(value), ln_bits(base))))
            }
        },
        BuiltinFn::Deg => if args.len() != 1 {
            Err(EvalErrView::IncorrectArgumentCount(1, args.len() as int))
        } else {
            Ok(spec_auto(mul_bits(spec_as_float(args[0]), F_DEG_PER_RAD)))
        },
        BuiltinFn::Rad => if args.len() != 1 {
            Err(EvalErrView::IncorrectArgumentCount(1, args.len() as int))
        } else {
            Ok(spec_auto(mul_bits(spec_as_float(args[0]), F_RAD_PER_DEG)))
        },
        BuiltinFn::Fact => if args.len() != 1 {
            Err(EvalErrView::IncorrectArgumentCount(1, args.len() as int))
        } else {
            match args[0] {
                Value::Int(i) => if i < 0 {
                    Err(EvalErrView::InvalidArgument)
                } else {
                    Ok(Value::Int(spec_fact_wrap(i as int)))
                },
                Value::Float(_) => Err(EvalErrView::InvalidArgument),
            }
        },
        BuiltinFn::Ncr => if args.len() != 2 {
            Err(EvalErrView::IncorrectArgumentCount(2, args.len() as int))
        } else {
            let n = crate::value::spec_as_int(args[0]);
            let r = crate::value::spec_as_int(args[1]);
            if n < r {
                Ok(Value::Int(0))
            } else {
                Ok(
                    Value::Int(
                        spec_ncr_partial(
                            n,
                            if spec_comb_steps(n, r) >= 0 {
                                spec_comb_steps(n, r) as int
                            } else {
                                0
                            },
                        ),
                    ),
                )
            }
        },
        BuiltinFn::Npr => if args.len() != 2 {
            Err(EvalErrView::IncorrectArgumentCount(2, args.len() as int))
        } else {
            let n = crate::value::spec_as_int(args[0]);
            let r = crate::value::spec_as_int(args[1]);
            if n < r {
                Ok(Value::Int(0))
            } else {
                Ok(Value::Int(spec_npr_partial(n, if r >= 0 { r as int } else { 0 })))
            }
        },
    }
}

/// Sine of the single argument, in radians, auto-normalized.
pub fn sin(args: &[Value]) -> (r: Result<Value, EvalErr>)
    ensures
        EvalErr::result_view(r) == spec_apply(BuiltinFn::Sin, args@),
{
    if args.len() != 1 {
        return Err(EvalErr::IncorrectArgumentCount(1, args.len()));
    }
    Ok(Value::auto(float_sin(args[0].as_float())))
}

/// Cosine of the single argument, in radians, auto-normalized.
pub fn cos(args: &[Value]) -> (r: Result<Value, EvalErr>)
    ensures
        EvalErr::result_view(r) == spec_apply(BuiltinFn::Cos, args@),
{
    if args.len() != 1 {
        return Err(EvalErr::IncorrectArgumentCount(1, args.len()));
    }
    Ok(Value::auto(float_cos(args[0].as_float())))
}

/// Tangent of the single argument, in radians, auto-normalized.
pub fn tan(args: &[Value]) -> (r: Result<Value, EvalErr>)
    ensures
        EvalErr::result_view(r) == spec_apply(BuiltinFn::Tan, args@),
{
    if args.len() != 1 {
        return Err(EvalErr::IncorrectArgumentCount(1, args.len()));
    }
    Ok(Value::auto(float_tan(args[0].as_float())))
}

/// The original value (tag preserved) of the least argument by floating
/// comparison; at least two arguments; first seen wins ties.
pub fn min(args: &[Value]) -> (r: Result<Value, EvalErr>)
    ensures
        EvalErr::result_view(r) == spec_apply(BuiltinFn::Min, args@),
{
    if args.len() < 2 {
        return Err(EvalErr::IncorrectArgumentCount(2, args.len()));
    }
    let mut best = args[0];
    let mut best_float = best.as_float();
    let mut i: usize = 1;
    while i < args.len()
        invariant
            1 <= i <= args@.len(),
            best_float == spec_as_float(best),
            spec_min_fold(args@, 1, args@[0]) == spec_min_fold(args@, i as int, best),
        decreases args@.len() - i,
    {
        let f = args[i].as_float();
        if float_lt(f, best_float) {
            best = args[i];
            best_float = f;
        }
        i += 1;
    }
    Ok(best)
}

/// The original value (tag preserved) of the greatest argument by floating
/// comparison; at least two arguments; first seen wins ties.
pub fn max(args: &[Value]) -> (r: Result<Value, EvalErr>)
    ensures
        EvalErr::result_view(r) == spec_apply(BuiltinFn::Max, args@),
{
    if args.len() < 2 {
        return Err(EvalErr::IncorrectArgumentCount(2, args.len()));
    }
    let mut best = args[0];
    let mut best_float = best.as_float();
    let mut i: usize = 1;
    while i < args.len()
        invariant
            1 <= i <= args@.len(),
            best_float == spec_as_float(best),
            spec_max_fold(args@, 1, args@[0]) == spec_max_fold(args@, i as int, best),
        decreases args@.len() - i,
    {
        let f = args[i].as_float();
        if float_lt(best_float, f) {
            best = args[i];
            best_float = f;
        }
        i += 1;
    }
    Ok(best)
}

/// The arithmetic mean of the arguments, auto-normalized; at least one
/// argument.
pub fn avg(args: &[Value]) -> (r: Result<Value, EvalErr>)
    ensures
        EvalErr::result_view(r) == spec_apply(BuiltinFn::Avg, args@),
{
    if args.len() < 1 {
        return Err(EvalErr::IncorrectArgumentCount(1, args.len()));
    }
    let mut sum: u64 = F_ZERO;
    let mut i: usize = 0;
    while i < args.len()
        invariant
            0 <= i <= args@.len(),
            spec_sum_fold(args@, 0, F_ZERO) == spec_sum_fold(args@, i as int, sum),
        decreases args@.len() - i,
    {
        sum = float_add(sum, args[i].as_float());
        i += 1;
    }
    let count = float_of_int(args.len() as i64);
    Ok(Value::auto(float_div(sum, count)))
}

/// The ceiling of the single argument, auto-normalized.
pub fn ceil(args: &[Value]) -> (r: Result<Value, EvalErr>)
    ensures
        EvalErr::result_view(r) == spec_apply(BuiltinFn::Ceil, args@),
{
    if args.len() != 1 {
        return Err(EvalErr::IncorrectArgumentCount(1, args.len()));
    }
    Ok(Value::auto(float_ceil(args[0].as_float())))
}

/// The floor of the single argument, auto-normalized.
pub fn floor(args: &[Value]) -> (r: Result<Value, EvalErr>)
    ensures
        EvalErr::result_view(r) == spec_apply(BuiltinFn::Floor, args@),
{
    if args.len() != 1 {
        return Err(EvalErr::IncorrectArgumentCount(1, args.len()));
    }
    Ok(Value::auto(float_floor(args[0].as_float())))
}

/// The logarithm of the second argument in the base of the first,
/// auto-normalized; the base must be positive and not one, the value
/// positive.
pub fn log(args: &[Value]) -> (r: Result<Value, EvalErr>)
    ensures
        EvalErr::result_view(r) == spec_apply(BuiltinFn::Log, args@),
{
    if args.len() != 2 {
        return Err(EvalErr::IncorrectArgumentCount(2, args.len()));
    }
    let base = args[0].as_float();
    let value = args[1].as_float();
    if float_lt(base, F_ZERO) || float_eq(base, F_ZERO) || float_eq(base, F_ONE) {
        return Err(EvalErr::InvalidArgument);
    }
    if float_lt(value, F_ZERO) || float_eq(value, F_ZERO) {
        return Err(EvalErr::InvalidArgument);
    }
    Ok(Value::auto(float_div(float_ln(value), float_ln(base))))
}

/// The single argument converted from radians to degrees, auto-normalized.
pub fn deg(args: &[Value]) -> (r: Result<Value, EvalErr>)
    ensures
        EvalErr::result_view(r) == spec_apply(BuiltinFn::Deg, args@),
{
    if args.len() != 1 {
        return Err(EvalErr::IncorrectArgumentCount(1, args.len()));
    }
    Ok(Value::auto(float_mul(args[0].as_float(), F_DEG_PER_RAD)))
}

/// The single argument converted from degrees to radians, auto-normalized.
pub fn rad(args: &[Value]) -> (r: Result<Value, EvalErr>)
    ensures
        EvalErr::result_view(r) == spec_apply(BuiltinFn::Rad, args@),
{
    if args.len() != 1 {
        return Err(EvalErr::IncorrectArgumentCount(1, args.len()));
    }
    Ok(Value::auto(float_mul(args[0].as_float(), F_RAD_PER_DEG)))
}

/// The factorial of a non-negative integer argument (the product of 1..n,
/// wrapping at the 64-bit bounds); a floating or negative argument is
/// outside the domain.
pub fn fact(args: &[Value]) -> (r: Result<Value, EvalErr>)
    ensures
        EvalErr::result_view(r) == spec_apply(BuiltinFn::Fact, args@),
{
    if args.len() != 1 {
        return Err(EvalErr::IncorrectArgumentCount(1, args.len()));
    }
    match args[0] {
        Value::Int(n) => {
            if n < 0 {
                return Err(EvalErr::InvalidArgument);
            }
            let mut acc: i64 = 1;
            let mut k: i64 = 1;
            while k < n
                invariant
                    1 <= k <= if n > 1 {
                        n as int
                    } else {
                        1int
                    },
                    acc == spec_fact_wrap(k as int),
                decreases n - k,
            {
                k = k + 1;
                acc = acc.wrapping_mul(k);
            }
            Ok(Value::Int(acc))
        },
        Value::Float(_) => Err(EvalErr::InvalidArgument),
    }
}

/// The number of combinations of `n` things taken `r` at a time: 0 where
/// `n < r`, else the multiplicative accumulation
/// `acc = acc * (n - i) / (i + 1)` over `min(r, n - r)` steps, which keeps
/// every intermediate value an exact integer when nothing wraps.
pub fn ncr(args: &[Value]) -> (r: Result<Value, EvalErr>)
    ensures
        EvalErr::result_view(r) == spec_apply(BuiltinFn::Ncr, args@),
{
    if args.len() != 2 {
        return Err(EvalErr::IncorrectArgumentCount(2, args.len()));
    }
    let n = args[0].as_int();
    let r0 = args[1].as_int();
    if n < r0 {
        return Ok(Value::Int(0));
    }
    let d = n.wrapping_sub(r0);
    let steps = if r0 < d {
        r0
    } else {
        d
    };
    let mut acc: i64 = 1;
    let mut i: i64 = 0;
    while i < steps
        invariant
            0 <= i <= if steps > 0 {
                steps as int
            } else {
                0int
            },
            acc == spec_ncr_partial(n, i as int),
        decreases steps - i,
    {
        let m = acc.wrapping_mul(n.wrapping_sub(i));
        acc = match m.checked_div(i + 1) {
            Some(q) => q,
            None => {
                proof {
                    assert(false);
                }
                0
            },
        };
        i = i + 1;
    }
    Ok(Value::Int(acc))
}

/// The number of permutations of `n` things taken `r` at a time: 0 where
/// `n < r`, else the falling factorial `n * (n-1) * ... * (n-r+1)`
/// (wrapping at the 64-bit bounds).
pub fn npr(args: &[Value]) -> (r: Result<Value, EvalErr>)
    ensures
        EvalErr::result_view(r) == spec_apply(BuiltinFn::Npr, args@),
{
    if args.len() != 2 {
        return Err(EvalErr::IncorrectArgumentCount(2, args.len()));
    }
    let n = args[0].as_int();
    let r0 = args[1].as_int();
    if n < r0 {
        return Ok(Value::Int(0));
    }
    let mut acc: i64 = 1;
    let mut i: i64 = 0;
    while i < r0
        invariant
            0 <= i <= if r0 > 0 {
                r0 as int
            } else {
                0int
            },
            acc == spec_npr_partial(n, i as int),
        decreases r0 - i,
    {
        acc = acc.wrapping_mul(n.wrapping_sub(i));
        i = i + 1;
    }
    Ok(Value::Int(acc))
}

/// Apply a built-in function handle to an evaluated argument list.
pub fn apply_builtin(f: BuiltinFn, args: &[Value]) -> (r: Result<Value, EvalErr>)
    ensures
        EvalErr::result_view(r) == spec_apply(f, args@),
{
    match f {
        BuiltinFn::Sin => sin(args),
        BuiltinFn::Cos => cos(args),
        BuiltinFn::Tan => tan(args),
        BuiltinFn::Min => min(args),
        BuiltinFn::Max => max(args),
        BuiltinFn::Avg => avg(args),
        BuiltinFn::Ceil => ceil(args),
        BuiltinFn::Floor => floor(args),
        BuiltinFn::Log => log(args),
        BuiltinFn::Deg => deg(args),
        BuiltinFn::Rad => rad(args),
        BuiltinFn::Fact => fact(args),
        BuiltinFn::Ncr => ncr(args),
        BuiltinFn::Npr => npr(args),
    }
}

/// The default function registry: every built-in under its own name.
pub fn builtin_funcs() -> (r: Vec<(String, BuiltinFn)>)
    ensures
        crate::context::bindings_view(r@) =~= spec_builtin_funcs(),
{
    let mut v: Vec<(String, BuiltinFn)> = Vec::new();
    v.push(("sin".to_owned(), BuiltinFn::Sin));
    v.push(("cos".to_owned(), BuiltinFn::Cos));
    v.push(("tan".to_owned(), BuiltinFn::Tan));
    v.push(("min".to_owned(), BuiltinFn::Min));
    v.push(("max".to_owned(), BuiltinFn::Max));
    v.push(("avg".to_owned(), BuiltinFn::Avg));
    v.push(("ceil".to_owned(), BuiltinFn::Ceil));
    v.push(("floor".to_owned(), BuiltinFn::Floor));
    v.push(("log".to_owned(), BuiltinFn::Log));
    v.push(("deg".to_owned(), BuiltinFn::Deg));
    v.push(("rad".to_owned(), BuiltinFn::Rad));
    v.push(("fact".to_owned(), BuiltinFn::Fact));
    v.push(("ncr".to_owned(), BuiltinFn::Ncr));
    v.push(("npr".to_owned(), BuiltinFn::Npr));
    v
}

/// The bindings of the default function registry.
pub open spec fn spec_builtin_funcs() -> Seq<(Seq<char>, BuiltinFn)> {
    seq![
        ("sin"@, BuiltinFn::Sin),
        ("cos"@, BuiltinFn::Cos),
        ("tan"@, BuiltinFn::Tan),
        ("min"@, BuiltinFn::Min),
        ("max"@, BuiltinFn::Max),
        ("avg"@, BuiltinFn::Avg),
        ("ceil"@, BuiltinFn::Ceil),
        ("floor"@, BuiltinFn::Floor),
        ("log"@, BuiltinFn::Log),
        ("deg"@, BuiltinFn::Deg),
        ("rad"@, BuiltinFn::Rad),
        ("fact"@, BuiltinFn::Fact),
        ("ncr"@, BuiltinFn::Ncr),
        ("npr"@, BuiltinFn::Npr),
    ]
}

} // verus!
