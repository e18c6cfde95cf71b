use calc::create_default_context;
use calc::eval::{eval, EvalErr};
use calc::evaluate;
use calc::lexer::LexerErr;
use calc::nodes::{Atom, Expr, UnOp};
use calc::parser::ParserErr;
use calc::value::Value;
use calc::Error;

fn float(x: f64) -> Value {
    Value::Float(x.to_bits())
}

#[test]
fn precedence_multiplication_over_addition() {
    let ctx = create_default_context();
    assert_eq!(evaluate(&ctx, "2+3*4"), Ok(Value::Int(14)));
    assert_eq!(evaluate(&ctx, "2*3+4"), Ok(Value::Int(10)));
    assert_eq!(evaluate(&ctx, "(2+3)*4"), Ok(Value::Int(20)));
}

#[test]
fn power_is_right_associative() {
    let ctx = create_default_context();
    assert_eq!(evaluate(&ctx, "2**3**2"), Ok(float(512.0)));
    assert_eq!(evaluate(&ctx, "(2**3)**2"), Ok(float(64.0)));
}

#[test]
fn division_always_promotes_to_float() {
    let ctx = create_default_context();
    assert_eq!(evaluate(&ctx, "4/2"), Ok(float(2.0)));
    assert_eq!(evaluate(&ctx, "1/4"), Ok(float(0.25)));
}

#[test]
fn min_preserves_the_extremal_argument_tag() {
    let ctx = create_default_context();
    assert_eq!(evaluate(&ctx, "min(3, 5.0)"), Ok(Value::Int(3)));
    assert_eq!(evaluate(&ctx, "min(3.0, 5)"), Ok(float(3.0)));
    assert_eq!(evaluate(&ctx, "max(3, 5.0)"), Ok(float(5.0)));
    assert_eq!(evaluate(&ctx, "max(3.0, 5)"), Ok(Value::Int(5)));
}

#[test]
fn avg_auto_normalizes() {
    let ctx = create_default_context();
    assert_eq!(evaluate(&ctx, "avg(1,3)"), Ok(Value::Int(2)));
    assert_eq!(evaluate(&ctx, "avg(1,2)"), Ok(float(1.5)));
}

#[test]
fn log_value_and_domain() {
    let ctx = create_default_context();
    assert_eq!(evaluate(&ctx, "log(2,8)"), Ok(Value::Int(3)));
    assert_eq!(
        evaluate(&ctx, "log(1,8)"),
        Err(Error::Eval(EvalErr::InvalidArgument))
    );
    assert_eq!(
        evaluate(&ctx, "log(0,8)"),
        Err(Error::Eval(EvalErr::InvalidArgument))
    );
    assert_eq!(
        evaluate(&ctx, "log(2,0)"),
        Err(Error::Eval(EvalErr::InvalidArgument))
    );
    assert_eq!(
        evaluate(&ctx, "log(2)"),
        Err(Error::Eval(EvalErr::IncorrectArgumentCount(2, 1)))
    );
}

#[test]
fn fact_domain_and_values() {
    let ctx = create_default_context();
    assert_eq!(
        evaluate(&ctx, "fact(-1)"),
        Err(Error::Eval(EvalErr::InvalidArgument))
    );
    assert_eq!(evaluate(&ctx, "fact(0)"), Ok(Value::Int(1)));
    assert_eq!(evaluate(&ctx, "fact(5)"), Ok(Value::Int(120)));
    assert_eq!(evaluate(&ctx, "fact(20)"), Ok(Value::Int(2432902008176640000)));
    assert_eq!(
        evaluate(&ctx, "fact(1.5)"),
        Err(Error::Eval(EvalErr::InvalidArgument))
    );
}

#[test]
fn ncr_and_npr_values() {
    let ctx = create_default_context();
    assert_eq!(evaluate(&ctx, "ncr(5,2)"), Ok(Value::Int(10)));
    assert_eq!(evaluate(&ctx, "ncr(2,5)"), Ok(Value::Int(0)));
    assert_eq!(evaluate(&ctx, "ncr(10,5)"), Ok(Value::Int(252)));
    assert_eq!(evaluate(&ctx, "npr(5,2)"), Ok(Value::Int(20)));
    assert_eq!(evaluate(&ctx, "npr(2,5)"), Ok(Value::Int(0)));
    assert_eq!(evaluate(&ctx, "npr(5,0)"), Ok(Value::Int(1)));
}

#[test]
fn unknown_names_fail_naming_themselves() {
    let ctx = create_default_context();
    assert_eq!(
        evaluate(&ctx, "foo + 1"),
        Err(Error::Eval(EvalErr::ConstNotExists("foo".to_string())))
    );
    assert_eq!(
        evaluate(&ctx, "bar(1)"),
        Err(Error::Eval(EvalErr::FuncNotExists("bar".to_string())))
    );
}

#[test]
fn constants_match_the_doubles() {
    let ctx = create_default_context();
    assert_eq!(evaluate(&ctx, "pi"), Ok(float(std::f64::consts::PI)));
    assert_eq!(evaluate(&ctx, "e"), Ok(float(std::f64::consts::E)));
}

#[test]
fn lookups_are_case_insensitive() {
    let ctx = create_default_context();
    assert_eq!(evaluate(&ctx, "PI"), Ok(float(std::f64::consts::PI)));
    assert_eq!(evaluate(&ctx, "SIN(0)"), Ok(Value::Int(0)));
    assert_eq!(evaluate(&ctx, "Max(1, 2)"), Ok(Value::Int(2)));
}

#[test]
fn float_arithmetic_matches_hardware() {
    let ctx = create_default_context();
    assert_eq!(evaluate(&ctx, "1.5 + 2.25"), Ok(float(3.75)));
    assert_eq!(evaluate(&ctx, "1.5 - 2.25"), Ok(float(-0.75)));
    assert_eq!(evaluate(&ctx, "2.5 * 2"), Ok(float(5.0)));
    assert_eq!(evaluate(&ctx, "7.5 % 2"), Ok(float(1.5)));
    assert_eq!(evaluate(&ctx, "0.1 + 0.2"), Ok(float(0.1f64 + 0.2f64)));
    assert_eq!(evaluate(&ctx, "1.0 / 3"), Ok(float(1.0f64 / 3.0f64)));
    assert_eq!(evaluate(&ctx, "23.5"), Ok(float(23.5)));
    assert_eq!(evaluate(&ctx, "5e-1"), Ok(float(0.5)));
    assert_eq!(evaluate(&ctx, "2."), Ok(float(2.0)));
}

#[test]
fn integer_arithmetic_and_unary() {
    let ctx = create_default_context();
    assert_eq!(evaluate(&ctx, "2-5"), Ok(Value::Int(-3)));
    assert_eq!(evaluate(&ctx, "-2+3"), Ok(Value::Int(1)));
    assert_eq!(evaluate(&ctx, "-2**2"), Ok(float(4.0)));
    assert_eq!(evaluate(&ctx, "7%3"), Ok(Value::Int(1)));
    assert_eq!(evaluate(&ctx, "+5"), Ok(Value::Int(5)));
}

#[test]
fn trig_and_rounding_builtins() {
    let ctx = create_default_context();
    assert_eq!(evaluate(&ctx, "sin(0)"), Ok(Value::Int(0)));
    assert_eq!(evaluate(&ctx, "cos(0)"), Ok(Value::Int(1)));
    assert_eq!(evaluate(&ctx, "tan(0)"), Ok(Value::Int(0)));
    assert_eq!(evaluate(&ctx, "sin(pi/2)"), Ok(Value::Int(1)));
    assert_eq!(evaluate(&ctx, "2 + 3 * sin(pi/2)"), Ok(Value::Int(5)));
    assert_eq!(
        evaluate(&ctx, "tan(1)"),
        Ok(float(libm::tan(1.0)))
    );
    assert_eq!(
        evaluate(&ctx, "cos(1)"),
        Ok(float(libm::cos(1.0)))
    );
    assert_eq!(evaluate(&ctx, "ceil(1.2)"), Ok(Value::Int(2)));
    assert_eq!(evaluate(&ctx, "floor(1.8)"), Ok(Value::Int(1)));
    assert_eq!(evaluate(&ctx, "ceil(1.2, 3)"),
        Err(Error::Eval(EvalErr::IncorrectArgumentCount(1, 2))));
}

#[test]
fn deg_and_rad_match_the_std_conversions() {
    let ctx = create_default_context();
    let d = 1.0f64 * (180.0f64 / std::f64::consts::PI);
    let expected_deg = if d.fract() == 0.0 {
        Value::Int(d as i64)
    } else {
        float(d)
    };
    assert_eq!(evaluate(&ctx, "deg(1)"), Ok(expected_deg));
    let r = 180.0f64 * (std::f64::consts::PI / 180.0f64);
    let expected_rad = if r.fract() == 0.0 {
        Value::Int(r as i64)
    } else {
        float(r)
    };
    assert_eq!(evaluate(&ctx, "rad(180)"), Ok(expected_rad));
}

#[test]
fn radix_literals_evaluate_as_integers() {
    let ctx = create_default_context();
    assert_eq!(evaluate(&ctx, "0x1F"), Ok(Value::Int(31)));
    assert_eq!(evaluate(&ctx, "0b101"), Ok(Value::Int(5)));
    assert_eq!(evaluate(&ctx, "0o17"), Ok(Value::Int(15)));
    assert_eq!(
        evaluate(&ctx, "0x"),
        Err(Error::Parse(ParserErr::LexerErr(LexerErr::InvalidValue(0))))
    );
}

#[test]
fn leading_zeros_stay_decimal() {
    let ctx = create_default_context();
    assert_eq!(evaluate(&ctx, "0023"), Ok(Value::Int(23)));
    assert_eq!(evaluate(&ctx, "0230"), Ok(Value::Int(230)));
}

#[test]
fn syntax_and_conversion_errors() {
    let ctx = create_default_context();
    assert_eq!(
        evaluate(&ctx, "(1"),
        Err(Error::Parse(ParserErr::SyntaxError))
    );
    assert_eq!(
        evaluate(&ctx, "1,2"),
        Err(Error::Parse(ParserErr::SyntaxError))
    );
    assert_eq!(
        evaluate(&ctx, "1 2"),
        Err(Error::Parse(ParserErr::SyntaxError))
    );
    assert_eq!(
        evaluate(&ctx, "99999999999999999999"),
        Err(Error::Parse(ParserErr::ParseIntError))
    );
    assert_eq!(
        evaluate(&ctx, "5e"),
        Err(Error::Parse(ParserErr::ParseFloatError))
    );
    assert_eq!(
        evaluate(&ctx, "2 + $"),
        Err(Error::Parse(ParserErr::LexerErr(LexerErr::IllegalChar('$', 4))))
    );
}

#[test]
fn nesting_deeper_than_the_cap_is_rejected() {
    let ctx = create_default_context();
    let deep = format!("{}1{}", "(".repeat(300), ")".repeat(300));
    assert_eq!(
        evaluate(&ctx, deep.as_str()),
        Err(Error::Parse(ParserErr::NestingTooDeep))
    );
    let fine = format!("{}1{}", "(".repeat(50), ")".repeat(50));
    assert_eq!(evaluate(&ctx, fine.as_str()), Ok(Value::Int(1)));
}

#[test]
fn bitwise_operators_follow_the_policy() {
    let mut ctx = create_default_context();
    assert_eq!(evaluate(&ctx, "6 & 3"), Ok(Value::Int(2)));
    assert_eq!(evaluate(&ctx, "6 | 3"), Ok(Value::Int(7)));
    assert_eq!(evaluate(&ctx, "6 ^ 3"), Ok(Value::Int(5)));
    // an integer operand admits a floating one even with the policy unset
    assert_eq!(evaluate(&ctx, "6.5 & 3"), Ok(Value::Int(2)));
    assert_eq!(
        evaluate(&ctx, "6.5 & 3.5"),
        Err(Error::Eval(EvalErr::InvalidFloatingPointOperation))
    );
    ctx.set_allow_floating_bitwise_operations(true);
    assert_eq!(evaluate(&ctx, "6.5 & 3.5"), Ok(Value::Int(2)));
}

#[test]
fn bitwise_not_on_a_hand_built_tree() {
    let mut ctx = create_default_context();
    let tree = Expr::UnOp(UnOp::Not, Box::new(Expr::Atom(Atom::Int(5))));
    assert_eq!(eval(&ctx, &tree), Ok(Value::Int(-6)));
    let ftree = Expr::UnOp(UnOp::Not, Box::new(Expr::Atom(Atom::Float(2.5f64.to_bits()))));
    assert_eq!(
        eval(&ctx, &ftree),
        Err(EvalErr::InvalidFloatingPointOperation)
    );
    ctx.set_allow_floating_bitwise_operations(true);
    assert_eq!(eval(&ctx, &ftree), Ok(Value::Int(-3)));
}

#[test]
fn registration_shadows_and_extends() {
    let mut ctx = create_default_context();
    ctx.register_constant("answer".to_string(), Value::Int(42));
    assert_eq!(evaluate(&ctx, "answer + 1"), Ok(Value::Int(43)));
    ctx.register_constant("pi".to_string(), Value::Int(3));
    assert_eq!(evaluate(&ctx, "pi"), Ok(Value::Int(3)));
}

#[test]
fn value_operations_directly() {
    assert_eq!(Value::Int(2).add(Value::Int(3)), Value::Int(5));
    assert_eq!(Value::Int(2).add(float(0.5)), float(2.5));
    assert_eq!(Value::Int(7).div(Value::Int(2)), float(3.5));
    assert_eq!(Value::Int(5).neg(), Value::Int(-5));
    assert_eq!(float(1.5).neg(), float(-1.5));
    assert_eq!(float(2.75).as_int(), 2);
    assert_eq!(float(-2.75).as_int(), -2);
    assert_eq!(Value::Int(3).as_float(), 3.0f64.to_bits());
    assert_eq!(Value::auto(2.0f64.to_bits()), Value::Int(2));
    assert_eq!(Value::auto(2.5f64.to_bits()), float(2.5));
    assert_eq!(Value::zero(), Value::Int(0));
}

#[test]
fn floating_comparison_follows_hardware_order() {
    let ctx = create_default_context();
    let pairs: [(f64, f64); 7] = [
        (1.5, 2.5),
        (-1.5, 2.5),
        (-1.5, -2.5),
        (2.5, 2.5),
        (0.0, -0.0),
        (1e300, 1e-300),
        (-1e300, 1e-300),
    ];
    for (x, y) in pairs {
        let text = format!("min({:?}, {:?})", x, y);
        let expected = if y < x { y } else { x };
        assert_eq!(
            evaluate(&ctx, text.as_str()),
            Ok(float(expected)),
            "min order disagrees on {}",
            text
        );
        let text = format!("max({:?}, {:?})", x, y);
        let expected = if x < y { y } else { x };
        assert_eq!(
            evaluate(&ctx, text.as_str()),
            Ok(float(expected)),
            "max order disagrees on {}",
            text
        );
    }
}

#[test]
fn arguments_evaluate_left_to_right() {
    let ctx = create_default_context();
    // the first failing argument decides, before the function is resolved
    assert_eq!(
        evaluate(&ctx, "bar(foo, 1)"),
        Err(Error::Eval(EvalErr::ConstNotExists("foo".to_string())))
    );
}
