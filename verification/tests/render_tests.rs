use calc::create_default_context;
use calc::evaluate;
use calc::lexer::Lexer;
use calc::nodes::{int_text, Expr};
use calc::parser::Parser;
use calc::value::Value;

fn parse(text: &str) -> Expr {
    Parser::new(Lexer::new(text)).parse().unwrap()
}

#[test]
fn render_parenthesizes_by_structure() {
    assert_eq!(parse("2+3*4").render(), "(2 + (3 * 4))");
    assert_eq!(parse("2**3**2").render(), "(2 ** (3 ** 2))");
    assert_eq!(parse("-2**2").render(), "((-2) ** 2)");
    assert_eq!(parse("-2+3").render(), "((-2) + 3)");
    assert_eq!(parse("min(3, 5.0)").render(), "min(3, 5.0)");
    assert_eq!(parse("foo").render(), "foo");
    assert_eq!(parse("f()").render(), "f()");
}

#[test]
fn int_text_is_plain_decimal() {
    assert_eq!(int_text(0), "0");
    assert_eq!(int_text(23), "23");
    assert_eq!(int_text(-7), "-7");
    assert_eq!(int_text(i64::MAX), "9223372036854775807");
    assert_eq!(int_text(i64::MIN), "-9223372036854775808");
}

#[test]
fn round_trip_preserves_the_value() {
    let ctx = create_default_context();
    let cases = [
        "2+3*4",
        "2**3**2",
        "4/2",
        "min(3, 5.0)",
        "avg(1,2)",
        "log(2,8)",
        "-2**2",
        "(1+2)*(3+4)",
        "0x1F + 0b101",
        "pi * 2",
        "sin(pi/2)",
        "23.5e-1 + 0.05",
        "6 & 3 | 1",
        "fact(5) - ncr(5,2)",
    ];
    for text in cases {
        let first = parse(text);
        let rendered = first.render();
        let reparsed = parse(rendered.as_str());
        let v1 = evaluate(&ctx, text).unwrap();
        let v2 = evaluate(&ctx, rendered.as_str()).unwrap();
        assert_eq!(v1, v2, "round trip changed the value of {}", text);
        let rerendered = reparsed.render();
        assert_eq!(rendered, rerendered, "re-rendering of {} is not stable", text);
    }
}

#[test]
fn rendered_whole_floats_stay_floats() {
    let ctx = create_default_context();
    let first = parse("512.0");
    let rendered = first.render();
    assert_eq!(rendered, "512.0");
    assert_eq!(
        evaluate(&ctx, rendered.as_str()),
        Ok(Value::Float(512.0f64.to_bits()))
    );
}
