use asciimath_rs::elements::{Boxed, Color, Element, Literal, Symbol};
use asciimath_rs::mathml::ToMathML;
use asciimath_rs::parse;

#[test]
fn it_renders_roots() {
    let expr = parse("root 3 16".to_string());
    assert_eq!(
        expr.to_mathml(),
        "<mrow><mroot><mn>16</mn><mn>3</mn></mroot></mrow>"
    )
}

#[test]
fn symbols_are_escaped() {
    let s = Symbol { symbol: "<&>".to_string() };
    assert_eq!(s.to_mathml(), "<mi>&lt;&amp;&gt;</mi>");
}

#[test]
fn color_attribute_is_escaped() {
    let c = Color {
        color: "a b".to_string(),
        inner: Element::Literal(Literal::Symbol(Symbol { symbol: "x".to_string() })).boxed(),
    };
    assert_eq!(c.to_mathml(), "<mstyle mathcolor='a&#x20;b'><mi>x</mi></mstyle>");
}

#[test]
fn fraction_and_power_render() {
    assert_eq!(
        parse("1/2".to_string()).to_mathml(),
        "<mrow><mfrac><mn>1</mn><mn>2</mn></mfrac></mrow>"
    );
    assert_eq!(
        parse("x^(2)".to_string()).to_mathml(),
        "<mrow><msup><mi>x</mi><mrow><mrow><mn>2</mn></mrow></mrow></msup></mrow>"
    );
}

#[test]
fn matrix_renders_as_table() {
    assert_eq!(
        parse("[[1,2],[3,4]]".to_string()).to_mathml(),
        "<mrow><mrow><mo>[</mo><mtable><mtr><mtd><mrow><mn>1</mn></mrow></mtd><mtd><mrow><mn>2</mn></mrow></mtd></mtr><mtr><mtd><mrow><mn>3</mn></mrow></mtd><mtd><mrow><mn>4</mn></mrow></mtd></mtr></mtable><mo>]</mo></mrow></mrow>"
    );
}

#[test]
fn missing_operand_renders_empty_row() {
    assert_eq!(
        parse("sqrt".to_string()).to_mathml(),
        "<mrow><msqrt><mrow></mrow></msqrt></mrow>"
    );
}
