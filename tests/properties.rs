use asciimath_rs::elements::{
    Abs, Boxed, Brackets, Color, Element, Expression, ExpressionAccent, Frac, Group, Literal,
    Matrix, NonEnclosed, Number, OverSet, Parentheses, PlainText, Pow, Special, Sqrt, Sub, Sum,
    Symbol, Vector,
};
use asciimath_rs::mappings::{get_greek_mappings, get_grouping_mappings};
use asciimath_rs::parse;
use asciimath_rs::tokenizer::tokenize;
use asciimath_rs::tokens::{Accent, FontCommand, Greek, Grouping, Operation, Text, Token};
use asciimath_rs::tree_parser::TreeParser;

fn num(n: &str) -> Element {
    Element::Literal(Literal::Number(Number { number: n.to_string() }))
}

fn sym(s: &str) -> Element {
    Element::Literal(Literal::Symbol(Symbol { symbol: s.to_string() }))
}

fn expr(children: Vec<Element>) -> Expression {
    Expression { children }
}

fn msep() -> Element {
    Element::Group(Group::MSep)
}

fn cells(rows: Vec<Vec<&str>>) -> Vec<Vec<Expression>> {
    rows.into_iter()
        .map(|r| r.into_iter().map(|c| expr(vec![num(c)])).collect())
        .collect()
}

#[test]
fn power_binds_to_previous_element() {
    let expected = expr(vec![Element::Special(Special::Pow(Pow {
        base: num("2").boxed(),
        exp: num("3").boxed(),
    }))]);
    assert_eq!(parse("2^3".to_string()), expected);
}

#[test]
fn subscript_binds_to_previous_element() {
    let expected = expr(vec![Element::Special(Special::Sub(Sub {
        base: num("2").boxed(),
        lower: num("3").boxed(),
    }))]);
    assert_eq!(parse("2_3".to_string()), expected);
}

#[test]
fn slash_makes_a_fraction() {
    let expected = expr(vec![Element::Special(Special::Frac(Frac {
        top: num("1").boxed(),
        bottom: num("2").boxed(),
    }))]);
    assert_eq!(parse("1/2".to_string()), expected);
}

#[test]
fn sum_with_both_limits() {
    let expected = expr(vec![Element::Special(Special::Sum(Sum {
        top: Some(num("2").boxed()),
        bottom: Some(num("1").boxed()),
    }))]);
    assert_eq!(parse("sum_1^2".to_string()), expected);
}

#[test]
fn sum_with_top_limit_only() {
    let expected = expr(vec![Element::Special(Special::Sum(Sum {
        top: Some(num("2").boxed()),
        bottom: None,
    }))]);
    assert_eq!(parse("sum^2".to_string()), expected);
}

#[test]
fn sum_without_limits() {
    let expected = expr(vec![Element::Special(Special::Sum(Sum { top: None, bottom: None }))]);
    assert_eq!(parse("sum".to_string()), expected);
}

#[test]
fn sum_through_parse_entry_point() {
    let expected = expr(vec![Element::Special(Special::Sum(Sum {
        top: Some(num("3").boxed()),
        bottom: Some(num("2").boxed()),
    }))]);
    assert_eq!(parse("sum_2^3".to_string()), expected);
}

#[test]
fn two_by_two_matrix() {
    let expected = expr(vec![Element::Group(Group::Matrix(Matrix {
        inner: cells(vec![vec!["1", "2"], vec!["3", "4"]]),
    }))]);
    assert_eq!(parse("[[1,2],[3,4]]".to_string()), expected);
}

#[test]
fn three_by_two_matrix() {
    let expected = expr(vec![Element::Group(Group::Matrix(Matrix {
        inner: cells(vec![vec!["1", "2"], vec!["3", "4"], vec!["5", "6"]]),
    }))]);
    assert_eq!(parse("[[1,2],[3,4],[5,6]]".to_string()), expected);
}

#[test]
fn one_row_vector() {
    let expected = expr(vec![Element::Group(Group::Vector(Vector {
        inner: cells(vec![vec!["1", "2", "3"]]),
    }))]);
    assert_eq!(parse("((1,2,3))".to_string()), expected);
}

#[test]
fn single_cell_is_not_a_matrix() {
    let expected = expr(vec![Element::Group(Group::Brackets(Brackets {
        inner: expr(vec![Element::Group(Group::Brackets(Brackets {
            inner: expr(vec![num("1")]).boxed(),
        }))])
        .boxed(),
    }))]);
    assert_eq!(parse("[[1]]".to_string()), expected);
}

#[test]
fn ragged_vector_falls_back_to_groups() {
    let expected = expr(vec![Element::Group(Group::Parentheses(Parentheses {
        inner: expr(vec![
            Element::Group(Group::Parentheses(Parentheses {
                inner: expr(vec![num("1"), msep(), num("2")]).boxed(),
            })),
            msep(),
            Element::Group(Group::Parentheses(Parentheses {
                inner: expr(vec![num("3")]).boxed(),
            })),
        ])
        .boxed(),
    }))]);
    assert_eq!(parse("((1,2),(3))".to_string()), expected);
}

#[test]
fn root_takes_base_then_radicand() {
    let expected = expr(vec![Element::Special(Special::Root(asciimath_rs::elements::Root {
        base: num("3").boxed(),
        inner: num("16").boxed(),
    }))]);
    assert_eq!(parse("root 3 16".to_string()), expected);
}

#[test]
fn latex_fraction_takes_two_operands() {
    let expected = expr(vec![Element::Special(Special::Frac(Frac {
        top: num("1").boxed(),
        bottom: num("2").boxed(),
    }))]);
    assert_eq!(parse("frac 1 2".to_string()), expected);
}

#[test]
fn missing_operand_becomes_null() {
    let expected = expr(vec![Element::Special(Special::Sqrt(Sqrt { inner: Element::Null.boxed() }))]);
    assert_eq!(parse("sqrt".to_string()), expected);
    let expected = expr(vec![Element::Special(Special::Pow(Pow {
        base: num("2").boxed(),
        exp: Element::Null.boxed(),
    }))]);
    assert_eq!(parse("2^".to_string()), expected);
}

#[test]
fn parenthesized_exponent_loses_its_parentheses() {
    let expected = expr(vec![Element::Special(Special::Pow(Pow {
        base: num("2").boxed(),
        exp: Element::Group(Group::NonEnclosed(NonEnclosed { inner: expr(vec![num("3")]).boxed() }))
            .boxed(),
    }))]);
    assert_eq!(parse("2^(3)".to_string()), expected);
}

#[test]
fn removing_delimiters_twice_changes_nothing() {
    let group = Element::Group(Group::Brackets(Brackets { inner: expr(vec![num("1")]).boxed() }));
    let once = group.to_non_enclosed();
    let expected =
        Element::Group(Group::NonEnclosed(NonEnclosed { inner: expr(vec![num("1")]).boxed() }));
    assert_eq!(once, expected);
    let twice = once.to_non_enclosed();
    assert_eq!(twice, expected);
    assert_eq!(num("4").to_non_enclosed(), num("4"));
}

#[test]
fn abs_skips_its_opening_parenthesis() {
    let expected = expr(vec![Element::Group(Group::Abs(Abs { inner: expr(vec![sym("x")]).boxed() }))]);
    assert_eq!(parse("abs(x)".to_string()), expected);
}

#[test]
fn color_reads_its_color_and_operand() {
    let expected = expr(vec![Element::Accent(ExpressionAccent::Color(Color {
        color: "red".to_string(),
        inner: Element::Group(Group::NonEnclosed(NonEnclosed { inner: expr(vec![sym("x")]).boxed() }))
            .boxed(),
    }))]);
    assert_eq!(parse("color(red)(x)".to_string()), expected);
}

#[test]
fn overset_takes_top_then_bottom() {
    let expected = expr(vec![Element::Accent(ExpressionAccent::OverSet(OverSet {
        top: Element::Group(Group::NonEnclosed(NonEnclosed { inner: expr(vec![sym("a")]).boxed() }))
            .boxed(),
        bottom: sym("b").boxed(),
    }))]);
    assert_eq!(parse("overset(a) b".to_string()), expected);
}

#[test]
fn font_command_formats_following_text() {
    let expected = expr(vec![Element::Literal(Literal::Text(PlainText {
        text: "x".to_string(),
        formatting: Some(FontCommand::Big),
    }))]);
    assert_eq!(parse("bb\"x\"".to_string()), expected);
    assert_eq!(parse("bb".to_string()), expr(vec![sym("bb")]));
}

#[test]
fn font_command_names() {
    assert_eq!(FontCommand::BigOutline.to_string(), "bbb");
    assert_eq!(FontCommand::Cursive.to_string(), "cc");
}

#[test]
fn empty_input_gives_nothing() {
    assert_eq!(tokenize("".to_string()), vec![]);
    assert_eq!(parse("".to_string()), expr(vec![]));
}

#[test]
fn every_character_lands_in_a_token() {
    assert_eq!(
        tokenize("x+1".to_string()),
        vec![
            Token::Text(Text::Symbol("x".to_string())),
            Token::Operation(Operation::Plus),
            Token::Text(Text::Number("1".to_string())),
        ]
    );
}

#[test]
fn whitespace_run_is_one_token() {
    assert_eq!(
        tokenize("a   b".to_string()),
        vec![
            Token::Text(Text::Symbol("a".to_string())),
            Token::Text(Text::Whitespace),
            Token::Text(Text::Symbol("b".to_string())),
        ]
    );
}

#[test]
fn exponent_mark_needs_a_digit_after_it() {
    assert_eq!(
        tokenize("2e".to_string()),
        vec![Token::Text(Text::Number("2".to_string())), Token::Text(Text::Symbol("e".to_string()))]
    );
}

#[test]
fn unclosed_quote_runs_to_the_end() {
    assert_eq!(tokenize("\"ab".to_string()), vec![Token::Text(Text::Plain("ab\n".to_string()))]);
}

#[test]
fn longer_spellings_win_over_prefixes() {
    assert_eq!(
        tokenize("<<a>>".to_string()),
        vec![
            Token::Grouping(Grouping::RAngle),
            Token::Text(Text::Symbol("a".to_string())),
            Token::Grouping(Grouping::LAngle),
        ]
    );
    assert_eq!(
        tokenize("color(blue)".to_string()),
        vec![Token::Accent(Accent::Color("blue".to_string()))]
    );
}

#[test]
fn tables_start_with_their_first_spellings() {
    assert_eq!(get_greek_mappings()[0], ("alpha", Greek::Alpha));
    assert_eq!(get_grouping_mappings()[0], ("(:", Grouping::RAngle));
}

#[test]
fn parser_can_run_twice() {
    let mut parser = TreeParser::new(tokenize("1".to_string()));
    assert_eq!(parser.parse(), expr(vec![num("1")]));
    assert_eq!(parser.parse(), expr(vec![num("1")]));
}

#[test]
fn empty_row_is_one_empty_cell() {
    let expected = expr(vec![Element::Group(Group::Matrix(Matrix {
        inner: vec![vec![expr(vec![])], vec![expr(vec![num("1")])]],
    }))]);
    assert_eq!(parse("[[],[1]]".to_string()), expected);
}

#[test]
fn rows_without_cells_are_no_grid() {
    let expected = expr(vec![Element::Group(Group::Brackets(Brackets {
        inner: expr(vec![]).boxed(),
    }))]);
    assert_eq!(parse("[]".to_string()), expected);
}
