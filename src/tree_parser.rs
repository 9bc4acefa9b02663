//! The tree parser: builds an expression tree from a token sequence.
use crate::elements::{
    element_view, expression_view, grid_view, non_enclosed_view, views_of, Abs, Angles, Braces,
    Brackets, Ceil, Color, Element, ElementView, Expression, ExpressionAccent, Floor, Frac,
    GenericAccent, Group, Integral, Literal, LiteralView, Matrix, Norm, Number, OIntegral, OverSet,
    Parentheses, PlainText, Pow, Prod, Root, Special, Sqrt, Sub, Sum, Symbol, UnderSet, Vector,
    XGroup,
};
use crate::tokenizer::copy_accent;
use crate::tokens::{
    font_name, token_views, Accent, FontCommand, Grouping, Misc, Operation, Text, Token, TokenView,
};
use vstd::prelude::*;

verus! {

/// The position one token further on, or the same position at the last token.
pub open spec fn step(ts: Seq<TokenView>, i: int) -> int {
    if i < ts.len() - 1 {
        i + 1
    } else {
        i
    }
}

/// Whether `i` is at or past the last token.
pub open spec fn at_end(ts: Seq<TokenView>, i: int) -> bool {
    i >= ts.len() - 1
}

/// Whether the token after `i` is `t`.
pub open spec fn next_is(ts: Seq<TokenView>, i: int, t: TokenView) -> bool {
    0 <= i + 1 < ts.len() && ts[i + 1] == t
}

/// The element, or `Null` where there is none.
pub open spec fn or_null(o: Option<ElementView>) -> ElementView {
    match o {
        Some(e) => e,
        None => ElementView::Null,
    }
}

/// Boxes the tree.
pub open spec fn bx(e: ElementView) -> Box<ElementView> {
    Box::new(e)
}

/// Splits a row at its separators into cells.
pub open spec fn split_cells(s: Seq<ElementView>) -> Seq<Seq<ElementView>>
    decreases s.len(),
{
    if s.len() == 0 {
        seq![Seq::empty()]
    } else {
        let init = split_cells(s.drop_last());
        if s.last() is MSep {
            init.push(Seq::empty())
        } else {
            init.update(init.len() - 1, init.last().push(s.last()))
        }
    }
}

/// Each row split into cells.
pub open spec fn grid_of(rows: Seq<Seq<ElementView>>) -> Seq<Seq<Seq<ElementView>>> {
    rows.map_values(|r: Seq<ElementView>| split_cells(r))
}

/// A grid is accepted when it has a row, all rows have as many cells as the
/// first, and it has more than one cell.
pub open spec fn grid_ok(g: Seq<Seq<Seq<ElementView>>>) -> bool {
    &&& g.len() > 0
    &&& g[0].len() * g.len() > 1
    &&& forall|r: int| 0 <= r < g.len() ==> #[trigger] g[r].len() == g[0].len()
}

/// Parses an expression at `i` with close flag `c`: the elements, the position
/// where it stopped, and the close flag afterwards (always cleared).
pub open spec fn expression_spec(ts: Seq<TokenView>, i: int, c: bool) -> (
    Seq<ElementView>,
    int,
    bool,
)
    decreases ts.len() - i, 20int,
{
    if i < 0 || i >= ts.len() {
        (Seq::empty(), i, false)
    } else {
        let (acc, j) = expression_loop(ts, i, c, Seq::empty());
        (acc, j, false)
    }
}

/// The loop of an expression: parse an element, fold a postfix modifier into
/// it, append it; stop at the end or once the close flag is raised.
pub open spec fn expression_loop(ts: Seq<TokenView>, i: int, c: bool, acc: Seq<ElementView>) -> (
    Seq<ElementView>,
    int,
)
    decreases ts.len() - i, 19int,
{
    if i < 0 || i >= ts.len() || at_end(ts, i) {
        (acc, i)
    } else {
        let (eo, j, c1) = element_spec(ts, i, c);
        if j < i || j >= ts.len() {
            (acc, j)
        } else {
            let (acc2, j2, c2) = match eo {
                Some(e) => {
                    let (e2, j2, c2) = postfix_spec(ts, e, j, c1);
                    (acc.push(e2), j2, c2)
                },
                None => (acc, j, c1),
            };
            if c2 || j2 < i || step(ts, j2) <= i || step(ts, j2) >= ts.len() {
                (acc2, j2)
            } else {
                expression_loop(ts, step(ts, j2), c2, acc2)
            }
        }
    }
}

/// Folds a power, an ascii fraction or a subscript that follows `prev`.
pub open spec fn postfix_spec(ts: Seq<TokenView>, prev: ElementView, j: int, c: bool) -> (
    ElementView,
    int,
    bool,
)
    decreases ts.len() - j, 18int,
{
    if j < 0 || j >= ts.len() || step(ts, j) <= j {
        (prev, j, c)
    } else if next_is(ts, j, TokenView::Misc(Misc::Pow)) {
        let (x, k, c1) = operand_spec(ts, step(ts, j), c);
        (ElementView::Pow(bx(non_enclosed_view(prev)), bx(non_enclosed_view(x))), k, c1)
    } else if next_is(ts, j, TokenView::Misc(Misc::AsciiFrac)) {
        let (x, k, c1) = operand_spec(ts, step(ts, j), c);
        (ElementView::Frac(bx(non_enclosed_view(prev)), bx(non_enclosed_view(x))), k, c1)
    } else if next_is(ts, j, TokenView::Misc(Misc::Sub)) {
        let (x, k, c1) = operand_spec(ts, step(ts, j), c);
        (ElementView::Sub(bx(non_enclosed_view(prev)), bx(non_enclosed_view(x))), k, c1)
    } else {
        (prev, j, c)
    }
}

/// Steps to the next token and parses one element there; `Null` where there
/// is none.
pub open spec fn operand_spec(ts: Seq<TokenView>, i: int, c: bool) -> (ElementView, int, bool)
    decreases ts.len() - i, 15int,
{
    if i < 0 || i >= ts.len() || step(ts, i) <= i {
        (ElementView::Null, i, c)
    } else {
        let (eo, j, c1) = element_spec(ts, step(ts, i), c);
        (or_null(eo), j, c1)
    }
}

/// An optional limit: where the next token is `marker`, the element after it.
pub open spec fn limit_spec(ts: Seq<TokenView>, i: int, c: bool, marker: Misc) -> (
    Option<Box<ElementView>>,
    int,
    bool,
)
    decreases ts.len() - i, 15int,
{
    if i < 0 || i >= ts.len() || !next_is(ts, i, TokenView::Misc(marker)) || step(ts, step(ts, i))
        <= i {
        (None, i, c)
    } else {
        let (eo, j, c1) = element_spec(ts, step(ts, step(ts, i)), c);
        match eo {
            Some(e) => (Some(bx(non_enclosed_view(e))), j, c1),
            None => (None, j, c1),
        }
    }
}

/// The limits of a big operator: a lower one after `_`, then an upper one
/// after `^`; each may be absent. Returns top, bottom.
pub open spec fn limits_spec(ts: Seq<TokenView>, i: int, c: bool) -> (
    Option<Box<ElementView>>,
    Option<Box<ElementView>>,
    int,
    bool,
)
    decreases ts.len() - i, 16int,
{
    let (b, j, c1) = limit_spec(ts, i, c, Misc::Sub);
    if j < i || j > ts.len() {
        (None, b, j, c1)
    } else {
        let (t, j2, c2) = limit_spec(ts, j, c1, Misc::Pow);
        (t, b, j2, c2)
    }
}

/// An operation token: a sum or product with its limits, or a plain operator.
pub open spec fn operation_spec(ts: Seq<TokenView>, i: int, c: bool, op: Operation) -> (
    Option<ElementView>,
    int,
    bool,
)
    decreases ts.len() - i, 17int,
{
    match op {
        Operation::Sum => {
            let (t, b, j, c1) = limits_spec(ts, i, c);
            (Some(ElementView::Sum(t, b)), j, c1)
        },
        Operation::Prod => {
            let (t, b, j, c1) = limits_spec(ts, i, c);
            (Some(ElementView::Prod(t, b)), j, c1)
        },
        _ => (Some(ElementView::Literal(LiteralView::Operation(op))), i, c),
    }
}

/// Two operands, one after the other.
pub open spec fn two_operands_spec(ts: Seq<TokenView>, i: int, c: bool) -> (
    ElementView,
    ElementView,
    int,
    bool,
)
    decreases ts.len() - i, 16int,
{
    let (a, j, c1) = operand_spec(ts, i, c);
    if j < i || j > ts.len() {
        (a, ElementView::Null, j, c1)
    } else {
        let (b, j2, c2) = operand_spec(ts, j, c1);
        (a, b, j2, c2)
    }
}

/// A misc token: fractions, roots and integrals take their operands; the
/// others are symbols.
pub open spec fn misc_spec(ts: Seq<TokenView>, i: int, c: bool, m: Misc) -> (
    Option<ElementView>,
    int,
    bool,
)
    decreases ts.len() - i, 17int,
{
    match m {
        Misc::LatexFrac => {
            let (a, b, j, c1) = two_operands_spec(ts, i, c);
            (Some(ElementView::Frac(bx(a), bx(b))), j, c1)
        },
        Misc::Sqrt => {
            let (a, j, c1) = operand_spec(ts, i, c);
            (Some(ElementView::Sqrt(bx(a))), j, c1)
        },
        Misc::Root => {
            let (a, b, j, c1) = two_operands_spec(ts, i, c);
            (Some(ElementView::Root(bx(a), bx(b))), j, c1)
        },
        Misc::Int => {
            let (t, b, j, c1) = limits_spec(ts, i, c);
            (Some(ElementView::Integral(t, b)), j, c1)
        },
        Misc::OInt => {
            let (t, b, j, c1) = limits_spec(ts, i, c);
            (Some(ElementView::OIntegral(t, b)), j, c1)
        },
        _ => (Some(ElementView::Literal(LiteralView::Misc(m))), i, c),
    }
}

/// An accent token other than a color: over- and undersets take two operands,
/// the others one.
pub open spec fn accent_spec(ts: Seq<TokenView>, i: int, c: bool, a: Accent) -> (
    Option<ElementView>,
    int,
    bool,
)
    decreases ts.len() - i, 17int,
{
    match a {
        Accent::OverSet => {
            let (t, b, j, c1) = two_operands_spec(ts, i, c);
            (
                Some(ElementView::OverSet(bx(non_enclosed_view(t)), bx(non_enclosed_view(b)))),
                j,
                c1,
            )
        },
        Accent::UnderSet => {
            let (b, t, j, c1) = two_operands_spec(ts, i, c);
            (
                Some(ElementView::UnderSet(bx(non_enclosed_view(t)), bx(non_enclosed_view(b)))),
                j,
                c1,
            )
        },
        _ => {
            let (x, j, c1) = operand_spec(ts, i, c);
            (Some(ElementView::Accent(bx(non_enclosed_view(x)), a)), j, c1)
        },
    }
}

/// The rows of a grid: each row is an `open` token, an expression, and its
/// close; one token separates rows, and a second close ends the grid.
pub open spec fn rows_spec(
    ts: Seq<TokenView>,
    i: int,
    c: bool,
    open: Grouping,
    close: Grouping,
    acc: Seq<Seq<ElementView>>,
) -> (Seq<Seq<ElementView>>, int, bool)
    decreases ts.len() - i, 14int,
{
    if i < 0 || i >= ts.len() || at_end(ts, i) || !next_is(ts, i, TokenView::Grouping(open)) {
        (acc, i, c)
    } else {
        let k = step(ts, step(ts, i));
        if k <= i {
            (acc, i, c)
        } else {
            let (row, j, c1) = expression_spec(ts, k, c);
            let acc2 = acc.push(row);
            if j < k || j >= ts.len() {
                (acc2, j, c1)
            } else {
                let j2 = if ts[j] == TokenView::Grouping(close) {
                    step(ts, j)
                } else {
                    j
                };
                if ts[j2] == TokenView::Grouping(close) {
                    (acc2, j2, c1)
                } else {
                    rows_spec(ts, j2, c1, open, close, acc2)
                }
            }
        }
    }
}

/// A grid attempt at `i`: its rows and the grid they make, where `i` holds
/// `open`. The caller accepts it only if the grid is well formed.
pub open spec fn grid_attempt(ts: Seq<TokenView>, i: int, c: bool, open: Grouping, close: Grouping) -> (
    Seq<Seq<Seq<ElementView>>>,
    int,
    bool,
)
    decreases ts.len() - i, 15int,
{
    let (rows, j, c1) = rows_spec(ts, i, c, open, close, Seq::empty());
    (grid_of(rows), j, c1)
}

/// A matrix at `i`, or nothing with the position unchanged.
pub open spec fn matrix_spec(ts: Seq<TokenView>, i: int, c: bool) -> (
    Option<ElementView>,
    int,
    bool,
)
    decreases ts.len() - i, 16int,
{
    if 0 <= i < ts.len() && ts[i] == TokenView::Grouping(Grouping::RBracket) {
        let (g, j, c1) = grid_attempt(ts, i, c, Grouping::RBracket, Grouping::LBracket);
        if grid_ok(g) {
            (Some(ElementView::Matrix(g)), j, c1)
        } else {
            (None, i, c1)
        }
    } else {
        (None, i, c)
    }
}

/// A vector at `i`, or nothing with the position unchanged.
pub open spec fn vector_spec(ts: Seq<TokenView>, i: int, c: bool) -> (
    Option<ElementView>,
    int,
    bool,
)
    decreases ts.len() - i, 16int,
{
    if 0 <= i < ts.len() && ts[i] == TokenView::Grouping(Grouping::RParen) {
        let (g, j, c1) = grid_attempt(ts, i, c, Grouping::RParen, Grouping::LParen);
        if grid_ok(g) {
            (Some(ElementView::Vector(g)), j, c1)
        } else {
            (None, i, c1)
        }
    } else {
        (None, i, c)
    }
}

/// An ordinary group: an opening token and the expression after it. A closing
/// token raises the close flag and gives no element.
pub open spec fn group_spec(ts: Seq<TokenView>, i: int, c: bool, g: Grouping) -> (
    Option<ElementView>,
    int,
    bool,
)
    decreases ts.len() - i, 16int,
{
    let k1 = step(ts, i);
    let k2 = step(ts, k1);
    if i < 0 || i >= ts.len() || k1 <= i {
        (None, i, c)
    } else {
        match g {
            Grouping::RParen => {
                let (x, j, c1) = expression_spec(ts, k1, c);
                (Some(ElementView::Parentheses(x)), j, c1)
            },
            Grouping::RBrace => {
                let (x, j, c1) = expression_spec(ts, k1, c);
                (Some(ElementView::Braces(x)), j, c1)
            },
            Grouping::RBracket => {
                let (x, j, c1) = expression_spec(ts, k1, c);
                (Some(ElementView::Brackets(x)), j, c1)
            },
            Grouping::RAngle => {
                let (x, j, c1) = expression_spec(ts, k1, c);
                (Some(ElementView::Angles(x)), j, c1)
            },
            Grouping::RXPar => {
                let (x, j, c1) = expression_spec(ts, k1, c);
                (Some(ElementView::XGroup(x)), j, c1)
            },
            Grouping::Abs => {
                let (x, j, c1) = expression_spec(ts, k2, c);
                (Some(ElementView::Abs(x)), j, c1)
            },
            Grouping::Floor => {
                let (x, j, c1) = expression_spec(ts, k2, c);
                (Some(ElementView::Floor(x)), j, c1)
            },
            Grouping::Ceil => {
                let (x, j, c1) = expression_spec(ts, k2, c);
                (Some(ElementView::Ceil(x)), j, c1)
            },
            Grouping::Norm => {
                let (x, j, c1) = expression_spec(ts, k2, c);
                (Some(ElementView::Norm(x)), j, c1)
            },
            Grouping::MSep => (Some(ElementView::MSep), i, c),
            _ => (None, i, true),
        }
    }
}

/// A grouping token: a matrix, else a vector, else an ordinary group.
pub open spec fn grouping_spec(ts: Seq<TokenView>, i: int, c: bool, g: Grouping) -> (
    Option<ElementView>,
    int,
    bool,
)
    decreases ts.len() - i, 17int,
{
    let (m, j, c1) = matrix_spec(ts, i, c);
    if m is Some {
        (m, j, c1)
    } else {
        let (v, j2, c2) = vector_spec(ts, i, c1);
        if v is Some {
            (v, j2, c2)
        } else {
            group_spec(ts, i, c2, g)
        }
    }
}

/// Parses one element at `i`.
pub open spec fn element_spec(ts: Seq<TokenView>, i: int, c: bool) -> (
    Option<ElementView>,
    int,
    bool,
)
    decreases ts.len() - i, 18int,
{
    if i < 0 || i >= ts.len() {
        (None, i, c)
    } else {
        match ts[i] {
            TokenView::Arrow(a) => (Some(ElementView::Literal(LiteralView::Arrow(a))), i, c),
            TokenView::Logical(l) => (Some(ElementView::Literal(LiteralView::Logical(l))), i, c),
            TokenView::Relation(r) => (Some(ElementView::Literal(LiteralView::Relation(r))), i, c),
            TokenView::Greek(g) => (Some(ElementView::Literal(LiteralView::Greek(g))), i, c),
            TokenView::Function(f) => (Some(ElementView::Literal(LiteralView::Function(f))), i, c),
            TokenView::Number(s) => (Some(ElementView::Literal(LiteralView::Number(s))), i, c),
            TokenView::Symbol(s) => (Some(ElementView::Literal(LiteralView::Symbol(s))), i, c),
            TokenView::Plain(s) => (Some(ElementView::Literal(LiteralView::Text(s, None))), i, c),
            TokenView::NewLine => (Some(ElementView::Literal(LiteralView::NewLine)), i, c),
            TokenView::Operation(op) => operation_spec(ts, i, c, op),
            TokenView::Misc(m) => misc_spec(ts, i, c, m),
            TokenView::Grouping(g) => grouping_spec(ts, i, c, g),
            TokenView::Font(f) => {
                if i + 1 < ts.len() && ts[i + 1] is Plain {
                    (
                        Some(ElementView::Literal(LiteralView::Text(ts[i + 1]->Plain_0, Some(f)))),
                        i + 1,
                        c,
                    )
                } else {
                    (Some(ElementView::Literal(LiteralView::Symbol(font_name(f)))), i, c)
                }
            },
            TokenView::Accent(a) => accent_spec(ts, i, c, a),
            TokenView::Color(col) => {
                let (x, j, c1) = operand_spec(ts, i, c);
                (Some(ElementView::Color(col, bx(non_enclosed_view(x)))), j, c1)
            },
            _ => (None, i, c),
        }
    }
}

/// The tokens without whitespace.
pub open spec fn drop_whitespace(ts: Seq<TokenView>) -> Seq<TokenView>
    decreases ts.len(),
{
    if ts.len() == 0 {
        Seq::empty()
    } else if ts[0] is Whitespace {
        drop_whitespace(ts.drop_first())
    } else {
        seq![ts[0]] + drop_whitespace(ts.drop_first())
    }
}

/// The token sequence that the parser walks: whitespace dropped, an end mark
/// appended.
pub open spec fn parser_tokens(ts: Seq<TokenView>) -> Seq<TokenView> {
    drop_whitespace(ts).push(TokenView::End)
}

/// The expression tree of a token sequence.
pub open spec fn parse_tokens_spec(ts: Seq<TokenView>) -> Seq<ElementView> {
    expression_spec(parser_tokens(ts), 0, false).0
}

/// The view of an optional element.
pub open spec fn opt_view(o: Option<Element>) -> Option<ElementView> {
    match o {
        Some(e) => Some(element_view(e)),
        None => None,
    }
}

/// The views of a sequence of expressions.
pub open spec fn expression_views(s: Seq<Expression>) -> Seq<Seq<ElementView>> {
    s.map_values(|x: Expression| expression_view(x))
}

/// The views of the cells of one row.
pub open spec fn cells_view(v: Vec<Expression>) -> Seq<Seq<ElementView>> {
    Seq::new(
        v@.len(),
        |c: int|
            if 0 <= c < v@.len() {
                expression_view(v@[c])
            } else {
                Seq::empty()
            },
    )
}

/// Splits the children of a row at its separators into cells.
fn split_row(x: Expression) -> (r: Vec<Expression>)
    ensures
        cells_view(r) == split_cells(expression_view(x)),
{
    proof {
        crate::elements::lemma_expression_view(x);
    }
    let ghost orig = expression_view(x);
    let mut children = x.children;
    let mut cells: Vec<Expression> = Vec::new();
    let mut current: Vec<Element> = Vec::new();
    let ghost mut k: int = 0;
    assert(views_of(children@) =~= orig.subrange(0, orig.len() as int));
    assert(views_of(current@) =~= Seq::<ElementView>::empty());
    assert(cells_view(cells) =~= Seq::<Seq<ElementView>>::empty());
    assert(orig.subrange(0, 0) =~= Seq::<ElementView>::empty());
    assert(cells_view(cells).push(views_of(current@)) =~= split_cells(orig.subrange(0, 0)));
    while children.len() > 0
        invariant
            0 <= k <= orig.len(),
            views_of(children@) == orig.subrange(k, orig.len() as int),
            cells_view(cells).push(views_of(current@)) == split_cells(orig.subrange(0, k)),
        decreases children@.len(),
    {
        let ghost before = cells_view(cells).push(views_of(current@));
        let ghost children_before = children@;
        let ghost current_before = current@;
        let e = children.remove(0);
        proof {
            assert(views_of(children_before).len() == children_before.len());
            assert(k < orig.len());
            assert(orig[k] == element_view(e)) by {
                assert(views_of(children_before)[0] == element_view(children_before[0]));
                assert(views_of(children_before)[0] == orig.subrange(k, orig.len() as int)[0]);
            }
            assert(orig.subrange(0, k + 1).drop_last() =~= orig.subrange(0, k));
            assert(views_of(children@) =~= views_of(children_before).drop_first());
            assert(views_of(children@) =~= orig.subrange(k + 1, orig.len() as int));
        }
        if matches!(e, Element::Group(Group::MSep)) {
            let cell = Expression { children: current };
            proof {
                crate::elements::lemma_expression_view(cell);
            }
            cells.push(cell);
            current = Vec::new();
            proof {
                assert(cells_view(cells) =~= before);
                assert(views_of(current@) =~= Seq::<ElementView>::empty());
            }
        } else {
            current.push(e);
            proof {
                assert(views_of(current@) =~= views_of(current_before).push(element_view(e)));
                assert(cells_view(cells).push(views_of(current@)) =~= before.update(
                    before.len() - 1,
                    before.last().push(element_view(e)),
                ));
            }
        }
        proof {
            k = k + 1;
        }
    }
    proof {
        assert(orig.subrange(0, k) =~= orig);
    }
    let cell = Expression { children: current };
    proof {
        crate::elements::lemma_expression_view(cell);
    }
    cells.push(cell);
    proof {
        assert(cells_view(cells) =~= split_cells(orig));
    }
    cells
}

/// Splits each row at its separators: the grid of cells.
fn transform_vec_to_matrix(expressions: Vec<Expression>) -> (r: Vec<Vec<Expression>>)
    ensures
        grid_view(r) == grid_of(expression_views(expressions@)),
{
    let ghost orig = expression_views(expressions@);
    let mut rows = expressions;
    let mut grid: Vec<Vec<Expression>> = Vec::new();
    assert(expression_views(rows@) =~= orig.subrange(0, orig.len() as int));
    while rows.len() > 0
        invariant
            grid@.len() + rows@.len() == orig.len(),
            expression_views(rows@) == orig.subrange(grid@.len() as int, orig.len() as int),
            forall|q: int| 0 <= q < grid@.len() ==> #[trigger] cells_view(grid@[q]) == split_cells(orig[q]),
        decreases rows@.len(),
    {
        let ghost rows_before = rows@;
        let x = rows.remove(0);
        proof {
            assert(expression_views(rows_before).len() == rows_before.len());
            assert(expression_views(rows_before)[0] == orig.subrange(
                grid@.len() as int,
                orig.len() as int,
            )[0]);
            assert(expression_views(rows@) =~= expression_views(rows_before).drop_first());
            assert(expression_views(rows@) =~= orig.subrange(
                (grid@.len() + 1) as int,
                orig.len() as int,
            ));
        }
        let cells = split_row(x);
        grid.push(cells);
    }
    assert(grid_view(grid) =~= grid_of(orig)) by {
        assert forall|q: int| 0 <= q < grid@.len() implies #[trigger] grid_view(grid)[q] == grid_of(orig)[q] by {
            assert(cells_view(grid@[q]) == split_cells(orig[q]));
            assert(grid_view(grid)[q] =~= cells_view(grid@[q]));
        }
    }
    grid
}

/// Whether the grid has a row, rows of equal length, and more than one cell.
fn validate_matrix(matrix: &Vec<Vec<Expression>>) -> (r: bool)
    ensures
        r == grid_ok(grid_view(*matrix)),
{
    let ghost g = grid_view(*matrix);
    assert(g.len() == matrix@.len());
    if matrix.len() == 0 {
        return false;
    }
    let first_length = matrix[0].len();
    assert(g[0].len() == first_length);
    if first_length == 0 || (first_length == 1 && matrix.len() == 1) {
        assert(g[0].len() * g.len() <= 1) by (nonlinear_arith)
            requires
                g[0].len() == 0 || (g[0].len() == 1 && g.len() == 1),
        ;
        return false;
    }
    assert(g[0].len() * g.len() > 1) by (nonlinear_arith)
        requires
            g[0].len() >= 1,
            !(g[0].len() == 1 && g.len() == 1),
            g.len() >= 1,
    ;
    let mut k: usize = 0;
    while k < matrix.len()
        invariant
            g == grid_view(*matrix),
            g.len() == matrix@.len(),
            first_length == g[0].len(),
            k <= matrix@.len(),
            forall|q: int| 0 <= q < k ==> #[trigger] g[q].len() == first_length,
        decreases matrix@.len() - k,
    {
        assert(g[k as int].len() == matrix@[k as int]@.len());
        if matrix[k].len() != first_length {
            return false;
        }
        k += 1;
    }
    true
}

/// Builds the expression tree of a token sequence by recursive descent.
pub struct TreeParser {
    tokens: Vec<Token>,
    index: usize,
    group_return: bool,
}

impl TreeParser {
    /// The tokens that the parser holds.
    pub closed spec fn token_seq(&self) -> Seq<Token> {
        self.tokens@
    }

    /// The views of the tokens.
    spec fn ts(&self) -> Seq<TokenView> {
        token_views(self.tokens@)
    }

    /// The tokens end with an end mark, and the cursor stands on a token.
    spec fn wf(&self) -> bool {
        &&& self.tokens@.len() > 0
        &&& self.ts().last() == TokenView::End
        &&& self.index < self.tokens@.len()
    }

    proof fn lemma_ts(&self)
        ensures
            self.ts().len() == self.tokens@.len(),
            forall|k: int| 0 <= k < self.tokens@.len() ==> #[trigger] self.ts()[k] == self.tokens@[k]@,
    {
    }

    pub fn new(tokens: Vec<Token>) -> (r: Self)
        ensures
            r.token_seq() == tokens@,
    {
        TreeParser { tokens, index: 0, group_return: false }
    }

    /// Parses the tokens into an expression: whitespace tokens are dropped, an
    /// end mark is appended, and the parse runs from the first token.
    pub fn parse(&mut self) -> (r: Expression)
        ensures
            expression_view(r) == parse_tokens_spec(token_views(old(self).token_seq())),
    {
        self.remove_whitespace();
        self.index = 0;
        self.group_return = false;
        self.parse_expression()
    }

    /// Drops the whitespace tokens and appends an end mark.
    fn remove_whitespace(&mut self)
        ensures
            token_views(final(self).tokens@) == parser_tokens(token_views(old(self).tokens@)),
    {
        let ghost orig = token_views(self.tokens@);
        let mut kept: Vec<Token> = Vec::new();
        let ghost mut k: int = 0;
        assert(token_views(kept@) =~= Seq::<TokenView>::empty());
        assert(orig.subrange(0, orig.len() as int) =~= orig);
        while self.tokens.len() > 0
            invariant
                0 <= k <= orig.len(),
                token_views(self.tokens@) == orig.subrange(k, orig.len() as int),
                token_views(kept@) + drop_whitespace(orig.subrange(k, orig.len() as int))
                    == drop_whitespace(orig),
            decreases self.tokens@.len(),
        {
            let ghost rest = orig.subrange(k, orig.len() as int);
            let ghost tokens_before = self.tokens@;
            let ghost kept_before = kept@;
            let t = self.tokens.remove(0);
            proof {
                assert(token_views(tokens_before)[0] == rest[0]);
                assert(rest.drop_first() =~= orig.subrange(k + 1, orig.len() as int));
                assert(token_views(self.tokens@) =~= token_views(tokens_before).drop_first());
                assert(token_views(self.tokens@) =~= orig.subrange(k + 1, orig.len() as int));
                k = k + 1;
            }
            if !matches!(t, Token::Text(Text::Whitespace)) {
                kept.push(t);
                proof {
                    assert(token_views(kept@) =~= token_views(kept_before).push(t@));
                    assert(token_views(kept@) + drop_whitespace(orig.subrange(k, orig.len() as int))
                        =~= token_views(kept_before) + drop_whitespace(rest));
                }
            }
        }
        assert(orig.subrange(k, orig.len() as int) =~= Seq::<TokenView>::empty());
        assert(token_views(kept@) =~= drop_whitespace(orig));
        kept.push(Token::End);
        assert(token_views(kept@) =~= drop_whitespace(orig).push(TokenView::End));
        self.tokens = kept;
    }

    fn step(&mut self) -> (r: bool)
        requires
            old(self).wf(),
        ensures
            final(self).wf(),
            final(self).tokens@ == old(self).tokens@,
            final(self).group_return == old(self).group_return,
            final(self).index == step(old(self).ts(), old(self).index as int),
            r == (old(self).index < old(self).tokens@.len() - 1),
    {
        if self.index < self.tokens.len() - 1 {
            self.index += 1;
            true
        } else {
            false
        }
    }

    fn end_reached(&self) -> (r: bool)
        requires
            self.wf(),
        ensures
            r == at_end(self.ts(), self.index as int),
    {
        self.index >= self.tokens.len() - 1
    }

    /// Whether the token after the cursor is the misc token `m`.
    fn next_is_misc(&self, m: Misc) -> (r: bool)
        requires
            self.wf(),
        ensures
            r == next_is(self.ts(), self.index as int, TokenView::Misc(m)),
    {
        if self.index < self.tokens.len() - 1 {
            match &self.tokens[self.index + 1] {
                Token::Misc(x) => *x == m,
                _ => false,
            }
        } else {
            false
        }
    }

    /// Whether the token after the cursor is the grouping token `g`.
    fn next_is_grouping(&self, g: Grouping) -> (r: bool)
        requires
            self.wf(),
        ensures
            r == next_is(self.ts(), self.index as int, TokenView::Grouping(g)),
    {
        if self.index < self.tokens.len() - 1 {
            match &self.tokens[self.index + 1] {
                Token::Grouping(x) => *x == g,
                _ => false,
            }
        } else {
            false
        }
    }

    /// Whether the cursor stands on the grouping token `g`.
    fn current_is(&self, g: Grouping) -> (r: bool)
        requires
            self.wf(),
        ensures
            r == (self.ts()[self.index as int] == TokenView::Grouping(g)),
    {
        match &self.tokens[self.index] {
            Token::Grouping(x) => *x == g,
            _ => false,
        }
    }

    /// Parses elements until the end or until a closing token; folds a
    /// postfix modifier into the element before it.
    fn parse_expression(&mut self) -> (r: Expression)
        requires
            old(self).wf(),
        ensures
            final(self).wf(),
            final(self).tokens@ == old(self).tokens@,
            old(self).index <= final(self).index,
            (expression_view(r), final(self).index as int, final(self).group_return)
                == expression_spec(old(self).ts(), old(self).index as int, old(self).group_return),
        decreases old(self).tokens@.len() - old(self).index, 20int,
    {
        let ghost ts = self.ts();
        let ghost toks = self.tokens@;
        let ghost i0 = self.index as int;
        let ghost c0 = self.group_return;
        let mut expression = Expression::new();
        proof {
            crate::elements::lemma_expression_view(expression);
        }
        assert(views_of(expression.children@) =~= Seq::<ElementView>::empty());
        loop
            invariant_except_break
                expression_loop(ts, i0, c0, Seq::empty()) == expression_loop(
                    ts,
                    self.index as int,
                    self.group_return,
                    views_of(expression.children@),
                ),
            invariant
                self.wf(),
                self.tokens@ == toks,
                toks == old(self).tokens@,
                i0 == old(self).index,
                self.ts() == ts,
                i0 <= self.index,
                expression_view(expression) == views_of(expression.children@),
            ensures
                expression_loop(ts, i0, c0, Seq::empty()) == (
                    views_of(expression.children@),
                    self.index as int,
                ),
            decreases ts.len() - self.index,
        {
            if self.end_reached() {
                break ;
            }
            let ghost i = self.index as int;
            let ghost acc = views_of(expression.children@);
            if let Some(element) = self.parse_element() {
                let e = self.parse_postfix(element);
                expression.add_child(e);
                proof {
                    crate::elements::lemma_expression_view(expression);
                    assert(views_of(expression.children@) =~= acc.push(element_view(e)));
                }
            }
            if self.group_return {
                break ;
            }
            let ghost j2 = self.index as int;
            self.step();
            assert(step(ts, j2) > i);
        }
        self.group_return = false;
        expression
    }

    /// Parses the element at the cursor.
    fn parse_element(&mut self) -> (r: Option<Element>)
        requires
            old(self).wf(),
        ensures
            final(self).wf(),
            final(self).tokens@ == old(self).tokens@,
            old(self).index <= final(self).index,
            (opt_view(r), final(self).index as int, final(self).group_return) == element_spec(
                old(self).ts(),
                old(self).index as int,
                old(self).group_return,
            ),
        decreases old(self).tokens@.len() - old(self).index, 18int,
    {
        proof {
            self.lemma_ts();
        }
        let i = self.index;
        match &self.tokens[i] {
            Token::Arrow(a) => Some(Element::Literal(Literal::Arrow(*a))),
            Token::Logical(l) => Some(Element::Literal(Literal::Logical(*l))),
            Token::Relation(r) => Some(Element::Literal(Literal::Relation(*r))),
            Token::Greek(g) => Some(Element::Literal(Literal::Greek(*g))),
            Token::Function(f) => Some(Element::Literal(Literal::Function(*f))),
            Token::Text(t) => match t {
                Text::Number(n) => Some(Element::Literal(Literal::Number(Number { number: n.clone() }))),
                Text::Symbol(s) => Some(Element::Literal(Literal::Symbol(Symbol { symbol: s.clone() }))),
                Text::Plain(p) => Some(
                    Element::Literal(Literal::Text(PlainText { text: p.clone(), formatting: None })),
                ),
                Text::NewLine => Some(Element::Literal(Literal::NewLine)),
                Text::Whitespace => None,
            },
            Token::Operation(op) => {
                let op = *op;
                Some(self.parse_operation(op))
            },
            Token::Misc(m) => {
                let m = *m;
                Some(self.parse_misc(m))
            },
            Token::Grouping(g) => {
                let g = *g;
                self.parse_grouping(g)
            },
            Token::Font(f) => {
                let f = *f;
                Some(Element::Literal(self.parse_formatted_text(f)))
            },
            Token::Accent(a) => match a {
                Accent::Color(color) => {
                    let color = color.clone();
                    let inner = self.parse_operand().to_non_enclosed();
                    Some(
                        Element::Accent(
                            ExpressionAccent::Color(Color { color, inner: Box::new(inner) }),
                        ),
                    )
                },
                _ => {
                    let a = copy_accent(a);
                    Some(self.parse_accent(a))
                },
            },
            Token::End => None,
        }
    }

    /// Folds a power, an ascii fraction or a subscript that follows `previous`.
    fn parse_postfix(&mut self, previous: Element) -> (r: Element)
        requires
            old(self).wf(),
        ensures
            final(self).wf(),
            final(self).tokens@ == old(self).tokens@,
            old(self).index <= final(self).index,
            (element_view(r), final(self).index as int, final(self).group_return) == postfix_spec(
                old(self).ts(),
                element_view(previous),
                old(self).index as int,
                old(self).group_return,
            ),
        decreases old(self).tokens@.len() - old(self).index, 18int,
    {
        if self.next_is_misc(Misc::Pow) {
            self.step();
            let exp = self.parse_operand().to_non_enclosed();
            Element::Special(
                Special::Pow(Pow { base: Box::new(previous.to_non_enclosed()), exp: Box::new(exp) }),
            )
        } else if self.next_is_misc(Misc::AsciiFrac) {
            self.step();
            let bottom = self.parse_operand().to_non_enclosed();
            Element::Special(
                Special::Frac(
                    Frac { top: Box::new(previous.to_non_enclosed()), bottom: Box::new(bottom) },
                ),
            )
        } else if self.next_is_misc(Misc::Sub) {
            self.step();
            let lower = self.parse_operand().to_non_enclosed();
            Element::Special(
                Special::Sub(Sub { base: Box::new(previous.to_non_enclosed()), lower: Box::new(lower) }),
            )
        } else {
            previous
        }
    }

    /// Steps to the next token and parses one element there; `Null` where
    /// there is none.
    fn parse_operand(&mut self) -> (r: Element)
        requires
            old(self).wf(),
        ensures
            final(self).wf(),
            final(self).tokens@ == old(self).tokens@,
            old(self).index <= final(self).index,
            (element_view(r), final(self).index as int, final(self).group_return) == operand_spec(
                old(self).ts(),
                old(self).index as int,
                old(self).group_return,
            ),
        decreases old(self).tokens@.len() - old(self).index, 15int,
    {
        if self.step() {
            match self.parse_element() {
                Some(e) => e,
                None => Element::Null,
            }
        } else {
            Element::Null
        }
    }

    /// A lower limit: the element after a subscript mark, if one follows.
    fn parse_sub(&mut self) -> (r: Option<Box<Element>>)
        requires
            old(self).wf(),
        ensures
            final(self).wf(),
            final(self).tokens@ == old(self).tokens@,
            old(self).index <= final(self).index,
            (crate::elements::option_view(r), final(self).index as int, final(self).group_return)
                == limit_spec(old(self).ts(), old(self).index as int, old(self).group_return, Misc::Sub),
        decreases old(self).tokens@.len() - old(self).index, 15int,
    {
        if self.next_is_misc(Misc::Sub) {
            self.step();
            self.step();
            match self.parse_element() {
                Some(e) => Some(Box::new(e.to_non_enclosed())),
                None => None,
            }
        } else {
            None
        }
    }

    /// An upper limit: the element after a power mark, if one follows.
    fn parse_pow(&mut self) -> (r: Option<Box<Element>>)
        requires
            old(self).wf(),
        ensures
            final(self).wf(),
            final(self).tokens@ == old(self).tokens@,
            old(self).index <= final(self).index,
            (crate::elements::option_view(r), final(self).index as int, final(self).group_return)
                == limit_spec(old(self).ts(), old(self).index as int, old(self).group_return, Misc::Pow),
        decreases old(self).tokens@.len() - old(self).index, 15int,
    {
        if self.next_is_misc(Misc::Pow) {
            self.step();
            self.step();
            match self.parse_element() {
                Some(e) => Some(Box::new(e.to_non_enclosed())),
                None => None,
            }
        } else {
            None
        }
    }

    /// The limits of a big operator: top, bottom.
    fn parse_limits(&mut self) -> (r: (Option<Box<Element>>, Option<Box<Element>>))
        requires
            old(self).wf(),
        ensures
            final(self).wf(),
            final(self).tokens@ == old(self).tokens@,
            old(self).index <= final(self).index,
            (
                crate::elements::option_view(r.0),
                crate::elements::option_view(r.1),
                final(self).index as int,
                final(self).group_return,
            ) == limits_spec(old(self).ts(), old(self).index as int, old(self).group_return),
        decreases old(self).tokens@.len() - old(self).index, 16int,
    {
        let bottom = self.parse_sub();
        let top = self.parse_pow();
        (top, bottom)
    }

    /// An operation token: a sum or a product with its limits, or an operator.
    fn parse_operation(&mut self, token: Operation) -> (r: Element)
        requires
            old(self).wf(),
        ensures
            final(self).wf(),
            final(self).tokens@ == old(self).tokens@,
            old(self).index <= final(self).index,
            (Some(element_view(r)), final(self).index as int, final(self).group_return)
                == operation_spec(old(self).ts(), old(self).index as int, old(self).group_return, token),
        decreases old(self).tokens@.len() - old(self).index, 17int,
    {
        match token {
            Operation::Sum => {
                let (top, bottom) = self.parse_limits();
                Element::Special(Special::Sum(Sum { top, bottom }))
            },
            Operation::Prod => {
                let (top, bottom) = self.parse_limits();
                Element::Special(Special::Prod(Prod { top, bottom }))
            },
            _ => Element::Literal(Literal::Operation(token)),
        }
    }

    /// A misc token: fractions, roots and integrals with their operands; the
    /// others as symbols.
    fn parse_misc(&mut self, token: Misc) -> (r: Element)
        requires
            old(self).wf(),
        ensures
            final(self).wf(),
            final(self).tokens@ == old(self).tokens@,
            old(self).index <= final(self).index,
            (Some(element_view(r)), final(self).index as int, final(self).group_return)
                == misc_spec(old(self).ts(), old(self).index as int, old(self).group_return, token),
        decreases old(self).tokens@.len() - old(self).index, 17int,
    {
        match token {
            Misc::LatexFrac => {
                let top = self.parse_operand();
                let bottom = self.parse_operand();
                Element::Special(Special::Frac(Frac { top: Box::new(top), bottom: Box::new(bottom) }))
            },
            Misc::Sqrt => {
                let inner = self.parse_operand();
                Element::Special(Special::Sqrt(Sqrt { inner: Box::new(inner) }))
            },
            Misc::Root => {
                let base = self.parse_operand();
                let inner = self.parse_operand();
                Element::Special(Special::Root(Root { base: Box::new(base), inner: Box::new(inner) }))
            },
            Misc::Int => {
                let (top, bottom) = self.parse_limits();
                Element::Special(Special::Integral(Integral { top, bottom }))
            },
            Misc::OInt => {
                let (top, bottom) = self.parse_limits();
                Element::Special(Special::OIntegral(OIntegral { top, bottom }))
            },
            _ => Element::Literal(Literal::Misc(token)),
        }
    }

    /// An accent other than a color, with its operands.
    fn parse_accent(&mut self, token: Accent) -> (r: Element)
        requires
            old(self).wf(),
        ensures
            final(self).wf(),
            final(self).tokens@ == old(self).tokens@,
            old(self).index <= final(self).index,
            (Some(element_view(r)), final(self).index as int, final(self).group_return)
                == accent_spec(old(self).ts(), old(self).index as int, old(self).group_return, token),
        decreases old(self).tokens@.len() - old(self).index, 17int,
    {
        match token {
            Accent::OverSet => {
                let top = self.parse_operand().to_non_enclosed();
                let bottom = self.parse_operand().to_non_enclosed();
                Element::Accent(
                    ExpressionAccent::OverSet(OverSet { top: Box::new(top), bottom: Box::new(bottom) }),
                )
            },
            Accent::UnderSet => {
                let bottom = self.parse_operand().to_non_enclosed();
                let top = self.parse_operand().to_non_enclosed();
                Element::Accent(
                    ExpressionAccent::UnderSet(UnderSet { top: Box::new(top), bottom: Box::new(bottom) }),
                )
            },
            _ => {
                let inner = self.parse_operand().to_non_enclosed();
                Element::Accent(
                    ExpressionAccent::Generic(GenericAccent { inner: Box::new(inner), accent: token }),
                )
            },
        }
    }

    /// Text after a font command takes that font; a font command without text
    /// stands for itself as a symbol.
    fn parse_formatted_text(&mut self, token: FontCommand) -> (r: Literal)
        requires
            old(self).wf(),
            old(self).ts()[old(self).index as int] == TokenView::Font(token),
        ensures
            final(self).wf(),
            final(self).tokens@ == old(self).tokens@,
            old(self).index <= final(self).index,
            (Some(ElementView::Literal(crate::elements::literal_view(r))), final(self).index as int, final(self).group_return)
                == element_spec(old(self).ts(), old(self).index as int, old(self).group_return),
    {
        proof {
            self.lemma_ts();
        }
        if self.index < self.tokens.len() - 1 {
            if let Token::Text(Text::Plain(p)) = &self.tokens[self.index + 1] {
                let text = p.clone();
                self.step();
                return Literal::Text(PlainText { text, formatting: Some(token) });
            }
        }
        Literal::Symbol(Symbol { symbol: token.to_string() })
    }

    /// The rows of a grid whose rows open with `open` and close with `close`.
    fn parse_rows(&mut self, open: Grouping, close: Grouping) -> (r: Vec<Expression>)
        requires
            old(self).wf(),
        ensures
            final(self).wf(),
            final(self).tokens@ == old(self).tokens@,
            old(self).index <= final(self).index,
            (expression_views(r@), final(self).index as int, final(self).group_return) == rows_spec(
                old(self).ts(),
                old(self).index as int,
                old(self).group_return,
                open,
                close,
                Seq::empty(),
            ),
        decreases old(self).tokens@.len() - old(self).index, 14int,
    {
        let ghost ts = self.ts();
        let ghost toks = self.tokens@;
        let ghost i0 = self.index as int;
        let ghost c0 = self.group_return;
        let mut rows: Vec<Expression> = Vec::new();
        assert(expression_views(rows@) =~= Seq::<Seq<ElementView>>::empty());
        loop
            invariant_except_break
                rows_spec(ts, i0, c0, open, close, Seq::empty()) == rows_spec(
                    ts,
                    self.index as int,
                    self.group_return,
                    open,
                    close,
                    expression_views(rows@),
                ),
            invariant
                self.wf(),
                self.tokens@ == toks,
                toks == old(self).tokens@,
                i0 == old(self).index,
                self.ts() == ts,
                i0 <= self.index,
            ensures
                rows_spec(ts, i0, c0, open, close, Seq::empty()) == (
                    expression_views(rows@),
                    self.index as int,
                    self.group_return,
                ),
            decreases ts.len() - self.index,
        {
            if self.end_reached() || !self.next_is_grouping(open) {
                break ;
            }
            let ghost i = self.index as int;
            let ghost acc = expression_views(rows@);
            self.step();
            self.step();
            let row = self.parse_expression();
            rows.push(row);
            proof {
                assert(expression_views(rows@) =~= acc.push(expression_view(row)));
            }
            if self.current_is(close) {
                self.step();
            }
            if self.current_is(close) {
                break ;
            }
        }
        rows
    }

    /// A matrix at the cursor; where there is none, the cursor is put back.
    fn parse_matrix(&mut self) -> (r: Option<Element>)
        requires
            old(self).wf(),
        ensures
            final(self).wf(),
            final(self).tokens@ == old(self).tokens@,
            old(self).index <= final(self).index,
            (opt_view(r), final(self).index as int, final(self).group_return) == matrix_spec(
                old(self).ts(),
                old(self).index as int,
                old(self).group_return,
            ),
        decreases old(self).tokens@.len() - old(self).index, 16int,
    {
        if !self.current_is(Grouping::RBracket) {
            return None;
        }
        let start_index = self.index;
        let expressions = self.parse_rows(Grouping::RBracket, Grouping::LBracket);
        let expression_matrix = transform_vec_to_matrix(expressions);
        if !validate_matrix(&expression_matrix) {
            self.index = start_index;
            None
        } else {
            Some(Element::Group(Group::Matrix(Matrix { inner: expression_matrix })))
        }
    }

    /// A vector at the cursor; where there is none, the cursor is put back.
    fn parse_vector(&mut self) -> (r: Option<Element>)
        requires
            old(self).wf(),
        ensures
            final(self).wf(),
            final(self).tokens@ == old(self).tokens@,
            old(self).index <= final(self).index,
            (opt_view(r), final(self).index as int, final(self).group_return) == vector_spec(
                old(self).ts(),
                old(self).index as int,
                old(self).group_return,
            ),
        decreases old(self).tokens@.len() - old(self).index, 16int,
    {
        if !self.current_is(Grouping::RParen) {
            return None;
        }
        let start_index = self.index;
        let expressions = self.parse_rows(Grouping::RParen, Grouping::LParen);
        let expression_matrix = transform_vec_to_matrix(expressions);
        if !validate_matrix(&expression_matrix) {
            self.index = start_index;
            None
        } else {
            Some(Element::Group(Group::Vector(Vector { inner: expression_matrix })))
        }
    }

    /// An ordinary group; a closing token raises the close flag.
    fn parse_group(&mut self, token: Grouping) -> (r: Option<Element>)
        requires
            old(self).wf(),
            old(self).ts()[old(self).index as int] == TokenView::Grouping(token),
        ensures
            final(self).wf(),
            final(self).tokens@ == old(self).tokens@,
            old(self).index <= final(self).index,
            (opt_view(r), final(self).index as int, final(self).group_return) == group_spec(
                old(self).ts(),
                old(self).index as int,
                old(self).group_return,
                token,
            ),
        decreases old(self).tokens@.len() - old(self).index, 16int,
    {
        match token {
            Grouping::RParen => {
                self.step();
                let inner = self.parse_expression();
                Some(Element::Group(Group::Parentheses(Parentheses { inner: Box::new(inner) })))
            },
            Grouping::RBrace => {
                self.step();
                let inner = self.parse_expression();
                Some(Element::Group(Group::Braces(Braces { inner: Box::new(inner) })))
            },
            Grouping::RBracket => {
                self.step();
                let inner = self.parse_expression();
                Some(Element::Group(Group::Brackets(Brackets { inner: Box::new(inner) })))
            },
            Grouping::RAngle => {
                self.step();
                let inner = self.parse_expression();
                Some(Element::Group(Group::Angles(Angles { inner: Box::new(inner) })))
            },
            Grouping::RXPar => {
                self.step();
                let inner = self.parse_expression();
                Some(Element::Group(Group::XGroup(XGroup { inner: Box::new(inner) })))
            },
            Grouping::Abs => {
                self.step();
                self.step();
                let inner = self.parse_expression();
                Some(Element::Group(Group::Abs(Abs { inner: Box::new(inner) })))
            },
            Grouping::Floor => {
                self.step();
                self.step();
                let inner = self.parse_expression();
                Some(Element::Group(Group::Floor(Floor { inner: Box::new(inner) })))
            },
            Grouping::Ceil => {
                self.step();
                self.step();
                let inner = self.parse_expression();
                Some(Element::Group(Group::Ceil(Ceil { inner: Box::new(inner) })))
            },
            Grouping::Norm => {
                self.step();
                self.step();
                let inner = self.parse_expression();
                Some(Element::Group(Group::Norm(Norm { inner: Box::new(inner) })))
            },
            Grouping::MSep => Some(Element::Group(Group::MSep)),
            _ => {
                self.group_return = true;
                None
            },
        }
    }

    /// A grouping token: a matrix, else a vector, else an ordinary group.
    fn parse_grouping(&mut self, token: Grouping) -> (r: Option<Element>)
        requires
            old(self).wf(),
            old(self).ts()[old(self).index as int] == TokenView::Grouping(token),
        ensures
            final(self).wf(),
            final(self).tokens@ == old(self).tokens@,
            old(self).index <= final(self).index,
            (opt_view(r), final(self).index as int, final(self).group_return) == grouping_spec(
                old(self).ts(),
                old(self).index as int,
                old(self).group_return,
                token,
            ),
        decreases old(self).tokens@.len() - old(self).index, 17int,
    {
        if let Some(group) = self.parse_matrix() {
            Some(group)
        } else if let Some(group) = self.parse_vector() {
            Some(group)
        } else {
            self.parse_group(token)
        }
    }
} // impl TreeParser

} // verus!
