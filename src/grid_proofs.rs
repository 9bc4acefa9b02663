//! What the parser makes of a well-formed grid of numbers.
use crate::elements::{ElementView, LiteralView};
use crate::tokens::{Grouping, TokenView};
use crate::tree_parser::{
    drop_whitespace, element_spec, expression_loop, expression_spec, grid_ok, grid_of,
    group_spec, grouping_spec, matrix_spec, parse_tokens_spec, parser_tokens, postfix_spec,
    rows_spec, split_cells, step, vector_spec,
};
use vstd::arithmetic::div_mod::lemma_fundamental_div_mod_converse;
use vstd::prelude::*;

verus! {

/// Tokens per row: its brackets, its cells and the commas between them, and
/// the token after it.
pub open spec fn row_width(cols: int) -> int {
    2 * cols + 2
}

/// The token at offset `o` of row `r`: the row's open bracket, the cells with
/// commas between them, the row's close bracket, then a comma before the next
/// row or the outer close bracket after the last one.
pub open spec fn grid_token(
    open: Grouping,
    close: Grouping,
    cells: Seq<Seq<Seq<char>>>,
    cols: int,
    r: int,
    o: int,
) -> TokenView {
    if o == 0 {
        TokenView::Grouping(open)
    } else if o == 2 * cols {
        TokenView::Grouping(close)
    } else if o == 2 * cols + 1 {
        if r == cells.len() - 1 {
            TokenView::Grouping(close)
        } else {
            TokenView::Grouping(Grouping::MSep)
        }
    } else if o % 2 == 1 {
        TokenView::Number(cells[r][(o - 1) / 2])
    } else {
        TokenView::Grouping(Grouping::MSep)
    }
}

/// The tokens of a grid of numbers written with `open` and `close`, as in
/// `[[1,2],[3,4]]`: an outer pair around the rows, a pair around each row,
/// commas between cells and between rows.
pub open spec fn grid_source(
    open: Grouping,
    close: Grouping,
    cells: Seq<Seq<Seq<char>>>,
    cols: int,
) -> Seq<TokenView> {
    let w = row_width(cols);
    Seq::new(
        (cells.len() * w + 1) as nat,
        |x: int|
            if x == 0 {
                TokenView::Grouping(open)
            } else {
                grid_token(open, close, cells, cols, (x - 1) / w, (x - 1) % w)
            },
    )
}

/// A number cell as a tree.
pub open spec fn number_cell(n: Seq<char>) -> Seq<ElementView> {
    seq![ElementView::Literal(LiteralView::Number(n))]
}

/// The grid of trees that a grid of numbers stands for.
pub open spec fn number_grid(cells: Seq<Seq<Seq<char>>>) -> Seq<Seq<Seq<ElementView>>> {
    cells.map_values(|row: Seq<Seq<char>>| row.map_values(|n: Seq<char>| number_cell(n)))
}

/// The elements of one row: its numbers with separators between them.
pub open spec fn row_elements(row: Seq<Seq<char>>) -> Seq<ElementView> {
    Seq::new(
        (2 * row.len() - 1) as nat,
        |q: int|
            if q % 2 == 0 {
                ElementView::Literal(LiteralView::Number(row[q / 2]))
            } else {
                ElementView::MSep
            },
    )
}

/// The well-formed grids: at least one row, every row with `cols` cells, at
/// least one cell per row, more than one cell in all.
pub open spec fn rectangular(cells: Seq<Seq<Seq<char>>>, cols: int) -> bool {
    &&& cells.len() >= 1
    &&& cols >= 1
    &&& cells.len() * cols > 1
    &&& forall|r: int| 0 <= r < cells.len() ==> #[trigger] cells[r].len() == cols
}

/// The tokens that the parser walks for a grid source.
spec fn walked(open: Grouping, close: Grouping, cells: Seq<Seq<Seq<char>>>, cols: int) -> Seq<TokenView> {
    grid_source(open, close, cells, cols).push(TokenView::End)
}

proof fn lemma_token_at(
    open: Grouping,
    close: Grouping,
    cells: Seq<Seq<Seq<char>>>,
    cols: int,
    r: int,
    o: int,
)
    requires
        rectangular(cells, cols),
        0 <= r < cells.len(),
        0 <= o < row_width(cols),
    ensures
        0 < 1 + r * row_width(cols) + o <= cells.len() * row_width(cols),
        walked(open, close, cells, cols)[1 + r * row_width(cols) + o] == grid_token(
            open,
            close,
            cells,
            cols,
            r,
            o,
        ),
{
    let w = row_width(cols);
    let x = 1 + r * w + o;
    lemma_fundamental_div_mod_converse(x - 1, w, r, o);
    assert(r * w + o < cells.len() * w) by (nonlinear_arith)
        requires
            0 <= r < cells.len(),
            0 <= o < w,
    ;
    assert(0 <= r * w) by (nonlinear_arith)
        requires
            0 <= r,
            0 <= w,
    ;
}

/// The bracket pairs that make a matrix and a vector.
pub open spec fn grid_brackets(open: Grouping, close: Grouping) -> bool {
    (open == Grouping::RBracket && close == Grouping::LBracket) || (open == Grouping::RParen
        && close == Grouping::LParen)
}

proof fn lemma_walked_len(open: Grouping, close: Grouping, cells: Seq<Seq<Seq<char>>>, cols: int)
    requires
        rectangular(cells, cols),
    ensures
        walked(open, close, cells, cols).len() == cells.len() * row_width(cols) + 2,
        walked(open, close, cells, cols)[0] == TokenView::Grouping(open),
        walked(open, close, cells, cols)[cells.len() * row_width(cols) + 1] == TokenView::End,
{
    assert(cells.len() * row_width(cols) >= 0) by (nonlinear_arith)
        requires
            cells.len() >= 1,
            row_width(cols) >= 0,
    ;
}

/// A closing bracket ends the expression it meets: no element, close flag raised.
proof fn lemma_closer_ends(ts: Seq<TokenView>, x: int, close: Grouping)
    requires
        0 <= x < ts.len() - 1,
        ts[x] == TokenView::Grouping(close),
        close == Grouping::LBracket || close == Grouping::LParen,
    ensures
        element_spec(ts, x, false) == (None::<ElementView>, x, true),
{
    assert(matrix_spec(ts, x, false) == (None::<ElementView>, x, false));
    assert(vector_spec(ts, x, false) == (None::<ElementView>, x, false));
    assert(group_spec(ts, x, false, close) == (None::<ElementView>, x, true));
    assert(grouping_spec(ts, x, false, close) == (None::<ElementView>, x, true));
}

/// A separator is an element of its own.
proof fn lemma_separator_element(ts: Seq<TokenView>, x: int)
    requires
        0 <= x < ts.len() - 1,
        ts[x] == TokenView::Grouping(Grouping::MSep),
    ensures
        element_spec(ts, x, false) == (Some(ElementView::MSep), x, false),
{
    assert(matrix_spec(ts, x, false) == (None::<ElementView>, x, false));
    assert(vector_spec(ts, x, false) == (None::<ElementView>, x, false));
    assert(group_spec(ts, x, false, Grouping::MSep) == (Some(ElementView::MSep), x, false));
    assert(grouping_spec(ts, x, false, Grouping::MSep) == (Some(ElementView::MSep), x, false));
}

/// Nothing is folded into an element that no misc token follows.
proof fn lemma_no_postfix(ts: Seq<TokenView>, e: ElementView, x: int)
    requires
        0 <= x < ts.len() - 1,
        !(ts[x + 1] is Misc),
    ensures
        postfix_spec(ts, e, x, false) == (e, x, false),
{
}

/// The token at offset `o` of a row written with `open` and `close`: the
/// brackets, the numbers, and the separators between them.
pub open spec fn row_token(open: Grouping, close: Grouping, row: Seq<Seq<char>>, o: int) -> TokenView {
    if o == 0 {
        TokenView::Grouping(open)
    } else if o == 2 * row.len() {
        TokenView::Grouping(close)
    } else if o % 2 == 1 {
        TokenView::Number(row[(o - 1) / 2])
    } else {
        TokenView::Grouping(Grouping::MSep)
    }
}

/// The row's tokens stand at `b` in `ts`, and a token follows them.
pub open spec fn row_at(ts: Seq<TokenView>, b: int, open: Grouping, close: Grouping, row: Seq<Seq<char>>) -> bool {
    &&& row.len() >= 1
    &&& 0 <= b
    &&& b + 2 * row.len() < ts.len() - 1
    &&& forall|o: int| 0 <= o <= 2 * row.len() ==> #[trigger] ts[b + o] == row_token(open, close, row, o)
}

proof fn lemma_row_loop(
    ts: Seq<TokenView>,
    b: int,
    open: Grouping,
    close: Grouping,
    row: Seq<Seq<char>>,
    q: int,
    acc: Seq<ElementView>,
)
    requires
        grid_brackets(open, close),
        row_at(ts, b, open, close, row),
        0 <= q <= 2 * row.len() - 1,
    ensures
        expression_loop(ts, b + 1 + q, false, acc) == (acc + row_elements(row).subrange(
            q,
            2 * row.len() - 1,
        ), b + 2 * row.len()),
    decreases 2 * row.len() - 1 - q,
{
    let c = row.len();
    let x = b + 1 + q;
    let elems = row_elements(row);
    assert(ts[b + (1 + q)] == row_token(open, close, row, 1 + q));
    if q == 2 * c - 1 {
        lemma_closer_ends(ts, x, close);
        assert(elems.subrange(q, 2 * c - 1) =~= Seq::<ElementView>::empty());
        assert(acc + elems.subrange(q, 2 * c - 1) =~= acc);
    } else {
        assert(ts[b + (2 + q)] == row_token(open, close, row, 2 + q));
        let e = elems[q];
        if q % 2 == 0 {
            assert(ts[x] == TokenView::Number(row[q / 2]));
            assert(element_spec(ts, x, false) == (Some(e), x, false));
        } else {
            lemma_separator_element(ts, x);
        }
        lemma_no_postfix(ts, e, x);
        assert(step(ts, x) == x + 1);
        lemma_row_loop(ts, b, open, close, row, q + 1, acc.push(e));
        assert(acc.push(e) + elems.subrange(q + 1, 2 * c - 1) =~= acc + elems.subrange(q, 2 * c - 1));
    }
}

/// A row standing at `b` parses, from just after its open bracket, to its
/// numbers and separators, and stops at its close bracket.
proof fn lemma_row_at(ts: Seq<TokenView>, b: int, open: Grouping, close: Grouping, row: Seq<Seq<char>>)
    requires
        grid_brackets(open, close),
        row_at(ts, b, open, close, row),
    ensures
        expression_spec(ts, b + 1, false) == (row_elements(row), b + 2 * row.len(), false),
{
    lemma_row_loop(ts, b, open, close, row, 0, Seq::empty());
    let elems = row_elements(row);
    assert(Seq::<ElementView>::empty() + elems.subrange(0, 2 * row.len() - 1) =~= elems);
}

proof fn lemma_row_expression(
    open: Grouping,
    close: Grouping,
    cells: Seq<Seq<Seq<char>>>,
    cols: int,
    r: int,
)
    requires
        rectangular(cells, cols),
        grid_brackets(open, close),
        0 <= r < cells.len(),
    ensures
        expression_spec(walked(open, close, cells, cols), 1 + r * row_width(cols) + 1, false) == (
            row_elements(cells[r]),
            1 + r * row_width(cols) + 2 * cols,
            false,
        ),
{
    let ts = walked(open, close, cells, cols);
    let b = 1 + r * row_width(cols);
    lemma_walked_len(open, close, cells, cols);
    lemma_token_at(open, close, cells, cols, r, 2 * cols + 1);
    assert forall|o: int| 0 <= o <= 2 * cells[r].len() implies #[trigger] ts[b + o] == row_token(
        open,
        close,
        cells[r],
        o,
    ) by {
        lemma_token_at(open, close, cells, cols, r, o);
    }
    lemma_row_at(ts, b, open, close, cells[r]);
}

/// The elements of each row.
pub open spec fn rows_elements(cells: Seq<Seq<Seq<char>>>) -> Seq<Seq<ElementView>> {
    cells.map_values(|row: Seq<Seq<char>>| row_elements(row))
}

proof fn lemma_rows(
    open: Grouping,
    close: Grouping,
    cells: Seq<Seq<Seq<char>>>,
    cols: int,
    r: int,
    acc: Seq<Seq<ElementView>>,
)
    requires
        rectangular(cells, cols),
        grid_brackets(open, close),
        0 <= r < cells.len(),
    ensures
        rows_spec(walked(open, close, cells, cols), r * row_width(cols), false, open, close, acc)
            == (acc + rows_elements(cells).subrange(r, cells.len() as int), cells.len() * row_width(
            cols,
        ), false),
    decreases cells.len() - r,
{
    let ts = walked(open, close, cells, cols);
    let w = row_width(cols);
    let i = r * w;
    let rows = rows_elements(cells);
    lemma_walked_len(open, close, cells, cols);
    lemma_token_at(open, close, cells, cols, r, 0);
    lemma_token_at(open, close, cells, cols, r, 2 * cols);
    lemma_token_at(open, close, cells, cols, r, 2 * cols + 1);
    assert(1 + r * w + 2 * cols + 1 == (r + 1) * w) by (nonlinear_arith)
        requires
            w == 2 * cols + 2,
    ;
    assert((r + 1) * w <= cells.len() * w) by (nonlinear_arith)
        requires
            r + 1 <= cells.len(),
            w >= 0,
    ;
    assert(0 <= r * w) by (nonlinear_arith)
        requires
            0 <= r,
            0 <= w,
    ;
    lemma_row_expression(open, close, cells, cols, r);
    assert(step(ts, step(ts, i)) == i + 2);
    let acc2 = acc.push(row_elements(cells[r]));
    if r == cells.len() - 1 {
        assert(acc2 =~= acc + rows.subrange(r, cells.len() as int));
    } else {
        lemma_rows(open, close, cells, cols, r + 1, acc2);
        assert(acc2 + rows.subrange(r + 1, cells.len() as int) =~= acc + rows.subrange(
            r,
            cells.len() as int,
        ));
    }
}

proof fn lemma_split_row(row: Seq<Seq<char>>)
    requires
        row.len() >= 1,
    ensures
        split_cells(row_elements(row)) == row.map_values(|n: Seq<char>| number_cell(n)),
    decreases row.len(),
{
    let elems = row_elements(row);
    let n = ElementView::Literal(LiteralView::Number(row.last()));
    let want = row.map_values(|n: Seq<char>| number_cell(n));
    assert(elems.last() == n);
    assert(Seq::<ElementView>::empty().push(n) =~= number_cell(row.last()));
    if row.len() == 1 {
        assert(elems.drop_last() =~= Seq::<ElementView>::empty());
        let init = split_cells(elems.drop_last());
        assert(init == seq![Seq::<ElementView>::empty()]);
        assert(split_cells(elems) =~= want);
    } else {
        let init = row.drop_last();
        lemma_split_row(init);
        assert(elems.drop_last().drop_last() =~= row_elements(init));
        assert(elems.drop_last().last() == ElementView::MSep);
        let before = split_cells(elems.drop_last());
        assert(before == split_cells(row_elements(init)).push(Seq::empty()));
        assert(init.map_values(|n: Seq<char>| number_cell(n)).push(number_cell(row.last())) =~= want);
        assert(split_cells(elems) =~= want);
    }
}

/// A rectangular grid of numbers with more than one cell, written with
/// brackets, parses to one matrix of exactly those cells; written with
/// parentheses, to one vector of them. At the outer bracket the matrix attempt
/// (or vector attempt) accepts it and leaves the cursor on the outer close;
/// the other attempt gives nothing and leaves the cursor where it was.
pub proof fn lemma_grid_accepted(cells: Seq<Seq<Seq<char>>>, cols: int)
    requires
        rectangular(cells, cols),
    ensures
        parse_tokens_spec(grid_source(Grouping::RBracket, Grouping::LBracket, cells, cols)) == seq![
            ElementView::Matrix(number_grid(cells)),
        ],
        parse_tokens_spec(grid_source(Grouping::RParen, Grouping::LParen, cells, cols)) == seq![
            ElementView::Vector(number_grid(cells)),
        ],
        ({
            let ts = parser_tokens(grid_source(Grouping::RBracket, Grouping::LBracket, cells, cols));
            let last = cells.len() * row_width(cols);
            &&& ts[last] == TokenView::Grouping(Grouping::LBracket)
            &&& matrix_spec(ts, 0, false) == (Some(ElementView::Matrix(number_grid(cells))), last, false)
            &&& vector_spec(ts, 0, false) == (None::<ElementView>, 0int, false)
        }),
        ({
            let ts = parser_tokens(grid_source(Grouping::RParen, Grouping::LParen, cells, cols));
            let last = cells.len() * row_width(cols);
            &&& ts[last] == TokenView::Grouping(Grouping::LParen)
            &&& matrix_spec(ts, 0, false) == (None::<ElementView>, 0int, false)
            &&& vector_spec(ts, 0, false) == (Some(ElementView::Vector(number_grid(cells))), last, false)
        }),
{
    lemma_grid_parsed(Grouping::RBracket, Grouping::LBracket, cells, cols);
    lemma_grid_parsed(Grouping::RParen, Grouping::LParen, cells, cols);
}

proof fn lemma_no_whitespace(ts: Seq<TokenView>)
    requires
        forall|k: int| 0 <= k < ts.len() ==> !(#[trigger] ts[k] is Whitespace),
    ensures
        drop_whitespace(ts) == ts,
    decreases ts.len(),
{
    if ts.len() > 0 {
        lemma_no_whitespace(ts.drop_first());
        assert(seq![ts[0]] + ts.drop_first() =~= ts);
    }
}

proof fn lemma_grid_parsed(open: Grouping, close: Grouping, cells: Seq<Seq<Seq<char>>>, cols: int)
    requires
        rectangular(cells, cols),
        grid_brackets(open, close),
    ensures
        parse_tokens_spec(grid_source(open, close, cells, cols)) == seq![
            if open == Grouping::RBracket {
                ElementView::Matrix(number_grid(cells))
            } else {
                ElementView::Vector(number_grid(cells))
            },
        ],
        ({
            let ts = parser_tokens(grid_source(open, close, cells, cols));
            let last = cells.len() * row_width(cols);
            &&& ts[last] == TokenView::Grouping(close)
            &&& matrix_spec(ts, 0, false) == if open == Grouping::RBracket {
                (Some(ElementView::Matrix(number_grid(cells))), last, false)
            } else {
                (None::<ElementView>, 0int, false)
            }
            &&& vector_spec(ts, 0, false) == if open == Grouping::RParen {
                (Some(ElementView::Vector(number_grid(cells))), last, false)
            } else {
                (None::<ElementView>, 0int, false)
            }
        }),
{
    let src = grid_source(open, close, cells, cols);
    let ts = walked(open, close, cells, cols);
    let w = row_width(cols);
    let last = cells.len() * w;
    lemma_walked_len(open, close, cells, cols);
    assert forall|k: int| 0 <= k < src.len() implies !(#[trigger] src[k] is Whitespace) by {}
    lemma_no_whitespace(src);
    assert(parser_tokens(src) == ts);
    lemma_rows(open, close, cells, cols, 0, Seq::empty());
    let rows = rows_elements(cells);
    assert(Seq::<Seq<ElementView>>::empty() + rows.subrange(0, cells.len() as int) =~= rows);
    let g = grid_of(rows);
    assert(g =~= number_grid(cells)) by {
        assert forall|r: int| 0 <= r < cells.len() implies #[trigger] g[r] == number_grid(cells)[r] by {
            lemma_split_row(cells[r]);
        }
    }
    assert(grid_ok(g)) by {
        assert(g[0].len() == cols);
        assert(g[0].len() * g.len() > 1) by (nonlinear_arith)
            requires
                g[0].len() == cols,
                g.len() == cells.len(),
                cells.len() * cols > 1,
        ;
    }
    let e = if open == Grouping::RBracket {
        ElementView::Matrix(number_grid(cells))
    } else {
        ElementView::Vector(number_grid(cells))
    };
    assert(matrix_spec(ts, 0, false) == if open == Grouping::RBracket {
        (Some(e), last, false)
    } else {
        (None::<ElementView>, 0, false)
    });
    assert(vector_spec(ts, 0, false) == if open == Grouping::RParen {
        (Some(e), last, false)
    } else {
        (None::<ElementView>, 0, false)
    });
    lemma_token_at(open, close, cells, cols, cells.len() - 1, 2 * cols + 1);
    assert(1 + (cells.len() - 1) * w + 2 * cols + 1 == last) by (nonlinear_arith)
        requires
            w == 2 * cols + 2,
            last == cells.len() * w,
    ;
    assert(grouping_spec(ts, 0, false, open) == (Some(e), last, false));
    assert(element_spec(ts, 0, false) == (Some(e), last, false));
    lemma_no_postfix(ts, e, last);
    assert(step(ts, last) == last + 1);
    assert(expression_loop(ts, last + 1, false, seq![e]) == (seq![e], last + 1));
    assert(expression_loop(ts, 0, false, Seq::empty()) == (seq![e], last + 1)) by {
        assert(Seq::<ElementView>::empty().push(e) == seq![e]);
    }
}

/// The tokens of one row: its brackets, numbers and separators.
pub open spec fn row_tokens(open: Grouping, close: Grouping, row: Seq<Seq<char>>) -> Seq<TokenView> {
    Seq::new((2 * row.len() + 1) as nat, |o: int| row_token(open, close, row, o))
}

/// Rows one after another, a separator between each two.
pub open spec fn rows_source(open: Grouping, close: Grouping, cells: Seq<Seq<Seq<char>>>) -> Seq<
    TokenView,
>
    decreases cells.len(),
{
    if cells.len() == 0 {
        Seq::empty()
    } else if cells.len() == 1 {
        row_tokens(open, close, cells[0])
    } else {
        rows_source(open, close, cells.drop_last()).push(TokenView::Grouping(Grouping::MSep))
            + row_tokens(open, close, cells.last())
    }
}

/// The tokens of rows of numbers of any lengths inside an outer pair, as in
/// `[[1,3,4],[3,4]]`.
pub open spec fn nested_source(open: Grouping, close: Grouping, cells: Seq<Seq<Seq<char>>>) -> Seq<
    TokenView,
> {
    seq![TokenView::Grouping(open)] + rows_source(open, close, cells) + seq![
        TokenView::Grouping(close),
    ]
}

/// Where row `r` opens in a nested source.
pub open spec fn row_start(cells: Seq<Seq<Seq<char>>>, r: int) -> int
    decreases r,
{
    if r <= 0 {
        1
    } else {
        row_start(cells, r - 1) + 2 * cells[r - 1].len() + 2
    }
}

/// At least two rows, none empty, not all of one length.
pub open spec fn ragged(cells: Seq<Seq<Seq<char>>>) -> bool {
    &&& cells.len() >= 2
    &&& forall|r: int| 0 <= r < cells.len() ==> #[trigger] cells[r].len() >= 1
    &&& exists|r: int| 0 <= r < cells.len() && #[trigger] cells[r].len() != cells[0].len()
}

/// A row inside the ordinary group that its brackets make.
pub open spec fn enclosed(open: Grouping, x: Seq<ElementView>) -> ElementView {
    if open == Grouping::RBracket {
        ElementView::Brackets(x)
    } else {
        ElementView::Parentheses(x)
    }
}

/// The elements of a nested source read as ordinary groups: each row a group
/// of its numbers and separators, a separator between rows.
pub open spec fn nested_elements(open: Grouping, cells: Seq<Seq<Seq<char>>>) -> Seq<ElementView> {
    Seq::new(
        (2 * cells.len() - 1) as nat,
        |q: int|
            if q % 2 == 0 {
                enclosed(open, row_elements(cells[q / 2]))
            } else {
                ElementView::MSep
            },
    )
}

proof fn lemma_row_start_prefix(cells: Seq<Seq<Seq<char>>>, k: int, r: int)
    requires
        0 <= r <= k <= cells.len(),
    ensures
        row_start(cells.subrange(0, k), r) == row_start(cells, r),
        row_start(cells, r) >= 1,
    decreases r,
{
    if r > 0 {
        lemma_row_start_prefix(cells, k, r - 1);
    }
}

proof fn lemma_row_start_mono(cells: Seq<Seq<Seq<char>>>, r: int, t: int)
    requires
        0 <= r <= t,
    ensures
        row_start(cells, r) <= row_start(cells, t),
    decreases t - r,
{
    if r < t {
        lemma_row_start_mono(cells, r, t - 1);
    }
}

/// Where the tokens of a nested source stand.
proof fn lemma_rows_source(open: Grouping, close: Grouping, cells: Seq<Seq<Seq<char>>>)
    requires
        cells.len() >= 1,
    ensures
        rows_source(open, close, cells).len() == row_start(cells, cells.len() as int) - 2,
        forall|r: int, o: int|
            0 <= r < cells.len() && 0 <= o <= 2 * cells[r].len() ==> #[trigger] rows_source(
                open,
                close,
                cells,
            )[row_start(cells, r) - 1 + o] == row_token(open, close, cells[r], o),
        forall|r: int|
            0 <= r < cells.len() - 1 ==> #[trigger] rows_source(open, close, cells)[row_start(
                cells,
                r + 1,
            ) - 2] == TokenView::Grouping(Grouping::MSep),
    decreases cells.len(),
{
    let src = rows_source(open, close, cells);
    let n = cells.len() as int;
    assert(row_start(cells, 0) == 1);
    assert(row_start(cells, n) == row_start(cells, n - 1) + 2 * cells[n - 1].len() + 2);
    if n == 1 {
        assert forall|r: int, o: int|
            0 <= r < cells.len() && 0 <= o <= 2 * cells[r].len() implies #[trigger] src[row_start(
            cells,
            r,
        ) - 1 + o] == row_token(open, close, cells[r], o) by {
            assert(r == 0);
        }
    } else {
        let init = cells.drop_last();
        lemma_rows_source(open, close, init);
        let a = rows_source(open, close, init);
        let t = row_tokens(open, close, cells.last());
        assert(init =~= cells.subrange(0, n - 1));
        lemma_row_start_prefix(cells, n - 1, n - 1);
        assert(a.len() == row_start(cells, n - 1) - 2);
        assert(src == a.push(TokenView::Grouping(Grouping::MSep)) + t);
        assert forall|r: int, o: int|
            0 <= r < cells.len() && 0 <= o <= 2 * cells[r].len() implies #[trigger] src[row_start(
            cells,
            r,
        ) - 1 + o] == row_token(open, close, cells[r], o) by {
            lemma_row_start_prefix(cells, n - 1, r);
            if r < n - 1 {
                lemma_row_start_mono(cells, r + 1, n - 1);
                assert(init[r] == cells[r]);
                assert(a[row_start(init, r) - 1 + o] == row_token(open, close, init[r], o));
            } else {
                assert(src[row_start(cells, r) - 1 + o] == t[o]);
            }
        }
        assert(src[a.len() as int] == TokenView::Grouping(Grouping::MSep));
        assert forall|r: int| 0 <= r < cells.len() - 1 implies #[trigger] src[row_start(cells, r + 1) - 2]
            == TokenView::Grouping(Grouping::MSep) by {
            lemma_row_start_prefix(cells, n - 1, r + 1);
            if r + 1 < n - 1 {
                lemma_row_start_mono(cells, r + 2, n - 1);
                lemma_row_start_prefix(cells, n - 1, r);
                assert(a[row_start(init, r + 1) - 2] == TokenView::Grouping(Grouping::MSep));
                assert(src[row_start(cells, r + 1) - 2] == a[row_start(cells, r + 1) - 2]);
            }
        }
    }
}

/// The tokens that the parser walks for a nested source.
spec fn walked_nested(open: Grouping, close: Grouping, cells: Seq<Seq<Seq<char>>>) -> Seq<TokenView> {
    nested_source(open, close, cells).push(TokenView::End)
}

/// Where the tokens of the walked sequence stand: each row, the separators,
/// the outer brackets and the end mark.
proof fn lemma_walked_nested(open: Grouping, close: Grouping, cells: Seq<Seq<Seq<char>>>)
    requires
        cells.len() >= 1,
        forall|r: int| 0 <= r < cells.len() ==> #[trigger] cells[r].len() >= 1,
    ensures
        ({
            let ts = walked_nested(open, close, cells);
            let last = row_start(cells, cells.len() as int) - 1;
            &&& ts.len() == last + 2
            &&& ts[0] == TokenView::Grouping(open)
            &&& ts[last] == TokenView::Grouping(close)
            &&& ts[last + 1] == TokenView::End
            &&& forall|r: int| 0 <= r < cells.len() ==> #[trigger] row_at(ts, row_start(cells, r), open, close, cells[r])
            &&& forall|r: int| 0 <= r < cells.len() - 1 ==> #[trigger] ts[row_start(cells, r + 1) - 1] == TokenView::Grouping(Grouping::MSep)
            &&& forall|r: int| 0 <= r < cells.len() ==> #[trigger] row_start(cells, r + 1) == row_start(cells, r) + 2 * cells[r].len() + 2
            &&& row_start(cells, 0) == 1
        }),
{
    let ts = walked_nested(open, close, cells);
    let src = rows_source(open, close, cells);
    lemma_rows_source(open, close, cells);
    let n = cells.len() as int;
    assert(ts == (seq![TokenView::Grouping(open)] + src + seq![TokenView::Grouping(close)]).push(TokenView::End));
    assert(ts.len() == row_start(cells, n) + 1);
    assert forall|r: int| 0 <= r < cells.len() implies #[trigger] row_at(ts, row_start(cells, r), open, close, cells[r]) by {
        lemma_row_start_mono(cells, r + 1, n);
        lemma_row_start_prefix(cells, n, r);
        assert(row_start(cells, r + 1) == row_start(cells, r) + 2 * cells[r].len() + 2);
        assert forall|o: int| 0 <= o <= 2 * cells[r].len() implies #[trigger] ts[row_start(cells, r) + o]
            == row_token(open, close, cells[r], o) by {
            assert(0 <= row_start(cells, r) - 1 + o < src.len());
            assert(ts[row_start(cells, r) + o] == src[row_start(cells, r) - 1 + o]);
        }
    }
    assert forall|r: int| 0 <= r < cells.len() - 1 implies #[trigger] ts[row_start(cells, r + 1) - 1] == TokenView::Grouping(Grouping::MSep) by {
        lemma_row_start_mono(cells, r + 2, n);
        lemma_row_start_prefix(cells, n, r + 1);
        lemma_row_start_prefix(cells, n, r);
        assert(row_start(cells, r + 2) == row_start(cells, r + 1) + 2 * cells[r + 1].len() + 2);
        assert(row_start(cells, r + 1) == row_start(cells, r) + 2 * cells[r].len() + 2);
        assert(0 <= row_start(cells, r + 1) - 2 < src.len());
        assert(ts[row_start(cells, r + 1) - 1] == src[row_start(cells, r + 1) - 2]);
    }
}

proof fn lemma_rows_source_no_whitespace(open: Grouping, close: Grouping, cells: Seq<Seq<Seq<char>>>)
    ensures
        forall|k: int|
            0 <= k < rows_source(open, close, cells).len() ==> !(#[trigger] rows_source(
                open,
                close,
                cells,
            )[k] is Whitespace),
    decreases cells.len(),
{
    if cells.len() > 1 {
        lemma_rows_source_no_whitespace(open, close, cells.drop_last());
    }
}

/// The grid attempt reads every row of a nested source, whatever their lengths.
proof fn lemma_nested_rows(
    open: Grouping,
    close: Grouping,
    cells: Seq<Seq<Seq<char>>>,
    r: int,
    acc: Seq<Seq<ElementView>>,
)
    requires
        grid_brackets(open, close),
        cells.len() >= 1,
        forall|q: int| 0 <= q < cells.len() ==> #[trigger] cells[q].len() >= 1,
        0 <= r < cells.len(),
    ensures
        rows_spec(walked_nested(open, close, cells), row_start(cells, r) - 1, false, open, close, acc)
            == (acc + rows_elements(cells).subrange(r, cells.len() as int), row_start(
            cells,
            cells.len() as int,
        ) - 1, false),
    decreases cells.len() - r,
{
    let ts = walked_nested(open, close, cells);
    let n = cells.len() as int;
    let b = row_start(cells, r);
    let len = cells[r].len() as int;
    let rows = rows_elements(cells);
    lemma_row_facts(open, close, cells, r);
    lemma_row_at(ts, b, open, close, cells[r]);
    assert(step(ts, step(ts, b - 1)) == b + 1);
    let acc2 = acc.push(row_elements(cells[r]));
    if r == n - 1 {
        assert(acc2 =~= acc + rows.subrange(r, n));
    } else {
        lemma_nested_rows(open, close, cells, r + 1, acc2);
        assert(acc2 + rows.subrange(r + 1, n) =~= acc + rows.subrange(r, n));
    }
}

/// A row that starts with its open bracket and a number is no grid.
proof fn lemma_row_not_grid(ts: Seq<TokenView>, x: int, open: Grouping, close: Grouping)
    requires
        grid_brackets(open, close),
        0 <= x < ts.len() - 2,
        ts[x] == TokenView::Grouping(open),
        ts[x + 1] is Number,
    ensures
        matrix_spec(ts, x, false) == (None::<ElementView>, x, false),
        vector_spec(ts, x, false) == (None::<ElementView>, x, false),
{
    assert(rows_spec(ts, x, false, open, close, Seq::empty()) == (
        Seq::<Seq<ElementView>>::empty(),
        x,
        false,
    ));
    assert(grid_of(Seq::<Seq<ElementView>>::empty()) =~= Seq::<Seq<Seq<ElementView>>>::empty());
}

/// The facts about row `r` of a walked nested source.
proof fn lemma_row_facts(open: Grouping, close: Grouping, cells: Seq<Seq<Seq<char>>>, r: int)
    requires
        cells.len() >= 1,
        forall|q: int| 0 <= q < cells.len() ==> #[trigger] cells[q].len() >= 1,
        0 <= r < cells.len(),
    ensures
        ({
            let ts = walked_nested(open, close, cells);
            let n = cells.len() as int;
            let b = row_start(cells, r);
            let len = cells[r].len() as int;
            &&& row_at(ts, b, open, close, cells[r])
            &&& b >= 1
            &&& ts.len() == row_start(cells, n) + 1
            &&& ts[b] == TokenView::Grouping(open)
            &&& ts[b + 1] is Number
            &&& ts[b + 2 * len] == TokenView::Grouping(close)
            &&& row_start(cells, r + 1) == b + 2 * len + 2
            &&& row_start(cells, r + 1) <= row_start(cells, n)
            &&& r < n - 1 ==> ts[b + 2 * len + 1] == TokenView::Grouping(Grouping::MSep)
            &&& r == n - 1 ==> ts[b + 2 * len + 1] == TokenView::Grouping(close)
                && b + 2 * len + 2 == row_start(cells, n)
        }),
{
    let ts = walked_nested(open, close, cells);
    let n = cells.len() as int;
    let b = row_start(cells, r);
    let len = cells[r].len() as int;
    lemma_walked_nested(open, close, cells);
    lemma_row_start_mono(cells, r + 1, n);
    lemma_row_start_prefix(cells, n, r);
    assert(row_at(ts, b, open, close, cells[r]));
    assert(ts[b + 0] == row_token(open, close, cells[r], 0));
    assert(ts[b + 1] == row_token(open, close, cells[r], 1));
    assert(ts[b + 2 * len] == row_token(open, close, cells[r], 2 * len));
    assert(row_start(cells, r + 1) == b + 2 * len + 2);
    if r < n - 1 {
        assert(ts[row_start(cells, r + 1) - 1] == TokenView::Grouping(Grouping::MSep));
    }
}

/// The two ends of a walked nested source.
proof fn lemma_nested_ends(open: Grouping, close: Grouping, cells: Seq<Seq<Seq<char>>>)
    requires
        cells.len() >= 1,
        forall|q: int| 0 <= q < cells.len() ==> #[trigger] cells[q].len() >= 1,
    ensures
        ({
            let ts = walked_nested(open, close, cells);
            let last = row_start(cells, cells.len() as int) - 1;
            &&& ts.len() == last + 2
            &&& ts[0] == TokenView::Grouping(open)
            &&& ts[last] == TokenView::Grouping(close)
            &&& ts[last + 1] == TokenView::End
            &&& row_start(cells, 0) == 1
        }),
{
    lemma_walked_nested(open, close, cells);
}

/// Row `r` of a nested source, met by the expression parse, is an ordinary
/// group of its numbers and separators.
proof fn lemma_row_group(open: Grouping, close: Grouping, cells: Seq<Seq<Seq<char>>>, r: int)
    requires
        grid_brackets(open, close),
        cells.len() >= 1,
        forall|q: int| 0 <= q < cells.len() ==> #[trigger] cells[q].len() >= 1,
        0 <= r < cells.len(),
    ensures
        element_spec(walked_nested(open, close, cells), row_start(cells, r), false) == (
            Some(enclosed(open, row_elements(cells[r]))),
            row_start(cells, r) + 2 * cells[r].len(),
            false,
        ),
{
    let ts = walked_nested(open, close, cells);
    let x = row_start(cells, r);
    lemma_row_facts(open, close, cells, r);
    lemma_row_not_grid(ts, x, open, close);
    lemma_row_at(ts, x, open, close, cells[r]);
    let e = enclosed(open, row_elements(cells[r]));
    let j = x + 2 * cells[r].len();
    assert(group_spec(ts, x, false, open) == (Some(e), j, false));
    assert(grouping_spec(ts, x, false, open) == (Some(e), j, false));
}

/// The expression inside the outer brackets reads each row as an ordinary
/// group, with the separators between them.
proof fn lemma_outer_loop(
    open: Grouping,
    close: Grouping,
    cells: Seq<Seq<Seq<char>>>,
    r: int,
    acc: Seq<ElementView>,
)
    requires
        grid_brackets(open, close),
        cells.len() >= 1,
        forall|q: int| 0 <= q < cells.len() ==> #[trigger] cells[q].len() >= 1,
        0 <= r < cells.len(),
    ensures
        expression_loop(walked_nested(open, close, cells), row_start(cells, r), false, acc) == (acc
            + nested_elements(open, cells).subrange(2 * r, 2 * cells.len() - 1), row_start(
            cells,
            cells.len() as int,
        ) - 1),
    decreases cells.len() - r,
{
    let ts = walked_nested(open, close, cells);
    let n = cells.len() as int;
    let x = row_start(cells, r);
    let len = cells[r].len() as int;
    let all = nested_elements(open, cells);
    lemma_row_facts(open, close, cells, r);
    lemma_row_group(open, close, cells, r);
    let e = enclosed(open, row_elements(cells[r]));
    assert(e == all[2 * r]);
    let j = x + 2 * len;
    let acc2 = acc.push(e);
    lemma_no_postfix(ts, e, j);
    assert(expression_loop(ts, x, false, acc) == expression_loop(ts, j + 1, false, acc2));
    if r == n - 1 {
        lemma_closer_ends(ts, j + 1, close);
        assert(expression_loop(ts, j + 1, false, acc2) == (acc2, j + 1));
        assert(acc2 =~= acc + all.subrange(2 * r, 2 * n - 1));
    } else {
        lemma_row_facts(open, close, cells, r + 1);
        lemma_separator_element(ts, j + 1);
        lemma_no_postfix(ts, ElementView::MSep, j + 1);
        assert(all[2 * r + 1] == ElementView::MSep);
        let acc3 = acc2.push(ElementView::MSep);
        lemma_outer_loop(open, close, cells, r + 1, acc3);
        assert(expression_loop(ts, j + 1, false, acc2) == expression_loop(ts, j + 2, false, acc3));
        assert(acc3 + all.subrange(2 * r + 2, 2 * n - 1) =~= acc + all.subrange(2 * r, 2 * n - 1));
    }
}

/// Rows of numbers of unequal lengths inside an outer pair of brackets (or
/// parentheses) make no matrix (or vector): the outer pair is an ordinary
/// group holding each row as an ordinary group of its numbers and separators,
/// with a separator element between each two rows.
pub proof fn lemma_ragged_falls_back(cells: Seq<Seq<Seq<char>>>)
    requires
        ragged(cells),
    ensures
        parse_tokens_spec(nested_source(Grouping::RBracket, Grouping::LBracket, cells)) == seq![
            ElementView::Brackets(nested_elements(Grouping::RBracket, cells)),
        ],
        parse_tokens_spec(nested_source(Grouping::RParen, Grouping::LParen, cells)) == seq![
            ElementView::Parentheses(nested_elements(Grouping::RParen, cells)),
        ],
{
    lemma_nested_parsed(Grouping::RBracket, Grouping::LBracket, cells);
    lemma_nested_parsed(Grouping::RParen, Grouping::LParen, cells);
}

proof fn lemma_nested_walked(open: Grouping, close: Grouping, cells: Seq<Seq<Seq<char>>>)
    requires
        cells.len() >= 1,
        forall|q: int| 0 <= q < cells.len() ==> #[trigger] cells[q].len() >= 1,
    ensures
        parser_tokens(nested_source(open, close, cells)) == walked_nested(open, close, cells),
{
    let src = nested_source(open, close, cells);
    lemma_rows_source_no_whitespace(open, close, cells);
    assert forall|k: int| 0 <= k < src.len() implies !(#[trigger] src[k] is Whitespace) by {
        if 0 < k < src.len() - 1 {
            assert(src[k] == rows_source(open, close, cells)[k - 1]);
        }
    }
    lemma_no_whitespace(src);
}

/// The rows of a ragged nested source make no grid.
proof fn lemma_nested_not_grid(open: Grouping, close: Grouping, cells: Seq<Seq<Seq<char>>>)
    requires
        grid_brackets(open, close),
        ragged(cells),
    ensures
        matrix_spec(walked_nested(open, close, cells), 0, false) == (None::<ElementView>, 0int, false),
        vector_spec(walked_nested(open, close, cells), 0, false) == (None::<ElementView>, 0int, false),
{
    let ts = walked_nested(open, close, cells);
    let n = cells.len() as int;
    lemma_nested_ends(open, close, cells);
    lemma_nested_rows(open, close, cells, 0, Seq::empty());
    let rows = rows_elements(cells);
    assert(Seq::<Seq<ElementView>>::empty() + rows.subrange(0, n) =~= rows);
    let g = grid_of(rows);
    assert(!grid_ok(g)) by {
        let r = choose|r: int| 0 <= r < cells.len() && #[trigger] cells[r].len() != cells[0].len();
        lemma_split_row(cells[r]);
        lemma_split_row(cells[0]);
        assert(g[r].len() == cells[r].len());
        assert(g[0].len() == cells[0].len());
    }
}

proof fn lemma_nested_parsed(open: Grouping, close: Grouping, cells: Seq<Seq<Seq<char>>>)
    requires
        grid_brackets(open, close),
        ragged(cells),
    ensures
        parse_tokens_spec(nested_source(open, close, cells)) == seq![
            enclosed(open, nested_elements(open, cells)),
        ],
{
    let ts = walked_nested(open, close, cells);
    let n = cells.len() as int;
    let last = row_start(cells, n) - 1;
    lemma_nested_ends(open, close, cells);
    lemma_nested_walked(open, close, cells);
    lemma_nested_not_grid(open, close, cells);
    lemma_outer_loop(open, close, cells, 0, Seq::empty());
    let all = nested_elements(open, cells);
    assert(Seq::<ElementView>::empty() + all.subrange(0, 2 * n - 1) =~= all);
    let e = enclosed(open, all);
    assert(group_spec(ts, 0, false, open) == (Some(e), last, false));
    assert(grouping_spec(ts, 0, false, open) == (Some(e), last, false));
    assert(element_spec(ts, 0, false) == (Some(e), last, false));
    lemma_no_postfix(ts, e, last);
    assert(expression_loop(ts, last + 1, false, seq![e]) == (seq![e], last + 1));
    assert(expression_loop(ts, 0, false, Seq::empty()) == (seq![e], last + 1)) by {
        assert(Seq::<ElementView>::empty().push(e) == seq![e]);
    }
}

} // verus!
