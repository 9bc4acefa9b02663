//! The tokenizer: turns text into a flat sequence of tokens.
use crate::mappings::{
    accent_table, arrow_table, font_table, function_table, get_accent_mappings, get_arrow_mapping,
    get_font_mappings, get_function_mappings, get_greek_mappings, get_grouping_mappings,
    get_logical_mappings, get_misc_mappings, get_operation_mappings, get_relation_mapping,
    greek_table, grouping_table, logical_table, misc_table, operation_table, relation_table,
};
use crate::tokens::{
    token_views, Accent, Arrow, FontCommand, Function, Greek, Grouping, Logical, Misc, Operation,
    Relation, Text, Token, TokenView,
};
use vstd::prelude::*;
use vstd::string::*;

verus! {

/// Whether `c` has the Unicode White_Space property.
pub open spec fn is_white_space(c: char) -> bool {
    let u = c as u32;
    (0x9 <= u && u <= 0xd) || u == 0x20 || u == 0x85 || u == 0xa0 || u == 0x1680 || (0x2000 <= u
        && u <= 0x200a) || u == 0x2028 || u == 0x2029 || u == 0x202f || u == 0x205f || u == 0x3000
}

/// Whether `c` is in one of Unicode's general categories for numbers (Nd, Nl, No).
pub uninterp spec fn numeric_char(c: char) -> bool;

/// Whether `c` counts as a digit of a number: among the ASCII chars exactly
/// `0` to `9`, beyond them the chars of a number category.
pub open spec fn is_digit(c: char) -> bool {
    if (c as u32) < 128 {
        48 <= c as u32 <= 57
    } else {
        numeric_char(c)
    }
}

/// Whether `c` has the Unicode White_Space property, as `char::is_whitespace`
/// documents it.
fn char_is_whitespace(c: char) -> (r: bool)
    ensures
        r == is_white_space(c),
{
    let u = c as u32;
    (0x9 <= u && u <= 0xd) || u == 0x20 || u == 0x85 || u == 0xa0 || u == 0x1680 || (0x2000 <= u
        && u <= 0x200a) || u == 0x2028 || u == 0x2029 || u == 0x202f || u == 0x205f || u == 0x3000
}

/// Relies on `char::is_numeric`: whether the char's general category is a number
/// category (Nd, Nl, No); among the ASCII chars, these are the digits.
#[verifier::external_body]
fn char_is_numeric(c: char) -> (r: bool)
    ensures
        r == numeric_char(c),
        (c as u32) < 128 ==> (r <==> 48 <= c as u32 <= 57),
        r == is_digit(c),
{
    c.is_numeric()
}

/// `p` is non-empty and stands in `s` at position `i`.
pub open spec fn matches_at(s: Seq<char>, i: int, p: Seq<char>) -> bool {
    0 < p.len() && 0 <= i && i + p.len() <= s.len() && s.subrange(i, i + p.len()) == p
}

/// The index of the first entry of `t`, from index `k` on, whose spelling stands at `i`.
pub open spec fn first_match_from<T>(t: Seq<(&'static str, T)>, s: Seq<char>, i: int, k: int) -> Option<int>
    decreases t.len() - k,
{
    if k < 0 || k >= t.len() {
        None
    } else if matches_at(s, i, t[k].0@) {
        Some(k)
    } else {
        first_match_from(t, s, i, k + 1)
    }
}

/// The token of the first entry of `t` whose spelling stands at `i`, with the
/// position just after that spelling.
pub open spec fn table_hit<T>(t: Seq<(&'static str, T)>, s: Seq<char>, i: int) -> Option<(T, int)> {
    match first_match_from(t, s, i, 0) {
        Some(k) => Some((t[k].1, i + t[k].0@.len())),
        None => None,
    }
}

/// The first position at or after `j` that holds `c`, or the length of `s`.
pub open spec fn find_char_from(s: Seq<char>, c: char, j: int) -> int
    decreases s.len() - j,
{
    if j < 0 || j >= s.len() {
        s.len() as int
    } else if s[j] == c {
        j
    } else {
        find_char_from(s, c, j + 1)
    }
}

/// The text held between an opening mark at `i` and the next `close`, with the
/// position after the close; an unclosed text runs to the end.
pub open spec fn delimited_from(s: Seq<char>, i: int, close: char) -> (Seq<char>, int) {
    let k = find_char_from(s, close, i + 1);
    if k < s.len() {
        (s.subrange(i + 1, k), k + 1)
    } else {
        (s.subrange(i + 1, s.len() as int), s.len() as int)
    }
}

/// A `color` command at `i`: the color written in parentheses after it (empty
/// when no parenthesis follows), and the position after the command.
pub open spec fn color_at(s: Seq<char>, i: int) -> Option<(Seq<char>, int)> {
    if !matches_at(s, i, "color"@) {
        None
    } else {
        let j = i + "color"@.len();
        if j < s.len() && s[j] == '(' {
            Some(delimited_from(s, j, ')'))
        } else {
            Some((Seq::empty(), j))
        }
    }
}

/// The end of the run of whitespace that starts at `j`.
pub open spec fn whitespace_end(s: Seq<char>, j: int) -> int
    decreases s.len() - j,
{
    if 0 <= j < s.len() && is_white_space(s[j]) {
        whitespace_end(s, j + 1)
    } else {
        j
    }
}

/// The end of a number whose digits go on at `j`: digits, and a `.` or `e`
/// that has a digit right after it.
pub open spec fn number_end(s: Seq<char>, j: int) -> int
    decreases s.len() - j,
{
    if 0 <= j < s.len() && is_digit(s[j]) {
        number_end(s, j + 1)
    } else if 0 <= j && j + 1 < s.len() && (s[j] == '.' || s[j] == 'e') && is_digit(s[j + 1]) {
        number_end(s, j + 2)
    } else {
        j
    }
}

/// A backslash at the end of a line: a line break in the output.
pub open spec fn newline_mark() -> Seq<char> {
    seq!['\\', '\n']
}

/// The token that starts at position `i` of `s`, and the position after it.
/// The categories are tried in a fixed order; then a line break, a run of
/// whitespace, a quoted text and a number; anything else is a one-char symbol.
pub open spec fn lex_step(s: Seq<char>, i: int) -> (TokenView, int) {
    if let Some((g, e)) = table_hit(grouping_table(), s, i) {
        (TokenView::Grouping(g), e)
    } else if let Some((a, e)) = table_hit(arrow_table(), s, i) {
        (TokenView::Arrow(a), e)
    } else if let Some((r, e)) = table_hit(relation_table(), s, i) {
        (TokenView::Relation(r), e)
    } else if let Some((o, e)) = table_hit(operation_table(), s, i) {
        (TokenView::Operation(o), e)
    } else if let Some((m, e)) = table_hit(misc_table(), s, i) {
        (TokenView::Misc(m), e)
    } else if let Some((l, e)) = table_hit(logical_table(), s, i) {
        (TokenView::Logical(l), e)
    } else if let Some((a, e)) = table_hit(accent_table(), s, i) {
        (TokenView::Accent(a), e)
    } else if let Some((c, e)) = color_at(s, i) {
        (TokenView::Color(c), e)
    } else if let Some((g, e)) = table_hit(greek_table(), s, i) {
        (TokenView::Greek(g), e)
    } else if let Some((f, e)) = table_hit(font_table(), s, i) {
        (TokenView::Font(f), e)
    } else if let Some((f, e)) = table_hit(function_table(), s, i) {
        (TokenView::Function(f), e)
    } else if matches_at(s, i, newline_mark()) {
        (TokenView::NewLine, i + 2)
    } else if is_white_space(s[i]) {
        (TokenView::Whitespace, whitespace_end(s, i))
    } else if s[i] == '"' {
        let (t, e) = delimited_from(s, i, '"');
        (TokenView::Plain(t), e)
    } else if is_digit(s[i]) {
        let e = number_end(s, i + 1);
        (TokenView::Number(s.subrange(i, e)), e)
    } else {
        (TokenView::Symbol(seq![s[i]]), i + 1)
    }
}

/// The tokens of `s` from position `i` on.
pub open spec fn scan(s: Seq<char>, i: int) -> Seq<TokenView>
    decreases s.len() - i,
{
    if i < 0 || i >= s.len() {
        Seq::empty()
    } else {
        let (t, e) = lex_step(s, i);
        if e <= i || e > s.len() {
            Seq::empty()
        } else {
            seq![t] + scan(s, e)
        }
    }
}

/// The spans `(start, end)` of the tokens of `s` from position `i` on.
pub open spec fn scan_spans(s: Seq<char>, i: int) -> Seq<(int, int)>
    decreases s.len() - i,
{
    if i < 0 || i >= s.len() {
        Seq::empty()
    } else {
        let (t, e) = lex_step(s, i);
        if e <= i || e > s.len() {
            Seq::empty()
        } else {
            seq![(i, e)] + scan_spans(s, e)
        }
    }
}

/// The text that the tokenizer reads: the input with a line break after it.
pub open spec fn tape(text: Seq<char>) -> Seq<char> {
    text.push('\n')
}

/// Drops a whitespace token at the end.
pub open spec fn strip_trailing_whitespace(ts: Seq<TokenView>) -> Seq<TokenView> {
    if ts.len() > 0 && ts.last() is Whitespace {
        ts.drop_last()
    } else {
        ts
    }
}

/// The tokens of a text.
pub open spec fn tokenize_spec(text: Seq<char>) -> Seq<TokenView> {
    strip_trailing_whitespace(scan(tape(text), 0))
}

proof fn lemma_whitespace_end(s: Seq<char>, j: int)
    requires
        0 <= j <= s.len(),
    ensures
        j <= whitespace_end(s, j) <= s.len(),
    decreases s.len() - j,
{
    if 0 <= j < s.len() && is_white_space(s[j]) {
        lemma_whitespace_end(s, j + 1);
    }
}

proof fn lemma_number_end(s: Seq<char>, j: int)
    requires
        0 <= j <= s.len(),
    ensures
        j <= number_end(s, j) <= s.len(),
    decreases s.len() - j,
{
    if 0 <= j < s.len() && is_digit(s[j]) {
        lemma_number_end(s, j + 1);
    } else if 0 <= j && j + 1 < s.len() && (s[j] == '.' || s[j] == 'e') && is_digit(s[j + 1]) {
        lemma_number_end(s, j + 2);
    }
}

proof fn lemma_find_char_from(s: Seq<char>, c: char, j: int)
    requires
        0 <= j,
    ensures
        j <= find_char_from(s, c, j) <= s.len() || (j > s.len() && find_char_from(s, c, j)
            == s.len()),
        find_char_from(s, c, j) < s.len() ==> s[find_char_from(s, c, j)] == c,
        forall|k: int| j <= k < find_char_from(s, c, j) ==> s[k] != c,
    decreases s.len() - j,
{
    if j < s.len() && s[j] != c {
        lemma_find_char_from(s, c, j + 1);
    }
}

proof fn lemma_first_match_from<T>(t: Seq<(&'static str, T)>, s: Seq<char>, i: int, k: int)
    requires
        0 <= k,
    ensures
        first_match_from(t, s, i, k) matches Some(m) ==> k <= m < t.len() && matches_at(
            s,
            i,
            t[m].0@,
        ),
    decreases t.len() - k,
{
    if k < t.len() && !matches_at(s, i, t[k].0@) {
        lemma_first_match_from(t, s, i, k + 1);
    }
}

proof fn lemma_table_hit<T>(t: Seq<(&'static str, T)>, s: Seq<char>, i: int)
    ensures
        table_hit(t, s, i) matches Some((x, e)) ==> i < e <= s.len(),
{
    lemma_first_match_from(t, s, i, 0);
}

/// Each token ends after it starts, and within the text.
pub proof fn lemma_lex_step_advances(s: Seq<char>, i: int)
    requires
        0 <= i < s.len(),
    ensures
        i < lex_step(s, i).1 <= s.len(),
{
    lemma_table_hit(grouping_table(), s, i);
    lemma_table_hit(arrow_table(), s, i);
    lemma_table_hit(relation_table(), s, i);
    lemma_table_hit(operation_table(), s, i);
    lemma_table_hit(misc_table(), s, i);
    lemma_table_hit(logical_table(), s, i);
    lemma_table_hit(accent_table(), s, i);
    lemma_table_hit(greek_table(), s, i);
    lemma_table_hit(font_table(), s, i);
    lemma_table_hit(function_table(), s, i);
    lemma_whitespace_end(s, i + 1);
    lemma_number_end(s, i + 1);
    lemma_find_char_from(s, '"', i + 1);
    if matches_at(s, i, "color"@) {
        lemma_find_char_from(s, ')', i + "color"@.len() + 1);
    }
    if matches_at(s, i, newline_mark()) {
        assert(newline_mark().len() == 2);
    }
}

/// The pattern tables of every category, built once for a tokenizer.
pub struct PatternTables {
    pub grouping: Vec<(&'static str, Grouping)>,
    pub arrow: Vec<(&'static str, Arrow)>,
    pub relation: Vec<(&'static str, Relation)>,
    pub operation: Vec<(&'static str, Operation)>,
    pub misc: Vec<(&'static str, Misc)>,
    pub logical: Vec<(&'static str, Logical)>,
    pub accent: Vec<(&'static str, Accent)>,
    pub greek: Vec<(&'static str, Greek)>,
    pub font: Vec<(&'static str, FontCommand)>,
    pub function: Vec<(&'static str, Function)>,
}

impl PatternTables {
    pub open spec fn wf(&self) -> bool {
        &&& self.grouping@ == grouping_table()
        &&& self.arrow@ == arrow_table()
        &&& self.relation@ == relation_table()
        &&& self.operation@ == operation_table()
        &&& self.misc@ == misc_table()
        &&& self.logical@ == logical_table()
        &&& self.accent@ == accent_table()
        &&& self.greek@ == greek_table()
        &&& self.font@ == font_table()
        &&& self.function@ == function_table()
    }

    pub fn new() -> (r: Self)
        ensures
            r.wf(),
    {
        PatternTables {
            grouping: get_grouping_mappings(),
            arrow: get_arrow_mapping(),
            relation: get_relation_mapping(),
            operation: get_operation_mappings(),
            misc: get_misc_mappings(),
            logical: get_logical_mappings(),
            accent: get_accent_mappings(),
            greek: get_greek_mappings(),
            font: get_font_mappings(),
            function: get_function_mappings(),
        }
    }
}

/// Whether the spelling `p` stands in `s` at position `i`.
fn match_at(s: &Vec<char>, i: usize, p: &str) -> (r: bool)
    ensures
        r == matches_at(s@, i as int, p@),
{
    let n = p.unicode_len();
    if n == 0 || i > s.len() || n > s.len() - i {
        return false;
    }
    let mut j: usize = 0;
    while j < n
        invariant
            n == p@.len(),
            i + n <= s@.len(),
            s@.len() <= usize::MAX,
            j <= n,
            forall|k: int| 0 <= k < j ==> s@[i + k] == p@[k],
        decreases n - j,
    {
        if s[i + j] != p.get_char(j) {
            assert(s@.subrange(i as int, i + n)[j as int] != p@[j as int]);
            return false;
        }
        j += 1;
    }
    assert(s@.subrange(i as int, i + n) =~= p@);
    true
}

/// The index of the first entry of `t` whose spelling stands at `i`.
fn find_in_table<T>(t: &Vec<(&'static str, T)>, s: &Vec<char>, i: usize) -> (r: Option<usize>)
    ensures
        r matches Some(k) ==> first_match_from(t@, s@, i as int, 0) == Some(k as int) && k
            < t@.len() && matches_at(s@, i as int, t@[k as int].0@),
        r is None ==> first_match_from(t@, s@, i as int, 0) is None,
{
    let mut k: usize = 0;
    while k < t.len()
        invariant
            k <= t@.len(),
            first_match_from(t@, s@, i as int, 0) == first_match_from(t@, s@, i as int, k as int),
        decreases t@.len() - k,
    {
        if match_at(s, i, t[k].0) {
            proof {
                lemma_first_match_from(t@, s@, i as int, 0);
            }
            return Some(k);
        }
        k += 1;
    }
    None
}

/// The position of the first `c` at or after `j`, or the length of `s`.
fn find_char(s: &Vec<char>, c: char, j: usize) -> (r: usize)
    ensures
        r == find_char_from(s@, c, j as int),
{
    let mut k = j;
    if k > s.len() {
        return s.len();
    }
    while k < s.len()
        invariant
            j <= k <= s@.len(),
            find_char_from(s@, c, j as int) == find_char_from(s@, c, k as int),
        decreases s@.len() - k,
    {
        if s[k] == c {
            return k;
        }
        k += 1;
    }
    k
}

/// The end of a number whose digits go on at `j`.
fn number_end_from(s: &Vec<char>, j: usize) -> (r: usize)
    requires
        j <= s@.len(),
    ensures
        r == number_end(s@, j as int),
{
    let mut e = j;
    let n = s.len();
    loop
        invariant
            j <= e <= n,
            n == s@.len(),
            number_end(s@, j as int) == number_end(s@, e as int),
        decreases n - e,
    {
        if e < n && char_is_numeric(s[e]) {
            e += 1;
        } else if e < n && n - e > 1 && (s[e] == '.' || s[e] == 'e') && char_is_numeric(s[e + 1]) {
            e += 2;
        } else {
            return e;
        }
    }
}

/// A copy of an accent token.
pub(crate) fn copy_accent(a: &Accent) -> (r: Accent)
    ensures
        r == *a,
{
    match a {
        Accent::Hat => Accent::Hat,
        Accent::Overline => Accent::Overline,
        Accent::Underline => Accent::Underline,
        Accent::Vec => Accent::Vec,
        Accent::Dot => Accent::Dot,
        Accent::DDot => Accent::DDot,
        Accent::OverSet => Accent::OverSet,
        Accent::UnderSet => Accent::UnderSet,
        Accent::UnderBrace => Accent::UnderBrace,
        Accent::OverBrace => Accent::OverBrace,
        Accent::Color(c) => Accent::Color(c.clone()),
        Accent::Cancel => Accent::Cancel,
    }
}

/// Splits text into tokens.
pub struct Tokenizer {
    text: String,
    chars: Vec<char>,
    tables: PatternTables,
}

impl Tokenizer {
    /// The characters that the tokenizer reads: the text and a closing line break.
    pub closed spec fn tape(&self) -> Seq<char> {
        self.chars@
    }

    pub closed spec fn wf(&self) -> bool {
        &&& self.tables.wf()
        &&& self.text@ == self.chars@
    }

    pub fn new(text: String) -> (r: Self)
        ensures
            r.wf(),
            r.tape() == tape(text@),
    {
        proof {
            reveal_strlit("\n");
        }
        let text = text.concat("\n");
        let n = text.unicode_len();
        let mut chars: Vec<char> = Vec::new();
        let mut i: usize = 0;
        while i < n
            invariant
                n == text@.len(),
                i <= n,
                chars@ == text@.subrange(0, i as int),
            decreases n - i,
        {
            chars.push(text.get_char(i));
            i += 1;
            assert(chars@ =~= text@.subrange(0, i as int));
        }
        assert(chars@ =~= text@);
        Tokenizer { text, chars, tables: PatternTables::new() }
    }

    /// The characters of the tape from `a` to `b`, as a string.
    fn slice(&self, a: usize, b: usize) -> (r: String)
        requires
            self.wf(),
            a <= b <= self.tape().len(),
        ensures
            r@ == self.tape().subrange(a as int, b as int),
    {
        self.text.as_str().substring_char(a, b).to_owned()
    }

    /// The token that starts at `i`, and the position after it.
    fn lex_step(&self, i: usize) -> (r: (Token, usize))
        requires
            self.wf(),
            i < self.tape().len(),
        ensures
            (r.0@, r.1 as int) == lex_step(self.tape(), i as int),
    {
        let s = &self.chars;
        let n = s.len();
        proof {
            lemma_lex_step_advances(s@, i as int);
            lemma_table_hit(grouping_table(), s@, i as int);
            lemma_table_hit(arrow_table(), s@, i as int);
            lemma_table_hit(relation_table(), s@, i as int);
            lemma_table_hit(operation_table(), s@, i as int);
            lemma_table_hit(misc_table(), s@, i as int);
            lemma_table_hit(logical_table(), s@, i as int);
            lemma_table_hit(accent_table(), s@, i as int);
            lemma_table_hit(greek_table(), s@, i as int);
            lemma_table_hit(font_table(), s@, i as int);
            lemma_table_hit(function_table(), s@, i as int);
        }
        let t = &self.tables;
        if let Some(k) = find_in_table(&t.grouping, s, i) {
            return (Token::Grouping(t.grouping[k].1), i + t.grouping[k].0.unicode_len());
        }
        if let Some(k) = find_in_table(&t.arrow, s, i) {
            return (Token::Arrow(t.arrow[k].1), i + t.arrow[k].0.unicode_len());
        }
        if let Some(k) = find_in_table(&t.relation, s, i) {
            return (Token::Relation(t.relation[k].1), i + t.relation[k].0.unicode_len());
        }
        if let Some(k) = find_in_table(&t.operation, s, i) {
            return (Token::Operation(t.operation[k].1), i + t.operation[k].0.unicode_len());
        }
        if let Some(k) = find_in_table(&t.misc, s, i) {
            return (Token::Misc(t.misc[k].1), i + t.misc[k].0.unicode_len());
        }
        if let Some(k) = find_in_table(&t.logical, s, i) {
            return (Token::Logical(t.logical[k].1), i + t.logical[k].0.unicode_len());
        }
        if let Some(k) = find_in_table(&t.accent, s, i) {
            proof {
                assert(accent_table()[k as int].1 !is Color);
            }
            return (Token::Accent(copy_accent(&t.accent[k].1)), i + t.accent[k].0.unicode_len());
        }
        if match_at(s, i, "color") {
            let j = i + "color".unicode_len();
            if j < s.len() && s[j] == '(' {
                let k = find_char(s, ')', j + 1);
                proof {
                    lemma_find_char_from(s@, ')', j + 1);
                }
                if k < s.len() {
                    return (Token::Accent(Accent::Color(self.slice(j + 1, k))), k + 1);
                } else {
                    return (Token::Accent(Accent::Color(self.slice(j + 1, s.len()))), s.len());
                }
            } else {
                return (Token::Accent(Accent::Color(String::new())), j);
            }
        }
        if let Some(k) = find_in_table(&t.greek, s, i) {
            return (Token::Greek(t.greek[k].1), i + t.greek[k].0.unicode_len());
        }
        if let Some(k) = find_in_table(&t.font, s, i) {
            return (Token::Font(t.font[k].1), i + t.font[k].0.unicode_len());
        }
        if let Some(k) = find_in_table(&t.function, s, i) {
            return (Token::Function(t.function[k].1), i + t.function[k].0.unicode_len());
        }
        if i + 1 < s.len() && s[i] == '\\' && s[i + 1] == '\n' {
            proof {
                assert(s@.subrange(i as int, i + 2) =~= newline_mark());
            }
            return (Token::Text(Text::NewLine), i + 2);
        }
        proof {
            if matches_at(s@, i as int, newline_mark()) {
                assert(s@.subrange(i as int, i + 2)[0] == newline_mark()[0]);
                assert(s@.subrange(i as int, i + 2)[1] == newline_mark()[1]);
            }
        }
        if char_is_whitespace(s[i]) {
            let mut e = i + 1;
            proof {
                lemma_whitespace_end(s@, i + 1);
            }
            while e < s.len() && char_is_whitespace(s[e])
                invariant
                    i < e <= s@.len(),
                    whitespace_end(s@, i as int) == whitespace_end(s@, e as int),
                decreases s@.len() - e,
            {
                e += 1;
            }
            return (Token::Text(Text::Whitespace), e);
        }
        if s[i] == '"' {
            let k = find_char(s, '"', i + 1);
            proof {
                lemma_find_char_from(s@, '"', i + 1);
            }
            if k < s.len() {
                return (Token::Text(Text::Plain(self.slice(i + 1, k))), k + 1);
            } else {
                return (Token::Text(Text::Plain(self.slice(i + 1, s.len()))), s.len());
            }
        }
        if char_is_numeric(s[i]) {
            let e = number_end_from(s, i + 1);
            proof {
                lemma_number_end(s@, i + 1);
            }
            return (Token::Text(Text::Number(self.slice(i, e))), e);
        }
        assert(s@.subrange(i as int, i + 1) =~= seq![s@[i as int]]);
        (Token::Text(Text::Symbol(self.slice(i, i + 1))), i + 1)
    }

    /// The tokens of the text. A whitespace token at the end is dropped.
    pub fn parse(&mut self) -> (r: Vec<Token>)
        requires
            old(self).wf(),
        ensures
            *final(self) == *old(self),
            token_views(r@) == strip_trailing_whitespace(scan(old(self).tape(), 0)),
    {
        let mut tokens: Vec<Token> = Vec::new();
        let mut i: usize = 0;
        let n = self.chars.len();
        while i < n
            invariant
                self.wf(),
                n == self.tape().len(),
                i <= n,
                token_views(tokens@) + scan(self.tape(), i as int) == scan(self.tape(), 0),
            decreases n - i,
        {
            let (t, e) = self.lex_step(i);
            proof {
                lemma_lex_step_advances(self.tape(), i as int);
                assert(token_views(tokens@.push(t)) =~= token_views(tokens@).push(t@));
                assert(scan(self.tape(), i as int) == seq![t@] + scan(self.tape(), e as int));
                assert(token_views(tokens@.push(t)) + scan(self.tape(), e as int) =~= token_views(
                    tokens@,
                ) + scan(self.tape(), i as int));
            }
            tokens.push(t);
            i = e;
        }
        assert(token_views(tokens@) =~= scan(self.tape(), 0));
        if tokens.len() > 0 && matches!(tokens[tokens.len() - 1], Token::Text(Text::Whitespace)) {
            tokens.pop();
            assert(token_views(tokens@) =~= scan(self.tape(), 0).drop_last());
        }
        tokens
    }
}

proof fn lemma_scan_spans(s: Seq<char>, i: int)
    requires
        0 <= i <= s.len(),
    ensures
        scan_spans(s, i).len() == scan(s, i).len(),
        i < s.len() ==> scan_spans(s, i).len() > 0 && scan_spans(s, i)[0].0 == i
            && scan_spans(s, i).last().1 == s.len(),
        forall|k: int|
            0 <= k < scan_spans(s, i).len() ==> i <= (#[trigger] scan_spans(s, i)[k]).0 < scan_spans(
                s,
                i,
            )[k].1 <= s.len(),
        forall|k: int|
            0 <= k < scan_spans(s, i).len() - 1 ==> (#[trigger] scan_spans(s, i)[k]).1 == scan_spans(
                s,
                i,
            )[k + 1].0,
    decreases s.len() - i,
{
    if i < s.len() {
        lemma_lex_step_advances(s, i);
        let e = lex_step(s, i).1;
        lemma_scan_spans(s, e);
        let rest = scan_spans(s, e);
        let sp = scan_spans(s, i);
        assert(sp == seq![(i, e)] + rest);
        assert forall|k: int| 0 <= k < sp.len() - 1 implies (#[trigger] sp[k]).1 == sp[k + 1].0 by {
            if k == 0 {
                if e < s.len() {
                    assert(rest[0].0 == e);
                }
            } else {
                assert(sp[k] == rest[k - 1]);
                assert(sp[k + 1] == rest[k]);
            }
        }
        assert forall|k: int| 0 <= k < sp.len() implies i <= (#[trigger] sp[k]).0 < sp[k].1 <= s.len() by {
            if k > 0 {
                assert(sp[k] == rest[k - 1]);
            }
        }
        if e == s.len() {
            assert(rest.len() == 0);
        } else {
            assert(sp.last() == rest.last());
        }
    }
}

/// Every character of a text, and the line break read after it, belongs to
/// exactly one token: one span per token, the first starting at the start of
/// the text, each ending where the next starts, the last ending at the end.
pub proof fn lemma_tokens_cover_input(text: Seq<char>)
    ensures
        ({
            let s = tape(text);
            let sp = scan_spans(s, 0);
            &&& sp.len() == scan(s, 0).len()
            &&& sp.len() > 0
            &&& sp[0].0 == 0
            &&& sp.last().1 == s.len()
            &&& forall|k: int| 0 <= k < sp.len() ==> (#[trigger] sp[k]).0 < sp[k].1
            &&& forall|k: int| 0 <= k < sp.len() - 1 ==> (#[trigger] sp[k]).1 == sp[k + 1].0
        }),
{
    lemma_scan_spans(tape(text), 0);
}

/// No grouping spelling is a lone line break.
proof fn lemma_grouping_not_line_break()
    ensures
        forall|q: int| 0 <= q < grouping_table().len() ==> (#[trigger] grouping_table()[q]).0@ != seq!['\n'],
{
    reveal_strlit("(:");
    reveal_strlit("<<");
    reveal_strlit("langle");
    reveal_strlit(":)");
    reveal_strlit(">>");
    reveal_strlit("rangle");
    reveal_strlit("{:");
    reveal_strlit(":}");
    reveal_strlit("(");
    reveal_strlit(")");
    reveal_strlit("[");
    reveal_strlit("]");
    reveal_strlit("{");
    reveal_strlit("}");
    reveal_strlit("abs");
    reveal_strlit("floor");
    reveal_strlit("ceil");
    reveal_strlit("norm");
    reveal_strlit(",");
    assert forall|q: int| 0 <= q < grouping_table().len() implies (#[trigger] grouping_table()[q]).0@ != seq!['\n'] by {
        if grouping_table()[q].0@ == seq!['\n'] {
            assert(grouping_table()[q].0@[0] == '\n');
        }
    }
}

/// No arrow spelling is a lone line break.
proof fn lemma_arrow_not_line_break()
    ensures
        forall|q: int| 0 <= q < arrow_table().len() ==> (#[trigger] arrow_table()[q]).0@ != seq!['\n'],
{
    reveal_strlit("twoheadrightarrowtail");
    reveal_strlit(">->>");
    reveal_strlit("twoheadrightarrow");
    reveal_strlit("->>");
    reveal_strlit("rightarrowtail");
    reveal_strlit(">->");
    reveal_strlit("uarr");
    reveal_strlit("uparrow");
    reveal_strlit("darr");
    reveal_strlit("downarrow");
    reveal_strlit("rarr");
    reveal_strlit("rightarrow");
    reveal_strlit("->");
    reveal_strlit("to");
    reveal_strlit("|->");
    reveal_strlit("mapsto");
    reveal_strlit("larr");
    reveal_strlit("leftarrow");
    reveal_strlit("harr");
    reveal_strlit("leftrightarrow");
    reveal_strlit("rArr");
    reveal_strlit("Rightarrow");
    reveal_strlit("lArr");
    reveal_strlit("Leftarrow");
    reveal_strlit("hArr");
    reveal_strlit("Leftrightarrow");
    assert forall|q: int| 0 <= q < arrow_table().len() implies (#[trigger] arrow_table()[q]).0@ != seq!['\n'] by {
        if arrow_table()[q].0@ == seq!['\n'] {
            assert(arrow_table()[q].0@[0] == '\n');
        }
    }
}

/// No relation spelling is a lone line break.
proof fn lemma_relation_not_line_break()
    ensures
        forall|q: int| 0 <= q < relation_table().len() ==> (#[trigger] relation_table()[q]).0@ != seq!['\n'],
{
    reveal_strlit("subseteq");
    reveal_strlit("sube");
    reveal_strlit("supseteq");
    reveal_strlit("supe");
    reveal_strlit("<=");
    reveal_strlit("le");
    reveal_strlit(">=");
    reveal_strlit("ge");
    reveal_strlit(">-=");
    reveal_strlit("succeq");
    reveal_strlit("-<=");
    reveal_strlit("preceq");
    reveal_strlit(">-");
    reveal_strlit("succ");
    reveal_strlit("=");
    reveal_strlit("!=");
    reveal_strlit("ne");
    reveal_strlit("<");
    reveal_strlit("lt");
    reveal_strlit(">");
    reveal_strlit("gt");
    reveal_strlit("-<");
    reveal_strlit("prec");
    reveal_strlit("isin");
    reveal_strlit("!in");
    reveal_strlit("notin");
    reveal_strlit("subset");
    reveal_strlit("sub");
    reveal_strlit("supset");
    reveal_strlit("sup");
    reveal_strlit("-=");
    reveal_strlit("equiv");
    reveal_strlit("~=");
    reveal_strlit("cong");
    reveal_strlit("~~");
    reveal_strlit("approx");
    reveal_strlit("propto");
    reveal_strlit("prop");
    assert forall|q: int| 0 <= q < relation_table().len() implies (#[trigger] relation_table()[q]).0@ != seq!['\n'] by {
        if relation_table()[q].0@ == seq!['\n'] {
            assert(relation_table()[q].0@[0] == '\n');
        }
    }
}

/// No operation spelling is a lone line break.
proof fn lemma_operation_not_line_break()
    ensures
        forall|q: int| 0 <= q < operation_table().len() ==> (#[trigger] operation_table()[q]).0@ != seq!['\n'],
{
    reveal_strlit("***");
    reveal_strlit("star");
    reveal_strlit("**");
    reveal_strlit("ast");
    reveal_strlit("|><|");
    reveal_strlit("bowtie");
    reveal_strlit("-:");
    reveal_strlit("div");
    reveal_strlit("^^^");
    reveal_strlit("bigwedge");
    reveal_strlit("vvv");
    reveal_strlit("bigvee");
    reveal_strlit("nnn");
    reveal_strlit("bigcap");
    reveal_strlit("uuu");
    reveal_strlit("bigcup");
    reveal_strlit("|><");
    reveal_strlit("rtimes");
    reveal_strlit("+");
    reveal_strlit("-");
    reveal_strlit("*");
    reveal_strlit("cdot");
    reveal_strlit("//");
    reveal_strlit("\\\\");
    reveal_strlit("backslash");
    reveal_strlit("setminus");
    reveal_strlit("xx");
    reveal_strlit("times");
    reveal_strlit("@");
    reveal_strlit("circ");
    reveal_strlit("o+");
    reveal_strlit("oplus");
    reveal_strlit("ox");
    reveal_strlit("otimes");
    reveal_strlit("o.");
    reveal_strlit("odot");
    reveal_strlit("sum");
    reveal_strlit("prod");
    reveal_strlit("^^");
    reveal_strlit("wedge");
    reveal_strlit("vv");
    reveal_strlit("vee");
    reveal_strlit("nn");
    reveal_strlit("cap");
    reveal_strlit("uu");
    reveal_strlit("cup");
    assert forall|q: int| 0 <= q < operation_table().len() implies (#[trigger] operation_table()[q]).0@ != seq!['\n'] by {
        if operation_table()[q].0@ == seq!['\n'] {
            assert(operation_table()[q].0@[0] == '\n');
        }
    }
}

/// No misc spelling is a lone line break.
proof fn lemma_misc_not_line_break()
    ensures
        forall|q: int| 0 <= q < misc_table().len() ==> (#[trigger] misc_table()[q]).0@ != seq!['\n'],
{
    reveal_strlit("/_\\");
    reveal_strlit("triangle");
    reveal_strlit("/_");
    reveal_strlit("angle");
    reveal_strlit("|__");
    reveal_strlit("lfloor");
    reveal_strlit("__|");
    reveal_strlit("rfloor");
    reveal_strlit("|~");
    reveal_strlit("lceiling");
    reveal_strlit("~|");
    reveal_strlit("rceiling");
    reveal_strlit("/");
    reveal_strlit("frac");
    reveal_strlit("_");
    reveal_strlit("^");
    reveal_strlit("sqrt");
    reveal_strlit("root");
    reveal_strlit("int");
    reveal_strlit("oint");
    reveal_strlit("partial");
    reveal_strlit("grad");
    reveal_strlit("nabla");
    reveal_strlit("pm");
    reveal_strlit("O/");
    reveal_strlit("emptyset");
    reveal_strlit("oo");
    reveal_strlit("infty");
    reveal_strlit("aleph");
    reveal_strlit(":.");
    reveal_strlit("therefore");
    reveal_strlit(":'");
    reveal_strlit("because");
    reveal_strlit("|...|");
    reveal_strlit("|ldots|");
    reveal_strlit("|cdots|");
    reveal_strlit("vdots");
    reveal_strlit("ddots");
    reveal_strlit("|\\ |");
    reveal_strlit("|quad|");
    reveal_strlit("frown");
    reveal_strlit("diamond");
    reveal_strlit("square");
    reveal_strlit("CC");
    reveal_strlit("NN");
    reveal_strlit("QQ");
    reveal_strlit("RR");
    reveal_strlit("ZZ");
    reveal_strlit("text");
    assert forall|q: int| 0 <= q < misc_table().len() implies (#[trigger] misc_table()[q]).0@ != seq!['\n'] by {
        if misc_table()[q].0@ == seq!['\n'] {
            assert(misc_table()[q].0@[0] == '\n');
        }
    }
}

/// No logical spelling is a lone line break.
proof fn lemma_logical_not_line_break()
    ensures
        forall|q: int| 0 <= q < logical_table().len() ==> (#[trigger] logical_table()[q]).0@ != seq!['\n'],
{
    reveal_strlit("iff");
    reveal_strlit("and");
    reveal_strlit("or");
    reveal_strlit("not");
    reveal_strlit("implies");
    reveal_strlit("if");
    reveal_strlit("AA");
    reveal_strlit("forall");
    reveal_strlit("EE");
    reveal_strlit("exists");
    reveal_strlit("bot");
    reveal_strlit("TT");
    reveal_strlit("|--");
    reveal_strlit("vdash");
    reveal_strlit("|==");
    reveal_strlit("models");
    assert forall|q: int| 0 <= q < logical_table().len() implies (#[trigger] logical_table()[q]).0@ != seq!['\n'] by {
        if logical_table()[q].0@ == seq!['\n'] {
            assert(logical_table()[q].0@[0] == '\n');
        }
    }
}

/// No accent spelling is a lone line break.
proof fn lemma_accent_not_line_break()
    ensures
        forall|q: int| 0 <= q < accent_table().len() ==> (#[trigger] accent_table()[q]).0@ != seq!['\n'],
{
    reveal_strlit("hat");
    reveal_strlit("bar");
    reveal_strlit("overline");
    reveal_strlit("ul");
    reveal_strlit("underline");
    reveal_strlit("vec");
    reveal_strlit("ddot");
    reveal_strlit("dot");
    reveal_strlit("overset");
    reveal_strlit("underset");
    reveal_strlit("ubrace");
    reveal_strlit("underbrace");
    reveal_strlit("obrace");
    reveal_strlit("overbrace");
    reveal_strlit("cancel");
    assert forall|q: int| 0 <= q < accent_table().len() implies (#[trigger] accent_table()[q]).0@ != seq!['\n'] by {
        if accent_table()[q].0@ == seq!['\n'] {
            assert(accent_table()[q].0@[0] == '\n');
        }
    }
}

/// No greek spelling is a lone line break.
proof fn lemma_greek_not_line_break()
    ensures
        forall|q: int| 0 <= q < greek_table().len() ==> (#[trigger] greek_table()[q]).0@ != seq!['\n'],
{
    reveal_strlit("alpha");
    reveal_strlit("beta");
    reveal_strlit("gamma");
    reveal_strlit("Gamma");
    reveal_strlit("delta");
    reveal_strlit("Delta");
    reveal_strlit("epsilon");
    reveal_strlit("varepsilon");
    reveal_strlit("zeta");
    reveal_strlit("eta");
    reveal_strlit("theta");
    reveal_strlit("Theta");
    reveal_strlit("vartheta");
    reveal_strlit("iota");
    reveal_strlit("kappa");
    reveal_strlit("lambda");
    reveal_strlit("Lambda");
    reveal_strlit("mu");
    reveal_strlit("nu");
    reveal_strlit("xi");
    reveal_strlit("Xi");
    reveal_strlit("pi");
    reveal_strlit("Pi");
    reveal_strlit("rho");
    reveal_strlit("sigma");
    reveal_strlit("Sigma");
    reveal_strlit("tau");
    reveal_strlit("upsilon");
    reveal_strlit("phi");
    reveal_strlit("Phi");
    reveal_strlit("varphi");
    reveal_strlit("chi");
    reveal_strlit("psi");
    reveal_strlit("Psi");
    reveal_strlit("omega");
    reveal_strlit("Omega");
    assert forall|q: int| 0 <= q < greek_table().len() implies (#[trigger] greek_table()[q]).0@ != seq!['\n'] by {
        if greek_table()[q].0@ == seq!['\n'] {
            assert(greek_table()[q].0@[0] == '\n');
        }
    }
}

/// No font spelling is a lone line break.
proof fn lemma_font_not_line_break()
    ensures
        forall|q: int| 0 <= q < font_table().len() ==> (#[trigger] font_table()[q]).0@ != seq!['\n'],
{
    reveal_strlit("bbb");
    reveal_strlit("bb");
    reveal_strlit("cc");
    reveal_strlit("tt");
    reveal_strlit("fr");
    reveal_strlit("sf");
    assert forall|q: int| 0 <= q < font_table().len() implies (#[trigger] font_table()[q]).0@ != seq!['\n'] by {
        if font_table()[q].0@ == seq!['\n'] {
            assert(font_table()[q].0@[0] == '\n');
        }
    }
}

/// No function spelling is a lone line break.
proof fn lemma_function_not_line_break()
    ensures
        forall|q: int| 0 <= q < function_table().len() ==> (#[trigger] function_table()[q]).0@ != seq!['\n'],
{
    reveal_strlit("sinh");
    reveal_strlit("cosh");
    reveal_strlit("tanh");
    reveal_strlit("sech");
    reveal_strlit("csch");
    reveal_strlit("coth");
    reveal_strlit("arcsin");
    reveal_strlit("arccos");
    reveal_strlit("arctan");
    reveal_strlit("sin");
    reveal_strlit("cos");
    reveal_strlit("tan");
    reveal_strlit("sec");
    reveal_strlit("csc");
    reveal_strlit("cot");
    reveal_strlit("exp");
    reveal_strlit("log");
    reveal_strlit("ln");
    reveal_strlit("det");
    reveal_strlit("dim");
    reveal_strlit("mod");
    reveal_strlit("gcd");
    reveal_strlit("lcm");
    reveal_strlit("lub");
    reveal_strlit("glb");
    reveal_strlit("min");
    reveal_strlit("max");
    reveal_strlit("f");
    reveal_strlit("g");
    assert forall|q: int| 0 <= q < function_table().len() implies (#[trigger] function_table()[q]).0@ != seq!['\n'] by {
        if function_table()[q].0@ == seq!['\n'] {
            assert(function_table()[q].0@[0] == '\n');
        }
    }
}

/// No spelling of `t` is a lone line break.
proof fn lemma_no_hit_on_line_break<T>(t: Seq<(&'static str, T)>, k: int)
    requires
        0 <= k,
        forall|q: int| 0 <= q < t.len() ==> (#[trigger] t[q]).0@ != seq!['\n'],
    ensures
        first_match_from(t, seq!['\n'], 0, k) is None,
    decreases t.len() - k,
{
    if k < t.len() {
        if matches_at(seq!['\n'], 0, t[k].0@) {
            assert(t[k].0@ =~= seq!['\n']);
        }
        lemma_no_hit_on_line_break(t, k + 1);
    }
}

/// An empty text has no tokens: the line break read after it is a trailing
/// whitespace token, which is dropped.
pub proof fn lemma_empty_text_has_no_tokens()
    ensures
        tokenize_spec(Seq::empty()) == Seq::<TokenView>::empty(),
{
    let s = tape(Seq::empty());
    assert(s =~= seq!['\n']);
    lemma_grouping_not_line_break();
    lemma_no_hit_on_line_break(grouping_table(), 0);
    lemma_arrow_not_line_break();
    lemma_no_hit_on_line_break(arrow_table(), 0);
    lemma_relation_not_line_break();
    lemma_no_hit_on_line_break(relation_table(), 0);
    lemma_operation_not_line_break();
    lemma_no_hit_on_line_break(operation_table(), 0);
    lemma_misc_not_line_break();
    lemma_no_hit_on_line_break(misc_table(), 0);
    lemma_logical_not_line_break();
    lemma_no_hit_on_line_break(logical_table(), 0);
    lemma_accent_not_line_break();
    lemma_no_hit_on_line_break(accent_table(), 0);
    lemma_greek_not_line_break();
    lemma_no_hit_on_line_break(greek_table(), 0);
    lemma_font_not_line_break();
    lemma_no_hit_on_line_break(font_table(), 0);
    lemma_function_not_line_break();
    lemma_no_hit_on_line_break(function_table(), 0);
    reveal_strlit("color");
    assert(!matches_at(s, 0, "color"@));
    assert(!matches_at(s, 0, newline_mark()));
    assert(whitespace_end(s, 1) == 1);
    assert(lex_step(s, 0) == (TokenView::Whitespace, 1int));
    assert(scan(s, 1) == Seq::<TokenView>::empty());
    assert(scan(s, 0) =~= seq![TokenView::Whitespace]);
}

/// Splits `text` into tokens.
pub fn tokenize(text: String) -> (r: Vec<Token>)
    ensures
        token_views(r@) == tokenize_spec(text@),
{
    let mut tokenizer = Tokenizer::new(text);
    tokenizer.parse()
}

} // verus!
