//! The expression tree built by the parser.
use crate::tokens::{
    Accent, Arrow, FontCommand, Function, Greek, Logical, Misc, Operation, Relation,
};
use vstd::prelude::*;

verus! {

/// An ordered sequence of elements, in reading order.
#[derive(Debug, PartialEq)]
pub struct Expression {
    pub children: Vec<Element>,
}

#[derive(Debug, PartialEq)]
pub enum Element {
    Literal(Literal),
    Special(Special),
    Group(Group),
    Accent(ExpressionAccent),
    Null,
}

#[derive(Debug, PartialEq)]
pub enum Literal {
    Text(PlainText),
    Symbol(Symbol),
    Number(Number),
    Greek(Greek),
    FontCommand(FontCommand),
    Relation(Relation),
    Function(Function),
    Logical(Logical),
    Arrow(Arrow),
    Misc(Misc),
    Operation(Operation),
    NewLine,
}

#[derive(Debug, PartialEq)]
pub struct PlainText {
    pub text: String,
    pub formatting: Option<FontCommand>,
}

#[derive(Debug, PartialEq)]
pub struct Symbol {
    pub symbol: String,
}

#[derive(Debug, PartialEq)]
pub struct Number {
    pub number: String,
}

#[derive(Debug, PartialEq)]
pub enum Special {
    Sum(Sum),
    Prod(Prod),
    Frac(Frac),
    Pow(Pow),
    Sub(Sub),
    Sqrt(Sqrt),
    Root(Root),
    Integral(Integral),
    OIntegral(OIntegral),
}

#[derive(Debug, PartialEq)]
pub struct Sum {
    pub top: Option<Box<Element>>,
    pub bottom: Option<Box<Element>>,
}

#[derive(Debug, PartialEq)]
pub struct Prod {
    pub top: Option<Box<Element>>,
    pub bottom: Option<Box<Element>>,
}

#[derive(Debug, PartialEq)]
pub struct Frac {
    pub top: Box<Element>,
    pub bottom: Box<Element>,
}

#[derive(Debug, PartialEq)]
pub struct Pow {
    pub base: Box<Element>,
    pub exp: Box<Element>,
}

#[derive(Debug, PartialEq)]
pub struct Sub {
    pub base: Box<Element>,
    pub lower: Box<Element>,
}

#[derive(Debug, PartialEq)]
pub struct Sqrt {
    pub inner: Box<Element>,
}

#[derive(Debug, PartialEq)]
pub struct Root {
    pub base: Box<Element>,
    pub inner: Box<Element>,
}

#[derive(Debug, PartialEq)]
pub struct Integral {
    pub top: Option<Box<Element>>,
    pub bottom: Option<Box<Element>>,
}

#[derive(Debug, PartialEq)]
pub struct OIntegral {
    pub top: Option<Box<Element>>,
    pub bottom: Option<Box<Element>>,
}

#[derive(Debug, PartialEq)]
pub enum Group {
    MSep,
    Parentheses(Parentheses),
    Brackets(Brackets),
    Braces(Braces),
    Angles(Angles),
    XGroup(XGroup),
    Abs(Abs),
    Floor(Floor),
    Ceil(Ceil),
    Norm(Norm),
    Matrix(Matrix),
    Vector(Vector),
    NonEnclosed(NonEnclosed),
}

#[derive(Debug, PartialEq)]
pub struct Parentheses {
    pub inner: Box<Expression>,
}

#[derive(Debug, PartialEq)]
pub struct Brackets {
    pub inner: Box<Expression>,
}

#[derive(Debug, PartialEq)]
pub struct Braces {
    pub inner: Box<Expression>,
}

#[derive(Debug, PartialEq)]
pub struct Angles {
    pub inner: Box<Expression>,
}

#[derive(Debug, PartialEq)]
pub struct XGroup {
    pub inner: Box<Expression>,
}

#[derive(Debug, PartialEq)]
pub struct Abs {
    pub inner: Box<Expression>,
}

#[derive(Debug, PartialEq)]
pub struct Floor {
    pub inner: Box<Expression>,
}

#[derive(Debug, PartialEq)]
pub struct Ceil {
    pub inner: Box<Expression>,
}

#[derive(Debug, PartialEq)]
pub struct Norm {
    pub inner: Box<Expression>,
}

/// A bracketed grid of cells, row by row.
#[derive(Debug, PartialEq)]
pub struct Matrix {
    pub inner: Vec<Vec<Expression>>,
}

/// A parenthesized grid of cells, row by row.
#[derive(Debug, PartialEq)]
pub struct Vector {
    pub inner: Vec<Vec<Expression>>,
}

/// A group whose delimiters are not drawn.
#[derive(Debug, PartialEq)]
pub struct NonEnclosed {
    pub inner: Box<Expression>,
}

#[derive(Debug, PartialEq)]
pub enum ExpressionAccent {
    Generic(GenericAccent),
    OverSet(OverSet),
    UnderSet(UnderSet),
    Color(Color),
}

#[derive(Debug, PartialEq)]
pub struct GenericAccent {
    pub inner: Box<Element>,
    pub accent: Accent,
}

#[derive(Debug, PartialEq)]
pub struct OverSet {
    pub top: Box<Element>,
    pub bottom: Box<Element>,
}

#[derive(Debug, PartialEq)]
pub struct UnderSet {
    pub top: Box<Element>,
    pub bottom: Box<Element>,
}

#[derive(Debug, PartialEq)]
pub struct Color {
    pub color: String,
    pub inner: Box<Element>,
}

/// A literal with its strings seen as character sequences.
pub enum LiteralView {
    Text(Seq<char>, Option<FontCommand>),
    Symbol(Seq<char>),
    Number(Seq<char>),
    Greek(Greek),
    FontCommand(FontCommand),
    Relation(Relation),
    Function(Function),
    Logical(Logical),
    Arrow(Arrow),
    Misc(Misc),
    Operation(Operation),
    NewLine,
}

/// An element as a mathematical tree: children as sequences, strings as
/// character sequences. Limits are given top first, then bottom.
pub enum ElementView {
    Literal(LiteralView),
    Sum(Option<Box<ElementView>>, Option<Box<ElementView>>),
    Prod(Option<Box<ElementView>>, Option<Box<ElementView>>),
    /// Numerator, denominator.
    Frac(Box<ElementView>, Box<ElementView>),
    /// Base, exponent.
    Pow(Box<ElementView>, Box<ElementView>),
    /// Base, lower index.
    Sub(Box<ElementView>, Box<ElementView>),
    Sqrt(Box<ElementView>),
    /// Base, radicand.
    Root(Box<ElementView>, Box<ElementView>),
    Integral(Option<Box<ElementView>>, Option<Box<ElementView>>),
    OIntegral(Option<Box<ElementView>>, Option<Box<ElementView>>),
    MSep,
    Parentheses(Seq<ElementView>),
    Brackets(Seq<ElementView>),
    Braces(Seq<ElementView>),
    Angles(Seq<ElementView>),
    XGroup(Seq<ElementView>),
    Abs(Seq<ElementView>),
    Floor(Seq<ElementView>),
    Ceil(Seq<ElementView>),
    Norm(Seq<ElementView>),
    /// Rows of cells; each cell is a sequence of elements.
    Matrix(Seq<Seq<Seq<ElementView>>>),
    Vector(Seq<Seq<Seq<ElementView>>>),
    NonEnclosed(Seq<ElementView>),
    /// Operand, accent.
    Accent(Box<ElementView>, Accent),
    /// Top, bottom.
    OverSet(Box<ElementView>, Box<ElementView>),
    /// Top, bottom.
    UnderSet(Box<ElementView>, Box<ElementView>),
    Color(Seq<char>, Box<ElementView>),
    Null,
}

pub open spec fn literal_view(l: Literal) -> LiteralView {
    match l {
        Literal::Text(t) => LiteralView::Text(t.text@, t.formatting),
        Literal::Symbol(s) => LiteralView::Symbol(s.symbol@),
        Literal::Number(n) => LiteralView::Number(n.number@),
        Literal::Greek(g) => LiteralView::Greek(g),
        Literal::FontCommand(f) => LiteralView::FontCommand(f),
        Literal::Relation(r) => LiteralView::Relation(r),
        Literal::Function(f) => LiteralView::Function(f),
        Literal::Logical(l) => LiteralView::Logical(l),
        Literal::Arrow(a) => LiteralView::Arrow(a),
        Literal::Misc(m) => LiteralView::Misc(m),
        Literal::Operation(o) => LiteralView::Operation(o),
        Literal::NewLine => LiteralView::NewLine,
    }
}

/// The elements of an expression, as trees.
pub open spec fn expression_view(x: Expression) -> Seq<ElementView>
    decreases x,
{
    Seq::new(
        x.children@.len(),
        |i: int|
            if 0 <= i < x.children@.len() {
                element_view(x.children@[i])
            } else {
                ElementView::Null
            },
    )
}

/// The cells of a grid, as trees.
pub open spec fn grid_view(m: Vec<Vec<Expression>>) -> Seq<Seq<Seq<ElementView>>>
    decreases m,
{
    Seq::new(
        m@.len(),
        |r: int|
            if 0 <= r < m@.len() {
                Seq::new(
                    m@[r]@.len(),
                    |c: int|
                        if 0 <= c < m@[r]@.len() {
                            expression_view(m@[r]@[c])
                        } else {
                            Seq::empty()
                        },
                )
            } else {
                Seq::empty()
            },
    )
}

pub open spec fn option_view(o: Option<Box<Element>>) -> Option<Box<ElementView>>
    decreases o,
{
    match o {
        Some(b) => Some(Box::new(element_view(*b))),
        None => None,
    }
}

/// An element as a tree.
pub open spec fn element_view(e: Element) -> ElementView
    decreases e,
{
    match e {
        Element::Literal(l) => ElementView::Literal(literal_view(l)),
        Element::Special(s) => match s {
            Special::Sum(x) => ElementView::Sum(option_view(x.top), option_view(x.bottom)),
            Special::Prod(x) => ElementView::Prod(option_view(x.top), option_view(x.bottom)),
            Special::Frac(x) => ElementView::Frac(
                Box::new(element_view(*x.top)),
                Box::new(element_view(*x.bottom)),
            ),
            Special::Pow(x) => ElementView::Pow(
                Box::new(element_view(*x.base)),
                Box::new(element_view(*x.exp)),
            ),
            Special::Sub(x) => ElementView::Sub(
                Box::new(element_view(*x.base)),
                Box::new(element_view(*x.lower)),
            ),
            Special::Sqrt(x) => ElementView::Sqrt(Box::new(element_view(*x.inner))),
            Special::Root(x) => ElementView::Root(
                Box::new(element_view(*x.base)),
                Box::new(element_view(*x.inner)),
            ),
            Special::Integral(x) => ElementView::Integral(option_view(x.top), option_view(x.bottom)),
            Special::OIntegral(x) => ElementView::OIntegral(
                option_view(x.top),
                option_view(x.bottom),
            ),
        },
        Element::Group(g) => match g {
            Group::MSep => ElementView::MSep,
            Group::Parentheses(x) => ElementView::Parentheses(expression_view(*x.inner)),
            Group::Brackets(x) => ElementView::Brackets(expression_view(*x.inner)),
            Group::Braces(x) => ElementView::Braces(expression_view(*x.inner)),
            Group::Angles(x) => ElementView::Angles(expression_view(*x.inner)),
            Group::XGroup(x) => ElementView::XGroup(expression_view(*x.inner)),
            Group::Abs(x) => ElementView::Abs(expression_view(*x.inner)),
            Group::Floor(x) => ElementView::Floor(expression_view(*x.inner)),
            Group::Ceil(x) => ElementView::Ceil(expression_view(*x.inner)),
            Group::Norm(x) => ElementView::Norm(expression_view(*x.inner)),
            Group::Matrix(x) => ElementView::Matrix(grid_view(x.inner)),
            Group::Vector(x) => ElementView::Vector(grid_view(x.inner)),
            Group::NonEnclosed(x) => ElementView::NonEnclosed(expression_view(*x.inner)),
        },
        Element::Accent(a) => match a {
            ExpressionAccent::Generic(x) => ElementView::Accent(
                Box::new(element_view(*x.inner)),
                x.accent,
            ),
            ExpressionAccent::OverSet(x) => ElementView::OverSet(
                Box::new(element_view(*x.top)),
                Box::new(element_view(*x.bottom)),
            ),
            ExpressionAccent::UnderSet(x) => ElementView::UnderSet(
                Box::new(element_view(*x.top)),
                Box::new(element_view(*x.bottom)),
            ),
            ExpressionAccent::Color(x) => ElementView::Color(
                x.color@,
                Box::new(element_view(*x.inner)),
            ),
        },
        Element::Null => ElementView::Null,
    }
}

/// The trees of a sequence of elements.
pub open spec fn views_of(s: Seq<Element>) -> Seq<ElementView> {
    s.map_values(|e: Element| element_view(e))
}

/// A parenthesized, bracketed or braced group, as a tree, loses its delimiters.
pub open spec fn non_enclosed_view(v: ElementView) -> ElementView {
    match v {
        ElementView::Parentheses(x) => ElementView::NonEnclosed(x),
        ElementView::Brackets(x) => ElementView::NonEnclosed(x),
        ElementView::Braces(x) => ElementView::NonEnclosed(x),
        _ => v,
    }
}

/// The view of an expression is the views of its children.
pub proof fn lemma_expression_view(x: Expression)
    ensures
        expression_view(x) == views_of(x.children@),
{
    assert(expression_view(x) =~= views_of(x.children@));
}

/// A parenthesized, bracketed or braced group loses its delimiters; every
/// other group is kept as it is.
pub open spec fn group_non_enclosed(g: Group) -> Group {
    match g {
        Group::Parentheses(p) => Group::NonEnclosed(NonEnclosed { inner: p.inner }),
        Group::Braces(b) => Group::NonEnclosed(NonEnclosed { inner: b.inner }),
        Group::Brackets(b) => Group::NonEnclosed(NonEnclosed { inner: b.inner }),
        _ => g,
    }
}

/// The operand of a postfix modifier or an accent, with one layer of
/// redundant delimiters removed.
pub open spec fn non_enclosed(e: Element) -> Element {
    match e {
        Element::Group(g) => Element::Group(group_non_enclosed(g)),
        _ => e,
    }
}

impl Group {
    /// The group without its delimiters, where it is a parenthesized,
    /// bracketed or braced group; otherwise the group itself.
    pub(crate) fn to_non_enclosed(self) -> (r: Group)
        ensures
            r == group_non_enclosed(self),
    {
        match self {
            Group::Parentheses(p) => Group::NonEnclosed(NonEnclosed { inner: p.inner }),
            Group::Braces(b) => Group::NonEnclosed(NonEnclosed { inner: b.inner }),
            Group::Brackets(b) => Group::NonEnclosed(NonEnclosed { inner: b.inner }),
            _ => self,
        }
    }
}

impl Element {
    /// The element with one layer of redundant delimiters removed.
    pub fn to_non_enclosed(self) -> (r: Element)
        ensures
            r == non_enclosed(self),
            element_view(r) == non_enclosed_view(element_view(self)),
    {
        match self {
            Element::Group(g) => Element::Group(g.to_non_enclosed()),
            _ => self,
        }
    }
}

impl Expression {
    /// An expression without children.
    pub fn new() -> (r: Expression)
        ensures
            r.children@ == Seq::<Element>::empty(),
    {
        Expression { children: Vec::new() }
    }

    /// Appends `child` after the existing children.
    pub fn add_child(&mut self, child: Element)
        ensures
            final(self).children@ == old(self).children@.push(child),
            expression_view(*final(self)) == expression_view(*old(self)).push(element_view(child)),
    {
        self.children.push(child);
        assert(expression_view(*self) =~= expression_view(*old(self)).push(element_view(child)));
    }
}

/// Moves a value into a box.
pub trait Boxed: Sized {
    fn boxed(self) -> (r: Box<Self>)
        ensures
            *r == self,
    ;
}

impl Boxed for Element {
    fn boxed(self) -> (r: Box<Self>) {
        Box::new(self)
    }
}

impl Boxed for Expression {
    fn boxed(self) -> (r: Box<Self>) {
        Box::new(self)
    }
}

/// Removing delimiters a second time changes nothing.
pub proof fn lemma_non_enclosed_idempotent(e: Element)
    ensures
        non_enclosed(non_enclosed(e)) == non_enclosed(e),
        non_enclosed_view(non_enclosed_view(element_view(e))) == non_enclosed_view(
            element_view(e),
        ),
{
}

} // verus!
