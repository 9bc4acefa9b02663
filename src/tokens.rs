//! Token categories produced by the tokenizer and read by the tree parser.
use vstd::prelude::*;

verus! {

/// One lexical unit of the input.
#[derive(Debug, Clone, PartialEq)]
pub enum Token {
    Operation(Operation),
    Misc(Misc),
    Relation(Relation),
    Logical(Logical),
    Grouping(Grouping),
    Arrow(Arrow),
    Accent(Accent),
    Greek(Greek),
    Font(FontCommand),
    Function(Function),
    Text(Text),
    End,
}

#[derive(Debug, Clone, PartialEq)]
pub enum Text {
    Number(String),
    Symbol(String),
    Plain(String),
    Whitespace,
    NewLine,
}

#[derive(Debug, Clone, Copy, PartialEq, Eq, Structural)]
pub enum Operation {
    Plus,
    Minus,
    CDot,
    Ast,
    Star,
    Slash,
    Backslash,
    Times,
    Div,
    LTimes,
    RTimes,
    Bowtie,
    Circ,
    OPlus,
    OTimes,
    ODot,
    Sum,
    Prod,
    Wedge,
    BidWedge,
    Vee,
    BigVee,
    Cap,
    BigCap,
    Cup,
    BigCup,
}

#[derive(Debug, Clone, Copy, PartialEq, Eq, Structural)]
pub enum Misc {
    AsciiFrac,
    LatexFrac,
    Sub,
    Pow,
    Sqrt,
    Root,
    Int,
    OInt,
    Del,
    Grad,
    PlusMinus,
    EmptySet,
    Infty,
    Aleph,
    Therefore,
    Because,
    PLDots,
    PCDots,
    VDots,
    DDots,
    EPipes,
    EQuad,
    Angle,
    Frown,
    Triangle,
    Diamond,
    Square,
    LFloor,
    RFloor,
    LCeiling,
    RCeiling,
    Complex,
    Natural,
    Rational,
    Real,
    Integer,
    LatexText,
}

#[derive(Debug, Clone, Copy, PartialEq, Eq, Structural)]
pub enum Relation {
    Eq,
    Ne,
    Lt,
    Gt,
    Le,
    Ge,
    Prec,
    PrecEq,
    Succ,
    SuccEq,
    In,
    NotIn,
    SubSet,
    SupSet,
    SubSetEq,
    SupSetEq,
    Equiv,
    Cong,
    Approx,
    PropTo,
}

#[derive(Debug, Clone, Copy, PartialEq, Eq, Structural)]
pub enum Logical {
    And,
    Or,
    Not,
    Implies,
    If,
    Iff,
    ForAll,
    Exists,
    Bot,
    Top,
    VDash,
    Models,
}

/// Bracket tokens. An `R` variant opens a group and an `L` variant closes one.
#[derive(Debug, Clone, Copy, PartialEq, Eq, Structural)]
pub enum Grouping {
    RParen,
    LParen,
    RBracket,
    LBracket,
    RBrace,
    LBrace,
    LAngle,
    RAngle,
    LXPar,
    RXPar,
    Abs,
    Floor,
    Ceil,
    Norm,
    MSep,
}

#[derive(Debug, Clone, Copy, PartialEq, Eq, Structural)]
pub enum Arrow {
    UpArrow,
    DownArrow,
    RightArrow,
    To,
    RightArrowTail,
    TwoHeadRightArrow,
    TwoHeadRightArrowTail,
    MapsTo,
    LeftArrow,
    LeftRightArrow,
    BigRightArrow,
    BigLeftArrow,
    BigLeftRightArrow,
}

#[derive(Debug, Clone, PartialEq)]
pub enum Accent {
    Hat,
    Overline,
    Underline,
    Vec,
    Dot,
    DDot,
    OverSet,
    UnderSet,
    UnderBrace,
    OverBrace,
    Color(String),
    Cancel,
}

#[derive(Debug, Clone, Copy, PartialEq, Eq, Structural)]
pub enum Greek {
    Alpha,
    Beta,
    Gamma,
    BigGamma,
    Delta,
    BigDelta,
    Epsilon,
    VarEpsilon,
    Zeta,
    Eta,
    Theta,
    BigTheta,
    VarTheta,
    Iota,
    Kappa,
    Lambda,
    BigLambda,
    Mu,
    Nu,
    Xi,
    BigXi,
    Pi,
    BigPi,
    Rho,
    Sigma,
    BigSigma,
    Tau,
    Upsilon,
    Phi,
    BigPhi,
    VarPhi,
    Chi,
    Psi,
    BigPsi,
    Omega,
    BigOmega,
}

#[derive(Debug, Clone, Copy, PartialEq, Eq, Structural)]
pub enum Function {
    Sin,
    Cos,
    Tan,
    Sec,
    Csc,
    Cot,
    ArcSin,
    ArcCos,
    ArcTan,
    Sinh,
    Cosh,
    Tanh,
    Sech,
    Csch,
    Coth,
    Exp,
    Log,
    Ln,
    Det,
    Dim,
    Mod,
    Gcd,
    Lcm,
    Lub,
    Glb,
    Min,
    Max,
    F,
    G,
}

#[derive(Debug, Clone, Copy, PartialEq, Eq, Structural)]
pub enum FontCommand {
    Big,
    BigOutline,
    Cursive,
    TText,
    Fr,
    SansSerif,
}

/// The textual command that selects a font.
pub open spec fn font_name(f: FontCommand) -> Seq<char> {
    match f {
        FontCommand::BigOutline => "bbb"@,
        FontCommand::Big => "bb"@,
        FontCommand::SansSerif => "sf"@,
        FontCommand::Fr => "fr"@,
        FontCommand::TText => "tt"@,
        FontCommand::Cursive => "cc"@,
    }
}

impl FontCommand {
    /// The command as it is written in the source text.
    pub fn to_string(&self) -> (r: String)
        ensures
            r@ == font_name(*self),
    {
        broadcast use vstd::string::group_string_axioms;

        match self {
            FontCommand::BigOutline => "bbb".to_string(),
            FontCommand::Big => "bb".to_string(),
            FontCommand::SansSerif => "sf".to_string(),
            FontCommand::Fr => "fr".to_string(),
            FontCommand::TText => "tt".to_string(),
            FontCommand::Cursive => "cc".to_string(),
        }
    }
}

/// A token with its strings seen as character sequences.
pub enum TokenView {
    Operation(Operation),
    Misc(Misc),
    Relation(Relation),
    Logical(Logical),
    Grouping(Grouping),
    Arrow(Arrow),
    /// An accent other than a color.
    Accent(Accent),
    Color(Seq<char>),
    Greek(Greek),
    Font(FontCommand),
    Function(Function),
    Number(Seq<char>),
    Symbol(Seq<char>),
    Plain(Seq<char>),
    Whitespace,
    NewLine,
    End,
}

impl View for Token {
    type V = TokenView;

    open spec fn view(&self) -> TokenView {
        match *self {
            Token::Operation(o) => TokenView::Operation(o),
            Token::Misc(m) => TokenView::Misc(m),
            Token::Relation(r) => TokenView::Relation(r),
            Token::Logical(l) => TokenView::Logical(l),
            Token::Grouping(g) => TokenView::Grouping(g),
            Token::Arrow(a) => TokenView::Arrow(a),
            Token::Accent(a) => match a {
                Accent::Color(c) => TokenView::Color(c@),
                _ => TokenView::Accent(a),
            },
            Token::Greek(g) => TokenView::Greek(g),
            Token::Font(f) => TokenView::Font(f),
            Token::Function(f) => TokenView::Function(f),
            Token::Text(t) => match t {
                Text::Number(s) => TokenView::Number(s@),
                Text::Symbol(s) => TokenView::Symbol(s@),
                Text::Plain(s) => TokenView::Plain(s@),
                Text::Whitespace => TokenView::Whitespace,
                Text::NewLine => TokenView::NewLine,
            },
            Token::End => TokenView::End,
        }
    }
}

/// The views of a sequence of tokens.
pub open spec fn token_views(ts: Seq<Token>) -> Seq<TokenView> {
    ts.map_values(|t: Token| t@)
}

} // verus!
