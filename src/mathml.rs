//! Rendering of an expression tree as presentation MathML.
use crate::elements::{
    Abs, Angles, Braces, Brackets, Ceil, Color, Element, Expression, ExpressionAccent, Floor, Frac,
    GenericAccent, Group, Integral, Literal, Matrix, NonEnclosed, Norm, Number, OIntegral, OverSet,
    Parentheses, PlainText, Pow, Prod, Root, Special, Sqrt, Sub, Sum, Symbol, UnderSet, Vector,
    XGroup,
};
use crate::tokens::{
    Accent, Arrow, FontCommand, Function, Greek, Logical, Misc, Operation, Relation,
};
use vstd::prelude::*;
use vstd::string::*;

verus! {

/// The entity that stands for `c` in minimal HTML escaping, if any.
pub open spec fn minimal_entity(c: char) -> Option<Seq<char>> {
    if c == '"' {
        Some("&quot;"@)
    } else if c == '&' {
        Some("&amp;"@)
    } else if c == '\'' {
        Some("&#x27;"@)
    } else if c == '<' {
        Some("&lt;"@)
    } else if c == '>' {
        Some("&gt;"@)
    } else {
        None
    }
}

/// The text with `"`, `&`, `'`, `<` and `>` replaced by their entities.
pub open spec fn escape_minimal(s: Seq<char>) -> Seq<char>
    decreases s.len(),
{
    if s.len() == 0 {
        Seq::empty()
    } else {
        escape_minimal(s.drop_last()) + match minimal_entity(s.last()) {
            Some(e) => e,
            None => seq![s.last()],
        }
    }
}

pub open spec fn is_ascii_alnum(c: char) -> bool {
    let u = c as u32;
    (97 <= u <= 122) || (65 <= u <= 90) || (48 <= u <= 57)
}

/// An upper-case hexadecimal digit.
pub open spec fn hex_digit(n: u32) -> char {
    "0123456789ABCDEF"@[n as int]
}

/// One char escaped for an attribute value: an entity for the minimal set, a
/// hexadecimal reference for the other chars below 256 that are not ASCII
/// letters or digits, and the char itself otherwise.
pub open spec fn escape_attribute_char(c: char) -> Seq<char> {
    match minimal_entity(c) {
        Some(e) => e,
        None => {
            let u = c as u32;
            if u < 256 && (u > 127 || !is_ascii_alnum(c)) {
                "&#x"@ + seq![hex_digit(u / 16), hex_digit(u % 16), ';']
            } else {
                seq![c]
            }
        },
    }
}

/// The text escaped for an attribute value.
pub open spec fn escape_attribute(s: Seq<char>) -> Seq<char>
    decreases s.len(),
{
    if s.len() == 0 {
        Seq::empty()
    } else {
        escape_attribute(s.drop_last()) + escape_attribute_char(s.last())
    }
}

/// Relies on `htmlescape::encode_minimal`: each of `"`, `&`, `'`, `<`, `>` is
/// replaced by its entity, every other char is kept.
#[verifier::external_body]
fn encode_minimal(s: &str) -> (r: String)
    ensures
        r@ == escape_minimal(s@),
{
    htmlescape::encode_minimal(s)
}

/// Relies on `htmlescape::encode_attribute`: the minimal entities, a `&#xHH;`
/// reference for the other chars below 256 that are not ASCII letters or
/// digits, every other char kept.
#[verifier::external_body]
fn encode_attribute(s: &str) -> (r: String)
    ensures
        r@ == escape_attribute(s@),
{
    htmlescape::encode_attribute(s)
}

/// `open`, then `inner`, then `close`.
fn wrap(open: &str, inner: &str, close: &str) -> (r: String)
    ensures
        r@ == open@ + inner@ + close@,
{
    let mut r = open.to_owned();
    r.append(inner);
    r.append(close);
    r
}

/// What a greek token shows.
pub open spec fn greek_entity(x: Greek) -> Seq<char> {
    match x {
        Greek::Alpha => "&alpha;"@,
        Greek::Beta => "&beta;"@,
        Greek::Gamma => "&gamma;"@,
        Greek::BigGamma => "&Gamma;"@,
        Greek::Delta => "&delta;"@,
        Greek::BigDelta => "&Delta;"@,
        Greek::Epsilon => "&epsilon;"@,
        Greek::VarEpsilon => "&epsilon;"@,
        Greek::Zeta => "&zeta;"@,
        Greek::Eta => "&eta;"@,
        Greek::Theta => "&theta;"@,
        Greek::BigTheta => "&Theta;"@,
        Greek::VarTheta => "&theta;"@,
        Greek::Iota => "&iota;"@,
        Greek::Kappa => "&kappa;"@,
        Greek::Lambda => "&lambda;"@,
        Greek::BigLambda => "&Lambda;"@,
        Greek::Mu => "&mu;"@,
        Greek::Nu => "&nu;"@,
        Greek::Xi => "&xi;"@,
        Greek::BigXi => "&Xi;"@,
        Greek::Pi => "&pi;"@,
        Greek::BigPi => "&Pi;"@,
        Greek::Rho => "&rho;"@,
        Greek::Sigma => "&sigma;"@,
        Greek::BigSigma => "&Sigma;"@,
        Greek::Tau => "&tau;"@,
        Greek::Upsilon => "&upsilon;"@,
        Greek::Phi => "&phi;"@,
        Greek::BigPhi => "&Phi;"@,
        Greek::VarPhi => "&phi;"@,
        Greek::Chi => "&chi;"@,
        Greek::Psi => "&psi;"@,
        Greek::BigPsi => "&Psi;"@,
        Greek::Omega => "&omega;"@,
        Greek::BigOmega => "&Omega;"@,
    }
}

fn greek_entity_str(x: Greek) -> (r: &'static str)
    ensures
        r@ == greek_entity(x),
{
    match x {
        Greek::Alpha => "&alpha;",
        Greek::Beta => "&beta;",
        Greek::Gamma => "&gamma;",
        Greek::BigGamma => "&Gamma;",
        Greek::Delta => "&delta;",
        Greek::BigDelta => "&Delta;",
        Greek::Epsilon => "&epsilon;",
        Greek::VarEpsilon => "&epsilon;",
        Greek::Zeta => "&zeta;",
        Greek::Eta => "&eta;",
        Greek::Theta => "&theta;",
        Greek::BigTheta => "&Theta;",
        Greek::VarTheta => "&theta;",
        Greek::Iota => "&iota;",
        Greek::Kappa => "&kappa;",
        Greek::Lambda => "&lambda;",
        Greek::BigLambda => "&Lambda;",
        Greek::Mu => "&mu;",
        Greek::Nu => "&nu;",
        Greek::Xi => "&xi;",
        Greek::BigXi => "&Xi;",
        Greek::Pi => "&pi;",
        Greek::BigPi => "&Pi;",
        Greek::Rho => "&rho;",
        Greek::Sigma => "&sigma;",
        Greek::BigSigma => "&Sigma;",
        Greek::Tau => "&tau;",
        Greek::Upsilon => "&upsilon;",
        Greek::Phi => "&phi;",
        Greek::BigPhi => "&Phi;",
        Greek::VarPhi => "&phi;",
        Greek::Chi => "&chi;",
        Greek::Psi => "&psi;",
        Greek::BigPsi => "&Psi;",
        Greek::Omega => "&omega;",
        Greek::BigOmega => "&Omega;",
    }
}

/// What a relation token shows.
pub open spec fn relation_entity(x: Relation) -> Seq<char> {
    match x {
        Relation::Eq => "="@,
        Relation::Ne => "&ne;"@,
        Relation::Lt => "&lt;"@,
        Relation::Gt => "&gt;"@,
        Relation::Le => "&le;"@,
        Relation::Ge => "&ge;"@,
        Relation::Prec => "&pr;"@,
        Relation::Succ => "&sc;"@,
        Relation::PrecEq => "&prcue;"@,
        Relation::SuccEq => "&sccue;"@,
        Relation::In => "&isin;"@,
        Relation::NotIn => "&notin;"@,
        Relation::SubSet => "&sub;"@,
        Relation::SupSet => "&sup;"@,
        Relation::SubSetEq => "&sube;"@,
        Relation::SupSetEq => "&supe;"@,
        Relation::Equiv => "&equiv;"@,
        Relation::Cong => "&cong;"@,
        Relation::Approx => "&asymp;"@,
        Relation::PropTo => "&prop;"@,
    }
}

fn relation_entity_str(x: Relation) -> (r: &'static str)
    ensures
        r@ == relation_entity(x),
{
    match x {
        Relation::Eq => "=",
        Relation::Ne => "&ne;",
        Relation::Lt => "&lt;",
        Relation::Gt => "&gt;",
        Relation::Le => "&le;",
        Relation::Ge => "&ge;",
        Relation::Prec => "&pr;",
        Relation::Succ => "&sc;",
        Relation::PrecEq => "&prcue;",
        Relation::SuccEq => "&sccue;",
        Relation::In => "&isin;",
        Relation::NotIn => "&notin;",
        Relation::SubSet => "&sub;",
        Relation::SupSet => "&sup;",
        Relation::SubSetEq => "&sube;",
        Relation::SupSetEq => "&supe;",
        Relation::Equiv => "&equiv;",
        Relation::Cong => "&cong;",
        Relation::Approx => "&asymp;",
        Relation::PropTo => "&prop;",
    }
}

/// What a function token shows.
pub open spec fn function_name(x: Function) -> Seq<char> {
    match x {
        Function::Exp => "exp"@,
        Function::Sin => "sin"@,
        Function::Max => "max"@,
        Function::Min => "min"@,
        Function::Glb => "glb"@,
        Function::G => "g"@,
        Function::Lub => "lub"@,
        Function::Lcm => "lcm"@,
        Function::Gcd => "gcd"@,
        Function::Mod => "mod"@,
        Function::Dim => "dim"@,
        Function::Det => "det"@,
        Function::Ln => "ln"@,
        Function::Log => "log"@,
        Function::Cot => "cot"@,
        Function::Csc => "csc"@,
        Function::Sech => "sech"@,
        Function::Tanh => "tanh"@,
        Function::Cosh => "cosh"@,
        Function::ArcSin => "arcsin"@,
        Function::ArcCos => "arccos"@,
        Function::ArcTan => "arctan"@,
        Function::Tan => "tan"@,
        Function::Cos => "cos"@,
        Function::F => "f"@,
        Function::Sec => "sec"@,
        Function::Sinh => "sinh"@,
        Function::Csch => "csch"@,
        Function::Coth => "coth"@,
    }
}

fn function_name_str(x: Function) -> (r: &'static str)
    ensures
        r@ == function_name(x),
{
    match x {
        Function::Exp => "exp",
        Function::Sin => "sin",
        Function::Max => "max",
        Function::Min => "min",
        Function::Glb => "glb",
        Function::G => "g",
        Function::Lub => "lub",
        Function::Lcm => "lcm",
        Function::Gcd => "gcd",
        Function::Mod => "mod",
        Function::Dim => "dim",
        Function::Det => "det",
        Function::Ln => "ln",
        Function::Log => "log",
        Function::Cot => "cot",
        Function::Csc => "csc",
        Function::Sech => "sech",
        Function::Tanh => "tanh",
        Function::Cosh => "cosh",
        Function::ArcSin => "arcsin",
        Function::ArcCos => "arccos",
        Function::ArcTan => "arctan",
        Function::Tan => "tan",
        Function::Cos => "cos",
        Function::F => "f",
        Function::Sec => "sec",
        Function::Sinh => "sinh",
        Function::Csch => "csch",
        Function::Coth => "coth",
    }
}

/// What a logical token shows.
pub open spec fn logical_entity(x: Logical) -> Seq<char> {
    match x {
        Logical::And => "and"@,
        Logical::Or => "or"@,
        Logical::Not => "&not;"@,
        Logical::Implies => "&rArr;"@,
        Logical::If => "if"@,
        Logical::Iff => "&hArr;"@,
        Logical::ForAll => "&forall;"@,
        Logical::Exists => "exists;"@,
        Logical::Bot => "&perp;"@,
        Logical::Top => "&top;"@,
        Logical::VDash => "&vdash;"@,
        Logical::Models => "&vDash;"@,
    }
}

fn logical_entity_str(x: Logical) -> (r: &'static str)
    ensures
        r@ == logical_entity(x),
{
    match x {
        Logical::And => "and",
        Logical::Or => "or",
        Logical::Not => "&not;",
        Logical::Implies => "&rArr;",
        Logical::If => "if",
        Logical::Iff => "&hArr;",
        Logical::ForAll => "&forall;",
        Logical::Exists => "exists;",
        Logical::Bot => "&perp;",
        Logical::Top => "&top;",
        Logical::VDash => "&vdash;",
        Logical::Models => "&vDash;",
    }
}

/// What a arrow token shows.
pub open spec fn arrow_entity(x: Arrow) -> Seq<char> {
    match x {
        Arrow::UpArrow => "&#8593;"@,
        Arrow::DownArrow => "&#8595;"@,
        Arrow::RightArrow => "&#8594;"@,
        Arrow::To => "&#8594;"@,
        Arrow::RightArrowTail => "&#8611;"@,
        Arrow::TwoHeadRightArrow => "&#8608;"@,
        Arrow::TwoHeadRightArrowTail => "&Rarrtl;"@,
        Arrow::MapsTo => "&#8614;"@,
        Arrow::LeftArrow => "&#8592;"@,
        Arrow::LeftRightArrow => "&#10231;"@,
        Arrow::BigRightArrow => "&#8680;"@,
        Arrow::BigLeftArrow => "&#8678;"@,
        Arrow::BigLeftRightArrow => "&#11012;"@,
    }
}

fn arrow_entity_str(x: Arrow) -> (r: &'static str)
    ensures
        r@ == arrow_entity(x),
{
    match x {
        Arrow::UpArrow => "&#8593;",
        Arrow::DownArrow => "&#8595;",
        Arrow::RightArrow => "&#8594;",
        Arrow::To => "&#8594;",
        Arrow::RightArrowTail => "&#8611;",
        Arrow::TwoHeadRightArrow => "&#8608;",
        Arrow::TwoHeadRightArrowTail => "&Rarrtl;",
        Arrow::MapsTo => "&#8614;",
        Arrow::LeftArrow => "&#8592;",
        Arrow::LeftRightArrow => "&#10231;",
        Arrow::BigRightArrow => "&#8680;",
        Arrow::BigLeftArrow => "&#8678;",
        Arrow::BigLeftRightArrow => "&#11012;",
    }
}

/// What a misc token shows.
pub open spec fn misc_entity(x: Misc) -> Seq<char> {
    match x {
        Misc::Del => "&part;"@,
        Misc::Grad => "&nabla;"@,
        Misc::PlusMinus => "&plusmn;"@,
        Misc::EmptySet => "&empty;"@,
        Misc::Infty => "&infin;"@,
        Misc::Aleph => "&alefsym;"@,
        Misc::Therefore => "&there4;"@,
        Misc::Because => "&because;"@,
        Misc::PLDots => "|&hellip;|"@,
        Misc::PCDots => "|&middot;&middot;&middot;|"@,
        Misc::VDots => "&#65049;"@,
        Misc::DDots => "&dtdot;"@,
        Misc::EPipes => "||"@,
        Misc::EQuad => "| |"@,
        Misc::Angle => "&ang;"@,
        Misc::Frown => "&#8994;"@,
        Misc::Triangle => "&#9651;"@,
        Misc::Diamond => "&diamond;"@,
        Misc::Square => "&#9633;"@,
        Misc::LFloor => "&lfloor;"@,
        Misc::RFloor => "&rfloor;"@,
        Misc::LCeiling => "&lceil;"@,
        Misc::RCeiling => "&rceil;"@,
        Misc::Complex => "&Copf;"@,
        Misc::Natural => "&Nopf;"@,
        Misc::Rational => "&Qopf;"@,
        Misc::Real => "&Ropf;"@,
        Misc::Integer => "&Zopf;"@,
        _ => ""@,
    }
}

fn misc_entity_str(x: Misc) -> (r: &'static str)
    ensures
        r@ == misc_entity(x),
{
    match x {
        Misc::Del => "&part;",
        Misc::Grad => "&nabla;",
        Misc::PlusMinus => "&plusmn;",
        Misc::EmptySet => "&empty;",
        Misc::Infty => "&infin;",
        Misc::Aleph => "&alefsym;",
        Misc::Therefore => "&there4;",
        Misc::Because => "&because;",
        Misc::PLDots => "|&hellip;|",
        Misc::PCDots => "|&middot;&middot;&middot;|",
        Misc::VDots => "&#65049;",
        Misc::DDots => "&dtdot;",
        Misc::EPipes => "||",
        Misc::EQuad => "| |",
        Misc::Angle => "&ang;",
        Misc::Frown => "&#8994;",
        Misc::Triangle => "&#9651;",
        Misc::Diamond => "&diamond;",
        Misc::Square => "&#9633;",
        Misc::LFloor => "&lfloor;",
        Misc::RFloor => "&rfloor;",
        Misc::LCeiling => "&lceil;",
        Misc::RCeiling => "&rceil;",
        Misc::Complex => "&Copf;",
        Misc::Natural => "&Nopf;",
        Misc::Rational => "&Qopf;",
        Misc::Real => "&Ropf;",
        Misc::Integer => "&Zopf;",
        _ => "",
    }
}

/// What a operation token shows.
pub open spec fn operation_entity(x: Operation) -> Seq<char> {
    match x {
        Operation::Plus => "&plus;"@,
        Operation::Minus => "&minus;"@,
        Operation::CDot => "&sdot;"@,
        Operation::Ast => "&lowast;"@,
        Operation::Star => "&Star;"@,
        Operation::Slash => "/"@,
        Operation::Backslash => "&setminus;"@,
        Operation::Times => "&times;"@,
        Operation::Div => "&divide;"@,
        Operation::LTimes => "&ltimes;"@,
        Operation::RTimes => "&rtimes;"@,
        Operation::Bowtie => "&bowtie;"@,
        Operation::Circ => "&compfn;"@,
        Operation::OPlus => "&oplus;"@,
        Operation::OTimes => "&otimes;"@,
        Operation::ODot => "&odot;"@,
        Operation::Wedge => "&and;"@,
        Operation::BidWedge => "&xwedge;"@,
        Operation::Vee => "&or;"@,
        Operation::BigVee => "&xvee;"@,
        Operation::Cap => "&cap;"@,
        Operation::BigCap => "&xcap;"@,
        Operation::Cup => "&cup;"@,
        Operation::BigCup => "&xcup;"@,
        _ => ""@,
    }
}

fn operation_entity_str(x: Operation) -> (r: &'static str)
    ensures
        r@ == operation_entity(x),
{
    match x {
        Operation::Plus => "&plus;",
        Operation::Minus => "&minus;",
        Operation::CDot => "&sdot;",
        Operation::Ast => "&lowast;",
        Operation::Star => "&Star;",
        Operation::Slash => "/",
        Operation::Backslash => "&setminus;",
        Operation::Times => "&times;",
        Operation::Div => "&divide;",
        Operation::LTimes => "&ltimes;",
        Operation::RTimes => "&rtimes;",
        Operation::Bowtie => "&bowtie;",
        Operation::Circ => "&compfn;",
        Operation::OPlus => "&oplus;",
        Operation::OTimes => "&otimes;",
        Operation::ODot => "&odot;",
        Operation::Wedge => "&and;",
        Operation::BidWedge => "&xwedge;",
        Operation::Vee => "&or;",
        Operation::BigVee => "&xvee;",
        Operation::Cap => "&cap;",
        Operation::BigCap => "&xcap;",
        Operation::Cup => "&cup;",
        Operation::BigCup => "&xcup;",
        _ => "",
    }
}

/// The mark that an accent draws.
pub open spec fn accent_mark(x: Accent) -> Seq<char> {
    match x {
        Accent::Hat => "&circ;"@,
        Accent::Overline => "&macr;"@,
        Accent::Underline => "&ndash;"@,
        Accent::Vec => "&#8594;"@,
        Accent::Dot => "."@,
        Accent::DDot => ".."@,
        Accent::UnderBrace => "&#9183;"@,
        Accent::OverBrace => "&#9182;"@,
        Accent::Cancel => "&#10187;"@,
        _ => ""@,
    }
}

fn accent_mark_str(x: &Accent) -> (r: &'static str)
    ensures
        r@ == accent_mark(*x),
{
    match x {
        Accent::Hat => "&circ;",
        Accent::Overline => "&macr;",
        Accent::Underline => "&ndash;",
        Accent::Vec => "&#8594;",
        Accent::Dot => ".",
        Accent::DDot => "..",
        Accent::UnderBrace => "&#9183;",
        Accent::OverBrace => "&#9182;",
        Accent::Cancel => "&#10187;",
        _ => "",
    }
}

/// The math variant that a font command selects.
pub open spec fn font_variant(x: FontCommand) -> Seq<char> {
    match x {
        FontCommand::Big => "bold"@,
        FontCommand::BigOutline => "double-struck"@,
        FontCommand::Cursive => "italic"@,
        FontCommand::TText => "script"@,
        FontCommand::Fr => "bold-fraktur"@,
        FontCommand::SansSerif => "sans-serif"@,
    }
}

fn font_variant_str(x: FontCommand) -> (r: &'static str)
    ensures
        r@ == font_variant(x),
{
    match x {
        FontCommand::Big => "bold",
        FontCommand::BigOutline => "double-struck",
        FontCommand::Cursive => "italic",
        FontCommand::TText => "script",
        FontCommand::Fr => "bold-fraktur",
        FontCommand::SansSerif => "sans-serif",
    }
}

pub open spec fn plain_text_mathml(t: PlainText) -> Seq<char> {
    match t.formatting {
        Some(f) => "<mtext mathvariant='"@ + font_variant(f) + "'>"@ + escape_minimal(t.text@)
            + "</mtext>"@,
        None => "<mtext>"@ + escape_minimal(t.text@) + "</mtext>"@,
    }
}

pub open spec fn literal_mathml(l: Literal) -> Seq<char> {
    match l {
        Literal::Text(t) => plain_text_mathml(t),
        Literal::Symbol(s) => "<mi>"@ + escape_minimal(s.symbol@) + "</mi>"@,
        Literal::Number(n) => "<mn>"@ + escape_minimal(n.number@) + "</mn>"@,
        Literal::Greek(g) => "<mi>"@ + greek_entity(g) + "</mi>"@,
        Literal::FontCommand(f) => font_variant(f),
        Literal::Relation(r) => "<mo>"@ + relation_entity(r) + "</mo>"@,
        Literal::Function(f) => "<mi>"@ + function_name(f) + "</mi>"@,
        Literal::Logical(l) => "<mo>"@ + logical_entity(l) + "</mo>"@,
        Literal::Arrow(a) => "<mo>"@ + arrow_entity(a) + "</mo>"@,
        Literal::Misc(m) => "<mi>"@ + misc_entity(m) + "</mi>"@,
        Literal::Operation(o) => "<mo>"@ + operation_entity(o) + "</mo>"@,
        Literal::NewLine => "<mspace linebreak='newline' />"@,
    }
}

/// A big operator with its optional limits.
pub open spec fn limits_text(op: Seq<char>, top: Option<Seq<char>>, bottom: Option<Seq<char>>) -> Seq<char> {
    match bottom {
        Some(b) => match top {
            Some(t) => "<munderover><mi>"@ + op + "</mi>"@ + b + t + "</munderover>"@,
            None => "<munder><mi>"@ + op + "</mi>"@ + b + "</munder>"@,
        },
        None => match top {
            Some(t) => "<mover><mi>"@ + op + "<mi>"@ + t + "</mover>"@,
            None => "<mi>"@ + op + "</mi>"@,
        },
    }
}

/// Whether an accent is drawn over its operand.
pub open spec fn accent_over(a: Accent) -> bool {
    a is Hat || a is Overline || a is Vec || a is Dot || a is DDot || a is OverBrace
}

/// Whether an accent is drawn under its operand.
pub open spec fn accent_under(a: Accent) -> bool {
    a is Underline || a is UnderBrace
}

/// The markup of the first `k` children of an expression.
pub open spec fn children_mathml(x: Expression, k: int) -> Seq<char>
    decreases x, k,
{
    if k <= 0 || k > x.children@.len() {
        Seq::empty()
    } else {
        children_mathml(x, k - 1) + mathml_of(x.children@[k - 1])
    }
}

/// The markup of an expression: its children in a row.
pub open spec fn expression_mathml(x: Expression) -> Seq<char>
    decreases x, x.children@.len() + 1,
{
    "<mrow>"@ + children_mathml(x, x.children@.len() as int) + "</mrow>"@
}

/// The markup of the first `k` cells of a row.
pub open spec fn cells_mathml(r: Vec<Expression>, k: int) -> Seq<char>
    decreases r, k,
{
    if k <= 0 || k > r@.len() {
        Seq::empty()
    } else {
        cells_mathml(r, k - 1) + "<mtd>"@ + expression_mathml(r@[k - 1]) + "</mtd>"@
    }
}

/// The markup of the first `k` rows of a grid.
pub open spec fn rows_mathml(m: Vec<Vec<Expression>>, k: int) -> Seq<char>
    decreases m, k,
{
    if k <= 0 || k > m@.len() {
        Seq::empty()
    } else {
        rows_mathml(m, k - 1) + "<mtr>"@ + cells_mathml(m@[k - 1], m@[k - 1]@.len() as int)
            + "</mtr>"@
    }
}

/// The markup of an optional limit.
pub open spec fn limit_mathml(o: Option<Box<Element>>) -> Option<Seq<char>>
    decreases o, 1int,
{
    match o {
        Some(b) => Some(mathml_of(*b)),
        None => None,
    }
}

/// The markup of an element.
pub open spec fn mathml_of(e: Element) -> Seq<char>
    decreases e, 0int,
{
    match e {
        Element::Literal(l) => literal_mathml(l),
        Element::Special(s) => match s {
            Special::Sum(x) => limits_text("&sum;"@, limit_mathml(x.top), limit_mathml(x.bottom)),
            Special::Prod(x) => limits_text("&prod;"@, limit_mathml(x.top), limit_mathml(x.bottom)),
            Special::Integral(x) => limits_text("&int;"@, limit_mathml(x.top), limit_mathml(x.bottom)),
            Special::OIntegral(x) => limits_text(
                "&conint;"@,
                limit_mathml(x.top),
                limit_mathml(x.bottom),
            ),
            Special::Frac(x) => "<mfrac>"@ + mathml_of(*x.top) + mathml_of(*x.bottom) + "</mfrac>"@,
            Special::Pow(x) => "<msup>"@ + mathml_of(*x.base) + mathml_of(*x.exp) + "</msup>"@,
            Special::Sub(x) => "<msub>"@ + mathml_of(*x.base) + mathml_of(*x.lower) + "</msub>"@,
            Special::Sqrt(x) => "<msqrt>"@ + mathml_of(*x.inner) + "</msqrt>"@,
            Special::Root(x) => "<mroot>"@ + mathml_of(*x.inner) + mathml_of(*x.base) + "</mroot>"@,
        },
        Element::Group(g) => match g {
            Group::MSep => "<mo>,</mo>"@,
            Group::Parentheses(x) => "<mrow><mo>(</mo>"@ + expression_mathml(*x.inner)
                + "<mo>)</mo></mrow>"@,
            Group::Brackets(x) => "<mrow><mo>[</mo>"@ + expression_mathml(*x.inner)
                + "<mo>]</mo></mrow>"@,
            Group::Braces(x) => "<mrow><mo>&lbrace;</mo>"@ + expression_mathml(*x.inner)
                + "<mo>&rbrace;</mo></mrow>"@,
            Group::Angles(x) => "<mrow><mo>&#10216;</mo>"@ + expression_mathml(*x.inner)
                + "<mo>&#10217;</mo></mrow>"@,
            Group::XGroup(x) => "<mrow><mo>(x</mo>"@ + expression_mathml(*x.inner)
                + "<mo>x)</mo></mrow>"@,
            Group::Abs(x) => "<mrow><mo>|</mo>"@ + expression_mathml(*x.inner)
                + "<mo>|</mo></mrow>"@,
            Group::Floor(x) => "<mrow><mo>&lfloor;</mo>"@ + expression_mathml(*x.inner)
                + "<mo>&rfloor;</mo></mrow>"@,
            Group::Ceil(x) => "<mrow><mo>&lceil;</mo>"@ + expression_mathml(*x.inner)
                + "<mo>&rceil;</mo></mrow>"@,
            Group::Norm(x) => "<mrow><mo>||</mo>"@ + expression_mathml(*x.inner)
                + "<mo>||</mo></mrow>"@,
            Group::Matrix(x) => "<mrow><mo>[</mo><mtable>"@ + rows_mathml(x.inner, x.inner@.len() as int)
                + "</mtable><mo>]</mo></mrow>"@,
            Group::Vector(x) => "<mrow><mo>(</mo><mtable>"@ + rows_mathml(x.inner, x.inner@.len() as int)
                + "</mtable><mo>)</mo></mrow>"@,
            Group::NonEnclosed(x) => "<mrow>"@ + expression_mathml(*x.inner) + "</mrow>"@,
        },
        Element::Accent(a) => match a {
            ExpressionAccent::Generic(x) => if accent_over(x.accent) {
                "<mover accentover='true'><mrow>"@ + mathml_of(*x.inner) + "</mrow><mo>"@
                    + accent_mark(x.accent) + "</mo></mover>"@
            } else if accent_under(x.accent) {
                "<munder accentunder='true'><mrow>"@ + mathml_of(*x.inner) + "</mrow><mo>"@
                    + accent_mark(x.accent) + "</mo></mover>"@
            } else {
                mathml_of(*x.inner)
            },
            ExpressionAccent::OverSet(x) => "<mover accentover='true'><mrow>"@ + mathml_of(*x.bottom)
                + "</mrow><mo>"@ + mathml_of(*x.top) + "</mo>"@,
            ExpressionAccent::UnderSet(x) => "<munder accentunder='true'><mrow>"@ + mathml_of(*x.top)
                + "</mrow><mo>"@ + mathml_of(*x.bottom) + "</mo>"@,
            ExpressionAccent::Color(x) => "<mstyle mathcolor='"@ + escape_attribute(x.color@) + "'>"@
                + mathml_of(*x.inner) + "</mstyle>"@,
        },
        Element::Null => "<mrow></mrow>"@,
    }
}

/// The views of an optional string.
pub open spec fn opt_str(o: Option<String>) -> Option<Seq<char>> {
    match o {
        Some(s) => Some(s@),
        None => None,
    }
}

fn plain_text_to_mathml(t: &PlainText) -> (r: String)
    ensures
        r@ == plain_text_mathml(*t),
{
    let text = encode_minimal(t.text.as_str());
    match t.formatting {
        Some(f) => {
            let mut r = wrap("<mtext mathvariant='", font_variant_str(f), "'>");
            r.append(text.as_str());
            r.append("</mtext>");
            r
        },
        None => wrap("<mtext>", text.as_str(), "</mtext>"),
    }
}

fn literal_to_mathml(l: &Literal) -> (r: String)
    ensures
        r@ == literal_mathml(*l),
{
    match l {
        Literal::Text(t) => plain_text_to_mathml(t),
        Literal::Symbol(s) => wrap("<mi>", encode_minimal(s.symbol.as_str()).as_str(), "</mi>"),
        Literal::Number(n) => wrap("<mn>", encode_minimal(n.number.as_str()).as_str(), "</mn>"),
        Literal::Greek(g) => wrap("<mi>", greek_entity_str(*g), "</mi>"),
        Literal::FontCommand(f) => font_variant_str(*f).to_owned(),
        Literal::Relation(x) => wrap("<mo>", relation_entity_str(*x), "</mo>"),
        Literal::Function(f) => wrap("<mi>", function_name_str(*f), "</mi>"),
        Literal::Logical(x) => wrap("<mo>", logical_entity_str(*x), "</mo>"),
        Literal::Arrow(a) => wrap("<mo>", arrow_entity_str(*a), "</mo>"),
        Literal::Misc(m) => wrap("<mi>", misc_entity_str(*m), "</mi>"),
        Literal::Operation(o) => wrap("<mo>", operation_entity_str(*o), "</mo>"),
        Literal::NewLine => "<mspace linebreak='newline' />".to_owned(),
    }
}

/// A big operator with its optional limits, already rendered.
fn limits_to_mathml(op: &str, top: Option<String>, bottom: Option<String>) -> (r: String)
    ensures
        r@ == limits_text(op@, opt_str(top), opt_str(bottom)),
{
    match bottom {
        Some(b) => match top {
            Some(t) => {
                let mut r = wrap("<munderover><mi>", op, "</mi>");
                r.append(b.as_str());
                r.append(t.as_str());
                r.append("</munderover>");
                r
            },
            None => {
                let mut r = wrap("<munder><mi>", op, "</mi>");
                r.append(b.as_str());
                r.append("</munder>");
                r
            },
        },
        None => match top {
            Some(t) => {
                let mut r = wrap("<mover><mi>", op, "<mi>");
                r.append(t.as_str());
                r.append("</mover>");
                r
            },
            None => wrap("<mi>", op, "</mi>"),
        },
    }
}

fn limit_to_mathml(o: &Option<Box<Element>>) -> (r: Option<String>)
    ensures
        opt_str(r) == limit_mathml(*o),
    decreases o,
{
    match o {
        Some(b) => Some(element_to_mathml(b)),
        None => None,
    }
}

/// Two rendered operands between an opening and a closing tag.
fn pair(open: &str, a: String, b: String, close: &str) -> (r: String)
    ensures
        r@ == open@ + a@ + b@ + close@,
{
    let mut r = open.to_owned();
    r.append(a.as_str());
    r.append(b.as_str());
    r.append(close);
    r
}

fn sum_to_mathml(x: &Sum) -> (r: String)
    ensures
        r@ == mathml_of(Element::Special(Special::Sum(*x))),
    decreases x,
{
    limits_to_mathml("&sum;", limit_to_mathml(&x.top), limit_to_mathml(&x.bottom))
}

fn prod_to_mathml(x: &Prod) -> (r: String)
    ensures
        r@ == mathml_of(Element::Special(Special::Prod(*x))),
    decreases x,
{
    limits_to_mathml("&prod;", limit_to_mathml(&x.top), limit_to_mathml(&x.bottom))
}

fn integral_to_mathml(x: &Integral) -> (r: String)
    ensures
        r@ == mathml_of(Element::Special(Special::Integral(*x))),
    decreases x,
{
    limits_to_mathml("&int;", limit_to_mathml(&x.top), limit_to_mathml(&x.bottom))
}

fn ointegral_to_mathml(x: &OIntegral) -> (r: String)
    ensures
        r@ == mathml_of(Element::Special(Special::OIntegral(*x))),
    decreases x,
{
    limits_to_mathml("&conint;", limit_to_mathml(&x.top), limit_to_mathml(&x.bottom))
}

fn special_to_mathml(s: &Special) -> (r: String)
    ensures
        r@ == mathml_of(Element::Special(*s)),
    decreases s,
{
    match s {
        Special::Sum(x) => sum_to_mathml(x),
        Special::Prod(x) => prod_to_mathml(x),
        Special::Integral(x) => integral_to_mathml(x),
        Special::OIntegral(x) => ointegral_to_mathml(x),
        Special::Frac(x) => pair(
            "<mfrac>",
            element_to_mathml(&x.top),
            element_to_mathml(&x.bottom),
            "</mfrac>",
        ),
        Special::Pow(x) => pair(
            "<msup>",
            element_to_mathml(&x.base),
            element_to_mathml(&x.exp),
            "</msup>",
        ),
        Special::Sub(x) => pair(
            "<msub>",
            element_to_mathml(&x.base),
            element_to_mathml(&x.lower),
            "</msub>",
        ),
        Special::Sqrt(x) => wrap("<msqrt>", element_to_mathml(&x.inner).as_str(), "</msqrt>"),
        Special::Root(x) => pair(
            "<mroot>",
            element_to_mathml(&x.inner),
            element_to_mathml(&x.base),
            "</mroot>",
        ),
    }
}

/// The rows of a grid, each cell in a table cell.
fn grid_to_mathml(m: &Vec<Vec<Expression>>) -> (r: String)
    ensures
        r@ == rows_mathml(*m, m@.len() as int),
    decreases m,
{
    let mut r = String::new();
    let mut k: usize = 0;
    while k < m.len()
        invariant
            k <= m@.len(),
            r@ == rows_mathml(*m, k as int),
        decreases m@.len() - k,
    {
        let row = &m[k];
        let mut cells = String::new();
        let mut c: usize = 0;
        while c < row.len()
            invariant
                row == m@[k as int],
                k < m@.len(),
                c <= row@.len(),
                cells@ == cells_mathml(*row, c as int),
            decreases row@.len() - c,
        {
            proof {
                vstd::std_specs::vec::axiom_vec_index_decreases(*m, k as int);
                vstd::std_specs::vec::axiom_vec_index_decreases(m[k as int], c as int);
            }
            let cell = expression_to_mathml(&row[c]);
            cells.append("<mtd>");
            cells.append(cell.as_str());
            cells.append("</mtd>");
            c += 1;
        }
        r.append("<mtr>");
        r.append(cells.as_str());
        r.append("</mtr>");
        k += 1;
    }
    r
}

fn group_to_mathml(g: &Group) -> (r: String)
    ensures
        r@ == mathml_of(Element::Group(*g)),
    decreases g,
{
    match g {
        Group::MSep => "<mo>,</mo>".to_owned(),
        Group::Parentheses(x) => wrap(
            "<mrow><mo>(</mo>",
            expression_to_mathml(&x.inner).as_str(),
            "<mo>)</mo></mrow>",
        ),
        Group::Brackets(x) => wrap(
            "<mrow><mo>[</mo>",
            expression_to_mathml(&x.inner).as_str(),
            "<mo>]</mo></mrow>",
        ),
        Group::Braces(x) => wrap(
            "<mrow><mo>&lbrace;</mo>",
            expression_to_mathml(&x.inner).as_str(),
            "<mo>&rbrace;</mo></mrow>",
        ),
        Group::Angles(x) => wrap(
            "<mrow><mo>&#10216;</mo>",
            expression_to_mathml(&x.inner).as_str(),
            "<mo>&#10217;</mo></mrow>",
        ),
        Group::XGroup(x) => wrap(
            "<mrow><mo>(x</mo>",
            expression_to_mathml(&x.inner).as_str(),
            "<mo>x)</mo></mrow>",
        ),
        Group::Abs(x) => wrap(
            "<mrow><mo>|</mo>",
            expression_to_mathml(&x.inner).as_str(),
            "<mo>|</mo></mrow>",
        ),
        Group::Floor(x) => wrap(
            "<mrow><mo>&lfloor;</mo>",
            expression_to_mathml(&x.inner).as_str(),
            "<mo>&rfloor;</mo></mrow>",
        ),
        Group::Ceil(x) => wrap(
            "<mrow><mo>&lceil;</mo>",
            expression_to_mathml(&x.inner).as_str(),
            "<mo>&rceil;</mo></mrow>",
        ),
        Group::Norm(x) => wrap(
            "<mrow><mo>||</mo>",
            expression_to_mathml(&x.inner).as_str(),
            "<mo>||</mo></mrow>",
        ),
        Group::Matrix(x) => wrap(
            "<mrow><mo>[</mo><mtable>",
            grid_to_mathml(&x.inner).as_str(),
            "</mtable><mo>]</mo></mrow>",
        ),
        Group::Vector(x) => wrap(
            "<mrow><mo>(</mo><mtable>",
            grid_to_mathml(&x.inner).as_str(),
            "</mtable><mo>)</mo></mrow>",
        ),
        Group::NonEnclosed(x) => wrap("<mrow>", expression_to_mathml(&x.inner).as_str(), "</mrow>"),
    }
}

fn generic_accent_to_mathml(x: &GenericAccent) -> (r: String)
    ensures
        r@ == mathml_of(Element::Accent(ExpressionAccent::Generic(*x))),
    decreases x,
{
    let inner = element_to_mathml(&x.inner);
    match &x.accent {
        Accent::Hat | Accent::Overline | Accent::Vec | Accent::Dot | Accent::DDot
        | Accent::OverBrace => {
            let mut r = wrap("<mover accentover='true'><mrow>", inner.as_str(), "</mrow><mo>");
            r.append(accent_mark_str(&x.accent));
            r.append("</mo></mover>");
            r
        },
        Accent::Underline | Accent::UnderBrace => {
            let mut r = wrap("<munder accentunder='true'><mrow>", inner.as_str(), "</mrow><mo>");
            r.append(accent_mark_str(&x.accent));
            r.append("</mo></mover>");
            r
        },
        _ => inner,
    }
}

fn overset_to_mathml(x: &OverSet) -> (r: String)
    ensures
        r@ == mathml_of(Element::Accent(ExpressionAccent::OverSet(*x))),
    decreases x,
{
    let mut r = wrap(
        "<mover accentover='true'><mrow>",
        element_to_mathml(&x.bottom).as_str(),
        "</mrow><mo>",
    );
    r.append(element_to_mathml(&x.top).as_str());
    r.append("</mo>");
    r
}

fn underset_to_mathml(x: &UnderSet) -> (r: String)
    ensures
        r@ == mathml_of(Element::Accent(ExpressionAccent::UnderSet(*x))),
    decreases x,
{
    let mut r = wrap(
        "<munder accentunder='true'><mrow>",
        element_to_mathml(&x.top).as_str(),
        "</mrow><mo>",
    );
    r.append(element_to_mathml(&x.bottom).as_str());
    r.append("</mo>");
    r
}

fn color_to_mathml(x: &Color) -> (r: String)
    ensures
        r@ == mathml_of(Element::Accent(ExpressionAccent::Color(*x))),
    decreases x,
{
    let mut r = wrap("<mstyle mathcolor='", encode_attribute(x.color.as_str()).as_str(), "'>");
    r.append(element_to_mathml(&x.inner).as_str());
    r.append("</mstyle>");
    r
}

fn accent_to_mathml(a: &ExpressionAccent) -> (r: String)
    ensures
        r@ == mathml_of(Element::Accent(*a)),
    decreases a,
{
    match a {
        ExpressionAccent::Generic(x) => generic_accent_to_mathml(x),
        ExpressionAccent::OverSet(x) => overset_to_mathml(x),
        ExpressionAccent::UnderSet(x) => underset_to_mathml(x),
        ExpressionAccent::Color(x) => color_to_mathml(x),
    }
}

fn element_to_mathml(e: &Element) -> (r: String)
    ensures
        r@ == mathml_of(*e),
    decreases e,
{
    match e {
        Element::Literal(l) => literal_to_mathml(l),
        Element::Special(s) => special_to_mathml(s),
        Element::Group(g) => group_to_mathml(g),
        Element::Accent(a) => accent_to_mathml(a),
        Element::Null => "<mrow></mrow>".to_owned(),
    }
}

fn expression_to_mathml(x: &Expression) -> (r: String)
    ensures
        r@ == expression_mathml(*x),
    decreases x,
{
    let mut r = String::new();
    let mut i: usize = 0;
    while i < x.children.len()
        invariant
            i <= x.children@.len(),
            r@ == children_mathml(*x, i as int),
        decreases x.children@.len() - i,
    {
        let c = element_to_mathml(&x.children[i]);
        r.append(c.as_str());
        i += 1;
    }
    wrap("<mrow>", r.as_str(), "</mrow>")
}

/// Conversion into presentation MathML. The result of an expression still
/// needs a `<math>` root around it.
pub trait ToMathML {
    /// The markup that the value renders to.
    spec fn mathml(&self) -> Seq<char>;

    fn to_mathml(&self) -> (r: String)
        ensures
            r@ == self.mathml(),
    ;
}

impl ToMathML for Literal {
    open spec fn mathml(&self) -> Seq<char> {
        literal_mathml(*self)
    }

    fn to_mathml(&self) -> (r: String) {
        literal_to_mathml(self)
    }
}

impl ToMathML for Greek {
    open spec fn mathml(&self) -> Seq<char> {
        "<mi>"@ + greek_entity(*self) + "</mi>"@
    }

    fn to_mathml(&self) -> (r: String) {
        wrap("<mi>", greek_entity_str(*self), "</mi>")
    }
}

impl ToMathML for Relation {
    open spec fn mathml(&self) -> Seq<char> {
        "<mo>"@ + relation_entity(*self) + "</mo>"@
    }

    fn to_mathml(&self) -> (r: String) {
        wrap("<mo>", relation_entity_str(*self), "</mo>")
    }
}

impl ToMathML for Function {
    open spec fn mathml(&self) -> Seq<char> {
        "<mi>"@ + function_name(*self) + "</mi>"@
    }

    fn to_mathml(&self) -> (r: String) {
        wrap("<mi>", function_name_str(*self), "</mi>")
    }
}

impl ToMathML for Logical {
    open spec fn mathml(&self) -> Seq<char> {
        "<mo>"@ + logical_entity(*self) + "</mo>"@
    }

    fn to_mathml(&self) -> (r: String) {
        wrap("<mo>", logical_entity_str(*self), "</mo>")
    }
}

impl ToMathML for Arrow {
    open spec fn mathml(&self) -> Seq<char> {
        "<mo>"@ + arrow_entity(*self) + "</mo>"@
    }

    fn to_mathml(&self) -> (r: String) {
        wrap("<mo>", arrow_entity_str(*self), "</mo>")
    }
}

impl ToMathML for Misc {
    open spec fn mathml(&self) -> Seq<char> {
        "<mi>"@ + misc_entity(*self) + "</mi>"@
    }

    fn to_mathml(&self) -> (r: String) {
        wrap("<mi>", misc_entity_str(*self), "</mi>")
    }
}

impl ToMathML for Operation {
    open spec fn mathml(&self) -> Seq<char> {
        "<mo>"@ + operation_entity(*self) + "</mo>"@
    }

    fn to_mathml(&self) -> (r: String) {
        wrap("<mo>", operation_entity_str(*self), "</mo>")
    }
}

impl ToMathML for PlainText {
    open spec fn mathml(&self) -> Seq<char> {
        plain_text_mathml(*self)
    }

    fn to_mathml(&self) -> (r: String) {
        plain_text_to_mathml(self)
    }
}

impl ToMathML for FontCommand {
    open spec fn mathml(&self) -> Seq<char> {
        font_variant(*self)
    }

    fn to_mathml(&self) -> (r: String) {
        font_variant_str(*self).to_owned()
    }
}

impl ToMathML for Symbol {
    open spec fn mathml(&self) -> Seq<char> {
        "<mi>"@ + escape_minimal(self.symbol@) + "</mi>"@
    }

    fn to_mathml(&self) -> (r: String) {
        wrap("<mi>", encode_minimal(self.symbol.as_str()).as_str(), "</mi>")
    }
}

impl ToMathML for Number {
    open spec fn mathml(&self) -> Seq<char> {
        "<mn>"@ + escape_minimal(self.number@) + "</mn>"@
    }

    fn to_mathml(&self) -> (r: String) {
        wrap("<mn>", encode_minimal(self.number.as_str()).as_str(), "</mn>")
    }
}

impl ToMathML for Accent {
    open spec fn mathml(&self) -> Seq<char> {
        accent_mark(*self)
    }

    fn to_mathml(&self) -> (r: String) {
        accent_mark_str(self).to_owned()
    }
}

impl ToMathML for OverSet {
    open spec fn mathml(&self) -> Seq<char> {
        mathml_of(Element::Accent(ExpressionAccent::OverSet(*self)))
    }

    fn to_mathml(&self) -> (r: String) {
        overset_to_mathml(self)
    }
}

impl ToMathML for UnderSet {
    open spec fn mathml(&self) -> Seq<char> {
        mathml_of(Element::Accent(ExpressionAccent::UnderSet(*self)))
    }

    fn to_mathml(&self) -> (r: String) {
        underset_to_mathml(self)
    }
}

impl ToMathML for Color {
    open spec fn mathml(&self) -> Seq<char> {
        mathml_of(Element::Accent(ExpressionAccent::Color(*self)))
    }

    fn to_mathml(&self) -> (r: String) {
        color_to_mathml(self)
    }
}

impl ToMathML for GenericAccent {
    open spec fn mathml(&self) -> Seq<char> {
        mathml_of(Element::Accent(ExpressionAccent::Generic(*self)))
    }

    fn to_mathml(&self) -> (r: String) {
        generic_accent_to_mathml(self)
    }
}

impl ToMathML for ExpressionAccent {
    open spec fn mathml(&self) -> Seq<char> {
        mathml_of(Element::Accent(*self))
    }

    fn to_mathml(&self) -> (r: String) {
        accent_to_mathml(self)
    }
}

impl ToMathML for Group {
    open spec fn mathml(&self) -> Seq<char> {
        mathml_of(Element::Group(*self))
    }

    fn to_mathml(&self) -> (r: String) {
        group_to_mathml(self)
    }
}

impl ToMathML for Parentheses {
    open spec fn mathml(&self) -> Seq<char> {
        mathml_of(Element::Group(Group::Parentheses(*self)))
    }

    fn to_mathml(&self) -> (r: String) {
        wrap("<mrow><mo>(</mo>", expression_to_mathml(&self.inner).as_str(), "<mo>)</mo></mrow>")
    }
}

impl ToMathML for Brackets {
    open spec fn mathml(&self) -> Seq<char> {
        mathml_of(Element::Group(Group::Brackets(*self)))
    }

    fn to_mathml(&self) -> (r: String) {
        wrap("<mrow><mo>[</mo>", expression_to_mathml(&self.inner).as_str(), "<mo>]</mo></mrow>")
    }
}

impl ToMathML for Braces {
    open spec fn mathml(&self) -> Seq<char> {
        mathml_of(Element::Group(Group::Braces(*self)))
    }

    fn to_mathml(&self) -> (r: String) {
        wrap("<mrow><mo>&lbrace;</mo>", expression_to_mathml(&self.inner).as_str(), "<mo>&rbrace;</mo></mrow>")
    }
}

impl ToMathML for Angles {
    open spec fn mathml(&self) -> Seq<char> {
        mathml_of(Element::Group(Group::Angles(*self)))
    }

    fn to_mathml(&self) -> (r: String) {
        wrap("<mrow><mo>&#10216;</mo>", expression_to_mathml(&self.inner).as_str(), "<mo>&#10217;</mo></mrow>")
    }
}

impl ToMathML for XGroup {
    open spec fn mathml(&self) -> Seq<char> {
        mathml_of(Element::Group(Group::XGroup(*self)))
    }

    fn to_mathml(&self) -> (r: String) {
        wrap("<mrow><mo>(x</mo>", expression_to_mathml(&self.inner).as_str(), "<mo>x)</mo></mrow>")
    }
}

impl ToMathML for Abs {
    open spec fn mathml(&self) -> Seq<char> {
        mathml_of(Element::Group(Group::Abs(*self)))
    }

    fn to_mathml(&self) -> (r: String) {
        wrap("<mrow><mo>|</mo>", expression_to_mathml(&self.inner).as_str(), "<mo>|</mo></mrow>")
    }
}

impl ToMathML for Floor {
    open spec fn mathml(&self) -> Seq<char> {
        mathml_of(Element::Group(Group::Floor(*self)))
    }

    fn to_mathml(&self) -> (r: String) {
        wrap("<mrow><mo>&lfloor;</mo>", expression_to_mathml(&self.inner).as_str(), "<mo>&rfloor;</mo></mrow>")
    }
}

impl ToMathML for Ceil {
    open spec fn mathml(&self) -> Seq<char> {
        mathml_of(Element::Group(Group::Ceil(*self)))
    }

    fn to_mathml(&self) -> (r: String) {
        wrap("<mrow><mo>&lceil;</mo>", expression_to_mathml(&self.inner).as_str(), "<mo>&rceil;</mo></mrow>")
    }
}

impl ToMathML for Norm {
    open spec fn mathml(&self) -> Seq<char> {
        mathml_of(Element::Group(Group::Norm(*self)))
    }

    fn to_mathml(&self) -> (r: String) {
        wrap("<mrow><mo>||</mo>", expression_to_mathml(&self.inner).as_str(), "<mo>||</mo></mrow>")
    }
}

impl ToMathML for NonEnclosed {
    open spec fn mathml(&self) -> Seq<char> {
        mathml_of(Element::Group(Group::NonEnclosed(*self)))
    }

    fn to_mathml(&self) -> (r: String) {
        wrap("<mrow>", expression_to_mathml(&self.inner).as_str(), "</mrow>")
    }
}

impl ToMathML for Matrix {
    open spec fn mathml(&self) -> Seq<char> {
        mathml_of(Element::Group(Group::Matrix(*self)))
    }

    fn to_mathml(&self) -> (r: String) {
        wrap("<mrow><mo>[</mo><mtable>", grid_to_mathml(&self.inner).as_str(), "</mtable><mo>]</mo></mrow>")
    }
}

impl ToMathML for Vector {
    open spec fn mathml(&self) -> Seq<char> {
        mathml_of(Element::Group(Group::Vector(*self)))
    }

    fn to_mathml(&self) -> (r: String) {
        wrap("<mrow><mo>(</mo><mtable>", grid_to_mathml(&self.inner).as_str(), "</mtable><mo>)</mo></mrow>")
    }
}

impl ToMathML for Special {
    open spec fn mathml(&self) -> Seq<char> {
        mathml_of(Element::Special(*self))
    }

    fn to_mathml(&self) -> (r: String) {
        special_to_mathml(self)
    }
}

impl ToMathML for Sum {
    open spec fn mathml(&self) -> Seq<char> {
        mathml_of(Element::Special(Special::Sum(*self)))
    }

    fn to_mathml(&self) -> (r: String) {
        sum_to_mathml(self)
    }
}

impl ToMathML for Prod {
    open spec fn mathml(&self) -> Seq<char> {
        mathml_of(Element::Special(Special::Prod(*self)))
    }

    fn to_mathml(&self) -> (r: String) {
        prod_to_mathml(self)
    }
}

impl ToMathML for Integral {
    open spec fn mathml(&self) -> Seq<char> {
        mathml_of(Element::Special(Special::Integral(*self)))
    }

    fn to_mathml(&self) -> (r: String) {
        integral_to_mathml(self)
    }
}

impl ToMathML for OIntegral {
    open spec fn mathml(&self) -> Seq<char> {
        mathml_of(Element::Special(Special::OIntegral(*self)))
    }

    fn to_mathml(&self) -> (r: String) {
        ointegral_to_mathml(self)
    }
}

impl ToMathML for Frac {
    open spec fn mathml(&self) -> Seq<char> {
        mathml_of(Element::Special(Special::Frac(*self)))
    }

    fn to_mathml(&self) -> (r: String) {
        pair("<mfrac>", element_to_mathml(&self.top), element_to_mathml(&self.bottom), "</mfrac>")
    }
}

impl ToMathML for Pow {
    open spec fn mathml(&self) -> Seq<char> {
        mathml_of(Element::Special(Special::Pow(*self)))
    }

    fn to_mathml(&self) -> (r: String) {
        pair("<msup>", element_to_mathml(&self.base), element_to_mathml(&self.exp), "</msup>")
    }
}

impl ToMathML for Sub {
    open spec fn mathml(&self) -> Seq<char> {
        mathml_of(Element::Special(Special::Sub(*self)))
    }

    fn to_mathml(&self) -> (r: String) {
        pair("<msub>", element_to_mathml(&self.base), element_to_mathml(&self.lower), "</msub>")
    }
}

impl ToMathML for Root {
    open spec fn mathml(&self) -> Seq<char> {
        mathml_of(Element::Special(Special::Root(*self)))
    }

    fn to_mathml(&self) -> (r: String) {
        pair("<mroot>", element_to_mathml(&self.inner), element_to_mathml(&self.base), "</mroot>")
    }
}

impl ToMathML for Sqrt {
    open spec fn mathml(&self) -> Seq<char> {
        mathml_of(Element::Special(Special::Sqrt(*self)))
    }

    fn to_mathml(&self) -> (r: String) {
        wrap("<msqrt>", element_to_mathml(&self.inner).as_str(), "</msqrt>")
    }
}

impl ToMathML for Element {
    open spec fn mathml(&self) -> Seq<char> {
        mathml_of(*self)
    }

    fn to_mathml(&self) -> (r: String) {
        element_to_mathml(self)
    }
}

impl ToMathML for Expression {
    open spec fn mathml(&self) -> Seq<char> {
        expression_mathml(*self)
    }

    fn to_mathml(&self) -> (r: String) {
        expression_to_mathml(self)
    }
}

} // verus!
