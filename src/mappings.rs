//! The pattern tables: for each token category, the spellings that produce each
//! token, in the order in which they are tried. The first spelling that matches
//! at the cursor wins, so a spelling comes before every spelling that is a prefix
//! of it.
//!
//! Across categories the tokenizer's fixed order decides, so a few spellings
//! are left out. Some would never be reached, since a spelling of an earlier
//! category is a prefix of them: `+-` (`+`), `<=>` and `=>` (`<=`, `=`), `_|_`
//! (`_`), `ltimes` (`lt`), `><|` (`>`), `neg` (`ne`), `top` (`to`). Others would
//! cut off a later spelling: `in` would take the start of `int` and `infty`, so
//! membership is spelled `isin`; `del` would take the start of `delta`.
use crate::tokens::{Accent, Arrow, FontCommand, Function, Greek, Grouping, Logical, Misc, Operation, Relation};
use vstd::prelude::*;

verus! {

/// The grouping spellings, in priority order.
pub open spec fn grouping_table() -> Seq<(&'static str, Grouping)> {
    seq![
        ("(:", Grouping::RAngle),
        ("<<", Grouping::RAngle),
        ("langle", Grouping::RAngle),
        (":)", Grouping::LAngle),
        (">>", Grouping::LAngle),
        ("rangle", Grouping::LAngle),
        ("{:", Grouping::RXPar),
        (":}", Grouping::LXPar),
        ("(", Grouping::RParen),
        (")", Grouping::LParen),
        ("[", Grouping::RBracket),
        ("]", Grouping::LBracket),
        ("{", Grouping::RBrace),
        ("}", Grouping::LBrace),
        ("abs", Grouping::Abs),
        ("floor", Grouping::Floor),
        ("ceil", Grouping::Ceil),
        ("norm", Grouping::Norm),
        (",", Grouping::MSep),
    ]
}

/// The grouping spellings, in priority order.
pub fn get_grouping_mappings() -> (r: Vec<(&'static str, Grouping)>)
    ensures
        r@ == grouping_table(),
{
    vec![
        ("(:", Grouping::RAngle),
        ("<<", Grouping::RAngle),
        ("langle", Grouping::RAngle),
        (":)", Grouping::LAngle),
        (">>", Grouping::LAngle),
        ("rangle", Grouping::LAngle),
        ("{:", Grouping::RXPar),
        (":}", Grouping::LXPar),
        ("(", Grouping::RParen),
        (")", Grouping::LParen),
        ("[", Grouping::RBracket),
        ("]", Grouping::LBracket),
        ("{", Grouping::RBrace),
        ("}", Grouping::LBrace),
        ("abs", Grouping::Abs),
        ("floor", Grouping::Floor),
        ("ceil", Grouping::Ceil),
        ("norm", Grouping::Norm),
        (",", Grouping::MSep),
    ]
}

/// The arrow spellings, in priority order.
pub open spec fn arrow_table() -> Seq<(&'static str, Arrow)> {
    seq![
        ("twoheadrightarrowtail", Arrow::TwoHeadRightArrowTail),
        (">->>", Arrow::TwoHeadRightArrowTail),
        ("twoheadrightarrow", Arrow::TwoHeadRightArrow),
        ("->>", Arrow::TwoHeadRightArrow),
        ("rightarrowtail", Arrow::RightArrowTail),
        (">->", Arrow::RightArrowTail),
        ("uarr", Arrow::UpArrow),
        ("uparrow", Arrow::UpArrow),
        ("darr", Arrow::DownArrow),
        ("downarrow", Arrow::DownArrow),
        ("rarr", Arrow::RightArrow),
        ("rightarrow", Arrow::RightArrow),
        ("->", Arrow::To),
        ("to", Arrow::To),
        ("|->", Arrow::MapsTo),
        ("mapsto", Arrow::MapsTo),
        ("larr", Arrow::LeftArrow),
        ("leftarrow", Arrow::LeftArrow),
        ("harr", Arrow::LeftRightArrow),
        ("leftrightarrow", Arrow::LeftRightArrow),
        ("rArr", Arrow::BigRightArrow),
        ("Rightarrow", Arrow::BigRightArrow),
        ("lArr", Arrow::BigLeftArrow),
        ("Leftarrow", Arrow::BigLeftArrow),
        ("hArr", Arrow::BigLeftRightArrow),
        ("Leftrightarrow", Arrow::BigLeftRightArrow),
    ]
}

/// The arrow spellings, in priority order.
pub fn get_arrow_mapping() -> (r: Vec<(&'static str, Arrow)>)
    ensures
        r@ == arrow_table(),
{
    vec![
        ("twoheadrightarrowtail", Arrow::TwoHeadRightArrowTail),
        (">->>", Arrow::TwoHeadRightArrowTail),
        ("twoheadrightarrow", Arrow::TwoHeadRightArrow),
        ("->>", Arrow::TwoHeadRightArrow),
        ("rightarrowtail", Arrow::RightArrowTail),
        (">->", Arrow::RightArrowTail),
        ("uarr", Arrow::UpArrow),
        ("uparrow", Arrow::UpArrow),
        ("darr", Arrow::DownArrow),
        ("downarrow", Arrow::DownArrow),
        ("rarr", Arrow::RightArrow),
        ("rightarrow", Arrow::RightArrow),
        ("->", Arrow::To),
        ("to", Arrow::To),
        ("|->", Arrow::MapsTo),
        ("mapsto", Arrow::MapsTo),
        ("larr", Arrow::LeftArrow),
        ("leftarrow", Arrow::LeftArrow),
        ("harr", Arrow::LeftRightArrow),
        ("leftrightarrow", Arrow::LeftRightArrow),
        ("rArr", Arrow::BigRightArrow),
        ("Rightarrow", Arrow::BigRightArrow),
        ("lArr", Arrow::BigLeftArrow),
        ("Leftarrow", Arrow::BigLeftArrow),
        ("hArr", Arrow::BigLeftRightArrow),
        ("Leftrightarrow", Arrow::BigLeftRightArrow),
    ]
}

/// The relation spellings, in priority order.
pub open spec fn relation_table() -> Seq<(&'static str, Relation)> {
    seq![
        ("subseteq", Relation::SubSetEq),
        ("sube", Relation::SubSetEq),
        ("supseteq", Relation::SupSetEq),
        ("supe", Relation::SupSetEq),
        ("<=", Relation::Le),
        ("le", Relation::Le),
        (">=", Relation::Ge),
        ("ge", Relation::Ge),
        (">-=", Relation::SuccEq),
        ("succeq", Relation::SuccEq),
        ("-<=", Relation::PrecEq),
        ("preceq", Relation::PrecEq),
        (">-", Relation::Succ),
        ("succ", Relation::Succ),
        ("=", Relation::Eq),
        ("!=", Relation::Ne),
        ("ne", Relation::Ne),
        ("<", Relation::Lt),
        ("lt", Relation::Lt),
        (">", Relation::Gt),
        ("gt", Relation::Gt),
        ("-<", Relation::Prec),
        ("prec", Relation::Prec),
        ("isin", Relation::In),
        ("!in", Relation::NotIn),
        ("notin", Relation::NotIn),
        ("subset", Relation::SubSet),
        ("sub", Relation::SubSet),
        ("supset", Relation::SupSet),
        ("sup", Relation::SupSet),
        ("-=", Relation::Equiv),
        ("equiv", Relation::Equiv),
        ("~=", Relation::Cong),
        ("cong", Relation::Cong),
        ("~~", Relation::Approx),
        ("approx", Relation::Approx),
        ("propto", Relation::PropTo),
        ("prop", Relation::PropTo),
    ]
}

/// The relation spellings, in priority order.
pub fn get_relation_mapping() -> (r: Vec<(&'static str, Relation)>)
    ensures
        r@ == relation_table(),
{
    vec![
        ("subseteq", Relation::SubSetEq),
        ("sube", Relation::SubSetEq),
        ("supseteq", Relation::SupSetEq),
        ("supe", Relation::SupSetEq),
        ("<=", Relation::Le),
        ("le", Relation::Le),
        (">=", Relation::Ge),
        ("ge", Relation::Ge),
        (">-=", Relation::SuccEq),
        ("succeq", Relation::SuccEq),
        ("-<=", Relation::PrecEq),
        ("preceq", Relation::PrecEq),
        (">-", Relation::Succ),
        ("succ", Relation::Succ),
        ("=", Relation::Eq),
        ("!=", Relation::Ne),
        ("ne", Relation::Ne),
        ("<", Relation::Lt),
        ("lt", Relation::Lt),
        (">", Relation::Gt),
        ("gt", Relation::Gt),
        ("-<", Relation::Prec),
        ("prec", Relation::Prec),
        ("isin", Relation::In),
        ("!in", Relation::NotIn),
        ("notin", Relation::NotIn),
        ("subset", Relation::SubSet),
        ("sub", Relation::SubSet),
        ("supset", Relation::SupSet),
        ("sup", Relation::SupSet),
        ("-=", Relation::Equiv),
        ("equiv", Relation::Equiv),
        ("~=", Relation::Cong),
        ("cong", Relation::Cong),
        ("~~", Relation::Approx),
        ("approx", Relation::Approx),
        ("propto", Relation::PropTo),
        ("prop", Relation::PropTo),
    ]
}

/// The operation spellings, in priority order.
pub open spec fn operation_table() -> Seq<(&'static str, Operation)> {
    seq![
        ("***", Operation::Star),
        ("star", Operation::Star),
        ("**", Operation::Ast),
        ("ast", Operation::Ast),
        ("|><|", Operation::Bowtie),
        ("bowtie", Operation::Bowtie),
        ("-:", Operation::Div),
        ("div", Operation::Div),
        ("^^^", Operation::BidWedge),
        ("bigwedge", Operation::BidWedge),
        ("vvv", Operation::BigVee),
        ("bigvee", Operation::BigVee),
        ("nnn", Operation::BigCap),
        ("bigcap", Operation::BigCap),
        ("uuu", Operation::BigCup),
        ("bigcup", Operation::BigCup),
        ("|><", Operation::LTimes),
        ("rtimes", Operation::RTimes),
        ("+", Operation::Plus),
        ("-", Operation::Minus),
        ("*", Operation::CDot),
        ("cdot", Operation::CDot),
        ("//", Operation::Slash),
        ("\\\\", Operation::Backslash),
        ("backslash", Operation::Backslash),
        ("setminus", Operation::Backslash),
        ("xx", Operation::Times),
        ("times", Operation::Times),
        ("@", Operation::Circ),
        ("circ", Operation::Circ),
        ("o+", Operation::OPlus),
        ("oplus", Operation::OPlus),
        ("ox", Operation::OTimes),
        ("otimes", Operation::OTimes),
        ("o.", Operation::ODot),
        ("odot", Operation::ODot),
        ("sum", Operation::Sum),
        ("prod", Operation::Prod),
        ("^^", Operation::Wedge),
        ("wedge", Operation::Wedge),
        ("vv", Operation::Vee),
        ("vee", Operation::Vee),
        ("nn", Operation::Cap),
        ("cap", Operation::Cap),
        ("uu", Operation::Cup),
        ("cup", Operation::Cup),
    ]
}

/// The operation spellings, in priority order.
pub fn get_operation_mappings() -> (r: Vec<(&'static str, Operation)>)
    ensures
        r@ == operation_table(),
{
    vec![
        ("***", Operation::Star),
        ("star", Operation::Star),
        ("**", Operation::Ast),
        ("ast", Operation::Ast),
        ("|><|", Operation::Bowtie),
        ("bowtie", Operation::Bowtie),
        ("-:", Operation::Div),
        ("div", Operation::Div),
        ("^^^", Operation::BidWedge),
        ("bigwedge", Operation::BidWedge),
        ("vvv", Operation::BigVee),
        ("bigvee", Operation::BigVee),
        ("nnn", Operation::BigCap),
        ("bigcap", Operation::BigCap),
        ("uuu", Operation::BigCup),
        ("bigcup", Operation::BigCup),
        ("|><", Operation::LTimes),
        ("rtimes", Operation::RTimes),
        ("+", Operation::Plus),
        ("-", Operation::Minus),
        ("*", Operation::CDot),
        ("cdot", Operation::CDot),
        ("//", Operation::Slash),
        ("\\\\", Operation::Backslash),
        ("backslash", Operation::Backslash),
        ("setminus", Operation::Backslash),
        ("xx", Operation::Times),
        ("times", Operation::Times),
        ("@", Operation::Circ),
        ("circ", Operation::Circ),
        ("o+", Operation::OPlus),
        ("oplus", Operation::OPlus),
        ("ox", Operation::OTimes),
        ("otimes", Operation::OTimes),
        ("o.", Operation::ODot),
        ("odot", Operation::ODot),
        ("sum", Operation::Sum),
        ("prod", Operation::Prod),
        ("^^", Operation::Wedge),
        ("wedge", Operation::Wedge),
        ("vv", Operation::Vee),
        ("vee", Operation::Vee),
        ("nn", Operation::Cap),
        ("cap", Operation::Cap),
        ("uu", Operation::Cup),
        ("cup", Operation::Cup),
    ]
}

/// The misc spellings, in priority order.
pub open spec fn misc_table() -> Seq<(&'static str, Misc)> {
    seq![
        ("/_\\", Misc::Triangle),
        ("triangle", Misc::Triangle),
        ("/_", Misc::Angle),
        ("angle", Misc::Angle),
        ("|__", Misc::LFloor),
        ("lfloor", Misc::LFloor),
        ("__|", Misc::RFloor),
        ("rfloor", Misc::RFloor),
        ("|~", Misc::LCeiling),
        ("lceiling", Misc::LCeiling),
        ("~|", Misc::RCeiling),
        ("rceiling", Misc::RCeiling),
        ("/", Misc::AsciiFrac),
        ("frac", Misc::LatexFrac),
        ("_", Misc::Sub),
        ("^", Misc::Pow),
        ("sqrt", Misc::Sqrt),
        ("root", Misc::Root),
        ("int", Misc::Int),
        ("oint", Misc::OInt),
        ("partial", Misc::Del),
        ("grad", Misc::Grad),
        ("nabla", Misc::Grad),
        ("pm", Misc::PlusMinus),
        ("O/", Misc::EmptySet),
        ("emptyset", Misc::EmptySet),
        ("oo", Misc::Infty),
        ("infty", Misc::Infty),
        ("aleph", Misc::Aleph),
        (":.", Misc::Therefore),
        ("therefore", Misc::Therefore),
        (":'", Misc::Because),
        ("because", Misc::Because),
        ("|...|", Misc::PLDots),
        ("|ldots|", Misc::PLDots),
        ("|cdots|", Misc::PCDots),
        ("vdots", Misc::VDots),
        ("ddots", Misc::DDots),
        ("|\\ |", Misc::EPipes),
        ("|quad|", Misc::EQuad),
        ("frown", Misc::Frown),
        ("diamond", Misc::Diamond),
        ("square", Misc::Square),
        ("CC", Misc::Complex),
        ("NN", Misc::Natural),
        ("QQ", Misc::Rational),
        ("RR", Misc::Real),
        ("ZZ", Misc::Integer),
        ("text", Misc::LatexText),
    ]
}

/// The misc spellings, in priority order.
pub fn get_misc_mappings() -> (r: Vec<(&'static str, Misc)>)
    ensures
        r@ == misc_table(),
{
    vec![
        ("/_\\", Misc::Triangle),
        ("triangle", Misc::Triangle),
        ("/_", Misc::Angle),
        ("angle", Misc::Angle),
        ("|__", Misc::LFloor),
        ("lfloor", Misc::LFloor),
        ("__|", Misc::RFloor),
        ("rfloor", Misc::RFloor),
        ("|~", Misc::LCeiling),
        ("lceiling", Misc::LCeiling),
        ("~|", Misc::RCeiling),
        ("rceiling", Misc::RCeiling),
        ("/", Misc::AsciiFrac),
        ("frac", Misc::LatexFrac),
        ("_", Misc::Sub),
        ("^", Misc::Pow),
        ("sqrt", Misc::Sqrt),
        ("root", Misc::Root),
        ("int", Misc::Int),
        ("oint", Misc::OInt),
        ("partial", Misc::Del),
        ("grad", Misc::Grad),
        ("nabla", Misc::Grad),
        ("pm", Misc::PlusMinus),
        ("O/", Misc::EmptySet),
        ("emptyset", Misc::EmptySet),
        ("oo", Misc::Infty),
        ("infty", Misc::Infty),
        ("aleph", Misc::Aleph),
        (":.", Misc::Therefore),
        ("therefore", Misc::Therefore),
        (":'", Misc::Because),
        ("because", Misc::Because),
        ("|...|", Misc::PLDots),
        ("|ldots|", Misc::PLDots),
        ("|cdots|", Misc::PCDots),
        ("vdots", Misc::VDots),
        ("ddots", Misc::DDots),
        ("|\\ |", Misc::EPipes),
        ("|quad|", Misc::EQuad),
        ("frown", Misc::Frown),
        ("diamond", Misc::Diamond),
        ("square", Misc::Square),
        ("CC", Misc::Complex),
        ("NN", Misc::Natural),
        ("QQ", Misc::Rational),
        ("RR", Misc::Real),
        ("ZZ", Misc::Integer),
        ("text", Misc::LatexText),
    ]
}

/// The logical spellings, in priority order.
pub open spec fn logical_table() -> Seq<(&'static str, Logical)> {
    seq![
        ("iff", Logical::Iff),
        ("and", Logical::And),
        ("or", Logical::Or),
        ("not", Logical::Not),
        ("implies", Logical::Implies),
        ("if", Logical::If),
        ("AA", Logical::ForAll),
        ("forall", Logical::ForAll),
        ("EE", Logical::Exists),
        ("exists", Logical::Exists),
        ("bot", Logical::Bot),
        ("TT", Logical::Top),
        ("|--", Logical::VDash),
        ("vdash", Logical::VDash),
        ("|==", Logical::Models),
        ("models", Logical::Models),
    ]
}

/// The logical spellings, in priority order.
pub fn get_logical_mappings() -> (r: Vec<(&'static str, Logical)>)
    ensures
        r@ == logical_table(),
{
    vec![
        ("iff", Logical::Iff),
        ("and", Logical::And),
        ("or", Logical::Or),
        ("not", Logical::Not),
        ("implies", Logical::Implies),
        ("if", Logical::If),
        ("AA", Logical::ForAll),
        ("forall", Logical::ForAll),
        ("EE", Logical::Exists),
        ("exists", Logical::Exists),
        ("bot", Logical::Bot),
        ("TT", Logical::Top),
        ("|--", Logical::VDash),
        ("vdash", Logical::VDash),
        ("|==", Logical::Models),
        ("models", Logical::Models),
    ]
}

/// The accent spellings, in priority order.
pub open spec fn accent_table() -> Seq<(&'static str, Accent)> {
    seq![
        ("hat", Accent::Hat),
        ("bar", Accent::Overline),
        ("overline", Accent::Overline),
        ("ul", Accent::Underline),
        ("underline", Accent::Underline),
        ("vec", Accent::Vec),
        ("ddot", Accent::DDot),
        ("dot", Accent::Dot),
        ("overset", Accent::OverSet),
        ("underset", Accent::UnderSet),
        ("ubrace", Accent::UnderBrace),
        ("underbrace", Accent::UnderBrace),
        ("obrace", Accent::OverBrace),
        ("overbrace", Accent::OverBrace),
        ("cancel", Accent::Cancel),
    ]
}

/// The accent spellings, in priority order. `color` is not among them: it
/// carries the color that follows it, and the tokenizer reads it apart.
pub fn get_accent_mappings() -> (r: Vec<(&'static str, Accent)>)
    ensures
        r@ == accent_table(),
{
    vec![
        ("hat", Accent::Hat),
        ("bar", Accent::Overline),
        ("overline", Accent::Overline),
        ("ul", Accent::Underline),
        ("underline", Accent::Underline),
        ("vec", Accent::Vec),
        ("ddot", Accent::DDot),
        ("dot", Accent::Dot),
        ("overset", Accent::OverSet),
        ("underset", Accent::UnderSet),
        ("ubrace", Accent::UnderBrace),
        ("underbrace", Accent::UnderBrace),
        ("obrace", Accent::OverBrace),
        ("overbrace", Accent::OverBrace),
        ("cancel", Accent::Cancel),
    ]
}

/// The greek spellings, in priority order.
pub open spec fn greek_table() -> Seq<(&'static str, Greek)> {
    seq![
        ("alpha", Greek::Alpha),
        ("beta", Greek::Beta),
        ("gamma", Greek::Gamma),
        ("Gamma", Greek::BigGamma),
        ("delta", Greek::Delta),
        ("Delta", Greek::BigDelta),
        ("epsilon", Greek::Epsilon),
        ("varepsilon", Greek::VarEpsilon),
        ("zeta", Greek::Zeta),
        ("eta", Greek::Eta),
        ("theta", Greek::Theta),
        ("Theta", Greek::BigTheta),
        ("vartheta", Greek::VarTheta),
        ("iota", Greek::Iota),
        ("kappa", Greek::Kappa),
        ("lambda", Greek::Lambda),
        ("Lambda", Greek::BigLambda),
        ("mu", Greek::Mu),
        ("nu", Greek::Nu),
        ("xi", Greek::Xi),
        ("Xi", Greek::BigXi),
        ("pi", Greek::Pi),
        ("Pi", Greek::BigPi),
        ("rho", Greek::Rho),
        ("sigma", Greek::Sigma),
        ("Sigma", Greek::BigSigma),
        ("tau", Greek::Tau),
        ("upsilon", Greek::Upsilon),
        ("phi", Greek::Phi),
        ("Phi", Greek::BigPhi),
        ("varphi", Greek::VarPhi),
        ("chi", Greek::Chi),
        ("psi", Greek::Psi),
        ("Psi", Greek::BigPsi),
        ("omega", Greek::Omega),
        ("Omega", Greek::BigOmega),
    ]
}

/// The greek spellings, in priority order.
pub fn get_greek_mappings() -> (r: Vec<(&'static str, Greek)>)
    ensures
        r@ == greek_table(),
{
    vec![
        ("alpha", Greek::Alpha),
        ("beta", Greek::Beta),
        ("gamma", Greek::Gamma),
        ("Gamma", Greek::BigGamma),
        ("delta", Greek::Delta),
        ("Delta", Greek::BigDelta),
        ("epsilon", Greek::Epsilon),
        ("varepsilon", Greek::VarEpsilon),
        ("zeta", Greek::Zeta),
        ("eta", Greek::Eta),
        ("theta", Greek::Theta),
        ("Theta", Greek::BigTheta),
        ("vartheta", Greek::VarTheta),
        ("iota", Greek::Iota),
        ("kappa", Greek::Kappa),
        ("lambda", Greek::Lambda),
        ("Lambda", Greek::BigLambda),
        ("mu", Greek::Mu),
        ("nu", Greek::Nu),
        ("xi", Greek::Xi),
        ("Xi", Greek::BigXi),
        ("pi", Greek::Pi),
        ("Pi", Greek::BigPi),
        ("rho", Greek::Rho),
        ("sigma", Greek::Sigma),
        ("Sigma", Greek::BigSigma),
        ("tau", Greek::Tau),
        ("upsilon", Greek::Upsilon),
        ("phi", Greek::Phi),
        ("Phi", Greek::BigPhi),
        ("varphi", Greek::VarPhi),
        ("chi", Greek::Chi),
        ("psi", Greek::Psi),
        ("Psi", Greek::BigPsi),
        ("omega", Greek::Omega),
        ("Omega", Greek::BigOmega),
    ]
}

/// The font spellings, in priority order.
pub open spec fn font_table() -> Seq<(&'static str, FontCommand)> {
    seq![
        ("bbb", FontCommand::BigOutline),
        ("bb", FontCommand::Big),
        ("cc", FontCommand::Cursive),
        ("tt", FontCommand::TText),
        ("fr", FontCommand::Fr),
        ("sf", FontCommand::SansSerif),
    ]
}

/// The font spellings, in priority order.
pub fn get_font_mappings() -> (r: Vec<(&'static str, FontCommand)>)
    ensures
        r@ == font_table(),
{
    vec![
        ("bbb", FontCommand::BigOutline),
        ("bb", FontCommand::Big),
        ("cc", FontCommand::Cursive),
        ("tt", FontCommand::TText),
        ("fr", FontCommand::Fr),
        ("sf", FontCommand::SansSerif),
    ]
}

/// The function spellings, in priority order.
pub open spec fn function_table() -> Seq<(&'static str, Function)> {
    seq![
        ("sinh", Function::Sinh),
        ("cosh", Function::Cosh),
        ("tanh", Function::Tanh),
        ("sech", Function::Sech),
        ("csch", Function::Csch),
        ("coth", Function::Coth),
        ("arcsin", Function::ArcSin),
        ("arccos", Function::ArcCos),
        ("arctan", Function::ArcTan),
        ("sin", Function::Sin),
        ("cos", Function::Cos),
        ("tan", Function::Tan),
        ("sec", Function::Sec),
        ("csc", Function::Csc),
        ("cot", Function::Cot),
        ("exp", Function::Exp),
        ("log", Function::Log),
        ("ln", Function::Ln),
        ("det", Function::Det),
        ("dim", Function::Dim),
        ("mod", Function::Mod),
        ("gcd", Function::Gcd),
        ("lcm", Function::Lcm),
        ("lub", Function::Lub),
        ("glb", Function::Glb),
        ("min", Function::Min),
        ("max", Function::Max),
        ("f", Function::F),
        ("g", Function::G),
    ]
}

/// The function spellings, in priority order.
pub fn get_function_mappings() -> (r: Vec<(&'static str, Function)>)
    ensures
        r@ == function_table(),
{
    vec![
        ("sinh", Function::Sinh),
        ("cosh", Function::Cosh),
        ("tanh", Function::Tanh),
        ("sech", Function::Sech),
        ("csch", Function::Csch),
        ("coth", Function::Coth),
        ("arcsin", Function::ArcSin),
        ("arccos", Function::ArcCos),
        ("arctan", Function::ArcTan),
        ("sin", Function::Sin),
        ("cos", Function::Cos),
        ("tan", Function::Tan),
        ("sec", Function::Sec),
        ("csc", Function::Csc),
        ("cot", Function::Cot),
        ("exp", Function::Exp),
        ("log", Function::Log),
        ("ln", Function::Ln),
        ("det", Function::Det),
        ("dim", Function::Dim),
        ("mod", Function::Mod),
        ("gcd", Function::Gcd),
        ("lcm", Function::Lcm),
        ("lub", Function::Lub),
        ("glb", Function::Glb),
        ("min", Function::Min),
        ("max", Function::Max),
        ("f", Function::F),
        ("g", Function::G),
    ]
}

} // verus!
