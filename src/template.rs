//! Tagged templates, as far as the transform reads and rebuilds them.
use vstd::prelude::*;
use crate::bindings::Ident;
use crate::config::{config_message, ConfigError, ConfigExpr};

verus! {

/// A range of source positions.
#[derive(Clone, Copy, PartialEq, Eq, Structural, Debug)]
pub struct Span {
    pub lo: u32,
    pub hi: u32,
}

/// One literal segment of a template.
pub struct TplElement {
    pub span: Span,
    /// Whether this is the last segment.
    pub tail: bool,
    /// The text with its escapes processed, where the host could process them.
    pub cooked: Option<String>,
    /// The text as written.
    pub raw: String,
}

/// A template: literal segments, and the holes between them. The holes are carried
/// through untouched.
pub struct Tpl<H> {
    pub span: Span,
    pub exprs: Vec<H>,
    pub quasis: Vec<TplElement>,
}

impl<H> Tpl<H> {
    /// One more segment than holes: each hole stands between two segments.
    pub open spec fn well_formed(&self) -> bool {
        self.quasis.len() == self.exprs.len() + 1
    }
}

/// An argument of a call.
pub enum CallArg {
    Expr(ConfigExpr),
    Spread,
}

/// The tag of a tagged template.
pub enum TagExpr {
    /// `tag`.
    Ident(Ident),
    /// `callee(args)`; `callee` is `None` where it is not a plain identifier.
    Call { span: Span, callee: Option<Ident>, args: Vec<CallArg> },
    /// Any other expression.
    Other,
}

pub struct TaggedTpl<H> {
    pub span: Span,
    pub tag: TagExpr,
    pub tpl: Tpl<H>,
}

/// Why a call site was left as it was.
pub enum TransformError {
    /// A call-style tag with no argument, or more than one.
    ArgumentCount,
    /// A call-style tag whose argument is a spread.
    SpreadArgument,
    /// The configuration literal was refused.
    Config(ConfigError),
    /// The markdown converter refused the text; its message.
    Conversion(String),
    /// The converted text does not hold one placeholder per hole.
    SegmentCount,
    /// A plain string literal was asked for a template that has holes.
    UnsupportedHoles,
}

impl TransformError {
    /// The text with which the error is reported.
    pub fn message(&self) -> (r: String)
        ensures
            self matches TransformError::Config(e) ==> r@ == config_message(*e),
            self matches TransformError::Conversion(m) ==> r@ == "Failed to transform Markdown: "@
                + m@,
            self is ArgumentCount ==> r@ == "Expected exactly one argument to `md` function."@,
            self is SpreadArgument ==> r@ == "Spread arguments are not supported in `md` function."@,
    {
        match self {
            TransformError::ArgumentCount => "Expected exactly one argument to `md` function.".to_owned(),
            TransformError::SpreadArgument => "Spread arguments are not supported in `md` function.".to_owned(),
            TransformError::Config(e) => e.message(),
            TransformError::Conversion(m) => {
                let head = crate::text::chars_of("Failed to transform Markdown: ");
                let tail = crate::text::chars_of(m.as_str());
                crate::text::string_of(&crate::text::concat_chars(&head, &tail))
            },
            TransformError::SegmentCount => "The converted Markdown does not hold one interpolation placeholder per hole.".to_owned(),
            TransformError::UnsupportedHoles => "Interpolations are not supported when the output is a string literal.".to_owned(),
        }
    }
}

/// A message for the host to report at a position.
pub struct Diagnostic {
    pub span: Span,
    pub error: TransformError,
}

/// What became of a tagged template.
pub enum Rewrite<H> {
    /// Its tag is not the markdown tag: left as it is.
    Skipped(TaggedTpl<H>),
    /// Left as it is, with a diagnostic.
    Failed(TaggedTpl<H>, Diagnostic),
    /// Converted: the untagged template that replaces it.
    Replaced(Tpl<H>),
}

/// The text that a segment contributes: the cooked form, else the raw one.
pub open spec fn element_text(e: TplElement) -> Seq<char> {
    match e.cooked {
        Some(c) => c@,
        None => e.raw@,
    }
}

pub open spec fn element_texts(qs: Seq<TplElement>) -> Seq<Seq<char>> {
    qs.map_values(|e: TplElement| element_text(e))
}

/// `new` are the segments rebuilt from `pieces`, with the positions and last-segment
/// marks of `old`, in order.
pub open spec fn segments_rebuilt(
    new: Seq<TplElement>,
    old: Seq<TplElement>,
    pieces: Seq<Seq<char>>,
) -> bool {
    &&& new.len() == old.len()
    &&& pieces.len() == old.len()
    &&& forall|i: int|
        #![trigger new[i]]
        0 <= i < new.len() ==> {
            &&& new[i].span == old[i].span
            &&& new[i].tail == old[i].tail
            &&& new[i].raw@ == pieces[i]
            &&& new[i].cooked matches Some(c) && c@ == pieces[i]
        }
}

/// The text of a template as a plain string literal, which only a template of a single
/// segment (one without holes) has.
pub fn into_string_literal<H>(tpl: &Tpl<H>) -> (r: Result<String, TransformError>)
    ensures
        tpl.quasis.len() == 1 ==> (r matches Ok(s) && s@ == element_text(tpl.quasis@[0])),
        tpl.quasis.len() != 1 ==> (r matches Err(e) && e == TransformError::UnsupportedHoles),
{
    if tpl.quasis.len() != 1 {
        return Err(TransformError::UnsupportedHoles);
    }
    let q = &tpl.quasis[0];
    match &q.cooked {
        Some(c) => Ok(c.clone()),
        None => Ok(q.raw.clone()),
    }
}

} // verus!
