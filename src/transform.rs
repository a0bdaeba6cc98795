//! Rewriting one tagged template: choosing its configuration, converting its text, and
//! putting the result back around the holes.
use vstd::prelude::*;
use crate::bindings::TransformVisitor;
use crate::codec::{join, join_segments, split, split_text, view_segments};
use crate::config::{
    apply_prop, apply_props, gfm_key, key_text, ConfigError, overlay_spec, placeholder_key, ConfigExpr, ConfigModel, PluginConfig,
    PropOrSpread, PropValue,
};
use crate::dedent::{dedent, dedent_text};
use crate::template::{
    element_text, element_texts, segments_rebuilt, CallArg, Diagnostic, Rewrite, Span, TagExpr,
    TaggedTpl, Tpl, TplElement, TransformError,
};
use crate::text::{chars_of, string_of};

verus! {

/// The HTML that the markdown converter makes of `text`, or the message with which it
/// refuses it.
pub uninterp spec fn markdown_html(text: Seq<char>, gfm: bool) -> Result<Seq<char>, Seq<char>>;

pub open spec fn result_view(r: Result<String, String>) -> Result<Seq<char>, Seq<char>> {
    match r {
        Ok(s) => Ok(s@),
        Err(m) => Err(m@),
    }
}

/// Relies on `markdown::to_html_with_options`, with `Options::gfm()` or
/// `Options::default()`: the HTML for the text, or the refusal's message as its
/// `Display` writes it. The result depends on the text and the options alone.
#[verifier::external_body]
fn to_html(text: &Vec<char>, gfm: bool) -> (r: Result<String, String>)
    ensures
        result_view(r) == markdown_html(text@, gfm),
{
    let source: String = text.iter().collect();
    let options = if gfm { markdown::Options::gfm() } else { markdown::Options::default() };
    markdown::to_html_with_options(&source, &options).map_err(|m| m.to_string())
}

/// What a call site asks for.
pub enum SiteModel {
    Skip,
    Broken(Span, TransformError),
    Convert(ConfigModel),
}

/// What the tag of a template decides: no conversion, an error at a position, or a
/// conversion under a configuration.
pub open spec fn site_of(tags: Seq<(Seq<char>, u32)>, global: ConfigModel, tag: TagExpr) -> SiteModel {
    match tag {
        TagExpr::Ident(id) => if tags.contains(id@) {
            SiteModel::Convert(global)
        } else {
            SiteModel::Skip
        },
        TagExpr::Call { span, callee, args } => {
            if !(callee matches Some(c) && tags.contains(c@)) {
                SiteModel::Skip
            } else if args.len() != 1 {
                SiteModel::Broken(span, TransformError::ArgumentCount)
            } else {
                match args[0] {
                    CallArg::Spread => SiteModel::Broken(span, TransformError::SpreadArgument),
                    CallArg::Expr(e) => match overlay_spec(global, e) {
                        Ok(c) => SiteModel::Convert(c),
                        Err(err) => SiteModel::Broken(span, TransformError::Config(err)),
                    },
                }
            }
        },
        TagExpr::Other => SiteModel::Skip,
    }
}

/// What the tag of a template decides, as values.
pub enum CallSite {
    Skip,
    Broken(Diagnostic),
    Convert(PluginConfig),
}

pub open spec fn site_matches(r: CallSite, m: SiteModel) -> bool {
    match m {
        SiteModel::Skip => r is Skip,
        SiteModel::Broken(s, e) => r matches CallSite::Broken(d) && d.span == s && d.error == e,
        SiteModel::Convert(c) => r matches CallSite::Convert(pc) && pc@ == c,
    }
}

/// The text handed to the converter: the segments joined with the placeholder, dedented.
pub open spec fn prepared(qs: Seq<TplElement>, p: Seq<char>) -> Seq<char> {
    dedent(join(element_texts(qs), p))
}

/// What becomes of `tpl` once the converter has answered with `converted`.
pub open spec fn rebuilt<H>(
    tpl: TaggedTpl<H>,
    converted: Result<Seq<char>, Seq<char>>,
    p: Seq<char>,
    r: Rewrite<H>,
) -> bool {
    match converted {
        Err(msg) => r matches Rewrite::Failed(t, d) && t == tpl && d.span == tpl.span
            && (d.error matches TransformError::Conversion(m) && m@ == msg),
        Ok(html) => if split(html, p).len() != tpl.tpl.quasis.len() {
            r matches Rewrite::Failed(t, d) && t == tpl && d.span == tpl.span && d.error
                == TransformError::SegmentCount
        } else {
            r matches Rewrite::Replaced(out) && out.span == tpl.span && out.exprs == tpl.tpl.exprs
                && segments_rebuilt(out.quasis@, tpl.tpl.quasis@, split(html, p))
        },
    }
}

/// What becomes of `tpl` when the tag bindings are `tags` and the configuration is `global`.
pub open spec fn visit_outcome<H>(
    tags: Seq<(Seq<char>, u32)>,
    global: ConfigModel,
    tpl: TaggedTpl<H>,
    r: Rewrite<H>,
) -> bool {
    match site_of(tags, global, tpl.tag) {
        SiteModel::Skip => r == Rewrite::Skipped(tpl),
        SiteModel::Broken(s, e) => r matches Rewrite::Failed(t, d) && t == tpl && d.span == s
            && d.error == e,
        SiteModel::Convert(c) => rebuilt(
            tpl,
            markdown_html(prepared(tpl.tpl.quasis@, c.placeholder), c.gfm),
            c.placeholder,
            r,
        ),
    }
}

/// A rewritten template with `k` holes has `k + 1` segments and the same `k` holes, in
/// their order; each segment keeps the position and last-segment mark of the one it
/// replaces.
pub proof fn lemma_rewrite_shape<H>(
    tags: Seq<(Seq<char>, u32)>,
    global: ConfigModel,
    tpl: TaggedTpl<H>,
    r: Rewrite<H>,
)
    requires
        tpl.tpl.well_formed(),
        visit_outcome(tags, global, tpl, r),
        r is Replaced,
    ensures
        r->Replaced_0.exprs == tpl.tpl.exprs,
        r->Replaced_0.well_formed(),
        forall|i: int|
            0 <= i < tpl.tpl.quasis.len() ==> (#[trigger] r->Replaced_0.quasis@[i]).span
                == tpl.tpl.quasis@[i].span && r->Replaced_0.quasis@[i].tail
                == tpl.tpl.quasis@[i].tail,
{
    let out = r->Replaced_0;
    assert(out.quasis@.len() == tpl.tpl.quasis@.len());
}

/// The holes are never looked into or changed: a template left as it was comes back
/// whole, and a rewritten one carries the very holes it was given.
pub proof fn lemma_holes_untouched<H>(
    tags: Seq<(Seq<char>, u32)>,
    global: ConfigModel,
    tpl: TaggedTpl<H>,
    r: Rewrite<H>,
)
    requires
        visit_outcome(tags, global, tpl, r),
    ensures
        match r {
            Rewrite::Skipped(t) => t == tpl,
            Rewrite::Failed(t, _) => t == tpl,
            Rewrite::Replaced(out) => out.exprs == tpl.tpl.exprs,
        },
{
}

/// A call-site literal `{ gfm: b }` converts that template under the global configuration
/// with `gfm` set to `b`; a sibling template tagged by a plain binding keeps the global
/// configuration.
pub proof fn lemma_gfm_override(
    tags: Seq<(Seq<char>, u32)>,
    global: ConfigModel,
    tag: TagExpr,
    sibling: TagExpr,
    b: bool,
)
    requires
        tag matches TagExpr::Call { callee: Some(c), args, .. } && tags.contains(c@) && args@.len()
            == 1 && (args@[0] matches CallArg::Expr(ConfigExpr::Object(props)) && props@.len() == 1
            && (props@[0] matches PropOrSpread::KeyValue(k, PropValue::Bool(v)) && key_text(k)
            == Some(gfm_key()) && v == b)),
        sibling matches TagExpr::Ident(id) && tags.contains(id@),
    ensures
        site_of(tags, global, tag) == SiteModel::Convert(ConfigModel { gfm: b, ..global }),
        site_of(tags, global, sibling) == SiteModel::Convert(global),
{
    reveal_strlit("gfm");
    reveal_strlit("interpolationPlaceholder");
    if let TagExpr::Call { args, .. } = tag {
        if let CallArg::Expr(ConfigExpr::Object(props)) = args@[0] {
            assert(props@.drop_first() =~= Seq::<PropOrSpread>::empty());
            assert(placeholder_key() != gfm_key()) by {
                assert(placeholder_key().len() != gfm_key().len());
            }
            let next = ConfigModel { gfm: b, ..global };
            assert(apply_prop(global, props@[0]) == Ok::<ConfigModel, ConfigError>(next));
            assert(apply_props(next, props@.drop_first()) == Ok::<ConfigModel, ConfigError>(next));
            assert(apply_props(global, props@) == Ok::<ConfigModel, ConfigError>(next));
        }
    }
}

/// The text handed to the converter for the segments `quasis`.
pub fn prepare_markdown(quasis: &Vec<TplElement>, placeholder: &String) -> (r: Vec<char>)
    ensures
        r@ == prepared(quasis@, placeholder@),
{
    let mut texts: Vec<Vec<char>> = Vec::new();
    let mut k: usize = 0;
    while k < quasis.len()
        invariant
            k <= quasis.len(),
            view_segments(texts@) == element_texts(quasis@).take(k as int),
        decreases quasis.len() - k,
    {
        let q = &quasis[k];
        let text = match &q.cooked {
            Some(c) => chars_of(c.as_str()),
            None => chars_of(q.raw.as_str()),
        };
        assert(text@ == element_text(quasis@[k as int]));
        let ghost prev = texts@;
        texts.push(text);
        assert(view_segments(texts@) =~= view_segments(prev).push(text@));
        assert(element_texts(quasis@).take(k + 1) =~= element_texts(quasis@).take(k as int).push(
            element_texts(quasis@)[k as int],
        ));
        k = k + 1;
    }
    assert(element_texts(quasis@).take(quasis.len() as int) =~= element_texts(quasis@));
    let p = chars_of(placeholder.as_str());
    let joined = join_segments(&texts, &p);
    dedent_text(&joined)
}

/// Puts the converter's answer back into the template: on success, the HTML split on the
/// placeholder becomes the new segments, keeping their positions, their last-segment marks
/// and the holes; otherwise the template is kept, with a diagnostic at its position.
pub fn rebuild<H>(tpl: TaggedTpl<H>, converted: Result<String, String>, placeholder: &String) -> (r:
    Rewrite<H>)
    ensures
        rebuilt(tpl, result_view(converted), placeholder@, r),
{
    match converted {
        Err(m) => {
            let span = tpl.span;
            Rewrite::Failed(tpl, Diagnostic { span, error: TransformError::Conversion(m) })
        },
        Ok(html) => {
            let text = chars_of(html.as_str());
            let p = chars_of(placeholder.as_str());
            let pieces = split_text(&text, &p);
            let ghost ps = view_segments(pieces@);
            if pieces.len() != tpl.tpl.quasis.len() {
                let span = tpl.span;
                return Rewrite::Failed(tpl, Diagnostic { span, error: TransformError::SegmentCount });
            }
            let mut quasis: Vec<TplElement> = Vec::new();
            let mut k: usize = 0;
            while k < pieces.len()
                invariant
                    k <= pieces.len(),
                    pieces.len() == tpl.tpl.quasis.len(),
                    ps == view_segments(pieces@),
                    quasis.len() == k,
                    segments_rebuilt(quasis@, tpl.tpl.quasis@.take(k as int), ps.take(k as int)),
                decreases pieces.len() - k,
            {
                let old_q = &tpl.tpl.quasis[k];
                let piece = string_of(&pieces[k]);
                let cooked = string_of(&pieces[k]);
                let q = TplElement { span: old_q.span, tail: old_q.tail, cooked: Some(cooked), raw: piece };
                quasis.push(q);
                k = k + 1;
                assert(segments_rebuilt(quasis@, tpl.tpl.quasis@.take(k as int), ps.take(k as int)));
            }
            assert(tpl.tpl.quasis@.take(k as int) =~= tpl.tpl.quasis@);
            assert(ps.take(k as int) =~= ps);
            Rewrite::Replaced(Tpl { span: tpl.span, exprs: tpl.tpl.exprs, quasis })
        },
    }
}

impl TransformVisitor {
    /// Decides what the tag of a template asks for.
    pub fn call_site(&self, tag: &TagExpr) -> (r: CallSite)
        ensures
            site_matches(r, site_of(self.tags(), self.config@, *tag)),
    {
        match tag {
            TagExpr::Ident(id) => {
                if self.is_tag(id) {
                    CallSite::Convert(self.config.clone())
                } else {
                    CallSite::Skip
                }
            },
            TagExpr::Call { span, callee, args } => {
                let eligible = match callee {
                    Some(c) => self.is_tag(c),
                    None => false,
                };
                if !eligible {
                    return CallSite::Skip;
                }
                if args.len() != 1 {
                    return CallSite::Broken(Diagnostic { span: *span, error: TransformError::ArgumentCount });
                }
                match &args[0] {
                    CallArg::Spread => CallSite::Broken(
                        Diagnostic { span: *span, error: TransformError::SpreadArgument },
                    ),
                    CallArg::Expr(e) => match self.config.overlay(e) {
                        Ok(c) => CallSite::Convert(c),
                        Err(err) => CallSite::Broken(
                            Diagnostic { span: *span, error: TransformError::Config(err) },
                        ),
                    },
                }
            },
            TagExpr::Other => CallSite::Skip,
        }
    }

    /// Rewrites one tagged template: a template whose tag is a binding of the markdown tag
    /// has its text converted to HTML; any other is left as it is.
    pub fn visit_tagged_tpl<H>(&self, tpl: TaggedTpl<H>) -> (r: Rewrite<H>)
        ensures
            visit_outcome(self.tags(), self.config@, tpl, r),
    {
        match self.call_site(&tpl.tag) {
            CallSite::Skip => Rewrite::Skipped(tpl),
            CallSite::Broken(d) => Rewrite::Failed(tpl, d),
            CallSite::Convert(config) => {
                let text = prepare_markdown(&tpl.tpl.quasis, &config.interpolation_placeholder);
                let converted = to_html(&text, config.gfm);
                rebuild(tpl, converted, &config.interpolation_placeholder)
            },
        }
    }
}

} // verus!
