use tagged_md::bindings::{Ident, ImportDecl, ImportSpecifier, TransformVisitor};
use tagged_md::config::{ConfigError, ConfigExpr, PluginConfig, PropKey, PropOrSpread, PropValue};
use tagged_md::template::{
    CallArg, Rewrite, Span, TagExpr, TaggedTpl, Tpl, TplElement, TransformError,
};
use tagged_md::transform::{prepare_markdown, rebuild, CallSite};

fn ident(sym: &str, ctxt: u32) -> Ident {
    Ident { sym: sym.to_string(), ctxt }
}

fn named(local: &str, imported: Option<&str>, ctxt: u32) -> ImportSpecifier {
    ImportSpecifier::Named { local: ident(local, ctxt), imported: imported.map(|s| s.to_string()) }
}

fn import(src: &str, specifiers: Vec<ImportSpecifier>) -> ImportDecl {
    ImportDecl { type_only: false, src: src.to_string(), specifiers }
}

fn visitor_with_md(config: PluginConfig) -> TransformVisitor {
    let mut v = TransformVisitor::new(config);
    v.visit_mut_import_decl(&import("tagged-md", vec![named("md", None, 1)]));
    v
}

fn element(text: &str, lo: u32, tail: bool) -> TplElement {
    TplElement {
        span: Span { lo, hi: lo + text.len() as u32 },
        tail,
        cooked: Some(text.to_string()),
        raw: text.to_string(),
    }
}

fn tagged(tag: TagExpr, texts: &[&str], holes: Vec<&'static str>) -> TaggedTpl<&'static str> {
    let n = texts.len();
    let quasis = texts
        .iter()
        .enumerate()
        .map(|(i, t)| element(t, 10 * i as u32, i + 1 == n))
        .collect();
    TaggedTpl {
        span: Span { lo: 0, hi: 100 },
        tag,
        tpl: Tpl { span: Span { lo: 2, hi: 100 }, exprs: holes, quasis },
    }
}

fn md_tag() -> TagExpr {
    TagExpr::Ident(ident("md", 1))
}

fn call_tag(args: Vec<CallArg>) -> TagExpr {
    TagExpr::Call { span: Span { lo: 0, hi: 9 }, callee: Some(ident("md", 1)), args }
}

fn object(props: Vec<PropOrSpread>) -> CallArg {
    CallArg::Expr(ConfigExpr::Object(props))
}

fn key(name: &str) -> PropKey {
    PropKey::Ident(name.to_string())
}

fn replaced_texts(r: &Rewrite<&'static str>) -> Vec<String> {
    match r {
        Rewrite::Replaced(t) => t.quasis.iter().map(|q| q.raw.clone()).collect(),
        _ => panic!("the template was not rewritten"),
    }
}

fn failed_error(r: Rewrite<&'static str>) -> TransformError {
    match r {
        Rewrite::Failed(_, d) => d.error,
        _ => panic!("no diagnostic"),
    }
}

fn render(texts: &[&str], holes: Vec<&'static str>) -> Rewrite<&'static str> {
    let v = visitor_with_md(PluginConfig::default());
    v.visit_tagged_tpl(tagged(md_tag(), texts, holes))
}

#[test]
fn processes_markdown_paragraph() {
    assert_eq!(replaced_texts(&render(&["foo"], vec![])), vec!["<p>foo</p>"]);
}

#[test]
fn processes_markdown_bold() {
    assert_eq!(replaced_texts(&render(&["**foo**"], vec![])), vec!["<p><strong>foo</strong></p>"]);
}

#[test]
fn processes_escaped_markdown() {
    assert_eq!(
        replaced_texts(&render(&["**`foo`**"], vec![])),
        vec!["<p><strong><code>foo</code></strong></p>"]
    );
}

#[test]
fn deindents_indented_markdown() {
    assert_eq!(
        replaced_texts(&render(&["\n    # Yay\n\n    **`foo`**\n"], vec![])),
        vec!["<h1>Yay</h1>\n<p><strong><code>foo</code></strong></p>"]
    );
}

#[test]
fn processes_expression_interpolation() {
    let r = render(&["**`", "`**"], vec!["foo"]);
    assert_eq!(replaced_texts(&r), vec!["<p><strong><code>", "</code></strong></p>"]);
    match r {
        Rewrite::Replaced(t) => {
            assert_eq!(t.exprs, vec!["foo"]);
            assert_eq!(t.span, Span { lo: 0, hi: 100 });
            assert_eq!(t.quasis[0].span, Span { lo: 0, hi: 3 });
            assert!(!t.quasis[0].tail);
            assert_eq!(t.quasis[1].span, Span { lo: 10, hi: 13 });
            assert!(t.quasis[1].tail);
            assert_eq!(t.quasis[1].cooked.as_deref(), Some("</code></strong></p>"));
        }
        _ => panic!("the template was not rewritten"),
    }
}

#[test]
fn substituted_hole_renders_inside_code() {
    let r = render(&["**`", "`**"], vec!["x"]);
    let texts = replaced_texts(&r);
    assert_eq!(texts.join("V"), "<p><strong><code>V</code></strong></p>");
}

#[test]
fn processes_complex_expression_interpolation() {
    let r = render(
        &[
            "\n    The identifier of the PG module and the store ",
            " to use.\n\n    Should be written in the following format.\n\n    **`{PG module identifier}.{Store ID}`**\n",
        ],
        vec!["\"I\" + \"D\""],
    );
    assert_eq!(
        replaced_texts(&r),
        vec![
            "<p>The identifier of the PG module and the store ",
            " to use.</p>\n<p>Should be written in the following format.</p>\n<p><strong><code>{PG module identifier}.{Store ID}</code></strong></p>",
        ]
    );
}

#[test]
fn only_processes_tag_from_module() {
    let mut v = TransformVisitor::new(PluginConfig::default());
    v.visit_mut_import_decl(&import("tagged-md", vec![named("md", None, 1)]));
    v.visit_mut_import_decl(&import("tagged-md", vec![named("markdown", Some("md"), 1)]));
    let outer = v.visit_tagged_tpl(tagged(TagExpr::Ident(ident("md", 1)), &["**foo**"], vec![]));
    assert_eq!(replaced_texts(&outer), vec!["<p><strong>foo</strong></p>"]);
    let renamed =
        v.visit_tagged_tpl(tagged(TagExpr::Ident(ident("markdown", 1)), &["**foo**"], vec![]));
    assert_eq!(replaced_texts(&renamed), vec!["<p><strong>foo</strong></p>"]);
    let shadowed = v.visit_tagged_tpl(tagged(TagExpr::Ident(ident("md", 2)), &["**foo**"], vec![]));
    match shadowed {
        Rewrite::Skipped(t) => assert_eq!(t.tpl.quasis[0].raw, "**foo**"),
        _ => panic!("a shadowed binding was rewritten"),
    }
}

#[test]
fn renamed_import_leaves_exported_name_unbound() {
    let mut v = TransformVisitor::new(PluginConfig::default());
    v.visit_mut_import_decl(&import("tagged-md", vec![named("markdown", Some("md"), 1)]));
    assert!(v.is_tag(&ident("markdown", 1)));
    assert!(!v.is_tag(&ident("md", 1)));
    let r = v.visit_tagged_tpl(tagged(TagExpr::Ident(ident("md", 1)), &["x"], vec![]));
    assert!(matches!(r, Rewrite::Skipped(_)));
}

#[test]
fn imports_that_do_not_bind_the_tag_are_ignored() {
    let mut v = TransformVisitor::new(PluginConfig::default());
    v.visit_mut_import_decl(&import("other", vec![named("md", None, 1)]));
    v.visit_mut_import_decl(&ImportDecl {
        type_only: true,
        src: "tagged-md".to_string(),
        specifiers: vec![named("md", None, 1)],
    });
    v.visit_mut_import_decl(&import(
        "tagged-md",
        vec![
            ImportSpecifier::Default(ident("md", 1)),
            ImportSpecifier::Namespace(ident("ns", 1)),
            named("html", Some("html"), 1),
        ],
    ));
    assert!(v.tag_idents.is_empty());
    assert!(!v.is_tag(&ident("md", 1)));
}

#[test]
fn call_site_gfm_overrides_for_that_call_only() {
    let v = visitor_with_md(PluginConfig::default());
    let gfm = call_tag(vec![object(vec![PropOrSpread::KeyValue(key("gfm"), PropValue::Bool(true))])]);
    let with_gfm = v.visit_tagged_tpl(tagged(gfm, &["~~x~~"], vec![]));
    assert_eq!(replaced_texts(&with_gfm), vec!["<p><del>x</del></p>"]);
    let sibling = v.visit_tagged_tpl(tagged(md_tag(), &["~~x~~"], vec![]));
    assert_eq!(replaced_texts(&sibling), vec!["<p>~~x~~</p>"]);
    assert!(!v.config.gfm);
}

#[test]
fn call_site_placeholder_is_used_for_the_holes() {
    let v = visitor_with_md(PluginConfig::default());
    let tag = call_tag(vec![object(vec![PropOrSpread::KeyValue(
        PropKey::Str("interpolationPlaceholder".to_string()),
        PropValue::Str("HOLE".to_string()),
    )])]);
    let r = v.visit_tagged_tpl(tagged(tag, &["*a", "b*"], vec!["h"]));
    assert_eq!(replaced_texts(&r), vec!["<p><em>a", "b</em></p>"]);
}

#[test]
fn bad_config_literal_leaves_template() {
    let v = visitor_with_md(PluginConfig::default());
    let tag = call_tag(vec![object(vec![PropOrSpread::KeyValue(
        key("unknown"),
        PropValue::OtherLit,
    )])]);
    match v.visit_tagged_tpl(tagged(tag, &["x"], vec![])) {
        Rewrite::Failed(t, d) => {
            assert_eq!(t.tpl.quasis[0].raw, "x");
            assert_eq!(d.span, Span { lo: 0, hi: 9 });
            assert!(matches!(d.error, TransformError::Config(ConfigError::UnknownKey)));
            assert_eq!(d.error.message(), "Unknown key in the config literal.");
        }
        _ => panic!("no diagnostic"),
    }
}

#[test]
fn call_with_wrong_argument_count_fails() {
    let v = visitor_with_md(PluginConfig::default());
    let none = failed_error(v.visit_tagged_tpl(tagged(call_tag(vec![]), &["x"], vec![])));
    assert!(matches!(none, TransformError::ArgumentCount));
    let two = call_tag(vec![object(vec![]), object(vec![])]);
    let e = failed_error(v.visit_tagged_tpl(tagged(two, &["x"], vec![])));
    assert_eq!(e.message(), "Expected exactly one argument to `md` function.");
}

#[test]
fn call_with_spread_argument_fails() {
    let v = visitor_with_md(PluginConfig::default());
    let e = failed_error(v.visit_tagged_tpl(tagged(call_tag(vec![CallArg::Spread]), &["x"], vec![])));
    assert!(matches!(e, TransformError::SpreadArgument));
    assert_eq!(e.message(), "Spread arguments are not supported in `md` function.");
}

#[test]
fn ineligible_call_is_skipped() {
    let v = visitor_with_md(PluginConfig::default());
    let tag = TagExpr::Call { span: Span { lo: 0, hi: 9 }, callee: Some(ident("foo", 1)), args: vec![] };
    assert!(matches!(v.visit_tagged_tpl(tagged(tag, &["x"], vec![])), Rewrite::Skipped(_)));
    let member = TagExpr::Call { span: Span { lo: 0, hi: 9 }, callee: None, args: vec![] };
    assert!(matches!(v.visit_tagged_tpl(tagged(member, &["x"], vec![])), Rewrite::Skipped(_)));
    assert!(matches!(v.visit_tagged_tpl(tagged(TagExpr::Other, &["x"], vec![])), Rewrite::Skipped(_)));
}

#[test]
fn call_site_reports_config() {
    let v = visitor_with_md(PluginConfig::default());
    let tag = call_tag(vec![object(vec![PropOrSpread::KeyValue(key("gfm"), PropValue::Bool(true))])]);
    match v.call_site(&tag) {
        CallSite::Convert(c) => {
            assert!(c.gfm);
            assert_eq!(c.interpolation_placeholder, "!TAGGED_MD_INTERPOLATION_PLACEHOLDER!");
        }
        _ => panic!("expected a conversion"),
    }
}

#[test]
fn config_literal_errors() {
    let base = PluginConfig::default();
    let cases: Vec<(ConfigExpr, ConfigError)> = vec![
        (ConfigExpr::Other, ConfigError::NotAnObject),
        (ConfigExpr::Object(vec![PropOrSpread::Spread]), ConfigError::Spread),
        (ConfigExpr::Object(vec![PropOrSpread::OtherProp]), ConfigError::NotKeyValue),
        (
            ConfigExpr::Object(vec![PropOrSpread::KeyValue(PropKey::Other, PropValue::Bool(true))]),
            ConfigError::NonStaticKey,
        ),
        (
            ConfigExpr::Object(vec![PropOrSpread::KeyValue(key("gfm"), PropValue::Str("yes".to_string()))]),
            ConfigError::ExpectedBooleanGfm,
        ),
        (
            ConfigExpr::Object(vec![PropOrSpread::KeyValue(key("interpolationPlaceholder"), PropValue::NonLit)]),
            ConfigError::ExpectedStringPlaceholder,
        ),
        (
            ConfigExpr::Object(vec![
                PropOrSpread::KeyValue(key("gfm"), PropValue::Bool(true)),
                PropOrSpread::KeyValue(key("other"), PropValue::Bool(true)),
            ]),
            ConfigError::UnknownKey,
        ),
    ];
    for (expr, expected) in cases {
        match base.overlay(&expr) {
            Err(e) => assert_eq!(e, expected),
            Ok(_) => panic!("accepted a bad literal"),
        }
    }
    assert_eq!(ConfigError::Spread.message(), "Spreads in the config literal are not supported.");
    assert_eq!(ConfigError::NotAnObject.message(), "Expected an object literal.");
}

#[test]
fn config_literal_overlays_global() {
    let global = PluginConfig { interpolation_placeholder: "@@".to_string(), gfm: true };
    let lit = ConfigExpr::Object(vec![PropOrSpread::KeyValue(key("gfm"), PropValue::Bool(false))]);
    let c = global.overlay(&lit).ok().unwrap();
    assert_eq!(c.interpolation_placeholder, "@@");
    assert!(!c.gfm);
    let d = PluginConfig::try_from_ast(&ConfigExpr::Object(vec![])).ok().unwrap();
    assert_eq!(d.interpolation_placeholder, "!TAGGED_MD_INTERPOLATION_PLACEHOLDER!");
    assert!(!d.gfm);
    let both = ConfigExpr::Object(vec![
        PropOrSpread::KeyValue(key("interpolationPlaceholder"), PropValue::Str("%%".to_string())),
        PropOrSpread::KeyValue(PropKey::Str("gfm".to_string()), PropValue::Bool(true)),
    ]);
    let e = PluginConfig::try_from_ast(&both).ok().unwrap();
    assert_eq!(e.interpolation_placeholder, "%%");
    assert!(e.gfm);
}

#[test]
fn default_placeholder_value() {
    assert_eq!(
        tagged_md::config::default_interpolation_placeholder(),
        "!TAGGED_MD_INTERPOLATION_PLACEHOLDER!"
    );
}

#[test]
fn prepare_joins_cooked_text_and_dedents() {
    let mut first = element("  a", 0, false);
    first.cooked = None;
    first.raw = "  \\a".to_string();
    let quasis = vec![first, element("b\n    c", 10, true)];
    let text: String = prepare_markdown(&quasis, &"|".to_string()).into_iter().collect();
    assert_eq!(text, "\\a|b\n  c");
}

#[test]
fn rebuild_reports_conversion_failure() {
    let tpl = tagged(md_tag(), &["x"], vec![]);
    match rebuild(tpl, Err("bad input".to_string()), &"P".to_string()) {
        Rewrite::Failed(t, d) => {
            assert_eq!(t.tpl.quasis[0].raw, "x");
            assert_eq!(d.span, Span { lo: 0, hi: 100 });
            assert_eq!(d.error.message(), "Failed to transform Markdown: bad input");
        }
        _ => panic!("no diagnostic"),
    }
}

#[test]
fn rebuild_refuses_lost_placeholder() {
    let tpl = tagged(md_tag(), &["a", "b"], vec!["h"]);
    let e = failed_error(rebuild(tpl, Ok("<p>ab</p>".to_string()), &"P".to_string()));
    assert!(matches!(e, TransformError::SegmentCount));
}

#[test]
fn rebuild_splits_on_placeholder() {
    let tpl = tagged(md_tag(), &["a", "b", "c"], vec!["h1", "h2"]);
    let r = rebuild(tpl, Ok("<p>aXYbXYc</p>".to_string()), &"XY".to_string());
    assert_eq!(replaced_texts(&r), vec!["<p>a", "b", "c</p>"]);
    match r {
        Rewrite::Replaced(t) => assert_eq!(t.exprs, vec!["h1", "h2"]),
        _ => panic!("the template was not rewritten"),
    }
}

#[test]
fn textual_check_ignores_context() {
    let v = visitor_with_md(PluginConfig::default());
    assert!(v.is_tag_name(&"md".to_string()));
    assert!(!v.is_tag_name(&"markdown".to_string()));
    assert!(!v.is_tag(&ident("md", 2)));
}

#[test]
fn string_literal_needs_a_single_segment() {
    let single = tagged(md_tag(), &["<p>x</p>"], vec![]);
    assert_eq!(tagged_md::template::into_string_literal(&single.tpl).ok().unwrap(), "<p>x</p>");
    let holes = tagged(md_tag(), &["a", "b"], vec!["h"]);
    let e = tagged_md::template::into_string_literal(&holes.tpl).err().unwrap();
    assert!(matches!(e, TransformError::UnsupportedHoles));
}
