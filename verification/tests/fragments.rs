//! The fragment pipeline: injection into the host document, containment of
//! renderer failures, and the composite fallback chain.

use greentic_gui::fragments::{
    classify_invoke_result, component_module_path, fragment_file_path, inject_fragments,
    make_fragment_context, missing_secrets_placeholder, render_failed_placeholder,
    CompositeFragmentRenderer, FragmentContext, FragmentError, FragmentRenderer, ModuleCache,
};
use greentic_gui::html::reserialize;
use greentic_gui::packs::FragmentBinding;
use greentic_gui::session::{build_tenant_ctx, SessionInfo};
use greentic_gui::tenant::FragmentTarget;

struct DummyRenderer;

impl FragmentRenderer for DummyRenderer {
    fn render_fragment(
        &self,
        _binding: &FragmentBinding,
        _assets_root: &str,
        _ctx: FragmentContext,
    ) -> Result<Option<String>, FragmentError> {
        Ok(Some("<span class=\"injected\">ok</span>".to_string()))
    }
}

/// Renderer whose outcome depends on the binding id, to exercise every
/// containment path in one page.
struct ByIdRenderer;

impl FragmentRenderer for ByIdRenderer {
    fn render_fragment(
        &self,
        binding: &FragmentBinding,
        _assets_root: &str,
        _ctx: FragmentContext,
    ) -> Result<Option<String>, FragmentError> {
        match binding.id.as_str() {
            "ok" => Ok(Some("<em id=\"rendered\">fine</em>".to_string())),
            "skip" => Ok(None),
            "secrets" => Err(FragmentError::MissingSecrets(
                "missing_secrets: api/key".to_string(),
            )),
            _ => Err(FragmentError::Renderer("boom".to_string())),
        }
    }
}

fn binding(id: &str, selector: &str) -> FragmentTarget {
    FragmentTarget {
        binding: FragmentBinding {
            id: id.to_string(),
            selector: selector.to_string(),
            component_world: "greentic:gui/gui-fragment@1.0.0".to_string(),
            component_name: "fragment".to_string(),
        },
        assets_root: "/tmp".to_string(),
    }
}

#[test]
fn injects_fragment_html() {
    let html = "<html><body><div id=\"target\">old</div></body></html>".to_string();
    let bindings = vec![FragmentTarget {
        binding: FragmentBinding {
            id: "test".to_string(),
            selector: "#target".to_string(),
            component_world: "greentic:gui/gui-fragment@1.0.0".to_string(),
            component_name: "fragment".to_string(),
        },
        assets_root: "/tmp".to_string(),
    }];
    let rendered =
        inject_fragments(html, &bindings, None, "tenant", "/", &DummyRenderer).unwrap();
    assert!(rendered.contains("class=\"injected\""));
    assert!(!rendered.contains("old"));
}

#[test]
fn no_bindings_leave_document_byte_identical() {
    let html = "<p>not even valid</p".to_string();
    let bindings: Vec<FragmentTarget> = vec![];
    let rendered =
        inject_fragments(html.clone(), &bindings, None, "tenant", "/", &DummyRenderer).unwrap();
    assert_eq!(rendered, html);
}

#[test]
fn unmatched_selector_leaves_serialized_document_byte_identical() {
    let html = "<html><body><div id=\"target\">old</div></body></html>";
    let baseline = reserialize(html);
    let bindings = vec![binding("test", "#no-such-node")];
    let rendered =
        inject_fragments(html.to_string(), &bindings, None, "tenant", "/", &DummyRenderer)
            .unwrap();
    assert_eq!(rendered, baseline);
    assert!(rendered.contains("old"));
}

#[test]
fn missing_secrets_yields_exact_placeholder_and_spares_others() {
    let html = "<html><body><div id=\"a\"></div><div id=\"b\"></div></body></html>";
    let bindings = vec![binding("secrets", "#a"), binding("ok", "#b")];
    let rendered =
        inject_fragments(html.to_string(), &bindings, None, "tenant", "/", &ByIdRenderer)
            .unwrap();
    assert!(rendered.contains("missing secrets for fragment"));
    assert!(rendered.contains("data-fragment-id=\"secrets\""));
    // the unrelated fragment rendered normally in the same page
    assert!(rendered.contains("<em id=\"rendered\">fine</em>"));
}

#[test]
fn generic_failure_yields_failure_placeholder() {
    let html = "<html><body><div id=\"a\"></div></body></html>";
    let bindings = vec![binding("broken", "#a")];
    let rendered =
        inject_fragments(html.to_string(), &bindings, None, "tenant", "/", &ByIdRenderer)
            .unwrap();
    assert!(rendered.contains("fragment render failed"));
    assert!(rendered.contains("data-fragment-id=\"broken\""));
}

#[test]
fn declined_render_skips_silently() {
    let html = "<html><body><div id=\"a\">kept</div></body></html>";
    let baseline = reserialize(html);
    let bindings = vec![binding("skip", "#a")];
    let rendered =
        inject_fragments(html.to_string(), &bindings, None, "tenant", "/", &ByIdRenderer)
            .unwrap();
    assert_eq!(rendered, baseline);
    assert!(rendered.contains("kept"));
}

#[test]
fn placeholders_carry_binding_id() {
    assert_eq!(
        missing_secrets_placeholder("frag-1"),
        "<div class=\"fragment-error\" data-fragment-id=\"frag-1\">missing secrets for fragment</div>"
    );
    assert_eq!(
        render_failed_placeholder("frag-2"),
        "<div class=\"fragment-error\" data-fragment-id=\"frag-2\">fragment render failed</div>"
    );
}

#[test]
fn classify_reclassifies_missing_secrets_marker() {
    match classify_invoke_result(Err("component reported missing_secrets".to_string())) {
        Err(FragmentError::MissingSecrets(m)) => {
            assert_eq!(m, "component reported missing_secrets")
        }
        other => panic!("expected missing secrets, got {:?}", other),
    }
    // any other error is no opinion, so the chain can fall through
    assert!(matches!(
        classify_invoke_result(Err("file not found".to_string())),
        Ok(None)
    ));
    match classify_invoke_result(Ok("<b>x</b>".to_string())) {
        Ok(Some(h)) => assert_eq!(h, "<b>x</b>"),
        other => panic!("expected markup, got {:?}", other),
    }
}

struct Decliner;

impl FragmentRenderer for Decliner {
    fn render_fragment(
        &self,
        _binding: &FragmentBinding,
        _assets_root: &str,
        _ctx: FragmentContext,
    ) -> Result<Option<String>, FragmentError> {
        Ok(None)
    }
}

#[test]
fn composite_falls_through_only_on_declined_render() {
    let target = binding("x", "#x");
    let ctx = make_fragment_context("tenant", None, "/");

    // first backend declines, second answers
    let chain = CompositeFragmentRenderer::with_wit(Decliner, DummyRenderer);
    let out = chain
        .render_fragment(&target.binding, "/tmp", ctx.clone())
        .unwrap();
    assert_eq!(out.unwrap(), "<span class=\"injected\">ok</span>");

    // first backend answers, second never consulted
    let chain = CompositeFragmentRenderer::with_wit(ByIdRenderer, DummyRenderer);
    let mut t = target;
    t.binding.id = "ok".to_string();
    let out = chain
        .render_fragment(&t.binding, "/tmp", ctx.clone())
        .unwrap();
    assert_eq!(out.unwrap(), "<em id=\"rendered\">fine</em>");

    // a missing-secrets error is final, not a fallthrough
    t.binding.id = "secrets".to_string();
    let out = chain.render_fragment(&t.binding, "/tmp", ctx.clone());
    assert!(matches!(out, Err(FragmentError::MissingSecrets(_))));

    // file-only chain goes straight to the fallback
    let chain: CompositeFragmentRenderer<Decliner, DummyRenderer> =
        CompositeFragmentRenderer::file_only(DummyRenderer);
    let out = chain.render_fragment(&t.binding, "/tmp", ctx).unwrap();
    assert_eq!(out.unwrap(), "<span class=\"injected\">ok</span>");
}

#[test]
fn fragment_context_defaults_for_anonymous_requests() {
    let ctx = make_fragment_context("acme", None, "/home");
    assert_eq!(ctx.tenant_ctx, "acme");
    assert_eq!(ctx.user_ctx, "{}");
    assert_eq!(ctx.route, "/home");
    assert_eq!(ctx.session_id, "");

    let session = SessionInfo {
        session_id: "sess-1".to_string(),
        tenant_ctx: build_tenant_ctx("dev", "acme", None, Some("u-1")),
        user_id: Some("u-1".to_string()),
    };
    let ctx = make_fragment_context("acme", Some(&session), "/home");
    assert_eq!(ctx.user_ctx, "u-1");
    assert_eq!(ctx.session_id, "sess-1");
}

#[test]
fn module_cache_remembers_compiles_by_path() {
    let mut cache: ModuleCache<String> = ModuleCache::new();
    assert!(cache.get("/a/fragments/x.wasm").is_none());
    cache.insert("/a/fragments/x.wasm".to_string(), "compiled-x".to_string());
    assert_eq!(cache.get("/a/fragments/x.wasm").unwrap(), "compiled-x");
    assert!(cache.get("/a/fragments/y.wasm").is_none());
}

#[test]
fn fragment_paths_follow_the_convention() {
    assert_eq!(
        fragment_file_path("/tmp/feature/gui/assets", "news"),
        "/tmp/feature/gui/assets/fragments/news.html"
    );
    assert_eq!(
        component_module_path("/tmp/feature/gui/assets", "news"),
        "/tmp/feature/gui/assets/fragments/news.wasm"
    );
}
