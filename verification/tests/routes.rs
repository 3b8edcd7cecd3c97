//! Route resolution: normalization, pattern matching, precedence, totality,
//! and the end-to-end serve/redirect decision.

use greentic_gui::packs::{
    AuthManifest, AuthRoute, FeatureManifest, FeatureRoute, FragmentBinding, LayoutConfig,
    LayoutManifest,
};
use greentic_gui::paths::{normalize_route, path_matches};
use greentic_gui::routing::{login_path, plan_route, RoutePlan};
use greentic_gui::tenant::{
    feature_route_summaries, AuthPack, FeaturePack, LayoutPack, PackLocation, RouteSource,
    TenantGuiConfig,
};

fn location(root: &str) -> PackLocation {
    PackLocation {
        root: root.to_string(),
        assets: format!("{}/gui/assets", root),
        secret_requirements: vec![],
        pack_hint: None,
    }
}

fn sample_config() -> TenantGuiConfig {
    TenantGuiConfig {
        tenant_did: "tenant".to_string(),
        domain: "example.com".to_string(),
        layout: LayoutPack {
            manifest: LayoutManifest {
                kind: "gui-layout".to_string(),
                layout: LayoutConfig {
                    slots: vec![
                        "header".to_string(),
                        "menu".to_string(),
                        "main".to_string(),
                        "footer".to_string(),
                    ],
                    entrypoint_html: "index.html".to_string(),
                    spa: true,
                    slot_selectors: vec![],
                },
            },
            location: location("/tmp/layout"),
            secret_requirements: vec![],
        },
        auth: None,
        skin: None,
        telemetry: None,
        features: vec![FeaturePack {
            manifest: FeatureManifest {
                kind: "gui-feature".to_string(),
                routes: vec![FeatureRoute {
                    path: "/invoices".to_string(),
                    authenticated: true,
                    html: "invoices.html".to_string(),
                }],
                digital_workers: vec![],
                fragments: vec![],
            },
            location: location("/tmp/feature"),
            secret_requirements: vec![],
        }],
        secret_requirements: vec![],
    }
}

fn auth_pack(first_route: &str) -> AuthPack {
    AuthPack {
        manifest: AuthManifest {
            kind: "gui-auth".to_string(),
            routes: vec![AuthRoute {
                path: first_route.to_string(),
                public: true,
                html: "login.html".to_string(),
            }],
            oauth: "{}".to_string(),
            ui_bindings: "{}".to_string(),
        },
        location: location("/tmp/auth"),
        secret_requirements: vec![],
    }
}

#[test]
fn matches_feature_route() {
    let cfg = sample_config();
    let resolved = cfg.resolve_route("/invoices").expect("route");
    assert!(resolved.authenticated);
    assert!(resolved.html_path.ends_with("invoices.html"));
}

#[test]
fn normalization_collapses_and_prefixes() {
    assert_eq!(normalize_route("a//b"), "/a/b");
    // the whole Unicode whitespace set is trimmed, as str::trim would
    assert_eq!(normalize_route("\u{a0}/a/b\u{3000}"), "/a/b");
    assert_eq!(normalize_route("//a///b"), "/a/b");
    assert_eq!(normalize_route("  /a/b  "), "/a/b");
    assert_eq!(normalize_route(""), "/");
    assert_eq!(normalize_route("   "), "/");
    assert_eq!(normalize_route("/already/normal"), "/already/normal");
}

#[test]
fn normalization_is_idempotent() {
    for raw in ["a//b", "  //x ", "", "///", "/ok", "no-slash"] {
        let once = normalize_route(raw);
        let twice = normalize_route(&once);
        assert_eq!(once, twice);
        assert!(once.starts_with('/'));
        assert!(!once.contains("//"));
    }
}

#[test]
fn prefix_pattern_matches_docs() {
    assert!(path_matches("/docs", "/docs/*"));
    assert!(path_matches("/docs/", "/docs/*"));
    assert!(path_matches("/docs/api", "/docs/*"));
    assert!(!path_matches("/documentation", "/docs/*"));
}

#[test]
fn exact_pattern_matches_after_normalization() {
    assert!(path_matches("/a/b", "a//b"));
    assert!(!path_matches("/a/b", "/a/c"));
}

#[test]
fn feature_route_outranks_auth_route_on_same_path() {
    let mut cfg = sample_config();
    // an auth route on the very same path, serving a different document
    cfg.auth = Some(AuthPack {
        manifest: AuthManifest {
            kind: "gui-auth".to_string(),
            routes: vec![AuthRoute {
                path: "/invoices".to_string(),
                public: true,
                html: "auth-invoices.html".to_string(),
            }],
            oauth: "{}".to_string(),
            ui_bindings: "{}".to_string(),
        },
        location: location("/tmp/auth"),
        secret_requirements: vec![],
    });
    let resolved = cfg.resolve_route("/invoices").expect("route");
    assert!(matches!(resolved.source, RouteSource::Feature));
    assert!(resolved.html_path.ends_with("invoices.html"));
    // the feature route's flag wins: authenticated, not the auth route's public
    assert!(resolved.authenticated);
}

#[test]
fn resolution_is_total() {
    let cfg = sample_config();
    for path in ["/", "/nowhere", "weird//path", "", "/invoices/sub"] {
        let resolved = cfg.resolve_route(path);
        assert!(resolved.is_some());
    }
    let fallback = cfg.resolve_route("/no-such-page").unwrap();
    assert!(matches!(fallback.source, RouteSource::Layout));
    assert!(fallback.html_path.ends_with("index.html"));
    assert!(!fallback.authenticated);
    assert!(fallback.fragments.is_empty());
}

#[test]
fn auth_route_used_when_no_feature_matches() {
    let mut cfg = sample_config();
    cfg.auth = Some(auth_pack("/login"));
    let resolved = cfg.resolve_route("/login").expect("route");
    assert!(matches!(resolved.source, RouteSource::Auth));
    assert!(resolved.html_path.ends_with("login.html"));
    // public route: no session required
    assert!(!resolved.authenticated);
    assert!(resolved.fragments.is_empty());
}

#[test]
fn unauthenticated_request_redirects_to_default_login() {
    let cfg = sample_config();
    match plan_route(&cfg, "/invoices", false) {
        RoutePlan::Redirect(target) => assert_eq!(target, "/login"),
        RoutePlan::Serve(_) => panic!("expected a redirect"),
    }
}

#[test]
fn unauthenticated_request_redirects_to_auth_packs_first_route() {
    let mut cfg = sample_config();
    cfg.auth = Some(auth_pack("/signin"));
    match plan_route(&cfg, "/invoices", false) {
        RoutePlan::Redirect(target) => assert_eq!(target, "/signin"),
        RoutePlan::Serve(_) => panic!("expected a redirect"),
    }
}

#[test]
fn authenticated_request_serves_feature_document_with_fragments() {
    let mut cfg = sample_config();
    cfg.features[0].manifest.fragments = vec![FragmentBinding {
        id: "invoice-list".to_string(),
        selector: "#list".to_string(),
        component_world: "greentic:gui/gui-fragment@1.0.0".to_string(),
        component_name: "invoices".to_string(),
    }];
    match plan_route(&cfg, "/invoices", true) {
        RoutePlan::Serve(rr) => {
            assert_eq!(rr.html_path, "/tmp/feature/gui/assets/invoices.html");
            assert_eq!(rr.fragments.len(), 1);
            assert_eq!(rr.fragments[0].binding.id, "invoice-list");
            assert_eq!(rr.fragments[0].assets_root, "/tmp/feature/gui/assets");
        }
        RoutePlan::Redirect(_) => panic!("expected a serve"),
    }
}

#[test]
fn route_summaries_flatten_feature_routes_in_order() {
    let mut cfg = sample_config();
    cfg.features[0].manifest.routes.push(FeatureRoute {
        path: "/invoices/*".to_string(),
        authenticated: false,
        html: "invoices.html".to_string(),
    });
    let summaries = feature_route_summaries(&cfg);
    assert_eq!(
        summaries,
        vec![("/invoices".to_string(), true), ("/invoices/*".to_string(), false)]
    );
}

#[test]
fn login_path_defaults_without_auth_pack() {
    assert_eq!(login_path(None), "/login");
    let auth = auth_pack("/welcome");
    assert_eq!(login_path(Some(&auth)), "/welcome");
}
