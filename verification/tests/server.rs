//! Server-side pieces: workers, configuration, cookies, sessions, and the
//! embedded SDK script.

use greentic_gui::auth::{
    auth_callback_path, make_expired_session_cookie, make_issue_cookie, make_session_cookie,
    session_cookie,
};
use greentic_gui::config::{parse_bool_flag, parse_required_scopes, AppConfig, TenantMap};
use greentic_gui::session::{build_tenant_ctx, describe_requirements, StubSessionManager};
use greentic_gui::text::decimal_string;
use greentic_gui::sdk::sdk_script;
use greentic_gui::worker::{
    build_host_worker_request, gateway_config_from_env_values, missing_secrets_from_payload,
    retry_step, stub_echo_response, MissingSecretsError, MissingSecretsPayload, RetryStep,
    StubWorkerBackend, WorkerHost,
};
use greentic_gui::secrets::SecretRequirement;

#[test]
fn stub_backend_echoes_payload() {
    let host = WorkerHost::new(StubWorkerBackend);
    let tenant_ctx = build_tenant_ctx("dev", "tenant", None, None);
    let resp = host
        .invoke_worker(
            tenant_ctx,
            "worker.echo",
            "{\"x\":1}".to_string(),
            "2024-05-01T00:00:00Z".to_string(),
        )
        .unwrap();
    assert_eq!(resp.messages.len(), 1);
    assert_eq!(resp.messages[0].payload, "{\"x\":1}");
    assert_eq!(resp.messages[0].kind, "stub");
    assert_eq!(resp.worker_id, "worker.echo");
}

#[test]
fn worker_request_carries_context_and_version() {
    let mut ctx = build_tenant_ctx("dev", "acme", Some("gui"), Some("u-1"));
    ctx.session_id = Some("sess-9".to_string());
    let req = build_host_worker_request(ctx, "worker.mail", "{}".to_string(), "t0".to_string());
    assert_eq!(req.version, "1.0.0");
    assert_eq!(req.worker_id, "worker.mail");
    assert_eq!(req.session_id.as_deref(), Some("sess-9"));
    assert_eq!(req.timestamp_utc, "t0");
    assert!(req.correlation_id.is_none());
    let resp = stub_echo_response(req);
    assert_eq!(resp.session_id.as_deref(), Some("sess-9"));
}

#[test]
fn missing_secrets_report_needs_a_nonempty_list() {
    let empty = MissingSecretsPayload {
        missing_secrets: vec![],
        pack_hint: None,
        pack_ref: Some("p@1".to_string()),
        message: None,
    };
    assert!(missing_secrets_from_payload(empty).is_none());

    let some = MissingSecretsPayload {
        missing_secrets: vec![SecretRequirement {
            key: "db/password".to_string(),
            scope: None,
            description: None,
        }],
        pack_hint: None,
        pack_ref: Some("p@1".to_string()),
        message: Some("add the secret".to_string()),
    };
    let err = missing_secrets_from_payload(some).unwrap();
    // the pack hint falls back to the pack reference
    assert_eq!(err.pack_hint.as_deref(), Some("p@1"));
    assert_eq!(err.message.as_deref(), Some("add the secret"));
}

#[test]
fn missing_secrets_message_counts_requirements() {
    let one = MissingSecretsError {
        missing_secrets: vec![SecretRequirement {
            key: "a".to_string(),
            scope: None,
            description: None,
        }],
        pack_hint: None,
        message: None,
    };
    assert_eq!(one.message_text(), "missing secrets (1 requirement)");
    let two = MissingSecretsError {
        missing_secrets: vec![
            SecretRequirement { key: "a".to_string(), scope: None, description: None },
            SecretRequirement { key: "b".to_string(), scope: None, description: None },
        ],
        pack_hint: None,
        message: None,
    };
    assert_eq!(two.message_text(), "missing secrets (2 requirements)");
}

#[test]
fn retry_schedule_backs_off_linearly() {
    assert_eq!(retry_step(0, 2, 200), RetryStep::RetryAfterMs(200));
    assert_eq!(retry_step(1, 2, 200), RetryStep::RetryAfterMs(400));
    assert_eq!(retry_step(2, 2, 200), RetryStep::GiveUp);
    assert_eq!(retry_step(0, 0, 200), RetryStep::GiveUp);
}

#[test]
fn gateway_config_defaults() {
    assert!(gateway_config_from_env_values(None, None, None, None, None).is_none());
    let cfg = gateway_config_from_env_values(
        Some("https://gw.example".to_string()),
        None,
        Some("gw-token".to_string()),
        None,
        None,
    )
    .unwrap();
    assert_eq!(cfg.base_url, "https://gw.example");
    assert_eq!(cfg.timeout_ms, 5000);
    assert_eq!(cfg.retries, 2);
    assert_eq!(cfg.backoff_base_ms, 200);
    let cfg = gateway_config_from_env_values(
        Some("https://gw.example".to_string()),
        Some(1500),
        None,
        Some(5),
        Some(50),
    )
    .unwrap();
    assert_eq!(cfg.timeout_ms, 1500);
    assert_eq!(cfg.retries, 5);
    assert_eq!(cfg.backoff_base_ms, 50);
}

fn config_with_map(entries: Vec<(&str, &str)>) -> AppConfig {
    greentic_gui::config::app_config_from_env_values(
        None,
        None,
        Some("fallback-tenant".to_string()),
        None,
        None,
        None,
        None,
        None,
        None,
        None,
        None,
        None,
        None,
        None,
        None,
        None,
        None,
        TenantMap(
            entries
                .into_iter()
                .map(|(d, t)| (d.to_string(), t.to_string()))
                .collect(),
        ),
    )
}

#[test]
fn tenant_for_domain_prefers_mapped_entries() {
    let cfg = config_with_map(vec![("acme.example", "acme"), ("zeta.example", "zeta")]);
    assert_eq!(cfg.tenant_for_domain("acme.example"), "acme");
    assert_eq!(cfg.tenant_for_domain("zeta.example"), "zeta");
    assert_eq!(cfg.tenant_for_domain("unknown.example"), "fallback-tenant");
}

#[test]
fn app_config_defaults() {
    let cfg = config_with_map(vec![]);
    assert_eq!(cfg.bind_addr, "0.0.0.0:8080");
    assert_eq!(cfg.pack_root, "packs");
    assert_eq!(cfg.env_id, "dev");
    assert_eq!(cfg.default_team, "gui");
    assert!(!cfg.enable_cors);
    assert_eq!(cfg.pack_cache_ttl_secs, 0);
    assert!(cfg.distributor.is_none());
    assert!(cfg.oauth_required_scopes.is_empty());
}

#[test]
fn bool_flags_accept_one_and_true() {
    assert!(parse_bool_flag("1"));
    assert!(parse_bool_flag("true"));
    assert!(parse_bool_flag("TRUE"));
    assert!(parse_bool_flag("True"));
    assert!(!parse_bool_flag("0"));
    assert!(!parse_bool_flag("yes"));
    assert!(!parse_bool_flag(""));
}

#[test]
fn scope_lists_drop_empty_segments_and_trim() {
    assert_eq!(
        parse_required_scopes("openid, profile ,email"),
        vec!["openid", "profile", "email"]
    );
    assert_eq!(parse_required_scopes(""), Vec::<String>::new());
    assert_eq!(parse_required_scopes(",,"), Vec::<String>::new());
    assert_eq!(parse_required_scopes("a,,b"), vec!["a", "b"]);
}

#[test]
fn callback_path_names_the_provider() {
    assert_eq!(auth_callback_path("github"), "/auth/github/callback");
}

#[test]
fn session_cookies_spell_out_their_attributes() {
    assert_eq!(
        make_session_cookie("abc", 0),
        "greentic_session_id=abc; Path=/; HttpOnly; SameSite=Lax"
    );
    assert_eq!(
        make_session_cookie("abc", 3600),
        "greentic_session_id=abc; Path=/; HttpOnly; SameSite=Lax; Max-Age=3600"
    );
    assert_eq!(
        make_expired_session_cookie("abc"),
        "greentic_session_id=abc; Path=/; Expires=Thu, 01 Jan 1970 00:00:00 GMT; HttpOnly; SameSite=Lax"
    );
}

#[test]
fn issue_cookie_is_the_short_form() {
    assert_eq!(
        make_issue_cookie("abc"),
        "greentic_session_id=abc; Path=/; HttpOnly"
    );
}

#[test]
fn oauth_validation_needs_every_mandatory_value() {
    let mut cfg = config_with_map(vec![]);
    let err = greentic_gui::config::oauth_validation_inputs(&cfg).unwrap_err();
    assert_eq!(err, "OAUTH_JWKS_URL not set");
    cfg.oauth_jwks_url = Some("https://jwks.example".to_string());
    let err = greentic_gui::config::oauth_validation_inputs(&cfg).unwrap_err();
    assert_eq!(err, "OAUTH_ISSUER not set");
    cfg.oauth_issuer = Some("https://issuer.example".to_string());
    let err = greentic_gui::config::oauth_validation_inputs(&cfg).unwrap_err();
    assert_eq!(err, "OAUTH_AUDIENCE not set");
    cfg.oauth_audience = Some("gui".to_string());
    let v = greentic_gui::config::oauth_validation_inputs(&cfg).unwrap();
    assert_eq!(v.jwks_url, "https://jwks.example");
    assert_eq!(v.issuer, "https://issuer.example");
    assert_eq!(v.audience, "gui");
    assert_eq!(v.env_id, "dev");
}

#[test]
fn session_cookie_is_found_among_other_cookies() {
    assert_eq!(
        session_cookie("a=1; greentic_session_id=sess-42; b=2"),
        Some("sess-42".to_string())
    );
    assert_eq!(session_cookie("greentic_session_id=x"), Some("x".to_string()));
    assert_eq!(session_cookie("a=1; b=2"), None);
    assert_eq!(session_cookie(""), None);
    // the first matching cookie wins
    assert_eq!(
        session_cookie("greentic_session_id=first; greentic_session_id=second"),
        Some("first".to_string())
    );
}

#[test]
fn stub_sessions_follow_the_token() {
    let mgr = StubSessionManager;
    let none = mgr.validate(None).unwrap();
    assert!(none.is_none());
    let some = mgr.validate(Some("tok-1".to_string())).unwrap().unwrap();
    assert_eq!(some.session_id, "tok-1");
    assert_eq!(some.tenant_ctx.tenant, "stub");
    assert_eq!(some.user_id.as_deref(), Some("user-stub"));

    let ctx = build_tenant_ctx("dev", "acme", None, Some("u-1"));
    let issued = mgr.issue(ctx, "gui".to_string()).unwrap();
    assert_eq!(issued.session_id.len(), 36);
    assert_eq!(issued.user_id.as_deref(), Some("u-1"));
}

#[test]
fn decimal_rendering_is_exact() {
    assert_eq!(decimal_string(0), "0");
    assert_eq!(decimal_string(7), "7");
    assert_eq!(decimal_string(10), "10");
    assert_eq!(decimal_string(90210), "90210");
    assert_eq!(decimal_string(u64::MAX), "18446744073709551615");
}

#[test]
fn sdk_script_is_served_verbatim() {
    let script = sdk_script();
    assert!(script.starts_with("// Greentic GUI SDK"));
    assert!(script.contains("global.GreenticGUI"));
    assert!(!describe_requirements().is_empty());
}
