//! The per-request route decision.
//!
//! Given a tenant's configuration, the inbound path and whether a valid
//! session accompanies the request, the decision is either to serve the
//! resolved document (with its fragments) or to redirect to the login
//! route.  Reading the document's bytes and validating the session token
//! are the caller's; everything decided here is decided exactly.

use vstd::prelude::*;
use crate::paths::normalize_spec;
use crate::session::SessionInfo;
use crate::tenant::{
    AuthPack, ResolvedRoute, TenantGuiConfig, auth_route_flags, feature_flags, first_true,
    resolved_route_ok, route_flags,
};

verus! {

/// What the HTTP layer should do with a request.
#[derive(Debug)]
pub enum RouteDecision {
    /// Serve this document, with its fragments and the validated session.
    Serve(Box<RouteContent>),
    /// Redirect to this path.
    Redirect(String),
    /// Unreachable for a tenant with a valid layout: resolution is total.
    NotFound,
}

/// The document to serve, the fragments to render into it, and the session
/// the request carried.
#[derive(Debug)]
pub struct RouteContent {
    pub html: String,
    pub fragments: Vec<crate::tenant::FragmentTarget>,
    pub session: Option<SessionInfo>,
}

/// The step before any document is read: serve the resolved route, or
/// redirect to login.
#[derive(Debug)]
pub enum RoutePlan {
    /// Read the route's document and serve it.
    Serve(ResolvedRoute),
    /// Redirect to this path instead.
    Redirect(String),
}

/// Where an unauthenticated request is sent: the auth pack's first route,
/// or `/login` when the tenant has no auth pack or it declares no routes.
pub open spec fn login_path_spec(auth: Option<AuthPack>) -> Seq<char> {
    match auth {
        Some(a) => if a.manifest.routes@.len() > 0 {
            a.manifest.routes@[0].path@
        } else {
            "/login"@
        },
        None => "/login"@,
    }
}

/// The login target for this tenant.
pub fn login_path(auth: Option<&AuthPack>) -> (r: String)
    ensures
        match auth {
            Some(a) => r@ == login_path_spec(Some(*a)),
            None => r@ == login_path_spec(None),
        },
{
    if let Some(a) = auth {
        if a.manifest.routes.len() > 0 {
            return a.manifest.routes[0].path.clone();
        }
    }
    String::from_str("/login")
}

/// Whether the route this path resolves to requires an authenticated
/// session: the matched feature route's `authenticated` flag, the negation
/// of the matched auth route's `public` flag, or `false` for the layout
/// fallback.
pub open spec fn resolved_authenticated(cfg: TenantGuiConfig, path: Seq<char>) -> bool {
    let np = normalize_spec(path);
    let ff = first_true(feature_flags(cfg.features@, np));
    if ff is Some {
        let f = cfg.features@[ff->Some_0];
        let rf = first_true(route_flags(f.manifest.routes@, np));
        rf is Some && f.manifest.routes@[rf->Some_0].authenticated
    } else if cfg.auth is Some && first_true(
        auth_route_flags(cfg.auth->Some_0.manifest.routes@, np),
    ) is Some {
        let a = cfg.auth->Some_0;
        !a.manifest.routes@[first_true(auth_route_flags(a.manifest.routes@, np))->Some_0].public
    } else {
        false
    }
}

/// Decide a request: resolve the path, and either serve the resolved route
/// or, when it requires a session and none is present, redirect to login.
pub fn plan_route(cfg: &TenantGuiConfig, path: &str, has_session: bool) -> (r: RoutePlan)
    ensures
        (r is Redirect) == (resolved_authenticated(*cfg, path@) && !has_session),
        match r {
            RoutePlan::Redirect(target) => target@ == login_path_spec(cfg.auth),
            RoutePlan::Serve(rr) => resolved_route_ok(*cfg, path@, rr) && rr.authenticated
                == resolved_authenticated(*cfg, path@),
        },
{
    let resolved = cfg.resolve_route(path);
    match resolved {
        Some(rr) => {
            if rr.authenticated && !has_session {
                RoutePlan::Redirect(login_path(cfg.auth.as_ref()))
            } else {
                RoutePlan::Serve(rr)
            }
        },
        None => {
            // resolution is total, so this branch cannot be reached
            RoutePlan::Redirect(login_path(cfg.auth.as_ref()))
        },
    }
}

/// Package a served route for the HTTP layer, once the caller has read the
/// resolved document's bytes.
pub fn build_route_content(html: String, rr: ResolvedRoute, session: Option<SessionInfo>) -> (r:
    RouteDecision)
    ensures
        r matches RouteDecision::Serve(c) && c.html@ == html@ && c.fragments@ == rr.fragments@
            && c.session == session,
{
    RouteDecision::Serve(
        Box::new(RouteContent { html, fragments: rr.fragments, session }),
    )
}

} // verus!
