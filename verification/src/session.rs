//! Sessions as the route decision sees them.
//!
//! Session issuance and validation against a real store are external
//! collaborators; the crate only carries the validated session's identity
//! and offers a deterministic stub for development and tests.

use vstd::prelude::*;

verus! {

/// A session lookup failed.
#[derive(Debug)]
pub enum SessionError {
    /// The token does not name a live session.
    Invalid,
    /// The session provider itself failed.
    Provider(String),
}

/// The tenant context a session is bound to.
#[derive(Debug)]
pub struct TenantCtx {
    pub env: String,
    pub tenant: String,
    pub team: Option<String>,
    pub user_id: Option<String>,
    pub session_id: Option<String>,
}

/// A validated session: its id, the tenant context it belongs to, and the
/// user it identifies, if any.
#[derive(Debug)]
pub struct SessionInfo {
    pub session_id: String,
    pub tenant_ctx: TenantCtx,
    pub user_id: Option<String>,
}

/// Build a tenant context from its parts.
pub fn build_tenant_ctx(env: &str, tenant: &str, team: Option<&str>, user: Option<&str>) -> (r:
    TenantCtx)
    ensures
        r.env@ == env@,
        r.tenant@ == tenant@,
        match (r.team, team) {
            (Some(t), Some(s)) => t@ == s@,
            (None, None) => true,
            _ => false,
        },
        match (r.user_id, user) {
            (Some(u), Some(s)) => u@ == s@,
            (None, None) => true,
            _ => false,
        },
        r.session_id is None,
{
    let team_id = match team {
        Some(t) => Some(String::from_str(t)),
        None => None,
    };
    let user_id = match user {
        Some(u) => Some(String::from_str(u)),
        None => None,
    };
    TenantCtx {
        env: String::from_str(env),
        tenant: String::from_str(tenant),
        team: team_id,
        user_id,
        session_id: None,
    }
}

/// Relies on uuid::Uuid::new_v4 and its hyphenated rendering: a fresh random
/// version-4 UUID, printed as 36 characters.  Nothing more is assumed of a
/// random value.
#[verifier::external_body]
fn fresh_session_key() -> (r: String)
    ensures
        r@.len() == 36,
{
    uuid::Uuid::new_v4().to_string()
}

/// Deterministic session manager for development and tests: any token is
/// accepted as a session for the stub tenant.
#[derive(Debug)]
pub struct StubSessionManager;

impl StubSessionManager {
    /// Accept any present token as a session of the stub tenant; no token
    /// means no session.
    pub fn validate(&self, token: Option<String>) -> (r: Result<
        Option<SessionInfo>,
        SessionError,
    >)
        ensures
            r is Ok,
            (r->Ok_0 is Some) == token is Some,
            token matches Some(t) ==> {
                let info = r->Ok_0->Some_0;
                &&& info.session_id@ == t@
                &&& info.tenant_ctx.env@ == "dev"@
                &&& info.tenant_ctx.tenant@ == "stub"@
                &&& info.user_id matches Some(u) && u@ == "user-stub"@
            },
    {
        match token {
            Some(id) => Ok(
                Some(
                    SessionInfo {
                        session_id: id,
                        tenant_ctx: build_tenant_ctx("dev", "stub", None, None),
                        user_id: Some(String::from_str("user-stub")),
                    },
                ),
            ),
            None => Ok(None),
        }
    }

    /// Issue a fresh session bound to the given context.  The session id is
    /// a fresh random key; everything else is determined by the context.
    pub fn issue(&self, ctx: TenantCtx, flow_id: String) -> (r: Result<SessionInfo, SessionError>)
        ensures
            r is Ok,
            ({
                let info = r->Ok_0;
                &&& info.user_id == ctx.user_id
                &&& info.tenant_ctx == ctx
                &&& info.session_id@.len() == 36
            }),
    {
        let _ = flow_id;
        let user_id = match &ctx.user_id {
            Some(u) => Some(u.clone()),
            None => None,
        };
        Ok(SessionInfo { session_id: fresh_session_key(), user_id, tenant_ctx: ctx })
    }
}

/// Body of a session-issue request: the user to bind and an optional team.
#[derive(Debug)]
pub struct SessionIssueRequest {
    pub user_id: String,
    pub team: Option<String>,
}

/// A note for operators on which integrations this build still stubs out:
/// returned rather than logged, so the caller decides where it goes.
pub fn describe_requirements() -> (r: String)
    ensures
        r@ == "real greentic integrations not linked yet; wire the distributor, session, telemetry and messaging services to their adapters"@,
{
    String::from_str(
        "real greentic integrations not linked yet; wire the distributor, session, telemetry and messaging services to their adapters",
    )
}

} // verus!
