//! Digital-worker invocation.
//!
//! A worker runs remotely behind a pluggable backend.  The crate builds the
//! request, contains the backend's outcomes (a missing-secrets report is a
//! distinct, operator-actionable condition), and decides the retry schedule;
//! performing the HTTP call and sleeping between attempts are the caller's.

use vstd::prelude::*;
use crate::secrets::{SecretRequirement, clone_opt_string};
use crate::session::TenantCtx;
use crate::text::{decimal_seq, decimal_string};

verus! {

/// One message a worker returned.
#[derive(Debug)]
pub struct HostWorkerMessage {
    pub kind: String,
    pub payload: String,
}

/// A request to a worker: who asks, which worker, and the payload (JSON
/// text).
#[derive(Debug)]
pub struct HostWorkerRequest {
    pub version: String,
    pub tenant: TenantCtx,
    pub worker_id: String,
    pub payload: String,
    pub timestamp_utc: String,
    pub correlation_id: Option<String>,
    pub session_id: Option<String>,
    pub thread_id: Option<String>,
}

/// A worker's response: the request's identity echoed back, plus messages.
#[derive(Debug)]
pub struct HostWorkerResponse {
    pub version: String,
    pub tenant: TenantCtx,
    pub worker_id: String,
    pub timestamp_utc: String,
    pub messages: Vec<HostWorkerMessage>,
    pub correlation_id: Option<String>,
    pub session_id: Option<String>,
    pub thread_id: Option<String>,
}

/// The upstream runtime reported missing secrets.
#[derive(Debug)]
pub struct MissingSecretsError {
    pub missing_secrets: Vec<SecretRequirement>,
    pub pack_hint: Option<String>,
    pub message: Option<String>,
}

/// The one-line description of a missing-secrets report:
/// `missing secrets (N requirement)` or `... requirements)`.
pub open spec fn missing_secrets_text(n: nat) -> Seq<char> {
    "missing secrets ("@ + decimal_seq(n) + (if n == 1 {
        " requirement)"@
    } else {
        " requirements)"@
    })
}

impl MissingSecretsError {
    /// Describe the report in one line.
    pub fn message_text(&self) -> (r: String)
        ensures
            r@ == missing_secrets_text(self.missing_secrets@.len()),
    {
        let n = self.missing_secrets.len();
        let mut out = String::from_str("missing secrets (");
        let count = decimal_string(n as u64);
        out.append(count.as_str());
        if n == 1 {
            out.append(" requirement)");
        } else {
            out.append(" requirements)");
        }
        proof {
            assert(out@ =~= missing_secrets_text(self.missing_secrets@.len()));
        }
        out
    }
}

/// A worker invocation failed.
#[derive(Debug)]
pub enum WorkerError {
    /// The upstream runtime reported missing secrets.
    MissingSecrets(MissingSecretsError),
    /// The gateway failed or answered with an error status.
    Gateway(String),
}

/// A backend that carries a request to a worker and returns its response.
/// Implementations decide; the host states what it does with every outcome.
pub trait WorkerBackend {
    fn invoke(&self, req: HostWorkerRequest) -> Result<HostWorkerResponse, WorkerError>;
}

/// The response the stub backend gives: the request's identity echoed back,
/// with a single message of kind `stub` carrying the request's payload.
pub fn stub_echo_response(req: HostWorkerRequest) -> (r: HostWorkerResponse)
    ensures
        r.version == req.version,
        r.tenant == req.tenant,
        r.worker_id == req.worker_id,
        r.timestamp_utc == req.timestamp_utc,
        r.messages@.len() == 1,
        r.messages@[0].kind@ == "stub"@,
        r.messages@[0].payload == req.payload,
        r.correlation_id == req.correlation_id,
        r.session_id == req.session_id,
        r.thread_id == req.thread_id,
{
    let mut messages: Vec<HostWorkerMessage> = Vec::new();
    messages.push(HostWorkerMessage { kind: String::from_str("stub"), payload: req.payload });
    HostWorkerResponse {
        version: req.version,
        tenant: req.tenant,
        worker_id: req.worker_id,
        timestamp_utc: req.timestamp_utc,
        messages,
        correlation_id: req.correlation_id,
        session_id: req.session_id,
        thread_id: req.thread_id,
    }
}

/// Stub backend for development: echoes the payload back, marked as stubbed.
#[derive(Debug)]
pub struct StubWorkerBackend;

impl WorkerBackend for StubWorkerBackend {
    fn invoke(&self, req: HostWorkerRequest) -> Result<HostWorkerResponse, WorkerError> {
        Ok(stub_echo_response(req))
    }
}

/// Configuration of a remote worker gateway.
#[derive(Debug)]
pub struct WorkerGatewayConfig {
    pub base_url: String,
    pub timeout_ms: u64,
    pub auth_token: Option<String>,
    pub retries: u32,
    pub backoff_base_ms: u64,
}

/// Gateway configuration from raw environment values, with the defaults the
/// gateway uses: 5000 ms timeout, 2 retries, 200 ms base backoff.  Without a
/// gateway address there is no gateway configuration.
pub fn gateway_config_from_env_values(
    url: Option<String>,
    timeout_ms: Option<u64>,
    auth_token: Option<String>,
    retries: Option<u32>,
    backoff_ms: Option<u64>,
) -> (r: Option<WorkerGatewayConfig>)
    ensures
        (r is Some) == url is Some,
        url matches Some(u) ==> {
            let c = r->Some_0;
            &&& c.base_url == u
            &&& c.timeout_ms == (match timeout_ms {
                Some(t) => t,
                None => 5000u64,
            })
            &&& c.auth_token == auth_token
            &&& c.retries == (match retries {
                Some(t) => t,
                None => 2u32,
            })
            &&& c.backoff_base_ms == (match backoff_ms {
                Some(t) => t,
                None => 200u64,
            })
        },
{
    match url {
        Some(base_url) => {
            let timeout = match timeout_ms {
                Some(t) => t,
                None => 5000,
            };
            let retry_count = match retries {
                Some(t) => t,
                None => 2,
            };
            let backoff = match backoff_ms {
                Some(t) => t,
                None => 200,
            };
            Some(
                WorkerGatewayConfig {
                    base_url,
                    timeout_ms: timeout,
                    auth_token,
                    retries: retry_count,
                    backoff_base_ms: backoff,
                },
            )
        },
        None => None,
    }
}

/// What the gateway loop does after a failed attempt.
#[derive(Debug, PartialEq, Eq, Structural)]
pub enum RetryStep {
    /// No attempts remain: surface the last error.
    GiveUp,
    /// Wait this many milliseconds, then try again.
    RetryAfterMs(u64),
}

/// The retry schedule after failed attempt number `attempt` (counting from
/// zero): linear backoff, `backoff_base_ms * (attempt + 1)`, until `retries`
/// retries have been spent.
pub fn retry_step(attempt: u32, retries: u32, backoff_base_ms: u64) -> (r: RetryStep)
    requires
        attempt <= retries,
        backoff_base_ms * (retries + 1) <= u64::MAX,
    ensures
        r == (if attempt < retries {
            RetryStep::RetryAfterMs((backoff_base_ms * (attempt + 1) as u64) as u64)
        } else {
            RetryStep::GiveUp
        }),
{
    if attempt < retries {
        proof {
            vstd::arithmetic::mul::lemma_mul_inequality(
                attempt as int + 1,
                retries as int + 1,
                backoff_base_ms as int,
            );
            assert((attempt as int + 1) * (backoff_base_ms as int) == (backoff_base_ms as int) * (
            attempt as int + 1)) by (nonlinear_arith);
            assert((retries as int + 1) * (backoff_base_ms as int) == (backoff_base_ms as int) * (
            retries as int + 1)) by (nonlinear_arith);
        }
        RetryStep::RetryAfterMs(backoff_base_ms * ((attempt + 1) as u64))
    } else {
        RetryStep::GiveUp
    }
}

/// A body the gateway answered with on a failed status, parsed by the
/// caller: the missing-secrets list and the hints that may accompany it.
#[derive(Debug)]
pub struct MissingSecretsPayload {
    pub missing_secrets: Vec<SecretRequirement>,
    pub pack_hint: Option<String>,
    pub pack_ref: Option<String>,
    pub message: Option<String>,
}

/// Decide whether a failed gateway answer is a missing-secrets report: only
/// a payload that actually lists missing secrets counts, and the pack hint
/// falls back to the pack reference.
pub fn missing_secrets_from_payload(p: MissingSecretsPayload) -> (r: Option<MissingSecretsError>)
    ensures
        (r is Some) == (p.missing_secrets@.len() > 0),
        p.missing_secrets@.len() > 0 ==> {
            let e = r->Some_0;
            &&& e.missing_secrets == p.missing_secrets
            &&& e.pack_hint == (if p.pack_hint is Some {
                p.pack_hint
            } else {
                p.pack_ref
            })
            &&& e.message == p.message
        },
{
    if p.missing_secrets.len() == 0 {
        None
    } else {
        let pack_hint = match p.pack_hint {
            Some(h) => Some(h),
            None => p.pack_ref,
        };
        Some(
            MissingSecretsError {
                missing_secrets: p.missing_secrets,
                pack_hint,
                message: p.message,
            },
        )
    }
}

/// The request sent to a worker: fixed protocol version, the caller's
/// context and payload, the caller-supplied timestamp, and the session id
/// taken from the tenant context.
pub fn build_host_worker_request(
    tenant_ctx: TenantCtx,
    worker_id: &str,
    payload: String,
    timestamp_utc: String,
) -> (r: HostWorkerRequest)
    ensures
        r.version@ == "1.0.0"@,
        r.tenant == tenant_ctx,
        r.worker_id@ == worker_id@,
        r.payload == payload,
        r.timestamp_utc == timestamp_utc,
        r.correlation_id is None,
        r.session_id == tenant_ctx.session_id,
        r.thread_id is None,
{
    let session_id = clone_opt_string(&tenant_ctx.session_id);
    HostWorkerRequest {
        version: String::from_str("1.0.0"),
        tenant: tenant_ctx,
        worker_id: String::from_str(worker_id),
        payload,
        timestamp_utc,
        correlation_id: None,
        session_id,
        thread_id: None,
    }
}

/// Host wrapper that delegates worker invocations to a backend.
#[derive(Debug)]
pub struct WorkerHost<B> {
    pub backend: B,
}

impl<B: WorkerBackend> WorkerHost<B> {
    /// A host over the given backend.
    pub fn new(backend: B) -> (r: Self)
        ensures
            r.backend == backend,
    {
        WorkerHost { backend }
    }

    /// Invoke a worker: build the request from the context, the payload and
    /// the caller-supplied timestamp, and hand it to the backend.  The
    /// backend decides the outcome; a missing-secrets error passes through
    /// as itself, distinct from other failures.
    pub fn invoke_worker(
        &self,
        tenant_ctx: TenantCtx,
        worker_id: &str,
        payload: String,
        timestamp_utc: String,
    ) -> Result<HostWorkerResponse, WorkerError> {
        let req = build_host_worker_request(tenant_ctx, worker_id, payload, timestamp_utc);
        self.backend.invoke(req)
    }
}

} // verus!
