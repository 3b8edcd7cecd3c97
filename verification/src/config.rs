//! Server configuration assembled from environment values.
//!
//! Reading the environment is the caller's; the defaults, the boolean-flag
//! convention, the comma-separated scope list and the domain-to-tenant map
//! are decided here.

use vstd::prelude::*;
use crate::paths::{trim_path_spaces, trim_spaces};
use crate::text::str_eq;

verus! {

/// Maps request domains to tenant identifiers.
#[derive(Debug)]
pub struct TenantMap(pub Vec<(String, String)>);

/// How to reach the remote pack distributor.
#[derive(Debug)]
pub struct DistributorConfig {
    pub base_url: String,
    pub environment_id: String,
    pub auth_token: Option<String>,
    /// JSON text mapping pack kind to pack reference, parsed by the caller.
    pub packs_json: Option<String>,
}

/// Runtime configuration for the GUI server.
#[derive(Debug)]
pub struct AppConfig {
    pub bind_addr: String,
    pub pack_root: String,
    pub default_tenant: String,
    pub enable_cors: bool,
    pub pack_cache_ttl_secs: u64,
    pub session_ttl_secs: u64,
    pub tenant_map: TenantMap,
    pub env_id: String,
    pub default_team: String,
    pub distributor: Option<DistributorConfig>,
    pub oauth_broker_url: Option<String>,
    pub oauth_issuer: Option<String>,
    pub oauth_audience: Option<String>,
    pub oauth_jwks_url: Option<String>,
    pub oauth_required_scopes: Vec<String>,
}

/// The tenant the map names for this domain: the first matching entry.
pub open spec fn domain_lookup(entries: Seq<(String, String)>, domain: Seq<char>) -> Option<
    Seq<char>,
>
    decreases entries.len(),
{
    if entries.len() == 0 {
        None
    } else if entries.first().0@ == domain {
        Some(entries.first().1@)
    } else {
        domain_lookup(entries.drop_first(), domain)
    }
}

impl AppConfig {
    /// The tenant served under this domain: the mapped tenant, or the
    /// default tenant for an unmapped domain.
    pub fn tenant_for_domain<'a>(&'a self, domain: &'a str) -> (r: &'a str)
        ensures
            r@ == (match domain_lookup(self.tenant_map.0@, domain@) {
                Some(t) => t,
                None => self.default_tenant@,
            }),
    {
        let n = self.tenant_map.0.len();
        proof {
            assert(self.tenant_map.0@.subrange(0, n as int) =~= self.tenant_map.0@);
        }
        let mut i: usize = 0;
        while i < n
            invariant
                i <= n,
                n == self.tenant_map.0@.len(),
                domain_lookup(self.tenant_map.0@, domain@) == domain_lookup(
                    self.tenant_map.0@.subrange(i as int, n as int),
                    domain@,
                ),
            decreases n - i,
        {
            proof {
                let rest = self.tenant_map.0@.subrange(i as int, n as int);
                assert(rest.first() == self.tenant_map.0@[i as int]);
                assert(rest.drop_first() =~= self.tenant_map.0@.subrange(i + 1, n as int));
            }
            if str_eq(self.tenant_map.0[i].0.as_str(), domain) {
                return self.tenant_map.0[i].1.as_str();
            }
            i += 1;
        }
        proof {
            assert(self.tenant_map.0@.subrange(n as int, n as int) =~= Seq::<(
                String,
                String,
            )>::empty());
        }
        self.default_tenant.as_str()
    }
}

/// The convention for boolean environment flags: `1`, or `true` in any
/// letter case.
pub open spec fn flag_true(s: Seq<char>) -> bool {
    s == "1"@ || (s.len() == 4 && (s[0] == 't' || s[0] == 'T') && (s[1] == 'r' || s[1] == 'R') && (
    s[2] == 'u' || s[2] == 'U') && (s[3] == 'e' || s[3] == 'E'))
}

/// Whether an environment value switches a flag on.
pub fn parse_bool_flag(s: &str) -> (r: bool)
    ensures
        r == flag_true(s@),
{
    if str_eq(s, "1") {
        return true;
    }
    let n = s.unicode_len();
    n == 4 && {
        let c0 = s.get_char(0);
        let c1 = s.get_char(1);
        let c2 = s.get_char(2);
        let c3 = s.get_char(3);
        (c0 == 't' || c0 == 'T') && (c1 == 'r' || c1 == 'R') && (c2 == 'u' || c2 == 'U') && (c3
            == 'e' || c3 == 'E')
    }
}

/// `s` cut at every comma; each run between commas is one segment, so `n`
/// commas give `n + 1` segments.
pub open spec fn split_commas(s: Seq<char>) -> Seq<Seq<char>>
    decreases s.len(),
{
    if s.len() == 0 {
        seq![Seq::<char>::empty()]
    } else {
        let rest = split_commas(s.drop_last());
        if s.last() == ',' {
            rest.push(Seq::<char>::empty())
        } else {
            rest.update(rest.len() - 1, rest.last().push(s.last()))
        }
    }
}

/// The scope list a comma-separated value names: empty segments are
/// dropped, the rest are trimmed of surrounding whitespace, in order.
pub open spec fn scopes_of(segs: Seq<Seq<char>>) -> Seq<Seq<char>>
    decreases segs.len(),
{
    if segs.len() == 0 {
        Seq::empty()
    } else {
        let rest = scopes_of(segs.drop_last());
        if segs.last().len() == 0 {
            rest
        } else {
            rest.push(trim_spaces(segs.last()))
        }
    }
}

/// The views of a list of strings.
pub open spec fn string_views(v: Seq<String>) -> Seq<Seq<char>> {
    v.map_values(|x: String| x@)
}

/// Parse a comma-separated scope list: drop empty segments and trim the
/// surrounding whitespace of the rest.
pub fn parse_required_scopes(s: &str) -> (r: Vec<String>)
    ensures
        string_views(r@) == scopes_of(split_commas(s@)),
{
    let n = s.unicode_len();
    let mut out: Vec<String> = Vec::new();
    let mut cur = String::new();
    let ghost mut segs: Seq<Seq<char>> = Seq::empty();
    proof {
        assert(s@.subrange(0, 0) =~= Seq::<char>::empty());
        assert(split_commas(s@.subrange(0, 0)) =~= segs.push(cur@));
        assert(scopes_of(segs) =~= string_views(out@));
    }
    let mut i: usize = 0;
    while i < n
        invariant
            i <= n,
            n == s@.len(),
            split_commas(s@.subrange(0, i as int)) == segs.push(cur@),
            string_views(out@) == scopes_of(segs),
        decreases n - i,
    {
        let c = s.get_char(i);
        proof {
            let pre = s@.subrange(0, i + 1);
            assert(pre.drop_last() =~= s@.subrange(0, i as int));
            assert(pre.last() == s@[i as int]);
        }
        if c == ',' {
            let ghost old_segs = segs;
            let ghost old_cur = cur@;
            let ghost old_out = out@;
            if cur.unicode_len() > 0 {
                out.push(trim_path_spaces(cur.as_str()));
            }
            proof {
                segs = segs.push(old_cur);
                assert(segs.drop_last() =~= old_segs);
                assert(scopes_of(segs) == string_views(out@)) by {
                    if old_cur.len() == 0 {
                        assert(scopes_of(segs) == scopes_of(old_segs));
                        assert(out@ == old_out);
                    } else {
                        assert(scopes_of(segs) =~~= scopes_of(old_segs).push(
                            trim_spaces(old_cur),
                        ));
                        assert(string_views(out@) =~~= string_views(old_out).push(
                            trim_spaces(old_cur),
                        ));
                    }
                }
            }
            cur = String::new();
            proof {
                assert(split_commas(s@.subrange(0, i + 1)) =~~= segs.push(cur@));
            }
        } else {
            let ghost prev_cur = cur@;
            crate::text::push_char(&mut cur, c);
            proof {
                let old_list = segs.push(prev_cur);
                assert(old_list.last() == prev_cur);
                assert(old_list.update(old_list.len() - 1, old_list.last().push(s@[i as int]))
                    =~~= segs.push(cur@));
            }
        }
        i += 1;
    }
    proof {
        assert(s@.subrange(0, n as int) =~= s@);
    }
    let ghost old_segs = segs;
    let ghost old_cur = cur@;
    let ghost old_out = out@;
    if cur.unicode_len() > 0 {
        out.push(trim_path_spaces(cur.as_str()));
    }
    proof {
        let full = old_segs.push(old_cur);
        assert(full.drop_last() =~= old_segs);
        assert(scopes_of(full) == string_views(out@)) by {
            if old_cur.len() == 0 {
                assert(scopes_of(full) == scopes_of(old_segs));
                assert(out@ == old_out);
            } else {
                assert(scopes_of(full) =~~= scopes_of(old_segs).push(trim_spaces(old_cur)));
                assert(string_views(out@) =~~= string_views(old_out).push(trim_spaces(old_cur)));
            }
        }
    }
    out
}

/// What token validation needs from the configuration, once every
/// mandatory OAuth value is present.
#[derive(Debug)]
pub struct OauthValidationInputs {
    pub jwks_url: String,
    pub issuer: String,
    pub audience: String,
    pub required_scopes: Vec<String>,
    pub env_id: String,
}

/// Collect what token validation needs, failing on the first missing
/// mandatory OAuth value with a message naming it.
pub fn oauth_validation_inputs(cfg: &AppConfig) -> (r: Result<OauthValidationInputs, String>)
    ensures
        (r is Ok) == (cfg.oauth_jwks_url is Some && cfg.oauth_issuer is Some
            && cfg.oauth_audience is Some),
        r matches Ok(v) ==> {
            &&& Some(v.jwks_url) == cfg.oauth_jwks_url
            &&& Some(v.issuer) == cfg.oauth_issuer
            &&& Some(v.audience) == cfg.oauth_audience
            &&& v.required_scopes@ == cfg.oauth_required_scopes@
            &&& v.env_id == cfg.env_id
        },
        r matches Err(m) ==> m@ == (if cfg.oauth_jwks_url is None {
            "OAUTH_JWKS_URL not set"@
        } else if cfg.oauth_issuer is None {
            "OAUTH_ISSUER not set"@
        } else {
            "OAUTH_AUDIENCE not set"@
        }),
{
    let jwks_url = match &cfg.oauth_jwks_url {
        Some(v) => v.clone(),
        None => {
            return Err(String::from_str("OAUTH_JWKS_URL not set"));
        },
    };
    let issuer = match &cfg.oauth_issuer {
        Some(v) => v.clone(),
        None => {
            return Err(String::from_str("OAUTH_ISSUER not set"));
        },
    };
    let audience = match &cfg.oauth_audience {
        Some(v) => v.clone(),
        None => {
            return Err(String::from_str("OAUTH_AUDIENCE not set"));
        },
    };
    let mut required_scopes: Vec<String> = Vec::new();
    let ns = cfg.oauth_required_scopes.len();
    let mut i: usize = 0;
    while i < ns
        invariant
            i <= ns,
            ns == cfg.oauth_required_scopes@.len(),
            required_scopes@ =~= cfg.oauth_required_scopes@.subrange(0, i as int),
        decreases ns - i,
    {
        required_scopes.push(cfg.oauth_required_scopes[i].clone());
        i += 1;
    }
    proof {
        assert(cfg.oauth_required_scopes@.subrange(0, ns as int) =~= cfg.oauth_required_scopes@);
    }
    Ok(OauthValidationInputs {
        jwks_url,
        issuer,
        audience,
        required_scopes,
        env_id: cfg.env_id.clone(),
    })
}

/// Assemble the server configuration from raw environment values, with the
/// server's defaults: bind to `0.0.0.0:8080`, packs under `packs`, tenant
/// `tenant-default`, environment `dev`, team `gui`, CORS off, zero TTLs,
/// and a distributor section only when a distributor address is set (its
/// environment falling back to the server's).
pub fn app_config_from_env_values(
    bind_addr: Option<String>,
    pack_root: Option<String>,
    default_tenant: Option<String>,
    enable_cors: Option<String>,
    env_id: Option<String>,
    default_team: Option<String>,
    oauth_broker_url: Option<String>,
    oauth_issuer: Option<String>,
    oauth_audience: Option<String>,
    oauth_jwks_url: Option<String>,
    oauth_required_scopes: Option<String>,
    distributor_url: Option<String>,
    distributor_env: Option<String>,
    distributor_token: Option<String>,
    distributor_packs: Option<String>,
    pack_cache_ttl_secs: Option<u64>,
    session_ttl_secs: Option<u64>,
    tenant_map: TenantMap,
) -> (r: AppConfig)
    ensures
        r.bind_addr@ == (match bind_addr {
            Some(v) => v@,
            None => "0.0.0.0:8080"@,
        }),
        r.pack_root@ == (match pack_root {
            Some(v) => v@,
            None => "packs"@,
        }),
        r.default_tenant@ == (match default_tenant {
            Some(v) => v@,
            None => "tenant-default"@,
        }),
        r.enable_cors == (match enable_cors {
            Some(v) => flag_true(v@),
            None => false,
        }),
        r.env_id@ == (match env_id {
            Some(v) => v@,
            None => "dev"@,
        }),
        r.default_team@ == (match default_team {
            Some(v) => v@,
            None => "gui"@,
        }),
        r.oauth_broker_url == oauth_broker_url,
        r.oauth_issuer == oauth_issuer,
        r.oauth_audience == oauth_audience,
        r.oauth_jwks_url == oauth_jwks_url,
        string_views(r.oauth_required_scopes@) == (match oauth_required_scopes {
            Some(v) => scopes_of(split_commas(v@)),
            None => Seq::empty(),
        }),
        (r.distributor is Some) == distributor_url is Some,
        distributor_url matches Some(u) ==> {
            let d = r.distributor->Some_0;
            &&& d.base_url == u
            &&& d.environment_id@ == (match distributor_env {
                Some(v) => v@,
                None => r.env_id@,
            })
            &&& d.auth_token == distributor_token
            &&& d.packs_json == distributor_packs
        },
        r.pack_cache_ttl_secs == (match pack_cache_ttl_secs {
            Some(v) => v,
            None => 0u64,
        }),
        r.session_ttl_secs == (match session_ttl_secs {
            Some(v) => v,
            None => 0u64,
        }),
        r.tenant_map == tenant_map,
{
    let env = match env_id {
        Some(v) => v,
        None => String::from_str("dev"),
    };
    let distributor = match distributor_url {
        Some(base_url) => {
            let environment_id = match distributor_env {
                Some(v) => v,
                None => env.clone(),
            };
            Some(
                DistributorConfig {
                    base_url,
                    environment_id,
                    auth_token: distributor_token,
                    packs_json: distributor_packs,
                },
            )
        },
        None => None,
    };
    let scopes = match oauth_required_scopes {
        Some(v) => parse_required_scopes(v.as_str()),
        None => Vec::new(),
    };
    proof {
        if oauth_required_scopes is None {
            assert(string_views(Seq::<String>::empty()) =~= Seq::<Seq<char>>::empty());
        }
    }
    AppConfig {
        bind_addr: match bind_addr {
            Some(v) => v,
            None => String::from_str("0.0.0.0:8080"),
        },
        pack_root: match pack_root {
            Some(v) => v,
            None => String::from_str("packs"),
        },
        default_tenant: match default_tenant {
            Some(v) => v,
            None => String::from_str("tenant-default"),
        },
        enable_cors: match enable_cors {
            Some(v) => parse_bool_flag(v.as_str()),
            None => false,
        },
        pack_cache_ttl_secs: match pack_cache_ttl_secs {
            Some(v) => v,
            None => 0,
        },
        session_ttl_secs: match session_ttl_secs {
            Some(v) => v,
            None => 0,
        },
        tenant_map,
        env_id: env,
        default_team: match default_team {
            Some(v) => v,
            None => String::from_str("gui"),
        },
        distributor,
        oauth_broker_url,
        oauth_issuer,
        oauth_audience,
        oauth_jwks_url,
        oauth_required_scopes: scopes,
    }
}

} // verus!
