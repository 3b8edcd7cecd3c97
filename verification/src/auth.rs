//! Session cookies for the auth endpoints.
//!
//! The OAuth exchange itself is an external collaborator; what the crate
//! decides is the session cookie's exact text and how the session id is
//! recovered from a request's `Cookie` header.

use vstd::prelude::*;
use crate::paths::trim_spaces;
use crate::text::{decimal_seq, decimal_string, push_char, starts_with_str};

verus! {

/// Query parameters of the OAuth callback.
#[derive(Debug)]
pub struct CallbackQuery {
    pub id_token: Option<String>,
}

/// The callback path an OAuth start request redirects back to:
/// `/auth/<provider>/callback`.
pub fn auth_callback_path(provider: &str) -> (r: String)
    ensures
        r@ == "/auth/"@ + provider@ + "/callback"@,
{
    let mut out = String::from_str("/auth/");
    out.append(provider);
    out.append("/callback");
    proof {
        assert(out@ =~= "/auth/"@ + provider@ + "/callback"@);
    }
    out
}

/// The session cookie set after a successful login: bound to the whole
/// site, HTTP-only, lax same-site, and expiring after the session TTL when
/// one is configured.
pub open spec fn session_cookie_text(session_id: Seq<char>, ttl_secs: nat) -> Seq<char> {
    "greentic_session_id="@ + session_id + "; Path=/; HttpOnly; SameSite=Lax"@ + (if ttl_secs == 0 {
        Seq::empty()
    } else {
        "; Max-Age="@ + decimal_seq(ttl_secs)
    })
}

/// The `Set-Cookie` value establishing a session.
pub fn make_session_cookie(session_id: &str, ttl_secs: u64) -> (r: String)
    ensures
        r@ == session_cookie_text(session_id@, ttl_secs as nat),
{
    let mut out = String::from_str("greentic_session_id=");
    out.append(session_id);
    out.append("; Path=/; HttpOnly; SameSite=Lax");
    if ttl_secs != 0 {
        out.append("; Max-Age=");
        let ttl = decimal_string(ttl_secs);
        out.append(ttl.as_str());
    }
    proof {
        assert(out@ =~= session_cookie_text(session_id@, ttl_secs as nat));
    }
    out
}

/// The shorter `Set-Cookie` value used when a session is issued through
/// the session endpoint: site-wide and HTTP-only.
pub fn make_issue_cookie(session_id: &str) -> (r: String)
    ensures
        r@ == "greentic_session_id="@ + session_id@ + "; Path=/; HttpOnly"@,
{
    let mut out = String::from_str("greentic_session_id=");
    out.append(session_id);
    out.append("; Path=/; HttpOnly");
    proof {
        assert(out@ =~= "greentic_session_id="@ + session_id@ + "; Path=/; HttpOnly"@);
    }
    out
}

/// The `Set-Cookie` value dropping a session at logout: the same cookie,
/// expired in the past.
pub open spec fn expired_cookie_text(session_id: Seq<char>) -> Seq<char> {
    "greentic_session_id="@ + session_id
        + "; Path=/; Expires=Thu, 01 Jan 1970 00:00:00 GMT; HttpOnly; SameSite=Lax"@
}

/// The `Set-Cookie` value that drops the session cookie.
pub fn make_expired_session_cookie(session_id: &str) -> (r: String)
    ensures
        r@ == expired_cookie_text(session_id@),
{
    let mut out = String::from_str("greentic_session_id=");
    out.append(session_id);
    out.append("; Path=/; Expires=Thu, 01 Jan 1970 00:00:00 GMT; HttpOnly; SameSite=Lax");
    proof {
        assert(out@ =~= expired_cookie_text(session_id@));
    }
    out
}

/// `s` cut at every semicolon.
pub open spec fn split_semicolons(s: Seq<char>) -> Seq<Seq<char>>
    decreases s.len(),
{
    if s.len() == 0 {
        seq![Seq::<char>::empty()]
    } else {
        let rest = split_semicolons(s.drop_last());
        if s.last() == ';' {
            rest.push(Seq::<char>::empty())
        } else {
            rest.update(rest.len() - 1, rest.last().push(s.last()))
        }
    }
}

/// The session id in a list of cookie segments: the first segment that,
/// trimmed, starts with `greentic_session_id=`, minus that prefix.
pub open spec fn session_id_in(segs: Seq<Seq<char>>) -> Option<Seq<char>>
    decreases segs.len(),
{
    if segs.len() == 0 {
        None
    } else {
        let t = trim_spaces(segs.first());
        if "greentic_session_id="@.is_prefix_of(t) {
            Some(t.subrange("greentic_session_id="@.len() as int, t.len() as int))
        } else {
            session_id_in(segs.drop_first())
        }
    }
}

fn split_cookie_segments(s: &str) -> (r: Vec<String>)
    ensures
        crate::config::string_views(r@) == split_semicolons(s@),
{
    let n = s.unicode_len();
    let mut out: Vec<String> = Vec::new();
    let mut cur = String::new();
    proof {
        assert(s@.subrange(0, 0) =~= Seq::<char>::empty());
        assert(crate::config::string_views(out@).push(cur@) =~= split_semicolons(
            s@.subrange(0, 0),
        ));
    }
    let mut i: usize = 0;
    while i < n
        invariant
            i <= n,
            n == s@.len(),
            crate::config::string_views(out@).push(cur@) == split_semicolons(
                s@.subrange(0, i as int),
            ),
        decreases n - i,
    {
        let c = s.get_char(i);
        proof {
            let pre = s@.subrange(0, i + 1);
            assert(pre.drop_last() =~= s@.subrange(0, i as int));
            assert(pre.last() == s@[i as int]);
        }
        if c == ';' {
            let ghost old_out = out@;
            let ghost old_cur = cur@;
            out.push(cur);
            cur = String::new();
            proof {
                assert(crate::config::string_views(out@) =~~= crate::config::string_views(
                    old_out,
                ).push(old_cur));
                assert(crate::config::string_views(out@).push(cur@) =~~= split_semicolons(
                    s@.subrange(0, i + 1),
                ));
            }
        } else {
            let ghost prev_cur = cur@;
            push_char(&mut cur, c);
            proof {
                let old_list = crate::config::string_views(out@).push(prev_cur);
                assert(old_list.last() == prev_cur);
                assert(old_list.update(old_list.len() - 1, old_list.last().push(s@[i as int]))
                    =~~= crate::config::string_views(out@).push(cur@));
            }
        }
        i += 1;
    }
    proof {
        assert(s@.subrange(0, n as int) =~= s@);
    }
    let ghost old_out = out@;
    let ghost old_cur = cur@;
    out.push(cur);
    proof {
        assert(crate::config::string_views(out@) =~~= crate::config::string_views(old_out).push(
            old_cur,
        ));
    }
    out
}

/// The session id carried by a request's `Cookie` header value, if any:
/// cookies are separated by `;`, surrounding whitespace is ignored, and the
/// first `greentic_session_id=` cookie wins.
pub fn session_cookie(cookies: &str) -> (r: Option<String>)
    ensures
        match r {
            Some(v) => session_id_in(split_semicolons(cookies@)) == Some(v@),
            None => session_id_in(split_semicolons(cookies@)) is None,
        },
{
    let segments = split_cookie_segments(cookies);
    let n = segments.len();
    proof {
        assert(crate::config::string_views(segments@).subrange(0, n as int)
            =~= crate::config::string_views(segments@));
    }
    let mut i: usize = 0;
    while i < n
        invariant
            i <= n,
            n == segments@.len(),
            crate::config::string_views(segments@) == split_semicolons(cookies@),
            session_id_in(split_semicolons(cookies@)) == session_id_in(
                crate::config::string_views(segments@).subrange(i as int, n as int),
            ),
        decreases n - i,
    {
        proof {
            let rest = crate::config::string_views(segments@).subrange(i as int, n as int);
            assert(rest.first() == segments@[i as int]@);
            assert(rest.drop_first() =~= crate::config::string_views(segments@).subrange(
                i + 1,
                n as int,
            ));
        }
        let trimmed = crate::paths::trim_path_spaces(segments[i].as_str());
        if starts_with_str(trimmed.as_str(), "greentic_session_id=") {
            let plen = "greentic_session_id=".unicode_len();
            let value = trimmed.as_str().substring_char(plen, trimmed.as_str().unicode_len());
            return Some(String::from_str(value));
        }
        i += 1;
    }
    proof {
        assert(crate::config::string_views(segments@).subrange(n as int, n as int) =~= Seq::<
            Seq<char>,
        >::empty());
    }
    None
}

} // verus!
