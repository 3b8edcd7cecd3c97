//! The fragment rendering pipeline.
//!
//! Each fragment binding is rendered through a chain of renderer backends;
//! a renderer may produce markup, decline (no opinion), or fail.  Failures
//! are contained per fragment: a missing-secrets failure becomes a visible
//! placeholder naming the fragment, any other failure a generic placeholder,
//! and the page is always produced.

use vstd::prelude::*;
use crate::html::{apply_fragments, injected_all, pairs_view, parsed_doc, rendered};
use crate::packs::FragmentBinding;
use crate::session::SessionInfo;
use crate::tenant::FragmentTarget;
use crate::text::contains_seq;
use crate::text::contains_str;

verus! {

/// The request context handed to a fragment renderer: tenant, user (or the
/// fixed anonymous marker), route, and session id (or empty).
#[derive(Debug)]
pub struct FragmentContext {
    pub tenant_ctx: String,
    pub user_ctx: String,
    pub route: String,
    pub session_id: String,
}

impl Clone for FragmentContext {
    fn clone(&self) -> (res: Self)
        ensures
            res == *self,
    {
        FragmentContext {
            tenant_ctx: self.tenant_ctx.clone(),
            user_ctx: self.user_ctx.clone(),
            route: self.route.clone(),
            session_id: self.session_id.clone(),
        }
    }
}

/// A fragment could not be rendered.
#[derive(Debug)]
pub enum FragmentError {
    /// The renderer itself failed.
    Renderer(String),
    /// Manipulating the host document failed.
    Html(String),
    /// The renderer reported missing secrets: an operator-actionable
    /// condition, surfaced distinctly from generic failure.
    MissingSecrets(String),
}

/// A renderer backend: produces markup for a binding, declines with
/// `Ok(None)`, or fails.  Implementations decide; nothing is assumed of
/// their results, and the pipeline states what it does with every outcome.
pub trait FragmentRenderer {
    fn render_fragment(
        &self,
        binding: &FragmentBinding,
        assets_root: &str,
        ctx: FragmentContext,
    ) -> Result<Option<String>, FragmentError>;
}

/// The file a static fragment is read from: `<assets>/fragments/<id>.html`.
pub open spec fn fragment_file_path_spec(assets_root: Seq<char>, id: Seq<char>) -> Seq<char> {
    assets_root + "/fragments/"@ + id + ".html"@
}

/// The file a static fragment is read from.
pub fn fragment_file_path(assets_root: &str, id: &str) -> (r: String)
    ensures
        r@ == fragment_file_path_spec(assets_root@, id@),
{
    let mut out = String::from_str(assets_root);
    out.append("/fragments/");
    out.append(id);
    out.append(".html");
    proof {
        assert(out@ =~= fragment_file_path_spec(assets_root@, id@));
    }
    out
}

/// The file a compiled fragment module is loaded from:
/// `<assets>/fragments/<component name>.wasm`.
pub open spec fn component_module_path_spec(assets_root: Seq<char>, name: Seq<char>) -> Seq<char> {
    assets_root + "/fragments/"@ + name + ".wasm"@
}

/// The file a compiled fragment module is loaded from.
pub fn component_module_path(assets_root: &str, name: &str) -> (r: String)
    ensures
        r@ == component_module_path_spec(assets_root@, name@),
{
    let mut out = String::from_str(assets_root);
    out.append("/fragments/");
    out.append(name);
    out.append(".wasm");
    proof {
        assert(out@ =~= component_module_path_spec(assets_root@, name@));
    }
    out
}

/// Classify what a sandboxed module invocation came back with: success is
/// markup; an error naming the missing-secrets marker is reclassified as
/// missing secrets; any other error is no opinion, so the chain can fall
/// through to the next backend.
pub fn classify_invoke_result(r: Result<String, String>) -> (c: Result<
    Option<String>,
    FragmentError,
>)
    ensures
        match r {
            Ok(markup) => c matches Ok(m) && m matches Some(h) && h == markup,
            Err(e) => if contains_seq(e@, "missing_secrets"@) {
                c matches Err(f) && f matches FragmentError::MissingSecrets(m) && m == e
            } else {
                c matches Ok(m) && m is None
            },
        },
{
    match r {
        Ok(markup) => Ok(Some(markup)),
        Err(e) => {
            if contains_str(e.as_str(), "missing_secrets") {
                Err(FragmentError::MissingSecrets(e))
            } else {
                Ok(None)
            }
        },
    }
}

/// What the composite chain does with its first backend's outcome.
#[derive(Debug)]
pub enum ChainStep {
    /// The outcome is final: markup, or a contained error.
    Done(Result<Option<String>, FragmentError>),
    /// The backend declined; consult the fallback backend.
    TryFallback,
}

/// The chain rule: markup and errors are final, a declined render falls
/// through to the next backend.
pub fn composite_step(first: Result<Option<String>, FragmentError>) -> (r: ChainStep)
    ensures
        match first {
            Ok(m) => match m {
                Some(h) => r matches ChainStep::Done(d) && d matches Ok(dm) && dm matches Some(dh)
                    && dh == h,
                None => r is TryFallback,
            },
            Err(e) => r matches ChainStep::Done(d) && d matches Err(de) && de == e,
        },
{
    match first {
        Ok(Some(h)) => ChainStep::Done(Ok(Some(h))),
        Ok(None) => ChainStep::TryFallback,
        Err(e) => ChainStep::Done(Err(e)),
    }
}

/// Composite renderer: tries the sandboxed-module backend first and falls
/// through to the file backend only when the first declines.  This lets a
/// pack ship a compiled module while keeping a file as a fallback.
#[derive(Debug)]
pub struct CompositeFragmentRenderer<W, F> {
    pub wit: Option<W>,
    pub file: F,
}

impl<W, F> CompositeFragmentRenderer<W, F> {
    /// A chain that tries the module backend, then the file backend.
    pub fn with_wit(wit: W, file: F) -> (r: Self)
        ensures
            r.wit is Some,
    {
        CompositeFragmentRenderer { wit: Some(wit), file }
    }

    /// A chain with only the file backend.
    pub fn file_only(file: F) -> (r: Self)
        ensures
            r.wit is None,
    {
        CompositeFragmentRenderer { wit: None, file }
    }
}

impl<W: FragmentRenderer, F: FragmentRenderer> FragmentRenderer for CompositeFragmentRenderer<
    W,
    F,
> {
    fn render_fragment(
        &self,
        binding: &FragmentBinding,
        assets_root: &str,
        ctx: FragmentContext,
    ) -> Result<Option<String>, FragmentError> {
        if let Some(w) = &self.wit {
            let first = w.render_fragment(binding, assets_root, ctx.clone());
            match composite_step(first) {
                ChainStep::Done(outcome) => {
                    return outcome;
                },
                ChainStep::TryFallback => {},
            }
        }
        self.file.render_fragment(binding, assets_root, ctx)
    }
}

/// The cached value for a path: the first matching entry.
pub open spec fn path_cache_lookup<T>(entries: Seq<(String, T)>, path: Seq<char>) -> Option<T>
    decreases entries.len(),
{
    if entries.len() == 0 {
        None
    } else if entries.first().0@ == path {
        Some(entries.first().1)
    } else {
        path_cache_lookup(entries.drop_first(), path)
    }
}

/// Cache of compiled fragment modules, keyed by the module file's path, so
/// that a module is compiled once and reused across requests.  The compiled
/// artifact is the caller's type; the cache only decides hits and misses,
/// and entries stay for the life of the process.
#[derive(Debug)]
pub struct ModuleCache<T> {
    entries: Vec<(String, T)>,
}

impl<T> ModuleCache<T> {
    /// The cache's contents, as the sequence the lookups run over.
    pub closed spec fn view_entries(&self) -> Seq<(String, T)> {
        self.entries@
    }

    /// An empty cache.
    pub fn new() -> (r: Self)
        ensures
            r.view_entries().len() == 0,
    {
        ModuleCache { entries: Vec::new() }
    }

    /// The cached module for this path, if one was compiled before.
    pub fn get(&self, path: &str) -> (r: Option<&T>)
        ensures
            match r {
                Some(t) => path_cache_lookup(self.view_entries(), path@) == Some(*t),
                None => path_cache_lookup(self.view_entries(), path@) is None,
            },
    {
        let n = self.entries.len();
        proof {
            assert(self.entries@.subrange(0, n as int) =~= self.entries@);
        }
        let mut i: usize = 0;
        while i < n
            invariant
                i <= n,
                n == self.entries@.len(),
                path_cache_lookup(self.entries@, path@) == path_cache_lookup(
                    self.entries@.subrange(i as int, n as int),
                    path@,
                ),
            decreases n - i,
        {
            proof {
                let rest = self.entries@.subrange(i as int, n as int);
                assert(rest.first() == self.entries@[i as int]);
                assert(rest.drop_first() =~= self.entries@.subrange(i + 1, n as int));
            }
            if crate::text::str_eq(self.entries[i].0.as_str(), path) {
                return Some(&self.entries[i].1);
            }
            i += 1;
        }
        proof {
            assert(self.entries@.subrange(n as int, n as int) =~= Seq::<(String, T)>::empty());
        }
        None
    }

    /// Remember the compiled module for this path.  The new entry shadows
    /// any older one for the same path; every other path keeps its answer.
    pub fn insert(&mut self, path: String, module: T)
        ensures
            path_cache_lookup(final(self).view_entries(), path@) == Some(module),
            forall|p: Seq<char>|
                p != path@ ==> #[trigger] path_cache_lookup(final(self).view_entries(), p)
                    == path_cache_lookup(old(self).view_entries(), p),
    {
        self.entries.insert(0, (path, module));
        proof {
            assert(self.entries@.drop_first() =~= old(self).entries@);
        }
    }
}

/// The context a binding is rendered with: the tenant, the session's user id
/// or the fixed anonymous marker `{}`, the route, and the session id or the
/// empty string.
pub fn make_fragment_context(tenant_did: &str, session: Option<&SessionInfo>, route: &str) -> (ctx:
    FragmentContext)
    ensures
        ctx.tenant_ctx@ == tenant_did@,
        ctx.route@ == route@,
        ctx.user_ctx@ == (match session {
            Some(s) => match s.user_id {
                Some(u) => u@,
                None => "{}"@,
            },
            None => "{}"@,
        }),
        ctx.session_id@ == (match session {
            Some(s) => s.session_id@,
            None => ""@,
        }),
{
    let user_ctx = match session {
        Some(s) => match &s.user_id {
            Some(u) => u.clone(),
            None => String::from_str("{}"),
        },
        None => String::from_str("{}"),
    };
    let session_id = match session {
        Some(s) => s.session_id.clone(),
        None => String::new(),
    };
    proof {
        reveal_strlit("");
    }
    FragmentContext {
        tenant_ctx: String::from_str(tenant_did),
        user_ctx,
        route: String::from_str(route),
        session_id,
    }
}

/// The visible placeholder for a fragment whose renderer reported missing
/// secrets: tagged with the binding id and carrying the exact text
/// `missing secrets for fragment`.
pub open spec fn missing_secrets_markup(id: Seq<char>) -> Seq<char> {
    "<div class=\"fragment-error\" data-fragment-id=\""@ + id
        + "\">missing secrets for fragment</div>"@
}

/// The visible placeholder for a fragment whose renderer failed outright.
pub open spec fn render_failed_markup(id: Seq<char>) -> Seq<char> {
    "<div class=\"fragment-error\" data-fragment-id=\""@ + id + "\">fragment render failed</div>"@
}

/// The missing-secrets placeholder for this binding.
pub fn missing_secrets_placeholder(id: &str) -> (r: String)
    ensures
        r@ == missing_secrets_markup(id@),
{
    let mut out = String::from_str("<div class=\"fragment-error\" data-fragment-id=\"");
    out.append(id);
    out.append("\">missing secrets for fragment</div>");
    proof {
        assert(out@ =~= missing_secrets_markup(id@));
    }
    out
}

/// The generic failure placeholder for this binding.
pub fn render_failed_placeholder(id: &str) -> (r: String)
    ensures
        r@ == render_failed_markup(id@),
{
    let mut out = String::from_str("<div class=\"fragment-error\" data-fragment-id=\"");
    out.append(id);
    out.append("\">fragment render failed</div>");
    proof {
        assert(out@ =~= render_failed_markup(id@));
    }
    out
}

/// What gets grafted into the page for one binding, given its renderer
/// outcome: rendered markup as it came; nothing for a declined render; the
/// missing-secrets placeholder for a missing-secrets failure; the generic
/// placeholder for any other failure.
pub open spec fn outcome_markup_spec(id: Seq<char>, outcome: Result<Option<String>, FragmentError>) -> Option<
    Seq<char>,
> {
    match outcome {
        Ok(m) => match m {
            Some(h) => Some(h@),
            None => None,
        },
        Err(e) => match e {
            FragmentError::MissingSecrets(_) => Some(missing_secrets_markup(id)),
            _ => Some(render_failed_markup(id)),
        },
    }
}

/// What gets grafted into the page for one binding.  The page is never
/// abandoned: every failure becomes an inline placeholder.
pub fn outcome_markup(id: &str, outcome: Result<Option<String>, FragmentError>) -> (r: Option<
    String,
>)
    ensures
        match r {
            Some(rh) => outcome_markup_spec(id@, outcome) == Some(rh@),
            None => outcome_markup_spec(id@, outcome) is None,
        },
{
    match outcome {
        Ok(Some(h)) => Some(h),
        Ok(None) => None,
        Err(FragmentError::MissingSecrets(_)) => Some(missing_secrets_placeholder(id)),
        Err(_) => Some(render_failed_placeholder(id)),
    }
}

/// The (selector, markup) pairs the pipeline injects, in binding order:
/// binding `k` contributes the pair (its own selector, `outcome_markup` of
/// its outcome) when that markup exists, and nothing when its render was
/// declined.
pub open spec fn collected_pairs(
    bindings: Seq<FragmentTarget>,
    outcomes: Seq<Result<Option<String>, FragmentError>>,
) -> Seq<(Seq<char>, Seq<char>)>
    decreases bindings.len(),
{
    if bindings.len() == 0 {
        Seq::empty()
    } else {
        let rest = collected_pairs(bindings.drop_last(), outcomes.drop_last());
        match outcome_markup_spec(bindings.last().binding.id@, outcomes.last()) {
            Some(m) => rest.push((bindings.last().binding.selector@, m)),
            None => rest,
        }
    }
}

/// Render every binding through the renderer chain and graft the results
/// into the document, in binding order.
///
/// With no bindings the document is returned unchanged, byte for byte.
/// Otherwise there is one renderer outcome per binding such that the result
/// is the parsed document with exactly `collected_pairs` of the bindings
/// and those outcomes injected, in binding order, then serialized: each
/// binding's markup (or placeholder) lands at that binding's own selector,
/// a declined binding contributes no pair, and on overlapping selectors the
/// later binding's injection is applied last.  The outcomes themselves are
/// the renderer's and cannot be pinned here; what each outcome turns into
/// is fixed by `outcome_markup`.
pub fn inject_fragments<R: FragmentRenderer>(
    html: String,
    bindings: &Vec<FragmentTarget>,
    session: Option<&SessionInfo>,
    tenant_did: &str,
    route: &str,
    renderer: &R,
) -> (r: Result<String, FragmentError>)
    ensures
        r is Ok,
        bindings@.len() == 0 ==> r->Ok_0@ == html@,
        bindings@.len() > 0 ==> exists|outcomes: Seq<Result<Option<String>, FragmentError>>|
            outcomes.len() == bindings@.len() && r->Ok_0@ == rendered(
                injected_all(parsed_doc(html@), collected_pairs(bindings@, outcomes)),
            ),
{
    if bindings.len() == 0 {
        return Ok(html);
    }

    let n = bindings.len();
    let mut pairs: Vec<(String, String)> = Vec::new();
    let ghost mut outcomes: Seq<Result<Option<String>, FragmentError>> = Seq::empty();
    proof {
        assert(bindings@.subrange(0, 0) =~= Seq::<FragmentTarget>::empty());
        assert(pairs_view(pairs@) =~= collected_pairs(bindings@.subrange(0, 0), outcomes));
    }
    let mut i: usize = 0;
    while i < n
        invariant
            i <= n,
            n == bindings@.len(),
            outcomes.len() == i,
            pairs_view(pairs@) == collected_pairs(bindings@.subrange(0, i as int), outcomes),
        decreases n - i,
    {
        let target = &bindings[i];
        let ctx = make_fragment_context(tenant_did, session, route);
        let outcome = renderer.render_fragment(&target.binding, target.assets_root.as_str(), ctx);
        let ghost o = outcome;
        let ghost old_outcomes = outcomes;
        let ghost old_pairs = pairs@;
        let markup = outcome_markup(target.binding.id.as_str(), outcome);
        proof {
            outcomes = outcomes.push(o);
        }
        if let Some(m) = markup {
            pairs.push((target.binding.selector.clone(), m));
        }
        proof {
            let pre = bindings@.subrange(0, i + 1);
            assert(pre.drop_last() =~= bindings@.subrange(0, i as int));
            assert(pre.last() == bindings@[i as int]);
            assert(outcomes.drop_last() =~= old_outcomes);
            assert(outcomes.last() == o);
            match outcome_markup_spec(bindings@[i as int].binding.id@, o) {
                Some(mm) => {
                    assert(pairs_view(pairs@) =~~= pairs_view(old_pairs).push(
                        (bindings@[i as int].binding.selector@, mm),
                    ));
                },
                None => {
                    assert(pairs@ == old_pairs);
                },
            }
            assert(pairs_view(pairs@) =~~= collected_pairs(pre, outcomes));
        }
        i += 1;
    }
    proof {
        assert(bindings@.subrange(0, n as int) =~= bindings@);
    }

    let out = apply_fragments(html.as_str(), &pairs);
    proof {
        assert(outcomes.len() == bindings@.len() && out@ == rendered(
            injected_all(parsed_doc(html@), collected_pairs(bindings@, outcomes)),
        ));
    }
    Ok(out)
}

} // verus!
