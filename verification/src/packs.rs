//! Content packs and their manifests.
//!
//! A pack is a versioned content bundle of one of five kinds.  Each pack's
//! manifest is parsed by the caller into plain data; the functions here make
//! the decisions: dispatching a parsed manifest against the kind that was
//! asked for, locating a pack's asset root, and caching remote resolution
//! results per (tenant, kind).

use vstd::prelude::*;
use crate::secrets::SecretRequirement;
use crate::text::str_eq;

verus! {

/// The five kinds of GUI pack.
#[derive(Clone, Copy, Debug, PartialEq, Eq, Structural)]
pub enum PackKind {
    GuiLayout,
    GuiAuth,
    GuiFeature,
    GuiSkin,
    GuiTelemetry,
}

/// The `kind` discriminator string a manifest of this kind must carry.
pub open spec fn kind_discriminator(k: PackKind) -> Seq<char> {
    match k {
        PackKind::GuiLayout => "gui-layout"@,
        PackKind::GuiAuth => "gui-auth"@,
        PackKind::GuiFeature => "gui-feature"@,
        PackKind::GuiSkin => "gui-skin"@,
        PackKind::GuiTelemetry => "gui-telemetry"@,
    }
}

/// Reference to a pack held by the remote distributor.
#[derive(Clone, Debug)]
pub struct DistributorPackRef {
    pub pack_id: String,
    pub component_id: String,
    pub version: String,
}

/// Layout pack manifest.
#[derive(Debug)]
pub struct LayoutManifest {
    pub kind: String,
    pub layout: LayoutConfig,
}

/// The layout's slots, entry document, and SPA flag.
#[derive(Debug)]
pub struct LayoutConfig {
    pub slots: Vec<String>,
    pub entrypoint_html: String,
    pub spa: bool,
    pub slot_selectors: Vec<(String, String)>,
}

/// Auth pack manifest.  The OAuth and UI-binding sections are carried as raw
/// JSON text; nothing here reads them.
#[derive(Debug)]
pub struct AuthManifest {
    pub kind: String,
    pub routes: Vec<AuthRoute>,
    pub oauth: String,
    pub ui_bindings: String,
}

/// One route declared by an auth pack.
#[derive(Debug)]
pub struct AuthRoute {
    pub path: String,
    pub public: bool,
    pub html: String,
}

/// Feature pack manifest.
#[derive(Debug)]
pub struct FeatureManifest {
    pub kind: String,
    pub routes: Vec<FeatureRoute>,
    pub digital_workers: Vec<DigitalWorker>,
    pub fragments: Vec<FragmentBinding>,
}

/// One route declared by a feature pack.
#[derive(Debug)]
pub struct FeatureRoute {
    pub path: String,
    pub authenticated: bool,
    pub html: String,
}

/// A digital worker attached by a feature pack.
#[derive(Debug)]
pub struct DigitalWorker {
    pub id: String,
    pub worker_id: String,
    pub attach: WorkerAttach,
    pub routes: Vec<String>,
}

/// Where and how a digital worker attaches to the page.
#[derive(Debug)]
pub struct WorkerAttach {
    pub mode: String,
    pub selector: String,
}

/// Which module or file renders into which DOM location.
#[derive(Debug)]
pub struct FragmentBinding {
    pub id: String,
    pub selector: String,
    pub component_world: String,
    pub component_name: String,
}

impl Clone for FragmentBinding {
    fn clone(&self) -> (res: Self)
        ensures
            res == *self,
    {
        FragmentBinding {
            id: self.id.clone(),
            selector: self.selector.clone(),
            component_world: self.component_world.clone(),
            component_name: self.component_name.clone(),
        }
    }
}

/// A loaded pack: its manifest (typed for layout, auth and feature packs,
/// raw JSON text for skin and telemetry) and its filesystem root.
#[derive(Debug)]
pub enum GuiPack {
    Layout {
        manifest: LayoutManifest,
        root: String,
        secret_requirements: Vec<SecretRequirement>,
        pack_hint: Option<String>,
    },
    Auth {
        manifest: AuthManifest,
        root: String,
        secret_requirements: Vec<SecretRequirement>,
        pack_hint: Option<String>,
    },
    Feature {
        manifest: FeatureManifest,
        root: String,
        secret_requirements: Vec<SecretRequirement>,
        pack_hint: Option<String>,
    },
    Skin {
        manifest: String,
        root: String,
        secret_requirements: Vec<SecretRequirement>,
        pack_hint: Option<String>,
    },
    Telemetry {
        manifest: String,
        root: String,
        secret_requirements: Vec<SecretRequirement>,
        pack_hint: Option<String>,
    },
}

/// The filesystem root carried by a pack, whatever its kind.
pub open spec fn pack_root(p: GuiPack) -> Seq<char> {
    match p {
        GuiPack::Layout { root, .. } => root@,
        GuiPack::Auth { root, .. } => root@,
        GuiPack::Feature { root, .. } => root@,
        GuiPack::Skin { root, .. } => root@,
        GuiPack::Telemetry { root, .. } => root@,
    }
}

/// The secret requirements carried by a pack, whatever its kind.
pub open spec fn pack_secrets(p: GuiPack) -> Seq<SecretRequirement> {
    match p {
        GuiPack::Layout { secret_requirements, .. } => secret_requirements@,
        GuiPack::Auth { secret_requirements, .. } => secret_requirements@,
        GuiPack::Feature { secret_requirements, .. } => secret_requirements@,
        GuiPack::Skin { secret_requirements, .. } => secret_requirements@,
        GuiPack::Telemetry { secret_requirements, .. } => secret_requirements@,
    }
}

/// The pack hint carried by a pack, whatever its kind.
pub open spec fn pack_hint_of(p: GuiPack) -> Option<String> {
    match p {
        GuiPack::Layout { pack_hint, .. } => pack_hint,
        GuiPack::Auth { pack_hint, .. } => pack_hint,
        GuiPack::Feature { pack_hint, .. } => pack_hint,
        GuiPack::Skin { pack_hint, .. } => pack_hint,
        GuiPack::Telemetry { pack_hint, .. } => pack_hint,
    }
}

/// Two path segments joined by a single separator.
pub open spec fn join_path(base: Seq<char>, seg: Seq<char>) -> Seq<char> {
    base + "/"@ + seg
}

/// A pack's asset root: `<root>/gui/assets`.
pub open spec fn pack_assets_root(p: GuiPack) -> Seq<char> {
    join_path(join_path(pack_root(p), "gui"@), "assets"@)
}

impl GuiPack {
    /// The pack's filesystem root.
    pub fn root(&self) -> (r: &str)
        ensures
            r@ == pack_root(*self),
    {
        match self {
            GuiPack::Layout { root, .. } => root.as_str(),
            GuiPack::Auth { root, .. } => root.as_str(),
            GuiPack::Feature { root, .. } => root.as_str(),
            GuiPack::Skin { root, .. } => root.as_str(),
            GuiPack::Telemetry { root, .. } => root.as_str(),
        }
    }

    /// The pack's asset root: `<root>/gui/assets`.
    pub fn assets_root(&self) -> (r: String)
        ensures
            r@ == pack_assets_root(*self),
    {
        join_segments(self.root(), "gui", "assets")
    }
}

/// Join `base` with one more segment, separated by `/`.
pub fn join_segment(base: &str, seg: &str) -> (r: String)
    ensures
        r@ == join_path(base@, seg@),
{
    let mut out = String::from_str(base);
    out.append("/");
    out.append(seg);
    out
}

/// Join `base` with two more segments, separated by `/`.
pub fn join_segments(base: &str, seg1: &str, seg2: &str) -> (r: String)
    ensures
        r@ == join_path(join_path(base@, seg1@), seg2@),
{
    let first = join_segment(base, seg1);
    join_segment(first.as_str(), seg2)
}

/// A manifest parsed by the caller from the JSON manifest file under a
/// pack's `gui` directory.
///
/// `Unknown` stands for a manifest whose `kind` is missing or not one of the
/// five discriminators, or whose body does not parse as its declared kind.
#[derive(Debug)]
pub enum ManifestDoc {
    Layout(LayoutManifest),
    Auth(AuthManifest),
    Feature(FeatureManifest),
    Skin(String),
    Telemetry(String),
    Unknown,
}

/// The pack kind a manifest document declares, if any.
pub open spec fn doc_kind(doc: ManifestDoc) -> Option<PackKind> {
    match doc {
        ManifestDoc::Layout(m) => if m.kind@ == kind_discriminator(PackKind::GuiLayout) {
            Some(PackKind::GuiLayout)
        } else {
            None
        },
        ManifestDoc::Auth(m) => if m.kind@ == kind_discriminator(PackKind::GuiAuth) {
            Some(PackKind::GuiAuth)
        } else {
            None
        },
        ManifestDoc::Feature(m) => if m.kind@ == kind_discriminator(PackKind::GuiFeature) {
            Some(PackKind::GuiFeature)
        } else {
            None
        },
        ManifestDoc::Skin(_) => Some(PackKind::GuiSkin),
        ManifestDoc::Telemetry(_) => Some(PackKind::GuiTelemetry),
        ManifestDoc::Unknown => None,
    }
}

/// Whether `pack_from_doc` accepts the document for the requested kind.
pub open spec fn doc_accepted(doc: ManifestDoc, requested: PackKind) -> bool {
    doc_kind(doc) == Some(requested)
}

/// The pack built from a manifest document found at `root`: the document's
/// manifest, that root, and (until a provider supplies them) no secret
/// requirements and no pack hint.
pub open spec fn pack_built_from(p: GuiPack, root: Seq<char>, doc: ManifestDoc) -> bool {
    &&& pack_root(p) == root
    &&& pack_secrets(p).len() == 0
    &&& pack_hint_of(p) is None
    &&& match doc {
        ManifestDoc::Layout(m) => p matches GuiPack::Layout { manifest, .. } && manifest == m,
        ManifestDoc::Auth(m) => p matches GuiPack::Auth { manifest, .. } && manifest == m,
        ManifestDoc::Feature(m) => p matches GuiPack::Feature { manifest, .. } && manifest == m,
        ManifestDoc::Skin(m) => p matches GuiPack::Skin { manifest, .. } && manifest == m,
        ManifestDoc::Telemetry(m) => p matches GuiPack::Telemetry { manifest, .. } && manifest
            == m,
        ManifestDoc::Unknown => false,
    }
}

/// The pack kind a manifest document declares.
pub fn doc_kind_of(doc: &ManifestDoc) -> (r: Option<PackKind>)
    ensures
        r == doc_kind(*doc),
{
    match doc {
        ManifestDoc::Layout(m) => if str_eq(m.kind.as_str(), "gui-layout") {
            Some(PackKind::GuiLayout)
        } else {
            None
        },
        ManifestDoc::Auth(m) => if str_eq(m.kind.as_str(), "gui-auth") {
            Some(PackKind::GuiAuth)
        } else {
            None
        },
        ManifestDoc::Feature(m) => if str_eq(m.kind.as_str(), "gui-feature") {
            Some(PackKind::GuiFeature)
        } else {
            None
        },
        ManifestDoc::Skin(_) => Some(PackKind::GuiSkin),
        ManifestDoc::Telemetry(_) => Some(PackKind::GuiTelemetry),
        ManifestDoc::Unknown => None,
    }
}

/// Dispatch a parsed manifest against the kind that was asked for.
///
/// A manifest whose declared kind differs from `requested` (or is unknown)
/// yields `None`: the pack is treated as absent, not as an error.
pub fn pack_from_doc(doc: ManifestDoc, root: String, requested: PackKind) -> (r: Option<GuiPack>)
    ensures
        doc_accepted(doc, requested) <==> r is Some,
        r matches Some(p) ==> pack_built_from(p, root@, doc),
{
    match doc {
        ManifestDoc::Layout(manifest) => {
            if matches!(requested, PackKind::GuiLayout) && str_eq(manifest.kind.as_str(), "gui-layout") {
                Some(
                    GuiPack::Layout {
                        manifest,
                        root,
                        secret_requirements: Vec::new(),
                        pack_hint: None,
                    },
                )
            } else {
                None
            }
        },
        ManifestDoc::Auth(manifest) => {
            if matches!(requested, PackKind::GuiAuth) && str_eq(manifest.kind.as_str(), "gui-auth") {
                Some(
                    GuiPack::Auth {
                        manifest,
                        root,
                        secret_requirements: Vec::new(),
                        pack_hint: None,
                    },
                )
            } else {
                None
            }
        },
        ManifestDoc::Feature(manifest) => {
            if matches!(requested, PackKind::GuiFeature) && str_eq(manifest.kind.as_str(), "gui-feature") {
                Some(
                    GuiPack::Feature {
                        manifest,
                        root,
                        secret_requirements: Vec::new(),
                        pack_hint: None,
                    },
                )
            } else {
                None
            }
        },
        ManifestDoc::Skin(manifest) => {
            if matches!(requested, PackKind::GuiSkin) {
                Some(
                    GuiPack::Skin {
                        manifest,
                        root,
                        secret_requirements: Vec::new(),
                        pack_hint: None,
                    },
                )
            } else {
                None
            }
        },
        ManifestDoc::Telemetry(manifest) => {
            if matches!(requested, PackKind::GuiTelemetry) {
                Some(
                    GuiPack::Telemetry {
                        manifest,
                        root,
                        secret_requirements: Vec::new(),
                        pack_hint: None,
                    },
                )
            } else {
                None
            }
        },
        ManifestDoc::Unknown => None,
    }
}

/// The pack kind named by a configuration key, accepting both the short
/// aliases and the full discriminators.
pub open spec fn kind_alias_spec(s: Seq<char>) -> Option<PackKind> {
    if s == "layout"@ || s == "gui-layout"@ {
        Some(PackKind::GuiLayout)
    } else if s == "auth"@ || s == "gui-auth"@ {
        Some(PackKind::GuiAuth)
    } else if s == "feature"@ || s == "gui-feature"@ {
        Some(PackKind::GuiFeature)
    } else if s == "skin"@ || s == "gui-skin"@ {
        Some(PackKind::GuiSkin)
    } else if s == "telemetry"@ || s == "gui-telemetry"@ {
        Some(PackKind::GuiTelemetry)
    } else {
        None
    }
}

/// Parse a configuration key naming a pack kind; unrecognized keys give `None`.
pub fn parse_kind_alias(s: &str) -> (r: Option<PackKind>)
    ensures
        r == kind_alias_spec(s@),
{
    if str_eq(s, "layout") || str_eq(s, "gui-layout") {
        Some(PackKind::GuiLayout)
    } else if str_eq(s, "auth") || str_eq(s, "gui-auth") {
        Some(PackKind::GuiAuth)
    } else if str_eq(s, "feature") || str_eq(s, "gui-feature") {
        Some(PackKind::GuiFeature)
    } else if str_eq(s, "skin") || str_eq(s, "gui-skin") {
        Some(PackKind::GuiSkin)
    } else if str_eq(s, "telemetry") || str_eq(s, "gui-telemetry") {
        Some(PackKind::GuiTelemetry)
    } else {
        None
    }
}

/// File-system backed pack provider used for development and tests.  The
/// caller performs the directory walk and manifest reads; the paths it must
/// read come from `tenant_pack_root` and the dispatch from `pack_from_doc`.
#[derive(Debug)]
pub struct FsPackProvider {
    pub root: String,
}

impl FsPackProvider {
    /// A provider rooted at the given pack directory.
    pub fn new(root: String) -> (r: Self)
        ensures
            r.root@ == root@,
    {
        FsPackProvider { root }
    }

    /// Where a tenant's pack of the given name lives: `<root>/<tenant>/<pack>`.
    pub fn tenant_pack_root(&self, tenant: &str, pack_name: &str) -> (r: String)
        ensures
            r@ == join_path(join_path(self.root@, tenant@), pack_name@),
    {
        join_segments(self.root.as_str(), tenant, pack_name)
    }
}

/// One memoized remote resolution: the local path a (tenant, kind) pair
/// resolved to.
#[derive(Debug)]
pub struct CacheEntry {
    pub tenant: String,
    pub kind: PackKind,
    pub path: String,
}

/// The path the cache holds for (tenant, kind): the first matching entry.
pub open spec fn cache_lookup(entries: Seq<CacheEntry>, tenant: Seq<char>, kind: PackKind) -> Option<
    Seq<char>,
>
    decreases entries.len(),
{
    if entries.len() == 0 {
        None
    } else if entries.first().tenant@ == tenant && entries.first().kind == kind {
        Some(entries.first().path@)
    } else {
        cache_lookup(entries.drop_first(), tenant, kind)
    }
}

/// Cache of remote pack resolutions, keyed by (tenant, kind).  Resolutions
/// stay until `clear` wipes the whole cache.
#[derive(Debug)]
pub struct ResolutionCache {
    entries: Vec<CacheEntry>,
}

impl ResolutionCache {
    /// The cache's contents, as the sequence the lookups run over.
    pub closed spec fn view_entries(&self) -> Seq<CacheEntry> {
        self.entries@
    }

    /// An empty cache.
    pub fn new() -> (r: Self)
        ensures
            r.view_entries().len() == 0,
    {
        ResolutionCache { entries: Vec::new() }
    }

    /// The memoized path for (tenant, kind), if one is cached.
    pub fn lookup(&self, tenant: &str, kind: PackKind) -> (r: Option<String>)
        ensures
            match r {
                Some(p) => cache_lookup(self.view_entries(), tenant@, kind) == Some(p@),
                None => cache_lookup(self.view_entries(), tenant@, kind) is None,
            },
    {
        let n = self.entries.len();
        proof {
            assert(self.entries@.subrange(0, n as int) =~= self.entries@);
        }
        let mut i: usize = 0;
        while i < n
            invariant
                i <= n,
                n == self.entries@.len(),
                cache_lookup(self.entries@, tenant@, kind) == cache_lookup(
                    self.entries@.subrange(i as int, n as int),
                    tenant@,
                    kind,
                ),
            decreases n - i,
        {
            let e = &self.entries[i];
            proof {
                let rest = self.entries@.subrange(i as int, n as int);
                assert(rest.first() == self.entries@[i as int]);
                assert(rest.drop_first() =~= self.entries@.subrange(i + 1, n as int));
            }
            if str_eq(e.tenant.as_str(), tenant) && e.kind == kind {
                return Some(e.path.clone());
            }
            i += 1;
        }
        proof {
            assert(self.entries@.subrange(n as int, n as int) =~= Seq::<CacheEntry>::empty());
        }
        None
    }

    /// Memoize a resolution.  The new entry shadows any older entry with the
    /// same key; every other key keeps its previous answer.
    pub fn insert(&mut self, tenant: String, kind: PackKind, path: String)
        ensures
            cache_lookup(final(self).view_entries(), tenant@, kind) == Some(path@),
            forall|t: Seq<char>, k: PackKind|
                !(t == tenant@ && k == kind) ==> #[trigger] cache_lookup(
                    final(self).view_entries(),
                    t,
                    k,
                ) == cache_lookup(old(self).view_entries(), t, k),
    {
        let entry = CacheEntry { tenant, kind, path };
        self.entries.insert(0, entry);
        proof {
            assert(self.entries@.first() == entry);
            assert(self.entries@.drop_first() =~= old(self).entries@);
        }
    }

    /// Forget every memoized resolution.
    pub fn clear(&mut self)
        ensures
            final(self).view_entries().len() == 0,
            forall|t: Seq<char>, k: PackKind|
                #[trigger] cache_lookup(final(self).view_entries(), t, k) is None,
    {
        self.entries = Vec::new();
    }
}

/// Caching a resolution makes later resolutions of the same (tenant, kind)
/// return that same local path, with no further remote call: once an entry
/// for the key sits at the front of the cache, the lookup is decided by it.
pub proof fn lemma_cache_hit_after_insert(entries: Seq<CacheEntry>, e: CacheEntry)
    ensures
        cache_lookup(seq![e] + entries, e.tenant@, e.kind) == Some(e.path@),
{
    assert((seq![e] + entries).first() == e);
}

/// After a clear, no key is cached, so every resolution runs remotely again.
pub proof fn lemma_cache_cleared(tenant: Seq<char>, kind: PackKind)
    ensures
        cache_lookup(Seq::<CacheEntry>::empty(), tenant, kind) is None,
{
}

/// How an artifact download authenticates, from the credential values the
/// caller found: a bearer token wins; otherwise a complete username and
/// password pair; otherwise the download runs unauthenticated, noting
/// whether half a credential pair was left dangling.
#[derive(Debug)]
pub enum OciAuth {
    Bearer(String),
    Basic(String, String),
    Anonymous { partial_credentials: bool },
}

/// Decide how to authenticate an artifact download.
pub fn oci_auth_choice(bearer: Option<String>, user: Option<String>, pass: Option<String>) -> (r:
    OciAuth)
    ensures
        match bearer {
            Some(t) => r matches OciAuth::Bearer(b) && b == t,
            None => match (user, pass) {
                (Some(u), Some(p)) => r matches OciAuth::Basic(ru, rp) && ru == u && rp == p,
                (Some(_), None) | (None, Some(_)) => r == (OciAuth::Anonymous {
                    partial_credentials: true,
                }),
                (None, None) => r == (OciAuth::Anonymous { partial_credentials: false }),
            },
        },
{
    match bearer {
        Some(t) => OciAuth::Bearer(t),
        None => match (user, pass) {
            (Some(u), Some(p)) => OciAuth::Basic(u, p),
            (Some(_), None) | (None, Some(_)) => OciAuth::Anonymous { partial_credentials: true },
            (None, None) => OciAuth::Anonymous { partial_credentials: false },
        },
    }
}

/// Where a downloaded artifact is staged: a directory named by the caller's
/// fresh token under the temporary root, and the archive file inside it.
pub fn artifact_staging_paths(tmp_root: &str, token: &str) -> (r: (String, String))
    ensures
        r.0@ == tmp_root@ + "/greentic_gui_"@ + token@,
        r.1@ == r.0@ + "/artifact.tar"@,
{
    let mut dir = String::from_str(tmp_root);
    dir.append("/greentic_gui_");
    dir.append(token);
    let mut archive = dir.clone();
    archive.append("/artifact.tar");
    proof {
        assert(dir@ =~= tmp_root@ + "/greentic_gui_"@ + token@);
    }
    (dir, archive)
}

/// Where the distributor says a pack's artifact lives.
#[derive(Debug)]
pub enum ArtifactLocation {
    FilePath { path: String },
    OciReference { reference: String },
    DistributorInternal { handle: String },
}

/// What the provider must do to turn an artifact location into a local path.
#[derive(Debug, PartialEq, Eq, Structural)]
pub enum MaterializeStep {
    /// The artifact already is a local path: use it as it stands.
    UseLocalPath,
    /// The artifact is an image reference: download and extract it.
    Download,
    /// An opaque distributor handle: usable only when it already names an
    /// existing local path.
    TreatHandleAsPath,
}

/// The step an artifact location calls for.  Downloads and filesystem probes
/// are the caller's; this only decides.
pub fn materialize_step(artifact: &ArtifactLocation) -> (r: MaterializeStep)
    ensures
        r == (match artifact {
            ArtifactLocation::FilePath { .. } => MaterializeStep::UseLocalPath,
            ArtifactLocation::OciReference { .. } => MaterializeStep::Download,
            ArtifactLocation::DistributorInternal { .. } => MaterializeStep::TreatHandleAsPath,
        }),
{
    match artifact {
        ArtifactLocation::FilePath { .. } => MaterializeStep::UseLocalPath,
        ArtifactLocation::OciReference { .. } => MaterializeStep::Download,
        ArtifactLocation::DistributorInternal { .. } => MaterializeStep::TreatHandleAsPath,
    }
}

/// Decide what an opaque distributor handle materializes to: it is accepted
/// exactly when it already names an existing local path (`handle_exists`);
/// anything else fails explicitly rather than silently.
pub fn materialize_internal(handle: &str, handle_exists: bool) -> (r: Result<String, String>)
    ensures
        (r is Ok) == handle_exists,
        handle_exists ==> r->Ok_0@ == handle@,
        !handle_exists ==> r->Err_0@ == handle@,
{
    if handle_exists {
        Ok(String::from_str(handle))
    } else {
        Err(String::from_str(handle))
    }
}

/// What the remote provider must do next for a (tenant, kind) pair.
#[derive(Debug)]
pub enum ResolveStep {
    /// No pack reference is configured for this kind: the pack is absent.
    Absent,
    /// The cache already holds the resolved local path: use it, with no
    /// remote call.
    UseCached(String),
    /// Resolve the artifact remotely, materialize it per
    /// `materialize_step`, then memoize the path with `ResolutionCache::insert`.
    ResolveRemotely,
}

/// Decide the provider's next step for (tenant, kind): absent without a
/// configured pack reference, the memoized path on a cache hit, and a
/// remote resolution only on a miss.
pub fn resolve_step(cache: &ResolutionCache, tenant: &str, kind: PackKind, configured: bool) -> (r:
    ResolveStep)
    ensures
        (r is Absent) == !configured,
        configured ==> match r {
            ResolveStep::UseCached(p) => cache_lookup(cache.view_entries(), tenant@, kind) == Some(
                p@,
            ),
            ResolveStep::ResolveRemotely => cache_lookup(cache.view_entries(), tenant@, kind) is None,
            ResolveStep::Absent => false,
        },
{
    if !configured {
        return ResolveStep::Absent;
    }
    match cache.lookup(tenant, kind) {
        Some(path) => ResolveStep::UseCached(path),
        None => ResolveStep::ResolveRemotely,
    }
}

/// The formats a downloaded artifact archive is tried as.
#[derive(Debug, Clone, Copy, PartialEq, Eq, Structural)]
pub enum ArchiveFormat {
    GzipTar,
    PlainTar,
}

/// The extraction fallback when materializing a downloaded artifact:
/// extraction is attempted as gzip-compressed tar first; when that fails
/// the archive is retried once as a plain tar; a failure of the plain
/// attempt is final.
pub fn extraction_fallback(attempted: Option<ArchiveFormat>) -> (r: Option<ArchiveFormat>)
    ensures
        r == (match attempted {
            None => Some(ArchiveFormat::GzipTar),
            Some(ArchiveFormat::GzipTar) => Some(ArchiveFormat::PlainTar),
            Some(ArchiveFormat::PlainTar) => None::<ArchiveFormat>,
        }),
{
    match attempted {
        None => Some(ArchiveFormat::GzipTar),
        Some(ArchiveFormat::GzipTar) => Some(ArchiveFormat::PlainTar),
        Some(ArchiveFormat::PlainTar) => None,
    }
}

/// The first document in the list that `pack_from_doc` accepts for `kind`.
pub open spec fn first_doc_of_kind(docs: Seq<(String, ManifestDoc)>, kind: PackKind) -> Option<int>
    decreases docs.len(),
{
    if docs.len() == 0 {
        None
    } else if doc_accepted(docs.first().1, kind) {
        Some(0)
    } else {
        match first_doc_of_kind(docs.drop_first(), kind) {
            Some(i) => Some(i + 1),
            None => None,
        }
    }
}

/// Extending the document list by one entry keeps an already-found first
/// document and otherwise finds the new entry exactly when it is accepted.
proof fn lemma_first_doc_snoc(docs: Seq<(String, ManifestDoc)>, d: (String, ManifestDoc), kind: PackKind)
    ensures
        first_doc_of_kind(docs.push(d), kind) == (match first_doc_of_kind(docs, kind) {
            Some(i) => Some(i),
            None => if doc_accepted(d.1, kind) {
                Some(docs.len() as int)
            } else {
                None::<int>
            },
        }),
    decreases docs.len(),
{
    let ext = docs.push(d);
    if docs.len() == 0 {
        assert(ext.first() == d);
        assert(ext.drop_first() =~= Seq::<(String, ManifestDoc)>::empty());
        assert(first_doc_of_kind(ext.drop_first(), kind) is None);
        if doc_accepted(d.1, kind) {
            assert(first_doc_of_kind(ext, kind) == Some(0int));
        } else {
            assert(first_doc_of_kind(ext, kind) is None);
        }
    } else {
        assert(ext.first() == docs.first());
        assert(ext.drop_first() =~= docs.drop_first().push(d));
        lemma_first_doc_snoc(docs.drop_first(), d, kind);
        if doc_accepted(docs.first().1, kind) {
            assert(first_doc_of_kind(ext, kind) == Some(0int));
            assert(first_doc_of_kind(docs, kind) == Some(0int));
        } else {
            assert(first_doc_of_kind(ext, kind) == (match first_doc_of_kind(
                docs.drop_first().push(d),
                kind,
            ) {
                Some(j) => Some(j + 1),
                None => None::<int>,
            }));
            assert(first_doc_of_kind(docs, kind) == (match first_doc_of_kind(
                docs.drop_first(),
                kind,
            ) {
                Some(j) => Some(j + 1),
                None => None::<int>,
            }));
        }
    }
}

/// What `first_doc_of_kind` finds is in range and accepted.
proof fn lemma_first_doc_bounds(docs: Seq<(String, ManifestDoc)>, kind: PackKind)
    ensures
        match first_doc_of_kind(docs, kind) {
            Some(i) => 0 <= i < docs.len() && doc_accepted(docs[i].1, kind),
            None => true,
        },
    decreases docs.len(),
{
    if docs.len() > 0 && !doc_accepted(docs.first().1, kind) {
        lemma_first_doc_bounds(docs.drop_first(), kind);
        match first_doc_of_kind(docs.drop_first(), kind) {
            Some(j) => {
                assert(docs.drop_first()[j] == docs[j + 1]);
            },
            None => {},
        }
    }
}

/// A singular slot holds the pack built from the first accepted document
/// for its kind, and is empty when no document is accepted.
pub open spec fn slot_selected(
    docs: Seq<(String, ManifestDoc)>,
    kind: PackKind,
    slot: Option<GuiPack>,
) -> bool {
    match first_doc_of_kind(docs, kind) {
        Some(i) => slot matches Some(p) && pack_built_from(p, docs[i].0@, docs[i].1),
        None => slot is None,
    }
}

/// `fps` holds the packs built from every feature document, in list order.
pub open spec fn features_selected(docs: Seq<(String, ManifestDoc)>, fps: Seq<GuiPack>) -> bool
    decreases docs.len(),
{
    if docs.len() == 0 {
        fps.len() == 0
    } else {
        if doc_accepted(docs.first().1, PackKind::GuiFeature) {
            &&& fps.len() > 0
            &&& pack_built_from(fps.first(), docs.first().0@, docs.first().1)
            &&& features_selected(docs.drop_first(), fps.drop_first())
        } else {
            features_selected(docs.drop_first(), fps)
        }
    }
}

/// Extending the document list by one entry extends the feature list by
/// that entry's contribution: one pack when it is a feature, none otherwise.
proof fn lemma_features_selected_snoc(
    docs: Seq<(String, ManifestDoc)>,
    fps: Seq<GuiPack>,
    d: (String, ManifestDoc),
    y: Seq<GuiPack>,
)
    requires
        features_selected(docs, fps),
        if doc_accepted(d.1, PackKind::GuiFeature) {
            y.len() == 1 && pack_built_from(y[0], d.0@, d.1)
        } else {
            y.len() == 0
        },
    ensures
        features_selected(docs.push(d), fps + y),
    decreases docs.len(),
{
    let ext = docs.push(d);
    if docs.len() == 0 {
        assert(ext.first() == d);
        assert(ext.drop_first() =~= Seq::<(String, ManifestDoc)>::empty());
        if doc_accepted(d.1, PackKind::GuiFeature) {
            assert((fps + y).first() == y[0]);
            assert((fps + y).drop_first() =~= Seq::<GuiPack>::empty());
        } else {
            assert(fps + y =~= Seq::<GuiPack>::empty());
        }
        assert(features_selected(Seq::<(String, ManifestDoc)>::empty(), Seq::<GuiPack>::empty()));
    } else {
        assert(ext.first() == docs.first());
        assert(ext.drop_first() =~= docs.drop_first() + seq![d]);
        assert(docs.drop_first() + seq![d] =~= docs.drop_first().push(d));
        if doc_accepted(docs.first().1, PackKind::GuiFeature) {
            lemma_features_selected_snoc(docs.drop_first(), fps.drop_first(), d, y);
            assert((fps + y).first() == fps.first());
            assert((fps + y).drop_first() =~= fps.drop_first() + y);
        } else {
            lemma_features_selected_snoc(docs.drop_first(), fps, d, y);
        }
    }
}

/// The packs discovered for a tenant: at most one pack per singular kind
/// (the first found wins, as each provider scan keeps its first match) and
/// every feature pack in list order.
#[derive(Debug)]
pub struct DiscoveredPacks {
    pub layout: Option<GuiPack>,
    pub auth: Option<GuiPack>,
    pub skin: Option<GuiPack>,
    pub telemetry: Option<GuiPack>,
    pub features: Vec<GuiPack>,
}

/// Slot the parsed manifests of a tenant's pack directories, given in
/// directory order as (pack root, document) pairs: exactly one layout slot,
/// zero-or-one auth, skin and telemetry slots — each taking the first
/// accepted document — and the ordered feature list.  Documents of unknown
/// or mismatched kind are skipped, not an error.
pub fn select_packs(docs: Vec<(String, ManifestDoc)>) -> (r: DiscoveredPacks)
    ensures
        slot_selected(docs@, PackKind::GuiLayout, r.layout),
        slot_selected(docs@, PackKind::GuiAuth, r.auth),
        slot_selected(docs@, PackKind::GuiSkin, r.skin),
        slot_selected(docs@, PackKind::GuiTelemetry, r.telemetry),
        features_selected(docs@, r.features@),
{
    let mut remaining = docs;
    let mut layout: Option<GuiPack> = None;
    let mut auth: Option<GuiPack> = None;
    let mut skin: Option<GuiPack> = None;
    let mut telemetry: Option<GuiPack> = None;
    let mut features: Vec<GuiPack> = Vec::new();
    proof {
        assert(docs@.subrange(0, 0) =~= Seq::<(String, ManifestDoc)>::empty());
    }
    while remaining.len() > 0
        invariant
            remaining@.len() <= docs@.len(),
            remaining@ =~= docs@.subrange(docs@.len() - remaining@.len(), docs@.len() as int),
            slot_selected(
                docs@.subrange(0, docs@.len() - remaining@.len()),
                PackKind::GuiLayout,
                layout,
            ),
            slot_selected(
                docs@.subrange(0, docs@.len() - remaining@.len()),
                PackKind::GuiAuth,
                auth,
            ),
            slot_selected(
                docs@.subrange(0, docs@.len() - remaining@.len()),
                PackKind::GuiSkin,
                skin,
            ),
            slot_selected(
                docs@.subrange(0, docs@.len() - remaining@.len()),
                PackKind::GuiTelemetry,
                telemetry,
            ),
            features_selected(docs@.subrange(0, docs@.len() - remaining@.len()), features@),
        decreases remaining@.len(),
    {
        let ghost k = docs@.len() - remaining@.len();
        let ghost old_features = features@;
        let entry = remaining.remove(0);
        proof {
            assert(entry == docs@[k]);
            assert(remaining@ =~= docs@.subrange(k + 1, docs@.len() as int));
        }
        let (root, doc) = entry;
        let kind = doc_kind_of(&doc);
        let ghost mut contributed: Seq<GuiPack> = Seq::empty();
        match kind {
            Some(PackKind::GuiLayout) => {
                if layout.is_none() {
                    layout = pack_from_doc(doc, root, PackKind::GuiLayout);
                }
            },
            Some(PackKind::GuiAuth) => {
                if auth.is_none() {
                    auth = pack_from_doc(doc, root, PackKind::GuiAuth);
                }
            },
            Some(PackKind::GuiSkin) => {
                if skin.is_none() {
                    skin = pack_from_doc(doc, root, PackKind::GuiSkin);
                }
            },
            Some(PackKind::GuiTelemetry) => {
                if telemetry.is_none() {
                    telemetry = pack_from_doc(doc, root, PackKind::GuiTelemetry);
                }
            },
            Some(PackKind::GuiFeature) => {
                if let Some(p) = pack_from_doc(doc, root, PackKind::GuiFeature) {
                    proof {
                        contributed = seq![p];
                    }
                    features.push(p);
                }
            },
            None => {},
        }
        proof {
            let pre = docs@.subrange(0, k);
            let ext = docs@.subrange(0, k + 1);
            assert(pre.push(docs@[k]) =~= ext);
            assert forall|i: int| 0 <= i < k implies ext[i] == pre[i] by {}
            lemma_first_doc_bounds(pre, PackKind::GuiLayout);
            lemma_first_doc_bounds(pre, PackKind::GuiAuth);
            lemma_first_doc_bounds(pre, PackKind::GuiSkin);
            lemma_first_doc_bounds(pre, PackKind::GuiTelemetry);
            lemma_first_doc_snoc(pre, docs@[k], PackKind::GuiLayout);
            lemma_first_doc_snoc(pre, docs@[k], PackKind::GuiAuth);
            lemma_first_doc_snoc(pre, docs@[k], PackKind::GuiSkin);
            lemma_first_doc_snoc(pre, docs@[k], PackKind::GuiTelemetry);
            lemma_features_selected_snoc(pre, old_features, docs@[k], contributed);
            assert(old_features + contributed =~= features@);
        }
    }
    proof {
        assert(docs@.subrange(0, docs@.len() as int) =~= docs@);
    }
    DiscoveredPacks { layout, auth, skin, telemetry, features }
}

} // verus!
