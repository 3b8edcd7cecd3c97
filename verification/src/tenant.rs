//! A tenant's assembled GUI configuration and its route resolution.
//!
//! The configuration aggregates one layout pack, at most one auth pack,
//! optional skin and telemetry locations, and an ordered list of feature
//! packs.  Route resolution walks feature routes in pack order, then auth
//! routes, and falls back unconditionally to the layout's entry document,
//! so that every path yields a route.

use vstd::prelude::*;
use crate::packs::{
    AuthManifest, AuthRoute, FeatureManifest, FeatureRoute, FragmentBinding, GuiPack,
    LayoutManifest, join_path, join_segment, join_segments,
};
use crate::paths::{normalize_route, normalize_spec, path_matches, path_matches_spec};
use crate::secrets::{
    SecretRequirement, append_requirements, clone_requirements, dedup_requirements, dedup_spec,
};

verus! {

/// Where a pack's files live: its root and its asset directory, along with
/// the secrets it declares and an optional hint naming the pack.
#[derive(Debug)]
pub struct PackLocation {
    pub root: String,
    pub assets: String,
    pub secret_requirements: Vec<SecretRequirement>,
    pub pack_hint: Option<String>,
}

/// The tenant's mandatory layout pack.
#[derive(Debug)]
pub struct LayoutPack {
    pub manifest: LayoutManifest,
    pub location: PackLocation,
    pub secret_requirements: Vec<SecretRequirement>,
}

/// The tenant's optional auth pack.
#[derive(Debug)]
pub struct AuthPack {
    pub manifest: AuthManifest,
    pub location: PackLocation,
    pub secret_requirements: Vec<SecretRequirement>,
}

/// One of the tenant's feature packs.
#[derive(Debug)]
pub struct FeaturePack {
    pub manifest: FeatureManifest,
    pub location: PackLocation,
    pub secret_requirements: Vec<SecretRequirement>,
}

/// A tenant's assembled GUI configuration: exactly one layout, at most one
/// auth pack, optional skin and telemetry locations, and an ordered list of
/// feature packs whose order fixes route-matching precedence.
#[derive(Debug)]
pub struct TenantGuiConfig {
    pub tenant_did: String,
    pub domain: String,
    pub layout: LayoutPack,
    pub auth: Option<AuthPack>,
    pub skin: Option<PackLocation>,
    pub telemetry: Option<PackLocation>,
    pub features: Vec<FeaturePack>,
    pub secret_requirements: Vec<SecretRequirement>,
}

/// Which source a resolved route came from.
#[derive(Debug, Clone, Copy, PartialEq, Eq, Structural)]
pub enum RouteSource {
    Layout,
    Auth,
    Feature,
}

/// One fragment to render: its binding and the asset root of the pack that
/// declared it.  Each fragment carries its own pack's asset root.
#[derive(Debug)]
pub struct FragmentTarget {
    pub binding: FragmentBinding,
    pub assets_root: String,
}

impl Clone for FragmentTarget {
    fn clone(&self) -> (res: Self)
        ensures
            res == *self,
    {
        FragmentTarget { binding: self.binding.clone(), assets_root: self.assets_root.clone() }
    }
}

/// The outcome of route resolution: the document to serve, whether a session
/// is required, and the fragments to render into the document.
#[derive(Debug)]
pub struct ResolvedRoute {
    pub source: RouteSource,
    pub html_path: String,
    pub authenticated: bool,
    pub fragments: Vec<FragmentTarget>,
}

/// The position of the first `true` in `flags`.
pub open spec fn first_true(flags: Seq<bool>) -> Option<int>
    decreases flags.len(),
{
    if flags.len() == 0 {
        None
    } else if flags.first() {
        Some(0)
    } else {
        match first_true(flags.drop_first()) {
            Some(i) => Some(i + 1),
            None => None,
        }
    }
}

/// `first_true` returns exactly the first position that is set.
pub proof fn lemma_first_true_at(flags: Seq<bool>, i: int)
    requires
        0 <= i < flags.len(),
        flags[i],
        forall|j: int| 0 <= j < i ==> !flags[j],
    ensures
        first_true(flags) == Some(i),
    decreases flags.len(),
{
    if i > 0 {
        assert(!flags.first());
        assert forall|j: int| 0 <= j < i - 1 implies !flags.drop_first()[j] by {
            assert(flags.drop_first()[j] == flags[j + 1]);
        }
        assert(flags.drop_first()[i - 1] == flags[i]);
        lemma_first_true_at(flags.drop_first(), i - 1);
    }
}

/// With no position set, `first_true` finds nothing.
pub proof fn lemma_first_true_none(flags: Seq<bool>)
    requires
        forall|j: int| 0 <= j < flags.len() ==> !flags[j],
    ensures
        first_true(flags) is None,
    decreases flags.len(),
{
    if flags.len() > 0 {
        assert forall|j: int| 0 <= j < flags.drop_first().len() implies !flags.drop_first()[j] by {
            assert(flags.drop_first()[j] == flags[j + 1]);
        }
        lemma_first_true_none(flags.drop_first());
    }
}

/// Which feature routes match the (normalized) path, in manifest order.
pub open spec fn route_flags(routes: Seq<FeatureRoute>, path: Seq<char>) -> Seq<bool> {
    routes.map_values(|r: FeatureRoute| path_matches_spec(path, r.path@))
}

/// Which auth routes match the (normalized) path, in manifest order.
pub open spec fn auth_route_flags(routes: Seq<AuthRoute>, path: Seq<char>) -> Seq<bool> {
    routes.map_values(|r: AuthRoute| path_matches_spec(path, r.path@))
}

/// Which feature packs have some matching route, in pack order.
pub open spec fn feature_flags(features: Seq<FeaturePack>, path: Seq<char>) -> Seq<bool> {
    features.map_values(|f: FeaturePack| first_true(route_flags(f.manifest.routes@, path)) is Some)
}

/// What a returned route must be, given the configuration and the raw path:
/// the first matching route of the first matching feature pack; otherwise
/// the first matching auth route, with the `authenticated` flag negating the
/// route's `public` flag and no fragments; otherwise the layout's entry
/// document, unauthenticated, with no fragments.
pub open spec fn resolved_route_ok(cfg: TenantGuiConfig, path: Seq<char>, rr: ResolvedRoute) -> bool {
    let np = normalize_spec(path);
    let ff = first_true(feature_flags(cfg.features@, np));
    if ff is Some {
        let f = cfg.features@[ff->Some_0];
        let rf = first_true(route_flags(f.manifest.routes@, np));
        rf is Some && {
            let route = f.manifest.routes@[rf->Some_0];
            &&& rr.source is Feature
            &&& rr.html_path@ == join_path(f.location.assets@, route.html@)
            &&& rr.authenticated == route.authenticated
            &&& rr.fragments@.len() == f.manifest.fragments@.len()
            &&& forall|k: int|
                0 <= k < rr.fragments@.len() ==> (#[trigger] rr.fragments@[k]).binding
                    == f.manifest.fragments@[k] && rr.fragments@[k].assets_root@
                    == f.location.assets@
        }
    } else if cfg.auth is Some && first_true(
        auth_route_flags(cfg.auth->Some_0.manifest.routes@, np),
    ) is Some {
        let a = cfg.auth->Some_0;
        let route = a.manifest.routes@[first_true(auth_route_flags(a.manifest.routes@, np))->Some_0];
        &&& rr.source is Auth
        &&& rr.html_path@ == join_path(a.location.assets@, route.html@)
        &&& rr.authenticated == !route.public
        &&& rr.fragments@.len() == 0
    } else {
        &&& rr.source is Layout
        &&& rr.html_path@ == join_path(
            cfg.layout.location.assets@,
            cfg.layout.manifest.layout.entrypoint_html@,
        )
        &&& rr.authenticated == false
        &&& rr.fragments@.len() == 0
    }
}

impl TenantGuiConfig {
    /// Resolve a path against this tenant's routes.
    ///
    /// Resolution is total: for a tenant with a valid layout every path
    /// yields a route, so the result is always `Some`.
    pub fn resolve_route(&self, path: &str) -> (r: Option<ResolvedRoute>)
        ensures
            r is Some,
            resolved_route_ok(*self, path@, r->Some_0),
    {
        let np = normalize_route(path);
        let nf = self.features.len();
        let mut fi: usize = 0;
        while fi < nf
            invariant
                fi <= nf,
                nf == self.features@.len(),
                np@ == normalize_spec(path@),
                forall|j: int| 0 <= j < fi ==> !feature_flags(self.features@, np@)[j],
            decreases nf - fi,
        {
            let nr = self.features[fi].manifest.routes.len();
            let mut ri: usize = 0;
            while ri < nr
                invariant
                    fi < nf,
                    ri <= nr,
                    nf == self.features@.len(),
                    nr == self.features@[fi as int].manifest.routes@.len(),
                    np@ == normalize_spec(path@),
                    forall|j: int| 0 <= j < fi ==> !feature_flags(self.features@, np@)[j],
                    forall|j: int|
                        0 <= j < ri ==> !route_flags(
                            self.features@[fi as int].manifest.routes@,
                            np@,
                        )[j],
                decreases nr - ri,
            {
                if path_matches(np.as_str(), self.features[fi].manifest.routes[ri].path.as_str()) {
                    let f = &self.features[fi];
                    proof {
                        let routes = f.manifest.routes@;
                        assert(route_flags(routes, np@)[ri as int]);
                        lemma_first_true_at(route_flags(routes, np@), ri as int);
                        assert(feature_flags(self.features@, np@)[fi as int]);
                        lemma_first_true_at(feature_flags(self.features@, np@), fi as int);
                    }
                    let route = &f.manifest.routes[ri];
                    let nb = f.manifest.fragments.len();
                    let mut fragments: Vec<FragmentTarget> = Vec::new();
                    let mut k: usize = 0;
                    while k < nb
                        invariant
                            k <= nb,
                            fi < nf,
                            nf == self.features@.len(),
                            nb == self.features@[fi as int].manifest.fragments@.len(),
                            fragments@.len() == k,
                            forall|m: int|
                                0 <= m < k ==> (#[trigger] fragments@[m]).binding
                                    == self.features@[fi as int].manifest.fragments@[m]
                                    && fragments@[m].assets_root@
                                    == self.features@[fi as int].location.assets@,
                        decreases nb - k,
                    {
                        let target = FragmentTarget {
                            binding: self.features[fi].manifest.fragments[k].clone(),
                            assets_root: self.features[fi].location.assets.clone(),
                        };
                        fragments.push(target);
                        k += 1;
                    }
                    return Some(
                        ResolvedRoute {
                            source: RouteSource::Feature,
                            html_path: join_segment(f.location.assets.as_str(), route.html.as_str()),
                            authenticated: route.authenticated,
                            fragments,
                        },
                    );
                }
                ri += 1;
            }
            proof {
                lemma_first_true_none(route_flags(self.features@[fi as int].manifest.routes@, np@));
                assert(!feature_flags(self.features@, np@)[fi as int]);
            }
            fi += 1;
        }
        proof {
            lemma_first_true_none(feature_flags(self.features@, np@));
        }

        if let Some(auth) = &self.auth {
            let nr = auth.manifest.routes.len();
            let mut ri: usize = 0;
            while ri < nr
                invariant
                    ri <= nr,
                    self.auth is Some,
                    *auth == self.auth->Some_0,
                    nr == auth.manifest.routes@.len(),
                    np@ == normalize_spec(path@),
                    first_true(feature_flags(self.features@, np@)) is None,
                    forall|j: int| 0 <= j < ri ==> !auth_route_flags(auth.manifest.routes@, np@)[j],
                decreases nr - ri,
            {
                if path_matches(np.as_str(), auth.manifest.routes[ri].path.as_str()) {
                    proof {
                        assert(auth_route_flags(auth.manifest.routes@, np@)[ri as int]);
                        lemma_first_true_at(auth_route_flags(auth.manifest.routes@, np@), ri as int);
                    }
                    let route = &auth.manifest.routes[ri];
                    return Some(
                        ResolvedRoute {
                            source: RouteSource::Auth,
                            html_path: join_segment(
                                auth.location.assets.as_str(),
                                route.html.as_str(),
                            ),
                            authenticated: !route.public,
                            fragments: Vec::new(),
                        },
                    );
                }
                ri += 1;
            }
            proof {
                lemma_first_true_none(auth_route_flags(auth.manifest.routes@, np@));
            }
        }

        Some(
            ResolvedRoute {
                source: RouteSource::Layout,
                html_path: join_segment(
                    self.layout.location.assets.as_str(),
                    self.layout.manifest.layout.entrypoint_html.as_str(),
                ),
                authenticated: false,
                fragments: Vec::new(),
            },
        )
    }
}

/// Assembling a tenant configuration failed.
#[derive(Debug, PartialEq, Eq, Structural)]
pub enum TenantConfigError {
    /// The pack supplied as the layout is not a layout pack.
    NotALayoutPack,
}

/// The secret requirements of all feature packs, concatenated in pack order.
pub open spec fn concat_feature_secrets(fps: Seq<FeaturePack>) -> Seq<SecretRequirement>
    decreases fps.len(),
{
    if fps.len() == 0 {
        Seq::empty()
    } else {
        concat_feature_secrets(fps.drop_last()) + fps.last().secret_requirements@
    }
}

/// The location a pack's fields assemble to: its root, `<root>/gui/assets`,
/// its secret requirements and its pack hint.
pub open spec fn location_from(
    loc: PackLocation,
    root: Seq<char>,
    sr: Seq<SecretRequirement>,
    ph: Option<String>,
) -> bool {
    &&& loc.root@ == root
    &&& loc.assets@ == join_path(join_path(root, "gui"@), "assets"@)
    &&& loc.secret_requirements@ == sr
    &&& loc.pack_hint == ph
}

/// `fps` is the list of feature packs assembled from `packs`, in order: each
/// feature pack contributes one entry and every other kind is skipped.
pub open spec fn features_assembled(packs: Seq<GuiPack>, fps: Seq<FeaturePack>) -> bool
    decreases packs.len(),
{
    if packs.len() == 0 {
        fps.len() == 0
    } else {
        match packs.first() {
            GuiPack::Feature { manifest, root, secret_requirements, pack_hint } => {
                &&& fps.len() > 0
                &&& fps.first().manifest == manifest
                &&& location_from(fps.first().location, root@, secret_requirements@, pack_hint)
                &&& fps.first().secret_requirements@ == secret_requirements@
                &&& features_assembled(packs.drop_first(), fps.drop_first())
            },
            _ => features_assembled(packs.drop_first(), fps),
        }
    }
}

/// Extending the assembled prefix by one pack extends the feature list by
/// that pack's contribution (one entry for a feature pack, none otherwise).
proof fn lemma_features_assembled_snoc(
    a: Seq<GuiPack>,
    x: Seq<FeaturePack>,
    p: GuiPack,
    y: Seq<FeaturePack>,
)
    requires
        features_assembled(a, x),
        match p {
            GuiPack::Feature { manifest, root, secret_requirements, pack_hint } => {
                &&& y.len() == 1
                &&& y[0].manifest == manifest
                &&& location_from(y[0].location, root@, secret_requirements@, pack_hint)
                &&& y[0].secret_requirements@ == secret_requirements@
            },
            _ => y.len() == 0,
        },
    ensures
        features_assembled(a + seq![p], x + y),
    decreases a.len(),
{
    if a.len() == 0 {
        assert((a + seq![p]).first() == p);
        assert((a + seq![p]).drop_first() =~= Seq::<GuiPack>::empty());
        match p {
            GuiPack::Feature { .. } => {
                assert((x + y).first() == y[0]);
                assert((x + y).drop_first() =~= Seq::<FeaturePack>::empty());
            },
            _ => {
                assert(x + y =~= Seq::<FeaturePack>::empty());
            },
        }
        assert(features_assembled(Seq::<GuiPack>::empty(), Seq::<FeaturePack>::empty()));
    } else {
        assert((a + seq![p]).first() == a.first());
        assert((a + seq![p]).drop_first() =~= a.drop_first() + seq![p]);
        match a.first() {
            GuiPack::Feature { .. } => {
                lemma_features_assembled_snoc(a.drop_first(), x.drop_first(), p, y);
                assert((x + y).first() == x.first());
                assert((x + y).drop_first() =~= x.drop_first() + y);
            },
            _ => {
                lemma_features_assembled_snoc(a.drop_first(), x, p, y);
            },
        }
    }
}

/// What a configuration assembled by `load` must hold, given the loaded
/// packs it was assembled from.
pub open spec fn tenant_config_ok(
    cfg: TenantGuiConfig,
    tenant: Seq<char>,
    domain: Seq<char>,
    layout: GuiPack,
    auth: Option<GuiPack>,
    skin: Option<GuiPack>,
    telemetry: Option<GuiPack>,
    packs: Seq<GuiPack>,
) -> bool {
    &&& cfg.tenant_did@ == tenant
    &&& cfg.domain@ == domain
    &&& match layout {
        GuiPack::Layout { manifest, root, secret_requirements, pack_hint } => {
            &&& cfg.layout.manifest == manifest
            &&& location_from(cfg.layout.location, root@, secret_requirements@, pack_hint)
            &&& cfg.layout.secret_requirements@ == secret_requirements@
        },
        _ => false,
    }
    &&& match auth {
        Some(GuiPack::Auth { manifest, root, secret_requirements, pack_hint }) => {
            &&& cfg.auth is Some
            &&& cfg.auth->Some_0.manifest == manifest
            &&& location_from(cfg.auth->Some_0.location, root@, secret_requirements@, pack_hint)
            &&& cfg.auth->Some_0.secret_requirements@ == secret_requirements@
        },
        _ => cfg.auth is None,
    }
    &&& match skin {
        Some(GuiPack::Skin { root, secret_requirements, pack_hint, .. }) => {
            &&& cfg.skin is Some
            &&& location_from(cfg.skin->Some_0, root@, secret_requirements@, pack_hint)
        },
        _ => cfg.skin is None,
    }
    &&& match telemetry {
        Some(GuiPack::Telemetry { root, secret_requirements, pack_hint, .. }) => {
            &&& cfg.telemetry is Some
            &&& location_from(cfg.telemetry->Some_0, root@, secret_requirements@, pack_hint)
        },
        _ => cfg.telemetry is None,
    }
    &&& features_assembled(packs, cfg.features@)
    &&& cfg.secret_requirements@ == dedup_spec(
        cfg.layout.secret_requirements@ + (if cfg.auth is Some {
            cfg.auth->Some_0.secret_requirements@
        } else {
            Seq::empty()
        }) + (if cfg.skin is Some {
            cfg.skin->Some_0.secret_requirements@
        } else {
            Seq::empty()
        }) + (if cfg.telemetry is Some {
            cfg.telemetry->Some_0.secret_requirements@
        } else {
            Seq::empty()
        }) + concat_feature_secrets(cfg.features@),
    )
}

impl TenantGuiConfig {
    /// Assemble a tenant's configuration from its loaded packs: the
    /// mandatory layout, the optional auth, skin and telemetry packs, and
    /// the ordered feature packs.  Each pack's assets are rooted at
    /// `<pack root>/gui/assets`, and the secret requirements of all packs
    /// are aggregated and deduplicated.  A pack of the wrong kind in an
    /// optional slot is treated as absent; a non-layout pack in the layout
    /// slot is an error.
    pub fn load(
        tenant: &str,
        domain: &str,
        layout: GuiPack,
        auth: Option<GuiPack>,
        skin: Option<GuiPack>,
        telemetry: Option<GuiPack>,
        packs: Vec<GuiPack>,
    ) -> (r: Result<TenantGuiConfig, TenantConfigError>)
        ensures
            (r is Ok) == layout is Layout,
            r is Ok ==> tenant_config_ok(
                r->Ok_0,
                tenant@,
                domain@,
                layout,
                auth,
                skin,
                telemetry,
                packs@,
            ),
    {
        let layout_pack = match layout {
            GuiPack::Layout { manifest, root, secret_requirements, pack_hint } => {
                let assets = join_segments(root.as_str(), "gui", "assets");
                let loc_sr = clone_requirements(&secret_requirements);
                LayoutPack {
                    manifest,
                    location: PackLocation {
                        root,
                        assets,
                        secret_requirements: loc_sr,
                        pack_hint,
                    },
                    secret_requirements,
                }
            },
            _ => {
                return Err(TenantConfigError::NotALayoutPack);
            },
        };

        let auth_pack = match auth {
            Some(GuiPack::Auth { manifest, root, secret_requirements, pack_hint }) => {
                let assets = join_segments(root.as_str(), "gui", "assets");
                let loc_sr = clone_requirements(&secret_requirements);
                Some(
                    AuthPack {
                        manifest,
                        location: PackLocation {
                            root,
                            assets,
                            secret_requirements: loc_sr,
                            pack_hint,
                        },
                        secret_requirements,
                    },
                )
            },
            _ => None,
        };

        let skin_loc = match skin {
            Some(GuiPack::Skin { root, secret_requirements, pack_hint, .. }) => {
                let assets = join_segments(root.as_str(), "gui", "assets");
                Some(PackLocation { root, assets, secret_requirements, pack_hint })
            },
            _ => None,
        };

        let telemetry_loc = match telemetry {
            Some(GuiPack::Telemetry { root, secret_requirements, pack_hint, .. }) => {
                let assets = join_segments(root.as_str(), "gui", "assets");
                Some(PackLocation { root, assets, secret_requirements, pack_hint })
            },
            _ => None,
        };

        let mut remaining = packs;
        let mut fps: Vec<FeaturePack> = Vec::new();
        proof {
            assert(packs@.subrange(0, 0) =~= Seq::<GuiPack>::empty());
            assert(packs@.subrange(0, packs@.len() as int) =~= packs@);
        }
        while remaining.len() > 0
            invariant
                remaining@.len() <= packs@.len(),
                remaining@ =~= packs@.subrange(
                    packs@.len() - remaining@.len(),
                    packs@.len() as int,
                ),
                features_assembled(
                    packs@.subrange(0, packs@.len() - remaining@.len()),
                    fps@,
                ),
            decreases remaining@.len(),
        {
            let ghost k = packs@.len() - remaining@.len();
            let ghost old_fps = fps@;
            let p = remaining.remove(0);
            proof {
                assert(p == packs@[k]);
                assert(remaining@ =~= packs@.subrange(k + 1, packs@.len() as int));
            }
            match p {
                GuiPack::Feature { manifest, root, secret_requirements, pack_hint } => {
                    let assets = join_segments(root.as_str(), "gui", "assets");
                    let loc_sr = clone_requirements(&secret_requirements);
                    let fp = FeaturePack {
                        manifest,
                        location: PackLocation {
                            root,
                            assets,
                            secret_requirements: loc_sr,
                            pack_hint,
                        },
                        secret_requirements,
                    };
                    let ghost y = seq![fp];
                    fps.push(fp);
                    proof {
                        lemma_features_assembled_snoc(
                            packs@.subrange(0, k),
                            old_fps,
                            packs@[k],
                            y,
                        );
                        assert(packs@.subrange(0, k) + seq![packs@[k]] =~= packs@.subrange(
                            0,
                            k + 1,
                        ));
                        assert(old_fps + y =~= fps@);
                    }
                },
                _ => {
                    proof {
                        lemma_features_assembled_snoc(
                            packs@.subrange(0, k),
                            old_fps,
                            packs@[k],
                            Seq::<FeaturePack>::empty(),
                        );
                        assert(packs@.subrange(0, k) + seq![packs@[k]] =~= packs@.subrange(
                            0,
                            k + 1,
                        ));
                        assert(old_fps + Seq::<FeaturePack>::empty() =~= fps@);
                    }
                },
            }
        }
        proof {
            assert(packs@.subrange(0, packs@.len() as int) =~= packs@);
        }

        let mut agg = clone_requirements(&layout_pack.secret_requirements);
        if let Some(a) = &auth_pack {
            append_requirements(&mut agg, &a.secret_requirements);
        }
        if let Some(sl) = &skin_loc {
            append_requirements(&mut agg, &sl.secret_requirements);
        }
        if let Some(tl) = &telemetry_loc {
            append_requirements(&mut agg, &tl.secret_requirements);
        }
        let ghost base = agg@;
        let nf = fps.len();
        let mut i: usize = 0;
        while i < nf
            invariant
                i <= nf,
                nf == fps@.len(),
                agg@ == base + concat_feature_secrets(fps@.subrange(0, i as int)),
            decreases nf - i,
        {
            append_requirements(&mut agg, &fps[i].secret_requirements);
            proof {
                let pre = fps@.subrange(0, i + 1);
                assert(pre.drop_last() =~= fps@.subrange(0, i as int));
                assert(pre.last() == fps@[i as int]);
                assert(base + concat_feature_secrets(fps@.subrange(0, i as int))
                    + fps@[i as int].secret_requirements@ =~= base + concat_feature_secrets(pre));
            }
            i += 1;
        }
        proof {
            assert(fps@.subrange(0, nf as int) =~= fps@);
            assert(base + concat_feature_secrets(fps@.subrange(0, 0)) =~= base);
        }
        let secret_requirements = dedup_requirements(agg);

        let cfg = TenantGuiConfig {
            tenant_did: String::from_str(tenant),
            domain: String::from_str(domain),
            layout: layout_pack,
            auth: auth_pack,
            skin: skin_loc,
            telemetry: telemetry_loc,
            features: fps,
            secret_requirements,
        };
        proof {
            let want = cfg.layout.secret_requirements@ + (if cfg.auth is Some {
                cfg.auth->Some_0.secret_requirements@
            } else {
                Seq::empty()
            }) + (if cfg.skin is Some {
                cfg.skin->Some_0.secret_requirements@
            } else {
                Seq::empty()
            }) + (if cfg.telemetry is Some {
                cfg.telemetry->Some_0.secret_requirements@
            } else {
                Seq::empty()
            }) + concat_feature_secrets(cfg.features@);
            assert(base + concat_feature_secrets(cfg.features@) =~= want);
        }
        Ok(cfg)
    }
}

/// The (path, session required) pairs of one feature pack's routes.
pub open spec fn feature_route_pairs(routes: Seq<FeatureRoute>) -> Seq<(Seq<char>, bool)> {
    routes.map_values(|r: FeatureRoute| (r.path@, r.authenticated))
}

/// The route pairs of every feature pack, flattened in pack order.
pub open spec fn all_route_pairs(features: Seq<FeaturePack>) -> Seq<(Seq<char>, bool)>
    decreases features.len(),
{
    if features.len() == 0 {
        Seq::empty()
    } else {
        all_route_pairs(features.drop_last()) + feature_route_pairs(
            features.last().manifest.routes@,
        )
    }
}

/// The views of a list of (path, session required) pairs.
pub open spec fn route_pair_views(pairs: Seq<(String, bool)>) -> Seq<(Seq<char>, bool)> {
    pairs.map_values(|p: (String, bool)| (p.0@, p.1))
}

/// Every route the tenant's feature packs declare, in pack order then
/// manifest order: the path pattern and whether the route requires a
/// session.  This is what the configuration endpoint summarizes for the
/// client.
pub fn feature_route_summaries(cfg: &TenantGuiConfig) -> (r: Vec<(String, bool)>)
    ensures
        route_pair_views(r@) == all_route_pairs(cfg.features@),
{
    let nf = cfg.features.len();
    let mut out: Vec<(String, bool)> = Vec::new();
    proof {
        assert(cfg.features@.subrange(0, 0) =~= Seq::<FeaturePack>::empty());
        assert(route_pair_views(out@) =~= all_route_pairs(cfg.features@.subrange(0, 0)));
    }
    let mut fi: usize = 0;
    while fi < nf
        invariant
            fi <= nf,
            nf == cfg.features@.len(),
            route_pair_views(out@) == all_route_pairs(cfg.features@.subrange(0, fi as int)),
        decreases nf - fi,
    {
        let nr = cfg.features[fi].manifest.routes.len();
        let mut ri: usize = 0;
        while ri < nr
            invariant
                fi < nf,
                ri <= nr,
                nf == cfg.features@.len(),
                nr == cfg.features@[fi as int].manifest.routes@.len(),
                route_pair_views(out@) == all_route_pairs(cfg.features@.subrange(0, fi as int))
                    + feature_route_pairs(
                    cfg.features@[fi as int].manifest.routes@.subrange(0, ri as int),
                ),
            decreases nr - ri,
        {
            let route = &cfg.features[fi].manifest.routes[ri];
            let ghost old_out = out@;
            out.push((route.path.clone(), route.authenticated));
            proof {
                let routes = cfg.features@[fi as int].manifest.routes@;
                assert(routes.subrange(0, ri as int).push(routes[ri as int]) =~= routes.subrange(
                    0,
                    ri + 1,
                ));
                assert(route_pair_views(out@) =~= route_pair_views(old_out).push(
                    (routes[ri as int].path@, routes[ri as int].authenticated),
                ));
                assert(feature_route_pairs(routes.subrange(0, ri + 1)) =~= feature_route_pairs(
                    routes.subrange(0, ri as int),
                ).push((routes[ri as int].path@, routes[ri as int].authenticated)));
            }
            ri += 1;
        }
        proof {
            let pre = cfg.features@.subrange(0, fi + 1);
            assert(pre.drop_last() =~= cfg.features@.subrange(0, fi as int));
            assert(pre.last() == cfg.features@[fi as int]);
            let routes = cfg.features@[fi as int].manifest.routes@;
            assert(routes.subrange(0, nr as int) =~= routes);
        }
        fi += 1;
    }
    proof {
        assert(cfg.features@.subrange(0, nf as int) =~= cfg.features@);
    }
    out
}

/// Feature routes outrank auth routes: whenever some feature pack matches the
/// path, the returned document and `authenticated` flag come from the first
/// matching feature route, never from an auth route or the layout fallback.
pub proof fn lemma_feature_routes_outrank_auth(
    cfg: TenantGuiConfig,
    path: Seq<char>,
    rr: ResolvedRoute,
)
    requires
        resolved_route_ok(cfg, path, rr),
        first_true(feature_flags(cfg.features@, normalize_spec(path))) is Some,
    ensures
        rr.source is Feature,
        ({
            let np = normalize_spec(path);
            let f = cfg.features@[first_true(feature_flags(cfg.features@, np))->Some_0];
            let route = f.manifest.routes@[first_true(route_flags(f.manifest.routes@, np))->Some_0];
            rr.html_path@ == join_path(f.location.assets@, route.html@) && rr.authenticated
                == route.authenticated
        }),
{
}

} // verus!
