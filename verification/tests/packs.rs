//! Packs: manifest dispatch, asset roots, the resolution cache, and the
//! secret-requirement aggregation.

use greentic_gui::packs::{
    artifact_staging_paths, extraction_fallback, materialize_internal, oci_auth_choice,
    pack_from_doc, parse_kind_alias, select_packs, ArchiveFormat, ArtifactLocation, AuthManifest,
    AuthRoute, FeatureManifest, FsPackProvider, GuiPack, LayoutConfig, LayoutManifest,
    ManifestDoc, MaterializeStep, materialize_step, OciAuth, PackKind, ResolutionCache,
    ResolveStep,
};
use greentic_gui::secrets::{dedup_requirements, requirement_key, SecretRequirement, SecretScope};
use greentic_gui::tenant::TenantGuiConfig;

fn layout_manifest() -> LayoutManifest {
    LayoutManifest {
        kind: "gui-layout".to_string(),
        layout: LayoutConfig {
            slots: vec!["main".to_string()],
            entrypoint_html: "index.html".to_string(),
            spa: true,
            slot_selectors: vec![],
        },
    }
}

#[test]
fn pack_from_doc_accepts_matching_kind() {
    let pack = pack_from_doc(
        ManifestDoc::Layout(layout_manifest()),
        "/packs/t/layout".to_string(),
        PackKind::GuiLayout,
    )
    .expect("layout accepted");
    assert_eq!(pack.root(), "/packs/t/layout");
    assert_eq!(pack.assets_root(), "/packs/t/layout/gui/assets");
    assert!(matches!(pack, GuiPack::Layout { .. }));
}

#[test]
fn pack_from_doc_rejects_mismatched_kind() {
    // a layout manifest offered where a feature was requested is absent, not an error
    let r = pack_from_doc(
        ManifestDoc::Layout(layout_manifest()),
        "/packs/t/layout".to_string(),
        PackKind::GuiFeature,
    );
    assert!(r.is_none());
    // a manifest lying about its kind string is treated as absent too
    let mut lying = layout_manifest();
    lying.kind = "gui-feature".to_string();
    let r = pack_from_doc(
        ManifestDoc::Layout(lying),
        "/packs/t/layout".to_string(),
        PackKind::GuiLayout,
    );
    assert!(r.is_none());
    assert!(pack_from_doc(ManifestDoc::Unknown, "/p".to_string(), PackKind::GuiSkin).is_none());
}

#[test]
fn kind_aliases_cover_short_and_full_names() {
    assert_eq!(parse_kind_alias("layout"), Some(PackKind::GuiLayout));
    assert_eq!(parse_kind_alias("gui-layout"), Some(PackKind::GuiLayout));
    assert_eq!(parse_kind_alias("auth"), Some(PackKind::GuiAuth));
    assert_eq!(parse_kind_alias("feature"), Some(PackKind::GuiFeature));
    assert_eq!(parse_kind_alias("gui-skin"), Some(PackKind::GuiSkin));
    assert_eq!(parse_kind_alias("telemetry"), Some(PackKind::GuiTelemetry));
    assert_eq!(parse_kind_alias("styles"), None);
}

#[test]
fn fs_provider_lays_out_tenant_packs() {
    let provider = FsPackProvider::new("/srv/packs".to_string());
    assert_eq!(
        provider.tenant_pack_root("acme", "billing"),
        "/srv/packs/acme/billing"
    );
}

/// One remote resolution against a counting stand-in for the distributor,
/// sequenced by the library's `resolve_step`.
fn resolve_via(
    cache: &mut ResolutionCache,
    calls: &mut u32,
    tenant: &str,
    kind: PackKind,
) -> Option<String> {
    match greentic_gui::packs::resolve_step(cache, tenant, kind, true) {
        ResolveStep::Absent => None,
        ResolveStep::UseCached(path) => Some(path),
        ResolveStep::ResolveRemotely => {
            *calls += 1;
            let path = format!("/var/cache/{}-{}", tenant, *calls);
            cache.insert(tenant.to_string(), kind, path.clone());
            Some(path)
        }
    }
}

#[test]
fn repeated_resolution_is_cached_until_cleared() {
    let mut cache = ResolutionCache::new();
    let mut calls: u32 = 0;

    let first = resolve_via(&mut cache, &mut calls, "acme", PackKind::GuiLayout).unwrap();
    let second = resolve_via(&mut cache, &mut calls, "acme", PackKind::GuiLayout).unwrap();
    assert_eq!(first, second);
    assert_eq!(calls, 1);

    // a different key resolves on its own
    let other = resolve_via(&mut cache, &mut calls, "acme", PackKind::GuiAuth).unwrap();
    assert_ne!(other, first);
    assert_eq!(calls, 2);

    cache.clear();
    let third = resolve_via(&mut cache, &mut calls, "acme", PackKind::GuiLayout).unwrap();
    assert_eq!(calls, 3);
    assert_ne!(third, first);

    // no configured pack reference: no resolution at all
    assert!(matches!(
        greentic_gui::packs::resolve_step(&cache, "acme", PackKind::GuiSkin, false),
        ResolveStep::Absent
    ));
}

#[test]
fn extraction_tries_gzip_tar_then_plain_tar() {
    assert_eq!(extraction_fallback(None), Some(ArchiveFormat::GzipTar));
    assert_eq!(
        extraction_fallback(Some(ArchiveFormat::GzipTar)),
        Some(ArchiveFormat::PlainTar)
    );
    // a failure of the plain attempt is final
    assert_eq!(extraction_fallback(Some(ArchiveFormat::PlainTar)), None);
}

#[test]
fn select_packs_slots_first_matches_and_collects_features() {
    let feature = |root: &str| {
        (
            root.to_string(),
            ManifestDoc::Feature(FeatureManifest {
                kind: "gui-feature".to_string(),
                routes: vec![],
                digital_workers: vec![],
                fragments: vec![],
            }),
        )
    };
    let docs = vec![
        feature("/p/billing"),
        ("/p/skin".to_string(), ManifestDoc::Skin("{}".to_string())),
        ("/p/layout".to_string(), ManifestDoc::Layout(layout_manifest())),
        ("/p/layout2".to_string(), ManifestDoc::Layout(layout_manifest())),
        ("/p/broken".to_string(), ManifestDoc::Unknown),
        feature("/p/news"),
    ];
    let selected = select_packs(docs);
    // the first layout wins; the second is skipped
    assert_eq!(selected.layout.as_ref().map(|p| p.root()), Some("/p/layout"));
    assert!(selected.auth.is_none());
    assert_eq!(selected.skin.as_ref().map(|p| p.root()), Some("/p/skin"));
    assert!(selected.telemetry.is_none());
    // features keep their directory order
    assert_eq!(selected.features.len(), 2);
    assert_eq!(selected.features[0].root(), "/p/billing");
    assert_eq!(selected.features[1].root(), "/p/news");
}

#[test]
fn artifact_locations_decide_their_materialization() {
    assert_eq!(
        materialize_step(&ArtifactLocation::FilePath { path: "/a".to_string() }),
        MaterializeStep::UseLocalPath
    );
    assert_eq!(
        materialize_step(&ArtifactLocation::OciReference { reference: "r".to_string() }),
        MaterializeStep::Download
    );
    assert_eq!(
        materialize_step(&ArtifactLocation::DistributorInternal { handle: "h".to_string() }),
        MaterializeStep::TreatHandleAsPath
    );
}

#[test]
fn download_auth_prefers_bearer_then_full_basic_pair() {
    match oci_auth_choice(Some("tok".to_string()), Some("u".to_string()), None) {
        OciAuth::Bearer(t) => assert_eq!(t, "tok"),
        other => panic!("expected bearer, got {:?}", other),
    }
    match oci_auth_choice(None, Some("u".to_string()), Some("p".to_string())) {
        OciAuth::Basic(u, p) => {
            assert_eq!(u, "u");
            assert_eq!(p, "p");
        }
        other => panic!("expected basic, got {:?}", other),
    }
    // half a credential pair is ignored, but noted
    assert!(matches!(
        oci_auth_choice(None, Some("u".to_string()), None),
        OciAuth::Anonymous { partial_credentials: true }
    ));
    assert!(matches!(
        oci_auth_choice(None, None, None),
        OciAuth::Anonymous { partial_credentials: false }
    ));
}

#[test]
fn artifact_staging_paths_follow_the_token() {
    let (dir, archive) = artifact_staging_paths("/tmp", "3f2b");
    assert_eq!(dir, "/tmp/greentic_gui_3f2b");
    assert_eq!(archive, "/tmp/greentic_gui_3f2b/artifact.tar");
}

#[test]
fn internal_handle_must_be_an_existing_local_path() {
    assert_eq!(materialize_internal("/present", true), Ok("/present".to_string()));
    // anything else fails explicitly rather than silently
    assert!(materialize_internal("oci://opaque", false).is_err());
}

fn requirement(key: &str) -> SecretRequirement {
    SecretRequirement {
        key: key.to_string(),
        scope: Some(SecretScope {
            env: "dev".to_string(),
            tenant: "tenant".to_string(),
            team: None,
        }),
        description: None,
    }
}

#[test]
fn dedups_secret_requirements() {
    let req1 = requirement("db/password");
    let mut req2 = req1.clone();
    req2.description = Some("duplicate with description".to_string());

    let deduped = dedup_requirements(vec![req1.clone(), req2]);
    assert_eq!(deduped.len(), 1);
    assert_eq!(deduped[0].key.as_str(), "db/password");
}

#[test]
fn requirement_keys_spell_out_scope_and_key() {
    assert_eq!(requirement_key(&requirement("db/password")), "dev/tenant/_::db/password");
    let unscoped = SecretRequirement {
        key: "api/token".to_string(),
        scope: None,
        description: None,
    };
    assert_eq!(requirement_key(&unscoped), "_/_/_::api/token");
    let teamed = SecretRequirement {
        key: "k".to_string(),
        scope: Some(SecretScope {
            env: "prod".to_string(),
            tenant: "acme".to_string(),
            team: Some("gui".to_string()),
        }),
        description: None,
    };
    assert_eq!(requirement_key(&teamed), "prod/acme/gui::k");
}

#[test]
fn tenant_load_assembles_and_dedups() {
    let layout = GuiPack::Layout {
        manifest: layout_manifest(),
        root: "/packs/acme/layout".to_string(),
        secret_requirements: vec![requirement("db/password")],
        pack_hint: None,
    };
    let auth = GuiPack::Auth {
        manifest: AuthManifest {
            kind: "gui-auth".to_string(),
            routes: vec![AuthRoute {
                path: "/login".to_string(),
                public: true,
                html: "login.html".to_string(),
            }],
            oauth: "{}".to_string(),
            ui_bindings: "{}".to_string(),
        },
        root: "/packs/acme/auth".to_string(),
        secret_requirements: vec![requirement("db/password")],
        pack_hint: None,
    };
    let feature = GuiPack::Feature {
        manifest: FeatureManifest {
            kind: "gui-feature".to_string(),
            routes: vec![],
            digital_workers: vec![],
            fragments: vec![],
        },
        root: "/packs/acme/billing".to_string(),
        secret_requirements: vec![requirement("stripe/key")],
        pack_hint: Some("billing@1".to_string()),
    };

    let cfg = TenantGuiConfig::load(
        "acme",
        "acme.example",
        layout,
        Some(auth),
        None,
        None,
        vec![feature],
    )
    .expect("assembles");
    assert_eq!(cfg.tenant_did, "acme");
    assert_eq!(cfg.domain, "acme.example");
    assert_eq!(cfg.layout.location.assets, "/packs/acme/layout/gui/assets");
    assert!(cfg.auth.is_some());
    assert_eq!(cfg.features.len(), 1);
    assert_eq!(cfg.features[0].location.assets, "/packs/acme/billing/gui/assets");
    assert_eq!(cfg.features[0].location.pack_hint.as_deref(), Some("billing@1"));
    // db/password appears twice across packs but once after deduplication
    assert_eq!(cfg.secret_requirements.len(), 2);
    assert_eq!(cfg.secret_requirements[0].key, "db/password");
    assert_eq!(cfg.secret_requirements[1].key, "stripe/key");
}

#[test]
fn tenant_load_requires_a_layout_pack() {
    let not_layout = GuiPack::Skin {
        manifest: "{}".to_string(),
        root: "/packs/acme/skin".to_string(),
        secret_requirements: vec![],
        pack_hint: None,
    };
    let r = TenantGuiConfig::load("acme", "acme.example", not_layout, None, None, None, vec![]);
    assert!(r.is_err());
}

#[test]
fn tenant_load_skips_non_feature_packs_in_the_feature_list() {
    let layout = GuiPack::Layout {
        manifest: layout_manifest(),
        root: "/l".to_string(),
        secret_requirements: vec![],
        pack_hint: None,
    };
    let stray = GuiPack::Skin {
        manifest: "{}".to_string(),
        root: "/s".to_string(),
        secret_requirements: vec![],
        pack_hint: None,
    };
    let feature = GuiPack::Feature {
        manifest: FeatureManifest {
            kind: "gui-feature".to_string(),
            routes: vec![],
            digital_workers: vec![],
            fragments: vec![],
        },
        root: "/f".to_string(),
        secret_requirements: vec![],
        pack_hint: None,
    };
    let cfg = TenantGuiConfig::load("t", "d", layout, None, None, None, vec![stray, feature])
        .expect("assembles");
    assert_eq!(cfg.features.len(), 1);
    assert_eq!(cfg.features[0].location.root, "/f");
    // a non-auth pack in the auth slot is treated as absent
    assert!(cfg.auth.is_none());
}
