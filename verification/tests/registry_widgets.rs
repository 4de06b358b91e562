use deskulpt::catalog::{WidgetManifest, WidgetManifestAuthor};
use deskulpt::registry::{
    check_installable, check_installed, check_manifest, preview, DescriptorError, ImageLayer, ImageManifest, RegistryWidgetReference,
    WidgetDescriptor,
};
use deskulpt::string_map::StringMap;

const DIGEST: &str = "sha256:ffffffffffffffffffffffffffffffffffffffffffffffffffffffffffffffff";

fn reference() -> RegistryWidgetReference {
    RegistryWidgetReference::new("alice".to_string(), "clock".to_string(), DIGEST.to_string())
}

fn layer(media_type: &str, size: i64) -> ImageLayer {
    ImageLayer {
        media_type: media_type.to_string(),
        digest: "sha256:00".to_string(),
        size,
    }
}

fn good_manifest(annotations: Option<StringMap<String>>) -> ImageManifest {
    ImageManifest {
        artifact_type: Some("application/vnd.deskulpt.widget.v1".to_string()),
        layers: vec![layer("application/vnd.oci.image.layer.v1.tar+gzip", 2048)],
        annotations,
    }
}

#[test]
fn local_id_is_at_handle_dot_id() {
    assert_eq!(reference().local_id(), "@alice.clock");
}

#[test]
fn reference_text_names_the_package() {
    assert_eq!(
        reference().reference_text(),
        format!("ghcr.io/deskulpt-apps/widgets/alice/clock@{DIGEST}")
    );
}

#[test]
fn locate_parses_a_valid_reference() {
    let location = reference().locate().unwrap();
    assert_eq!(location.whole, format!("ghcr.io/deskulpt-apps/widgets/alice/clock@{DIGEST}"));
}

#[test]
fn locate_refuses_an_invalid_digest() {
    let bad = RegistryWidgetReference::new("alice".to_string(), "clock".to_string(), format!("sha256:{}", "f".repeat(32)));
    let err = bad.locate().err().unwrap();
    assert_eq!(err, "invalid checksum digest length");
}

#[test]
fn locate_refuses_uppercase_repository() {
    let bad = RegistryWidgetReference::new("Alice".to_string(), "clock".to_string(), DIGEST.to_string());
    assert!(bad.locate().is_err());
}

#[test]
fn check_manifest_accepts_a_widget_package() {
    let d = check_manifest(good_manifest(None)).unwrap();
    assert_eq!(d.layer.size, 2048);
    assert!(d.annotations.is_none());
}

#[test]
fn check_manifest_refuses_wrong_artifact_type() {
    let mut m = good_manifest(None);
    m.artifact_type = Some("application/vnd.other".to_string());
    match check_manifest(m) {
        Err(DescriptorError::ArtifactType(Some(t))) => assert_eq!(t, "application/vnd.other"),
        _ => panic!("expected an artifact type error"),
    }
    let mut m = good_manifest(None);
    m.artifact_type = None;
    assert!(matches!(check_manifest(m), Err(DescriptorError::ArtifactType(None))));
}

#[test]
fn check_manifest_refuses_layer_counts_other_than_one() {
    let mut m = good_manifest(None);
    m.layers.push(layer("x.tar+gzip", 1));
    assert!(matches!(check_manifest(m), Err(DescriptorError::LayerCount(2))));
    let mut m = good_manifest(None);
    m.layers.clear();
    assert!(matches!(check_manifest(m), Err(DescriptorError::LayerCount(0))));
}

#[test]
fn check_manifest_refuses_non_gzip_layers() {
    let mut m = good_manifest(None);
    m.layers = vec![layer("application/vnd.oci.image.layer.v1.tar", 3)];
    match check_manifest(m) {
        Err(DescriptorError::MediaType(t)) => assert_eq!(t, "application/vnd.oci.image.layer.v1.tar"),
        _ => panic!("expected a media type error"),
    }
}

fn annotations() -> StringMap<String> {
    let mut a = StringMap::new();
    a.insert("org.opencontainers.image.created".to_string(), "2024-01-02T03:04:05Z".to_string());
    a.insert(
        "org.opencontainers.image.source".to_string(),
        "https://github.com/alice/clock@abc123".to_string(),
    );
    a.insert("org.opencontainers.image.title".to_string(), "Clock".to_string());
    a.insert("org.opencontainers.image.version".to_string(), "1.0.0".to_string());
    a.insert("org.opencontainers.image.authors".to_string(), "[\"Alice\"]".to_string());
    a.insert("org.opencontainers.image.licenses".to_string(), "MIT".to_string());
    a.insert("org.opencontainers.image.description".to_string(), "A clock".to_string());
    a.insert("org.opencontainers.image.url".to_string(), "https://clock.example".to_string());
    a
}

#[test]
fn preview_reads_the_annotations() {
    let d = check_manifest(good_manifest(Some(annotations()))).unwrap();
    assert_eq!(d.authors_annotation().unwrap(), "[\"Alice\"]");
    let authors = Some(vec![WidgetManifestAuthor::Name("Alice".to_string())]);
    let whole = format!("ghcr.io/deskulpt-apps/widgets/alice/clock@{DIGEST}");
    let p = preview(&reference(), &whole, d, authors);
    assert_eq!(p.id, "@alice.clock");
    assert_eq!(p.size, 2048);
    assert_eq!(p.registry_url, format!("https://{whole}"));
    assert_eq!(p.created.as_deref(), Some("2024-01-02T03:04:05Z"));
    assert_eq!(p.git.as_deref(), Some("https://github.com/alice/clock"));
    let m: WidgetManifest = p.manifest;
    assert_eq!(m.name, "Clock");
    assert_eq!(m.version.as_deref(), Some("1.0.0"));
    assert!(matches!(m.authors.as_deref(), Some([WidgetManifestAuthor::Name(n)]) if n == "Alice"));
    assert_eq!(m.license.as_deref(), Some("MIT"));
    assert_eq!(m.description.as_deref(), Some("A clock"));
    assert_eq!(m.homepage.as_deref(), Some("https://clock.example"));
    assert_eq!(m.entry, "");
    assert!(!m.ignore);
}

#[test]
fn preview_without_annotations_is_bare() {
    let d = check_manifest(good_manifest(None)).unwrap();
    let p = preview(&reference(), "r", d, Some(vec![]));
    assert_eq!(p.registry_url, "https://r");
    assert!(p.created.is_none());
    assert!(p.git.is_none());
    assert_eq!(p.manifest.name, "");
    assert!(p.manifest.authors.is_none());
    assert!(p.manifest.version.is_none());
}

#[test]
fn preview_source_without_at_is_kept_whole() {
    let mut a = StringMap::new();
    a.insert("org.opencontainers.image.source".to_string(), "https://github.com/x/y".to_string());
    let d = WidgetDescriptor { layer: layer("a.tar+gzip", -1), annotations: Some(a) };
    let p = preview(&reference(), "r", d, None);
    assert_eq!(p.git.as_deref(), Some("https://github.com/x/y"));
    assert_eq!(p.size, u64::MAX);
    assert!(p.manifest.authors.is_none());
}

#[test]
fn install_and_removal_checks() {
    assert!(check_installable("@a.b", false).is_ok());
    assert_eq!(check_installable("@a.b", true).unwrap_err(), "Widget @a.b already installed");
    assert!(check_installed("@a.b", true).is_ok());
    assert_eq!(check_installed("@a.b", false).unwrap_err(), "Widget @a.b is not installed");
}

#[test]
fn local_ids_collide_only_across_dotted_handles() {
    let a = RegistryWidgetReference::new("a".to_string(), "b.c".to_string(), DIGEST.to_string());
    let b = RegistryWidgetReference::new("a.b".to_string(), "c".to_string(), DIGEST.to_string());
    assert_eq!(a.local_id(), b.local_id());
    let c = RegistryWidgetReference::new("ab".to_string(), "c".to_string(), DIGEST.to_string());
    let d = RegistryWidgetReference::new("a".to_string(), "bc".to_string(), DIGEST.to_string());
    assert_ne!(c.local_id(), d.local_id());
}
