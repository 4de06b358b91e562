//! Widgets in the registry: references to widget packages, the checks made on
//! a package's manifest, and the preview assembled from its annotations.

use vstd::prelude::*;

use crate::catalog::{WidgetManifest, WidgetManifestAuthor};
use crate::settings::map_get;
use crate::string_map::StringMap;
use crate::text::{before_first, has_suffix, prefix_before, str_ends_with, str_equal};

verus! {

/// The base of the widgets registry in GHCR.
pub const REGISTRY_BASE: &'static str = "ghcr.io/deskulpt-apps/widgets";

/// The artifact type of widget packages.
pub const EXPECTED_ARTIFACT_TYPE: &'static str = "application/vnd.deskulpt.widget.v1";

/// The media type suffix of the layer holding the widget files.
pub const LAYER_MEDIA_SUFFIX: &'static str = "tar+gzip";

/// Annotation: creation datetime of the package.
pub const ANNOTATION_CREATED: &'static str = "org.opencontainers.image.created";

/// Annotation: source repository of the package.
pub const ANNOTATION_SOURCE: &'static str = "org.opencontainers.image.source";

/// Annotation: display name of the widget.
pub const ANNOTATION_TITLE: &'static str = "org.opencontainers.image.title";

/// Annotation: version of the widget.
pub const ANNOTATION_VERSION: &'static str = "org.opencontainers.image.version";

/// Annotation: authors of the widget, as JSON.
pub const ANNOTATION_AUTHORS: &'static str = "org.opencontainers.image.authors";

/// Annotation: license of the widget.
pub const ANNOTATION_LICENSES: &'static str = "org.opencontainers.image.licenses";

/// Annotation: description of the widget.
pub const ANNOTATION_DESCRIPTION: &'static str = "org.opencontainers.image.description";

/// Annotation: homepage of the widget.
pub const ANNOTATION_URL: &'static str = "org.opencontainers.image.url";

/// A reference to a widget in the registry: publisher handle, widget ID
/// (unique within the publisher's namespace) and the SHA-256 digest of the
/// package. Together they identify a package uniquely and immutably.
#[derive(Debug)]
pub struct RegistryWidgetReference {
    pub handle: String,
    pub id: String,
    pub digest: String,
}

/// The local ID of a registry widget: `@handle.id`.
pub open spec fn local_id_of(handle: Seq<char>, id: Seq<char>) -> Seq<char> {
    "@"@ + handle + "."@ + id
}

/// The full OCI reference text of a registry widget package.
pub open spec fn reference_text_of(handle: Seq<char>, id: Seq<char>, digest: Seq<char>) -> Seq<char> {
    REGISTRY_BASE@ + "/"@ + handle + "/"@ + id + "@"@ + digest
}

/// Local IDs tell registry widgets apart: two widgets whose publisher handles
/// hold no `.` have the same local ID only when they have the same handle and
/// the same ID. (A handle with a `.` can collide: `@a.b.c` is both handle `a`
/// with ID `b.c` and handle `a.b` with ID `c`.)
pub proof fn lemma_local_id_unique(h1: Seq<char>, i1: Seq<char>, h2: Seq<char>, i2: Seq<char>)
    requires
        !h1.contains('.'),
        !h2.contains('.'),
        local_id_of(h1, i1) == local_id_of(h2, i2),
    ensures
        h1 == h2,
        i1 == i2,
{
    reveal_strlit("@");
    reveal_strlit(".");
    let s = local_id_of(h1, i1);
    let n1 = h1.len() as int;
    let n2 = h2.len() as int;
    assert(s == "@"@ + h1 + "."@ + i1);
    assert(s.len() == h1.len() + i1.len() + 2);
    assert(s[n1 + 1] == '.');
    assert(local_id_of(h2, i2)[n2 + 1] == '.');
    if n1 < n2 {
        assert(local_id_of(h2, i2)[n1 + 1] == h2[n1]);
        assert(h2.contains(h2[n1]));
    } else if n2 < n1 {
        assert(s[n2 + 1] == h1[n2]);
        assert(h1.contains(h1[n2]));
    }
    assert(h1.len() == h2.len());
    assert(h1 =~= s.subrange(1, n1 + 1));
    assert(h2 =~= local_id_of(h2, i2).subrange(1, n2 + 1));
    assert(i1 =~= s.subrange(n1 + 2, s.len() as int));
    assert(i2 =~= local_id_of(h2, i2).subrange(n2 + 2, s.len() as int));
}

/// A parsed OCI reference together with its canonical text.
pub struct WidgetLocation {
    pub reference: oci_client::Reference,
    pub whole: String,
}

#[verifier::external_type_specification]
#[verifier::external_body]
pub struct ExReference(oci_client::Reference);

/// What `oci_client::Reference::try_from` makes of a text: the canonical text
/// of the parsed reference (its `Display` form), or the message of the parse
/// error.
pub uninterp spec fn reference_parse(text: Seq<char>) -> Result<Seq<char>, Seq<char>>;

/// The texts carried by a location result.
pub open spec fn location_view(r: Result<WidgetLocation, String>) -> Result<Seq<char>, Seq<char>> {
    match r {
        Ok(l) => Ok(l.whole@),
        Err(e) => Err(e@),
    }
}

/// Parse `text` with `oci_client::Reference::try_from`. On success the
/// reference is returned with its `Display` text, on failure the parse error's
/// message. Both are named by [`reference_parse`], a function of the text
/// alone; nothing more is claimed of them.
#[verifier::external_body]
fn parse_reference(text: &str) -> (r: Result<WidgetLocation, String>)
    ensures
        location_view(r) == reference_parse(text@),
{
    match oci_client::Reference::try_from(text) {
        Ok(reference) => {
            let whole = reference.whole();
            Ok(WidgetLocation { reference, whole })
        },
        Err(e) => Err(e.to_string()),
    }
}

impl RegistryWidgetReference {
    /// Create a reference from its parts.
    pub fn new(handle: String, id: String, digest: String) -> (r: Self)
        ensures
            r.handle == handle,
            r.id == id,
            r.digest == digest,
    {
        RegistryWidgetReference { handle, id, digest }
    }

    /// The local ID of the widget, `@handle.id`: globally unique, valid as a
    /// file name and readable; the leading `@` keeps it apart from purely
    /// local widgets.
    pub fn local_id(&self) -> (r: String)
        ensures
            r@ == local_id_of(self.handle@, self.id@),
    {
        let mut r = String::from_str("@");
        r.append(self.handle.as_str());
        r.append(".");
        r.append(self.id.as_str());
        r
    }

    /// The full OCI reference text of the package:
    /// `ghcr.io/deskulpt-apps/widgets/{handle}/{id}@{digest}`.
    pub fn reference_text(&self) -> (r: String)
        ensures
            r@ == reference_text_of(self.handle@, self.id@, self.digest@),
    {
        let mut r = String::from_str(REGISTRY_BASE);
        r.append("/");
        r.append(self.handle.as_str());
        r.append("/");
        r.append(self.id.as_str());
        r.append("@");
        r.append(self.digest.as_str());
        r
    }

    /// Parse the package's OCI reference.
    pub fn locate(&self) -> (r: Result<WidgetLocation, String>)
        ensures
            location_view(r) == reference_parse(reference_text_of(self.handle@, self.id@, self.digest@)),
    {
        let text = self.reference_text();
        parse_reference(text.as_str())
    }
}

/// A layer of a package as its image manifest describes it.
#[derive(Debug)]
pub struct ImageLayer {
    pub media_type: String,
    pub digest: String,
    pub size: i64,
}

/// The image manifest of a package, as far as the checks read it.
pub struct ImageManifest {
    pub artifact_type: Option<String>,
    pub layers: Vec<ImageLayer>,
    pub annotations: Option<StringMap<String>>,
}

/// A package that passed the checks: its single layer and its annotations.
pub struct WidgetDescriptor {
    pub layer: ImageLayer,
    pub annotations: Option<StringMap<String>>,
}

/// Why a package manifest was refused.
#[derive(Debug)]
pub enum DescriptorError {
    /// The artifact type is not that of widget packages; carries the one found.
    ArtifactType(Option<String>),
    /// The package does not have exactly one layer; carries the count.
    LayerCount(usize),
    /// The layer is not a gzip-compressed tarball; carries its media type.
    MediaType(String),
}

/// The artifact type is that of widget packages.
pub open spec fn artifact_type_ok(t: Option<String>) -> bool {
    match t {
        Some(t) => t@ == EXPECTED_ARTIFACT_TYPE@,
        None => false,
    }
}

/// The annotations are well formed where present.
pub open spec fn annotations_wf(a: Option<StringMap<String>>) -> bool {
    match a {
        Some(m) => m.wf(),
        None => true,
    }
}

/// Check the image manifest of a widget package: its artifact type must be
/// that of widget packages, it must have exactly one layer, and that layer
/// must be a gzip-compressed tarball (media type ending in `tar+gzip`).
pub fn check_manifest(manifest: ImageManifest) -> (r: Result<WidgetDescriptor, DescriptorError>)
    ensures
        !artifact_type_ok(manifest.artifact_type) ==> r == Err::<WidgetDescriptor, DescriptorError>(
            DescriptorError::ArtifactType(manifest.artifact_type),
        ),
        artifact_type_ok(manifest.artifact_type) && manifest.layers.len() != 1 ==> r == Err::<
            WidgetDescriptor,
            DescriptorError,
        >(DescriptorError::LayerCount(manifest.layers.len())),
        artifact_type_ok(manifest.artifact_type) && manifest.layers.len() == 1 && !has_suffix(
            manifest.layers@[0].media_type@,
            LAYER_MEDIA_SUFFIX@,
        ) ==> r == Err::<WidgetDescriptor, DescriptorError>(
            DescriptorError::MediaType(manifest.layers@[0].media_type),
        ),
        artifact_type_ok(manifest.artifact_type) && manifest.layers.len() == 1 && has_suffix(
            manifest.layers@[0].media_type@,
            LAYER_MEDIA_SUFFIX@,
        ) ==> r == Ok::<WidgetDescriptor, DescriptorError>(
            WidgetDescriptor { layer: manifest.layers@[0], annotations: manifest.annotations },
        ),
{
    let ImageManifest { artifact_type, layers, annotations } = manifest;
    let type_ok = match &artifact_type {
        Some(t) => str_equal(t.as_str(), EXPECTED_ARTIFACT_TYPE),
        None => false,
    };
    if !type_ok {
        return Err(DescriptorError::ArtifactType(artifact_type));
    }
    let n = layers.len();
    if n != 1 {
        return Err(DescriptorError::LayerCount(n));
    }
    let mut layers = layers;
    let layer = layers.remove(0);
    if !str_ends_with(layer.media_type.as_str(), LAYER_MEDIA_SUFFIX) {
        return Err(DescriptorError::MediaType(layer.media_type));
    }
    Ok(WidgetDescriptor { layer, annotations })
}

/// Preview information about a widget in the registry, read from its package
/// metadata without downloading the widget files.
#[derive(Debug)]
pub struct RegistryWidgetPreview {
    /// The local ID of the widget.
    pub id: String,
    /// The size of the widget package in bytes.
    pub size: u64,
    /// The URL of the widget package in the registry.
    pub registry_url: String,
    /// The creation datetime of the package, in ISO 8601 format.
    pub created: Option<String>,
    /// The git repository URL of the widget source code.
    pub git: Option<String>,
    /// More information as in the widget manifest.
    pub manifest: WidgetManifest,
}

/// The value of annotation `key`, if the package has annotations and this one.
pub open spec fn annotation(a: Option<StringMap<String>>, key: Seq<char>) -> Option<String> {
    match a {
        Some(m) => map_get(m@, key),
        None => None,
    }
}

/// The repository URL named by a source annotation: the part before any `@`.
pub open spec fn git_of(source: Option<String>) -> Option<Seq<char>> {
    match source {
        Some(s) => Some(prefix_before(s@, '@')),
        None => None,
    }
}

/// The characters of an optional string, the empty sequence for none.
pub open spec fn text_or_empty(o: Option<String>) -> Seq<char> {
    match o {
        Some(s) => s@,
        None => Seq::empty(),
    }
}

/// Look up an annotation of a package.
pub fn lookup_annotation(a: &Option<StringMap<String>>, key: &str) -> (r: Option<String>)
    requires
        annotations_wf(*a),
    ensures
        r == annotation(*a, key@),
{
    match a {
        Some(m) => match m.get(key) {
            Some(v) => Some(v.clone()),
            None => None,
        },
        None => None,
    }
}

impl WidgetDescriptor {
    /// The authors annotation of the package: JSON text that, when it parses,
    /// gives the authors of the preview.
    pub fn authors_annotation(&self) -> (r: Option<String>)
        requires
            annotations_wf(self.annotations),
        ensures
            r == annotation(self.annotations, ANNOTATION_AUTHORS@),
    {
        lookup_annotation(&self.annotations, ANNOTATION_AUTHORS)
    }
}

/// Assemble the preview of a registry widget from its checked package.
///
/// `whole` is the canonical text of the package's OCI reference, and `authors`
/// the authors parsed from the package's authors annotation (`None` where it
/// is absent or is not valid JSON); they are used only where that annotation
/// is present.
pub fn preview(
    widget: &RegistryWidgetReference,
    whole: &str,
    descriptor: WidgetDescriptor,
    authors: Option<Vec<WidgetManifestAuthor>>,
) -> (p: RegistryWidgetPreview)
    requires
        annotations_wf(descriptor.annotations),
    ensures
        p.id@ == local_id_of(widget.handle@, widget.id@),
        p.size == descriptor.layer.size as u64,
        p.registry_url@ == "https://"@ + whole@,
        p.created == annotation(descriptor.annotations, ANNOTATION_CREATED@),
        crate::settings::opt_seq(p.git) == git_of(annotation(descriptor.annotations, ANNOTATION_SOURCE@)),
        p.manifest.name@ == text_or_empty(annotation(descriptor.annotations, ANNOTATION_TITLE@)),
        p.manifest.version == annotation(descriptor.annotations, ANNOTATION_VERSION@),
        p.manifest.authors == (if annotation(descriptor.annotations, ANNOTATION_AUTHORS@) is Some {
            authors
        } else {
            None
        }),
        p.manifest.license == annotation(descriptor.annotations, ANNOTATION_LICENSES@),
        p.manifest.description == annotation(descriptor.annotations, ANNOTATION_DESCRIPTION@),
        p.manifest.homepage == annotation(descriptor.annotations, ANNOTATION_URL@),
        p.manifest.entry@ == Seq::<char>::empty(),
        !p.manifest.ignore,
{
    let a = &descriptor.annotations;
    let mut registry_url = String::from_str("https://");
    registry_url.append(whole);
    let created = lookup_annotation(a, ANNOTATION_CREATED);
    let git = match lookup_annotation(a, ANNOTATION_SOURCE) {
        Some(source) => Some(before_first(source.as_str(), '@')),
        None => None,
    };
    let name = match lookup_annotation(a, ANNOTATION_TITLE) {
        Some(t) => t,
        None => String::new(),
    };
    let authors = match lookup_annotation(a, ANNOTATION_AUTHORS) {
        Some(_) => authors,
        None => None,
    };
    let manifest = WidgetManifest {
        name,
        version: lookup_annotation(a, ANNOTATION_VERSION),
        authors,
        license: lookup_annotation(a, ANNOTATION_LICENSES),
        description: lookup_annotation(a, ANNOTATION_DESCRIPTION),
        homepage: lookup_annotation(a, ANNOTATION_URL),
        entry: String::new(),
        ignore: false,
    };
    RegistryWidgetPreview {
        id: widget.local_id(),
        size: descriptor.layer.size as u64,
        registry_url,
        created,
        git,
        manifest,
    }
}

/// Whether a registry widget may be installed, given whether its directory
/// exists: a widget that is already there is refused.
pub fn check_installable(local_id: &str, exists: bool) -> (r: Result<(), String>)
    ensures
        !exists ==> r is Ok,
        exists ==> (r matches Err(e) && e@ == "Widget "@ + local_id@ + " already installed"@),
{
    if exists {
        let mut e = String::from_str("Widget ");
        e.append(local_id);
        e.append(" already installed");
        Err(e)
    } else {
        Ok(())
    }
}

/// Whether a registry widget may be uninstalled or upgraded, given whether
/// its directory exists: a widget that is not there is refused.
pub fn check_installed(local_id: &str, exists: bool) -> (r: Result<(), String>)
    ensures
        exists ==> r is Ok,
        !exists ==> (r matches Err(e) && e@ == "Widget "@ + local_id@ + " is not installed"@),
{
    if exists {
        Ok(())
    } else {
        let mut e = String::from_str("Widget ");
        e.append(local_id);
        e.append(" is not installed");
        Err(e)
    }
}

} // verus!
