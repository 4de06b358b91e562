//! Full widget configuration, assembled from the widget and package manifests.

use vstd::prelude::*;

use crate::catalog::Outcome;
use crate::string_map::StringMap;

verus! {

/// The widget manifest, as far as the configuration needs it.
pub struct WidgetManifest {
    /// The display name of the widget.
    pub name: String,
    /// The entry file, relative to the widget directory.
    pub entry: String,
    /// Whether the widget is to be ignored.
    pub ignore: bool,
}

/// The Node.js package manifest: the widget's dependencies.
pub struct PackageManifest {
    /// Package names mapped to version requirements.
    pub dependencies: StringMap<String>,
}

/// The Node.js package manifest of a widget.
pub struct NodeManifest {
    /// Package names mapped to version requirements.
    pub dependencies: StringMap<String>,
}

impl PackageManifest {
    /// A manifest without dependencies.
    pub fn new() -> (m: Self)
        ensures
            m.dependencies.wf(),
            m.dependencies@ == Map::<Seq<char>, String>::empty(),
    {
        PackageManifest { dependencies: StringMap::new() }
    }
}

/// Full configuration of a widget.
pub struct Config {
    /// The name of the widget.
    pub name: String,
    /// The entry file of the widget.
    pub entry: String,
    /// The dependencies of the widget.
    pub dependencies: StringMap<String>,
}

/// The manifest files a configuration is read from.
#[derive(Clone, Copy, Debug, PartialEq, Eq, Structural)]
pub enum ConfigFile {
    WidgetManifest,
    PackageManifest,
}

impl ConfigFile {
    /// The file name.
    pub open spec fn spec_file_name(self) -> Seq<char> {
        match self {
            ConfigFile::WidgetManifest => "deskulpt.widget.json"@,
            ConfigFile::PackageManifest => "package.json"@,
        }
    }

    /// The file name.
    pub fn file_name(&self) -> (s: &'static str)
        ensures
            s@ == self.spec_file_name(),
    {
        match self {
            ConfigFile::WidgetManifest => "deskulpt.widget.json",
            ConfigFile::PackageManifest => "package.json",
        }
    }
}

/// A manifest file could not be loaded.
#[derive(Debug)]
pub struct ConfigError {
    /// The file that failed to load.
    pub file: ConfigFile,
    /// Why it failed.
    pub cause: String,
}

/// The message of a configuration error.
pub open spec fn config_error_message(file: ConfigFile, cause: Seq<char>) -> Seq<char> {
    "Failed to load "@ + file.spec_file_name() + "\n\nCaused by:\n    "@ + cause
}

impl ConfigError {
    /// The message of the error, with its cause.
    pub fn message(&self) -> (m: String)
        ensures
            m@ == config_error_message(self.file, self.cause@),
    {
        String::from_str("Failed to load ").concat(self.file.file_name()).concat("\n\nCaused by:\n    ").concat(
            self.cause.as_str(),
        )
    }
}

impl Config {
    /// Assemble the configuration of a widget from its loaded manifests.
    ///
    /// Each argument is `Ok(None)` when the file does not exist, or the error
    /// of reading or parsing it. Returns `Ok(None)` when the directory is not a
    /// widget (no widget manifest, or one marked as ignored); a missing package
    /// manifest means no dependencies.
    pub fn load(
        widget: Result<Option<WidgetManifest>, String>,
        package: Result<Option<PackageManifest>, String>,
    ) -> (r: Result<Option<Config>, ConfigError>)
        requires
            package matches Ok(Some(p)) ==> p.dependencies.wf(),
        ensures
            match widget {
                Err(e) => r == Err::<Option<Config>, ConfigError>(
                    ConfigError { file: ConfigFile::WidgetManifest, cause: e },
                ),
                Ok(None) => r == Ok::<Option<Config>, ConfigError>(None),
                Ok(Some(w)) => if w.ignore {
                    r == Ok::<Option<Config>, ConfigError>(None)
                } else {
                    match package {
                        Err(e) => r == Err::<Option<Config>, ConfigError>(
                            ConfigError { file: ConfigFile::PackageManifest, cause: e },
                        ),
                        Ok(p) => match r {
                            Ok(Some(c)) => c.name == w.name && c.entry == w.entry && c.dependencies.wf()
                                && c.dependencies@ == match p {
                                Some(p) => p.dependencies@,
                                None => Map::<Seq<char>, String>::empty(),
                            },
                            _ => false,
                        },
                    }
                },
            },
    {
        let widget_manifest = match widget {
            Err(e) => {
                return Err(ConfigError { file: ConfigFile::WidgetManifest, cause: e });
            },
            Ok(None) => {
                return Ok(None);
            },
            Ok(Some(w)) => {
                if w.ignore {
                    return Ok(None);
                }
                w
            },
        };
        let package_manifest = match package {
            Err(e) => {
                return Err(ConfigError { file: ConfigFile::PackageManifest, cause: e });
            },
            Ok(Some(p)) => p,
            Ok(None) => PackageManifest::new(),
        };
        Ok(
            Some(
                Config {
                    name: widget_manifest.name,
                    entry: widget_manifest.entry,
                    dependencies: package_manifest.dependencies,
                },
            ),
        )
    }
}

/// A directory found in the widgets directory, with its loaded manifests.
pub struct ConfigEntry {
    /// The directory name, which is the widget ID.
    pub id: String,
    /// Whether the entry is a directory.
    pub is_dir: bool,
    /// The widget manifest loaded from the directory.
    pub widget: Result<Option<WidgetManifest>, String>,
    /// The package manifest loaded from the directory.
    pub package: Result<Option<PackageManifest>, String>,
}

/// The entry's loaded package manifest is well formed.
pub open spec fn entry_wf(e: ConfigEntry) -> bool {
    e.package matches Ok(Some(p)) ==> p.dependencies.wf()
}

/// The entry is a widget, possibly one whose configuration failed to load.
pub open spec fn is_config_widget(e: ConfigEntry) -> bool {
    e.is_dir && match e.widget {
        Err(_) => true,
        Ok(None) => false,
        Ok(Some(w)) => !w.ignore,
    }
}

/// The catalog entry of a widget: its configuration or the error message.
pub open spec fn config_outcome_ok(e: ConfigEntry, o: Outcome<Config>) -> bool {
    match e.widget {
        Err(err) => o is Error && o->Error_0@ == config_error_message(ConfigFile::WidgetManifest, err@),
        Ok(None) => false,
        Ok(Some(w)) => match e.package {
            Err(err) => o is Error && o->Error_0@ == config_error_message(ConfigFile::PackageManifest, err@),
            Ok(p) => match o {
                Outcome::Value(c) => c.name == w.name && c.entry == w.entry && c.dependencies.wf()
                    && c.dependencies@ == match p {
                    Some(p) => p.dependencies@,
                    None => Map::<Seq<char>, String>::empty(),
                },
                Outcome::Error(_) => false,
            },
        },
    }
}

/// The widget catalog of configurations, by widget ID; widgets whose
/// configuration failed to load hold the error message.
pub struct Catalog(pub StringMap<Outcome<Config>>);

impl Catalog {
    /// Build the catalog from the entries of the widgets directory.
    ///
    /// Entries that are not directories or not widgets are skipped.
    pub fn load(entries: Vec<ConfigEntry>) -> (c: Catalog)
        requires
            forall|i: int| 0 <= i < entries@.len() ==> entry_wf(#[trigger] entries@[i]),
        ensures
            c.0.wf(),
            forall|k: Seq<char>| #[trigger] c.0@.dom().contains(k) <==> exists|i: int|
                0 <= i < entries@.len() && is_config_widget(entries@[i]) && entries@[i].id@ == k,
            forall|k: Seq<char>| #[trigger]
                c.0@.dom().contains(k) ==> exists|i: int|
                    0 <= i < entries@.len() && is_config_widget(entries@[i]) && entries@[i].id@ == k
                        && config_outcome_ok(entries@[i], c.0@[k]) && forall|j: int|
                        i < j < entries@.len() ==> !(is_config_widget(#[trigger] entries@[j])
                            && entries@[j].id@ == k),
    {
        let ghost es = entries@;
        let mut entries = entries;
        let mut catalog: StringMap<Outcome<Config>> = StringMap::new();
        let n = entries.len();
        let mut i: usize = 0;
        while i < n
            invariant
                n == es.len(),
                i <= n,
                entries@ == es.skip(i as int),
                forall|j: int| 0 <= j < es.len() ==> entry_wf(#[trigger] es[j]),
                catalog.wf(),
                forall|k: Seq<char>| #[trigger] catalog@.dom().contains(k) <==> exists|j: int|
                    0 <= j < i && is_config_widget(es[j]) && es[j].id@ == k,
                forall|k: Seq<char>| #[trigger]
                    catalog@.dom().contains(k) ==> exists|j: int|
                        0 <= j < i && is_config_widget(es[j]) && es[j].id@ == k && config_outcome_ok(
                            es[j],
                            catalog@[k],
                        ) && forall|l: int| j < l < i ==> !(is_config_widget(#[trigger] es[l]) && es[l].id@ == k),
            decreases n - i,
        {
            let e = entries.remove(0);
            assert(e == es[i as int]);
            let ghost before = catalog@;
            if e.is_dir {
                let ghost ew = e.widget;
                let ghost ep = e.package;
                let outcome = match Config::load(e.widget, e.package) {
                    Ok(Some(c)) => Some(Outcome::Value(c)),
                    Ok(None) => None,
                    Err(err) => Some(Outcome::Error(err.message())),
                };
                if let Some(o) = outcome {
                    let ghost k = e.id@;
                    catalog.insert(e.id, o);
                    assert(config_outcome_ok(es[i as int], catalog@[k]));
                }
            }
            proof {
                assert(entries@ =~= es.skip(i + 1));
                assert forall|k: Seq<char>| #[trigger] catalog@.dom().contains(k) <==> exists|j: int|
                    0 <= j < i + 1 && is_config_widget(es[j]) && es[j].id@ == k by {
                    if exists|j: int| 0 <= j < i + 1 && is_config_widget(es[j]) && es[j].id@ == k {
                        let j = choose|j: int| 0 <= j < i + 1 && is_config_widget(es[j]) && es[j].id@ == k;
                        if j < i {
                            assert(before.dom().contains(k));
                        }
                    }
                }
                assert forall|k: Seq<char>| #[trigger]
                    catalog@.dom().contains(k) implies exists|j: int|
                        0 <= j < i + 1 && is_config_widget(es[j]) && es[j].id@ == k && config_outcome_ok(
                            es[j],
                            catalog@[k],
                        ) && forall|l: int| j < l < i + 1 ==> !(is_config_widget(#[trigger] es[l]) && es[l].id@ == k) by {
                    if is_config_widget(es[i as int]) && es[i as int].id@ == k {
                        assert(0 <= i < i + 1 && is_config_widget(es[i as int]) && es[i as int].id@ == k
                            && config_outcome_ok(es[i as int], catalog@[k]));
                    } else {
                        assert(before.dom().contains(k));
                        assert(catalog@[k] == before[k]);
                        let j = choose|j: int|
                            0 <= j < i && is_config_widget(es[j]) && es[j].id@ == k && config_outcome_ok(
                                es[j],
                                before[k],
                            ) && forall|l: int| j < l < i ==> !(is_config_widget(#[trigger] es[l]) && es[l].id@ == k);
                        assert(forall|l: int| j < l < i + 1 ==> !(is_config_widget(#[trigger] es[l]) && es[l].id@ == k));
                    }
                }
            }
            i = i + 1;
        }
        Catalog(catalog)
    }
}

} // verus!
