use deskulpt::catalog::Outcome;
use deskulpt::config::{Catalog, Config, ConfigEntry, ConfigError, ConfigFile, PackageManifest, WidgetManifest};

fn widget(name: &str, entry: &str, ignore: bool) -> WidgetManifest {
    WidgetManifest { name: name.to_string(), entry: entry.to_string(), ignore }
}

fn package(deps: &[(&str, &str)]) -> PackageManifest {
    let mut p = PackageManifest::new();
    for (n, v) in deps {
        p.dependencies.insert(n.to_string(), v.to_string());
    }
    p
}

#[test]
fn config_load_combines_manifests() {
    let c = Config::load(Ok(Some(widget("Clock", "index.jsx", false))), Ok(Some(package(&[("react", "^18")]))))
        .unwrap()
        .unwrap();
    assert_eq!(c.name, "Clock");
    assert_eq!(c.entry, "index.jsx");
    assert_eq!(c.dependencies.get("react").unwrap(), "^18");
    assert_eq!(c.dependencies.len(), 1);
}

#[test]
fn config_load_without_package_has_no_dependencies() {
    let c = Config::load(Ok(Some(widget("Clock", "index.jsx", false))), Ok(None)).unwrap().unwrap();
    assert_eq!(c.dependencies.len(), 0);
}

#[test]
fn config_load_skips_non_widgets() {
    assert!(Config::load(Ok(None), Err("ignored".to_string())).unwrap().is_none());
    assert!(Config::load(Ok(Some(widget("X", "x.jsx", true))), Err("ignored".to_string())).unwrap().is_none());
}

#[test]
fn config_load_errors_name_the_file() {
    let e = Config::load(Err("bad json".to_string()), Ok(None)).err().unwrap();
    assert_eq!(e.file, ConfigFile::WidgetManifest);
    assert_eq!(e.message(), "Failed to load deskulpt.widget.json\n\nCaused by:\n    bad json");
    let e = Config::load(Ok(Some(widget("X", "x.jsx", false))), Err("oops".to_string())).err().unwrap();
    assert_eq!(e.message(), "Failed to load package.json\n\nCaused by:\n    oops");
    let e = ConfigError { file: ConfigFile::PackageManifest, cause: "c".to_string() };
    assert_eq!(e.file.file_name(), "package.json");
}

#[test]
fn config_catalog_holds_widgets_and_errors() {
    let entries = vec![
        ConfigEntry {
            id: "clock".to_string(),
            is_dir: true,
            widget: Ok(Some(widget("Clock", "index.jsx", false))),
            package: Ok(None),
        },
        ConfigEntry { id: "notes.txt".to_string(), is_dir: false, widget: Ok(None), package: Ok(None) },
        ConfigEntry { id: "broken".to_string(), is_dir: true, widget: Err("bad".to_string()), package: Ok(None) },
        ConfigEntry {
            id: "hidden".to_string(),
            is_dir: true,
            widget: Ok(Some(widget("H", "h.jsx", true))),
            package: Ok(None),
        },
        ConfigEntry { id: "empty".to_string(), is_dir: true, widget: Ok(None), package: Ok(None) },
    ];
    let c = Catalog::load(entries);
    assert_eq!(c.0.len(), 2);
    assert!(matches!(c.0.get("clock"), Some(Outcome::Value(cfg)) if cfg.entry == "index.jsx"));
    assert!(
        matches!(c.0.get("broken"), Some(Outcome::Error(e)) if e == "Failed to load deskulpt.widget.json\n\nCaused by:\n    bad")
    );
    assert!(c.0.get("hidden").is_none());
}
