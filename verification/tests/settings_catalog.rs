use deskulpt::catalog::{BundleTarget, CatalogError, DirEntry, Outcome, RenderWorkerTask, WidgetCatalog, WidgetManifest};
use deskulpt::text::str_less;
use deskulpt::persistence::{schema_url_outcome, settings_schema_url, SettingsWithMeta};
use deskulpt::plugin::{check_widget_id, effective_payload, loggable, widget_dir_outcome, LogLevel};
use deskulpt::settings::{
    Settings, SettingsPatch, ShortcutAction, ShortcutsPatch, Theme, WidgetSettings, WidgetSettingsPatch, WorkerTask,
};
use deskulpt::string_map::StringMap;

fn manifest(name: &str, entry: &str, ignore: bool) -> WidgetManifest {
    WidgetManifest {
        name: name.to_string(),
        version: None,
        authors: None,
        license: None,
        description: None,
        homepage: None,
        entry: entry.to_string(),
        ignore,
    }
}

#[test]
fn widget_patch_reports_changes() {
    let mut s = WidgetSettings::default();
    let mut p = WidgetSettingsPatch::default();
    p.x = Some(10);
    p.opacity = Some(100);
    assert!(s.apply_patch(p));
    assert_eq!(s.x, 10);
    assert!(!s.apply_patch(p));
    assert!(!s.apply_patch(WidgetSettingsPatch::default()));
}

#[test]
fn opacity_is_clamped() {
    assert_eq!(WidgetSettings::opacity_from(Some(0)), 1);
    assert_eq!(WidgetSettings::opacity_from(Some(50)), 50);
    assert_eq!(WidgetSettings::opacity_from(Some(250)), 100);
    assert_eq!(WidgetSettings::opacity_from(None), 100);
}

#[test]
fn settings_update_tasks_and_emits() {
    let mut s = Settings::default();
    let mut p = SettingsPatch::empty();
    p.theme = Some(Theme::Dark);
    p.shortcuts = Some(ShortcutsPatch { toggle_canvas_imode: Some(Some("Ctrl+K".to_string())), open_manager: None });
    let u = s.apply_patch(p);
    assert!(u.should_emit);
    assert_eq!(u.tasks.len(), 3);
    assert!(matches!(u.tasks[0], WorkerTask::ThemeChanged { old: Theme::Light, new: Theme::Dark }));
    match &u.tasks[1] {
        WorkerTask::ShortcutChanged { action, old, new } => {
            assert_eq!(*action, ShortcutAction::ToggleCanvasImode);
            assert!(old.is_none());
            assert_eq!(new.as_deref(), Some("Ctrl+K"));
        },
        other => panic!("unexpected {other:?}"),
    }
    assert!(matches!(u.tasks[2], WorkerTask::Persist));
    assert_eq!(s.theme, Theme::Dark);

    let mut again = SettingsPatch::empty();
    again.theme = Some(Theme::Dark);
    let u = s.apply_patch(again);
    assert!(!u.should_emit);
    assert!(u.tasks.is_empty());
}

#[test]
fn settings_widget_patches_create_and_remove() {
    let mut s = Settings::default();
    let mut widgets = StringMap::new();
    let mut wp = WidgetSettingsPatch::default();
    wp.width = Some(640);
    widgets.insert("clock".to_string(), Some(wp));
    let mut p = SettingsPatch::empty();
    p.widgets = Some(widgets);
    let u = s.apply_patch(p);
    assert!(u.should_emit);
    assert_eq!(s.widgets.get("clock").unwrap().width, 640);
    assert_eq!(s.widgets.get("clock").unwrap().height, 200);

    let mut widgets = StringMap::new();
    widgets.insert("clock".to_string(), None);
    widgets.insert("missing".to_string(), None);
    let mut p = SettingsPatch::empty();
    p.widgets = Some(widgets);
    let u = s.apply_patch(p);
    assert!(u.should_emit);
    assert!(s.widgets.get("clock").is_none());
}

#[test]
fn hot_reload_change_is_announced_and_persisted() {
    let mut s = Settings::default();
    let mut p = SettingsPatch::empty();
    p.hot_reload_enabled = Some(true);
    let u = s.apply_patch(p);
    assert!(u.should_emit);
    assert_eq!(u.tasks.len(), 1);
    assert!(matches!(u.tasks[0], WorkerTask::Persist));
}

#[test]
fn settings_with_meta_carries_the_schema() {
    let s = Settings::default();
    let m = SettingsWithMeta::new(&s);
    assert_eq!(m.schema, "https://deskulpt-apps.github.io/gen/settings-schema.json");
}

#[test]
fn schema_url_of_absolute_and_relative_paths() {
    let u = settings_schema_url("/opt/deskulpt/resources/schema/settings.json").unwrap();
    assert_eq!(u, "file:///opt/deskulpt/resources/schema/settings.json");
    let e = settings_schema_url("relative/settings.json").unwrap_err();
    assert_eq!(e, "Failed to convert to URL: relative/settings.json");
    assert_eq!(schema_url_outcome("p", Some("file:///p".to_string())).unwrap(), "file:///p");
    assert_eq!(schema_url_outcome("p", None).unwrap_err(), "Failed to convert to URL: p");
}

#[test]
fn catalog_reload_keeps_settings() {
    let mut c = WidgetCatalog::new();
    c.reload("clock", Ok(Some(manifest("Clock", "index.jsx", false))));
    let mut widgets_settings = c.get("clock").unwrap().settings;
    assert_eq!(widgets_settings, WidgetSettings::default());
    let mut p = WidgetSettingsPatch::default();
    p.x = Some(5);
    widgets_settings.apply_patch(p);
    let w = deskulpt::catalog::Widget::new(Outcome::Value(manifest("Clock", "index.jsx", false)), Some(widgets_settings));
    assert!(c.insert_or_remove("clock".to_string(), Some(w)));
    c.reload("clock", Err("broken".to_string()));
    let w = c.get("clock").unwrap();
    assert_eq!(w.settings.x, 5);
    assert!(matches!(&w.manifest, Outcome::Error(e) if e == "broken"));
    c.reload("clock", Ok(Some(manifest("Clock", "index.jsx", true))));
    assert!(matches!(c.get("clock"), Err(CatalogError::NotFound(n)) if n == "clock"));
    c.reload("gone", Ok(None));
    assert!(c.get("gone").is_err());
}

#[test]
fn catalog_render_tasks_skip_broken_widgets() {
    let mut c = WidgetCatalog::new();
    c.reload("a", Ok(Some(manifest("A", "a.jsx", false))));
    c.reload("b", Err("bad".to_string()));
    let tasks = c.render_tasks();
    assert_eq!(tasks.len(), 1);
    assert!(c.render_task("b").unwrap().is_none());
    assert!(c.render_task("z").is_err());
}

#[test]
fn catalog_bundle_targets() {
    let mut c = WidgetCatalog::new();
    c.reload("a", Ok(Some(manifest("A", "a.jsx", false))));
    c.reload("b", Ok(Some(manifest("B", "b.jsx", false))));
    assert_eq!(c.bundle_targets(&BundleTarget::All), vec!["a", "b"]);
    assert_eq!(c.bundle_targets(&BundleTarget::Id("b".to_string())), vec!["b"]);
    assert!(c.bundle_targets(&BundleTarget::Id("x".to_string())).is_empty());
    assert_eq!(
        c.bundle_targets(&BundleTarget::Ids(vec!["b".to_string(), "a".to_string()])),
        vec!["b", "a"]
    );
}

#[test]
fn catalog_persisted_form() {
    let mut c = WidgetCatalog::new();
    c.reload("a", Ok(Some(manifest("A", "a.jsx", false))));
    let p = c.persisted();
    assert_eq!(p.0.get("a").unwrap().settings, WidgetSettings::default());
    assert_eq!(p.0.len(), 1);
}

#[test]
fn engine_widget_dir_answers() {
    assert!(check_widget_id("clock").is_ok());
    assert_eq!(check_widget_id("a\0b").unwrap_err(), "Invalid widget ID: contains null bytes");
    assert_eq!(widget_dir_outcome("w", 0, Some(Some("/d/w".to_string()))).unwrap(), "/d/w");
    assert_eq!(
        widget_dir_outcome("w", 1, Some(Some("/d/w".to_string()))).unwrap_err(),
        "Failed to get widget directory for ID: w"
    );
    assert_eq!(widget_dir_outcome("w", 0, None).unwrap_err(), "Engine returned null path for widget ID: w");
    assert_eq!(widget_dir_outcome("w", 0, Some(None)).unwrap_err(), "Invalid UTF-8 in widget directory path");
    assert!(loggable("hello"));
    assert!(!loggable("he\0llo"));
    assert_eq!(LogLevel::Trace.code(), 4);
    assert_eq!(LogLevel::Error.code(), 0);
    assert_eq!(effective_payload("  "), "null");
    assert_eq!(effective_payload("{}"), "{}");
}

#[test]
fn catalog_reload_twice_is_reload_once() {
    let mut c = WidgetCatalog::new();
    c.reload("a", Ok(Some(manifest("A", "a.jsx", false))));
    c.reload("b", Ok(Some(manifest("B", "b.jsx", false))));
    c.reload("a", Err("broken".to_string()));
    let first = format!("{:?}", c.get("a").unwrap());
    c.reload("a", Err("broken".to_string()));
    assert_eq!(format!("{:?}", c.get("a").unwrap()), first);
    assert_eq!(c.0.len(), 2);
    assert!(matches!(&c.get("b").unwrap().manifest, Outcome::Value(m) if m.name == "B"));
}

#[test]
fn empty_settings_patch_changes_nothing() {
    let mut s = Settings::default();
    let mut p = SettingsPatch::empty();
    p.canvas_imode = Some(deskulpt::settings::CanvasImode::Float);
    s.apply_patch(p);
    let u = s.apply_patch(SettingsPatch::empty());
    assert!(!u.should_emit);
    assert!(u.tasks.is_empty());
    assert_eq!(s.canvas_imode, deskulpt::settings::CanvasImode::Float);
    assert_eq!(s.theme, Theme::Light);
}

#[test]
fn catalog_reload_all_keeps_settings_of_remaining_widgets() {
    let mut c = WidgetCatalog::new();
    c.reload("a", Ok(Some(manifest("A", "a.jsx", false))));
    c.reload("gone", Ok(Some(manifest("G", "g.jsx", false))));
    let mut s = c.get("a").unwrap().settings;
    let mut p = WidgetSettingsPatch::default();
    p.y = Some(42);
    s.apply_patch(p);
    let w = deskulpt::catalog::Widget::new(Outcome::Value(manifest("A", "a.jsx", false)), Some(s));
    c.insert_or_remove("a".to_string(), Some(w));
    let entries = vec![
        DirEntry { id: "a".to_string(), is_dir: true, manifest: Ok(Some(manifest("A2", "a2.jsx", false))) },
        DirEntry { id: "new".to_string(), is_dir: true, manifest: Err("bad".to_string()) },
        DirEntry { id: "file".to_string(), is_dir: false, manifest: Ok(Some(manifest("F", "f.jsx", false))) },
    ];
    c.reload_all(entries);
    assert_eq!(c.0.len(), 2);
    let a = c.get("a").unwrap();
    assert_eq!(a.settings.y, 42);
    assert!(matches!(&a.manifest, Outcome::Value(m) if m.name == "A2"));
    assert_eq!(c.get("new").unwrap().settings, WidgetSettings::default());
    assert!(c.get("gone").is_err());
    assert!(c.get("file").is_err());
}

#[test]
fn catalog_renders_and_persists_in_id_order() {
    let mut c = WidgetCatalog::new();
    c.reload("b", Ok(Some(manifest("B", "b.jsx", false))));
    c.reload("a", Ok(Some(manifest("A", "a.jsx", false))));
    c.reload("B", Ok(Some(manifest("B2", "B.jsx", false))));
    c.reload("ab", Err("bad".to_string()));
    let ids: Vec<String> = c
        .render_tasks()
        .into_iter()
        .map(|t| match t {
            RenderWorkerTask::Render { id, .. } => id,
        })
        .collect();
    assert_eq!(ids, vec!["B", "a", "b"]);
    assert_eq!(c.bundle_targets(&BundleTarget::All), vec!["B", "a", "ab", "b"]);
    let persisted: Vec<String> = c.persisted().0.into_entries().into_iter().map(|(id, _)| id).collect();
    assert_eq!(persisted, vec!["B", "a", "ab", "b"]);
}

#[test]
fn string_order_follows_code_points() {
    assert!(str_less("a", "b"));
    assert!(str_less("a", "ab"));
    assert!(!str_less("ab", "a"));
    assert!(str_less("Z", "a"));
    assert!(!str_less("x", "x"));
    assert!(str_less("é", "🙂"));
    assert!(!str_less("", ""));
    assert!(str_less("", "a"));
}
