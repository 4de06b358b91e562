use deskulpt::bundler::{single_output, BundleError, BundlerBuilder, OutputFormat, Platform};
use deskulpt::fs::{check_path, AppendFile, CreateDir, CreateDirInput, FsPlugin, ReadFile, RemoveDir, WriteFile};
use deskulpt::index::{IndexFetchAction, IndexFetchEvent, IndexFetchState, IndexFetcher};
use deskulpt::logging::{count_occurrences, is_rotated_log, newest_log, LogEntry};
use deskulpt::persist::{PersistAction, PersistEvent, PersistWorker};
use deskulpt::setup::{all_complete_after, DeskulptWindow, SetupState};
use deskulpt::starter::{starter_patch, starter_widget_id, starter_widgets, StarterOutcome};
use deskulpt::settings::submission_outcome;
use deskulpt::text::{join_texts, before_first, decimal_string, str_ends_with, str_starts_with, trim_white_space};

fn send_etag(a: &IndexFetchAction) -> Option<Option<String>> {
    match a {
        IndexFetchAction::Send { if_none_match } => Some(if_none_match.clone()),
        _ => None,
    }
}

#[test]
fn index_fetch_fresh_index_is_accepted() {
    let mut f = IndexFetcher::new();
    let a = f.step(IndexFetchEvent::Start { etag_file: Some("  \"abc\"\n".to_string()) });
    assert_eq!(send_etag(&a), Some(Some("\"abc\"".to_string())));
    let a = f.step(IndexFetchEvent::Response { status: 200, etag: Some("\"def\"".to_string()) });
    match a {
        IndexFetchAction::Accept { etag } => assert_eq!(etag.as_deref(), Some("\"def\"")),
        other => panic!("unexpected {other:?}"),
    }
    assert!(f.is_finished());
}

#[test]
fn index_fetch_not_modified_uses_cache() {
    let mut f = IndexFetcher::new();
    f.step(IndexFetchEvent::Start { etag_file: Some("e1".to_string()) });
    let a = f.step(IndexFetchEvent::Response { status: 304, etag: None });
    assert!(matches!(a, IndexFetchAction::ReadCache));
    let a = f.step(IndexFetchEvent::CacheRead { ok: true });
    assert!(matches!(a, IndexFetchAction::UseCache));
    assert!(f.is_finished());
}

#[test]
fn index_fetch_broken_cache_retries_without_etag() {
    let mut f = IndexFetcher::new();
    f.step(IndexFetchEvent::Start { etag_file: Some("e1".to_string()) });
    f.step(IndexFetchEvent::Response { status: 304, etag: None });
    let a = f.step(IndexFetchEvent::CacheRead { ok: false });
    assert_eq!(send_etag(&a), Some(None));
    assert_eq!(f.state, IndexFetchState::AwaitingRetry);
    let a = f.step(IndexFetchEvent::Response { status: 304, etag: None });
    assert!(matches!(a, IndexFetchAction::Fail { status: 304 }));
    let a = f.step(IndexFetchEvent::Response { status: 200, etag: None });
    assert!(matches!(a, IndexFetchAction::Ignore));
}

#[test]
fn index_fetch_other_status_fails() {
    let mut f = IndexFetcher::new();
    let a = f.step(IndexFetchEvent::Start { etag_file: None });
    assert_eq!(send_etag(&a), Some(None));
    let a = f.step(IndexFetchEvent::Response { status: 500, etag: None });
    assert!(matches!(a, IndexFetchAction::Fail { status: 500 }));
}

#[test]
fn index_fetch_out_of_order_events_are_ignored() {
    let mut f = IndexFetcher::new();
    let a = f.step(IndexFetchEvent::CacheRead { ok: true });
    assert!(matches!(a, IndexFetchAction::Ignore));
    assert_eq!(f.state, IndexFetchState::Idle);
}

#[test]
fn rotated_log_names() {
    assert!(is_rotated_log("app.2024-01-02.log"));
    assert!(!is_rotated_log("app.log"));
    assert!(!is_rotated_log("app-2024-01-02.log"));
    assert!(!is_rotated_log("other.2024-01-02.log"));
    assert!(!is_rotated_log("app.2024-01-02.txt"));
    assert!(!is_rotated_log("app.2024-0102.log"));
    assert!(!is_rotated_log("app"));
    assert_eq!(count_occurrences("a-b-c", '-'), 2);
}

fn entry(name: &str, is_file: bool, created: Option<i128>) -> LogEntry {
    LogEntry { name: name.to_string(), is_file, created }
}

#[test]
fn newest_log_picks_the_first_newest() {
    let es = vec![
        entry("app.2024-01-01.log", true, Some(10)),
        entry("app.2024-01-03.log", true, Some(30)),
        entry("notes.txt", true, None),
        entry("app.2024-01-04.log", false, None),
        entry("app.2024-01-02.log", true, Some(30)),
    ];
    assert_eq!(newest_log(&es), Ok(Some(1)));
}

#[test]
fn newest_log_without_rotated_logs() {
    let es = vec![entry("app.log", true, Some(5)), entry("x", false, None)];
    assert_eq!(newest_log(&es), Ok(None));
    assert_eq!(newest_log(&vec![]), Ok(None));
}

#[test]
fn newest_log_fails_on_missing_timestamp() {
    let es = vec![
        entry("app.2024-01-01.log", true, Some(10)),
        entry("app.2024-01-02.log", true, None),
        entry("app.2024-01-03.log", true, None),
    ];
    assert_eq!(newest_log(&es), Err(1));
}

#[test]
fn starter_ids_and_patch() {
    let names = starter_widgets();
    assert_eq!(names, vec!["welcome"]);
    assert_eq!(starter_widget_id("welcome"), "@deskulpt-starter.welcome");
    let p = starter_patch(&vec![StarterOutcome::Added, StarterOutcome::AlreadyPresent]).unwrap();
    assert_eq!(p.starter_widgets_added, Some(true));
    assert!(p.theme.is_none() && p.widgets.is_none() && p.shortcuts.is_none());
    assert!(starter_patch(&vec![StarterOutcome::Added, StarterOutcome::Failed]).is_none());
    assert!(starter_patch(&vec![]).is_some());
}

#[test]
fn starter_is_added_once() {
    let mut settings = deskulpt::settings::Settings::default();
    assert!(deskulpt::starter::needs_starter(&settings));
    let p = starter_patch(&vec![StarterOutcome::Added]).unwrap();
    let u = settings.apply_patch(p);
    assert!(!u.should_emit);
    assert_eq!(u.tasks.len(), 1);
    assert!(!deskulpt::starter::needs_starter(&settings));
    let p = starter_patch(&vec![StarterOutcome::AlreadyPresent]).unwrap();
    let u = settings.apply_patch(p);
    assert!(u.tasks.is_empty());
}

#[test]
fn setup_completes_after_both_windows() {
    let mut s = SetupState::new();
    assert!(!s.complete(DeskulptWindow::Canvas));
    assert!(!s.complete(DeskulptWindow::Canvas));
    assert!(s.complete(DeskulptWindow::Manager));
    assert!(s.complete(DeskulptWindow::Manager));
    let mut t = SetupState::new();
    assert!(!t.complete(DeskulptWindow::Manager));
    assert!(t.complete(DeskulptWindow::Canvas));
    assert!(all_complete_after(1, DeskulptWindow::Manager));
    assert!(!all_complete_after(4, DeskulptWindow::Manager));
    assert!(all_complete_after(0xff, DeskulptWindow::Canvas));
}

#[test]
fn persist_requests_are_debounced() {
    let mut w = PersistWorker::new();
    assert!(!w.deadline_armed());
    assert_eq!(w.step(PersistEvent::Deadline), PersistAction::Nothing);
    assert_eq!(w.step(PersistEvent::Notified), PersistAction::ResetTimer);
    assert_eq!(w.step(PersistEvent::Notified), PersistAction::ResetTimer);
    assert!(w.deadline_armed());
    assert_eq!(w.step(PersistEvent::Deadline), PersistAction::Persist);
    assert_eq!(w.step(PersistEvent::Deadline), PersistAction::Nothing);
    assert_eq!(w.step(PersistEvent::Closed), PersistAction::Stop);
}

#[test]
fn bundler_configuration() {
    let b = BundlerBuilder::new("/widgets/clock".to_string(), "index.jsx".to_string());
    let c = b.build();
    assert_eq!(c.input, "index.jsx");
    assert_eq!(c.cwd, "/widgets/clock");
    assert_eq!(c.format, OutputFormat::Esm);
    assert_eq!(c.platform, Platform::Browser);
    assert!(c.minify);
    assert_eq!(c.jsx_runtime, "automatic");
    assert_eq!(c.jsx_import_source, "@deskulpt-test/emotion");
    assert_eq!(c.external.len(), 5);
    for (from, to) in &c.aliases {
        assert!(from.starts_with("@deskulpt-test/"));
        assert!(c.external.contains(to));
    }
    assert_eq!(c.aliases[2].0, "@deskulpt-test/react");
    assert_eq!(c.aliases[2].1, "__DESKULPT_BASE_URL__/gen/react.js");
}

#[test]
fn bundle_needs_exactly_one_output() {
    assert_eq!(single_output(vec![Ok("code".to_string())]).unwrap(), "code");
    match single_output(vec![Ok("a".to_string()), Ok("b".to_string())]) {
        Err(e @ BundleError::OutputCount(2)) => assert_eq!(
            e.message(),
            "Expected 1 bundled output, found 2; ensure that widget code does not contain e.g. dynamic imports that may result in extra chunks"
        ),
        _ => panic!("expected an output count error"),
    }
    assert!(matches!(single_output(vec![]), Err(BundleError::OutputCount(0))));
    match single_output(vec![Err("not utf-8".to_string())]) {
        Err(BundleError::Output(e)) => assert_eq!(e, "not utf-8"),
        _ => panic!("expected an output error"),
    }
}

#[test]
fn fs_plugin_commands() {
    assert_eq!(FsPlugin.name(), "fs");
    assert_eq!(
        FsPlugin.command_names(),
        vec![
            "append_file",
            "create_dir",
            "exists",
            "is_dir",
            "is_file",
            "read_file",
            "remove_dir",
            "remove_file",
            "write_file"
        ]
    );
    assert_eq!(AppendFile.name(), "append_file");
    assert_eq!(ReadFile.name(), "read_file");
    assert_eq!(RemoveDir.name(), "remove_dir");
    assert_eq!(WriteFile.name(), "write_file");
    assert_eq!(CreateDir.name(), "create_dir");
    let i = CreateDirInput { path: "a".to_string(), recursive: None };
    assert!(i.is_recursive());
    let i = CreateDirInput { path: "a".to_string(), recursive: Some(true) };
    assert!(i.is_recursive());
    let i = CreateDirInput { path: "a".to_string(), recursive: Some(false) };
    assert!(!i.is_recursive());
}

#[test]
fn text_helpers() {
    assert_eq!(before_first("a@b@c", '@'), "a");
    assert_eq!(before_first("abc", '@'), "abc");
    assert_eq!(before_first("@x", '@'), "");
    assert_eq!(trim_white_space("  x y \t\n"), "x y");
    assert_eq!(trim_white_space(" \n "), "");
    assert!(str_starts_with("app.log", "app"));
    assert!(!str_starts_with("ap", "app"));
    assert!(str_ends_with("x.tar+gzip", "tar+gzip"));
    assert!(!str_ends_with("x.tar", "tar+gzip"));
    assert_eq!(decimal_string(0), "0");
    assert_eq!(decimal_string(7), "7");
    assert_eq!(decimal_string(1234567890), "1234567890");
    assert_eq!(decimal_string(usize::MAX), usize::MAX.to_string());
}

#[test]
fn index_fetch_sends_at_most_two_requests() {
    let mut f = IndexFetcher::new();
    let mut sends = 0;
    let events = vec![
        IndexFetchEvent::Start { etag_file: Some("x".to_string()) },
        IndexFetchEvent::Response { status: 304, etag: None },
        IndexFetchEvent::CacheRead { ok: false },
        IndexFetchEvent::Response { status: 304, etag: None },
        IndexFetchEvent::Start { etag_file: None },
        IndexFetchEvent::CacheRead { ok: false },
        IndexFetchEvent::Response { status: 200, etag: None },
    ];
    for e in events {
        if matches!(f.step(e), IndexFetchAction::Send { .. }) {
            sends += 1;
        }
    }
    assert_eq!(sends, 2);
}

#[test]
fn index_cache_only_valid_bodies() {
    let w = deskulpt::index::cache_writes(true, Some("\"e\"".to_string()));
    assert!(w.index);
    assert_eq!(w.etag.as_deref(), Some("\"e\""));
    let w = deskulpt::index::cache_writes(false, Some("\"e\"".to_string()));
    assert!(!w.index);
    assert!(w.etag.is_none());
    let w = deskulpt::index::cache_writes(true, None);
    assert!(w.index && w.etag.is_none());
}

#[test]
fn settings_submission_failures_are_listed() {
    assert!(submission_outcome(&vec![]).is_ok());
    assert_eq!(
        submission_outcome(&vec!["a".to_string(), "b".to_string()]).unwrap_err(),
        "One or more changes failed to be submitted\n\na\n\nb"
    );
}

#[test]
fn fs_paths_stay_in_the_widget_directory() {
    let inside = [
        "test.txt",
        "nested/test.txt",
        "level1/level2/level3",
        "a..b",
        "..x/y",
        "x/..y",
        ".",
        "a/../b.txt",
        "a/b/../../c",
        "a/..",
        "./a//b/",
    ];
    for ok in inside {
        assert!(check_path(ok, false).is_ok(), "{ok}");
        assert!(check_path(ok, true).is_ok(), "{ok}");
    }
    for ok in ["a:b.txt", "C:x", "\\share", "..\\x", "a\\..\\..\\b"] {
        assert!(check_path(ok, false).is_ok(), "{ok}");
    }
    for bad in ["/etc/passwd", "..", "../x", "a/../../b", "a/b/../../..", "./.."] {
        assert_eq!(check_path(bad, false).unwrap_err(), format!("Path escapes the widget directory: {bad}"));
        assert!(check_path(bad, true).is_err(), "{bad}");
    }
    for bad in ["C:x", "c:\\x", "\\share", "..\\x", "a\\..\\..\\b"] {
        assert!(check_path(bad, true).is_err(), "{bad}");
    }
    assert!(check_path("1:x", true).is_ok());
}

#[test]
fn join_puts_the_separator_between() {
    assert_eq!(join_texts(&vec![], ", "), "");
    assert_eq!(join_texts(&vec!["x".to_string()], ", "), "x");
    assert_eq!(join_texts(&vec!["x".to_string(), "y".to_string(), "z".to_string()], ", "), "x, y, z");
}
