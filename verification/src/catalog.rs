//! The widget catalog: the widgets discovered in the widgets directory.

use vstd::prelude::*;

use crate::settings::{default_widget_settings, WidgetSettings};
use crate::string_map::{
    distinct_keys, entries_map, has_key, key_index, lemma_entries_map_index, lemma_entries_map_push, strictly_sorted,
    StringMap,
};
use crate::text::{lemma_lt_transitive, seq_lt, texts_of};

verus! {

/// Either a value or an error message.
#[derive(Debug)]
pub enum Outcome<T> {
    Value(T),
    Error(String),
}

/// The outcome of a result whose error is a message.
pub open spec fn outcome_of<T>(r: Result<T, String>) -> Outcome<T> {
    match r {
        Ok(v) => Outcome::Value(v),
        Err(e) => Outcome::Error(e),
    }
}

/// Turn a result into an outcome.
pub fn to_outcome<T>(r: Result<T, String>) -> (o: Outcome<T>)
    ensures
        o == outcome_of(r),
{
    match r {
        Ok(v) => Outcome::Value(v),
        Err(e) => Outcome::Error(e),
    }
}

/// An author of a widget: a bare name, or a name with optional email and
/// homepage.
#[derive(Debug)]
pub enum WidgetManifestAuthor {
    Extended { name: String, email: Option<String>, homepage: Option<String> },
    Name(String),
}

/// The widget manifest.
#[derive(Debug)]
pub struct WidgetManifest {
    /// The display name of the widget.
    pub name: String,
    /// The version of the widget.
    pub version: Option<String>,
    /// The authors of the widget.
    pub authors: Option<Vec<WidgetManifestAuthor>>,
    /// The license of the widget.
    pub license: Option<String>,
    /// A short description of the widget.
    pub description: Option<String>,
    /// URL to the homepage of the widget.
    pub homepage: Option<String>,
    /// The entry module, relative to the root of the widget.
    pub entry: String,
    /// Whether the widget is to be ignored.
    pub ignore: bool,
}

/// A loaded manifest marks a widget: present and not ignored (a manifest that
/// failed to load still marks a widget, with its error).
pub open spec fn marks_widget(loaded: Result<Option<WidgetManifest>, String>) -> bool {
    match loaded {
        Ok(Some(m)) => !m.ignore,
        Ok(None) => false,
        Err(_) => true,
    }
}

/// The manifest of a widget, or the error loading it, from a loaded manifest
/// that marks a widget.
pub open spec fn widget_manifest_of(loaded: Result<Option<WidgetManifest>, String>) -> Outcome<WidgetManifest> {
    match loaded {
        Ok(Some(m)) => Outcome::Value(m),
        Ok(None) => arbitrary(),
        Err(e) => Outcome::Error(e),
    }
}

impl WidgetManifest {
    /// Decide what a loaded manifest file says about a directory.
    ///
    /// `loaded` is `Ok(None)` when the directory has no manifest file, or the
    /// error of reading or parsing it. Returns `None` when the directory is not
    /// a widget (no manifest, or a manifest marked as ignored); otherwise the
    /// manifest or the error.
    pub fn classify(loaded: Result<Option<WidgetManifest>, String>) -> (r: Option<Outcome<WidgetManifest>>)
        ensures
            marks_widget(loaded) ==> r == Some(widget_manifest_of(loaded)),
            !marks_widget(loaded) ==> r is None,
    {
        match loaded {
            Ok(Some(m)) => {
                if m.ignore {
                    None
                } else {
                    Some(Outcome::Value(m))
                }
            },
            Ok(None) => None,
            Err(e) => Some(Outcome::Error(e)),
        }
    }
}

impl WidgetSettings {
    /// Derive widget settings from a widget manifest: the defaults.
    pub fn from_manifest(_manifest: &WidgetManifest) -> (s: WidgetSettings)
        ensures
            s == default_widget_settings(),
    {
        WidgetSettings::default()
    }
}

/// A widget: its manifest (or the error loading it) and its settings.
#[derive(Debug)]
pub struct Widget {
    pub manifest: Outcome<WidgetManifest>,
    pub settings: WidgetSettings,
}

impl Widget {
    /// Create a widget; without given settings they are derived from the
    /// manifest, or are the defaults.
    pub fn new(manifest: Outcome<WidgetManifest>, settings: Option<WidgetSettings>) -> (w: Widget)
        ensures
            w.manifest == manifest,
            w.settings == match settings {
                Some(s) => s,
                None => default_widget_settings(),
            },
    {
        let settings = match settings {
            Some(s) => s,
            None => match &manifest {
                Outcome::Value(m) => WidgetSettings::from_manifest(m),
                Outcome::Error(_) => WidgetSettings::default(),
            },
        };
        Widget { manifest, settings }
    }
}

/// A directory found in the widgets directory, with its loaded manifest.
pub struct DirEntry {
    /// The directory name, which is the widget ID.
    pub id: String,
    /// Whether the entry is a directory.
    pub is_dir: bool,
    /// The manifest file loaded from the directory.
    pub manifest: Result<Option<WidgetManifest>, String>,
}

/// The entry is a widget.
pub open spec fn is_widget_entry(e: DirEntry) -> bool {
    e.is_dir && marks_widget(e.manifest)
}

/// The catalog before reloading, and the catalog being built, after the
/// entries `es` have been scanned.
pub open spec fn reload_all_fold(old: Map<Seq<char>, Widget>, es: Seq<DirEntry>) -> (
    Map<Seq<char>, Widget>,
    Map<Seq<char>, Widget>,
)
    decreases es.len(),
{
    if es.len() == 0 {
        (old, Map::empty())
    } else {
        let (rest, built) = reload_all_fold(old, es.drop_last());
        let e = es.last();
        if is_widget_entry(e) {
            let settings = if rest.dom().contains(e.id@) {
                rest[e.id@].settings
            } else {
                default_widget_settings()
            };
            (
                rest.remove(e.id@),
                built.insert(e.id@, Widget { manifest: widget_manifest_of(e.manifest), settings }),
            )
        } else {
            (rest, built)
        }
    }
}

/// Errors of the widget catalog.
#[derive(Debug)]
pub enum CatalogError {
    /// No widget with this ID is in the catalog.
    NotFound(String),
}

impl CatalogError {
    /// The human-readable message of the error.
    pub fn message(&self) -> (m: String)
        ensures
            m@ == match self {
                CatalogError::NotFound(id) => "Widget "@ + id@ + " does not exist in the catalog"@,
            },
    {
        match self {
            CatalogError::NotFound(id) => String::from_str("Widget ").concat(id.as_str()).concat(
                " does not exist in the catalog",
            ),
        }
    }
}

/// A task for the render worker.
#[derive(Debug)]
pub enum RenderWorkerTask {
    /// Bundle and render a widget from its entry file.
    Render { id: String, entry: String },
}

/// The catalog of widgets, by widget ID.
pub struct WidgetCatalog(pub StringMap<Widget>);

/// The settings a widget keeps when it is reloaded: its own, or the defaults
/// for a widget new to the catalog.
pub open spec fn kept_settings(m: Map<Seq<char>, Widget>, id: Seq<char>) -> WidgetSettings {
    if m.dom().contains(id) {
        m[id].settings
    } else {
        default_widget_settings()
    }
}

/// The catalog after widget `id` was reloaded from the manifest loaded from
/// its directory: removed when the directory is no longer a widget, otherwise
/// holding the new manifest (or error) and the settings it kept.
pub open spec fn reloaded(
    m: Map<Seq<char>, Widget>,
    id: Seq<char>,
    loaded: Result<Option<WidgetManifest>, String>,
) -> Map<Seq<char>, Widget> {
    if marks_widget(loaded) {
        m.insert(id, Widget { manifest: widget_manifest_of(loaded), settings: kept_settings(m, id) })
    } else {
        m.remove(id)
    }
}

/// A widget new to the catalog starts at the origin, 300 by 200 pixels,
/// fully opaque, at z-index 0 and loaded on the canvas; a widget already in
/// the catalog keeps its settings across a reload.
pub proof fn lemma_reload_settings(
    m: Map<Seq<char>, Widget>,
    id: Seq<char>,
    loaded: Result<Option<WidgetManifest>, String>,
)
    requires
        marks_widget(loaded),
    ensures
        reloaded(m, id, loaded).dom().contains(id),
        !m.dom().contains(id) ==> reloaded(m, id, loaded)[id].settings == (WidgetSettings {
            x: 0,
            y: 0,
            width: 300,
            height: 200,
            opacity: 100,
            z_index: 0,
            is_loaded: true,
        }),
        m.dom().contains(id) ==> reloaded(m, id, loaded)[id].settings == m[id].settings,
{
}

/// Reloading a widget touches no other widget, and reloading it again from
/// the same manifest changes nothing.
pub proof fn lemma_reload_idempotent(
    m: Map<Seq<char>, Widget>,
    id: Seq<char>,
    loaded: Result<Option<WidgetManifest>, String>,
)
    ensures
        reloaded(reloaded(m, id, loaded), id, loaded) == reloaded(m, id, loaded),
        forall|k: Seq<char>|
            k != id ==> (#[trigger] reloaded(m, id, loaded).dom().contains(k) == m.dom().contains(k) && (
            m.dom().contains(k) ==> reloaded(m, id, loaded)[k] == m[k])),
{
    assert(reloaded(reloaded(m, id, loaded), id, loaded) =~= reloaded(m, id, loaded));
}

impl WidgetCatalog {
    /// An empty catalog.
    pub fn new() -> (c: Self)
        ensures
            c.0.wf(),
            c.0@ == Map::<Seq<char>, Widget>::empty(),
    {
        WidgetCatalog(StringMap::new())
    }

    /// Reload a widget from the manifest loaded from its directory.
    ///
    /// A directory that is no longer a widget is removed from the catalog. A
    /// new widget is added with default settings. An existing widget gets the
    /// new manifest and keeps its settings.
    pub fn reload(&mut self, id: &str, loaded: Result<Option<WidgetManifest>, String>)
        requires
            old(self).0.wf(),
        ensures
            final(self).0.wf(),
            final(self).0@ == reloaded(old(self).0@, id@, loaded),
    {
        match WidgetManifest::classify(loaded) {
            None => {
                self.0.remove(id);
            },
            Some(manifest) => {
                let settings = match self.0.remove(id) {
                    Some(w) => Some(w.settings),
                    None => None,
                };
                let widget = Widget::new(manifest, settings);
                self.0.insert(String::from_str(id), widget);
                assert(self.0@ =~= reloaded(old(self).0@, id@, loaded));
            },
        }
    }

    /// Reload all widgets from the entries of the widgets directory.
    ///
    /// The catalog is replaced by the widgets among the entries; a widget that
    /// was already in the catalog keeps its settings.
    pub fn reload_all(&mut self, entries: Vec<DirEntry>)
        requires
            old(self).0.wf(),
        ensures
            final(self).0.wf(),
            final(self).0@ == reload_all_fold(old(self).0@, entries@).1,
    {
        let ghost es = entries@;
        let mut entries = entries;
        let mut new_catalog = StringMap::new();
        let mut i: usize = 0;
        let n = entries.len();
        while i < n
            invariant
                n == es.len(),
                i <= n,
                entries@ == es.skip(i as int),
                self.0.wf(),
                new_catalog.wf(),
                (self.0@, new_catalog@) == reload_all_fold(old(self).0@, es.take(i as int)),
            decreases n - i,
        {
            let e = entries.remove(0);
            proof {
                assert(e == es[i as int]);
                assert(es.take(i + 1).drop_last() =~= es.take(i as int));
                assert(es.take(i + 1).last() == es[i as int]);
            }
            if e.is_dir {
                if let Some(manifest) = WidgetManifest::classify(e.manifest) {
                    let settings = match self.0.remove(e.id.as_str()) {
                        Some(w) => Some(w.settings),
                        None => None,
                    };
                    let widget = Widget::new(manifest, settings);
                    new_catalog.insert(e.id, widget);
                }
            }
            proof {
                assert(entries@ =~= es.skip(i + 1));
            }
            i = i + 1;
        }
        assert(es.take(n as int) =~= es);
        self.0 = new_catalog;
    }

    /// The widget with ID `id`.
    pub fn get(&self, id: &str) -> (r: Result<&Widget, CatalogError>)
        requires
            self.0.wf(),
        ensures
            match r {
                Ok(w) => self.0@.dom().contains(id@) && *w == self.0@[id@],
                Err(CatalogError::NotFound(n)) => !self.0@.dom().contains(id@) && n@ == id@,
            },
    {
        match self.0.get(id) {
            Some(w) => Ok(w),
            None => Err(CatalogError::NotFound(String::from_str(id))),
        }
    }

    /// Insert the widget under `id`, or remove `id` when there is no widget.
    ///
    /// Returns whether the widget exists afterwards.
    pub fn insert_or_remove(&mut self, id: String, widget: Option<Widget>) -> (exists: bool)
        requires
            old(self).0.wf(),
        ensures
            final(self).0.wf(),
            exists == widget is Some,
            match widget {
                Some(w) => final(self).0@ == old(self).0@.insert(id@, w),
                None => final(self).0@ == old(self).0@.remove(id@),
            },
    {
        match widget {
            Some(w) => {
                self.0.insert(id, w);
                true
            },
            None => {
                self.0.remove(id.as_str());
                false
            },
        }
    }

    /// The render task for widget `id`: `None` when its manifest failed to
    /// load.
    pub fn render_task(&self, id: &str) -> (r: Result<Option<RenderWorkerTask>, CatalogError>)
        requires
            self.0.wf(),
        ensures
            match r {
                Ok(Some(RenderWorkerTask::Render { id: tid, entry })) => self.0@.dom().contains(id@)
                    && self.0@[id@].manifest is Value && tid@ == id@ && entry
                    == self.0@[id@].manifest->Value_0.entry,
                Ok(None) => self.0@.dom().contains(id@) && self.0@[id@].manifest is Error,
                Err(CatalogError::NotFound(n)) => !self.0@.dom().contains(id@) && n@ == id@,
            },
    {
        let w = match self.get(id) {
            Ok(w) => w,
            Err(e) => {
                return Err(e);
            },
        };
        match &w.manifest {
            Outcome::Value(m) => Ok(Some(RenderWorkerTask::Render { id: String::from_str(id), entry: m.entry.clone() })),
            Outcome::Error(_) => Ok(None),
        }
    }
}

impl RenderWorkerTask {
    /// The widget ID and entry file of the task.
    pub open spec fn parts(self) -> (Seq<char>, Seq<char>) {
        match self {
            RenderWorkerTask::Render { id, entry } => (id@, entry@),
        }
    }
}

/// The parts of a sequence of render tasks.
pub open spec fn task_parts(ts: Seq<RenderWorkerTask>) -> Seq<(Seq<char>, Seq<char>)> {
    ts.map_values(|t: RenderWorkerTask| t.parts())
}

/// The widget IDs of a sequence of render tasks.
pub open spec fn task_ids(ts: Seq<RenderWorkerTask>) -> Seq<Seq<char>> {
    ts.map_values(|t: RenderWorkerTask| t.parts().0)
}

/// The widget `id` of the catalog has a manifest that loaded.
pub open spec fn renderable(m: Map<Seq<char>, Widget>, id: Seq<char>) -> bool {
    m.dom().contains(id) && m[id].manifest is Value
}

/// The render tasks of a catalog: one for each widget whose manifest loaded,
/// with its entry file, in the order of widget IDs.
pub open spec fn render_listing(m: Map<Seq<char>, Widget>, ts: Seq<RenderWorkerTask>) -> bool {
    &&& strictly_sorted(task_ids(ts))
    &&& forall|i: int|
        0 <= i < ts.len() ==> renderable(m, #[trigger] ts[i].parts().0) && ts[i].parts().1
            == m[ts[i].parts().0].manifest->Value_0.entry@
    &&& forall|k: Seq<char>| renderable(m, k) ==> #[trigger] task_ids(ts).contains(k)
}

/// A persisted widget: its settings.
#[derive(Debug)]
pub struct PersistedWidget {
    pub settings: WidgetSettings,
}

/// The persisted catalog: the settings of each widget, by widget ID.
pub struct PersistedWidgetCatalog(pub StringMap<PersistedWidget>);

/// The persisted form of a catalog.
pub open spec fn persisted_map(m: Map<Seq<char>, Widget>) -> Map<Seq<char>, PersistedWidget> {
    Map::new(|k: Seq<char>| m.dom().contains(k), |k: Seq<char>| PersistedWidget { settings: m[k].settings })
}

/// The render tasks of a catalog are determined by the catalog: any two
/// listings of them agree, task for task.
pub proof fn lemma_render_listing_unique(m: Map<Seq<char>, Widget>, a: Seq<RenderWorkerTask>, b: Seq<RenderWorkerTask>)
    requires
        render_listing(m, a),
        render_listing(m, b),
    ensures
        task_parts(a) == task_parts(b),
{
    let ia = task_ids(a);
    let ib = task_ids(b);
    assert forall|k: Seq<char>| #[trigger] ia.contains(k) <==> ib.contains(k) by {
        if ia.contains(k) {
            let i = choose|i: int| 0 <= i < ia.len() && ia[i] == k;
            assert(renderable(m, a[i].parts().0));
        }
        if ib.contains(k) {
            let i = choose|i: int| 0 <= i < ib.len() && ib[i] == k;
            assert(renderable(m, b[i].parts().0));
        }
    }
    crate::string_map::lemma_sorted_unique(ia, ib);
    assert forall|i: int| 0 <= i < a.len() implies task_parts(a)[i] == task_parts(b)[i] by {
        assert(ia[i] == ib[i]);
        assert(a[i].parts().0 == b[i].parts().0);
    }
    assert(a.len() == ia.len() && b.len() == ib.len());
    assert(task_parts(a) =~= task_parts(b));
}

impl WidgetCatalog {
    /// The render tasks for all widgets whose manifest loaded, in the order of
    /// widget IDs.
    pub fn render_tasks(&self) -> (ts: Vec<RenderWorkerTask>)
        requires
            self.0.wf(),
        ensures
            render_listing(self.0@, ts@),
    {
        let ghost m = self.0@;
        let ks = self.0.sorted_keys();
        let ghost kt = texts_of(ks@);
        let mut ts: Vec<RenderWorkerTask> = Vec::new();
        let mut i: usize = 0;
        while i < ks.len()
            invariant
                self.0.wf(),
                m == self.0@,
                kt == texts_of(ks@),
                strictly_sorted(kt),
                forall|k: Seq<char>| #[trigger] kt.contains(k) <==> m.dom().contains(k),
                i <= kt.len(),
                strictly_sorted(task_ids(ts@)),
                forall|q: int| 0 <= q < ts@.len() && i < kt.len() ==> seq_lt(#[trigger] task_ids(ts@)[q], kt[i as int]),
                forall|q: int|
                    0 <= q < ts@.len() ==> renderable(m, #[trigger] ts@[q].parts().0) && ts@[q].parts().1
                        == m[ts@[q].parts().0].manifest->Value_0.entry@,
                forall|j: int| 0 <= j < i && renderable(m, #[trigger] kt[j]) ==> task_ids(ts@).contains(kt[j]),
            decreases kt.len() - i,
        {
            let ghost before = ts@;
            assert(ks@[i as int]@ == kt[i as int]);
            assert(kt.contains(kt[i as int]));
            let id = &ks[i];
            match self.0.get(id.as_str()) {
                Some(w) => {
                    match &w.manifest {
                        Outcome::Value(man) => {
                            ts.push(RenderWorkerTask::Render { id: id.clone(), entry: man.entry.clone() });
                            proof {
                                assert(ts@ == before.push(ts@[before.len() as int]));
                                assert(task_ids(ts@) =~= task_ids(before).push(kt[i as int]));
                            }
                        },
                        Outcome::Error(_) => {},
                    }
                },
                None => {},
            }
            proof {
                let ids = task_ids(ts@);
                assert forall|q: int| 0 <= q < ts@.len() && i + 1 < kt.len() implies seq_lt(
                    #[trigger] task_ids(ts@)[q],
                    kt[i + 1],
                ) by {
                    let nxt: int = i + 1;
                    assert(seq_lt(kt[i as int], kt[nxt]));
                    if q < before.len() {
                        assert(ids[q] == task_ids(before)[q]);
                        lemma_lt_transitive(ids[q], kt[i as int], kt[nxt]);
                    }
                }
                assert forall|j: int| 0 <= j < i + 1 && renderable(m, #[trigger] kt[j]) implies task_ids(
                    ts@,
                ).contains(kt[j]) by {
                    if j < i {
                        let q = choose|q: int| 0 <= q < task_ids(before).len() && task_ids(before)[q] == kt[j];
                        assert(ids[q] == kt[j]);
                    } else {
                        assert(ids[ids.len() - 1] == kt[j]);
                    }
                }
            }
            i = i + 1;
        }
        proof {
            assert forall|k: Seq<char>| renderable(m, k) implies #[trigger] task_ids(ts@).contains(k) by {
                assert(kt.contains(k));
                let j = choose|j: int| 0 <= j < kt.len() && kt[j] == k;
                assert(renderable(m, kt[j]));
            }
        }
        ts
    }

    /// The persisted form of the catalog: the settings of each widget, stored
    /// in the order of widget IDs.
    pub fn persisted(&self) -> (p: PersistedWidgetCatalog)
        requires
            self.0.wf(),
        ensures
            p.0.wf(),
            p.0@ == persisted_map(self.0@),
            strictly_sorted(crate::string_map::key_seq(p.0.entries())),
    {
        let ghost m = self.0@;
        let ks = self.0.sorted_keys();
        let ghost kt = texts_of(ks@);
        let mut out: Vec<(String, PersistedWidget)> = Vec::new();
        let mut i: usize = 0;
        while i < ks.len()
            invariant
                self.0.wf(),
                m == self.0@,
                kt == texts_of(ks@),
                forall|k: Seq<char>| #[trigger] kt.contains(k) <==> m.dom().contains(k),
                i <= kt.len(),
                out@.len() == i,
                forall|j: int|
                    0 <= j < i ==> (#[trigger] out@[j]).0@ == kt[j] && out@[j].1 == (PersistedWidget {
                        settings: m[kt[j]].settings,
                    }),
            decreases kt.len() - i,
        {
            let id = &ks[i];
            assert(ks@[i as int]@ == kt[i as int]);
            assert(kt.contains(kt[i as int]));
            match self.0.get(id.as_str()) {
                Some(w) => {
                    out.push((id.clone(), PersistedWidget { settings: w.settings }));
                },
                None => {},
            }
            i = i + 1;
        }
        proof {
            let es = out@;
            assert(crate::string_map::key_seq(es) =~= kt);
            assert(distinct_keys(es)) by {
                assert forall|a: int, b: int| 0 <= a < es.len() && 0 <= b < es.len() && a != b implies #[trigger] es[a].0@
                    != #[trigger] es[b].0@ by {
                    crate::text::lemma_lt_irreflexive(kt[a]);
                    crate::text::lemma_lt_irreflexive(kt[b]);
                }
            }
            assert forall|k: Seq<char>| #[trigger] entries_map(es).dom().contains(k) == persisted_map(m).dom().contains(
                k,
            ) by {
                assert(entries_map(es).dom().contains(k) == has_key(es, k));
                assert(persisted_map(m).dom().contains(k) == m.dom().contains(k));
                if has_key(es, k) {
                    let j = choose|j: int| 0 <= j < es.len() && #[trigger] es[j].0@ == k;
                    assert(kt[j] == k);
                    assert(kt.contains(k));
                }
                if m.dom().contains(k) {
                    assert(kt.contains(k));
                    let j = choose|j: int| 0 <= j < kt.len() && kt[j] == k;
                    assert(es[j].0@ == k);
                }
            }
            assert forall|k: Seq<char>| #[trigger] persisted_map(m).dom().contains(k) implies entries_map(es)[k]
                == persisted_map(m)[k] by {
                assert(kt.contains(k));
                let j = choose|j: int| 0 <= j < kt.len() && kt[j] == k;
                lemma_entries_map_index(es, j);
            }
            assert(entries_map(es) =~= persisted_map(m));
        }
        PersistedWidgetCatalog(StringMap::from_entries(out))
    }
}

/// No two entries name the same directory.
pub open spec fn distinct_ids(es: Seq<DirEntry>) -> bool {
    forall|i: int, j: int| 0 <= i < es.len() && 0 <= j < es.len() && i != j ==> #[trigger] es[i].id@ != #[trigger] es[j].id@
}

/// Reloading all widgets from entries with distinct names yields exactly the
/// widgets among the entries, each with the manifest loaded from its directory,
/// keeping the settings it had in the old catalog (defaults for new widgets).
pub proof fn lemma_reload_all_distinct(old: Map<Seq<char>, Widget>, es: Seq<DirEntry>)
    requires
        distinct_ids(es),
    ensures
        forall|k: Seq<char>| #[trigger] reload_all_fold(old, es).1.dom().contains(k) <==> exists|i: int|
            0 <= i < es.len() && is_widget_entry(es[i]) && es[i].id@ == k,
        forall|i: int|
            0 <= i < es.len() && is_widget_entry(#[trigger] es[i]) ==> reload_all_fold(old, es).1[es[i].id@] == (Widget {
                manifest: widget_manifest_of(es[i].manifest),
                settings: if old.dom().contains(es[i].id@) {
                    old[es[i].id@].settings
                } else {
                    default_widget_settings()
                },
            }),
        forall|k: Seq<char>| #[trigger] reload_all_fold(old, es).0.dom().contains(k) <==> (old.dom().contains(k)
            && !exists|i: int| 0 <= i < es.len() && is_widget_entry(es[i]) && es[i].id@ == k),
        forall|k: Seq<char>| #[trigger] reload_all_fold(old, es).0.dom().contains(k) ==> reload_all_fold(old, es).0[k]
            == old[k],
    decreases es.len(),
{
    if es.len() > 0 {
        let pre = es.drop_last();
        assert forall|i: int, j: int| 0 <= i < pre.len() && 0 <= j < pre.len() && i != j implies #[trigger] pre[i].id@
            != #[trigger] pre[j].id@ by {
            assert(pre[i] == es[i] && pre[j] == es[j]);
        }
        lemma_reload_all_distinct(old, pre);
        let last = es.len() - 1;
        assert forall|i: int| 0 <= i < pre.len() implies #[trigger] pre[i] == es[i] by {}
        assert forall|i: int| 0 <= i < pre.len() implies es[i].id@ != es[last].id@ by {}
        let r = reload_all_fold(old, es);
        assert forall|k: Seq<char>| #[trigger] r.1.dom().contains(k) <==> exists|i: int|
            0 <= i < es.len() && is_widget_entry(es[i]) && es[i].id@ == k by {
            if exists|i: int| 0 <= i < es.len() && is_widget_entry(es[i]) && es[i].id@ == k {
                let i = choose|i: int| 0 <= i < es.len() && is_widget_entry(es[i]) && es[i].id@ == k;
                if i < last {
                    assert(pre[i] == es[i]);
                }
            }
            if reload_all_fold(old, pre).1.dom().contains(k) {
                let i = choose|i: int| 0 <= i < pre.len() && is_widget_entry(pre[i]) && pre[i].id@ == k;
                assert(es[i] == pre[i]);
            }
        }
        let k_last = es[last].id@;
        assert(!exists|i: int| 0 <= i < pre.len() && is_widget_entry(pre[i]) && pre[i].id@ == k_last);
        assert forall|i: int|
            0 <= i < es.len() && is_widget_entry(#[trigger] es[i]) implies r.1[es[i].id@] == (Widget {
            manifest: widget_manifest_of(es[i].manifest),
            settings: if old.dom().contains(es[i].id@) {
                old[es[i].id@].settings
            } else {
                default_widget_settings()
            },
        }) by {
            if i < last {
                assert(pre[i] == es[i]);
            }
        }
        assert forall|k: Seq<char>| #[trigger] r.0.dom().contains(k) <==> (old.dom().contains(k) && !exists|i: int|
            0 <= i < es.len() && is_widget_entry(es[i]) && es[i].id@ == k) by {
            if exists|i: int| 0 <= i < es.len() && is_widget_entry(es[i]) && es[i].id@ == k {
                let i = choose|i: int| 0 <= i < es.len() && is_widget_entry(es[i]) && es[i].id@ == k;
                if i < last {
                    assert(pre[i] == es[i]);
                }
            }
            if exists|i: int| 0 <= i < pre.len() && is_widget_entry(pre[i]) && pre[i].id@ == k {
                let i = choose|i: int| 0 <= i < pre.len() && is_widget_entry(pre[i]) && pre[i].id@ == k;
                assert(es[i] == pre[i]);
            }
        }
    }
}

/// Which widgets to bundle.
#[derive(Debug)]
pub enum BundleTarget {
    /// All widgets in the catalog.
    All,
    /// The given widget.
    Id(String),
    /// The given widgets.
    Ids(Vec<String>),
}

/// The texts of a list of strings.
pub open spec fn string_texts(v: Seq<String>) -> Seq<Seq<char>> {
    v.map_values(|s: String| s@)
}

/// Every ID names a widget of the catalog.
pub open spec fn all_known(m: Map<Seq<char>, Widget>, ids: Seq<String>) -> bool {
    forall|i: int| 0 <= i < ids.len() ==> m.dom().contains(#[trigger] ids[i]@)
}

impl WidgetCatalog {
    /// The IDs of the widgets a bundle target names: all of them in the order
    /// of widget IDs, the one given if the catalog has it, or the ones given (which
    /// must all be in the catalog).
    pub fn bundle_targets(&self, target: &BundleTarget) -> (ids: Vec<String>)
        requires
            self.0.wf(),
            target matches BundleTarget::Ids(v) ==> all_known(self.0@, v@),
        ensures
            match target {
                BundleTarget::All => strictly_sorted(texts_of(ids@)) && forall|k: Seq<char>| #[trigger]
                    texts_of(ids@).contains(k) <==> self.0@.dom().contains(k),
                BundleTarget::Id(id) => if self.0@.dom().contains(id@) {
                    string_texts(ids@) == seq![id@]
                } else {
                    ids@.len() == 0
                },
                BundleTarget::Ids(v) => string_texts(ids@) == string_texts(v@),
            },
    {
        match target {
            BundleTarget::All => self.0.sorted_keys(),
            BundleTarget::Id(id) => {
                if self.0.contains_key(id.as_str()) {
                    let ids = vec![id.clone()];
                    assert(string_texts(ids@) =~= seq![id@]);
                    ids
                } else {
                    Vec::new()
                }
            },
            BundleTarget::Ids(v) => {
                let mut ids: Vec<String> = Vec::new();
                let mut i: usize = 0;
                while i < v.len()
                    invariant
                        i <= v@.len(),
                        ids@.len() == i,
                        string_texts(ids@) == string_texts(v@.take(i as int)),
                    decreases v@.len() - i,
                {
                    let ghost prev = ids@;
                    let c = v[i].clone();
                    ids.push(c);
                    assert(ids@ == prev.push(c));
                    assert forall|j: int| 0 <= j < i implies ids@[j]@ == prev[j]@ by {}
                    assert(string_texts(prev) == string_texts(v@.take(i as int)));
                    assert forall|j: int| 0 <= j < i implies prev[j]@ == v@[j]@ by {
                        assert(string_texts(prev)[j] == string_texts(v@.take(i as int))[j]);
                    }
                    assert(string_texts(ids@) =~= string_texts(v@.take(i + 1)));
                    i = i + 1;
                }
                assert(v@.take(v@.len() as int) =~= v@);
                ids
            },
        }
    }
}

} // verus!
