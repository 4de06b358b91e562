//! Definitions and patching of Deskulpt settings.

use vstd::prelude::*;

use crate::string_map::{distinct_keys, entries_map, lemma_entries_map_index, lemma_entries_map_push, StringMap};
use crate::text::{join_texts, joined, str_equal, texts_of};

verus! {

/// The value a map holds for `k`, if any.
pub open spec fn map_get<K, V>(m: Map<K, V>, k: K) -> Option<V> {
    if m.dom().contains(k) {
        Some(m[k])
    } else {
        None
    }
}

/// The characters of an optional string.
pub open spec fn opt_seq(o: Option<String>) -> Option<Seq<char>> {
    match o {
        Some(s) => Some(s@),
        None => None,
    }
}

/// Whether two optional strings are equal.
pub fn opt_str_equal(a: &Option<String>, b: &Option<String>) -> (r: bool)
    ensures
        r == (opt_seq(*a) == opt_seq(*b)),
{
    match (a, b) {
        (Some(x), Some(y)) => str_equal(x.as_str(), y.as_str()),
        (None, None) => true,
        _ => false,
    }
}

/// The light/dark theme of the application interface.
#[derive(Clone, Copy, Debug, PartialEq, Eq, Structural)]
pub enum Theme {
    Light,
    Dark,
}

impl Default for Theme {
    fn default() -> (r: Self)
        ensures
            r == Theme::Light,
    {
        Theme::Light
    }
}

/// The canvas interaction mode.
#[derive(Clone, Copy, Debug, PartialEq, Eq, Structural)]
pub enum CanvasImode {
    /// Switch between sink and float modes based on the mouse position.
    Auto,
    /// The canvas is click-through; the desktop is interactable.
    Sink,
    /// The canvas is not click-through; widgets are interactable.
    Float,
}

impl Default for CanvasImode {
    fn default() -> (r: Self)
        ensures
            r == CanvasImode::Auto,
    {
        CanvasImode::Auto
    }
}

/// Actions that can be bound to keyboard shortcuts.
#[derive(Clone, Copy, Debug, PartialEq, Eq, Structural, PartialOrd, Ord)]
pub enum ShortcutAction {
    /// Toggle the canvas interaction mode.
    ToggleCanvasImode,
    /// Open the manager interface.
    OpenManager,
}

/// Per-widget settings.
#[derive(Clone, Copy, Debug, PartialEq, Eq, Structural)]
pub struct WidgetSettings {
    /// The leftmost x-coordinate in pixels.
    pub x: i32,
    /// The topmost y-coordinate in pixels.
    pub y: i32,
    /// The width in pixels.
    pub width: u32,
    /// The height in pixels.
    pub height: u32,
    /// The opacity in percentage.
    pub opacity: u8,
    /// The z-index.
    pub z_index: i16,
    /// Whether the widget should be loaded on the canvas.
    pub is_loaded: bool,
}

/// The default widget settings.
pub open spec fn default_widget_settings() -> WidgetSettings {
    WidgetSettings { x: 0, y: 0, width: 300, height: 200, opacity: 100, z_index: 0, is_loaded: true }
}

impl Default for WidgetSettings {
    fn default() -> (r: Self)
        ensures
            r == default_widget_settings(),
            r.x == 0 && r.y == 0,
            r.width == 300 && r.height == 200,
            r.opacity == 100,
            r.z_index == 0,
            r.is_loaded,
    {
        WidgetSettings { x: 0, y: 0, width: 300, height: 200, opacity: 100, z_index: 0, is_loaded: true }
    }
}

/// A patch for partial updates to [`WidgetSettings`]; each `Some` field replaces
/// the corresponding setting.
#[derive(Clone, Copy, Debug, PartialEq, Eq, Structural)]
pub struct WidgetSettingsPatch {
    pub x: Option<i32>,
    pub y: Option<i32>,
    pub width: Option<u32>,
    pub height: Option<u32>,
    pub opacity: Option<u8>,
    pub z_index: Option<i16>,
    pub is_loaded: Option<bool>,
}

/// The patch that changes nothing.
pub open spec fn empty_widget_patch() -> WidgetSettingsPatch {
    WidgetSettingsPatch {
        x: None,
        y: None,
        width: None,
        height: None,
        opacity: None,
        z_index: None,
        is_loaded: None,
    }
}

impl Default for WidgetSettingsPatch {
    fn default() -> (r: Self)
        ensures
            r == empty_widget_patch(),
    {
        WidgetSettingsPatch {
            x: None,
            y: None,
            width: None,
            height: None,
            opacity: None,
            z_index: None,
            is_loaded: None,
        }
    }
}

/// `src` if given, else `dst`.
pub open spec fn or_keep<T>(dst: T, src: Option<T>) -> T {
    match src {
        Some(v) => v,
        None => dst,
    }
}

impl WidgetSettings {
    /// The settings after `p` has been applied.
    pub open spec fn patched(self, p: WidgetSettingsPatch) -> WidgetSettings {
        WidgetSettings {
            x: or_keep(self.x, p.x),
            y: or_keep(self.y, p.y),
            width: or_keep(self.width, p.width),
            height: or_keep(self.height, p.height),
            opacity: or_keep(self.opacity, p.opacity),
            z_index: or_keep(self.z_index, p.z_index),
            is_loaded: or_keep(self.is_loaded, p.is_loaded),
        }
    }

    /// Apply a [`WidgetSettingsPatch`].
    ///
    /// Returns whether the settings were actually changed by the patch.
    pub fn apply_patch(&mut self, patch: WidgetSettingsPatch) -> (dirty: bool)
        ensures
            *final(self) == old(self).patched(patch),
            dirty == (old(self).patched(patch) != *old(self)),
    {
        let mut dirty = false;
        if let Some(v) = patch.x {
            if self.x != v {
                self.x = v;
                dirty = true;
            }
        }
        if let Some(v) = patch.y {
            if self.y != v {
                self.y = v;
                dirty = true;
            }
        }
        if let Some(v) = patch.width {
            if self.width != v {
                self.width = v;
                dirty = true;
            }
        }
        if let Some(v) = patch.height {
            if self.height != v {
                self.height = v;
                dirty = true;
            }
        }
        if let Some(v) = patch.opacity {
            if self.opacity != v {
                self.opacity = v;
                dirty = true;
            }
        }
        if let Some(v) = patch.z_index {
            if self.z_index != v {
                self.z_index = v;
                dirty = true;
            }
        }
        if let Some(v) = patch.is_loaded {
            if self.is_loaded != v {
                self.is_loaded = v;
                dirty = true;
            }
        }
        dirty
    }
}

/// The opacity read from a settings file: a value is clamped to 1..=100, and
/// an unreadable one gives the default of 100.
pub open spec fn opacity_of(parsed: Option<u8>) -> u8 {
    match parsed {
        Some(v) => if v < 1 {
            1u8
        } else if v > 100 {
            100u8
        } else {
            v
        },
        None => 100u8,
    }
}

impl WidgetSettings {
    /// The opacity to keep from what was read from a settings file.
    pub fn opacity_from(parsed: Option<u8>) -> (o: u8)
        ensures
            o == opacity_of(parsed),
            1 <= o <= 100,
    {
        match parsed {
            Some(v) => if v < 1 {
                1
            } else if v > 100 {
                100
            } else {
                v
            },
            None => 100,
        }
    }
}

/// Applying a widget settings patch a second time changes nothing.
pub proof fn lemma_widget_patch_idempotent(s: WidgetSettings, p: WidgetSettingsPatch)
    ensures
        s.patched(p).patched(p) == s.patched(p),
{
}

/// The empty patch leaves widget settings unchanged.
pub proof fn lemma_widget_patch_empty(s: WidgetSettings)
    ensures
        s.patched(empty_widget_patch()) == s,
{
}

/// The keyboard shortcuts: for each action, the shortcut string bound to it.
pub struct ShortcutMap {
    toggle_canvas_imode: Option<String>,
    open_manager: Option<String>,
}

impl ShortcutMap {
    /// The slot of an action.
    pub closed spec fn slot(self, a: ShortcutAction) -> Option<String> {
        match a {
            ShortcutAction::ToggleCanvasImode => self.toggle_canvas_imode,
            ShortcutAction::OpenManager => self.open_manager,
        }
    }
}

impl View for ShortcutMap {
    type V = Map<ShortcutAction, Seq<char>>;

    closed spec fn view(&self) -> Map<ShortcutAction, Seq<char>> {
        Map::new(|a: ShortcutAction| self.slot(a) is Some, |a: ShortcutAction| self.slot(a)->0@)
    }
}

impl ShortcutMap {
    /// No shortcuts bound.
    pub fn new() -> (m: Self)
        ensures
            m@ == Map::<ShortcutAction, Seq<char>>::empty(),
    {
        let m = ShortcutMap { toggle_canvas_imode: None, open_manager: None };
        assert(m@ =~= Map::<ShortcutAction, Seq<char>>::empty());
        m
    }

    /// The shortcut bound to `action`, if any.
    pub fn get(&self, action: ShortcutAction) -> (r: Option<&String>)
        ensures
            match r {
                Some(s) => self@.dom().contains(action) && s@ == self@[action],
                None => !self@.dom().contains(action),
            },
    {
        match action {
            ShortcutAction::ToggleCanvasImode => self.toggle_canvas_imode.as_ref(),
            ShortcutAction::OpenManager => self.open_manager.as_ref(),
        }
    }

    /// Bind `shortcut` to `action`, returning the shortcut it replaces.
    pub fn insert(&mut self, action: ShortcutAction, shortcut: String) -> (r: Option<String>)
        ensures
            final(self)@ == old(self)@.insert(action, shortcut@),
            opt_seq(r) == map_get(old(self)@, action),
    {
        let prev = match action {
            ShortcutAction::ToggleCanvasImode => {
                let prev = self.toggle_canvas_imode.take();
                self.toggle_canvas_imode = Some(shortcut);
                prev
            },
            ShortcutAction::OpenManager => {
                let prev = self.open_manager.take();
                self.open_manager = Some(shortcut);
                prev
            },
        };
        assert(self@ =~= old(self)@.insert(action, shortcut@));
        prev
    }

    /// Unbind `action`, returning the shortcut it had.
    pub fn remove(&mut self, action: ShortcutAction) -> (r: Option<String>)
        ensures
            final(self)@ == old(self)@.remove(action),
            opt_seq(r) == map_get(old(self)@, action),
    {
        let prev = match action {
            ShortcutAction::ToggleCanvasImode => self.toggle_canvas_imode.take(),
            ShortcutAction::OpenManager => self.open_manager.take(),
        };
        assert(self@ =~= old(self)@.remove(action));
        prev
    }
}

/// Changes to the keyboard shortcuts: for each action, `None` leaves it
/// unchanged, `Some(None)` removes its shortcut and `Some(Some(s))` binds `s`.
pub struct ShortcutsPatch {
    pub toggle_canvas_imode: Option<Option<String>>,
    pub open_manager: Option<Option<String>>,
}

impl ShortcutsPatch {
    /// The change requested for an action.
    pub open spec fn entry(self, a: ShortcutAction) -> Option<Option<String>> {
        match a {
            ShortcutAction::ToggleCanvasImode => self.toggle_canvas_imode,
            ShortcutAction::OpenManager => self.open_manager,
        }
    }
}

impl View for ShortcutsPatch {
    type V = Map<ShortcutAction, Option<Seq<char>>>;

    open spec fn view(&self) -> Map<ShortcutAction, Option<Seq<char>>> {
        Map::new(|a: ShortcutAction| self.entry(a) is Some, |a: ShortcutAction| opt_seq(self.entry(a)->0))
    }
}

/// Full settings of the Deskulpt application.
pub struct Settings {
    /// The application theme.
    pub theme: Theme,
    /// The canvas interaction mode.
    pub canvas_imode: CanvasImode,
    /// The keyboard shortcuts.
    pub shortcuts: ShortcutMap,
    /// The settings of each widget, by widget ID.
    pub widgets: StringMap<WidgetSettings>,
    /// Whether the starter widgets have been added.
    pub starter_widgets_added: bool,
    /// Whether widget hot reload is enabled.
    pub hot_reload_enabled: bool,
}

/// The mathematical content of [`Settings`].
pub struct SettingsView {
    pub theme: Theme,
    pub canvas_imode: CanvasImode,
    pub shortcuts: Map<ShortcutAction, Seq<char>>,
    pub widgets: Map<Seq<char>, WidgetSettings>,
    pub starter_widgets_added: bool,
    pub hot_reload_enabled: bool,
}

impl View for Settings {
    type V = SettingsView;

    open spec fn view(&self) -> SettingsView {
        SettingsView {
            theme: self.theme,
            canvas_imode: self.canvas_imode,
            shortcuts: self.shortcuts@,
            widgets: self.widgets@,
            starter_widgets_added: self.starter_widgets_added,
            hot_reload_enabled: self.hot_reload_enabled,
        }
    }
}

impl Settings {
    /// The settings are well formed.
    pub open spec fn wf(&self) -> bool {
        self.widgets.wf()
    }
}

impl Default for Settings {
    fn default() -> (r: Self)
        ensures
            r.wf(),
            r@ == (SettingsView {
                theme: Theme::Light,
                canvas_imode: CanvasImode::Auto,
                shortcuts: Map::empty(),
                widgets: Map::empty(),
                starter_widgets_added: false,
                hot_reload_enabled: false,
            }),
    {
        Settings {
            theme: Theme::Light,
            canvas_imode: CanvasImode::Auto,
            shortcuts: ShortcutMap::new(),
            widgets: StringMap::new(),
            starter_widgets_added: false,
            hot_reload_enabled: false,
        }
    }
}

/// A patch for partial updates to [`Settings`].
pub struct SettingsPatch {
    /// If not `None`, update the theme.
    pub theme: Option<Theme>,
    /// If not `None`, update the canvas interaction mode.
    pub canvas_imode: Option<CanvasImode>,
    /// If not `None`, update the named shortcuts.
    pub shortcuts: Option<ShortcutsPatch>,
    /// If not `None`, update the named widgets: `None` removes a widget, a
    /// patch is applied to its settings (created with defaults if absent).
    pub widgets: Option<StringMap<Option<WidgetSettingsPatch>>>,
    /// If not `None`, update whether the starter widgets have been added.
    pub starter_widgets_added: Option<bool>,
    /// If not `None`, update whether widget hot reload is enabled.
    pub hot_reload_enabled: Option<bool>,
}

/// The mathematical content of [`SettingsPatch`].
pub struct SettingsPatchView {
    pub theme: Option<Theme>,
    pub canvas_imode: Option<CanvasImode>,
    /// The requested change for each named action.
    pub shortcuts: Map<ShortcutAction, Option<Seq<char>>>,
    /// The requested change for each named widget.
    pub widgets: Map<Seq<char>, Option<WidgetSettingsPatch>>,
    pub starter_widgets_added: Option<bool>,
    pub hot_reload_enabled: Option<bool>,
}

impl View for SettingsPatch {
    type V = SettingsPatchView;

    open spec fn view(&self) -> SettingsPatchView {
        SettingsPatchView {
            theme: self.theme,
            canvas_imode: self.canvas_imode,
            shortcuts: match self.shortcuts {
                Some(p) => p@,
                None => Map::empty(),
            },
            widgets: match self.widgets {
                Some(w) => w@,
                None => Map::empty(),
            },
            starter_widgets_added: self.starter_widgets_added,
            hot_reload_enabled: self.hot_reload_enabled,
        }
    }
}

impl SettingsPatch {
    /// The patch is well formed.
    pub open spec fn wf(&self) -> bool {
        match self.widgets {
            Some(w) => w.wf(),
            None => true,
        }
    }

    /// The patch that changes nothing.
    pub fn empty() -> (p: Self)
        ensures
            p.wf(),
            p@ == empty_settings_patch(),
    {
        SettingsPatch {
            theme: None,
            canvas_imode: None,
            shortcuts: None,
            widgets: None,
            starter_widgets_added: None,
            hot_reload_enabled: None,
        }
    }
}

/// The view of the patch that changes nothing.
pub open spec fn empty_settings_patch() -> SettingsPatchView {
    SettingsPatchView {
        theme: None,
        canvas_imode: None,
        shortcuts: Map::empty(),
        widgets: Map::empty(),
        starter_widgets_added: None,
        hot_reload_enabled: None,
    }
}

/// Work handed to the settings worker after an update.
#[derive(Debug)]
#[allow(inconsistent_fields)]
pub enum WorkerTask {
    /// The theme has changed; hooks on theme change are to be triggered.
    ThemeChanged { old: Theme, new: Theme },
    /// The canvas interaction mode has changed.
    CanvasImodeChanged { old: CanvasImode, new: CanvasImode },
    /// The shortcut of an action has changed (`None`: no shortcut).
    ShortcutChanged { action: ShortcutAction, old: Option<String>, new: Option<String> },
    /// The settings are to be persisted.
    Persist,
}

/// The mathematical content of a [`WorkerTask`].
#[allow(inconsistent_fields)]
pub enum WorkerTaskView {
    ThemeChanged { old: Theme, new: Theme },
    CanvasImodeChanged { old: CanvasImode, new: CanvasImode },
    ShortcutChanged { action: ShortcutAction, old: Option<Seq<char>>, new: Option<Seq<char>> },
    Persist,
}

impl View for WorkerTask {
    type V = WorkerTaskView;

    open spec fn view(&self) -> WorkerTaskView {
        match self {
            WorkerTask::ThemeChanged { old, new } => WorkerTaskView::ThemeChanged { old: *old, new: *new },
            WorkerTask::CanvasImodeChanged { old, new } => WorkerTaskView::CanvasImodeChanged {
                old: *old,
                new: *new,
            },
            WorkerTask::ShortcutChanged { action, old, new } => WorkerTaskView::ShortcutChanged {
                action: *action,
                old: opt_seq(*old),
                new: opt_seq(*new),
            },
            WorkerTask::Persist => WorkerTaskView::Persist,
        }
    }
}

/// The views of a sequence of tasks.
pub open spec fn task_views(ts: Seq<WorkerTask>) -> Seq<WorkerTaskView> {
    ts.map_values(|t: WorkerTask| t@)
}

// ---- What an update does, stated over views ----

/// The theme is changed by the patch.
pub open spec fn theme_changes(s: SettingsView, p: SettingsPatchView) -> bool {
    p.theme is Some && p.theme->0 != s.theme
}

/// The canvas interaction mode is changed by the patch.
pub open spec fn imode_changes(s: SettingsView, p: SettingsPatchView) -> bool {
    p.canvas_imode is Some && p.canvas_imode->0 != s.canvas_imode
}

/// The shortcut of `a` is changed by the patch.
pub open spec fn shortcut_changes(s: SettingsView, p: SettingsPatchView, a: ShortcutAction) -> bool {
    p.shortcuts.dom().contains(a) && map_get(s.shortcuts, a) != p.shortcuts[a]
}

/// The widget `id` is changed by the requested change `c`.
pub open spec fn widget_entry_changes(
    w: Map<Seq<char>, WidgetSettings>,
    id: Seq<char>,
    c: Option<WidgetSettingsPatch>,
) -> bool {
    match c {
        Some(wp) => !w.dom().contains(id) || w[id].patched(wp) != w[id],
        None => w.dom().contains(id),
    }
}

/// Some widget is changed by the requested changes.
pub open spec fn widgets_change(
    w: Map<Seq<char>, WidgetSettings>,
    pw: Map<Seq<char>, Option<WidgetSettingsPatch>>,
) -> bool {
    exists|id: Seq<char>| #[trigger] pw.dom().contains(id) && widget_entry_changes(w, id, pw[id])
}

/// The hot reload flag is changed by the patch.
pub open spec fn hot_reload_changes(s: SettingsView, p: SettingsPatchView) -> bool {
    p.hot_reload_enabled is Some && p.hot_reload_enabled->0 != s.hot_reload_enabled
}

/// The starter flag is changed by the patch.
pub open spec fn starter_changes(s: SettingsView, p: SettingsPatchView) -> bool {
    p.starter_widgets_added is Some && p.starter_widgets_added->0 != s.starter_widgets_added
}

/// The update changes something that frontend windows see.
pub open spec fn update_emits(s: SettingsView, p: SettingsPatchView) -> bool {
    ||| theme_changes(s, p)
    ||| imode_changes(s, p)
    ||| shortcut_changes(s, p, ShortcutAction::ToggleCanvasImode)
    ||| shortcut_changes(s, p, ShortcutAction::OpenManager)
    ||| widgets_change(s.widgets, p.widgets)
    ||| hot_reload_changes(s, p)
}

/// The update changes anything at all, so the settings must be persisted.
pub open spec fn update_persists(s: SettingsView, p: SettingsPatchView) -> bool {
    update_emits(s, p) || starter_changes(s, p)
}

/// The settings a widget starts from: its own, or the defaults.
pub open spec fn widget_base(w: Map<Seq<char>, WidgetSettings>, id: Seq<char>) -> WidgetSettings {
    if w.dom().contains(id) {
        w[id]
    } else {
        default_widget_settings()
    }
}

/// The widget settings after the requested changes.
pub open spec fn patched_widgets(
    w: Map<Seq<char>, WidgetSettings>,
    pw: Map<Seq<char>, Option<WidgetSettingsPatch>>,
) -> Map<Seq<char>, WidgetSettings> {
    Map::new(
        |id: Seq<char>|
            if pw.dom().contains(id) {
                pw[id] is Some
            } else {
                w.dom().contains(id)
            },
        |id: Seq<char>|
            if pw.dom().contains(id) && pw[id] is Some {
                widget_base(w, id).patched(pw[id]->0)
            } else {
                w[id]
            },
    )
}

/// The shortcuts after the requested changes.
pub open spec fn patched_shortcuts(
    m: Map<ShortcutAction, Seq<char>>,
    ps: Map<ShortcutAction, Option<Seq<char>>>,
) -> Map<ShortcutAction, Seq<char>> {
    Map::new(
        |a: ShortcutAction|
            if ps.dom().contains(a) {
                ps[a] is Some
            } else {
                m.dom().contains(a)
            },
        |a: ShortcutAction|
            if ps.dom().contains(a) && ps[a] is Some {
                ps[a]->0
            } else {
                m[a]
            },
    )
}

/// The settings after the patch.
pub open spec fn patched_settings(s: SettingsView, p: SettingsPatchView) -> SettingsView {
    SettingsView {
        theme: or_keep(s.theme, p.theme),
        canvas_imode: or_keep(s.canvas_imode, p.canvas_imode),
        shortcuts: patched_shortcuts(s.shortcuts, p.shortcuts),
        widgets: patched_widgets(s.widgets, p.widgets),
        starter_widgets_added: or_keep(s.starter_widgets_added, p.starter_widgets_added),
        hot_reload_enabled: or_keep(s.hot_reload_enabled, p.hot_reload_enabled),
    }
}

/// The task announcing a change of the shortcut of `a`, if it changes.
pub open spec fn shortcut_task(s: SettingsView, p: SettingsPatchView, a: ShortcutAction) -> Seq<
    WorkerTaskView,
> {
    if shortcut_changes(s, p, a) {
        seq![WorkerTaskView::ShortcutChanged { action: a, old: map_get(s.shortcuts, a), new: p.shortcuts[a] }]
    } else {
        seq![]
    }
}

/// The tasks an update hands to the worker, in order.
pub open spec fn update_tasks(s: SettingsView, p: SettingsPatchView) -> Seq<WorkerTaskView> {
    (if theme_changes(s, p) {
        seq![WorkerTaskView::ThemeChanged { old: s.theme, new: p.theme->0 }]
    } else {
        seq![]
    }) + (if imode_changes(s, p) {
        seq![WorkerTaskView::CanvasImodeChanged { old: s.canvas_imode, new: p.canvas_imode->0 }]
    } else {
        seq![]
    }) + shortcut_task(s, p, ShortcutAction::ToggleCanvasImode) + shortcut_task(
        s,
        p,
        ShortcutAction::OpenManager,
    ) + (if update_persists(s, p) {
        seq![WorkerTaskView::Persist]
    } else {
        seq![]
    })
}

/// What an update of the settings asks of its caller.
pub struct SettingsUpdate {
    /// The tasks for the settings worker, in order.
    pub tasks: Vec<WorkerTask>,
    /// Whether frontend windows must be told of the new settings.
    pub should_emit: bool,
}

/// One requested widget change applied to the current widget settings.
pub open spec fn widget_step(
    cur: Map<Seq<char>, WidgetSettings>,
    k: Seq<char>,
    c: Option<WidgetSettingsPatch>,
) -> Map<Seq<char>, WidgetSettings> {
    match c {
        Some(wp) => cur.insert(k, widget_base(cur, k).patched(wp)),
        None => cur.remove(k),
    }
}

/// Adding one more requested change to a set of changes that does not name
/// its widget amounts to applying it after the others.
proof fn lemma_patched_widgets_step(
    w: Map<Seq<char>, WidgetSettings>,
    pm: Map<Seq<char>, Option<WidgetSettingsPatch>>,
    k: Seq<char>,
    c: Option<WidgetSettingsPatch>,
)
    requires
        !pm.dom().contains(k),
    ensures
        patched_widgets(w, pm.insert(k, c)) == widget_step(patched_widgets(w, pm), k, c),
        widgets_change(w, pm.insert(k, c)) == (widgets_change(w, pm) || widget_entry_changes(
            patched_widgets(w, pm),
            k,
            c,
        )),
{
    let cur = patched_widgets(w, pm);
    let pm2 = pm.insert(k, c);
    assert(cur.dom().contains(k) == w.dom().contains(k));
    assert(cur.dom().contains(k) ==> cur[k] == w[k]);
    assert(widget_base(cur, k) == widget_base(w, k));
    assert(patched_widgets(w, pm2) =~= widget_step(cur, k, c));
    if widgets_change(w, pm2) {
        let id = choose|id: Seq<char>| #[trigger] pm2.dom().contains(id) && widget_entry_changes(w, id, pm2[id]);
        if id != k {
            assert(pm.dom().contains(id) && widget_entry_changes(w, id, pm[id]));
        }
    }
    if widgets_change(w, pm) {
        let id = choose|id: Seq<char>| #[trigger] pm.dom().contains(id) && widget_entry_changes(w, id, pm[id]);
        assert(pm2.dom().contains(id) && pm2[id] == pm[id]);
    }
    if widget_entry_changes(cur, k, c) {
        assert(pm2.dom().contains(k) && pm2[k] == c);
    }
}

/// Apply the requested widget changes to the widget settings.
///
/// Returns whether any widget was added, removed or changed.
fn apply_widget_changes(
    widgets: &mut StringMap<WidgetSettings>,
    changes: StringMap<Option<WidgetSettingsPatch>>,
) -> (changed: bool)
    requires
        old(widgets).wf(),
        changes.wf(),
    ensures
        final(widgets).wf(),
        final(widgets)@ == patched_widgets(old(widgets)@, changes@),
        changed == widgets_change(old(widgets)@, changes@),
{
    let ghost w0 = widgets@;
    let entries = changes.into_entries();
    let ghost es = entries@;
    let mut changed = false;
    let mut i: usize = 0;
    assert(entries_map(es.take(0)) =~= Map::<Seq<char>, Option<WidgetSettingsPatch>>::empty());
    assert(patched_widgets(w0, Map::empty()) =~= w0);
    while i < entries.len()
        invariant
            entries@ == es,
            distinct_keys(es),
            i <= es.len(),
            widgets.wf(),
            widgets@ == patched_widgets(w0, entries_map(es.take(i as int))),
            changed == widgets_change(w0, entries_map(es.take(i as int))),
        decreases es.len() - i,
    {
        let id = entries[i].0.clone();
        let c = entries[i].1;
        let ghost pre = es.take(i as int);
        let ghost k = es[i as int].0@;
        proof {
            assert(distinct_keys(pre));
            assert(!crate::string_map::has_key(pre, k)) by {
                if crate::string_map::has_key(pre, k) {
                    let j = crate::string_map::key_index(pre, k);
                    assert(pre[j] == es[j]);
                }
            }
            assert(es.take(i + 1) =~= pre.push(es[i as int]));
            lemma_entries_map_push(pre, es[i as int]);
            assert(!entries_map(pre).dom().contains(k));
            lemma_patched_widgets_step(w0, entries_map(pre), k, c);
        }
        match c {
            Some(wp) => {
                let (mut ws, fresh) = match widgets.remove(id.as_str()) {
                    Some(ws) => (ws, false),
                    None => (WidgetSettings::default(), true),
                };
                let dirty = ws.apply_patch(wp);
                changed = changed || fresh || dirty;
                widgets.insert(id, ws);
                proof {
                    let cur = patched_widgets(w0, entries_map(pre));
                    assert(widgets@ =~= widget_step(cur, k, c));
                }
            },
            None => {
                let gone = widgets.remove(id.as_str());
                changed = changed || gone.is_some();
            },
        }
        i = i + 1;
    }
    assert(es.take(es.len() as int) =~= es);
    changed
}

/// Change the shortcut of `action` to `shortcut` (`None`: remove it).
///
/// Returns the task announcing the change, if the shortcut changed.
fn change_shortcut(shortcuts: &mut ShortcutMap, action: ShortcutAction, shortcut: Option<String>) -> (r:
    Option<WorkerTask>)
    ensures
        final(shortcuts)@ == (match shortcut {
            Some(sc) => old(shortcuts)@.insert(action, sc@),
            None => old(shortcuts)@.remove(action),
        }),
        match r {
            Some(t) => map_get(old(shortcuts)@, action) != opt_seq(shortcut) && t@
                == (WorkerTaskView::ShortcutChanged {
                action: action,
                old: map_get(old(shortcuts)@, action),
                new: opt_seq(shortcut),
            }),
            None => map_get(old(shortcuts)@, action) == opt_seq(shortcut),
        },
{
    let prev = match &shortcut {
        Some(sc) => shortcuts.insert(action, sc.clone()),
        None => shortcuts.remove(action),
    };
    if opt_str_equal(&prev, &shortcut) {
        None
    } else {
        Some(WorkerTask::ShortcutChanged { action, old: prev, new: shortcut })
    }
}

/// The task announcing a theme change, if the theme changes.
pub open spec fn theme_task(old: Theme, new: Option<Theme>) -> Seq<WorkerTaskView> {
    if new is Some && new->0 != old {
        seq![WorkerTaskView::ThemeChanged { old: old, new: new->0 }]
    } else {
        seq![]
    }
}

/// The task announcing a canvas interaction mode change, if it changes.
pub open spec fn imode_task(old: CanvasImode, new: Option<CanvasImode>) -> Seq<WorkerTaskView> {
    if new is Some && new->0 != old {
        seq![WorkerTaskView::CanvasImodeChanged { old: old, new: new->0 }]
    } else {
        seq![]
    }
}

/// Set the theme if one is requested, recording the change.
fn update_theme(theme: &mut Theme, new: Option<Theme>, tasks: &mut Vec<WorkerTask>) -> (changed: bool)
    ensures
        *final(theme) == or_keep(*old(theme), new),
        changed == (new is Some && new->0 != *old(theme)),
        task_views(final(tasks)@) == task_views(old(tasks)@) + theme_task(*old(theme), new),
{
    let ghost t0 = tasks@;
    if let Some(t) = new {
        if *theme != t {
            let prev = *theme;
            *theme = t;
            tasks.push(WorkerTask::ThemeChanged { old: prev, new: t });
            assert(task_views(tasks@) =~= task_views(t0) + theme_task(prev, new));
            return true;
        }
    }
    assert(task_views(tasks@) =~= task_views(t0) + theme_task(*old(theme), new));
    false
}

/// Set the canvas interaction mode if one is requested, recording the change.
fn update_imode(imode: &mut CanvasImode, new: Option<CanvasImode>, tasks: &mut Vec<WorkerTask>) -> (changed:
    bool)
    ensures
        *final(imode) == or_keep(*old(imode), new),
        changed == (new is Some && new->0 != *old(imode)),
        task_views(final(tasks)@) == task_views(old(tasks)@) + imode_task(*old(imode), new),
{
    let ghost t0 = tasks@;
    if let Some(m) = new {
        if *imode != m {
            let prev = *imode;
            *imode = m;
            tasks.push(WorkerTask::CanvasImodeChanged { old: prev, new: m });
            assert(task_views(tasks@) =~= task_views(t0) + imode_task(prev, new));
            return true;
        }
    }
    assert(task_views(tasks@) =~= task_views(t0) + imode_task(*old(imode), new));
    false
}

/// The shortcut task for `a`, over the shortcut map alone.
pub open spec fn shortcut_map_task(
    m: Map<ShortcutAction, Seq<char>>,
    ps: Map<ShortcutAction, Option<Seq<char>>>,
    a: ShortcutAction,
) -> Seq<WorkerTaskView> {
    if ps.dom().contains(a) && map_get(m, a) != ps[a] {
        seq![WorkerTaskView::ShortcutChanged { action: a, old: map_get(m, a), new: ps[a] }]
    } else {
        seq![]
    }
}

/// Some shortcut is changed by the requested changes.
pub open spec fn shortcuts_change(
    m: Map<ShortcutAction, Seq<char>>,
    ps: Map<ShortcutAction, Option<Seq<char>>>,
) -> bool {
    (ps.dom().contains(ShortcutAction::ToggleCanvasImode) && map_get(m, ShortcutAction::ToggleCanvasImode)
        != ps[ShortcutAction::ToggleCanvasImode]) || (ps.dom().contains(ShortcutAction::OpenManager)
        && map_get(m, ShortcutAction::OpenManager) != ps[ShortcutAction::OpenManager])
}

/// The requested shortcut changes of an optional shortcuts patch.
pub open spec fn shortcuts_patch_view(patch: Option<ShortcutsPatch>) -> Map<ShortcutAction, Option<Seq<char>>> {
    match patch {
        Some(sp) => sp@,
        None => Map::empty(),
    }
}

/// Apply the requested shortcut changes, recording each change.
fn update_shortcuts(shortcuts: &mut ShortcutMap, patch: Option<ShortcutsPatch>, tasks: &mut Vec<WorkerTask>) -> (changed:
    bool)
    ensures
        final(shortcuts)@ == patched_shortcuts(old(shortcuts)@, shortcuts_patch_view(patch)),
        changed == shortcuts_change(old(shortcuts)@, shortcuts_patch_view(patch)),
        task_views(final(tasks)@) == task_views(old(tasks)@) + shortcut_map_task(old(shortcuts)@, shortcuts_patch_view(patch), ShortcutAction::ToggleCanvasImode) + shortcut_map_task(old(shortcuts)@, shortcuts_patch_view(patch), ShortcutAction::OpenManager),
{
    let ghost m0 = shortcuts@;
    let ghost t0 = tasks@;
    let ghost ps = shortcuts_patch_view(patch);
    let mut changed = false;
    if let Some(sp) = patch {
        if let Some(sc) = sp.toggle_canvas_imode {
            if let Some(t) = change_shortcut(shortcuts, ShortcutAction::ToggleCanvasImode, sc) {
                tasks.push(t);
                changed = true;
            }
        }
        let ghost t1 = tasks@;
        assert(task_views(t1) =~= task_views(t0) + shortcut_map_task(m0, ps, ShortcutAction::ToggleCanvasImode));
        assert(map_get(shortcuts@, ShortcutAction::OpenManager) == map_get(m0, ShortcutAction::OpenManager));
        if let Some(sc) = sp.open_manager {
            if let Some(t) = change_shortcut(shortcuts, ShortcutAction::OpenManager, sc) {
                tasks.push(t);
                changed = true;
            }
        }
        assert(task_views(tasks@) =~= task_views(t1) + shortcut_map_task(m0, ps, ShortcutAction::OpenManager));
    } else {
        assert(task_views(tasks@) =~= task_views(t0) + shortcut_map_task(m0, ps, ShortcutAction::ToggleCanvasImode)
            + shortcut_map_task(m0, ps, ShortcutAction::OpenManager));
    }
    assert(shortcuts@ =~= patched_shortcuts(m0, ps));
    changed
}

/// Set a flag if a value is requested; returns whether it changed.
fn update_flag(flag: &mut bool, new: Option<bool>) -> (changed: bool)
    ensures
        *final(flag) == or_keep(*old(flag), new),
        changed == (new is Some && new->0 != *old(flag)),
{
    if let Some(v) = new {
        if *flag != v {
            *flag = v;
            return true;
        }
    }
    false
}

impl Settings {
    /// Update the settings with a patch.
    ///
    /// Returns the tasks for the settings worker (hooks to trigger for changed
    /// theme, canvas interaction mode and shortcuts, then persistence when
    /// anything changed) and whether frontend windows must be notified.
    pub fn apply_patch(&mut self, patch: SettingsPatch) -> (u: SettingsUpdate)
        requires
            old(self).wf(),
            patch.wf(),
        ensures
            final(self).wf(),
            final(self)@ == patched_settings(old(self)@, patch@),
            task_views(u.tasks@) == update_tasks(old(self)@, patch@),
            u.should_emit == update_emits(old(self)@, patch@),
    {
        let ghost s0 = self@;
        let ghost p = patch@;
        let mut tasks: Vec<WorkerTask> = Vec::new();
        assert(task_views(tasks@) =~= Seq::<WorkerTaskView>::empty());

        let c1 = update_theme(&mut self.theme, patch.theme, &mut tasks);
        let c2 = update_imode(&mut self.canvas_imode, patch.canvas_imode, &mut tasks);
        let c3 = update_shortcuts(&mut self.shortcuts, patch.shortcuts, &mut tasks);
        let ghost w0 = self.widgets@;
        let c4 = match patch.widgets {
            Some(changes) => apply_widget_changes(&mut self.widgets, changes),
            None => {
                assert(patched_widgets(w0, Map::empty()) =~= w0);
                assert(!widgets_change(w0, Map::empty()));
                false
            },
        };
        let c5 = update_flag(&mut self.hot_reload_enabled, patch.hot_reload_enabled);
        let c6 = update_flag(&mut self.starter_widgets_added, patch.starter_widgets_added);
        let should_emit = c1 || c2 || c3 || c4 || c5;
        let ghost t5 = tasks@;
        if should_emit || c6 {
            tasks.push(WorkerTask::Persist);
        }
        proof {
            assert(shortcut_task(s0, p, ShortcutAction::ToggleCanvasImode) == shortcut_map_task(
                s0.shortcuts,
                p.shortcuts,
                ShortcutAction::ToggleCanvasImode,
            ));
            assert(shortcut_task(s0, p, ShortcutAction::OpenManager) == shortcut_map_task(
                s0.shortcuts,
                p.shortcuts,
                ShortcutAction::OpenManager,
            ));
            assert(task_views(tasks@) =~= task_views(t5) + (if update_persists(s0, p) {
                seq![WorkerTaskView::Persist]
            } else {
                seq![]
            }));
            assert(task_views(tasks@) =~= update_tasks(s0, p));
        }
        SettingsUpdate { tasks, should_emit }
    }
}

/// Applying the same settings patch a second time changes nothing: the
/// settings stay as they are, nothing is announced and nothing is persisted.
pub proof fn lemma_settings_update_idempotent(s: SettingsView, p: SettingsPatchView)
    ensures
        patched_settings(patched_settings(s, p), p) == patched_settings(s, p),
        !update_emits(patched_settings(s, p), p),
        !update_persists(patched_settings(s, p), p),
        update_tasks(patched_settings(s, p), p) == Seq::<WorkerTaskView>::empty(),
{
    let s1 = patched_settings(s, p);
    let w1 = s1.widgets;
    assert forall|id: Seq<char>| #[trigger] p.widgets.dom().contains(id) && p.widgets[id] is Some implies w1.dom().contains(
        id,
    ) && widget_base(w1, id) == w1[id] && w1[id].patched(p.widgets[id]->0) == w1[id] by {
        lemma_widget_patch_idempotent(widget_base(s.widgets, id), p.widgets[id]->0);
    }
    assert(patched_widgets(w1, p.widgets) =~= w1);
    assert(patched_shortcuts(s1.shortcuts, p.shortcuts) =~= s1.shortcuts);
    assert(!widgets_change(w1, p.widgets)) by {
        if widgets_change(w1, p.widgets) {
            let id = choose|id: Seq<char>| #[trigger] p.widgets.dom().contains(id) && widget_entry_changes(w1, id, p.widgets[id]);
            if p.widgets[id] is Some {
                lemma_widget_patch_idempotent(widget_base(s.widgets, id), p.widgets[id]->0);
            }
        }
    }
    assert(!shortcut_changes(s1, p, ShortcutAction::ToggleCanvasImode));
    assert(!shortcut_changes(s1, p, ShortcutAction::OpenManager));
    assert(update_tasks(s1, p) =~= Seq::<WorkerTaskView>::empty());
}

/// The empty patch leaves the settings unchanged and asks for no work.
pub proof fn lemma_settings_update_empty(s: SettingsView)
    ensures
        patched_settings(s, empty_settings_patch()) == s,
        !update_persists(s, empty_settings_patch()),
        update_tasks(s, empty_settings_patch()) == Seq::<WorkerTaskView>::empty(),
{
    let p = empty_settings_patch();
    assert(patched_widgets(s.widgets, p.widgets) =~= s.widgets);
    assert(patched_shortcuts(s.shortcuts, p.shortcuts) =~= s.shortcuts);
    assert(!widgets_change(s.widgets, p.widgets));
    assert(update_tasks(s, p) =~= Seq::<WorkerTaskView>::empty());
}

/// Widgets and shortcuts that a patch does not name keep their settings.
pub proof fn lemma_unnamed_entries_unchanged(s: SettingsView, p: SettingsPatchView)
    ensures
        forall|id: Seq<char>|
            !p.widgets.dom().contains(id) ==> (#[trigger] patched_settings(s, p).widgets.dom().contains(id)
                == s.widgets.dom().contains(id) && (s.widgets.dom().contains(id) ==> patched_settings(
                s,
                p,
            ).widgets[id] == s.widgets[id])),
        forall|a: ShortcutAction|
            !p.shortcuts.dom().contains(a) ==> #[trigger] map_get(patched_settings(s, p).shortcuts, a) == map_get(
                s.shortcuts,
                a,
            ),
{
}

/// Every change that frontend windows see is also persisted, and the persist
/// task is the last task exactly when something changed.
pub proof fn lemma_update_persist_last(s: SettingsView, p: SettingsPatchView)
    ensures
        update_emits(s, p) ==> update_persists(s, p),
        update_persists(s, p) <==> (update_tasks(s, p).len() > 0 && update_tasks(s, p).last()
            == WorkerTaskView::Persist),
{
    let ts = update_tasks(s, p);
    if !update_persists(s, p) {
        assert(!theme_changes(s, p) && !imode_changes(s, p));
        assert(!shortcut_changes(s, p, ShortcutAction::ToggleCanvasImode));
        assert(!shortcut_changes(s, p, ShortcutAction::OpenManager));
        assert(ts =~= Seq::<WorkerTaskView>::empty());
    }
}

/// The hooks registered for settings changes: on theme change, on canvas
/// interaction mode change and on shortcut change, each in registration
/// order.
pub struct SettingsHooks<T, C, S> {
    on_theme_change: Vec<T>,
    on_canvas_imode_change: Vec<C>,
    on_shortcut_change: Vec<S>,
}

impl<T, C, S> SettingsHooks<T, C, S> {
    /// The theme hooks.
    pub closed spec fn theme_hooks(&self) -> Seq<T> {
        self.on_theme_change@
    }

    /// The canvas interaction mode hooks.
    pub closed spec fn imode_hooks(&self) -> Seq<C> {
        self.on_canvas_imode_change@
    }

    /// The shortcut hooks.
    pub closed spec fn shortcut_hooks(&self) -> Seq<S> {
        self.on_shortcut_change@
    }

    /// No hooks.
    pub fn new() -> (h: Self)
        ensures
            h.theme_hooks() == Seq::<T>::empty(),
            h.imode_hooks() == Seq::<C>::empty(),
            h.shortcut_hooks() == Seq::<S>::empty(),
    {
        SettingsHooks { on_theme_change: Vec::new(), on_canvas_imode_change: Vec::new(), on_shortcut_change: Vec::new() }
    }

    /// Register a hook triggered on theme change.
    pub fn on_theme_change(&mut self, hook: T)
        ensures
            final(self).theme_hooks() == old(self).theme_hooks().push(hook),
            final(self).imode_hooks() == old(self).imode_hooks(),
            final(self).shortcut_hooks() == old(self).shortcut_hooks(),
    {
        self.on_theme_change.push(hook);
    }

    /// Register a hook triggered on canvas interaction mode change.
    pub fn on_canvas_imode_change(&mut self, hook: C)
        ensures
            final(self).imode_hooks() == old(self).imode_hooks().push(hook),
            final(self).theme_hooks() == old(self).theme_hooks(),
            final(self).shortcut_hooks() == old(self).shortcut_hooks(),
    {
        self.on_canvas_imode_change.push(hook);
    }

    /// Register a hook triggered on shortcut change.
    pub fn on_shortcut_change(&mut self, hook: S)
        ensures
            final(self).shortcut_hooks() == old(self).shortcut_hooks().push(hook),
            final(self).theme_hooks() == old(self).theme_hooks(),
            final(self).imode_hooks() == old(self).imode_hooks(),
    {
        self.on_shortcut_change.push(hook);
    }

    /// The theme hooks, in registration order.
    pub fn theme_change_hooks(&self) -> (r: &Vec<T>)
        ensures
            r@ == self.theme_hooks(),
    {
        &self.on_theme_change
    }

    /// The canvas interaction mode hooks, in registration order.
    pub fn canvas_imode_change_hooks(&self) -> (r: &Vec<C>)
        ensures
            r@ == self.imode_hooks(),
    {
        &self.on_canvas_imode_change
    }

    /// The shortcut hooks, in registration order.
    pub fn shortcut_change_hooks(&self) -> (r: &Vec<S>)
        ensures
            r@ == self.shortcut_hooks(),
    {
        &self.on_shortcut_change
    }
}

/// The outcome of handing an update's tasks to the settings worker, given
/// the messages of the submissions that failed: success when none failed,
/// otherwise one error listing them all.
pub fn submission_outcome(failures: &Vec<String>) -> (r: Result<(), String>)
    ensures
        failures@.len() == 0 ==> r is Ok,
        failures@.len() > 0 ==> (r matches Err(e) && e@ == "One or more changes failed to be submitted\n\n"@
            + joined(texts_of(failures@), "\n\n"@)),
{
    if failures.len() == 0 {
        Ok(())
    } else {
        let mut e = String::from_str("One or more changes failed to be submitted\n\n");
        let listed = join_texts(failures, "\n\n");
        e.append(listed.as_str());
        Err(e)
    }
}

/// A widget that a patch creates starts at the origin, 300 by 200 pixels,
/// fully opaque, at z-index 0 and loaded on the canvas; the patch then sets
/// whichever of these it names. Widgets that the patch does not name keep
/// their settings.
pub proof fn lemma_new_widget_settings(s: SettingsView, p: SettingsPatchView, id: Seq<char>, wp: WidgetSettingsPatch)
    requires
        !s.widgets.dom().contains(id),
        p.widgets.dom().contains(id),
        p.widgets[id] == Some(wp),
    ensures
        patched_settings(s, p).widgets.dom().contains(id),
        patched_settings(s, p).widgets[id] == (WidgetSettings {
            x: or_keep(0i32, wp.x),
            y: or_keep(0i32, wp.y),
            width: or_keep(300u32, wp.width),
            height: or_keep(200u32, wp.height),
            opacity: or_keep(100u8, wp.opacity),
            z_index: or_keep(0i16, wp.z_index),
            is_loaded: or_keep(true, wp.is_loaded),
        }),
        wp == empty_widget_patch() ==> patched_settings(s, p).widgets[id].is_loaded,
        update_emits(s, p),
{
    assert(widget_entry_changes(s.widgets, id, p.widgets[id]));
}

} // verus!
