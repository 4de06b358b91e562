//! Starter widgets: bundled widgets that are copied into the widgets
//! directory once, before the settings mark them as added.

use vstd::prelude::*;

use crate::settings::{
    empty_settings_patch, patched_settings, update_emits, update_tasks, Settings, SettingsPatch,
    SettingsPatchView, SettingsView, WorkerTaskView,
};

verus! {

/// The prefix of the local IDs of starter widgets.
pub const STARTER_ID_PREFIX: &'static str = "@deskulpt-starter.";

/// The names of the starter widgets, in the order they are added.
pub open spec fn starter_names() -> Seq<Seq<char>> {
    seq!["welcome"@]
}

/// The starter widgets bundled with the application.
pub fn starter_widgets() -> (names: Vec<String>)
    ensures
        names@.map_values(|n: String| n@) == starter_names(),
{
    let names = vec![String::from_str("welcome")];
    assert(names@.map_values(|n: String| n@) =~= starter_names());
    names
}

/// The local ID of the starter widget `name`: `@deskulpt-starter.{name}`.
pub fn starter_widget_id(name: &str) -> (id: String)
    ensures
        id@ == STARTER_ID_PREFIX@ + name@,
{
    let mut id = String::from_str(STARTER_ID_PREFIX);
    id.append(name);
    id
}

/// Whether the starter widgets still have to be added.
pub fn needs_starter(settings: &Settings) -> (b: bool)
    ensures
        b == !settings.starter_widgets_added,
{
    !settings.starter_widgets_added
}

/// What became of one starter widget.
#[derive(Clone, Copy, Debug, PartialEq, Eq, Structural)]
pub enum StarterOutcome {
    /// Its directory already existed; it was left alone.
    AlreadyPresent,
    /// It was copied into the widgets directory.
    Added,
    /// Copying it failed.
    Failed,
}

/// No starter widget failed.
pub open spec fn none_failed(outcomes: Seq<StarterOutcome>) -> bool {
    forall|i: int| 0 <= i < outcomes.len() ==> #[trigger] outcomes[i] != StarterOutcome::Failed
}

/// The patch that marks the starter widgets as added.
pub open spec fn starter_done_patch() -> SettingsPatchView {
    SettingsPatchView { starter_widgets_added: Some(true), ..empty_settings_patch() }
}

/// The settings patch to apply once the starter widgets were handled: the one
/// marking them as added, only when none of them failed. A widget that was
/// already present counts as added, so a later attempt adds only the missing
/// ones.
pub fn starter_patch(outcomes: &Vec<StarterOutcome>) -> (p: Option<SettingsPatch>)
    ensures
        none_failed(outcomes@) ==> (p matches Some(q) && q.wf() && q@ == starter_done_patch()),
        !none_failed(outcomes@) ==> p is None,
{
    let mut i: usize = 0;
    while i < outcomes.len()
        invariant
            i <= outcomes@.len(),
            forall|j: int| 0 <= j < i ==> #[trigger] outcomes@[j] != StarterOutcome::Failed,
        decreases outcomes@.len() - i,
    {
        if outcomes[i] == StarterOutcome::Failed {
            return None;
        }
        i = i + 1;
    }
    let mut q = SettingsPatch::empty();
    q.starter_widgets_added = Some(true);
    Some(q)
}

/// Adding the starter widgets is idempotent: once the marking patch is
/// applied, the settings say they are added (so later attempts do nothing),
/// nothing else changes, frontend windows are not notified, and the only work
/// asked for is persisting, and only if the flag was not set before.
pub proof fn lemma_starter_marks_added(s: SettingsView)
    ensures
        patched_settings(s, starter_done_patch()) == (SettingsView { starter_widgets_added: true, ..s }),
        !update_emits(s, starter_done_patch()),
        update_tasks(s, starter_done_patch()) == (if s.starter_widgets_added {
            Seq::<WorkerTaskView>::empty()
        } else {
            seq![WorkerTaskView::Persist]
        }),
{
    let p = starter_done_patch();
    assert(crate::settings::patched_widgets(s.widgets, p.widgets) =~= s.widgets);
    assert(crate::settings::patched_shortcuts(s.shortcuts, p.shortcuts) =~= s.shortcuts);
    assert(!crate::settings::widgets_change(s.widgets, p.widgets));
    assert(update_tasks(s, p) =~= (if s.starter_widgets_added {
        Seq::<WorkerTaskView>::empty()
    } else {
        seq![WorkerTaskView::Persist]
    }));
}

} // verus!
