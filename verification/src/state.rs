//! Per-frame shared state.
//!
//! A `SharedDrawContext` is created once per frame from the caller's
//! `UiState`. Every viewport node derived during the frame reads and writes
//! this one session value; the tree walk is sequential, so the state is
//! passed by mutable reference to the operations that touch it.

use vstd::prelude::*;

verus! {

/// Identity of a widget, unique within a session.
#[derive(Clone, Copy, Debug, PartialEq, Eq, Hash, Structural)]
pub struct WidgetId {
    /// The underlying identifier.
    pub id: u64,
}

/// State persisted by the caller across frames.
#[derive(Clone, Copy, Debug, PartialEq, Eq, Structural)]
pub struct UiState {
    /// The widget currently holding input focus or drag state, if any.
    pub active_widget: Option<WidgetId>,
}

impl Default for UiState {
    /// A fresh state with no active widget.
    fn default() -> (r: UiState)
        ensures
            r.active_widget is None,
    {
        UiState { active_widget: None }
    }
}

/// The per-frame session: id allocator, active-widget register and hover
/// flags. The flag at index `i` of `surfaces` says whether some widget of
/// the surface tree numbered `i` has been hovered this frame; `hovered`
/// says whether any widget at all has been.
pub struct SharedDrawContext {
    /// The caller's persistent state, held for the duration of the frame.
    pub ui_state: UiState,
    /// Next widget id to hand out; ids are never reused within a session.
    pub next_widget_id: u64,
    /// Whether any widget of any surface was hovered this frame.
    pub hovered: bool,
    /// One hover flag per surface tree started from this session.
    pub surfaces: Vec<bool>,
}

/// Starts a drawing session for one frame.
pub fn draw(ui_state: UiState) -> (r: SharedDrawContext)
    ensures
        r.ui_state == ui_state,
        r.next_widget_id == 1u64,
        r.hovered == false,
        r.surfaces@ =~= Seq::<bool>::empty(),
{
    SharedDrawContext {
        ui_state,
        next_widget_id: 1,
        hovered: false,
        surfaces: Vec::new(),
    }
}

impl SharedDrawContext {
    /// True if some widget drawn anywhere this frame reported the cursor
    /// hovering it.
    pub fn cursor_hovered_widget(&self) -> (r: bool)
        ensures
            r == self.hovered,
    {
        self.hovered
    }

    /// Hands back the caller's persistent state at the end of the frame.
    pub fn into_ui_state(self) -> (r: UiState)
        ensures
            r == self.ui_state,
    {
        self.ui_state
    }
}

/// Marking a surface hovered is visible to every node of that surface and
/// to the session-wide flag, and leaves every other surface untouched.
pub proof fn lemma_hover_isolation(surfaces: Seq<bool>, target: int, other: int)
    requires
        0 <= target < surfaces.len(),
        0 <= other < surfaces.len(),
        other != target,
    ensures
        surfaces.update(target, true)[target] == true,
        surfaces.update(target, true)[other] == surfaces[other],
{
}

} // verus!
