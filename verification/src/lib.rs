//! Core of an immediate-mode UI layout engine.
//!
//! The library tracks, for every node of a viewport tree, the cumulative
//! projective transform from normalized viewport space down to the node's
//! local space, the cursor state translated into that space, and a small
//! amount of per-frame shared state (widget ids, active widget, hover flags).
//!
//! All geometry is carried out in exact rational arithmetic over fixed-width
//! integers, so the algebraic laws of the transform composition hold exactly.

pub mod animations;
pub mod layout;
pub mod matrix;
pub mod num;
pub mod state;
pub mod widgets;

pub use layout::Alignment;
pub use layout::CursorPos;
pub use layout::DrawContext;
pub use layout::HorizontalAlignment;
pub use layout::VerticalAlignment;
pub use matrix::Matrix;
pub use num::Frac;
pub use num::Rat;
pub use state::SharedDrawContext;
pub use state::UiState;
pub use state::WidgetId;
pub use state::draw;
pub use widgets::Interaction;
