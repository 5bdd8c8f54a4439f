//! What the window shows, as far as it does not depend on how it is drawn.

pub mod plot;
pub mod session_gui;
pub mod session_selector;

pub use plot::Plot;
pub use session_selector::SessionSelector;
