//! Input: keys to bytes, mouse reports, selection and search.

pub mod keyboard;
pub mod mouse;
pub mod search;
pub mod selection;

pub use keyboard::{Key, KeyboardHandler};
pub use mouse::{MouseButton, MouseEvent, MouseHandler};
pub use search::SearchState;
pub use selection::{Selection, SelectionMode, SelectionPoint};
