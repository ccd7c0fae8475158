pub mod cell;
pub mod cursor;
pub mod grid;
pub mod modes;
pub mod sgr;
pub mod dispatch;
pub mod search;
pub mod term;

pub use cell::{Cell, CellAttrs, CellColor, UnderlineStyle};
pub use cursor::{Cursor, CursorStyle};
pub use grid::{Grid, Line};
pub use modes::{MouseEncoding, MouseMode, TerminalModes};
pub use search::SearchMatch;
pub use term::{ClipboardEvent, ClipboardSelection, Terminal};
