//! Layout of the window: tabs, split panes and the tab bar.

pub mod manager;
pub mod pane;
pub mod split;
pub mod tab;
pub mod tabbar;

pub use manager::TabManager;
pub use pane::{PaneId, StartupCmdState};
pub use split::{Direction, PaneLayout, SplitDirection, SplitNode};
pub use tab::{Tab, TabId};
pub use tabbar::{TabBar, TAB_BAR_HEIGHT};
