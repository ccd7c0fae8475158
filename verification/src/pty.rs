//! What the terminal tells its pseudo-terminal and hears from the system.
use vstd::prelude::*;

verus! {

/// PTY size information
#[derive(Debug, Clone, Copy, PartialEq, Eq, Structural)]
pub struct PtySize {
    pub rows: u16,
    pub cols: u16,
    pub pixel_width: u16,
    pub pixel_height: u16,
}

impl PtySize {
    /// The size of a pane of `cols` x `rows` cells and `width` x `height`
    /// pixels, each value cut to 16 bits as the terminal ioctl takes it.
    pub fn for_pane(cols: usize, rows: usize, width: u32, height: u32) -> (r: Self)
        ensures
            r == (PtySize {
                rows: rows as u16,
                cols: cols as u16,
                pixel_width: width as u16,
                pixel_height: height as u16,
            }),
    {
        PtySize { rows: rows as u16, cols: cols as u16, pixel_width: width as u16, pixel_height: height as u16 }
    }
}

/// Signal received
#[derive(Debug, Clone, Copy, PartialEq, Eq, Structural)]
pub enum ReceivedSignal {
    /// A child process exited
    ChildExited { pid: i32, status: i32 },
    /// The window size changed
    WindowResized,
}

} // verus!
