//! What the renderer computes without the GPU: the glyph atlas and the
//! indexed color palette.

pub mod atlas;
pub mod color;
