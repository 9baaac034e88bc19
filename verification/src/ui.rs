//! Presentation state that the renderer reads: layouts, views, themes and
//! animation patterns.

pub mod animation;
pub mod layout;
pub mod theme;
