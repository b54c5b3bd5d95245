//! Core of a minimal status bar: the glyph atlas and its file format, the
//! damage-tracked renderer, the lock-free state bus, and the decisions of
//! the threads that feed it.
pub mod atlas;
pub mod builder;
pub mod bus;
pub mod bytes;
pub mod canvas;
pub mod compose;
pub mod glyph;
pub mod layout;
pub mod poller;
pub mod render;
pub mod text;
pub mod workspace;

pub use atlas::{AtlasError, AtlasKey};
pub use builder::{maybe_run_builder_mode, BuildRequest, BuilderError};
pub use bus::StateBus;
pub use bytes::{read_u16, read_u32, read_u64, write_u16, write_u32, write_u64};
pub use canvas::{Color, Pixel};
pub use glyph::{GlyphCache, GlyphId, RasterizedGlyph};
pub use render::{AppState, ConfigureOutcome, Rect, StateSnapshot};
