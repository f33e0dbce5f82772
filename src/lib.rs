//! Rendering of air-quality readings on a tri-colour e-paper panel: text
//! formatting, layout geometry, three themes that turn a reading into
//! drawing steps, the canvas they draw on, and the panel's update cycle.

pub mod acquire;
pub mod canvas;
pub mod data;
pub mod format;
pub mod geometry;
pub mod scene;
pub mod session;
pub mod text;
pub mod theme;

pub use canvas::{Canvas, ChromaticBuffer, DrawError};
pub use text::Text;
pub use data::Data;
pub use geometry::{Point, Rect, Size};
pub use scene::{Color, DrawOp, Font};
pub use session::{Command, Display, Phase, Step};
pub use theme::{Theme, Theme1, Theme2, Theme3};
