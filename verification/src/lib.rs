//! A text-grid scene library: a layered tile compositor with frame
//! diffing, a fixed-point wave-equation water simulation with a glyph
//! classifier, and the drawable entities that feed tiles into the
//! compositor.

pub mod ansi;
pub mod carrot;
pub mod dialog;
pub mod hole;
pub mod num;
pub mod rng;
pub mod sprite;
pub mod track;
pub mod train;
pub mod train_scene;
pub mod util;
pub mod water;
pub mod window;
pub mod zoom;
