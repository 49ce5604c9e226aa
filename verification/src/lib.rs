//! A character-grid rendering engine: styled characters are drawn into a grid
//! in memory, and at each frame boundary the engine sends the output device
//! what changed, paces the frame and samples the keyboard.

pub mod backend;
pub mod cell;
pub mod device;
pub mod engine;
pub mod grid;
pub mod input;
pub mod key;
pub mod pacer;
pub mod recorder;

pub use backend::{Backend, DrawCall, RenderMode};
pub use cell::{Attribute, AttributeSet, Cell, Color};
pub use device::{Device, Driver, KeyInput};
pub use engine::Wobl;
pub use input::{KeyEvent, KeySet, KeyState};
pub use key::Key;
pub use pacer::FramePacer;
pub use recorder::{Recorded, Recorder};
