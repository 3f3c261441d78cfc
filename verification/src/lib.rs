//! Drawing on an ST7735 panel: a frame buffer with pixels, rectangles,
//! sprites and text, and the bus steps that bring the panel up and send it
//! the frame.

pub mod color;
pub mod display;
pub mod text;
pub mod _2d;
pub mod bus;

pub use _2d::sprite::Sprite;
pub use bus::{BusOp, Instruction, Orientation};
pub use color::{convert, Color};
pub use display::Display;
pub use text::{Font, Glyph};
