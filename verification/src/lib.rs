//! Driver logic for a grid-style USB HID music controller: decoding of
//! input reports into events, LED addressing, the schedule of transfers and
//! a one-bit-per-pixel canvas, together with the bitmap reader and glyph
//! extraction that a font is made with.

pub mod bitmap;
pub mod colour;
pub mod controller;
pub mod devices;
pub mod display;
pub mod error;
pub mod events;
pub mod font_gen;

pub use colour::Colour;
pub use controller::Controller;
pub use display::{Canvas, Font, MonochromeCanvas, Pixel};
pub use error::Error;
pub use events::{Button, Direction, Event, EventContext, EventHandler, EventTask};
