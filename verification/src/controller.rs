//! Common controller behaviours.

use crate::colour::Colour;
use crate::events::{Button, EventTask};
use vstd::prelude::*;

verus! {

/// Common controller behaviours.
pub trait Controller: EventTask {
    /// Set the state of a button LED.
    fn set_button_led(&mut self, button: Button, colour: Colour);

    /// Set the state of a pad LED.
    fn set_pad_led(&mut self, pad: u8, colour: Colour);
}

} // verus!
