//! Events decoded from the device, and the queue that collects them.

use crate::error::Error;
use std::collections::VecDeque;
use vstd::prelude::*;

verus! {

/// Direction of encoder.
#[derive(Debug, Copy, Clone, PartialEq, Eq, Structural)]
pub enum Direction {
    Up,
    Down,
}

/// Button identifiers.
#[derive(Debug, Copy, Clone, PartialEq, Eq, Structural)]
pub enum Button {
    Erase,
    Rec,
    Play,
    Grid,
    TransportRight,
    TransportLeft,
    Restart,
    MainEncoder,
    NoteRepeat,
    Sampling,
    Browse,
    Group,
    Main,
    BrowseRight,
    BrowseLeft,
    Nav,
    Control,
    F3,
    F2,
    F1,
    Mute,
    Solo,
    Select,
    Duplicate,
    View,
    PadMode,
    Pattern,
    Scene,
    Unknown,
}

/// System events.
#[derive(Debug, Copy, Clone, PartialEq, Eq, Structural)]
pub enum Event {
    /// Button change (button, pressed, shift).
    ButtonChange(Button, bool, bool),
    /// Encoder change (encoder number, direction, shift).
    EncoderChange(u8, Direction, bool),
    /// Pad change (pad number, velocity, shift).
    PadChange(u8, u8, bool),
}

/// Context object for adding events: an ordered queue, oldest event first.
pub struct EventContext {
    pub events: VecDeque<Event>,
}

impl View for EventContext {
    type V = Seq<Event>;

    /// The queued events, oldest first.
    open spec fn view(&self) -> Seq<Event> {
        self.events@
    }
}

impl EventContext {
    /// A context with no events in it.
    pub fn new() -> (context: Self)
        ensures
            context@ == Seq::<Event>::empty(),
    {
        EventContext { events: VecDeque::new() }
    }

    /// Add an event into the context, behind those already queued.
    pub fn add_event(&mut self, event: Event)
        ensures
            final(self)@ == old(self)@.push(event),
    {
        self.events.push_back(event);
    }
}

/// Generator for events.
pub trait EventTask {
    /// Perform any update events with the controller device.
    fn tick(&mut self, context: &mut EventContext) -> Result<(), Error>;
}

/// Handle events.
pub trait EventHandler {
    /// Handle event and return if it was handled.
    fn handle(&mut self, event: &Event) -> bool;
}

} // verus!
