//! Maschine Mikro Mk2: report decoding, LED addressing and the schedule of
//! transfers, written against plain values so that the transport itself
//! stays outside.

use crate::colour::{mono_byte, Colour};
use crate::display::{Canvas, CanvasView, MonochromeCanvas};
use crate::error::Error;
use crate::events::{Button, Direction, Event, EventContext};
use vstd::prelude::*;

verus! {

/// Size of the buffer that input reports are read into.
pub const INPUT_BUFFER_SIZE: usize = 512;

// LEDs
pub const LED_F1: u8 = 0x00;
pub const LED_F2: u8 = 0x01;
pub const LED_F3: u8 = 0x02;
pub const LED_CONTROL: u8 = 0x03;
pub const LED_NAV: u8 = 0x04;
pub const LED_BROWSE_LEFT: u8 = 0x05;
pub const LED_BROWSE_RIGHT: u8 = 0x06;
pub const LED_MAIN: u8 = 0x07;
pub const LED_GROUP: u8 = 0x08;
pub const LED_BROWSE: u8 = 0x0B;
pub const LED_SAMPLING: u8 = 0x0C;
pub const LED_NOTE_REPEAT: u8 = 0x0D;
pub const LED_RESTART: u8 = 0x0E;
pub const LED_TRANSPORT_LEFT: u8 = 0x0F;
pub const LED_TRANSPORT_RIGHT: u8 = 0x10;
pub const LED_GRID: u8 = 0x11;
pub const LED_PLAY: u8 = 0x12;
pub const LED_REC: u8 = 0x13;
pub const LED_ERASE: u8 = 0x14;
pub const LED_SHIFT: u8 = 0x15;
pub const LED_SCENE: u8 = 0x16;
pub const LED_PATTERN: u8 = 0x17;
pub const LED_PADMODE: u8 = 0x18;
pub const LED_VIEW: u8 = 0x19;
pub const LED_DUPLICATE: u8 = 0x1A;
pub const LED_SELECT: u8 = 0x1B;
pub const LED_SOLO: u8 = 0x1C;
pub const LED_MUTE: u8 = 0x1D;
pub const LED_PAD13: u8 = 0x1E;
pub const LED_PAD14: u8 = 0x21;
pub const LED_PAD15: u8 = 0x24;
pub const LED_PAD16: u8 = 0x27;
pub const LED_PAD09: u8 = 0x2A;
pub const LED_PAD10: u8 = 0x2D;
pub const LED_PAD11: u8 = 0x30;
pub const LED_PAD12: u8 = 0x33;
pub const LED_PAD05: u8 = 0x36;
pub const LED_PAD06: u8 = 0x39;
pub const LED_PAD07: u8 = 0x3C;
pub const LED_PAD08: u8 = 0x3F;
pub const LED_PAD01: u8 = 0x42;
pub const LED_PAD02: u8 = 0x45;
pub const LED_PAD03: u8 = 0x48;
pub const LED_PAD04: u8 = 0x4B;

// Buttons
pub const BUTTON_SHIFT: u8 = 0x00;
pub const BUTTON_ERASE: u8 = 0x01;
pub const BUTTON_REC: u8 = 0x02;
pub const BUTTON_PLAY: u8 = 0x03;
pub const BUTTON_GRID: u8 = 0x04;
pub const BUTTON_TRANSPORT_RIGHT: u8 = 0x05;
pub const BUTTON_TRANSPORT_LEFT: u8 = 0x06;
pub const BUTTON_RESTART: u8 = 0x07;
pub const BUTTON_MAIN_ENCODER: u8 = 0x0B;
pub const BUTTON_NOTE_REPEAT: u8 = 0x0C;
pub const BUTTON_SAMPLING: u8 = 0x0D;
pub const BUTTON_BROWSE: u8 = 0x0E;
pub const BUTTON_GROUP: u8 = 0x0F;
pub const BUTTON_MAIN: u8 = 0x10;
pub const BUTTON_BROWSE_RIGHT: u8 = 0x11;
pub const BUTTON_BROWSE_LEFT: u8 = 0x12;
pub const BUTTON_NAV: u8 = 0x13;
pub const BUTTON_CONTROL: u8 = 0x14;
pub const BUTTON_F3: u8 = 0x15;
pub const BUTTON_F2: u8 = 0x16;
pub const BUTTON_F1: u8 = 0x17;
pub const BUTTON_MUTE: u8 = 0x18;
pub const BUTTON_SOLO: u8 = 0x19;
pub const BUTTON_SELECT: u8 = 0x1A;
pub const BUTTON_DUPLICATE: u8 = 0x1B;
pub const BUTTON_VIEW: u8 = 0x1C;
pub const BUTTON_PAD_MODE: u8 = 0x1D;
pub const BUTTON_PATTERN: u8 = 0x1E;
pub const BUTTON_SCENE: u8 = 0x1F;
pub const BUTTON_NONE: u8 = 0x20;

/// Number of bytes in the LED table.
pub const LED_COUNT: usize = 78;

/// Number of slots in the table of button states.
pub const BUTTON_COUNT: usize = 45;

/// Number of pads.
pub const PAD_COUNT: usize = 16;

/// Address byte of a display report.
pub const DISPLAY_ADDR: u8 = 0xE0;

/// Address byte of an LED report.
pub const LED_ADDR: u8 = 0x80;

/// Tag byte of a button input report.
pub const REPORT_BUTTONS: u8 = 0x01;

/// Tag byte of a pad-scan input report.
pub const REPORT_PADS: u8 = 0x20;

/// Number of payload bytes a button report must have.
pub const BUTTON_PAYLOAD: usize = 5;

/// Number of payload bytes a pad report must have.
pub const PAD_PAYLOAD: usize = 64;

/// A raw pad value above this threshold counts as pressed.
pub const PAD_THRESHOLD: u16 = 512;

/// Width of the display in pixels.
pub const DISPLAY_WIDTH: usize = 128;

/// Height of the display in pixels.
pub const DISPLAY_HEIGHT: usize = 64;

/// Number of pixel bytes in one display report.
pub const FRAME_CHUNK: usize = 256;

/// Number of display reports that make up a frame.
pub const FRAME_CHUNKS: u8 = 4;

/// Number of reads attempted in one poll phase.
pub const POLL_ATTEMPTS: u8 = 32;

/// Of the read attempts of a poll phase, only every so many may bring a pad
/// report that is decoded.
pub const PAD_CADENCE: u8 = 7;

/// The LED slot of each pad, by pad number.
pub const PAD_LEDS: [u8; 16] = [
    LED_PAD13,
    LED_PAD14,
    LED_PAD15,
    LED_PAD16,
    LED_PAD09,
    LED_PAD10,
    LED_PAD11,
    LED_PAD12,
    LED_PAD05,
    LED_PAD06,
    LED_PAD07,
    LED_PAD08,
    LED_PAD01,
    LED_PAD02,
    LED_PAD03,
    LED_PAD04,
];

/// Whether the bit of scan slot `button` is set in a button payload.
pub open spec fn is_pressed(payload: Seq<u8>, button: u8) -> bool {
    payload[(button / 8) as int] & (1u8 << (button % 8)) != 0
}

/// The button that a scan slot stands for.
pub open spec fn scan_button(code: u8) -> Button {
    if code == BUTTON_ERASE {
        Button::Erase
    } else if code == BUTTON_REC {
        Button::Rec
    } else if code == BUTTON_PLAY {
        Button::Play
    } else if code == BUTTON_GRID {
        Button::Grid
    } else if code == BUTTON_TRANSPORT_RIGHT {
        Button::TransportRight
    } else if code == BUTTON_TRANSPORT_LEFT {
        Button::TransportLeft
    } else if code == BUTTON_RESTART {
        Button::Restart
    } else if code == BUTTON_MAIN_ENCODER {
        Button::MainEncoder
    } else if code == BUTTON_NOTE_REPEAT {
        Button::NoteRepeat
    } else if code == BUTTON_SAMPLING {
        Button::Sampling
    } else if code == BUTTON_BROWSE {
        Button::Browse
    } else if code == BUTTON_GROUP {
        Button::Group
    } else if code == BUTTON_MAIN {
        Button::Main
    } else if code == BUTTON_BROWSE_RIGHT {
        Button::BrowseRight
    } else if code == BUTTON_BROWSE_LEFT {
        Button::BrowseLeft
    } else if code == BUTTON_NAV {
        Button::Nav
    } else if code == BUTTON_CONTROL {
        Button::Control
    } else if code == BUTTON_F3 {
        Button::F3
    } else if code == BUTTON_F2 {
        Button::F2
    } else if code == BUTTON_F1 {
        Button::F1
    } else if code == BUTTON_MUTE {
        Button::Mute
    } else if code == BUTTON_SOLO {
        Button::Solo
    } else if code == BUTTON_SELECT {
        Button::Select
    } else if code == BUTTON_DUPLICATE {
        Button::Duplicate
    } else if code == BUTTON_VIEW {
        Button::View
    } else if code == BUTTON_PAD_MODE {
        Button::PadMode
    } else if code == BUTTON_PATTERN {
        Button::Pattern
    } else if code == BUTTON_SCENE {
        Button::Scene
    } else {
        Button::Unknown
    }
}

/// The LED slot of a button, for the buttons that have one.
pub open spec fn led_of_button(button: Button) -> Option<u8> {
    match button {
        Button::Erase => Some(LED_ERASE),
        Button::Rec => Some(LED_REC),
        Button::Play => Some(LED_PLAY),
        Button::Grid => Some(LED_GRID),
        Button::TransportRight => Some(LED_TRANSPORT_RIGHT),
        Button::TransportLeft => Some(LED_TRANSPORT_LEFT),
        Button::Restart => Some(LED_RESTART),
        Button::NoteRepeat => Some(LED_NOTE_REPEAT),
        Button::Sampling => Some(LED_SAMPLING),
        Button::Browse => Some(LED_BROWSE),
        Button::Group => Some(LED_GROUP),
        Button::Main => Some(LED_MAIN),
        Button::BrowseRight => Some(LED_BROWSE_RIGHT),
        Button::BrowseLeft => Some(LED_BROWSE_LEFT),
        Button::Nav => Some(LED_NAV),
        Button::Control => Some(LED_CONTROL),
        Button::F3 => Some(LED_F3),
        Button::F2 => Some(LED_F2),
        Button::F1 => Some(LED_F1),
        Button::Mute => Some(LED_MUTE),
        Button::Solo => Some(LED_SOLO),
        Button::Select => Some(LED_SELECT),
        Button::Duplicate => Some(LED_DUPLICATE),
        Button::View => Some(LED_VIEW),
        Button::PadMode => Some(LED_PADMODE),
        Button::Pattern => Some(LED_PATTERN),
        Button::Scene => Some(LED_SCENE),
        Button::MainEncoder => None,
        Button::Unknown => None,
    }
}

/// The LED slot of a pad, for the pad numbers that exist.
pub open spec fn led_of_pad(pad: u8) -> Option<u8> {
    if pad < PAD_COUNT {
        Some(PAD_LEDS[pad as int])
    } else {
        None
    }
}

/// Whether an LED slot takes three bytes, one for each channel.
pub open spec fn is_rgb_led(led: u8) -> bool {
    led == LED_GROUP || LED_PAD13 <= led <= LED_PAD04
}

/// Whether an LED slot, with all the bytes it takes, lies inside the table.
pub open spec fn led_in_table(led: u8) -> bool {
    if is_rgb_led(led) {
        led + 2 < LED_COUNT
    } else {
        led < LED_COUNT
    }
}

/// A channel as the hardware takes it: shifted right by one bit, since
/// brightness has seven bits.
pub open spec fn dimmed(channel: u8) -> u8 {
    channel / 2
}

/// The LED table after a colour was written to a slot: three dimmed
/// channels for an RGB slot, the monochrome byte for any other.
pub open spec fn leds_with(leds: Seq<u8>, led: u8, colour: (u8, u8, u8)) -> Seq<u8> {
    if is_rgb_led(led) {
        leds.update(led as int, dimmed(colour.0)).update(led + 1, dimmed(colour.1)).update(
            led + 2,
            dimmed(colour.2),
        )
    } else {
        leds.update(led as int, mono_byte(colour))
    }
}

/// Whether writing a colour to a slot changes a byte of the LED table.
pub open spec fn led_changes(leds: Seq<u8>, led: u8, colour: (u8, u8, u8)) -> bool {
    if is_rgb_led(led) {
        ||| leds[led as int] != dimmed(colour.0)
        ||| leds[led + 1] != dimmed(colour.1)
        ||| leds[led + 2] != dimmed(colour.2)
    } else {
        leds[led as int] != mono_byte(colour)
    }
}

/// Direction of an encoder step from `previous` to `current`: down where
/// the value grew or wrapped from 15 to 0, up for the wrap from 0 to 15 and
/// in every other case.
pub open spec fn encoder_direction(previous: u8, current: u8) -> Direction {
    if (previous < current || (previous == 0x0F && current == 0x00)) && !(previous == 0x00
        && current == 0x0F) {
        Direction::Down
    } else {
        Direction::Up
    }
}

/// Pad number of a channel: the high nibble of its second byte.
pub open spec fn pad_number(high: u8) -> u8 {
    high / 16
}

/// Raw 12-bit value of a channel: the low nibble of the second byte above
/// the first byte.
pub open spec fn pad_value(low: u8, high: u8) -> u16 {
    ((high % 16) * 256 + low) as u16
}

/// Velocity reported for a raw pad value: its top eight bits while pressed,
/// nothing otherwise.
pub open spec fn pad_velocity(value: u16) -> u8 {
    if value > PAD_THRESHOLD {
        (value / 16) as u8
    } else {
        0
    }
}

/// The display report of one chunk of a frame: the address, the position
/// header (column offset 0, band row `2 * chunk`, 128 columns, 2 band
/// rows) and the 256 pixel bytes of those two band rows.
pub open spec fn frame_report_bytes(data: Seq<u8>, chunk: nat) -> Seq<u8> {
    seq![DISPLAY_ADDR, 0x00u8, 0x00u8, (2 * chunk) as u8, 0x00u8, 0x80u8, 0x00u8, 0x02u8, 0x00u8]
        + data.subrange(FRAME_CHUNK * chunk, FRAME_CHUNK * chunk + FRAME_CHUNK)
}

/// The LED report: the address, then the whole LED table.
pub open spec fn led_report_bytes(leds: Seq<u8>) -> Seq<u8> {
    seq![LED_ADDR] + leds
}

/// Where a tick stands between two transfers.
#[derive(Debug, Copy, Clone, PartialEq, Eq, Structural)]
pub enum Stage {
    /// No tick is under way.
    Idle,
    /// The display report of this chunk was asked for.
    Frame(u8),
    /// The LED report was asked for.
    Leds,
    /// The read of this attempt was asked for.
    Poll(u8),
}

/// What the driver asks of the transport next.
#[derive(Debug, PartialEq, Eq)]
pub enum Request {
    /// Write this report to the device.
    Write(Vec<u8>),
    /// Read one input report from the device.
    Read,
    /// The tick is over, with this result.
    Done(Result<(), Error>),
}

/// What a request asks, over plain values.
pub enum RequestView {
    Write(Seq<u8>),
    Read,
    Done(Result<(), Error>),
}

impl View for Request {
    type V = RequestView;

    open spec fn view(&self) -> RequestView {
        match self {
            Request::Write(report) => RequestView::Write(report@),
            Request::Read => RequestView::Read,
            Request::Done(result) => RequestView::Done(*result),
        }
    }
}

/// What the transport answers.
#[derive(Debug, PartialEq, Eq)]
pub enum Reply {
    /// A tick begins.
    Start,
    /// The report was written.
    Written,
    /// A read returned this many bytes into this buffer.
    Received(usize, Vec<u8>),
    /// The transfer failed.
    Failed,
}

/// What a reply says, over plain values.
pub enum ReplyView {
    Start,
    Written,
    Received(usize, Seq<u8>),
    Failed,
}

impl View for Reply {
    type V = ReplyView;

    open spec fn view(&self) -> ReplyView {
        match self {
            Reply::Start => ReplyView::Start,
            Reply::Written => ReplyView::Written,
            Reply::Received(count, buffer) => ReplyView::Received(*count, buffer@),
            Reply::Failed => ReplyView::Failed,
        }
    }
}

/// What the driver holds: the phase of the schedule, the display, the LED
/// table and the last known state of buttons, pads and encoder.
pub struct DeviceState {
    pub phase: u8,
    pub stage: Stage,
    pub display: CanvasView,
    pub leds: Seq<u8>,
    pub leds_dirty: bool,
    pub buttons: Seq<bool>,
    pub shift: bool,
    pub pads_data: Seq<u16>,
    pub pads_status: Seq<bool>,
    pub encoder: u8,
}

/// The channels of white, the colour of the Shift LED while Shift is held.
pub open spec fn white() -> (u8, u8, u8) {
    (0xFF, 0xFF, 0xFF)
}

/// The channels of black, the colour of the Shift LED while Shift is not
/// held.
pub open spec fn black() -> (u8, u8, u8) {
    (0x00, 0x00, 0x00)
}

/// Whether a read brought a button report: it returned bytes and the tag
/// is that of a button report.
pub open spec fn brings_buttons(bytes_read: usize, buffer: Seq<u8>) -> bool {
    bytes_read > 0 && buffer.len() > 0 && buffer[0] == REPORT_BUTTONS
}

/// Whether a read brought a pad report that is decoded: it returned bytes,
/// the tag is that of a pad report and the attempt lies on the sampling
/// cadence.
pub open spec fn brings_pads(attempt: u8, bytes_read: usize, buffer: Seq<u8>) -> bool {
    &&& !brings_buttons(bytes_read, buffer)
    &&& bytes_read > 0
    &&& buffer.len() > 0
    &&& buffer[0] == REPORT_PADS
    &&& attempt % PAD_CADENCE == 0
}

/// The payload of a button report: up to five bytes behind the tag.
pub open spec fn button_payload(buffer: Seq<u8>) -> Seq<u8> {
    buffer.subrange(
        1,
        if buffer.len() < 1 + BUTTON_PAYLOAD {
            buffer.len() as int
        } else {
            1 + BUTTON_PAYLOAD
        },
    )
}

/// The payload of a pad report: all that follows the tag.
pub open spec fn pad_payload(buffer: Seq<u8>) -> Seq<u8> {
    buffer.subrange(1, buffer.len() as int)
}

/// Whether a read is decoded without error: a report that is decoded must
/// bring the payload its kind asks for.
pub open spec fn report_result(attempt: u8, bytes_read: usize, buffer: Seq<u8>) -> Result<
    (),
    Error,
> {
    if brings_buttons(bytes_read, buffer) && button_payload(buffer).len() < BUTTON_PAYLOAD {
        Err(Error::InvalidReport)
    } else if brings_pads(attempt, bytes_read, buffer) && pad_payload(buffer).len()
        < PAD_PAYLOAD {
        Err(Error::InvalidReport)
    } else {
        Ok(())
    }
}

impl DeviceState {
    /// The phase is one of three, the stage names a chunk or an attempt
    /// that exists, the display is the device's 128 by 64 panel, the tables
    /// have their fixed sizes and the shift latch follows the Shift slot.
    pub open spec fn wf(self) -> bool {
        &&& self.phase < 3
        &&& (self.stage matches Stage::Frame(chunk) ==> chunk < FRAME_CHUNKS)
        &&& (self.stage matches Stage::Poll(attempt) ==> attempt < POLL_ATTEMPTS)
        &&& self.display.wf()
        &&& self.display.width == DISPLAY_WIDTH
        &&& self.display.height == DISPLAY_HEIGHT
        &&& self.leds.len() == LED_COUNT
        &&& self.buttons.len() == BUTTON_COUNT
        &&& self.pads_data.len() == PAD_COUNT
        &&& self.pads_status.len() == PAD_COUNT
        &&& self.shift == self.buttons[BUTTON_SHIFT as int]
    }

    /// The state after a colour was written to an LED slot: the table takes
    /// the bytes of the colour, and is marked dirty if a byte changed.
    pub open spec fn with_led(self, led: u8, colour: (u8, u8, u8)) -> Self {
        DeviceState {
            leds: leds_with(self.leds, led, colour),
            leds_dirty: self.leds_dirty || led_changes(self.leds, led, colour),
            ..self
        }
    }

    /// The state after a colour was written to the LED of a button; a
    /// button without an LED changes nothing.
    pub open spec fn with_button_led(self, button: Button, colour: (u8, u8, u8)) -> Self {
        match led_of_button(button) {
            Some(led) => self.with_led(led, colour),
            None => self,
        }
    }

    /// The state after a colour was written to the LED of a pad; a pad
    /// number that does not exist changes nothing.
    pub open spec fn with_pad_led(self, pad: u8, colour: (u8, u8, u8)) -> Self {
        match led_of_pad(pad) {
            Some(led) => self.with_led(led, colour),
            None => self,
        }
    }

    /// Whether a button payload changes the Shift slot.
    pub open spec fn shift_changes(self, payload: Seq<u8>) -> bool {
        is_pressed(payload, BUTTON_SHIFT) != self.buttons[BUTTON_SHIFT as int]
    }

    /// The shift latch after a button payload: it follows the Shift slot
    /// where that slot changed.
    pub open spec fn shift_after(self, payload: Seq<u8>) -> bool {
        if self.shift_changes(payload) {
            is_pressed(payload, BUTTON_SHIFT)
        } else {
            self.shift
        }
    }

    /// The state after the scan slots below `upto` were compared with a
    /// button payload: each takes its bit, and a change of the Shift slot
    /// sets the shift latch and the Shift LED, white while held and black
    /// otherwise.
    pub open spec fn after_scan(self, payload: Seq<u8>, upto: int) -> Self {
        let scanned = DeviceState {
            buttons: Seq::new(
                self.buttons.len(),
                |slot: int|
                    if slot < upto {
                        is_pressed(payload, slot as u8)
                    } else {
                        self.buttons[slot]
                    },
            ),
            ..self
        };
        if upto > BUTTON_SHIFT && self.shift_changes(payload) {
            (DeviceState { shift: is_pressed(payload, BUTTON_SHIFT), ..scanned }).with_led(
                LED_SHIFT,
                if is_pressed(payload, BUTTON_SHIFT) {
                    white()
                } else {
                    black()
                },
            )
        } else {
            scanned
        }
    }

    /// The events of the scan slots from 1 up to, not including, `upto`, in
    /// the order of the slots: one for each slot whose bit differs from the
    /// stored state, with the new state and the shift latch as the payload
    /// leaves it. The Shift slot, slot 0, gives none.
    pub open spec fn button_events(self, payload: Seq<u8>, upto: int) -> Seq<Event>
        decreases upto,
    {
        if upto <= 1 {
            Seq::empty()
        } else {
            let slot = (upto - 1) as u8;
            let earlier = self.button_events(payload, upto - 1);
            if is_pressed(payload, slot) != self.buttons[slot as int] {
                earlier.push(
                    Event::ButtonChange(
                        scan_button(slot),
                        is_pressed(payload, slot),
                        self.shift_after(payload),
                    ),
                )
            } else {
                earlier
            }
        }
    }

    /// The event of the encoder: one if its position differs from the
    /// stored one.
    pub open spec fn encoder_events(self, payload: Seq<u8>) -> Seq<Event> {
        if payload[4] != self.encoder {
            seq![
                Event::EncoderChange(
                    0,
                    encoder_direction(self.encoder, payload[4]),
                    self.shift_after(payload),
                ),
            ]
        } else {
            Seq::empty()
        }
    }

    /// The events of a button payload: those of the scan slots, then that
    /// of the encoder.
    pub open spec fn buttons_events(self, payload: Seq<u8>) -> Seq<Event> {
        self.button_events(payload, BUTTON_NONE as int) + self.encoder_events(payload)
    }

    /// The state after a button payload of at least five bytes.
    pub open spec fn after_buttons(self, payload: Seq<u8>) -> Self {
        DeviceState { encoder: payload[4], ..self.after_scan(payload, BUTTON_NONE as int) }
    }

    /// The state after a sequence of button payloads, taken in order.
    pub open spec fn after_button_reports(self, payloads: Seq<Seq<u8>>) -> Self
        decreases payloads.len(),
    {
        if payloads.len() == 0 {
            self
        } else {
            self.after_button_reports(payloads.drop_last()).after_buttons(payloads.last())
        }
    }

    /// The state after one pad channel: the pad's raw value is stored and
    /// its latch follows whether the value is above the threshold.
    pub open spec fn after_pad_channel(self, low: u8, high: u8) -> Self {
        DeviceState {
            pads_data: self.pads_data.update(pad_number(high) as int, pad_value(low, high)),
            pads_status: self.pads_status.update(
                pad_number(high) as int,
                pad_value(low, high) > PAD_THRESHOLD,
            ),
            ..self
        }
    }

    /// The event of one pad channel: one while the pad is pressed, and one
    /// with velocity 0 when a latched pad is found released.
    pub open spec fn pad_channel_events(self, low: u8, high: u8) -> Seq<Event> {
        if pad_value(low, high) > PAD_THRESHOLD || self.pads_status[pad_number(high) as int] {
            seq![
                Event::PadChange(
                    pad_number(high),
                    pad_velocity(pad_value(low, high)),
                    self.shift,
                ),
            ]
        } else {
            Seq::empty()
        }
    }

    /// The state after the first `channels` channels of a pad payload, each
    /// two bytes, taken in order.
    pub open spec fn after_pad_channels(self, payload: Seq<u8>, channels: int) -> Self
        decreases channels,
    {
        if channels <= 0 {
            self
        } else {
            self.after_pad_channels(payload, channels - 1).after_pad_channel(
                payload[2 * (channels - 1)],
                payload[2 * (channels - 1) + 1],
            )
        }
    }

    /// The events of the first `channels` channels of a pad payload, in the
    /// order of the channels.
    pub open spec fn pad_channels_events(self, payload: Seq<u8>, channels: int) -> Seq<Event>
        decreases channels,
    {
        if channels <= 0 {
            Seq::empty()
        } else {
            self.pad_channels_events(payload, channels - 1) + self.after_pad_channels(
                payload,
                channels - 1,
            ).pad_channel_events(payload[2 * (channels - 1)], payload[2 * (channels - 1) + 1])
        }
    }

    /// The state after a pad payload of at least 64 bytes: its 16 channels
    /// are taken in order.
    pub open spec fn after_pads(self, payload: Seq<u8>) -> Self {
        self.after_pad_channels(payload, PAD_COUNT as int)
    }

    /// The events of a pad payload.
    pub open spec fn pads_events(self, payload: Seq<u8>) -> Seq<Event> {
        self.pad_channels_events(payload, PAD_COUNT as int)
    }

    /// The state after a read of the poll phase: a report that is decoded
    /// without error is applied, anything else changes nothing.
    pub open spec fn after_report(self, attempt: u8, bytes_read: usize, buffer: Seq<u8>) -> Self {
        if report_result(attempt, bytes_read, buffer) is Err {
            self
        } else if brings_buttons(bytes_read, buffer) {
            self.after_buttons(button_payload(buffer))
        } else if brings_pads(attempt, bytes_read, buffer) {
            self.after_pads(pad_payload(buffer))
        } else {
            self
        }
    }

    /// The events of a read of the poll phase.
    pub open spec fn report_events(self, attempt: u8, bytes_read: usize, buffer: Seq<u8>) -> Seq<
        Event,
    > {
        if report_result(attempt, bytes_read, buffer) is Err {
            Seq::empty()
        } else if brings_buttons(bytes_read, buffer) {
            self.buttons_events(button_payload(buffer))
        } else if brings_pads(attempt, bytes_read, buffer) {
            self.pads_events(pad_payload(buffer))
        } else {
            Seq::empty()
        }
    }

    /// The state at the end of a tick: the phase has moved on by one, and
    /// no transfer is awaited.
    pub open spec fn advanced(self) -> Self {
        DeviceState { phase: ((self.phase + 1) % 3) as u8, stage: Stage::Idle, ..self }
    }

    /// The state after a tick began: a dirty display starts its frame, a
    /// dirty LED table its report, the poll phase its first read; a phase
    /// with nothing to send is over at once.
    pub open spec fn begun(self) -> Self {
        if self.phase == 0 {
            if self.display.dirty {
                DeviceState { stage: Stage::Frame(0), ..self }
            } else {
                self.advanced()
            }
        } else if self.phase == 1 {
            if self.leds_dirty {
                DeviceState { stage: Stage::Leds, ..self }
            } else {
                self.advanced()
            }
        } else {
            DeviceState { stage: Stage::Poll(0), ..self }
        }
    }

    /// What is asked for when a tick begins.
    pub open spec fn begin_request(self) -> RequestView {
        if self.phase == 0 {
            if self.display.dirty {
                RequestView::Write(frame_report_bytes(self.display.data, 0))
            } else {
                RequestView::Done(Ok(()))
            }
        } else if self.phase == 1 {
            if self.leds_dirty {
                RequestView::Write(led_report_bytes(self.leds))
            } else {
                RequestView::Done(Ok(()))
            }
        } else {
            RequestView::Read
        }
    }

    /// The state after a reply of the transport.
    ///
    /// A failure ends the tick and clears no flag. A report that was
    /// written is followed by the next chunk of the frame; behind the last
    /// chunk, and behind the LED report, the flag of what was sent is
    /// cleared and the tick ends. A read is decoded and followed by the
    /// next attempt, until the last attempt or an error ends the tick. A
    /// reply that answers nothing that was asked ends the tick.
    pub open spec fn after_step(self, reply: ReplyView) -> Self {
        match reply {
            ReplyView::Start => self.begun(),
            ReplyView::Failed => self.advanced(),
            ReplyView::Written => match self.stage {
                Stage::Frame(chunk) => if chunk + 1 < FRAME_CHUNKS {
                    DeviceState { stage: Stage::Frame((chunk + 1) as u8), ..self }
                } else {
                    (DeviceState {
                        display: CanvasView { dirty: false, ..self.display },
                        ..self
                    }).advanced()
                },
                Stage::Leds => (DeviceState { leds_dirty: false, ..self }).advanced(),
                _ => self.advanced(),
            },
            ReplyView::Received(bytes_read, buffer) => match self.stage {
                Stage::Poll(attempt) => if report_result(attempt, bytes_read, buffer) is Err {
                    self.advanced()
                } else if attempt + 1 < POLL_ATTEMPTS {
                    DeviceState {
                        stage: Stage::Poll((attempt + 1) as u8),
                        ..self.after_report(attempt, bytes_read, buffer)
                    }
                } else {
                    self.after_report(attempt, bytes_read, buffer).advanced()
                },
                _ => self.advanced(),
            },
        }
    }

    /// What is asked for after a reply of the transport.
    pub open spec fn step_request(self, reply: ReplyView) -> RequestView {
        match reply {
            ReplyView::Start => self.begin_request(),
            ReplyView::Failed => RequestView::Done(Err(Error::Transport)),
            ReplyView::Written => match self.stage {
                Stage::Frame(chunk) => if chunk + 1 < FRAME_CHUNKS {
                    RequestView::Write(
                        frame_report_bytes(self.display.data, (chunk + 1) as nat),
                    )
                } else {
                    RequestView::Done(Ok(()))
                },
                Stage::Leds => RequestView::Done(Ok(())),
                _ => RequestView::Done(Err(Error::UnknownControl)),
            },
            ReplyView::Received(bytes_read, buffer) => match self.stage {
                Stage::Poll(attempt) => match report_result(attempt, bytes_read, buffer) {
                    Err(error) => RequestView::Done(Err(error)),
                    Ok(_) => if attempt + 1 < POLL_ATTEMPTS {
                        RequestView::Read
                    } else {
                        RequestView::Done(Ok(()))
                    },
                },
                _ => RequestView::Done(Err(Error::UnknownControl)),
            },
        }
    }

    /// The events that a reply of the transport adds: those of a read that
    /// was asked for, none otherwise.
    pub open spec fn step_events(self, reply: ReplyView) -> Seq<Event> {
        match reply {
            ReplyView::Received(bytes_read, buffer) => match self.stage {
                Stage::Poll(attempt) => self.report_events(attempt, bytes_read, buffer),
                _ => Seq::empty(),
            },
            _ => Seq::empty(),
        }
    }
}

/// Maschine Mikro Mk2 controller: all that the driver holds between two
/// transfers. The transport itself is left to the caller, who runs
/// [`MaschineMikroMk2::step`] against it.
pub struct MaschineMikroMk2 {
    tick_state: u8,
    stage: Stage,
    pub display: MonochromeCanvas,
    leds: [u8; 78],
    leds_dirty: bool,
    button_states: [bool; 45],
    shift_pressed: bool,
    pads_data: [u16; 16],
    pads_status: [bool; 16],
    encoder_value: u8,
}

impl View for MaschineMikroMk2 {
    type V = DeviceState;

    closed spec fn view(&self) -> DeviceState {
        DeviceState {
            phase: self.tick_state,
            stage: self.stage,
            display: self.display@,
            leds: self.leds@,
            leds_dirty: self.leds_dirty,
            buttons: self.button_states@,
            shift: self.shift_pressed,
            pads_data: self.pads_data@,
            pads_status: self.pads_status@,
            encoder: self.encoder_value,
        }
    }
}

/// Whether the bit of scan slot `button` is set in a button payload.
pub fn is_button_pressed(buffer: &[u8], button: u8) -> (pressed: bool)
    requires
        button / 8 < buffer@.len(),
    ensures
        pressed == is_pressed(buffer@, button),
{
    assert(button >> 3 == button / 8) by (bit_vector);
    let byte_idx = (button >> 3) as usize;
    (buffer[byte_idx] & (1u8 << (button % 8))) != 0
}

impl MaschineMikroMk2 {
    /// USB vendor identifier of the device.
    pub const VENDOR_ID: u16 = 0x17cc;

    /// USB product identifier of the device.
    pub const PRODUCT_ID: u16 = 0x1200;

    /// A driver in its first phase: the display blank and dirty, every LED
    /// off with the table dirty, no button or pad held, the encoder at 0.
    pub fn new() -> (driver: Self)
        ensures
            driver@.wf(),
            driver@ == (DeviceState {
                phase: 0,
                stage: Stage::Idle,
                display: CanvasView {
                    width: DISPLAY_WIDTH as nat,
                    height: DISPLAY_HEIGHT as nat,
                    data: Seq::new(1024, |i: int| 0u8),
                    dirty: true,
                },
                leds: Seq::new(LED_COUNT as nat, |i: int| 0u8),
                leds_dirty: true,
                buttons: Seq::new(BUTTON_COUNT as nat, |i: int| false),
                shift: false,
                pads_data: Seq::new(PAD_COUNT as nat, |i: int| 0u16),
                pads_status: Seq::new(PAD_COUNT as nat, |i: int| false),
                encoder: 0,
            }),
    {
        let driver = MaschineMikroMk2 {
            tick_state: 0,
            stage: Stage::Idle,
            display: MonochromeCanvas::new(128, 64),
            leds: [0u8;78],
            leds_dirty: true,
            button_states: [false;45],
            shift_pressed: false,
            pads_data: [0u16;16],
            pads_status: [false;16],
            encoder_value: 0,
        };
        assert(driver.leds@ =~= Seq::new(LED_COUNT as nat, |i: int| 0u8));
        assert(driver.button_states@ =~= Seq::new(BUTTON_COUNT as nat, |i: int| false));
        assert(driver.pads_data@ =~= Seq::new(PAD_COUNT as nat, |i: int| 0u16));
        assert(driver.pads_status@ =~= Seq::new(PAD_COUNT as nat, |i: int| false));
        assert(driver.display@.data =~= Seq::new(1024, |i: int| 0u8));
        driver
    }

    /// Whether the driver is well formed. It is, unless the display was
    /// replaced by one of another size.
    pub fn is_well_formed(&self) -> (ok: bool)
        ensures
            ok == self@.wf(),
    {
        let stage_ok = match self.stage {
            Stage::Frame(chunk) => chunk < FRAME_CHUNKS,
            Stage::Poll(attempt) => attempt < POLL_ATTEMPTS,
            _ => true,
        };
        self.tick_state < 3 && stage_ok && self.display.width() == DISPLAY_WIDTH
            && self.display.height() == DISPLAY_HEIGHT && self.display.data_size() == 1024
            && self.shift_pressed == self.button_states[0]
    }

    /// The phase of the schedule: 0 sends the display, 1 the LEDs, 2 polls.
    pub fn tick_state(&self) -> (phase: u8)
        ensures
            phase == self@.phase,
    {
        self.tick_state
    }

    /// Where the tick stands between two transfers.
    pub fn stage(&self) -> (stage: Stage)
        ensures
            stage == self@.stage,
    {
        self.stage
    }

    /// Whether the LED table changed since it was last sent.
    pub fn is_leds_dirty(&self) -> (dirty: bool)
        ensures
            dirty == self@.leds_dirty,
    {
        self.leds_dirty
    }

    /// Whether Shift is held.
    pub fn is_shift_pressed(&self) -> (shift: bool)
        ensures
            shift == self@.shift,
    {
        self.shift_pressed
    }

    /// The last position of the encoder.
    pub fn encoder_value(&self) -> (value: u8)
        ensures
            value == self@.encoder,
    {
        self.encoder_value
    }

    /// The last raw value of a pad and whether the pad is latched as
    /// pressed; nothing for a pad number that does not exist.
    pub fn pad_state(&self, pad: u8) -> (state: Option<(u16, bool)>)
        ensures
            state == if pad < PAD_COUNT {
                Some((self@.pads_data[pad as int], self@.pads_status[pad as int]))
            } else {
                None
            },
    {
        if (pad as usize) < PAD_COUNT {
            Some((self.pads_data[pad as usize], self.pads_status[pad as usize]))
        } else {
            None
        }
    }

    /// The display report of chunk `chunk` of the frame.
    pub fn frame_report(&self, chunk: u8) -> (report: Vec<u8>)
        requires
            self@.wf(),
            chunk < FRAME_CHUNKS,
        ensures
            report@ == frame_report_bytes(self@.display.data, chunk as nat),
            report@.len() == 9 + FRAME_CHUNK,
    {
        let row = 2 * chunk;
        let mut buffer: Vec<u8> = vec![
            DISPLAY_ADDR,
            0x00,  // Column offset
            0x00,
            row,  // Row (a row is 8 pixels high)
            0x00,
            0x80,  // Columns per row, 128 is full width
            0x00,
            0x02,  // Number of rows
            0x00,
        ];
        let x_offset = (row as usize) * 128;
        let data = self.display.data();
        let pixels = vstd::slice::slice_subrange(data, x_offset, x_offset + FRAME_CHUNK);
        buffer.extend_from_slice(pixels);
        assert(buffer@ =~= frame_report_bytes(self@.display.data, chunk as nat));
        buffer
    }

    /// The LED report.
    pub fn led_report(&self) -> (report: Vec<u8>)
        ensures
            report@ == led_report_bytes(self@.leds),
            report@.len() == 1 + LED_COUNT,
    {
        let mut buffer: Vec<u8> = vec![LED_ADDR];
        buffer.extend_from_slice(self.leds.as_slice());
        assert(buffer@ =~= led_report_bytes(self@.leds));
        buffer
    }

    /// Process a buttons report message: the payload behind the tag.
    ///
    /// A payload of fewer than five bytes is refused and changes nothing.
    pub fn process_buttons(&mut self, buffer: &[u8], context: &mut EventContext) -> (result:
        Result<(), Error>)
        ensures
            result == if buffer@.len() < BUTTON_PAYLOAD {
                Err::<(), Error>(Error::InvalidReport)
            } else {
                Ok(())
            },
            result is Err ==> final(self)@ == old(self)@ && final(context)@ == old(context)@,
            result is Ok ==> final(self)@ == old(self)@.after_buttons(buffer@),
            result is Ok ==> final(context)@ == old(context)@ + old(self)@.buttons_events(
                buffer@,
            ),
    {
        if buffer.len() < BUTTON_PAYLOAD {
            return Err(Error::InvalidReport);
        }
        let ghost before = self@;
        let ghost queued = context@;
        assert(before.after_scan(buffer@, 0).buttons =~= before.buttons);
        // Scan buttons
        let mut btn: u8 = BUTTON_SHIFT;
        while btn < BUTTON_NONE
            invariant
                btn <= BUTTON_NONE,
                buffer@.len() >= BUTTON_PAYLOAD,
                before == old(self)@,
                self@ == before.after_scan(buffer@, btn as int),
                context@ == queued + before.button_events(buffer@, btn as int),
            decreases BUTTON_NONE - btn,
        {
            let button_pressed = is_button_pressed(buffer, btn);
            if button_pressed != self.button_states[btn as usize] {
                self.button_states[btn as usize] = button_pressed;
                if btn == BUTTON_SHIFT {
                    self.shift_pressed = button_pressed;
                    self.set_led(
                        LED_SHIFT,
                        if button_pressed {
                            Colour::white()
                        } else {
                            Colour::black()
                        },
                    );
                } else {
                    let button = self.as_device_button(btn);
                    context.add_event(
                        Event::ButtonChange(button, button_pressed, self.shift_pressed),
                    );
                }
            }
            assert(self@.buttons =~= before.after_scan(buffer@, btn + 1).buttons);
            assert(self@.leds =~= before.after_scan(buffer@, btn + 1).leds);
            btn += 1;
        }
        // Handle encoder data
        let encoder_value = buffer[4];
        if self.encoder_value != encoder_value {
            let direction = if (self.encoder_value < encoder_value || (self.encoder_value == 0x0f
                && encoder_value == 0x00)) && !(self.encoder_value == 0x00 && encoder_value
                == 0x0f) {
                Direction::Down
            } else {
                Direction::Up
            };
            self.encoder_value = encoder_value;
            context.add_event(Event::EncoderChange(0, direction, self.shift_pressed));
        }
        assert(context@ =~= queued + before.buttons_events(buffer@));
        Ok(())
    }

    /// Process a pads report message: the payload behind the tag.
    ///
    /// A payload of fewer than 64 bytes is refused and changes nothing.
    pub fn process_pads(&mut self, buffer: &[u8], context: &mut EventContext) -> (result: Result<
        (),
        Error,
    >)
        ensures
            result == if buffer@.len() < PAD_PAYLOAD {
                Err::<(), Error>(Error::InvalidReport)
            } else {
                Ok(())
            },
            result is Err ==> final(self)@ == old(self)@ && final(context)@ == old(context)@,
            result is Ok ==> final(self)@ == old(self)@.after_pads(buffer@),
            result is Ok ==> final(context)@ == old(context)@ + old(self)@.pads_events(buffer@),
    {
        if buffer.len() < PAD_PAYLOAD {
            return Err(Error::InvalidReport);
        }
        let ghost before = self@;
        let ghost queued = context@;
        let mut channel: usize = 0;
        while channel < PAD_COUNT
            invariant
                channel <= PAD_COUNT,
                buffer@.len() >= PAD_PAYLOAD,
                self@ == before.after_pad_channels(buffer@, channel as int),
                context@ == queued + before.pad_channels_events(buffer@, channel as int),
            decreases PAD_COUNT - channel,
        {
            let idx = 2 * channel;
            let low_byte = buffer[idx];
            let high_byte = buffer[idx + 1];
            assert((high_byte & 0xF0) >> 4 == high_byte / 16) by (bit_vector);
            assert((((high_byte & 0x0F) as u16) << 8) | low_byte as u16 == (high_byte % 16) * 256
                + low_byte) by (bit_vector);
            let pad = ((high_byte & 0xF0) >> 4) as usize;
            let value = (((high_byte & 0x0F) as u16) << 8) | low_byte as u16;
            let pressed = value > PAD_THRESHOLD;
            assert(value >> 4 == value / 16) by (bit_vector);
            let ghost scanned = self@;
            self.pads_data[pad] = value;
            if pressed || self.pads_status[pad] {
                self.pads_status[pad] = pressed;
                context.add_event(
                    Event::PadChange(
                        pad as u8,
                        if pressed {
                            (value >> 4) as u8
                        } else {
                            0
                        },
                        self.shift_pressed,
                    ),
                );
            }
            assert(self@.pads_status =~= scanned.after_pad_channel(
                low_byte,
                high_byte,
            ).pads_status);
            assert(self@.pads_data =~= scanned.after_pad_channel(low_byte, high_byte).pads_data);
            assert(context@ =~= queued + before.pad_channels_events(buffer@, channel + 1));
            channel += 1;
        }
        Ok(())
    }

    /// Set the colour of an LED.
    fn set_led(&mut self, led: u8, colour: Colour)
        requires
            led_in_table(led),
        ensures
            final(self)@ == old(self)@.with_led(led, colour@),
    {
        let base = led as usize;
        if self.is_rgb_led(led) {
            let (r, g, b) = colour.components();
            assert(r >> 1 == r / 2) by (bit_vector);
            assert(g >> 1 == g / 2) by (bit_vector);
            assert(b >> 1 == b / 2) by (bit_vector);
            let red = r >> 1;
            let green = g >> 1;
            let blue = b >> 1;
            if red != self.leds[base] || green != self.leds[base + 1] || blue != self.leds[base
                + 2] {
                self.leds_dirty = true;
            }
            self.leds[base] = red;
            self.leds[base + 1] = green;
            self.leds[base + 2] = blue;
        } else {
            let m = colour.as_1bit();
            if m != self.leds[base] {
                self.leds_dirty = true;
            }
            self.leds[base] = m;
        }
        assert(self@.leds =~= old(self)@.with_led(led, colour@).leds);
    }

    /// Determine if an LED is RGB or mono.
    pub fn is_rgb_led(&self, led: u8) -> (rgb: bool)
        ensures
            rgb == is_rgb_led(led),
    {
        led == LED_GROUP || (LED_PAD13 <= led && led <= LED_PAD04)
    }

    /// Convert a button code into a button.
    pub fn as_device_button(&self, button: u8) -> (name: Button)
        ensures
            name == scan_button(button),
    {
        if button == BUTTON_ERASE {
            Button::Erase
        } else if button == BUTTON_REC {
            Button::Rec
        } else if button == BUTTON_PLAY {
            Button::Play
        } else if button == BUTTON_GRID {
            Button::Grid
        } else if button == BUTTON_TRANSPORT_RIGHT {
            Button::TransportRight
        } else if button == BUTTON_TRANSPORT_LEFT {
            Button::TransportLeft
        } else if button == BUTTON_RESTART {
            Button::Restart
        } else if button == BUTTON_MAIN_ENCODER {
            Button::MainEncoder
        } else if button == BUTTON_NOTE_REPEAT {
            Button::NoteRepeat
        } else if button == BUTTON_SAMPLING {
            Button::Sampling
        } else if button == BUTTON_BROWSE {
            Button::Browse
        } else if button == BUTTON_GROUP {
            Button::Group
        } else if button == BUTTON_MAIN {
            Button::Main
        } else if button == BUTTON_BROWSE_RIGHT {
            Button::BrowseRight
        } else if button == BUTTON_BROWSE_LEFT {
            Button::BrowseLeft
        } else if button == BUTTON_NAV {
            Button::Nav
        } else if button == BUTTON_CONTROL {
            Button::Control
        } else if button == BUTTON_F3 {
            Button::F3
        } else if button == BUTTON_F2 {
            Button::F2
        } else if button == BUTTON_F1 {
            Button::F1
        } else if button == BUTTON_MUTE {
            Button::Mute
        } else if button == BUTTON_SOLO {
            Button::Solo
        } else if button == BUTTON_SELECT {
            Button::Select
        } else if button == BUTTON_DUPLICATE {
            Button::Duplicate
        } else if button == BUTTON_VIEW {
            Button::View
        } else if button == BUTTON_PAD_MODE {
            Button::PadMode
        } else if button == BUTTON_PATTERN {
            Button::Pattern
        } else if button == BUTTON_SCENE {
            Button::Scene
        } else {
            Button::Unknown
        }
    }

    /// Convert a button into an LED index.
    pub fn button_to_led(&self, button: Button) -> (led: Option<u8>)
        ensures
            led == led_of_button(button),
            led matches Some(slot) ==> led_in_table(slot),
    {
        match button {
            Button::Erase => Some(LED_ERASE),
            Button::Rec => Some(LED_REC),
            Button::Play => Some(LED_PLAY),
            Button::Grid => Some(LED_GRID),
            Button::TransportRight => Some(LED_TRANSPORT_RIGHT),
            Button::TransportLeft => Some(LED_TRANSPORT_LEFT),
            Button::Restart => Some(LED_RESTART),
            Button::NoteRepeat => Some(LED_NOTE_REPEAT),
            Button::Sampling => Some(LED_SAMPLING),
            Button::Browse => Some(LED_BROWSE),
            Button::Group => Some(LED_GROUP),
            Button::Main => Some(LED_MAIN),
            Button::BrowseRight => Some(LED_BROWSE_RIGHT),
            Button::BrowseLeft => Some(LED_BROWSE_LEFT),
            Button::Nav => Some(LED_NAV),
            Button::Control => Some(LED_CONTROL),
            Button::F3 => Some(LED_F3),
            Button::F2 => Some(LED_F2),
            Button::F1 => Some(LED_F1),
            Button::Mute => Some(LED_MUTE),
            Button::Solo => Some(LED_SOLO),
            Button::Select => Some(LED_SELECT),
            Button::Duplicate => Some(LED_DUPLICATE),
            Button::View => Some(LED_VIEW),
            Button::PadMode => Some(LED_PADMODE),
            Button::Pattern => Some(LED_PATTERN),
            Button::Scene => Some(LED_SCENE),
            _ => None,
        }
    }

    /// Convert a pad number into an LED index.
    pub fn pad_to_led(&self, pad: u8) -> (led: Option<u8>)
        ensures
            led == led_of_pad(pad),
            led matches Some(slot) ==> led_in_table(slot) && is_rgb_led(slot),
    {
        if (pad as usize) < PAD_COUNT {
            Some(PAD_LEDS[pad as usize])
        } else {
            None
        }
    }

    /// Set the state of a button LED; a button without an LED is ignored.
    pub fn set_button_led(&mut self, button: Button, colour: Colour)
        ensures
            final(self)@ == old(self)@.with_button_led(button, colour@),
    {
        match self.button_to_led(button) {
            Some(led) => self.set_led(led, colour),
            None => (),
        };
    }

    /// Set the state of a pad LED; a pad number that does not exist is
    /// ignored.
    pub fn set_pad_led(&mut self, pad: u8, colour: Colour)
        ensures
            final(self)@ == old(self)@.with_pad_led(pad, colour@),
    {
        match self.pad_to_led(pad) {
            Some(led) => self.set_led(led, colour),
            None => (),
        };
    }

    /// Hand one read of the poll phase to the decoder: a button report is
    /// decoded whenever it comes, a pad report only on the attempts of the
    /// sampling cadence, anything else is dropped.
    pub fn handle_report(
        &mut self,
        attempt: u8,
        bytes_read: usize,
        buffer: &[u8],
        context: &mut EventContext,
    ) -> (result: Result<(), Error>)
        ensures
            result == report_result(attempt, bytes_read, buffer@),
            final(self)@ == old(self)@.after_report(attempt, bytes_read, buffer@),
            final(context)@ == old(context)@ + old(self)@.report_events(
                attempt,
                bytes_read,
                buffer@,
            ),
    {
        if bytes_read > 0 && buffer.len() > 0 && buffer[0] == REPORT_BUTTONS {
            let end = if buffer.len() < 1 + BUTTON_PAYLOAD {
                buffer.len()
            } else {
                1 + BUTTON_PAYLOAD
            };
            self.process_buttons(vstd::slice::slice_subrange(buffer, 1, end), context)
        } else if bytes_read > 0 && buffer.len() > 0 && buffer[0] == REPORT_PADS && attempt
            % PAD_CADENCE == 0 {
            self.process_pads(vstd::slice::slice_subrange(buffer, 1, buffer.len()), context)
        } else {
            assert(context@ =~= context@ + Seq::<Event>::empty());
            Ok(())
        }
    }

    /// End the tick: the phase moves on by one.
    fn advance(&mut self)
        requires
            old(self).tick_state < 3,
        ensures
            final(self)@ == old(self)@.advanced(),
    {
        self.tick_state = (self.tick_state + 1) % 3;
        self.stage = Stage::Idle;
    }

    /// Take a reply of the transport and say what to ask of it next.
    ///
    /// A tick is the run of steps from `Reply::Start` to the first
    /// `Request::Done`; with it the phase has moved on by one.
    pub fn step(&mut self, reply: Reply, context: &mut EventContext) -> (request: Request)
        requires
            old(self)@.wf(),
        ensures
            final(self)@.wf(),
            final(self)@ == old(self)@.after_step(reply@),
            request@ == old(self)@.step_request(reply@),
            final(context)@ == old(context)@ + old(self)@.step_events(reply@),
    {
        assert(context@ =~= context@ + Seq::<Event>::empty());
        match reply {
            Reply::Start => {
                if self.tick_state == 0 {
                    if self.display.is_dirty() {
                        self.stage = Stage::Frame(0);
                        Request::Write(self.frame_report(0))
                    } else {
                        self.advance();
                        Request::Done(Ok(()))
                    }
                } else if self.tick_state == 1 {
                    if self.leds_dirty {
                        self.stage = Stage::Leds;
                        Request::Write(self.led_report())
                    } else {
                        self.advance();
                        Request::Done(Ok(()))
                    }
                } else {
                    self.stage = Stage::Poll(0);
                    Request::Read
                }
            },
            Reply::Failed => {
                self.advance();
                Request::Done(Err(Error::Transport))
            },
            Reply::Written => {
                match self.stage {
                    Stage::Frame(chunk) => {
                        if chunk + 1 < FRAME_CHUNKS {
                            self.stage = Stage::Frame(chunk + 1);
                            Request::Write(self.frame_report(chunk + 1))
                        } else {
                            self.display.clear_dirty_flag();
                            self.advance();
                            Request::Done(Ok(()))
                        }
                    },
                    Stage::Leds => {
                        self.leds_dirty = false;
                        self.advance();
                        Request::Done(Ok(()))
                    },
                    _ => {
                        self.advance();
                        Request::Done(Err(Error::UnknownControl))
                    },
                }
            },
            Reply::Received(bytes_read, buffer) => {
                match self.stage {
                    Stage::Poll(attempt) => {
                        let ghost before = self@;
                        match self.handle_report(attempt, bytes_read, buffer.as_slice(), context) {
                            Err(error) => {
                                self.advance();
                                Request::Done(Err(error))
                            },
                            Ok(_) => {
                                proof {
                                    lemma_report_keeps_wf(before, attempt, bytes_read, buffer@);
                                }
                                if attempt + 1 < POLL_ATTEMPTS {
                                    self.stage = Stage::Poll(attempt + 1);
                                    Request::Read
                                } else {
                                    self.advance();
                                    Request::Done(Ok(()))
                                }
                            },
                        }
                    },
                    _ => {
                        self.advance();
                        Request::Done(Err(Error::UnknownControl))
                    },
                }
            },
        }
    }
}

/// Decoding a read keeps a well-formed state well formed.
pub proof fn lemma_report_keeps_wf(state: DeviceState, attempt: u8, bytes_read: usize, buffer: Seq<
    u8,
>)
    requires
        state.wf(),
    ensures
        state.after_report(attempt, bytes_read, buffer).wf(),
{
    if report_result(attempt, bytes_read, buffer) is Err {
    } else if brings_buttons(bytes_read, buffer) {
        lemma_buttons_keep_wf(state, button_payload(buffer));
    } else if brings_pads(attempt, bytes_read, buffer) {
        lemma_pads_keep_wf(state, pad_payload(buffer), PAD_COUNT as int);
    }
}

/// Decoding a button payload keeps a well-formed state well formed, and
/// leaves the shift latch equal to the Shift bit of the payload.
pub proof fn lemma_buttons_keep_wf(state: DeviceState, payload: Seq<u8>)
    requires
        state.wf(),
    ensures
        state.after_buttons(payload).wf(),
        state.after_buttons(payload).shift == is_pressed(payload, BUTTON_SHIFT),
        state.shift_after(payload) == is_pressed(payload, BUTTON_SHIFT),
{
}

/// Decoding pad channels keeps a well-formed state well formed.
pub proof fn lemma_pads_keep_wf(state: DeviceState, payload: Seq<u8>, channels: int)
    requires
        state.wf(),
    ensures
        state.after_pad_channels(payload, channels).wf(),
        state.after_pad_channels(payload, channels).shift == state.shift,
    decreases channels,
{
    if channels > 0 {
        lemma_pads_keep_wf(state, payload, channels - 1);
    }
}

/// After a button payload the stored state of every scanned slot is the
/// slot's bit in that payload.
pub proof fn lemma_buttons_follow_bits(state: DeviceState, payload: Seq<u8>, slot: u8)
    requires
        state.buttons.len() == BUTTON_COUNT,
        slot < BUTTON_NONE,
    ensures
        state.after_buttons(payload).buttons[slot as int] == is_pressed(payload, slot),
        state.after_buttons(payload).encoder == payload[4],
{
}

/// Every button event of a payload stands for a scan slot other than the
/// Shift slot whose bit differs from the stored state, and carries that
/// bit as its pressed state and the shift latch as the payload leaves it.
pub proof fn lemma_button_events_report_bits(
    state: DeviceState,
    payload: Seq<u8>,
    upto: int,
    index: int,
)
    requires
        upto <= BUTTON_NONE,
        0 <= index < state.button_events(payload, upto).len(),
    ensures
        exists|slot: u8|
            BUTTON_SHIFT < slot < upto && is_pressed(payload, slot) != state.buttons[slot as int]
                && state.button_events(payload, upto)[index] == Event::ButtonChange(
                scan_button(slot),
                is_pressed(payload, slot),
                state.shift_after(payload),
            ),
    decreases upto,
{
    if upto > 1 {
        let slot = (upto - 1) as u8;
        let earlier = state.button_events(payload, upto - 1);
        if index < earlier.len() {
            lemma_button_events_report_bits(state, payload, upto - 1, index);
        } else {
            assert(BUTTON_SHIFT < slot < upto && is_pressed(payload, slot)
                != state.buttons[slot as int] && state.button_events(payload, upto)[index]
                == Event::ButtonChange(
                scan_button(slot),
                is_pressed(payload, slot),
                state.shift_after(payload),
            ));
        }
    }
}

/// A payload whose scanned slots, but for the Shift slot, all equal the
/// stored state gives no button event.
pub proof fn lemma_unchanged_slots_are_silent(state: DeviceState, payload: Seq<u8>, upto: int)
    requires
        upto <= BUTTON_NONE,
        forall|slot: u8|
            BUTTON_SHIFT < slot < upto ==> is_pressed(payload, slot)
                == #[trigger] state.buttons[slot as int],
    ensures
        state.button_events(payload, upto) == Seq::<Event>::empty(),
    decreases upto,
{
    if upto > 1 {
        lemma_unchanged_slots_are_silent(state, payload, upto - 1);
        let slot = (upto - 1) as u8;
        assert(is_pressed(payload, slot) == state.buttons[slot as int]);
    }
}

/// A button payload decoded a second time changes nothing and gives no
/// event.
pub proof fn lemma_buttons_idempotent(state: DeviceState, payload: Seq<u8>)
    requires
        state.buttons.len() == BUTTON_COUNT,
    ensures
        state.after_buttons(payload).after_buttons(payload) == state.after_buttons(payload),
        state.after_buttons(payload).buttons_events(payload) == Seq::<Event>::empty(),
{
    let once = state.after_buttons(payload);
    assert(once.buttons[BUTTON_SHIFT as int] == is_pressed(payload, BUTTON_SHIFT));
    assert forall|slot: u8| BUTTON_SHIFT < slot < BUTTON_NONE implies is_pressed(payload, slot)
        == #[trigger] once.buttons[slot as int] by {}
    lemma_unchanged_slots_are_silent(once, payload, BUTTON_NONE as int);
    assert(once.after_buttons(payload).buttons =~= once.buttons);
    assert(once.buttons_events(payload) =~= Seq::<Event>::empty());
}

/// A change of the Shift slot sets the shift latch to the slot's bit and
/// the Shift LED to white while held and to black otherwise; where no other
/// slot and not the encoder changed with it, no event is given.
pub proof fn lemma_shift_sets_latch_and_led(state: DeviceState, payload: Seq<u8>)
    requires
        state.buttons.len() == BUTTON_COUNT,
        state.leds.len() == LED_COUNT,
        state.shift_changes(payload),
    ensures
        state.after_buttons(payload).shift == is_pressed(payload, BUTTON_SHIFT),
        state.after_buttons(payload).leds[LED_SHIFT as int] == if is_pressed(
            payload,
            BUTTON_SHIFT,
        ) {
            0xFFu8
        } else {
            0x00u8
        },
        forall|other: int|
            0 <= other < LED_COUNT && other != LED_SHIFT ==> state.after_buttons(
                payload,
            ).leds[other] == state.leds[other],
        (forall|slot: u8|
            BUTTON_SHIFT < slot < BUTTON_NONE ==> is_pressed(payload, slot)
                == #[trigger] state.buttons[slot as int]) && payload[4] == state.encoder
            ==> state.buttons_events(payload) == Seq::<Event>::empty(),
{
    if (forall|slot: u8|
        BUTTON_SHIFT < slot < BUTTON_NONE ==> is_pressed(payload, slot)
            == #[trigger] state.buttons[slot as int]) && payload[4] == state.encoder {
        lemma_unchanged_slots_are_silent(state, payload, BUTTON_NONE as int);
        assert(state.buttons_events(payload) =~= Seq::<Event>::empty());
    }
}

/// Writing a colour whose bytes the table already holds leaves the table
/// and its dirty flag as they are; writing one that differs in a byte
/// marks the table dirty.
pub proof fn lemma_led_write_marks_changes(state: DeviceState, led: u8, colour: (u8, u8, u8))
    requires
        state.leds.len() == LED_COUNT,
        led_in_table(led),
    ensures
        led_changes(state.leds, led, colour) <==> leds_with(state.leds, led, colour) != state.leds,
        !led_changes(state.leds, led, colour) ==> state.with_led(led, colour) == state,
        led_changes(state.leds, led, colour) ==> state.with_led(led, colour).leds_dirty,
        !led_changes(state.with_led(led, colour).leds, led, colour),
{
    let after = leds_with(state.leds, led, colour);
    if led_changes(state.leds, led, colour) {
        if is_rgb_led(led) {
            assert(after[led as int] == dimmed(colour.0));
            assert(after[led + 1] == dimmed(colour.1));
            assert(after[led + 2] == dimmed(colour.2));
        } else {
            assert(after[led as int] == mono_byte(colour));
        }
        assert(after != state.leds);
    } else {
        assert(after =~= state.leds);
    }
}

/// A pad channel above the threshold latches the pad and gives an event
/// with a velocity that is not 0; the first channel at or below it that
/// follows gives one event with velocity 0 and clears the latch; any
/// further such channel gives none.
pub proof fn lemma_pad_release_reported_once(state: DeviceState, low: u8, high: u8)
    requires
        state.pads_status.len() == PAD_COUNT,
        state.pads_data.len() == PAD_COUNT,
    ensures
        pad_number(high) < PAD_COUNT,
        pad_value(low, high) < 4096,
        state.after_pad_channel(low, high).pads_data[pad_number(high) as int] == pad_value(
            low,
            high,
        ),
        state.after_pad_channel(low, high).pads_status[pad_number(high) as int] == (pad_value(
            low,
            high,
        ) > PAD_THRESHOLD),
        pad_value(low, high) > PAD_THRESHOLD ==> pad_velocity(pad_value(low, high)) >= 32
            && state.pad_channel_events(low, high) == seq![
            Event::PadChange(
                pad_number(high),
                pad_velocity(pad_value(low, high)),
                state.shift,
            ),
        ],
        pad_value(low, high) <= PAD_THRESHOLD && state.pads_status[pad_number(high) as int]
            ==> state.pad_channel_events(low, high) == seq![
            Event::PadChange(pad_number(high), 0, state.shift),
        ],
        pad_value(low, high) <= PAD_THRESHOLD && !state.pads_status[pad_number(high) as int]
            ==> state.pad_channel_events(low, high) == Seq::<Event>::empty(),
        pad_value(low, high) <= PAD_THRESHOLD ==> state.after_pad_channel(
            low,
            high,
        ).pad_channel_events(low, high) == Seq::<Event>::empty(),
{
}

/// No two pads share an LED slot, every pad slot is an RGB slot with its
/// three bytes inside the table, and the slots of two pads do not overlap.
pub proof fn lemma_pad_leds_distinct(a: u8, b: u8)
    requires
        a < PAD_COUNT,
        b < PAD_COUNT,
    ensures
        led_of_pad(a) is Some,
        is_rgb_led(led_of_pad(a)->0),
        led_in_table(led_of_pad(a)->0),
        a != b ==> led_of_pad(a)->0 + 3 <= led_of_pad(b)->0 || led_of_pad(b)->0 + 3 <= led_of_pad(
            a,
        )->0,
{
    assert(PAD_LEDS[0] == LED_PAD13 && PAD_LEDS[1] == LED_PAD14 && PAD_LEDS[2] == LED_PAD15
        && PAD_LEDS[3] == LED_PAD16);
    assert(PAD_LEDS[4] == LED_PAD09 && PAD_LEDS[5] == LED_PAD10 && PAD_LEDS[6] == LED_PAD11
        && PAD_LEDS[7] == LED_PAD12);
    assert(PAD_LEDS[8] == LED_PAD05 && PAD_LEDS[9] == LED_PAD06 && PAD_LEDS[10] == LED_PAD07
        && PAD_LEDS[11] == LED_PAD08);
    assert(PAD_LEDS[12] == LED_PAD01 && PAD_LEDS[13] == LED_PAD02 && PAD_LEDS[14] == LED_PAD03
        && PAD_LEDS[15] == LED_PAD04);
}

/// No two buttons share an LED slot, every button slot lies inside the
/// table, and only the Group button has an RGB slot.
pub proof fn lemma_button_leds_distinct(a: Button, b: Button)
    requires
        led_of_button(a) is Some,
        led_of_button(b) is Some,
    ensures
        led_in_table(led_of_button(a)->0),
        is_rgb_led(led_of_button(a)->0) <==> a == Button::Group,
        a != b ==> led_of_button(a)->0 != led_of_button(b)->0,
        led_of_button(a)->0 != LED_SHIFT,
{
}

/// No two scan slots stand for the same named button.
pub proof fn lemma_scan_buttons_distinct(a: u8, b: u8)
    requires
        scan_button(a) != Button::Unknown,
        a != b,
    ensures
        scan_button(a) != scan_button(b),
        BUTTON_SHIFT < a < BUTTON_NONE,
{
}

/// The four display reports of a frame carry, one behind the other, the
/// whole of the display data, each behind a header that names its band row.
pub proof fn lemma_frame_reports_cover(data: Seq<u8>)
    requires
        data.len() == 1024,
    ensures
        frame_report_bytes(data, 0).subrange(9, 265) + frame_report_bytes(data, 1).subrange(
            9,
            265,
        ) + frame_report_bytes(data, 2).subrange(9, 265) + frame_report_bytes(data, 3).subrange(
            9,
            265,
        ) == data,
        forall|chunk: nat|
            chunk < FRAME_CHUNKS ==> (#[trigger] frame_report_bytes(data, chunk)).len() == 265
                && frame_report_bytes(data, chunk)[0] == DISPLAY_ADDR && frame_report_bytes(
                data,
                chunk,
            )[3] == 2 * chunk,
{
    assert(frame_report_bytes(data, 0).subrange(9, 265) + frame_report_bytes(data, 1).subrange(
        9,
        265,
    ) + frame_report_bytes(data, 2).subrange(9, 265) + frame_report_bytes(data, 3).subrange(
        9,
        265,
    ) =~= data);
}

/// A step that ends the tick has moved the phase on by one, whatever the
/// reply was, and leaves no transfer awaited; any other step keeps the
/// phase.
pub proof fn lemma_tick_end_advances(state: DeviceState, reply: ReplyView)
    requires
        state.wf(),
    ensures
        state.step_request(reply) is Done ==> state.after_step(reply).phase == (state.phase + 1)
            % 3 && state.after_step(reply).stage == Stage::Idle,
        !(state.step_request(reply) is Done) ==> state.after_step(reply).phase == state.phase
            && state.after_step(reply).stage != Stage::Idle,
{
    match reply {
        ReplyView::Received(bytes_read, buffer) => {
            match state.stage {
                Stage::Poll(attempt) => {
                    lemma_report_keeps_flags(state, attempt, bytes_read, buffer);
                },
                _ => {},
            }
        },
        _ => {},
    }
}

/// The dirty flag of the display is cleared by nothing but the reply that
/// the last chunk of the frame was written, and that of the LED table by
/// nothing but the reply that the LED report was written.
pub proof fn lemma_flags_clear_on_success(state: DeviceState, reply: ReplyView)
    requires
        state.wf(),
    ensures
        state.display.dirty && !state.after_step(reply).display.dirty ==> reply
            == ReplyView::Written && state.stage == Stage::Frame((FRAME_CHUNKS - 1) as u8),
        state.leds_dirty && !state.after_step(reply).leds_dirty ==> reply == ReplyView::Written
            && state.stage == Stage::Leds,
        reply == ReplyView::Failed ==> state.after_step(reply) == state.advanced(),
{
    match reply {
        ReplyView::Received(bytes_read, buffer) => {
            match state.stage {
                Stage::Poll(attempt) => {
                    lemma_report_keeps_flags(state, attempt, bytes_read, buffer);
                },
                _ => {},
            }
        },
        _ => {},
    }
}

/// Decoding a read never clears a dirty flag and leaves the display alone.
pub proof fn lemma_report_keeps_flags(state: DeviceState, attempt: u8, bytes_read: usize, buffer: Seq<
    u8,
>)
    ensures
        state.after_report(attempt, bytes_read, buffer).display == state.display,
        state.leds_dirty ==> state.after_report(attempt, bytes_read, buffer).leds_dirty,
        state.after_report(attempt, bytes_read, buffer).phase == state.phase,
        state.after_report(attempt, bytes_read, buffer).stage == state.stage,
{
    if report_result(attempt, bytes_read, buffer) is Err {
    } else if brings_buttons(bytes_read, buffer) {
    } else if brings_pads(attempt, bytes_read, buffer) {
        lemma_pads_keep_rest(state, pad_payload(buffer), PAD_COUNT as int);
    }
}

/// Decoding pad channels changes nothing but the pads' values and latches.
pub proof fn lemma_pads_keep_rest(state: DeviceState, payload: Seq<u8>, channels: int)
    ensures
        state.after_pad_channels(payload, channels) == (DeviceState {
            pads_data: state.after_pad_channels(payload, channels).pads_data,
            pads_status: state.after_pad_channels(payload, channels).pads_status,
            ..state
        }),
    decreases channels,
{
    if channels > 0 {
        lemma_pads_keep_rest(state, payload, channels - 1);
    }
}

/// After any sequence of button payloads the stored state of every scanned
/// slot is the slot's bit in the last payload, and the table of button
/// states keeps its size.
pub proof fn lemma_buttons_follow_last_report(
    state: DeviceState,
    payloads: Seq<Seq<u8>>,
    slot: u8,
)
    requires
        state.buttons.len() == BUTTON_COUNT,
        slot < BUTTON_NONE,
    ensures
        state.after_button_reports(payloads).buttons.len() == BUTTON_COUNT,
        payloads.len() > 0 ==> state.after_button_reports(payloads).buttons[slot as int]
            == is_pressed(payloads.last(), slot),
    decreases payloads.len(),
{
    if payloads.len() > 0 {
        lemma_buttons_follow_last_report(state, payloads.drop_last(), slot);
        lemma_buttons_follow_bits(
            state.after_button_reports(payloads.drop_last()),
            payloads.last(),
            slot,
        );
    }
}

} // verus!
