use maschine::colour::Colour;
use maschine::devices::maschine_mikro_mk2::{
    is_button_pressed, MaschineMikroMk2, Reply, Request, Stage, LED_SHIFT,
};
use maschine::display::{Canvas, Pixel};
use maschine::error::Error;
use maschine::events::{Button, Direction, Event, EventContext};

fn drain(context: &mut EventContext) -> Vec<Event> {
    context.events.drain(..).collect()
}

fn buttons(driver: &mut MaschineMikroMk2, payload: [u8; 5]) -> Vec<Event> {
    let mut context = EventContext::new();
    assert_eq!(driver.process_buttons(&payload, &mut context), Ok(()));
    drain(&mut context)
}

fn pads(driver: &mut MaschineMikroMk2, first: (u8, u8)) -> Vec<Event> {
    let mut payload = [0u8; 64];
    payload[0] = first.0;
    payload[1] = first.1;
    let mut context = EventContext::new();
    assert_eq!(driver.process_pads(&payload, &mut context), Ok(()));
    drain(&mut context)
}

fn led(driver: &MaschineMikroMk2, slot: u8) -> u8 {
    driver.led_report()[1 + slot as usize]
}

fn finish_first_two_phases(driver: &mut MaschineMikroMk2) {
    let mut context = EventContext::new();
    assert!(matches!(driver.step(Reply::Start, &mut context), Request::Write(_)));
    for _ in 0..3 {
        assert!(matches!(driver.step(Reply::Written, &mut context), Request::Write(_)));
    }
    assert_eq!(driver.step(Reply::Written, &mut context), Request::Done(Ok(())));
    assert!(matches!(driver.step(Reply::Start, &mut context), Request::Write(_)));
    assert_eq!(driver.step(Reply::Written, &mut context), Request::Done(Ok(())));
}

#[test]
fn event_context_keeps_the_order_of_events() {
    let mut context = EventContext::new();
    assert!(context.events.is_empty());
    context.add_event(Event::PadChange(1, 2, false));
    context.add_event(Event::EncoderChange(0, Direction::Up, true));
    assert_eq!(context.events.pop_front(), Some(Event::PadChange(1, 2, false)));
    assert_eq!(context.events.pop_front(), Some(Event::EncoderChange(0, Direction::Up, true)));
    assert_eq!(context.events.pop_front(), None);
}

#[test]
fn new_driver_starts_in_the_display_phase() {
    let driver = MaschineMikroMk2::new();
    assert!(driver.is_well_formed());
    assert_eq!(driver.tick_state(), 0);
    assert_eq!(driver.stage(), Stage::Idle);
    assert!(driver.is_leds_dirty());
    assert!(!driver.is_shift_pressed());
    assert_eq!(driver.encoder_value(), 0);
    assert_eq!(driver.display.width(), 128);
    assert_eq!(driver.display.height(), 64);
    assert!(driver.display.is_dirty());
    assert_eq!(driver.pad_state(0), Some((0, false)));
    assert_eq!(driver.pad_state(15), Some((0, false)));
    assert_eq!(driver.pad_state(16), None);
    assert_eq!(MaschineMikroMk2::VENDOR_ID, 0x17cc);
    assert_eq!(MaschineMikroMk2::PRODUCT_ID, 0x1200);
}

#[test]
fn is_button_pressed_reads_the_bit_of_the_slot() {
    let payload = [0x02u8, 0x80, 0x00, 0x01, 0x00];
    assert!(!is_button_pressed(&payload, 0));
    assert!(is_button_pressed(&payload, 1));
    assert!(is_button_pressed(&payload, 15));
    assert!(!is_button_pressed(&payload, 14));
    assert!(is_button_pressed(&payload, 24));
    assert!(!is_button_pressed(&payload, 31));
}

#[test]
fn button_press_and_release_follow_the_bit() {
    let mut driver = MaschineMikroMk2::new();
    assert_eq!(
        buttons(&mut driver, [0x02, 0, 0, 0, 0]),
        vec![Event::ButtonChange(Button::Erase, true, false)]
    );
    assert_eq!(
        buttons(&mut driver, [0x00, 0, 0, 0, 0]),
        vec![Event::ButtonChange(Button::Erase, false, false)]
    );
}

#[test]
fn repeated_button_report_gives_no_further_event() {
    let mut driver = MaschineMikroMk2::new();
    let payload = [0x0A, 0x80, 0x01, 0x00, 0x03];
    let first = buttons(&mut driver, payload);
    assert_eq!(
        first,
        vec![
            Event::ButtonChange(Button::Erase, true, false),
            Event::ButtonChange(Button::Play, true, false),
            Event::ButtonChange(Button::Group, true, false),
            Event::ButtonChange(Button::Main, true, false),
            Event::EncoderChange(0, Direction::Down, false),
        ]
    );
    assert_eq!(buttons(&mut driver, payload), vec![]);
    assert_eq!(buttons(&mut driver, payload), vec![]);
}

#[test]
fn button_state_follows_a_sequence_of_reports() {
    let mut driver = MaschineMikroMk2::new();
    let masks = [0x04u8, 0x04, 0x00, 0x04, 0x06, 0x02, 0x00];
    let mut held = false;
    for mask in masks {
        for event in buttons(&mut driver, [mask, 0, 0, 0, 0]) {
            if let Event::ButtonChange(Button::Rec, pressed, _) = event {
                assert_ne!(pressed, held);
                held = pressed;
            }
        }
        assert_eq!(held, mask & 0x04 != 0);
    }
}

#[test]
fn scan_slots_without_a_name_are_unknown() {
    let mut driver = MaschineMikroMk2::new();
    assert_eq!(
        buttons(&mut driver, [0, 0x07, 0, 0, 0]),
        vec![
            Event::ButtonChange(Button::Unknown, true, false),
            Event::ButtonChange(Button::Unknown, true, false),
            Event::ButtonChange(Button::Unknown, true, false),
        ]
    );
}

#[test]
fn as_device_button_names_the_scan_slots() {
    let driver = MaschineMikroMk2::new();
    assert_eq!(driver.as_device_button(0x00), Button::Unknown);
    assert_eq!(driver.as_device_button(0x01), Button::Erase);
    assert_eq!(driver.as_device_button(0x07), Button::Restart);
    assert_eq!(driver.as_device_button(0x08), Button::Unknown);
    assert_eq!(driver.as_device_button(0x0B), Button::MainEncoder);
    assert_eq!(driver.as_device_button(0x0F), Button::Group);
    assert_eq!(driver.as_device_button(0x17), Button::F1);
    assert_eq!(driver.as_device_button(0x1F), Button::Scene);
    assert_eq!(driver.as_device_button(0x20), Button::Unknown);
    assert_eq!(driver.as_device_button(0xFF), Button::Unknown);
}

#[test]
fn named_scan_slots_are_distinct() {
    let driver = MaschineMikroMk2::new();
    let mut seen: Vec<Button> = Vec::new();
    for slot in 0..=255u8 {
        let button = driver.as_device_button(slot);
        if button != Button::Unknown {
            assert!(!seen.contains(&button));
            seen.push(button);
        }
    }
    assert_eq!(seen.len(), 28);
}

#[test]
fn shift_is_no_button_event() {
    let mut driver = MaschineMikroMk2::new();
    finish_first_two_phases(&mut driver);
    assert!(!driver.is_leds_dirty());
    assert_eq!(buttons(&mut driver, [0x01, 0, 0, 0, 0]), vec![]);
    assert!(driver.is_shift_pressed());
    assert_eq!(led(&driver, LED_SHIFT), 0xFF);
    assert!(driver.is_leds_dirty());
    assert_eq!(buttons(&mut driver, [0x00, 0, 0, 0, 0]), vec![]);
    assert!(!driver.is_shift_pressed());
    assert_eq!(led(&driver, LED_SHIFT), 0x00);
}

#[test]
fn events_carry_the_shift_of_their_report() {
    let mut driver = MaschineMikroMk2::new();
    assert_eq!(
        buttons(&mut driver, [0x03, 0, 0, 0, 5]),
        vec![
            Event::ButtonChange(Button::Erase, true, true),
            Event::EncoderChange(0, Direction::Down, true),
        ]
    );
    assert_eq!(
        buttons(&mut driver, [0x00, 0, 0, 0, 5]),
        vec![Event::ButtonChange(Button::Erase, false, false)]
    );
}

#[test]
fn encoder_forward_steps_and_wrap() {
    let mut driver = MaschineMikroMk2::new();
    buttons(&mut driver, [0, 0, 0, 0, 14]);
    assert_eq!(
        buttons(&mut driver, [0, 0, 0, 0, 15]),
        vec![Event::EncoderChange(0, Direction::Down, false)]
    );
    assert_eq!(
        buttons(&mut driver, [0, 0, 0, 0, 0]),
        vec![Event::EncoderChange(0, Direction::Down, false)]
    );
    assert_eq!(driver.encoder_value(), 0);
}

#[test]
fn encoder_backward_wrap() {
    let mut driver = MaschineMikroMk2::new();
    assert_eq!(
        buttons(&mut driver, [0, 0, 0, 0, 15]),
        vec![Event::EncoderChange(0, Direction::Up, false)]
    );
    assert_eq!(driver.encoder_value(), 15);
}

#[test]
fn encoder_backward_step_and_rest() {
    let mut driver = MaschineMikroMk2::new();
    buttons(&mut driver, [0, 0, 0, 0, 7]);
    assert_eq!(
        buttons(&mut driver, [0, 0, 0, 0, 6]),
        vec![Event::EncoderChange(0, Direction::Up, false)]
    );
    assert_eq!(buttons(&mut driver, [0, 0, 0, 0, 6]), vec![]);
}

#[test]
fn short_button_payload_is_refused_and_changes_nothing() {
    let mut driver = MaschineMikroMk2::new();
    let mut context = EventContext::new();
    assert_eq!(
        driver.process_buttons(&[0xFF, 0xFF, 0xFF, 0xFF], &mut context),
        Err(Error::InvalidReport)
    );
    assert!(context.events.is_empty());
    assert!(!driver.is_shift_pressed());
    assert_eq!(driver.encoder_value(), 0);
    assert_eq!(buttons(&mut driver, [0, 0, 0, 0, 0]), vec![]);
}

#[test]
fn pad_below_the_threshold_gives_no_event() {
    let mut driver = MaschineMikroMk2::new();
    assert_eq!(pads(&mut driver, (0x00, 0x21)), vec![]);
    assert_eq!(driver.pad_state(2), Some((0x100, false)));
}

#[test]
fn pad_at_the_threshold_is_not_pressed() {
    let mut driver = MaschineMikroMk2::new();
    assert_eq!(pads(&mut driver, (0x00, 0x22)), vec![]);
    assert_eq!(driver.pad_state(2), Some((512, false)));
    assert_eq!(pads(&mut driver, (0x01, 0x22)), vec![Event::PadChange(2, 32, false)]);
    assert_eq!(driver.pad_state(2), Some((513, true)));
}

#[test]
fn pressed_pad_gives_its_top_eight_bits() {
    let mut driver = MaschineMikroMk2::new();
    assert_eq!(pads(&mut driver, (0xFF, 0x2F)), vec![Event::PadChange(2, 0xFF, false)]);
    assert_eq!(driver.pad_state(2), Some((0xFFF, true)));
}

#[test]
fn pad_release_is_reported_once() {
    let mut driver = MaschineMikroMk2::new();
    assert_eq!(pads(&mut driver, (0xFF, 0x2F)), vec![Event::PadChange(2, 0xFF, false)]);
    assert_eq!(pads(&mut driver, (0xF0, 0x2F)), vec![Event::PadChange(2, 0xFF, false)]);
    assert_eq!(pads(&mut driver, (0x00, 0x21)), vec![Event::PadChange(2, 0, false)]);
    assert_eq!(driver.pad_state(2), Some((0x100, false)));
    assert_eq!(pads(&mut driver, (0x00, 0x21)), vec![]);
}

#[test]
fn pad_report_takes_its_channels_in_order() {
    let mut driver = MaschineMikroMk2::new();
    let mut payload = [0u8; 64];
    for channel in 0..16u8 {
        payload[2 * channel as usize] = 0x10;
        payload[2 * channel as usize + 1] = (channel << 4) | 0x0F;
    }
    buttons(&mut driver, [0x01, 0, 0, 0, 0]);
    let mut context = EventContext::new();
    assert_eq!(driver.process_pads(&payload, &mut context), Ok(()));
    let events = drain(&mut context);
    assert_eq!(events.len(), 16);
    for (pad, event) in events.iter().enumerate() {
        assert_eq!(*event, Event::PadChange(pad as u8, 0xF1, true));
        assert_eq!(driver.pad_state(pad as u8), Some((0xF10, true)));
    }
}

#[test]
fn pad_report_reads_no_more_than_sixteen_channels() {
    let mut driver = MaschineMikroMk2::new();
    let mut payload = [0u8; 64];
    payload[32] = 0xFF;
    payload[33] = 0x3F;
    let mut context = EventContext::new();
    assert_eq!(driver.process_pads(&payload, &mut context), Ok(()));
    assert!(context.events.is_empty());
    assert_eq!(driver.pad_state(3), Some((0, false)));
}

#[test]
fn short_pad_payload_is_refused_and_changes_nothing() {
    let mut driver = MaschineMikroMk2::new();
    let mut payload = [0u8; 63];
    payload[0] = 0xFF;
    payload[1] = 0x2F;
    let mut context = EventContext::new();
    assert_eq!(driver.process_pads(&payload, &mut context), Err(Error::InvalidReport));
    assert!(context.events.is_empty());
    assert_eq!(driver.pad_state(2), Some((0, false)));
}

#[test]
fn rgb_led_takes_three_dimmed_bytes() {
    let mut driver = MaschineMikroMk2::new();
    driver.set_pad_led(0, Colour::new(0xFF, 0x11, 0x02));
    assert_eq!(led(&driver, 0x1E), 0x7F);
    assert_eq!(led(&driver, 0x1F), 0x08);
    assert_eq!(led(&driver, 0x20), 0x01);
    assert_eq!(led(&driver, 0x1D), 0x00);
    assert_eq!(led(&driver, 0x21), 0x00);
    driver.set_button_led(Button::Group, Colour::new(0x80, 0x40, 0x20));
    assert_eq!(led(&driver, 0x08), 0x40);
    assert_eq!(led(&driver, 0x09), 0x20);
    assert_eq!(led(&driver, 0x0A), 0x10);
}

#[test]
fn mono_led_takes_one_byte() {
    let mut driver = MaschineMikroMk2::new();
    driver.set_button_led(Button::Play, Colour::new(0x00, 0x80, 0x00));
    assert_eq!(led(&driver, 0x12), 0xFF);
    assert_eq!(led(&driver, 0x11), 0x00);
    assert_eq!(led(&driver, 0x13), 0x00);
    driver.set_button_led(Button::Play, Colour::new(0x7F, 0x7F, 0x7F));
    assert_eq!(led(&driver, 0x12), 0x00);
}

#[test]
fn identical_led_write_leaves_the_table_clean() {
    let mut driver = MaschineMikroMk2::new();
    finish_first_two_phases(&mut driver);
    assert!(!driver.is_leds_dirty());
    driver.set_pad_led(5, Colour::black());
    driver.set_button_led(Button::Rec, Colour::black());
    assert!(!driver.is_leds_dirty());
    driver.set_pad_led(5, Colour::new(0x01, 0x01, 0x01));
    assert!(!driver.is_leds_dirty());
}

#[test]
fn differing_led_write_marks_the_table_dirty() {
    let mut driver = MaschineMikroMk2::new();
    finish_first_two_phases(&mut driver);
    driver.set_pad_led(5, Colour::new(0x00, 0x00, 0x02));
    assert!(driver.is_leds_dirty());
    let mut other = MaschineMikroMk2::new();
    finish_first_two_phases(&mut other);
    other.set_button_led(Button::Rec, Colour::white());
    assert!(other.is_leds_dirty());
}

#[test]
fn identical_led_write_keeps_a_pending_change() {
    let mut driver = MaschineMikroMk2::new();
    finish_first_two_phases(&mut driver);
    driver.set_button_led(Button::Rec, Colour::white());
    driver.set_button_led(Button::Rec, Colour::white());
    assert!(driver.is_leds_dirty());
}

#[test]
fn buttons_without_led_are_ignored() {
    let mut driver = MaschineMikroMk2::new();
    finish_first_two_phases(&mut driver);
    let before = driver.led_report();
    driver.set_button_led(Button::Unknown, Colour::white());
    driver.set_button_led(Button::MainEncoder, Colour::white());
    driver.set_pad_led(16, Colour::white());
    driver.set_pad_led(255, Colour::white());
    assert_eq!(driver.led_report(), before);
    assert!(!driver.is_leds_dirty());
    assert_eq!(driver.button_to_led(Button::Unknown), None);
    assert_eq!(driver.button_to_led(Button::MainEncoder), None);
    assert_eq!(driver.pad_to_led(16), None);
}

#[test]
fn pad_leds_follow_the_wiring() {
    let driver = MaschineMikroMk2::new();
    let expected = [
        0x1Eu8, 0x21, 0x24, 0x27, 0x2A, 0x2D, 0x30, 0x33, 0x36, 0x39, 0x3C, 0x3F, 0x42, 0x45, 0x48,
        0x4B,
    ];
    for pad in 0..16u8 {
        assert_eq!(driver.pad_to_led(pad), Some(expected[pad as usize]));
        assert!(driver.is_rgb_led(expected[pad as usize]));
    }
}

#[test]
fn button_leds_are_distinct_slots_of_the_table() {
    let driver = MaschineMikroMk2::new();
    let mut seen: Vec<u8> = Vec::new();
    for slot in 1..0x20u8 {
        let button = driver.as_device_button(slot);
        if let Some(led) = driver.button_to_led(button) {
            assert!(led < 78);
            assert!(!seen.contains(&led));
            assert_ne!(led, LED_SHIFT);
            seen.push(led);
        }
    }
    assert_eq!(seen.len(), 27);
    assert_eq!(driver.button_to_led(Button::F1), Some(0x00));
    assert_eq!(driver.button_to_led(Button::Group), Some(0x08));
    assert_eq!(driver.button_to_led(Button::Erase), Some(0x14));
    assert_eq!(driver.button_to_led(Button::Mute), Some(0x1D));
}

#[test]
fn only_group_and_pads_are_rgb() {
    let driver = MaschineMikroMk2::new();
    assert!(driver.is_rgb_led(0x08));
    assert!(driver.is_rgb_led(0x1E));
    assert!(driver.is_rgb_led(0x4B));
    assert!(!driver.is_rgb_led(0x07));
    assert!(!driver.is_rgb_led(0x0B));
    assert!(!driver.is_rgb_led(0x1D));
    assert!(!driver.is_rgb_led(0x4C));
}

#[test]
fn led_report_is_the_address_and_the_table() {
    let mut driver = MaschineMikroMk2::new();
    driver.set_button_led(Button::F1, Colour::white());
    let report = driver.led_report();
    assert_eq!(report.len(), 79);
    assert_eq!(report[0], 0x80);
    assert_eq!(report[1], 0xFF);
    assert!(report[2..].iter().all(|&b| b == 0));
}

#[test]
fn frame_report_has_header_and_two_rows() {
    let mut driver = MaschineMikroMk2::new();
    driver.display.fill_row(4, Pixel::On);
    driver.display.set_pixel(0, 0, Pixel::On);
    for chunk in 0..4u8 {
        let report = driver.frame_report(chunk);
        assert_eq!(report.len(), 265);
        assert_eq!(&report[..9], &[0xE0, 0x00, 0x00, 2 * chunk, 0x00, 0x80, 0x00, 0x02, 0x00][..]);
        let start = 256 * chunk as usize;
        assert_eq!(&report[9..], &driver.display.data()[start..start + 256]);
    }
    assert_eq!(driver.frame_report(0)[9], 0x01);
    assert!(driver.frame_report(2)[9..9 + 128].iter().all(|&b| b == 0xFF));
    assert!(driver.frame_report(2)[9 + 128..].iter().all(|&b| b == 0x00));
}

#[test]
fn display_phase_sends_four_chunks_then_clears_the_flag() {
    let mut driver = MaschineMikroMk2::new();
    let mut context = EventContext::new();
    let mut request = driver.step(Reply::Start, &mut context);
    for chunk in 0..4u8 {
        assert_eq!(driver.stage(), Stage::Frame(chunk));
        assert!(driver.display.is_dirty());
        assert_eq!(request, Request::Write(driver.frame_report(chunk)));
        request = driver.step(Reply::Written, &mut context);
    }
    assert_eq!(request, Request::Done(Ok(())));
    assert!(!driver.display.is_dirty());
    assert_eq!(driver.tick_state(), 1);
    assert_eq!(driver.stage(), Stage::Idle);
}

#[test]
fn clean_display_sends_nothing() {
    let mut driver = MaschineMikroMk2::new();
    driver.display.clear_dirty_flag();
    let mut context = EventContext::new();
    assert_eq!(driver.step(Reply::Start, &mut context), Request::Done(Ok(())));
    assert_eq!(driver.tick_state(), 1);
}

#[test]
fn failure_in_the_frame_keeps_the_display_dirty() {
    let mut driver = MaschineMikroMk2::new();
    let mut context = EventContext::new();
    driver.step(Reply::Start, &mut context);
    driver.step(Reply::Written, &mut context);
    assert_eq!(driver.step(Reply::Failed, &mut context), Request::Done(Err(Error::Transport)));
    assert!(driver.display.is_dirty());
    assert_eq!(driver.stage(), Stage::Idle);
    assert_eq!(driver.tick_state(), 1);
    driver.step(Reply::Start, &mut context);
    driver.step(Reply::Written, &mut context);
    assert_eq!(driver.step(Reply::Start, &mut context), Request::Read);
    for _ in 0..32 {
        driver.step(Reply::Received(0, vec![0u8; 512]), &mut context);
    }
    assert_eq!(driver.tick_state(), 0);
    assert_eq!(driver.step(Reply::Start, &mut context), Request::Write(driver.frame_report(0)));
}

#[test]
fn led_phase_sends_one_report_then_clears_the_flag() {
    let mut driver = MaschineMikroMk2::new();
    driver.display.clear_dirty_flag();
    let mut context = EventContext::new();
    driver.step(Reply::Start, &mut context);
    driver.set_button_led(Button::Solo, Colour::white());
    let request = driver.step(Reply::Start, &mut context);
    assert_eq!(request, Request::Write(driver.led_report()));
    assert_eq!(driver.stage(), Stage::Leds);
    assert!(driver.is_leds_dirty());
    assert_eq!(driver.step(Reply::Written, &mut context), Request::Done(Ok(())));
    assert!(!driver.is_leds_dirty());
    assert_eq!(driver.tick_state(), 2);
}

#[test]
fn failure_in_the_led_phase_keeps_the_table_dirty() {
    let mut driver = MaschineMikroMk2::new();
    driver.display.clear_dirty_flag();
    let mut context = EventContext::new();
    driver.step(Reply::Start, &mut context);
    driver.step(Reply::Start, &mut context);
    assert_eq!(driver.step(Reply::Failed, &mut context), Request::Done(Err(Error::Transport)));
    assert!(driver.is_leds_dirty());
    assert_eq!(driver.tick_state(), 2);
}

#[test]
fn clean_led_table_sends_nothing() {
    let mut driver = MaschineMikroMk2::new();
    finish_first_two_phases(&mut driver);
    let mut context = EventContext::new();
    for _ in 0..32 {
        driver.step(Reply::Start, &mut context);
        while driver.stage() != Stage::Idle {
            driver.step(Reply::Received(0, Vec::new()), &mut context);
        }
        if driver.tick_state() == 1 {
            break;
        }
        driver.display.clear_dirty_flag();
    }
    assert_eq!(driver.tick_state(), 1);
    assert_eq!(driver.step(Reply::Start, &mut context), Request::Done(Ok(())));
    assert_eq!(driver.tick_state(), 2);
}

#[test]
fn poll_phase_reads_thirty_two_times() {
    let mut driver = MaschineMikroMk2::new();
    finish_first_two_phases(&mut driver);
    let mut context = EventContext::new();
    assert_eq!(driver.step(Reply::Start, &mut context), Request::Read);
    for attempt in 0..31u8 {
        assert_eq!(driver.stage(), Stage::Poll(attempt));
        let mut buffer = vec![0u8; 512];
        buffer[0] = 0x01;
        buffer[5] = attempt % 16;
        assert_eq!(driver.step(Reply::Received(6, buffer), &mut context), Request::Read);
    }
    assert_eq!(driver.stage(), Stage::Poll(31));
    assert_eq!(
        driver.step(Reply::Received(0, vec![0u8; 512]), &mut context),
        Request::Done(Ok(()))
    );
    assert_eq!(driver.tick_state(), 0);
    assert_eq!(driver.stage(), Stage::Idle);
    assert_eq!(context.events.len(), 30);
}

#[test]
fn pad_reports_are_taken_on_every_seventh_attempt() {
    let mut driver = MaschineMikroMk2::new();
    finish_first_two_phases(&mut driver);
    let mut context = EventContext::new();
    driver.step(Reply::Start, &mut context);
    let mut taken: Vec<u8> = Vec::new();
    for attempt in 0..32u8 {
        let mut buffer = vec![0u8; 512];
        buffer[0] = 0x20;
        for channel in 0..16u8 {
            buffer[2 + 2 * channel as usize] = channel << 4;
        }
        buffer[1] = 0xFF;
        buffer[2] = 0x0F;
        driver.step(Reply::Received(33, buffer), &mut context);
        if !context.events.is_empty() {
            assert_eq!(drain(&mut context), vec![Event::PadChange(0, 0xFF, false)]);
            taken.push(attempt);
        }
    }
    assert_eq!(taken, vec![0, 7, 14, 21, 28]);
}

#[test]
fn handle_report_drops_what_it_does_not_know() {
    let mut driver = MaschineMikroMk2::new();
    let mut context = EventContext::new();
    let mut buffer = vec![0xFFu8; 512];
    buffer[0] = 0x02;
    assert_eq!(driver.handle_report(0, 512, &buffer, &mut context), Ok(()));
    buffer[0] = 0x01;
    assert_eq!(driver.handle_report(0, 0, &buffer, &mut context), Ok(()));
    assert_eq!(driver.handle_report(0, 6, &[], &mut context), Ok(()));
    buffer[0] = 0x20;
    assert_eq!(driver.handle_report(1, 65, &buffer, &mut context), Ok(()));
    assert!(context.events.is_empty());
    assert!(!driver.is_shift_pressed());
    assert_eq!(driver.pad_state(15), Some((0, false)));
}

#[test]
fn handle_report_decodes_buttons_on_any_attempt() {
    let mut driver = MaschineMikroMk2::new();
    let mut context = EventContext::new();
    let buffer = [0x01u8, 0x00, 0x00, 0x00, 0x80, 0x00, 0xFF, 0xFF];
    assert_eq!(driver.handle_report(3, 6, &buffer, &mut context), Ok(()));
    assert_eq!(drain(&mut context), vec![Event::ButtonChange(Button::Scene, true, false)]);
}

#[test]
fn handle_report_refuses_short_reports() {
    let mut driver = MaschineMikroMk2::new();
    let mut context = EventContext::new();
    assert_eq!(
        driver.handle_report(0, 5, &[0x01, 0xFF, 0xFF, 0xFF, 0xFF], &mut context),
        Err(Error::InvalidReport)
    );
    let mut pads = vec![0xFFu8; 64];
    pads[0] = 0x20;
    assert_eq!(driver.handle_report(0, 64, &pads, &mut context), Err(Error::InvalidReport));
    assert_eq!(driver.handle_report(1, 64, &pads, &mut context), Ok(()));
    pads.push(0xFF);
    assert_eq!(driver.handle_report(7, 65, &pads, &mut context), Ok(()));
    assert_eq!(context.events.len(), 16);
}

#[test]
fn malformed_report_ends_the_poll_phase() {
    let mut driver = MaschineMikroMk2::new();
    finish_first_two_phases(&mut driver);
    let mut context = EventContext::new();
    driver.step(Reply::Start, &mut context);
    assert_eq!(
        driver.step(Reply::Received(3, vec![0x01, 0xFF, 0xFF]), &mut context),
        Request::Done(Err(Error::InvalidReport))
    );
    assert!(context.events.is_empty());
    assert_eq!(driver.stage(), Stage::Idle);
    assert_eq!(driver.tick_state(), 0);
}

#[test]
fn failure_in_the_poll_phase_ends_the_tick() {
    let mut driver = MaschineMikroMk2::new();
    finish_first_two_phases(&mut driver);
    let mut context = EventContext::new();
    driver.step(Reply::Start, &mut context);
    driver.step(Reply::Received(0, Vec::new()), &mut context);
    assert_eq!(driver.step(Reply::Failed, &mut context), Request::Done(Err(Error::Transport)));
    assert_eq!(driver.tick_state(), 0);
}

#[test]
fn reply_that_answers_nothing_ends_the_tick() {
    let mut driver = MaschineMikroMk2::new();
    let mut context = EventContext::new();
    assert_eq!(
        driver.step(Reply::Written, &mut context),
        Request::Done(Err(Error::UnknownControl))
    );
    assert_eq!(driver.tick_state(), 1);
    assert_eq!(
        driver.step(Reply::Received(6, vec![0x01, 0x02, 0, 0, 0, 0]), &mut context),
        Request::Done(Err(Error::UnknownControl))
    );
    assert!(context.events.is_empty());
    assert_eq!(driver.tick_state(), 2);
    driver.step(Reply::Start, &mut context);
    assert_eq!(
        driver.step(Reply::Written, &mut context),
        Request::Done(Err(Error::UnknownControl))
    );
    assert_eq!(driver.tick_state(), 0);
}

#[test]
fn phase_cycles_through_three_values() {
    let mut driver = MaschineMikroMk2::new();
    driver.display.clear_dirty_flag();
    let mut context = EventContext::new();
    let mut phases: Vec<u8> = Vec::new();
    for _ in 0..7 {
        phases.push(driver.tick_state());
        let mut request = driver.step(Reply::Start, &mut context);
        loop {
            request = match request {
                Request::Write(_) => driver.step(Reply::Written, &mut context),
                Request::Read => driver.step(Reply::Received(0, Vec::new()), &mut context),
                Request::Done(result) => {
                    assert_eq!(result, Ok(()));
                    break;
                }
            };
        }
    }
    assert_eq!(phases, vec![0, 1, 2, 0, 1, 2, 0]);
}

#[test]
fn replaced_display_is_reported_as_not_well_formed() {
    let mut driver = MaschineMikroMk2::new();
    driver.display = maschine::display::MonochromeCanvas::new(8, 8);
    assert!(!driver.is_well_formed());
}

#[test]
fn error_messages() {
    assert_eq!(Error::InvalidReport.message(), "Report is either two small or not parsable");
    assert_eq!(
        Error::UnknownControl.message(),
        "Unexpected control returned from hardware device"
    );
    assert_eq!(Error::Transport.message(), "Transfer to or from the device failed");
}
