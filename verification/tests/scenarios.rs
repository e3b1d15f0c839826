use evenger::codes::{
    BTN_TASK, EV_KEY, EV_LED, EV_REL, EV_SYN, KEY_CAPSLOCK, KEY_LEFTSHIFT, LED_CAPSL, REL_HWHEEL,
    REL_X, REL_Y, SYN_REPORT,
};
use evenger::destdev::OutputEvent;
use evenger::error::Error;
use evenger::evenger::{Evenger, Phase, Request};
use evenger::event::{Event, InputEvent, ReadStatus};
use evenger::muxer::{MuxerEvent, MuxerEvents, EPOLLHUP, EPOLLIN};

const MOUSE_FD: i32 = 5;
const KEYBOARD_FD: i32 = 6;

fn engine_with_both() -> Evenger {
    let mut engine = Evenger::new();
    engine.open_device("mouse".to_string(), MOUSE_FD).unwrap();
    engine.open_device("keyboard".to_string(), KEYBOARD_FD).unwrap();
    engine
}

fn event(source: &str, type_: u32, code: u32, value: i32) -> Event {
    Event::new(source.to_string(), InputEvent::new(type_, code, value))
}

fn out(type_: u32, code: u32, value: i32) -> OutputEvent {
    OutputEvent { type_, code, value }
}

/// Writes out what the engine has pending, every write succeeding.
fn flush(engine: &mut Evenger) -> Vec<OutputEvent> {
    let mut written = Vec::new();
    while let Some(event) = engine.pending_write() {
        written.push(event);
        engine.on_written(Ok(())).unwrap();
    }
    written
}

fn batch(events: &[MuxerEvent]) -> MuxerEvents {
    let mut batch = MuxerEvents::new();
    for ev in events {
        assert!(batch.push(*ev));
    }
    batch
}

#[test]
fn task_button_turns_vertical_motion_into_wheel_steps() {
    let mut engine = engine_with_both();
    assert!(engine.set_event_state(MOUSE_FD, EV_KEY, BTN_TASK, Some(1)));
    engine.translate_event(&event("mouse", EV_REL, REL_Y, -32)).unwrap();
    assert_eq!(flush(&mut engine), vec![out(EV_REL, REL_HWHEEL, 2)]);
}

#[test]
fn vertical_motion_passes_through_without_task_button() {
    let mut engine = engine_with_both();
    assert!(engine.set_event_state(MOUSE_FD, EV_KEY, BTN_TASK, Some(0)));
    engine.translate_event(&event("mouse", EV_REL, REL_Y, -32)).unwrap();
    assert_eq!(flush(&mut engine), vec![out(EV_REL, REL_Y, -32)]);
}

#[test]
fn vertical_motion_passes_through_when_task_button_is_unknown() {
    let mut engine = engine_with_both();
    engine.translate_event(&event("mouse", EV_REL, REL_Y, 7)).unwrap();
    assert_eq!(flush(&mut engine), vec![out(EV_REL, REL_Y, 7)]);
}

#[test]
fn small_wheel_motion_accumulates_across_events() {
    let mut engine = engine_with_both();
    engine.set_event_state(MOUSE_FD, EV_KEY, BTN_TASK, Some(1));
    engine.translate_event(&event("mouse", EV_REL, REL_Y, -10)).unwrap();
    assert_eq!(flush(&mut engine), vec![]);
    engine.translate_event(&event("mouse", EV_REL, REL_Y, -10)).unwrap();
    assert_eq!(flush(&mut engine), vec![out(EV_REL, REL_HWHEEL, 1)]);
    engine.translate_event(&event("mouse", EV_REL, REL_Y, 40)).unwrap();
    assert_eq!(flush(&mut engine), vec![out(EV_REL, REL_HWHEEL, -2)]);
}

#[test]
fn capslock_down_is_suppressed_while_led_is_on() {
    let mut engine = engine_with_both();
    engine.set_event_state(KEYBOARD_FD, EV_LED, LED_CAPSL, Some(1));
    engine.translate_event(&event("keyboard", EV_KEY, KEY_CAPSLOCK, 1)).unwrap();
    assert_eq!(flush(&mut engine), vec![]);
    engine.translate_event(&event("keyboard", EV_KEY, KEY_CAPSLOCK, 0)).unwrap();
    assert_eq!(flush(&mut engine), vec![out(EV_KEY, KEY_CAPSLOCK, 0)]);
}

#[test]
fn capslock_down_passes_through_while_led_is_off() {
    let mut engine = engine_with_both();
    engine.set_event_state(KEYBOARD_FD, EV_LED, LED_CAPSL, Some(0));
    engine.translate_event(&event("keyboard", EV_KEY, KEY_CAPSLOCK, 1)).unwrap();
    assert_eq!(flush(&mut engine), vec![out(EV_KEY, KEY_CAPSLOCK, 1)]);
}

#[test]
fn left_shift_pulses_capslock_while_led_is_on() {
    for value in [0, 1, 2] {
        let mut engine = engine_with_both();
        engine.set_event_state(KEYBOARD_FD, EV_LED, LED_CAPSL, Some(1));
        engine.translate_event(&event("keyboard", EV_KEY, KEY_LEFTSHIFT, value)).unwrap();
        assert_eq!(
            flush(&mut engine),
            vec![
                out(EV_KEY, KEY_CAPSLOCK, 1),
                out(EV_KEY, KEY_CAPSLOCK, 0),
                out(EV_KEY, KEY_LEFTSHIFT, value),
            ]
        );
    }
}

#[test]
fn left_shift_passes_through_while_led_is_off() {
    let mut engine = engine_with_both();
    engine.translate_event(&event("keyboard", EV_KEY, KEY_LEFTSHIFT, 1)).unwrap();
    assert_eq!(flush(&mut engine), vec![out(EV_KEY, KEY_LEFTSHIFT, 1)]);
}

#[test]
fn other_events_pass_through_unchanged() {
    let mut engine = Evenger::new();
    engine.translate_event(&event("mouse", EV_REL, REL_X, -3)).unwrap();
    assert_eq!(flush(&mut engine), vec![out(EV_REL, REL_X, -3)]);
    engine.translate_event(&event("mouse", EV_SYN, SYN_REPORT, 0)).unwrap();
    assert_eq!(flush(&mut engine), vec![out(EV_SYN, SYN_REPORT, 0)]);
}

#[test]
fn missing_mouse_is_reported() {
    let mut engine = Evenger::new();
    engine.open_device("keyboard".to_string(), KEYBOARD_FD).unwrap();
    let r = engine.translate_event(&event("keyboard", EV_REL, REL_Y, 1));
    assert!(matches!(r, Err(Error::Message(m)) if m == "can't get device 'mouse'"));
    assert_eq!(flush(&mut engine), vec![]);
}

#[test]
fn missing_keyboard_is_reported() {
    let mut engine = Evenger::new();
    engine.open_device("mouse".to_string(), MOUSE_FD).unwrap();
    let r = engine.translate_event(&event("mouse", EV_KEY, KEY_CAPSLOCK, 1));
    assert!(matches!(r, Err(Error::Message(m)) if m == "can't get device 'keyboard'"));
    let r = engine.translate_event(&event("mouse", EV_KEY, KEY_LEFTSHIFT, 1));
    assert!(matches!(r, Err(Error::Message(m)) if m == "can't get device 'keyboard'"));
    assert_eq!(flush(&mut engine), vec![]);
}

#[test]
fn hangup_of_the_last_device_terminates_the_reactor() {
    let mut engine = Evenger::new();
    engine.open_device("mouse".to_string(), MOUSE_FD).unwrap();
    assert_eq!(engine.next_action().unwrap(), Request::Wait);
    engine.on_ready(batch(&[MuxerEvent::new(MOUSE_FD, EPOLLHUP)])).unwrap();
    assert_eq!(engine.next_action().unwrap(), Request::Exit);
    assert_eq!(engine.phase(), Phase::Terminated);
    assert_eq!(engine.srcdevs().len(), 0);
    assert_eq!(engine.next_action().unwrap(), Request::Exit);
}

#[test]
fn hangup_with_other_devices_left_keeps_the_reactor_running() {
    let mut engine = engine_with_both();
    engine.on_ready(batch(&[MuxerEvent::new(MOUSE_FD, EPOLLHUP)])).unwrap();
    assert_eq!(engine.next_action().unwrap(), Request::Wait);
    assert_eq!(engine.phase(), Phase::Waiting);
    assert_eq!(engine.srcdevs().len(), 1);
    assert!(engine.srcdevs().get_by_fd(MOUSE_FD).is_none());
    assert!(engine.srcdevs().get_by_fd(KEYBOARD_FD).is_some());
}

#[test]
fn readable_and_hungup_device_is_drained_before_it_is_removed() {
    let mut engine = Evenger::new();
    engine.open_device("mouse".to_string(), MOUSE_FD).unwrap();
    engine.on_ready(batch(&[MuxerEvent::new(MOUSE_FD, EPOLLIN | EPOLLHUP)])).unwrap();
    assert_eq!(engine.next_action().unwrap(), Request::Read(MOUSE_FD));
    engine
        .on_srcdev_ready(MOUSE_FD, Ok(ReadStatus::Success(InputEvent::new(EV_REL, REL_X, 4))))
        .unwrap();
    assert_eq!(engine.next_action().unwrap(), Request::Write(out(EV_REL, REL_X, 4)));
    engine.on_written(Ok(())).unwrap();
    assert_eq!(engine.next_action().unwrap(), Request::Read(MOUSE_FD));
    engine.on_srcdev_ready(MOUSE_FD, Ok(ReadStatus::TryAgain)).unwrap();
    assert_eq!(engine.next_action().unwrap(), Request::Write(out(EV_SYN, SYN_REPORT, 0)));
    assert_eq!(engine.srcdevs().len(), 1);
    engine.on_written(Ok(())).unwrap();
    assert_eq!(engine.srcdevs().len(), 0);
    assert_eq!(engine.next_action().unwrap(), Request::Exit);
    assert_eq!(engine.phase(), Phase::Terminated);
}

#[test]
fn left_shift_pulse_stops_at_the_first_failed_write() {
    let mut engine = engine_with_both();
    engine.set_event_state(KEYBOARD_FD, EV_LED, LED_CAPSL, Some(1));
    engine.translate_event(&event("keyboard", EV_KEY, KEY_LEFTSHIFT, 1)).unwrap();
    assert_eq!(engine.pending_write(), Some(out(EV_KEY, KEY_CAPSLOCK, 1)));
    let r = engine.on_written(Err(nix::errno::Errno::EIO));
    assert!(matches!(r, Err(Error::Errno(nix::errno::Errno::EIO))));
    assert_eq!(engine.pending_write(), None);
    assert_eq!(engine.destdev().is_pressed(KEY_CAPSLOCK), Some(false));
    engine.translate_event(&event("keyboard", EV_KEY, KEY_LEFTSHIFT, 0)).unwrap();
    assert_eq!(engine.pending_write(), Some(out(EV_KEY, KEY_CAPSLOCK, 1)));
    engine.on_written(Ok(())).unwrap();
    assert_eq!(engine.pending_write(), Some(out(EV_KEY, KEY_CAPSLOCK, 0)));
    let r = engine.on_written(Err(nix::errno::Errno::EIO));
    assert!(matches!(r, Err(Error::Errno(nix::errno::Errno::EIO))));
    assert_eq!(engine.pending_write(), None);
    assert_eq!(engine.destdev().is_pressed(KEY_CAPSLOCK), Some(true));
    engine.translate_event(&event("keyboard", EV_KEY, KEY_LEFTSHIFT, 1)).unwrap();
    assert_eq!(
        flush(&mut engine),
        vec![out(EV_KEY, KEY_CAPSLOCK, 0), out(EV_KEY, KEY_LEFTSHIFT, 1)]
    );
}

#[test]
fn failed_passthrough_is_described_and_nothing_else_changes() {
    let mut engine = engine_with_both();
    engine.translate_event(&event("mouse", EV_REL, REL_X, -3)).unwrap();
    let r = engine.on_written(Err(nix::errno::Errno::ENODEV));
    match r {
        Err(e) => {
            assert!(matches!(&e, Error::Description(d, cause)
                if d == "passthru failure (type=2 code=0 value=-3)"
                    && matches!(**cause, Error::Errno(nix::errno::Errno::ENODEV))));
            assert_eq!(
                e.describe(),
                "passthru failure (type=2 code=0 value=-3): ENODEV: No such device"
            );
        }
        Ok(()) => panic!("the failure was lost"),
    }
    assert_eq!(engine.pending_write(), None);
    engine.translate_event(&event("mouse", EV_REL, REL_X, 5)).unwrap();
    assert_eq!(flush(&mut engine), vec![out(EV_REL, REL_X, 5)]);
}

#[test]
fn failed_wheel_write_loses_the_motion_and_keeps_the_fraction() {
    let mut engine = engine_with_both();
    engine.set_event_state(MOUSE_FD, EV_KEY, BTN_TASK, Some(1));
    engine.translate_event(&event("mouse", EV_REL, REL_Y, -5)).unwrap();
    engine.translate_event(&event("mouse", EV_REL, REL_Y, -32)).unwrap();
    assert_eq!(engine.pending_write(), Some(out(EV_REL, REL_HWHEEL, 2)));
    let r = engine.on_written(Err(nix::errno::Errno::EIO));
    assert!(matches!(r, Err(Error::Errno(nix::errno::Errno::EIO))));
    assert_eq!(engine.destdev().accumulator(REL_HWHEEL), Some(5));
    engine.translate_event(&event("mouse", EV_REL, REL_Y, -11)).unwrap();
    assert_eq!(flush(&mut engine), vec![out(EV_REL, REL_HWHEEL, 1)]);
    assert_eq!(engine.destdev().accumulator(REL_HWHEEL), Some(0));
}

#[test]
fn translation_is_refused_while_a_write_is_pending() {
    let mut engine = engine_with_both();
    engine.translate_event(&event("mouse", EV_REL, REL_X, 1)).unwrap();
    let r = engine.translate_event(&event("mouse", EV_REL, REL_X, 2));
    assert!(matches!(r, Err(Error::Message(m)) if m == "a write awaits its outcome"));
    assert_eq!(flush(&mut engine), vec![out(EV_REL, REL_X, 1)]);
    let r = engine.on_written(Ok(()));
    assert!(matches!(r, Err(Error::Message(m)) if m == "no write awaits its outcome"));
}

#[test]
fn wheel_remap_consumes_the_motion_for_every_value() {
    for value in [-1000, -33, -16, -15, -1, 0, 1, 15, 16, 47, i32::MAX, i32::MIN] {
        let mut engine = engine_with_both();
        engine.set_event_state(MOUSE_FD, EV_KEY, BTN_TASK, Some(1));
        engine.translate_event(&event("mouse", EV_REL, REL_Y, value)).unwrap();
        let written = flush(&mut engine);
        let steps = ((-(value as i64)) / 16) as i32;
        if steps == 0 {
            assert_eq!(written, vec![]);
        } else {
            assert_eq!(written, vec![out(EV_REL, REL_HWHEEL, steps)]);
        }
        assert_eq!(
            engine.destdev().accumulator(REL_HWHEEL),
            Some(-(value as i64) - 16 * steps as i64)
        );
    }
}

#[test]
fn left_shift_pulses_again_on_the_next_event() {
    let mut engine = engine_with_both();
    engine.set_event_state(KEYBOARD_FD, EV_LED, LED_CAPSL, Some(1));
    for value in [1, 2, 0, 1] {
        engine.translate_event(&event("keyboard", EV_KEY, KEY_LEFTSHIFT, value)).unwrap();
        assert_eq!(
            flush(&mut engine),
            vec![
                out(EV_KEY, KEY_CAPSLOCK, 1),
                out(EV_KEY, KEY_CAPSLOCK, 0),
                out(EV_KEY, KEY_LEFTSHIFT, value),
            ]
        );
        assert_eq!(engine.destdev().is_pressed(KEY_CAPSLOCK), Some(false));
    }
}
