use evenger::codes::{BTN_TASK, EV_KEY, EV_LED, EV_REL, EV_SW, LED_CAPSL, REL_X};
use evenger::error::Error;
use evenger::event::{Event, EventTarget, InputEvent, Modifier, ReadStatus};
use evenger::srcdev::{ReadStep, SourceDevice};
use nix::errno::Errno;

fn mouse() -> SourceDevice {
    SourceDevice::new("mouse".to_string(), 7)
}

#[test]
fn event_target_keeps_class_and_code() {
    let target = EventTarget::new(EV_KEY, BTN_TASK);
    assert_eq!(target.type_(), EV_KEY);
    assert_eq!(target.code(), BTN_TASK);
    assert_eq!(target, EventTarget::new(1, 0x117));
    assert_ne!(target, EventTarget::new(0x117, 1));
}

#[test]
fn input_event_keeps_its_parts() {
    let ev = InputEvent::new(EV_REL, REL_X, -9);
    assert_eq!(ev.type_(), EV_REL);
    assert_eq!(ev.code(), REL_X);
    assert_eq!(ev.value(), -9);
}

#[test]
fn event_keeps_source_target_and_value() {
    let ev = Event::new("keyboard".to_string(), InputEvent::new(EV_KEY, 30, 1));
    assert_eq!(ev.srcdev_id(), "keyboard");
    assert_eq!(ev.target(), EventTarget::new(EV_KEY, 30));
    assert_eq!(ev.value(), 1);
}

#[test]
fn modifier_names_class_code_and_wanted_value() {
    assert_eq!(Modifier::Key(30, true).class(), EV_KEY);
    assert_eq!(Modifier::Led(LED_CAPSL, false).class(), EV_LED);
    assert_eq!(Modifier::Switch(2, true).class(), EV_SW);
    assert_eq!(Modifier::Key(30, true).code(), 30);
    assert_eq!(Modifier::Led(LED_CAPSL, false).code(), LED_CAPSL);
    assert_eq!(Modifier::Switch(2, true).code(), 2);
    assert_eq!(Modifier::Key(30, true).wanted(), 1);
    assert_eq!(Modifier::Led(LED_CAPSL, false).wanted(), 0);
    assert_eq!(Modifier::Switch(2, true).wanted(), 1);
}

#[test]
fn source_device_keeps_id_and_fd() {
    let dev = mouse();
    assert_eq!(dev.id(), "mouse");
    assert_eq!(dev.fd(), 7);
}

#[test]
fn untracked_state_is_unknown() {
    let dev = mouse();
    assert_eq!(dev.get_event_state(EV_KEY, BTN_TASK), None);
    assert_eq!(dev.match_modifier(Modifier::Key(BTN_TASK, true)), None);
    assert_eq!(dev.match_modifier(Modifier::Key(BTN_TASK, false)), None);
    assert_ne!(dev.match_modifier(Modifier::Key(BTN_TASK, true)), Some(false));
}

#[test]
fn tracked_state_answers_modifiers() {
    let mut dev = mouse();
    dev.set_event_state(EV_KEY, BTN_TASK, Some(1));
    assert_eq!(dev.get_event_state(EV_KEY, BTN_TASK), Some(1));
    assert_eq!(dev.match_modifier(Modifier::Key(BTN_TASK, true)), Some(true));
    assert_eq!(dev.match_modifier(Modifier::Key(BTN_TASK, false)), Some(false));
    dev.set_event_state(EV_KEY, BTN_TASK, Some(0));
    assert_eq!(dev.match_modifier(Modifier::Key(BTN_TASK, true)), Some(false));
    assert_eq!(dev.match_modifier(Modifier::Key(BTN_TASK, false)), Some(true));
    dev.set_event_state(EV_KEY, BTN_TASK, Some(2));
    assert_eq!(dev.match_modifier(Modifier::Key(BTN_TASK, true)), Some(false));
    assert_eq!(dev.match_modifier(Modifier::Key(BTN_TASK, false)), Some(false));
}

#[test]
fn states_of_different_classes_and_codes_are_apart() {
    let mut dev = mouse();
    dev.set_event_state(EV_KEY, 1, Some(1));
    dev.set_event_state(EV_LED, 1, Some(0));
    assert_eq!(dev.match_modifier(Modifier::Key(1, true)), Some(true));
    assert_eq!(dev.match_modifier(Modifier::Led(1, true)), Some(false));
    assert_eq!(dev.match_modifier(Modifier::Switch(1, true)), None);
    assert_eq!(dev.match_modifier(Modifier::Key(2, true)), None);
    assert_eq!(dev.get_event_state(0, 0x1_0000), None);
    dev.set_event_state(1, 0, Some(5));
    assert_eq!(dev.get_event_state(0, 0), None);
    assert_eq!(dev.get_event_state(1, 0), Some(5));
}

#[test]
fn state_can_become_untracked_again() {
    let mut dev = mouse();
    dev.set_event_state(EV_SW, 3, Some(1));
    assert_eq!(dev.match_modifier(Modifier::Switch(3, true)), Some(true));
    dev.set_event_state(EV_SW, 3, None);
    assert_eq!(dev.match_modifier(Modifier::Switch(3, true)), None);
}

#[test]
fn read_event_captures_an_ordinary_event() {
    let dev = mouse();
    let step = dev.read_event(Ok(ReadStatus::Success(InputEvent::new(EV_REL, REL_X, 3)))).unwrap();
    match step {
        ReadStep::Captured(ev) => {
            assert_eq!(ev.srcdev_id(), "mouse");
            assert_eq!(ev.target(), EventTarget::new(EV_REL, REL_X));
            assert_eq!(ev.value(), 3);
        }
        other => panic!("unexpected step {:?}", other),
    }
}

#[test]
fn read_event_discards_a_resync_marker() {
    let dev = mouse();
    let step = dev.read_event(Ok(ReadStatus::Sync(InputEvent::new(EV_REL, REL_X, 3)))).unwrap();
    assert!(matches!(step, ReadStep::Again));
}

#[test]
fn read_event_ends_when_nothing_is_available() {
    let dev = mouse();
    let step = dev.read_event(Ok(ReadStatus::TryAgain)).unwrap();
    assert!(matches!(step, ReadStep::Drained));
}

#[test]
fn read_event_reports_a_failed_read() {
    let dev = mouse();
    let r = dev.read_event(Err(Errno::ENODEV));
    assert!(matches!(r, Err(Error::Errno(Errno::ENODEV))));
}
