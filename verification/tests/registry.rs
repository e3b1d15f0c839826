use evenger::codes::{BTN_TASK, EV_KEY, EV_LED, LED_CAPSL};
use evenger::error::Error;
use evenger::event::Modifier;
use evenger::registry::SourceDeviceSet;
use evenger::srcdev::SourceDevice;

fn dev(id: &str, fd: i32) -> SourceDevice {
    SourceDevice::new(id.to_string(), fd)
}

fn both() -> SourceDeviceSet {
    let mut set = SourceDeviceSet::new();
    set.push(dev("mouse", 3)).unwrap();
    set.push(dev("keyboard", 4)).unwrap();
    set
}

fn consistent(set: &SourceDeviceSet, ids: &[&str], fds: &[i32]) -> bool {
    ids.iter().all(|id| match set.get_by_id(&id.to_string()) {
        Some(d) => {
            d.id() == *id
                && match set.get_by_fd(d.fd()) {
                    Some(e) => e.id() == *id,
                    None => false,
                }
        }
        None => true,
    }) && fds.iter().all(|fd| match set.get_by_fd(*fd) {
        Some(d) => {
            d.fd() == *fd
                && match set.get_by_id(&d.id()) {
                    Some(e) => e.fd() == *fd,
                    None => false,
                }
        }
        None => true,
    })
}

#[test]
fn new_registry_is_empty() {
    let set = SourceDeviceSet::new();
    assert_eq!(set.len(), 0);
    assert!(set.get_by_fd(0).is_none());
    assert!(set.get_by_id(&"mouse".to_string()).is_none());
}

#[test]
fn push_enters_both_indexes() {
    let set = both();
    assert_eq!(set.len(), 2);
    assert_eq!(set.get_by_fd(3).unwrap().id(), "mouse");
    assert_eq!(set.get_by_fd(4).unwrap().id(), "keyboard");
    assert_eq!(set.get_by_id(&"mouse".to_string()).unwrap().fd(), 3);
    assert_eq!(set.get_by_id(&"keyboard".to_string()).unwrap().fd(), 4);
    assert!(set.get_by_fd(5).is_none());
    assert!(set.get_by_id(&"tablet".to_string()).is_none());
}

#[test]
fn push_rejects_a_registered_descriptor() {
    let mut set = both();
    let r = set.push(dev("tablet", 3));
    assert!(matches!(r, Err(Error::Message(m)) if m == "descriptor already registered"));
    assert_eq!(set.len(), 2);
    assert_eq!(set.get_by_fd(3).unwrap().id(), "mouse");
    assert!(set.get_by_id(&"tablet".to_string()).is_none());
}

#[test]
fn push_rejects_a_registered_name() {
    let mut set = both();
    let r = set.push(dev("mouse", 9));
    assert!(matches!(r, Err(Error::Message(m)) if m == "device name already registered"));
    assert_eq!(set.len(), 2);
    assert!(set.get_by_fd(9).is_none());
    assert_eq!(set.get_by_id(&"mouse".to_string()).unwrap().fd(), 3);
}

#[test]
fn remove_by_fd_leaves_both_indexes() {
    let mut set = both();
    let removed = set.remove_by_fd(3).unwrap();
    assert_eq!(removed.id(), "mouse");
    assert_eq!(removed.fd(), 3);
    assert_eq!(set.len(), 1);
    assert!(set.get_by_fd(3).is_none());
    assert!(set.get_by_id(&"mouse".to_string()).is_none());
    assert_eq!(set.get_by_id(&"keyboard".to_string()).unwrap().fd(), 4);
}

#[test]
fn remove_by_fd_of_unknown_descriptor_changes_nothing() {
    let mut set = both();
    assert!(set.remove_by_fd(77).is_none());
    assert_eq!(set.len(), 2);
    assert_eq!(set.get_by_id(&"mouse".to_string()).unwrap().fd(), 3);
    assert_eq!(set.get_by_id(&"keyboard".to_string()).unwrap().fd(), 4);
}

#[test]
fn removed_name_and_descriptor_can_be_registered_again() {
    let mut set = both();
    set.remove_by_fd(3);
    set.push(dev("mouse", 8)).unwrap();
    set.push(dev("tablet", 3)).unwrap();
    assert_eq!(set.len(), 3);
    assert_eq!(set.get_by_id(&"mouse".to_string()).unwrap().fd(), 8);
    assert_eq!(set.get_by_fd(3).unwrap().id(), "tablet");
}

#[test]
fn indexes_stay_consistent_over_pushes_and_removals() {
    let ids = ["mouse", "keyboard", "tablet", "pad"];
    let fds = [1, 2, 3, 4, 5];
    let mut set = SourceDeviceSet::new();
    assert!(consistent(&set, &ids, &fds));
    let _ = set.push(dev("mouse", 1));
    assert!(consistent(&set, &ids, &fds));
    let _ = set.push(dev("keyboard", 2));
    assert!(consistent(&set, &ids, &fds));
    let _ = set.push(dev("keyboard", 3));
    assert!(consistent(&set, &ids, &fds));
    let _ = set.push(dev("tablet", 1));
    assert!(consistent(&set, &ids, &fds));
    set.remove_by_fd(1);
    assert!(consistent(&set, &ids, &fds));
    let _ = set.push(dev("tablet", 1));
    assert!(consistent(&set, &ids, &fds));
    set.remove_by_fd(5);
    assert!(consistent(&set, &ids, &fds));
    let _ = set.push(dev("pad", 5));
    let _ = set.push(dev("mouse", 4));
    assert!(consistent(&set, &ids, &fds));
    set.remove_by_fd(2);
    set.remove_by_fd(2);
    assert!(consistent(&set, &ids, &fds));
    assert_eq!(set.len(), 3);
    assert_eq!(set.get_by_id(&"tablet".to_string()).unwrap().fd(), 1);
    assert_eq!(set.get_by_id(&"pad".to_string()).unwrap().fd(), 5);
    assert_eq!(set.get_by_id(&"mouse".to_string()).unwrap().fd(), 4);
    assert!(set.get_by_id(&"keyboard".to_string()).is_none());
}

#[test]
fn set_event_state_reaches_the_registered_device() {
    let mut set = both();
    assert!(set.set_event_state(3, EV_KEY, BTN_TASK, Some(1)));
    assert_eq!(set.get_by_fd(3).unwrap().get_event_state(EV_KEY, BTN_TASK), Some(1));
    assert_eq!(set.get_by_fd(4).unwrap().get_event_state(EV_KEY, BTN_TASK), None);
    assert_eq!(set.get_by_id(&"mouse".to_string()).unwrap().fd(), 3);
    assert!(set.set_event_state(3, EV_KEY, BTN_TASK, None));
    assert_eq!(set.get_by_fd(3).unwrap().get_event_state(EV_KEY, BTN_TASK), None);
    assert!(!set.set_event_state(9, EV_KEY, BTN_TASK, Some(1)));
    assert_eq!(set.len(), 2);
}

#[test]
fn test_modifier_of_a_named_device() {
    let mut set = both();
    let mouse = "mouse".to_string();
    let keyboard = "keyboard".to_string();
    let tablet = "tablet".to_string();
    let held = Modifier::Key(BTN_TASK, true);
    assert!(!set.test_modifier(Some(&mouse), held));
    set.set_event_state(3, EV_KEY, BTN_TASK, Some(1));
    assert!(set.test_modifier(Some(&mouse), held));
    assert!(!set.test_modifier(Some(&mouse), Modifier::Key(BTN_TASK, false)));
    assert!(!set.test_modifier(Some(&keyboard), held));
    assert!(!set.test_modifier(Some(&tablet), held));
    set.set_event_state(3, EV_KEY, BTN_TASK, Some(0));
    assert!(!set.test_modifier(Some(&mouse), held));
    assert!(set.test_modifier(Some(&mouse), Modifier::Key(BTN_TASK, false)));
}

#[test]
fn test_modifier_of_any_device() {
    let mut set = both();
    let led = Modifier::Led(LED_CAPSL, true);
    assert!(!set.test_modifier(None, led));
    set.set_event_state(3, EV_LED, LED_CAPSL, Some(0));
    assert!(!set.test_modifier(None, led));
    set.set_event_state(4, EV_LED, LED_CAPSL, Some(1));
    assert!(set.test_modifier(None, led));
    assert!(set.test_modifier(None, Modifier::Led(LED_CAPSL, false)));
    set.remove_by_fd(4);
    assert!(!set.test_modifier(None, led));
    assert!(!SourceDeviceSet::new().test_modifier(None, led));
}
