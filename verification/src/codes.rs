//! Event classes and event codes of the Linux input subsystem that the
//! remapping pipeline refers to by name.

use vstd::prelude::*;

verus! {

/// Event class: synchronisation markers.
pub const EV_SYN: u32 = 0x00;

/// Event class: keys and buttons.
pub const EV_KEY: u32 = 0x01;

/// Event class: relative axes.
pub const EV_REL: u32 = 0x02;

/// Event class: switches.
pub const EV_SW: u32 = 0x05;

/// Event class: LEDs.
pub const EV_LED: u32 = 0x11;

/// The atomic-commit marker that closes one batch of events.
pub const SYN_REPORT: u32 = 0;

pub const REL_X: u32 = 0x00;

pub const REL_Y: u32 = 0x01;

pub const REL_HWHEEL: u32 = 0x06;

pub const REL_WHEEL: u32 = 0x08;

pub const REL_WHEEL_HI_RES: u32 = 0x0b;

pub const REL_HWHEEL_HI_RES: u32 = 0x0c;

/// Number of relative-axis codes.
pub const REL_CNT: u32 = 0x10;

pub const KEY_LEFTSHIFT: u32 = 42;

pub const KEY_CAPSLOCK: u32 = 58;

pub const BTN_LEFT: u32 = 0x110;

pub const BTN_RIGHT: u32 = 0x111;

pub const BTN_MIDDLE: u32 = 0x112;

pub const BTN_SIDE: u32 = 0x113;

pub const BTN_EXTRA: u32 = 0x114;

pub const BTN_FORWARD: u32 = 0x115;

pub const BTN_BACK: u32 = 0x116;

pub const BTN_TASK: u32 = 0x117;

/// Number of key and button codes.
pub const KEY_CNT: u32 = 0x300;

pub const LED_CAPSL: u32 = 0x01;

/// First of the ordinary keyboard key codes that the synthetic device offers.
pub const KEY_FIRST: u32 = 1;

/// Last of the ordinary keyboard key codes that the synthetic device offers.
pub const KEY_LAST: u32 = 248;

} // verus!
