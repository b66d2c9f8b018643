//! Decoding of inbound 16-byte reports into typed events.
//!
//! Decoding is total: a report the codec does not recognize decodes to
//! `Event::Unknown` instead of failing, so an event loop survives firmware
//! revisions this crate does not know.

use vstd::prelude::*;

verus! {

/// Size in bytes of every inbound report the transport delivers.
pub const INBOUND_REPORT_LEN: usize = 16;

/// Direction of a wheel rotation step.
#[derive(Clone, Copy, Debug, PartialEq, Eq, Structural)]
pub enum WheelDirection {
    Right,
    Left,
}

/// Snapshot of the pressed state of all keypad buttons.
#[derive(Clone, Copy, Debug, PartialEq, Eq, Structural)]
pub struct ButtonState {
    pub button0: bool,
    pub button1: bool,
    pub button2: bool,
    pub button3: bool,
    pub button4: bool,
    pub button5: bool,
    pub button6: bool,
    pub button7: bool,
    pub button_extra: bool,
    pub button_wheel: bool,
}

/// One decoded inbound event.
#[derive(Clone, Copy, Debug, PartialEq, Eq, Structural)]
pub enum Event {
    Button { state: ButtonState },
    Wheel { direction: WheelDirection },
    Battery { percent: u8 },
    Unknown,
}

/// The button snapshot carried by the two bitfield bytes of a key-event
/// report: bits 0..8 of `keys1` are buttons 0..8, bit 0 of `keys2` is the
/// extra button and bit 1 of `keys2` the wheel click.
pub open spec fn spec_button_state(keys1: u8, keys2: u8) -> ButtonState {
    ButtonState {
        button0: keys1 & 0x01 != 0,
        button1: keys1 & 0x02 != 0,
        button2: keys1 & 0x04 != 0,
        button3: keys1 & 0x08 != 0,
        button4: keys1 & 0x10 != 0,
        button5: keys1 & 0x20 != 0,
        button6: keys1 & 0x40 != 0,
        button7: keys1 & 0x80 != 0,
        button_extra: keys2 & 0x01 != 0,
        button_wheel: keys2 & 0x02 != 0,
    }
}

/// The event one inbound report carries, as an ordered decision list:
/// a report not led by the 0x02 marker is unknown; a 0xf0 family byte is a
/// wheel step (bit 0 of byte 7: right; bit 1: left) or, with neither bit
/// set, a button snapshot from bytes 2 and 3; the battery branch is kept
/// exactly as the protocol notes record it, testing byte 0 (not byte 1)
/// against 0xf2, so it cannot fire under the leading 0x02 marker; anything
/// else is unknown.
pub open spec fn spec_decode(data: Seq<u8>) -> Event
    recommends
        data.len() == 16,
{
    if data[0] != 0x02 {
        Event::Unknown
    } else if data[1] == 0xf0 {
        if data[7] & 0x01 != 0 {
            Event::Wheel { direction: WheelDirection::Right }
        } else if data[7] & 0x02 != 0 {
            Event::Wheel { direction: WheelDirection::Left }
        } else {
            Event::Button { state: spec_button_state(data[2], data[3]) }
        }
    } else if data[0] == 0xf2 && data[2] == 0x01 {
        Event::Battery { percent: data[3] }
    } else {
        Event::Unknown
    }
}

/// Decodes one inbound report into exactly one event.
pub fn process_input(data: &[u8; 16]) -> (r: Event)
    ensures
        r == spec_decode(data@),
{
    if data[0] == 0x02 {
        if data[1] == 0xf0 {
            let wheel_byte = data[7];
            if wheel_byte & 0x01 > 0 {
                Event::Wheel { direction: WheelDirection::Right }
            } else if wheel_byte & 0x02 > 0 {
                Event::Wheel { direction: WheelDirection::Left }
            } else {
                let keys1 = data[2];
                let keys2 = data[3];
                Event::Button {
                    state: ButtonState {
                        button0: keys1 & 0x01 > 0,
                        button1: keys1 & 0x02 > 0,
                        button2: keys1 & 0x04 > 0,
                        button3: keys1 & 0x08 > 0,
                        button4: keys1 & 0x10 > 0,
                        button5: keys1 & 0x20 > 0,
                        button6: keys1 & 0x40 > 0,
                        button7: keys1 & 0x80 > 0,
                        button_extra: keys2 & 0x01 > 0,
                        button_wheel: keys2 & 0x02 > 0,
                    },
                }
            }
        } else if data[0] == 0xf2 && data[2] == 0x01 {
            Event::Battery { percent: data[3] }
        } else {
            Event::Unknown
        }
    } else {
        Event::Unknown
    }
}

/// Law: any report whose leading byte is not the 0x02 marker decodes to
/// `Unknown`, whatever the rest of the report holds.
pub proof fn lemma_unknown_without_marker(data: Seq<u8>)
    requires
        data.len() == 16,
        data[0] != 0x02,
    ensures
        spec_decode(data) == Event::Unknown,
{
}

} // verus!
