//! Raw input records and the logical events derived from them.

use vstd::prelude::*;

verus! {

/// Event type of the miscellaneous records of the input subsystem.
pub const EV_MSC: u16 = 4;

/// Code of the miscellaneous record that carries a raw scancode.
pub const MSC_SCAN: u16 = 4;

/// Event type of the records that carry a change of a key's state.
pub const EV_KEY: u16 = 1;

/// Bits of a raw scan value that carry layer flags and no scancode.
pub const SCAN_FLAG_BITS: i32 = 0x70000;

/// One record as the input subsystem delivers it, without its timestamp.
#[derive(Clone, Copy, Debug, PartialEq, Eq, Structural)]
pub struct RawRecord {
    pub event_type: u16,
    pub code: u16,
    pub value: i32,
}

/// What a record means to the synchronizer.
#[derive(Clone, Copy, Debug, PartialEq, Eq, Structural)]
pub enum RecordKind {
    /// The record carries a raw scancode in its value.
    Scan,
    /// The record carries a press state in its value.
    Key,
    /// The record is of no interest.
    Other,
}

/// One button edge: which button, and whether it went down or up.
#[derive(Clone, Copy, Debug, PartialEq, Eq, Structural)]
pub struct LogicalEvent {
    pub scancode: u32,
    pub pressed: bool,
}

/// The scancode that a raw scan value stands for: the value without its
/// flag bits, reinterpreted as an unsigned number.
pub open spec fn scancode_of_value(value: i32) -> u32 {
    (value & !SCAN_FLAG_BITS) as u32
}

/// The press state that a raw key value stands for.
pub open spec fn pressed_of_value(value: i32) -> bool {
    value != 0
}

/// The logical event that a scan value and a key value form together.
pub open spec fn event_of_values(scan_value: i32, key_value: i32) -> LogicalEvent {
    LogicalEvent { scancode: scancode_of_value(scan_value), pressed: pressed_of_value(key_value) }
}

impl RawRecord {
    /// A record that carries a raw scancode.
    pub open spec fn is_scan(self) -> bool {
        self.event_type == EV_MSC && self.code == MSC_SCAN
    }

    /// A record that carries a press state, whatever key it names.
    pub open spec fn is_key(self) -> bool {
        self.event_type == EV_KEY
    }

    /// The kind of the record.
    pub open spec fn spec_kind(self) -> RecordKind {
        if self.is_scan() {
            RecordKind::Scan
        } else if self.is_key() {
            RecordKind::Key
        } else {
            RecordKind::Other
        }
    }

    /// Tells scan records, key records and all others apart.
    pub fn kind(&self) -> (kind: RecordKind)
        ensures
            kind == self.spec_kind(),
    {
        if self.event_type == EV_MSC && self.code == MSC_SCAN {
            RecordKind::Scan
        } else if self.event_type == EV_KEY {
            RecordKind::Key
        } else {
            RecordKind::Other
        }
    }

    /// The scancode carried by a scan record.
    pub fn scancode(&self) -> (scancode: u32)
        ensures
            scancode == scancode_of_value(self.value),
    {
        #[verifier::truncate]
        ((self.value & !SCAN_FLAG_BITS) as u32)
    }

    /// The press state carried by a key record.
    pub fn pressed(&self) -> (pressed: bool)
        ensures
            pressed == pressed_of_value(self.value),
    {
        self.value != 0
    }
}

} // verus!
