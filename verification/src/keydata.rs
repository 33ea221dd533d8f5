use vstd::prelude::*;

verus! {

/// A decoded keystroke: the character and the scan code.
#[derive(Clone, Copy, Debug, PartialEq, Eq, PartialOrd, Ord, Structural, Default)]
pub struct InputKey {
    pub unicode_char: u16,
    pub scan_code: u16,
}

/// Shift and toggle state exposed alongside a decoded keystroke.
#[derive(Clone, Copy, Debug, PartialEq, Eq, PartialOrd, Ord, Structural, Default)]
pub struct KeyState {
    pub key_shift_state: u32,
    pub key_toggle_state: u8,
}

/// A decoded key event: the keystroke plus the state it was composed under.
#[derive(Clone, Copy, Debug, PartialEq, Eq, PartialOrd, Ord, Structural, Default)]
pub struct KeyData {
    pub key: InputKey,
    pub key_state: KeyState,
}

/// `KeyData` wrapper whose derived ordering compares the character, then the
/// scan code, then the shift state, then the toggle state.
#[derive(Clone, Copy, Debug, PartialEq, Eq, PartialOrd, Ord, Structural)]
pub struct OrdKeyData(pub KeyData);

/// Whether a live event matches a registered notification pattern: character
/// and scan code must be equal, and each state word of the pattern is either
/// zero (wildcard) or equal to the event's.
pub open spec fn spec_matches_registered_key(event: KeyData, pattern: KeyData) -> bool {
    &&& event.key.unicode_char == pattern.key.unicode_char
    &&& event.key.scan_code == pattern.key.scan_code
    &&& (pattern.key_state.key_shift_state == 0
        || pattern.key_state.key_shift_state == event.key_state.key_shift_state)
    &&& (pattern.key_state.key_toggle_state == 0
        || pattern.key_state.key_toggle_state == event.key_state.key_toggle_state)
}

impl OrdKeyData {
    /// Returns whether the event in `self` matches the given registered
    /// pattern under the wildcard rule above.
    pub fn matches_registered_key(&self, registration: &Self) -> (r: bool)
        ensures
            r == spec_matches_registered_key(self.0, registration.0),
    {
        let event = &self.0;
        let pattern = &registration.0;
        if !(pattern.key.unicode_char == event.key.unicode_char
            && pattern.key.scan_code == event.key.scan_code) {
            return false;
        }
        if !(pattern.key_state.key_shift_state == 0
            || pattern.key_state.key_shift_state == event.key_state.key_shift_state) {
            return false;
        }
        if !(pattern.key_state.key_toggle_state == 0
            || pattern.key_state.key_toggle_state == event.key_state.key_toggle_state) {
            return false;
        }
        true
    }
}

/// Whether any pattern in the sequence matches the event.
pub open spec fn spec_any_pattern_matches(patterns: Seq<KeyData>, event: KeyData) -> bool {
    exists|i: int| 0 <= i < patterns.len() && spec_matches_registered_key(event, patterns[i])
}

} // verus!
