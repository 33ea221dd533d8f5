use uefi_hid_core::key_queue::{KeyQueue, KeyAction};
use uefi_hid_core::keydata::{KeyData, OrdKeyData};
use uefi_hid_core::keys::{
    SHIFT_STATE_VALID, LEFT_SHIFT_PRESSED, TOGGLE_STATE_VALID, CAPS_LOCK_ACTIVE,
    NS_KEY_MODIFIER, NS_KEY_DEPENDENCY_MODIFIER, AFFECTED_BY_STANDARD_SHIFT,
    AFFECTED_BY_CAPS_LOCK, EfiKey, SCAN_DOWN,
};
use uefi_hid_core::layout::{HiiKey, HiiKeyDescriptor, HiiNsKeyDescriptor};
use uefi_hid_core::default_layout::get_default_keyboard_layout;

fn key_descriptor(
    key: EfiKey, unicode: char, shifted: char, modifier: u16, affected: u16,
) -> HiiKeyDescriptor {
    HiiKeyDescriptor {
        key,
        unicode: unicode as u16,
        shifted_unicode: shifted as u16,
        alt_gr_unicode: 0,
        shifted_alt_gr_unicode: 0,
        modifier,
        affected_attribute: affected,
    }
}

#[test]
fn test_ord_key_comparisons() {
    let mut key_data1: KeyData = Default::default();
    let mut key_data2: KeyData = Default::default();

    assert_eq!(OrdKeyData(key_data1), OrdKeyData(key_data2));
    key_data1.key.unicode_char = 'a' as u16;
    assert_ne!(OrdKeyData(key_data1), OrdKeyData(key_data2));
    key_data2.key.unicode_char = 'a' as u16;
    assert_eq!(OrdKeyData(key_data1), OrdKeyData(key_data2));

    key_data1.key.scan_code = SCAN_DOWN;
    assert_ne!(OrdKeyData(key_data1), OrdKeyData(key_data2));
    key_data2.key.scan_code = SCAN_DOWN;
    assert_eq!(OrdKeyData(key_data1), OrdKeyData(key_data2));

    key_data1.key_state.key_shift_state = SHIFT_STATE_VALID | LEFT_SHIFT_PRESSED;
    assert_ne!(OrdKeyData(key_data1), OrdKeyData(key_data2));
    key_data2.key_state.key_shift_state = SHIFT_STATE_VALID | LEFT_SHIFT_PRESSED;
    assert_eq!(OrdKeyData(key_data1), OrdKeyData(key_data2));

    key_data1.key_state.key_toggle_state = TOGGLE_STATE_VALID | CAPS_LOCK_ACTIVE;
    assert_ne!(OrdKeyData(key_data1), OrdKeyData(key_data2));
    key_data2.key_state.key_toggle_state = TOGGLE_STATE_VALID | CAPS_LOCK_ACTIVE;
    assert_eq!(OrdKeyData(key_data1), OrdKeyData(key_data2));

    assert_eq!(
        OrdKeyData(key_data1).partial_cmp(&OrdKeyData(key_data2)),
        Some(core::cmp::Ordering::Equal)
    );
}

#[test]
fn test_ns_keystroke() {
    let mut key_queue = KeyQueue::default();

    let mut ns_key_layout = get_default_keyboard_layout();
    let keys = &mut ns_key_layout.keys;

    let index = keys
        .iter()
        .position(|element| {
            if let HiiKey::Key(key) = element { key.key == EfiKey::E0 } else { false }
        })
        .unwrap();

    let ns_key = HiiKey::NsKey(HiiNsKeyDescriptor {
        descriptor: key_descriptor(EfiKey::E0, '\0', '\0', NS_KEY_MODIFIER, 0),
        dependent_keys: vec![
            key_descriptor(EfiKey::C1, '\u{00E2}', '\u{00C2}', NS_KEY_DEPENDENCY_MODIFIER,
                AFFECTED_BY_STANDARD_SHIFT | AFFECTED_BY_CAPS_LOCK),
            key_descriptor(EfiKey::D3, '\u{00EA}', '\u{00CA}', NS_KEY_DEPENDENCY_MODIFIER,
                AFFECTED_BY_STANDARD_SHIFT | AFFECTED_BY_CAPS_LOCK),
            key_descriptor(EfiKey::D8, '\u{00EC}', '\u{00CC}', NS_KEY_DEPENDENCY_MODIFIER,
                AFFECTED_BY_STANDARD_SHIFT | AFFECTED_BY_CAPS_LOCK),
            key_descriptor(EfiKey::D9, '\u{00F4}', '\u{00D4}', NS_KEY_DEPENDENCY_MODIFIER,
                AFFECTED_BY_STANDARD_SHIFT | AFFECTED_BY_CAPS_LOCK),
            key_descriptor(EfiKey::D7, '\u{00FB}', '\u{00CB}', NS_KEY_DEPENDENCY_MODIFIER,
                AFFECTED_BY_STANDARD_SHIFT | AFFECTED_BY_CAPS_LOCK),
        ],
    });
    keys[index] = ns_key;

    key_queue.set_layout(Some(ns_key_layout));

    let key: u32 = 0x00070035; // the E0 position
    let reset = key_queue.keystroke(key, KeyAction::KeyDown);
    assert!(!reset);
    key_queue.keystroke(key, KeyAction::KeyUp);

    // the non-spacing key produces nothing by itself
    assert!(key_queue.peek_key().is_none());

    let key: u32 = 0x00070004; // the C1 position
    key_queue.keystroke(key, KeyAction::KeyDown);
    key_queue.keystroke(key, KeyAction::KeyUp);

    let stroke = key_queue.pop_key().unwrap();
    assert_eq!(stroke.key.unicode_char, '\u{00E2}' as u16);
}
