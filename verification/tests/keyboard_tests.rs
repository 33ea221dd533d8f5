use uefi_hid_core::hidparse::descriptor_info_from_bytes;
use uefi_hid_core::keyboard::KeyboardHidHandler;
use uefi_hid_core::keydata::KeyData;
use uefi_hid_core::status::EfiStatus;
use uefi_hid_core::default_layout::get_default_keyboard_layout;
use uefi_hid_core::keys::{
    SHIFT_STATE_VALID, LEFT_CONTROL_PRESSED, LEFT_ALT_PRESSED, RIGHT_LOGO_PRESSED,
    TOGGLE_STATE_VALID, CAPS_LOCK_ACTIVE, NUM_LOCK_ACTIVE, KEY_STATE_EXPOSED,
    SCAN_END,
};
use uefi_hid_core::fields::{FieldDef, ReportDescriptorInfo, ReportInfo, VariableFieldDef};

static BOOT_KEYBOARD_REPORT_DESCRIPTOR: &[u8] = &[
    0x05, 0x01, // USAGE_PAGE (Generic Desktop)
    0x09, 0x06, // USAGE (Keyboard)
    0xa1, 0x01, // COLLECTION (Application)
    0x75, 0x01, //    REPORT_SIZE (1)
    0x95, 0x08, //    REPORT_COUNT (8)
    0x05, 0x07, //    USAGE_PAGE (Key Codes)
    0x19, 0xE0, //    USAGE_MINIMUM (224)
    0x29, 0xE7, //    USAGE_MAXIMUM (231)
    0x15, 0x00, //    LOGICAL_MAXIMUM (0)
    0x25, 0x01, //    LOGICAL_MINIMUM (1)
    0x81, 0x02, //    INPUT (Data, Var, Abs) (Modifier Byte)
    0x95, 0x01, //    REPORT_COUNT (1)
    0x75, 0x08, //    REPORT_SIZE (8)
    0x81, 0x03, //    INPUT (Const) (Reserved Byte)
    0x95, 0x05, //    REPORT_COUNT (5)
    0x75, 0x01, //    REPORT_SIZE (1)
    0x05, 0x08, //    USAGE_PAGE (LEDs)
    0x19, 0x01, //    USAGE_MINIMUM (1)
    0x29, 0x05, //    USAGE_MAXIMUM (5)
    0x91, 0x02, //    OUTPUT (Data, Var, Abs) (LED report)
    0x95, 0x01, //    REPORT_COUNT (1)
    0x75, 0x03, //    REPORT_SIZE (3)
    0x91, 0x02, //    OUTPUT (Constant) (LED report padding)
    0x95, 0x06, //    REPORT_COUNT (6)
    0x75, 0x08, //    REPORT_SIZE (8)
    0x15, 0x00, //    LOGICAL_MINIMUM (0)
    0x26, 0xff, 00, //    LOGICAL_MAXIMUM (255)
    0x05, 0x07, //    USAGE_PAGE (Key Codes)
    0x19, 0x00, //    USAGE_MINIMUM (0)
    0x2a, 0xff, 00, //    USAGE_MAXIMUM (255)
    0x81, 0x00, //    INPUT (Data, Array)
    0xc0, // END_COLLECTION
];

static MOUSE_REPORT_DESCRIPTOR: &[u8] = &[
    0x05, 0x01, // USAGE_PAGE (Generic Desktop)
    0x09, 0x02, // USAGE (Mouse)
    0xa1, 0x01, // COLLECTION (Application)
    0x09, 0x01, //   USAGE(Pointer)
    0xa1, 0x00, //   COLLECTION (Physical)
    0x05, 0x09, //     USAGE_PAGE (Button)
    0x19, 0x01, //     USAGE_MINIMUM(1)
    0x29, 0x05, //     USAGE_MAXIMUM(5)
    0x15, 0x00, //     LOGICAL_MINIMUM(0)
    0x25, 0x01, //     LOGICAL_MAXIMUM(1)
    0x95, 0x05, //     REPORT_COUNT(5)
    0x75, 0x01, //     REPORT_SIZE(1)
    0x81, 0x02, //     INPUT(Data, Variable, Absolute)
    0x95, 0x01, //     REPORT_COUNT(1)
    0x75, 0x03, //     REPORT_SIZE(3)
    0x81, 0x01, //     INPUT(Constant, Array, Absolute)
    0x05, 0x01, //     USAGE_PAGE (Generic Desktop)
    0x09, 0x30, //     USAGE (X)
    0x09, 0x31, //     USAGE (Y)
    0x09, 0x38, //     USAGE (Wheel)
    0x15, 0x81, //     LOGICAL_MINIMUM (-127)
    0x25, 0x7f, //     LOGICAL_MAXIMUM (127)
    0x75, 0x08, //     REPORT_SIZE (8)
    0x95, 0x03, //     REPORT_COUNT (3)
    0x81, 0x06, //     INPUT(Data, Variable, Relative)
    0xc0, //   END_COLLECTION
    0xc0, // END_COLLECTION
];

fn ready_handler() -> KeyboardHidHandler {
    let mut handler = KeyboardHidHandler::new(1);
    handler.set_layout(Some(get_default_keyboard_layout()));
    let info = descriptor_info_from_bytes(BOOT_KEYBOARD_REPORT_DESCRIPTOR).unwrap();
    handler.initialize(2, &info).unwrap();
    handler
}

#[test]
fn keyboard_initialize_should_fail_for_unsupported_descriptors() {
    let mut keyboard_handler = KeyboardHidHandler::new(1);
    let info = descriptor_info_from_bytes(MOUSE_REPORT_DESCRIPTOR).unwrap();
    assert_eq!(keyboard_handler.initialize(2, &info), Err(EfiStatus::Unsupported));
}

#[test]
fn keyboard_initialization_should_succeed_for_supported_descriptors() {
    let mut keyboard_handler = KeyboardHidHandler::new(1);
    keyboard_handler.set_layout(Some(get_default_keyboard_layout()));
    let info = descriptor_info_from_bytes(BOOT_KEYBOARD_REPORT_DESCRIPTOR).unwrap();
    assert_eq!(keyboard_handler.initialize(2, &info), Ok(()));
}

#[test]
fn keyboard_should_process_input_reports() {
    let mut keyboard_handler = ready_handler();

    // press the 'a' key.
    let report: &[u8] = &[0x00, 0x00, 0x04, 0x00, 0x00, 0x00, 0x00, 0x00];
    keyboard_handler.receive_report(report);
    assert_eq!(keyboard_handler.pop_key().unwrap().key.unicode_char, 'a' as u16);
    assert!(keyboard_handler.peek_key().is_none());

    // press the 'shift' key while 'a' remains pressed.
    let report: &[u8] = &[0x02, 0x00, 0x04, 0x00, 0x00, 0x00, 0x00, 0x00];
    keyboard_handler.receive_report(report);
    assert!(keyboard_handler.peek_key().is_none());

    // holding the 'shift' key while releasing 'a'.
    let report: &[u8] = &[0x02, 0x00, 0x00, 0x00, 0x00, 0x00, 0x00, 0x00];
    keyboard_handler.receive_report(report);
    assert!(keyboard_handler.peek_key().is_none());

    // holding the 'shift' key while pressing 'a' again.
    let report: &[u8] = &[0x02, 0x00, 0x04, 0x00, 0x00, 0x00, 0x00, 0x00];
    keyboard_handler.receive_report(report);
    assert_eq!(keyboard_handler.pop_key().unwrap().key.unicode_char, 'A' as u16);
    assert!(keyboard_handler.peek_key().is_none());

    // release the 'shift' key, press the 'ctrl' key, continue pressing 'a', and press 'b'
    let report: &[u8] = &[0x01, 0x00, 0x04, 0x05, 0x00, 0x00, 0x00, 0x00];
    keyboard_handler.receive_report(report);
    let key_data = keyboard_handler.pop_key().unwrap();
    assert_eq!(key_data.key.unicode_char, 'b' as u16);
    assert_eq!(
        key_data.key_state.key_shift_state,
        SHIFT_STATE_VALID | LEFT_CONTROL_PRESSED
    );
    assert!(keyboard_handler.peek_key().is_none());

    // enable partial keystrokes
    keyboard_handler.set_key_toggle_state(KEY_STATE_EXPOSED);

    // release the 'ctrl' key, press 'alt', continue pressing 'a' and 'b'
    let report: &[u8] = &[0x04, 0x00, 0x04, 0x05, 0x00, 0x00, 0x00, 0x00];
    keyboard_handler.receive_report(report);
    let key_data = keyboard_handler.pop_key().unwrap();
    assert_eq!(key_data.key.unicode_char, 0);
    assert_eq!(key_data.key_state.key_shift_state, SHIFT_STATE_VALID | LEFT_ALT_PRESSED);
    assert!(keyboard_handler.peek_key().is_none());

    // release all the keys
    let report: &[u8] = &[0x00, 0x00, 0x00, 0x00, 0x00, 0x00, 0x00, 0x00];
    keyboard_handler.receive_report(report);
    assert!(keyboard_handler.peek_key().is_none());

    // press the right logo key
    let report: &[u8] = &[0x80, 0x00, 0x00, 0x00, 0x00, 0x00, 0x00, 0x00];
    keyboard_handler.receive_report(report);
    let key_data = keyboard_handler.pop_key().unwrap();
    assert_eq!(key_data.key.unicode_char, 0);
    assert_eq!(key_data.key_state.key_shift_state, SHIFT_STATE_VALID | RIGHT_LOGO_PRESSED);
    assert!(keyboard_handler.peek_key().is_none());

    // simulate rollover
    let report: &[u8] = &[0x00, 0x00, 0x01, 0x01, 0x01, 0x01, 0x01, 0x01];
    keyboard_handler.receive_report(report);
    assert!(keyboard_handler.peek_key().is_none());

    // pass some unsupported keys
    let report: &[u8] = &[0x00, 0x00, 0xF0, 0xF0, 0xF0, 0xF0, 0xF0, 0xF0];
    keyboard_handler.receive_report(report);
    assert!(keyboard_handler.peek_key().is_none());

    // try all possible modifiers and all possible keys and make sure nothing
    // panics; avoid the delete position, which would demand a reset under
    // control and alt
    for i in 0..0xFFu8 {
        if i == 0x4C || i == 0x63 {
            continue;
        }
        let report: &[u8] = &[i, 0x00, i, 0x00, 0x00, 0x00, 0x00, 0x00];
        let (reset, _leds) = keyboard_handler.receive_report(report);
        assert!(!reset);
    }
}

#[test]
fn reset_should_reset_keyboard() {
    let mut keyboard_handler = ready_handler();

    // buffer CapsLock + a, b, c
    let report: &[u8] = &[0x00, 0x00, 0x39, 0x04, 0x05, 0x06, 0x00, 0x00];
    let (reset, led_reports) = keyboard_handler.receive_report(report);
    assert!(!reset);
    assert!(keyboard_handler.peek_key().is_some());
    // caps-lock lit an LED
    assert_eq!(led_reports.len(), 1);
    assert_eq!(led_reports[0].1, vec![0x02]);

    keyboard_handler.reset(false);
    assert!(keyboard_handler.peek_key().is_none());
    // the lock modifier survives a plain reset, so the LED state is unchanged
    let (changed, _) = keyboard_handler.update_leds();
    assert!(!changed);

    let led_reports = keyboard_handler.reset(true);
    assert_eq!(led_reports.len(), 1);
    assert_eq!(led_reports[0].1, vec![0x00]);
}

#[test]
fn misc_functions_test() {
    let mut keyboard_handler = ready_handler();

    // press the 'a' key.
    let report: &[u8] = &[0x00, 0x00, 0x04, 0x00, 0x00, 0x00, 0x00, 0x00];
    keyboard_handler.receive_report(report);

    let peeked = keyboard_handler.peek_key().unwrap();
    let popped = keyboard_handler.pop_key().unwrap();
    assert_eq!(peeked, popped);

    // press capslock and release 'a' key
    let report: &[u8] = &[0x00, 0x00, 0x39, 0x00, 0x00, 0x00, 0x00, 0x00];
    keyboard_handler.receive_report(report);

    assert_eq!(
        keyboard_handler.get_key_state().key_toggle_state,
        TOGGLE_STATE_VALID | CAPS_LOCK_ACTIVE
    );

    keyboard_handler.set_key_toggle_state(KEY_STATE_EXPOSED | CAPS_LOCK_ACTIVE);
    assert_eq!(
        keyboard_handler.get_key_state().key_toggle_state,
        KEY_STATE_EXPOSED | TOGGLE_STATE_VALID | CAPS_LOCK_ACTIVE
    );

    assert_eq!(keyboard_handler.get_controller(), Some(2));
    assert_eq!(keyboard_handler.get_agent(), 1);
}

#[test]
fn insert_and_remove_key_notifies_should_update_key_notify_structures() {
    let mut keyboard_handler = ready_handler();

    let callback_one: usize = 101;
    let callback_two: usize = 102;

    let mut key_data: KeyData = Default::default();

    key_data.key.unicode_char = 'a' as u16;
    let handle = keyboard_handler.insert_key_notify_callback(key_data, callback_one);
    assert_eq!(handle, 1);

    key_data.key.unicode_char = 'b' as u16;
    let handle = keyboard_handler.insert_key_notify_callback(key_data, callback_one);
    assert_eq!(handle, 2);

    key_data.key.unicode_char = 'c' as u16;
    let handle = keyboard_handler.insert_key_notify_callback(key_data, callback_one);
    assert_eq!(handle, 3);
    // a second callback tied to the same key
    let handle = keyboard_handler.insert_key_notify_callback(key_data, callback_two);
    assert_eq!(handle, 4);

    // a registration that already exists keeps its handle
    key_data.key.unicode_char = 'a' as u16;
    let handle = keyboard_handler.insert_key_notify_callback(key_data, callback_one);
    assert_eq!(handle, 1);

    // press and release 'c'
    let report: &[u8] = &[0x00, 0x00, 0x06, 0x00, 0x00, 0x00, 0x00, 0x00];
    keyboard_handler.receive_report(report);
    let report: &[u8] = &[0x00, 0x00, 0x00, 0x00, 0x00, 0x00, 0x00, 0x00];
    keyboard_handler.receive_report(report);
    assert!(keyboard_handler.has_pending_notify());

    key_data.key.unicode_char = 'c' as u16;
    key_data.key_state.key_shift_state = SHIFT_STATE_VALID;
    key_data.key_state.key_toggle_state = TOGGLE_STATE_VALID;
    let (callback_key_data, callbacks) = keyboard_handler.get_pending_callbacks();
    assert_eq!(callback_key_data.unwrap(), key_data);
    assert!(callbacks.contains(&callback_one));
    assert!(callbacks.contains(&callback_two));

    let (callback_key_data, callbacks) = keyboard_handler.get_pending_callbacks();
    assert!(callback_key_data.is_none());
    assert!(callbacks.is_empty());

    // remove one of the 'c' callbacks and make sure the other still works
    keyboard_handler.remove_key_notify_callback(4).unwrap();

    // press and release 'a' and 'c'
    let report: &[u8] = &[0x00, 0x00, 0x04, 0x06, 0x00, 0x00, 0x00, 0x00];
    keyboard_handler.receive_report(report);
    let report: &[u8] = &[0x00, 0x00, 0x00, 0x00, 0x00, 0x00, 0x00, 0x00];
    keyboard_handler.receive_report(report);

    loop {
        let (callback_key_data, callbacks) = keyboard_handler.get_pending_callbacks();
        if let Some(callback_key_data) = callback_key_data {
            let ch = callback_key_data.key.unicode_char;
            assert!(ch == 'a' as u16 || ch == 'c' as u16);
            assert!(callbacks.contains(&callback_one));
        } else {
            break;
        }
    }

    // removing a handle never registered is an invalid parameter
    assert_eq!(
        keyboard_handler.remove_key_notify_callback(40),
        Err(EfiStatus::InvalidParameter)
    );

    // remove all the callbacks
    keyboard_handler.remove_key_notify_callback(1).unwrap();
    keyboard_handler.remove_key_notify_callback(2).unwrap();
    keyboard_handler.remove_key_notify_callback(3).unwrap();

    // press and release 'a', 'b' and 'c'
    let report: &[u8] = &[0x00, 0x00, 0x04, 0x05, 0x06, 0x00, 0x00, 0x00];
    keyboard_handler.receive_report(report);
    let report: &[u8] = &[0x00, 0x00, 0x00, 0x00, 0x00, 0x00, 0x00, 0x00];
    keyboard_handler.receive_report(report);

    let (callback_key_data, callbacks) = keyboard_handler.get_pending_callbacks();
    assert!(callback_key_data.is_none());
    assert!(callbacks.is_empty());
}

#[test]
fn simple_press_and_release_yields_one_plain_event() {
    let mut keyboard_handler = ready_handler();
    keyboard_handler.receive_report(&[0x00, 0x00, 0x04, 0x00, 0x00, 0x00, 0x00, 0x00]);
    keyboard_handler.receive_report(&[0x00, 0x00, 0x00, 0x00, 0x00, 0x00, 0x00, 0x00]);
    let ev = keyboard_handler.pop_key().unwrap();
    assert_eq!(ev.key.unicode_char, 'a' as u16);
    assert_eq!(ev.key.scan_code, 0);
    assert_eq!(ev.key_state.key_shift_state, SHIFT_STATE_VALID);
    assert_eq!(ev.key_state.key_toggle_state, TOGGLE_STATE_VALID);
    assert!(keyboard_handler.pop_key().is_none());
}

#[test]
fn shifted_letter_suppresses_the_shift_bit() {
    let mut keyboard_handler = ready_handler();
    keyboard_handler.receive_report(&[0x02, 0x00, 0x04, 0x00, 0x00, 0x00, 0x00, 0x00]);
    keyboard_handler.receive_report(&[0x00, 0x00, 0x00, 0x00, 0x00, 0x00, 0x00, 0x00]);
    let ev = keyboard_handler.pop_key().unwrap();
    assert_eq!(ev.key.unicode_char, 'A' as u16);
    assert_eq!(ev.key.scan_code, 0);
    // the left-shift-pressed bit is cleared because shift was applied
    assert_eq!(ev.key_state.key_shift_state, SHIFT_STATE_VALID);
    assert!(keyboard_handler.pop_key().is_none());
}

#[test]
fn control_b_folds_through_basic_read() {
    let mut keyboard_handler = ready_handler();
    keyboard_handler.receive_report(&[0x01, 0x00, 0x05, 0x00, 0x00, 0x00, 0x00, 0x00]);
    keyboard_handler.receive_report(&[0x00, 0x00, 0x00, 0x00, 0x00, 0x00, 0x00, 0x00]);
    let key = keyboard_handler.read_key().unwrap();
    assert_eq!(key.unicode_char, 0x02);
    assert_eq!(key.scan_code, 0);

    // the extended read reports the raw letter with the control bit set
    let mut keyboard_handler = ready_handler();
    keyboard_handler.receive_report(&[0x01, 0x00, 0x05, 0x00, 0x00, 0x00, 0x00, 0x00]);
    keyboard_handler.receive_report(&[0x00, 0x00, 0x00, 0x00, 0x00, 0x00, 0x00, 0x00]);
    let (status, key_data) = keyboard_handler.read_key_ex();
    assert_eq!(status, EfiStatus::Success);
    assert_eq!(key_data.key.unicode_char, 'b' as u16);
    assert_eq!(key_data.key.scan_code, 0);
    assert_eq!(key_data.key_state.key_shift_state, SHIFT_STATE_VALID | LEFT_CONTROL_PRESSED);
}

#[test]
fn numpad_follows_num_lock() {
    let mut keyboard_handler = ready_handler();
    // switch NumLock on
    keyboard_handler.receive_report(&[0x00, 0x00, 0x53, 0x00, 0x00, 0x00, 0x00, 0x00]);
    keyboard_handler.receive_report(&[0x00, 0x00, 0x00, 0x00, 0x00, 0x00, 0x00, 0x00]);
    // press numpad one
    keyboard_handler.receive_report(&[0x00, 0x00, 0x59, 0x00, 0x00, 0x00, 0x00, 0x00]);
    keyboard_handler.receive_report(&[0x00, 0x00, 0x00, 0x00, 0x00, 0x00, 0x00, 0x00]);
    let ev = keyboard_handler.pop_key().unwrap();
    assert_eq!(ev.key.unicode_char, '1' as u16);
    assert_eq!(ev.key.scan_code, 0);
    assert_eq!(ev.key_state.key_toggle_state, TOGGLE_STATE_VALID | NUM_LOCK_ACTIVE);

    // with NumLock off the same key yields the End scan code
    let mut keyboard_handler = ready_handler();
    keyboard_handler.receive_report(&[0x00, 0x00, 0x59, 0x00, 0x00, 0x00, 0x00, 0x00]);
    keyboard_handler.receive_report(&[0x00, 0x00, 0x00, 0x00, 0x00, 0x00, 0x00, 0x00]);
    let ev = keyboard_handler.pop_key().unwrap();
    assert_eq!(ev.key.unicode_char, 0);
    assert_eq!(ev.key.scan_code, SCAN_END);
}

#[test]
fn control_alt_delete_demands_warm_reset() {
    let mut keyboard_handler = ready_handler();
    let (reset, _leds) =
        keyboard_handler.receive_report(&[0x05, 0x00, 0x4C, 0x00, 0x00, 0x00, 0x00, 0x00]);
    assert!(reset);
    // nothing is enqueued on the reset path
    assert!(keyboard_handler.peek_key().is_none());
}

#[test]
fn mis_sized_report_is_dropped() {
    let mut keyboard_handler = ready_handler();
    // seven bytes instead of eight: dropped with no state change
    let (reset, leds) =
        keyboard_handler.receive_report(&[0x02, 0x00, 0x04, 0x00, 0x00, 0x00, 0x00]);
    assert!(!reset);
    assert!(leds.is_empty());
    assert!(keyboard_handler.peek_key().is_none());
    // a following well-formed report still works from clean state
    keyboard_handler.receive_report(&[0x00, 0x00, 0x04, 0x00, 0x00, 0x00, 0x00, 0x00]);
    assert_eq!(keyboard_handler.pop_key().unwrap().key.unicode_char, 'a' as u16);
}

#[test]
fn report_descriptor_sizes_round_up_to_bytes() {
    // the boot keyboard input report is 8 modifier bits + 8 reserved bits +
    // 6 key bytes = 64 bits, an 8-byte body; its LED output report is
    // 5 + 3 bits, a 1-byte body
    let info = descriptor_info_from_bytes(BOOT_KEYBOARD_REPORT_DESCRIPTOR).unwrap();
    assert_eq!(info.input_reports.len(), 1);
    assert_eq!(info.input_reports[0].size_in_bits, 64);
    assert_eq!(info.output_reports.len(), 1);
    assert_eq!(info.output_reports[0].size_in_bits, 8);
}

static BOOT_KEYBOARD_WITH_ID_DESCRIPTOR: &[u8] = &[
    0x05, 0x01, // USAGE_PAGE (Generic Desktop)
    0x09, 0x06, // USAGE (Keyboard)
    0xa1, 0x01, // COLLECTION (Application)
    0x85, 0x01, //    REPORT_ID (1)
    0x75, 0x01, //    REPORT_SIZE (1)
    0x95, 0x08, //    REPORT_COUNT (8)
    0x05, 0x07, //    USAGE_PAGE (Key Codes)
    0x19, 0xE0, //    USAGE_MINIMUM (224)
    0x29, 0xE7, //    USAGE_MAXIMUM (231)
    0x15, 0x00, //    LOGICAL_MINIMUM (0)
    0x25, 0x01, //    LOGICAL_MAXIMUM (1)
    0x81, 0x02, //    INPUT (Data, Var, Abs) (Modifier Byte)
    0x95, 0x06, //    REPORT_COUNT (6)
    0x75, 0x08, //    REPORT_SIZE (8)
    0x15, 0x00, //    LOGICAL_MINIMUM (0)
    0x26, 0xff, 00, //    LOGICAL_MAXIMUM (255)
    0x05, 0x07, //    USAGE_PAGE (Key Codes)
    0x19, 0x00, //    USAGE_MINIMUM (0)
    0x2a, 0xff, 00, //    USAGE_MAXIMUM (255)
    0x81, 0x00, //    INPUT (Data, Array)
    0xc0, // END_COLLECTION
];

#[test]
fn unknown_report_id_is_dropped() {
    let mut keyboard_handler = KeyboardHidHandler::new(1);
    keyboard_handler.set_layout(Some(get_default_keyboard_layout()));
    let info = descriptor_info_from_bytes(BOOT_KEYBOARD_WITH_ID_DESCRIPTOR).unwrap();
    keyboard_handler.initialize(2, &info).unwrap();

    // a report under the declared id delivers its key
    keyboard_handler.receive_report(&[0x01, 0x00, 0x00, 0x04, 0x00, 0x00, 0x00, 0x00]);
    assert_eq!(keyboard_handler.pop_key().unwrap().key.unicode_char, 'a' as u16);

    // the same body under an undeclared id is dropped
    keyboard_handler.receive_report(&[0x00, 0x00, 0x00, 0x00, 0x00, 0x00, 0x00, 0x00]);
    keyboard_handler.receive_report(&[0x02, 0x00, 0x00, 0x05, 0x00, 0x00, 0x00, 0x00]);
    assert!(keyboard_handler.pop_key().is_none());
}

#[test]
fn extended_reset_is_idempotent() {
    let mut once = ready_handler();
    once.receive_report(&[0x02, 0x00, 0x39, 0x04, 0x00, 0x00, 0x00, 0x00]);
    let mut twice = ready_handler();
    twice.receive_report(&[0x02, 0x00, 0x39, 0x04, 0x00, 0x00, 0x00, 0x00]);

    once.reset(true);
    twice.reset(true);
    twice.reset(true);

    assert_eq!(once.get_key_state(), twice.get_key_state());
    assert_eq!(once.peek_key(), twice.peek_key());
    let (changed_once, _) = once.update_leds();
    let (changed_twice, _) = twice.update_leds();
    assert_eq!(changed_once, changed_twice);
}

#[test]
fn multiple_reports_without_ids_fail_with_device_error() {
    let modifier_field = FieldDef::Variable(VariableFieldDef {
        usage: 0x000700E0,
        bit_start: 0,
        bit_end: 1,
        logical_min: 0,
        logical_max: 1,
        relative: false,
    });
    let report = |fields: Vec<FieldDef>| ReportInfo {
        report_id: None,
        size_in_bits: 8,
        fields,
    };
    let descriptor = ReportDescriptorInfo {
        input_reports: vec![
            report(vec![modifier_field.clone()]),
            report(vec![modifier_field.clone()]),
        ],
        output_reports: vec![],
        feature_report_count: 0,
    };
    let mut keyboard_handler = KeyboardHidHandler::new(1);
    keyboard_handler.set_layout(Some(get_default_keyboard_layout()));
    assert_eq!(keyboard_handler.initialize(2, &descriptor), Err(EfiStatus::DeviceError));

    let mut pointer_handler = uefi_hid_core::pointer::PointerHidHandler::new(1);
    let x_field = FieldDef::Variable(VariableFieldDef {
        usage: 0x00010030,
        bit_start: 0,
        bit_end: 8,
        logical_min: -127,
        logical_max: 127,
        relative: true,
    });
    let descriptor = ReportDescriptorInfo {
        input_reports: vec![report(vec![x_field.clone()]), report(vec![x_field.clone()])],
        output_reports: vec![],
        feature_report_count: 0,
    };
    assert_eq!(pointer_handler.initialize(2, &descriptor), Err(EfiStatus::DeviceError));
}

#[test]
fn oversized_declared_geometry_is_rejected_before_parsing() {
    // REPORT_COUNT and REPORT_SIZE both declared as 0xFFFFFFFF, then one
    // constant input item: the declared geometry is rejected up front
    let descriptor: &[u8] = &[
        0x97, 0xFF, 0xFF, 0xFF, 0xFF, // REPORT_COUNT (0xFFFFFFFF)
        0x77, 0xFF, 0xFF, 0xFF, 0xFF, // REPORT_SIZE (0xFFFFFFFF)
        0x81, 0x03, // INPUT (Const)
    ];
    assert!(descriptor_info_from_bytes(descriptor).is_none());

    // a zero size with a huge count is rejected too: the parser would
    // allocate one field per declared count
    let descriptor: &[u8] = &[
        0x97, 0xFF, 0xFF, 0xFF, 0xFF, // REPORT_COUNT (0xFFFFFFFF)
        0x77, 0x00, 0x00, 0x00, 0x00, // REPORT_SIZE (0)
        0x81, 0x03, // INPUT (Const)
    ];
    assert!(descriptor_info_from_bytes(descriptor).is_none());
}

#[test]
fn id_present_flag_follows_the_input_reports() {
    // one id-carrying input report beside an id-less LED output report:
    // inbound framing follows the input reports
    let modifier_field = FieldDef::Variable(VariableFieldDef {
        usage: 0x000700E0,
        bit_start: 0,
        bit_end: 1,
        logical_min: 0,
        logical_max: 1,
        relative: false,
    });
    let key_array = FieldDef::Array(uefi_hid_core::fields::ArrayFieldDef {
        bit_start: 8,
        bit_end: 16,
        logical_min: 0,
        logical_max: 255,
        usage_ranges: vec![(0x00070000, 0x000700FF)],
    });
    let led_field = FieldDef::Variable(VariableFieldDef {
        usage: 0x00080002,
        bit_start: 0,
        bit_end: 1,
        logical_min: 0,
        logical_max: 1,
        relative: false,
    });
    let descriptor = ReportDescriptorInfo {
        input_reports: vec![ReportInfo {
            report_id: Some(1),
            size_in_bits: 16,
            fields: vec![modifier_field, key_array],
        }],
        output_reports: vec![ReportInfo {
            report_id: None,
            size_in_bits: 8,
            fields: vec![led_field],
        }],
        feature_report_count: 0,
    };
    let mut keyboard_handler = KeyboardHidHandler::new(1);
    keyboard_handler.set_layout(Some(get_default_keyboard_layout()));
    keyboard_handler.initialize(2, &descriptor).unwrap();

    // the leading byte is the report id; the 'a' keycode follows
    keyboard_handler.receive_report(&[0x01, 0x00, 0x04]);
    assert_eq!(keyboard_handler.pop_key().unwrap().key.unicode_char, 'a' as u16);
}
