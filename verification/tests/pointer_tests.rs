use uefi_hid_core::hidparse::descriptor_info_from_bytes;
use uefi_hid_core::pointer::{PointerHidHandler, AXIS_RESOLUTION, CENTER};
use uefi_hid_core::status::EfiStatus;

static MINIMAL_BOOT_KEYBOARD_REPORT_DESCRIPTOR: &[u8] = &[
    0x05, 0x01, // USAGE_PAGE (Generic Desktop)
    0x09, 0x06, // USAGE (Keyboard)
    0xa1, 0x01, // COLLECTION (Application)
    0x75, 0x01, //    REPORT_SIZE (1)
    0x95, 0x08, //    REPORT_COUNT (8)
    0x05, 0x07, //    USAGE_PAGE (Key Codes)
    0x19, 0xE0, //    USAGE_MINIMUM (224)
    0x29, 0xE7, //    USAGE_MAXIMUM (231)
    0x15, 0x00, //    LOGICAL_MINIMUM (0)
    0x25, 0x01, //    LOGICAL_MAXIMUM (1)
    0x81, 0x02, //    INPUT (Data, Var, Abs) (Modifier Byte)
    0xc0, // END_COLLECTION
];

static MOUSE_REPORT_DESCRIPTOR: &[u8] = &[
    0x05, 0x01, // USAGE_PAGE (Generic Desktop)
    0x09, 0x02, // USAGE (Mouse)
    0xa1, 0x01, // COLLECTION (Application)
    0x09, 0x01, //   USAGE(Pointer)
    0xa1, 0x00, //   COLLECTION (Physical)
    0x05, 0x09, //     USAGE_PAGE (Button)
    0x19, 0x01, //     USAGE_MINIMUM(1)
    0x29, 0x05, //     USAGE_MAXIMUM(5)
    0x15, 0x00, //     LOGICAL_MINIMUM(0)
    0x25, 0x01, //     LOGICAL_MAXIMUM(1)
    0x95, 0x05, //     REPORT_COUNT(5)
    0x75, 0x01, //     REPORT_SIZE(1)
    0x81, 0x02, //     INPUT(Data, Variable, Absolute)
    0x95, 0x01, //     REPORT_COUNT(1)
    0x75, 0x03, //     REPORT_SIZE(3)
    0x81, 0x01, //     INPUT(Constant, Array, Absolute)
    0x05, 0x01, //     USAGE_PAGE (Generic Desktop)
    0x09, 0x30, //     USAGE (X)
    0x09, 0x31, //     USAGE (Y)
    0x09, 0x38, //     USAGE (Wheel)
    0x15, 0x81, //     LOGICAL_MINIMUM (-127)
    0x25, 0x7f, //     LOGICAL_MAXIMUM (127)
    0x75, 0x08, //     REPORT_SIZE (8)
    0x95, 0x03, //     REPORT_COUNT (3)
    0x81, 0x06, //     INPUT(Data, Variable, Relative)
    0xc0, //   END_COLLECTION
    0xc0, // END_COLLECTION
];

static ABS_POINTER_REPORT_DESCRIPTOR: &[u8] = &[
    0x05, 0x01, // USAGE_PAGE (Generic Desktop)
    0x09, 0x02, // USAGE (Mouse)
    0xa1, 0x01, // COLLECTION (Application)
    0x09, 0x01, //   USAGE(Pointer)
    0xa1, 0x00, //   COLLECTION (Physical)
    0x05, 0x09, //     USAGE_PAGE (Button)
    0x19, 0x01, //     USAGE_MINIMUM(1)
    0x29, 0x05, //     USAGE_MAXIMUM(5)
    0x15, 0x00, //     LOGICAL_MINIMUM(0)
    0x25, 0x01, //     LOGICAL_MAXIMUM(1)
    0x95, 0x05, //     REPORT_COUNT(5)
    0x75, 0x01, //     REPORT_SIZE(1)
    0x81, 0x02, //     INPUT(Data, Variable, Absolute)
    0x95, 0x01, //     REPORT_COUNT(1)
    0x75, 0x03, //     REPORT_SIZE(3)
    0x81, 0x01, //     INPUT(Constant, Array, Absolute)
    0x05, 0x01, //     USAGE_PAGE (Generic Desktop)
    0x09, 0x30, //     USAGE (X)
    0x09, 0x31, //     USAGE (Y)
    0x09, 0x38, //     USAGE (Wheel)
    0x15, 0x00, //     LOGICAL_MINIMUM (0)
    0x26, 0xff, 0x0f, // LOGICAL_MAXIMUM (4095)
    0x75, 0x10, //     REPORT_SIZE (16)
    0x95, 0x03, //     REPORT_COUNT (3)
    0x81, 0x02, //     INPUT(Data, Variable, Absolute)
    0xc0, //   END_COLLECTION
    0xc0, // END_COLLECTION
];

#[test]
fn pointer_initialize_should_fail_if_report_descriptor_not_supported() {
    let mut pointer_handler = PointerHidHandler::new(1);
    let info = descriptor_info_from_bytes(MINIMAL_BOOT_KEYBOARD_REPORT_DESCRIPTOR).unwrap();
    assert_eq!(pointer_handler.initialize(2, &info), Err(EfiStatus::Unsupported));
}

#[test]
fn receive_report_should_process_relative_reports() {
    let mut pointer_handler = PointerHidHandler::new(1);
    let info = descriptor_info_from_bytes(MOUSE_REPORT_DESCRIPTOR).unwrap();
    assert_eq!(pointer_handler.initialize(2, &info), Ok(()));

    let state = pointer_handler.peek_state();
    assert_eq!(state.active_buttons, 0);
    assert_eq!(state.current_x, CENTER);
    assert_eq!(state.current_y, CENTER);
    assert_eq!(state.current_z, 0);
    assert!(!pointer_handler.has_input());

    // click two buttons and move the cursor (+32, +32)
    pointer_handler.receive_report(&[0x05, 0x20, 0x20, 0x00]);
    let state = pointer_handler.peek_state();
    assert_eq!(state.active_buttons, 0x05);
    assert_eq!(state.current_x, CENTER + 32);
    assert_eq!(state.current_y, CENTER + 32);
    assert_eq!(state.current_z, 0);
    assert!(pointer_handler.has_input());

    // un-click and move the cursor (+32, -16) and wheel (+32)
    pointer_handler.receive_report(&[0x00, 0x20, 0xF0, 0x20]);
    let state = pointer_handler.peek_state();
    assert_eq!(state.active_buttons, 0);
    assert_eq!(state.current_x, CENTER + 64);
    assert_eq!(state.current_y, CENTER + 16);
    assert_eq!(state.current_z, 32);

    // un-click and move the cursor (+32, -32) and wheel (+32)
    pointer_handler.receive_report(&[0x00, 0x20, 0xE0, 0x20]);
    let state = pointer_handler.peek_state();
    assert_eq!(state.active_buttons, 0);
    assert_eq!(state.current_x, CENTER + 96);
    assert_eq!(state.current_y, CENTER - 16);
    assert_eq!(state.current_z, 64);

    // move down until well past the saturation point, checking each time
    let starting_y = pointer_handler.peek_state().current_y;
    for i in 0..AXIS_RESOLUTION {
        pointer_handler.receive_report(&[0x00, 0x00, 0x7F, 0x00]);
        let expected_y = core::cmp::min(AXIS_RESOLUTION, starting_y.saturating_add((i + 1) * 127));
        assert_eq!(pointer_handler.peek_state().current_y, expected_y);
    }

    // move up until it saturates at zero, checking each time
    let starting_y = pointer_handler.peek_state().current_y;
    for i in 0..AXIS_RESOLUTION {
        pointer_handler.receive_report(&[0x00, 0x00, 0x81, 0x00]);
        let expected_y = starting_y.saturating_sub((i + 1) * 127);
        assert_eq!(pointer_handler.peek_state().current_y, expected_y);
    }
}

#[test]
fn receive_report_should_process_absolute_reports() {
    let mut pointer_handler = PointerHidHandler::new(1);
    let info = descriptor_info_from_bytes(ABS_POINTER_REPORT_DESCRIPTOR).unwrap();
    assert_eq!(pointer_handler.initialize(2, &info), Ok(()));

    // click two buttons and move the cursor to (1024, 1024) of 0..4095
    pointer_handler.receive_report(&[0x05, 0x00, 0x04, 0x00, 0x04, 0x00, 0x00]);
    let state = pointer_handler.peek_state();
    assert_eq!(state.active_buttons, 0x05);
    // 1024 of 0..4095 projected onto 0..1024 is 256
    assert_eq!(state.current_x, 256);
    assert_eq!(state.current_y, 256);
    assert_eq!(state.current_z, 0);
    assert!(pointer_handler.has_input());
}

#[test]
fn bad_reports_should_be_ignored() {
    let mut pointer_handler = PointerHidHandler::new(1);
    let info = descriptor_info_from_bytes(ABS_POINTER_REPORT_DESCRIPTOR).unwrap();
    assert_eq!(pointer_handler.initialize(2, &info), Ok(()));

    // axis values out of the declared logical range change nothing
    pointer_handler.receive_report(&[0x00, 0x00, 0x10, 0x00, 0x10, 0x00, 0x00]);
    let state = pointer_handler.peek_state();
    assert_eq!(state.active_buttons, 0);
    assert_eq!(state.current_x, CENTER);
    assert_eq!(state.current_y, CENTER);
    assert_eq!(state.current_z, 0);
    assert!(!pointer_handler.has_input());

    // a report that is too long is dropped
    pointer_handler.receive_report(&[0x00, 0x00, 0x00, 0x10, 0x00, 0x10, 0x00, 0x10]);
    assert!(!pointer_handler.has_input());

    // a report that is too short is dropped
    pointer_handler.receive_report(&[0x00, 0x10, 0x00, 0x10, 0x00, 0x10]);
    assert!(!pointer_handler.has_input());
    assert_eq!(pointer_handler.peek_state().current_x, CENTER);
}

#[test]
fn get_state_clears_the_change_flag() {
    let mut pointer_handler = PointerHidHandler::new(1);
    let info = descriptor_info_from_bytes(MOUSE_REPORT_DESCRIPTOR).unwrap();
    pointer_handler.initialize(2, &info).unwrap();

    assert_eq!(pointer_handler.get_state(), Err(EfiStatus::NotReady));
    pointer_handler.receive_report(&[0x01, 0x08, 0x00, 0x00]);
    let state = pointer_handler.get_state().unwrap();
    assert_eq!(state.active_buttons, 1);
    assert_eq!(state.current_x, CENTER + 8);
    assert_eq!(pointer_handler.get_state(), Err(EfiStatus::NotReady));
}

#[test]
fn absolute_pointer_reset_should_reset_pointer_state() {
    let mut pointer_handler = PointerHidHandler::new(1);
    let info = descriptor_info_from_bytes(MOUSE_REPORT_DESCRIPTOR).unwrap();
    pointer_handler.initialize(2, &info).unwrap();

    pointer_handler.receive_report(&[0x05, 0x20, 0x20, 0x00]);
    assert!(pointer_handler.has_input());
    pointer_handler.reset_state();
    let state = pointer_handler.peek_state();
    assert_eq!(state.current_x, CENTER);
    assert_eq!(state.current_y, CENTER);
    assert_eq!(state.current_z, 0);
    assert_eq!(state.active_buttons, 0);
    assert!(!pointer_handler.has_input());
}

#[test]
fn mode_advertises_observed_axes() {
    let mut pointer_handler = PointerHidHandler::new(1);
    let info = descriptor_info_from_bytes(MOUSE_REPORT_DESCRIPTOR).unwrap();
    pointer_handler.initialize(2, &info).unwrap();
    let mode = pointer_handler.initialize_mode();
    assert_eq!(mode.absolute_min_x, 0);
    assert_eq!(mode.absolute_max_x, AXIS_RESOLUTION);
    assert_eq!(mode.absolute_max_y, AXIS_RESOLUTION);
    assert_eq!(mode.absolute_max_z, AXIS_RESOLUTION);
    // five buttons and a wheel: alternate-button and pressure attributes
    assert_eq!(mode.attributes, 0x03);
}
