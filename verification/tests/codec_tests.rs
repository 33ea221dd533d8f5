use uefi_hid_core::codec::{
    keyboard_layout_from_buffer, layout_to_buffer, pkg_to_buffer, pkg_from_buffer,
    pkg_list_to_buffer, pkg_list_from_buffer, LayoutError,
};
use uefi_hid_core::default_layout::{
    get_default_keyboard_layout, get_default_keyboard_pkg, get_default_keyboard_pkg_list,
    get_default_keyboard_pkg_list_buffer,
};
use uefi_hid_core::layout::{HiiKey, HiiKeyDescriptor, HiiNsKeyDescriptor};
use uefi_hid_core::keys::{EfiKey, NS_KEY_MODIFIER, NS_KEY_DEPENDENCY_MODIFIER,
    AFFECTED_BY_STANDARD_SHIFT, AFFECTED_BY_CAPS_LOCK};

fn key_descriptor(
    key: EfiKey, unicode: char, shifted: char, modifier: u16, affected: u16,
) -> HiiKeyDescriptor {
    HiiKeyDescriptor {
        key,
        unicode: unicode as u16,
        shifted_unicode: shifted as u16,
        alt_gr_unicode: 0,
        shifted_alt_gr_unicode: 0,
        modifier,
        affected_attribute: affected,
    }
}

#[test]
fn hii_keyboard_package_serialize_deserialize_should_produce_consistent_results() {
    let package = get_default_keyboard_pkg();
    let buffer = pkg_to_buffer(&package).unwrap();
    let package2 = pkg_from_buffer(&buffer).unwrap();
    assert_eq!(package, package2);
}

#[test]
fn layout_round_trips_through_bytes() {
    let layout = get_default_keyboard_layout();
    let bytes = layout_to_buffer(&layout).unwrap();
    let layout2 = keyboard_layout_from_buffer(&bytes).unwrap();
    assert_eq!(layout, layout2);
    let bytes2 = layout_to_buffer(&layout2).unwrap();
    assert_eq!(bytes, bytes2);
}

#[test]
fn ns_key_layout_round_trips() {
    let mut layout = get_default_keyboard_layout();
    let index = layout
        .keys
        .iter()
        .position(|element| {
            if let HiiKey::Key(key) = element { key.key == EfiKey::E0 } else { false }
        })
        .unwrap();
    let ns_key = HiiKey::NsKey(HiiNsKeyDescriptor {
        descriptor: key_descriptor(EfiKey::E0, '\0', '\0', NS_KEY_MODIFIER, 0),
        dependent_keys: vec![
            key_descriptor(EfiKey::C1, '\u{00E2}', '\u{00C2}', NS_KEY_DEPENDENCY_MODIFIER,
                AFFECTED_BY_STANDARD_SHIFT | AFFECTED_BY_CAPS_LOCK),
            key_descriptor(EfiKey::D3, '\u{00EA}', '\u{00CA}', NS_KEY_DEPENDENCY_MODIFIER,
                AFFECTED_BY_STANDARD_SHIFT | AFFECTED_BY_CAPS_LOCK),
        ],
    });
    layout.keys[index] = ns_key;
    let bytes = layout_to_buffer(&layout).unwrap();
    let layout2 = keyboard_layout_from_buffer(&bytes).unwrap();
    assert_eq!(layout, layout2);
    let bytes2 = layout_to_buffer(&layout2).unwrap();
    assert_eq!(bytes, bytes2);
}

#[test]
fn package_list_serialization_should_generate_package_list() {
    let pkg_list = get_default_keyboard_pkg_list();
    let buffer = pkg_list_to_buffer(&pkg_list).unwrap();

    // header: GUID, then total length, then the package, then the end marker
    assert_eq!(&buffer[0..16], &pkg_list.package_list_guid.bytes[..]);
    let total = buffer.len() as u32;
    assert_eq!(&buffer[16..20], &total.to_le_bytes());
    assert_eq!(&buffer[buffer.len() - 4..], &0xDF000004u32.to_le_bytes());

    let deserialized = pkg_list_from_buffer(&buffer).unwrap();
    assert_eq!(pkg_list, deserialized);

    assert_eq!(buffer, get_default_keyboard_pkg_list_buffer());
}

#[test]
fn truncated_layout_fails_to_parse() {
    let layout = get_default_keyboard_layout();
    let bytes = layout_to_buffer(&layout).unwrap();
    let truncated = &bytes[0..bytes.len() - 3];
    assert_eq!(keyboard_layout_from_buffer(truncated), Err(LayoutError::ParseError));
    assert_eq!(keyboard_layout_from_buffer(&[1, 2, 3]), Err(LayoutError::ParseError));
}

#[test]
fn unknown_physical_key_code_fails_to_parse() {
    let layout = get_default_keyboard_layout();
    let mut bytes = layout_to_buffer(&layout).unwrap();
    // the first descriptor's physical-key code starts at offset 23
    bytes[23] = 0xFF;
    bytes[24] = 0xFF;
    assert_eq!(keyboard_layout_from_buffer(&bytes), Err(LayoutError::ParseError));
}

#[test]
fn description_without_space_fails_to_encode() {
    let mut layout = get_default_keyboard_layout();
    // a space in the language tag breaks the string rules
    layout.descriptions[0].language = vec![0x20];
    assert_eq!(layout_to_buffer(&layout), Err(LayoutError::EncodeError));
}

#[test]
fn package_with_wrong_type_tag_fails_to_parse() {
    let pkg = get_default_keyboard_pkg();
    let mut bytes = pkg_to_buffer(&pkg).unwrap();
    // the package type tag sits in the header word's high byte
    bytes[3] = 0x12;
    assert!(pkg_from_buffer(&bytes).is_err());
}
