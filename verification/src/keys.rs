use vstd::prelude::*;

verus! {

// Key-state bit layouts exposed alongside each decoded key event.
pub const SHIFT_STATE_VALID: u32 = 0x80000000;
pub const RIGHT_SHIFT_PRESSED: u32 = 0x00000001;
pub const LEFT_SHIFT_PRESSED: u32 = 0x00000002;
pub const RIGHT_CONTROL_PRESSED: u32 = 0x00000004;
pub const LEFT_CONTROL_PRESSED: u32 = 0x00000008;
pub const RIGHT_ALT_PRESSED: u32 = 0x00000010;
pub const LEFT_ALT_PRESSED: u32 = 0x00000020;
pub const RIGHT_LOGO_PRESSED: u32 = 0x00000040;
pub const LEFT_LOGO_PRESSED: u32 = 0x00000080;
pub const MENU_KEY_PRESSED: u32 = 0x00000100;
pub const SYS_REQ_PRESSED: u32 = 0x00000200;

pub const TOGGLE_STATE_VALID: u8 = 0x80;
pub const KEY_STATE_EXPOSED: u8 = 0x40;
pub const SCROLL_LOCK_ACTIVE: u8 = 0x01;
pub const NUM_LOCK_ACTIVE: u8 = 0x02;
pub const CAPS_LOCK_ACTIVE: u8 = 0x04;

// Modifier codes carried by key descriptors.
pub const NULL_MODIFIER: u16 = 0x0000;
pub const LEFT_CONTROL_MODIFIER: u16 = 0x0001;
pub const RIGHT_CONTROL_MODIFIER: u16 = 0x0002;
pub const LEFT_ALT_MODIFIER: u16 = 0x0003;
pub const RIGHT_ALT_MODIFIER: u16 = 0x0004;
pub const ALT_GR_MODIFIER: u16 = 0x0005;
pub const INSERT_MODIFIER: u16 = 0x0006;
pub const DELETE_MODIFIER: u16 = 0x0007;
pub const PAGE_DOWN_MODIFIER: u16 = 0x0008;
pub const PAGE_UP_MODIFIER: u16 = 0x0009;
pub const HOME_MODIFIER: u16 = 0x000A;
pub const END_MODIFIER: u16 = 0x000B;
pub const LEFT_SHIFT_MODIFIER: u16 = 0x000C;
pub const RIGHT_SHIFT_MODIFIER: u16 = 0x000D;
pub const CAPS_LOCK_MODIFIER: u16 = 0x000E;
pub const NUM_LOCK_MODIFIER: u16 = 0x000F;
pub const LEFT_ARROW_MODIFIER: u16 = 0x0010;
pub const RIGHT_ARROW_MODIFIER: u16 = 0x0011;
pub const DOWN_ARROW_MODIFIER: u16 = 0x0012;
pub const UP_ARROW_MODIFIER: u16 = 0x0013;
pub const NS_KEY_MODIFIER: u16 = 0x0014;
pub const NS_KEY_DEPENDENCY_MODIFIER: u16 = 0x0015;
pub const FUNCTION_KEY_ONE_MODIFIER: u16 = 0x0016;
pub const FUNCTION_KEY_TWO_MODIFIER: u16 = 0x0017;
pub const FUNCTION_KEY_THREE_MODIFIER: u16 = 0x0018;
pub const FUNCTION_KEY_FOUR_MODIFIER: u16 = 0x0019;
pub const FUNCTION_KEY_FIVE_MODIFIER: u16 = 0x001A;
pub const FUNCTION_KEY_SIX_MODIFIER: u16 = 0x001B;
pub const FUNCTION_KEY_SEVEN_MODIFIER: u16 = 0x001C;
pub const FUNCTION_KEY_EIGHT_MODIFIER: u16 = 0x001D;
pub const FUNCTION_KEY_NINE_MODIFIER: u16 = 0x001E;
pub const FUNCTION_KEY_TEN_MODIFIER: u16 = 0x001F;
pub const FUNCTION_KEY_ELEVEN_MODIFIER: u16 = 0x0020;
pub const FUNCTION_KEY_TWELVE_MODIFIER: u16 = 0x0021;
pub const PRINT_MODIFIER: u16 = 0x0022;
pub const SYS_REQUEST_MODIFIER: u16 = 0x0023;
pub const SCROLL_LOCK_MODIFIER: u16 = 0x0024;
pub const PAUSE_MODIFIER: u16 = 0x0025;
pub const BREAK_MODIFIER: u16 = 0x0026;
pub const LEFT_LOGO_MODIFIER: u16 = 0x0027;
pub const RIGHT_LOGO_MODIFIER: u16 = 0x0028;
pub const MENU_MODIFIER: u16 = 0x0029;

// Descriptor "affected by" attribute bits.
pub const AFFECTED_BY_STANDARD_SHIFT: u16 = 0x0001;
pub const AFFECTED_BY_CAPS_LOCK: u16 = 0x0002;
pub const AFFECTED_BY_NUM_LOCK: u16 = 0x0004;

// Scan codes produced for directional and function modifiers.
pub const SCAN_NULL: u16 = 0x0000;
pub const SCAN_UP: u16 = 0x0001;
pub const SCAN_DOWN: u16 = 0x0002;
pub const SCAN_RIGHT: u16 = 0x0003;
pub const SCAN_LEFT: u16 = 0x0004;
pub const SCAN_HOME: u16 = 0x0005;
pub const SCAN_END: u16 = 0x0006;
pub const SCAN_INSERT: u16 = 0x0007;
pub const SCAN_DELETE: u16 = 0x0008;
pub const SCAN_PAGE_UP: u16 = 0x0009;
pub const SCAN_PAGE_DOWN: u16 = 0x000A;
pub const SCAN_F1: u16 = 0x000B;
pub const SCAN_F2: u16 = 0x000C;
pub const SCAN_F3: u16 = 0x000D;
pub const SCAN_F4: u16 = 0x000E;
pub const SCAN_F5: u16 = 0x000F;
pub const SCAN_F6: u16 = 0x0010;
pub const SCAN_F7: u16 = 0x0011;
pub const SCAN_F8: u16 = 0x0012;
pub const SCAN_F9: u16 = 0x0013;
pub const SCAN_F10: u16 = 0x0014;
pub const SCAN_F11: u16 = 0x0015;
pub const SCAN_F12: u16 = 0x0016;
pub const SCAN_ESC: u16 = 0x0017;
pub const SCAN_PAUSE: u16 = 0x0048;

// HID usage ranges relevant to the keyboard and LED pages.
pub const KEYBOARD_MODIFIER_USAGE_MIN: u32 = 0x000700E0;
pub const KEYBOARD_MODIFIER_USAGE_MAX: u32 = 0x000700E7;
pub const KEYBOARD_USAGE_MIN: u32 = 0x00070001;
pub const KEYBOARD_USAGE_MAX: u32 = 0x00070065;
pub const LED_USAGE_MIN: u32 = 0x00080001;
pub const LED_USAGE_MAX: u32 = 0x00080005;
pub const LED_USAGE_NUM_LOCK: u32 = 0x00080001;
pub const LED_USAGE_CAPS_LOCK: u32 = 0x00080002;
pub const LED_USAGE_SCROLL_LOCK: u32 = 0x00080003;

/// Physical key positions of the keyboard-layout format.
#[derive(Clone, Copy, Debug, PartialEq, Eq, Structural)]
pub enum EfiKey {
    LCtrl, A0, LAlt, SpaceBar, A2, A3, A4, RCtrl, LeftArrow, DownArrow, RightArrow, Zero, Period,
    Enter, LShift, B0, B1, B2, B3, B4, B5, B6, B7, B8, B9, B10, RShift, UpArrow, One, Two,
    Three, CapsLock, C1, C2, C3, C4, C5, C6, C7, C8, C9, C10, C11, C12, Four, Five, Six, Plus,
    Tab, D1, D2, D3, D4, D5, D6, D7, D8, D9, D10, D11, D12, D13, Del, End, PgDn, Seven, Eight,
    Nine, E0, E1, E2, E3, E4, E5, E6, E7, E8, E9, E10, E11, E12, BackSpace, Ins, Home, PgUp,
    NLck, Slash, Asterisk, Minus, Esc, F1, F2, F3, F4, F5, F6, F7, F8, F9, F10, F11, F12, Print,
    SLck, Pause, Intl0, Intl1, Intl2, Intl3, Intl4, Intl5, Intl6, Intl7, Intl8, Intl9,
}

/// Numeric encoding of a physical key, as stored in layout binaries.
pub open spec fn spec_efi_key_num(k: EfiKey) -> u32 {
    match k {
        EfiKey::LCtrl => 0,
        EfiKey::A0 => 1,
        EfiKey::LAlt => 2,
        EfiKey::SpaceBar => 3,
        EfiKey::A2 => 4,
        EfiKey::A3 => 5,
        EfiKey::A4 => 6,
        EfiKey::RCtrl => 7,
        EfiKey::LeftArrow => 8,
        EfiKey::DownArrow => 9,
        EfiKey::RightArrow => 10,
        EfiKey::Zero => 11,
        EfiKey::Period => 12,
        EfiKey::Enter => 13,
        EfiKey::LShift => 14,
        EfiKey::B0 => 15,
        EfiKey::B1 => 16,
        EfiKey::B2 => 17,
        EfiKey::B3 => 18,
        EfiKey::B4 => 19,
        EfiKey::B5 => 20,
        EfiKey::B6 => 21,
        EfiKey::B7 => 22,
        EfiKey::B8 => 23,
        EfiKey::B9 => 24,
        EfiKey::B10 => 25,
        EfiKey::RShift => 26,
        EfiKey::UpArrow => 27,
        EfiKey::One => 28,
        EfiKey::Two => 29,
        EfiKey::Three => 30,
        EfiKey::CapsLock => 31,
        EfiKey::C1 => 32,
        EfiKey::C2 => 33,
        EfiKey::C3 => 34,
        EfiKey::C4 => 35,
        EfiKey::C5 => 36,
        EfiKey::C6 => 37,
        EfiKey::C7 => 38,
        EfiKey::C8 => 39,
        EfiKey::C9 => 40,
        EfiKey::C10 => 41,
        EfiKey::C11 => 42,
        EfiKey::C12 => 43,
        EfiKey::Four => 44,
        EfiKey::Five => 45,
        EfiKey::Six => 46,
        EfiKey::Plus => 47,
        EfiKey::Tab => 48,
        EfiKey::D1 => 49,
        EfiKey::D2 => 50,
        EfiKey::D3 => 51,
        EfiKey::D4 => 52,
        EfiKey::D5 => 53,
        EfiKey::D6 => 54,
        EfiKey::D7 => 55,
        EfiKey::D8 => 56,
        EfiKey::D9 => 57,
        EfiKey::D10 => 58,
        EfiKey::D11 => 59,
        EfiKey::D12 => 60,
        EfiKey::D13 => 61,
        EfiKey::Del => 62,
        EfiKey::End => 63,
        EfiKey::PgDn => 64,
        EfiKey::Seven => 65,
        EfiKey::Eight => 66,
        EfiKey::Nine => 67,
        EfiKey::E0 => 68,
        EfiKey::E1 => 69,
        EfiKey::E2 => 70,
        EfiKey::E3 => 71,
        EfiKey::E4 => 72,
        EfiKey::E5 => 73,
        EfiKey::E6 => 74,
        EfiKey::E7 => 75,
        EfiKey::E8 => 76,
        EfiKey::E9 => 77,
        EfiKey::E10 => 78,
        EfiKey::E11 => 79,
        EfiKey::E12 => 80,
        EfiKey::BackSpace => 81,
        EfiKey::Ins => 82,
        EfiKey::Home => 83,
        EfiKey::PgUp => 84,
        EfiKey::NLck => 85,
        EfiKey::Slash => 86,
        EfiKey::Asterisk => 87,
        EfiKey::Minus => 88,
        EfiKey::Esc => 89,
        EfiKey::F1 => 90,
        EfiKey::F2 => 91,
        EfiKey::F3 => 92,
        EfiKey::F4 => 93,
        EfiKey::F5 => 94,
        EfiKey::F6 => 95,
        EfiKey::F7 => 96,
        EfiKey::F8 => 97,
        EfiKey::F9 => 98,
        EfiKey::F10 => 99,
        EfiKey::F11 => 100,
        EfiKey::F12 => 101,
        EfiKey::Print => 102,
        EfiKey::SLck => 103,
        EfiKey::Pause => 104,
        EfiKey::Intl0 => 105,
        EfiKey::Intl1 => 106,
        EfiKey::Intl2 => 107,
        EfiKey::Intl3 => 108,
        EfiKey::Intl4 => 109,
        EfiKey::Intl5 => 110,
        EfiKey::Intl6 => 111,
        EfiKey::Intl7 => 112,
        EfiKey::Intl8 => 113,
        EfiKey::Intl9 => 114,
    }
}

/// Physical key for a numeric code, if the code is in range.
pub open spec fn spec_efi_key_from_num(v: u32) -> Option<EfiKey> {
    if v == 0 { Some(EfiKey::LCtrl) }
    else if v == 1 { Some(EfiKey::A0) }
    else if v == 2 { Some(EfiKey::LAlt) }
    else if v == 3 { Some(EfiKey::SpaceBar) }
    else if v == 4 { Some(EfiKey::A2) }
    else if v == 5 { Some(EfiKey::A3) }
    else if v == 6 { Some(EfiKey::A4) }
    else if v == 7 { Some(EfiKey::RCtrl) }
    else if v == 8 { Some(EfiKey::LeftArrow) }
    else if v == 9 { Some(EfiKey::DownArrow) }
    else if v == 10 { Some(EfiKey::RightArrow) }
    else if v == 11 { Some(EfiKey::Zero) }
    else if v == 12 { Some(EfiKey::Period) }
    else if v == 13 { Some(EfiKey::Enter) }
    else if v == 14 { Some(EfiKey::LShift) }
    else if v == 15 { Some(EfiKey::B0) }
    else if v == 16 { Some(EfiKey::B1) }
    else if v == 17 { Some(EfiKey::B2) }
    else if v == 18 { Some(EfiKey::B3) }
    else if v == 19 { Some(EfiKey::B4) }
    else if v == 20 { Some(EfiKey::B5) }
    else if v == 21 { Some(EfiKey::B6) }
    else if v == 22 { Some(EfiKey::B7) }
    else if v == 23 { Some(EfiKey::B8) }
    else if v == 24 { Some(EfiKey::B9) }
    else if v == 25 { Some(EfiKey::B10) }
    else if v == 26 { Some(EfiKey::RShift) }
    else if v == 27 { Some(EfiKey::UpArrow) }
    else if v == 28 { Some(EfiKey::One) }
    else if v == 29 { Some(EfiKey::Two) }
    else if v == 30 { Some(EfiKey::Three) }
    else if v == 31 { Some(EfiKey::CapsLock) }
    else if v == 32 { Some(EfiKey::C1) }
    else if v == 33 { Some(EfiKey::C2) }
    else if v == 34 { Some(EfiKey::C3) }
    else if v == 35 { Some(EfiKey::C4) }
    else if v == 36 { Some(EfiKey::C5) }
    else if v == 37 { Some(EfiKey::C6) }
    else if v == 38 { Some(EfiKey::C7) }
    else if v == 39 { Some(EfiKey::C8) }
    else if v == 40 { Some(EfiKey::C9) }
    else if v == 41 { Some(EfiKey::C10) }
    else if v == 42 { Some(EfiKey::C11) }
    else if v == 43 { Some(EfiKey::C12) }
    else if v == 44 { Some(EfiKey::Four) }
    else if v == 45 { Some(EfiKey::Five) }
    else if v == 46 { Some(EfiKey::Six) }
    else if v == 47 { Some(EfiKey::Plus) }
    else if v == 48 { Some(EfiKey::Tab) }
    else if v == 49 { Some(EfiKey::D1) }
    else if v == 50 { Some(EfiKey::D2) }
    else if v == 51 { Some(EfiKey::D3) }
    else if v == 52 { Some(EfiKey::D4) }
    else if v == 53 { Some(EfiKey::D5) }
    else if v == 54 { Some(EfiKey::D6) }
    else if v == 55 { Some(EfiKey::D7) }
    else if v == 56 { Some(EfiKey::D8) }
    else if v == 57 { Some(EfiKey::D9) }
    else if v == 58 { Some(EfiKey::D10) }
    else if v == 59 { Some(EfiKey::D11) }
    else if v == 60 { Some(EfiKey::D12) }
    else if v == 61 { Some(EfiKey::D13) }
    else if v == 62 { Some(EfiKey::Del) }
    else if v == 63 { Some(EfiKey::End) }
    else if v == 64 { Some(EfiKey::PgDn) }
    else if v == 65 { Some(EfiKey::Seven) }
    else if v == 66 { Some(EfiKey::Eight) }
    else if v == 67 { Some(EfiKey::Nine) }
    else if v == 68 { Some(EfiKey::E0) }
    else if v == 69 { Some(EfiKey::E1) }
    else if v == 70 { Some(EfiKey::E2) }
    else if v == 71 { Some(EfiKey::E3) }
    else if v == 72 { Some(EfiKey::E4) }
    else if v == 73 { Some(EfiKey::E5) }
    else if v == 74 { Some(EfiKey::E6) }
    else if v == 75 { Some(EfiKey::E7) }
    else if v == 76 { Some(EfiKey::E8) }
    else if v == 77 { Some(EfiKey::E9) }
    else if v == 78 { Some(EfiKey::E10) }
    else if v == 79 { Some(EfiKey::E11) }
    else if v == 80 { Some(EfiKey::E12) }
    else if v == 81 { Some(EfiKey::BackSpace) }
    else if v == 82 { Some(EfiKey::Ins) }
    else if v == 83 { Some(EfiKey::Home) }
    else if v == 84 { Some(EfiKey::PgUp) }
    else if v == 85 { Some(EfiKey::NLck) }
    else if v == 86 { Some(EfiKey::Slash) }
    else if v == 87 { Some(EfiKey::Asterisk) }
    else if v == 88 { Some(EfiKey::Minus) }
    else if v == 89 { Some(EfiKey::Esc) }
    else if v == 90 { Some(EfiKey::F1) }
    else if v == 91 { Some(EfiKey::F2) }
    else if v == 92 { Some(EfiKey::F3) }
    else if v == 93 { Some(EfiKey::F4) }
    else if v == 94 { Some(EfiKey::F5) }
    else if v == 95 { Some(EfiKey::F6) }
    else if v == 96 { Some(EfiKey::F7) }
    else if v == 97 { Some(EfiKey::F8) }
    else if v == 98 { Some(EfiKey::F9) }
    else if v == 99 { Some(EfiKey::F10) }
    else if v == 100 { Some(EfiKey::F11) }
    else if v == 101 { Some(EfiKey::F12) }
    else if v == 102 { Some(EfiKey::Print) }
    else if v == 103 { Some(EfiKey::SLck) }
    else if v == 104 { Some(EfiKey::Pause) }
    else if v == 105 { Some(EfiKey::Intl0) }
    else if v == 106 { Some(EfiKey::Intl1) }
    else if v == 107 { Some(EfiKey::Intl2) }
    else if v == 108 { Some(EfiKey::Intl3) }
    else if v == 109 { Some(EfiKey::Intl4) }
    else if v == 110 { Some(EfiKey::Intl5) }
    else if v == 111 { Some(EfiKey::Intl6) }
    else if v == 112 { Some(EfiKey::Intl7) }
    else if v == 113 { Some(EfiKey::Intl8) }
    else if v == 114 { Some(EfiKey::Intl9) }
    else { None }
}

pub fn efi_key_num(k: EfiKey) -> (r: u32)
    ensures r == spec_efi_key_num(k),
{
    match k {
        EfiKey::LCtrl => 0,
        EfiKey::A0 => 1,
        EfiKey::LAlt => 2,
        EfiKey::SpaceBar => 3,
        EfiKey::A2 => 4,
        EfiKey::A3 => 5,
        EfiKey::A4 => 6,
        EfiKey::RCtrl => 7,
        EfiKey::LeftArrow => 8,
        EfiKey::DownArrow => 9,
        EfiKey::RightArrow => 10,
        EfiKey::Zero => 11,
        EfiKey::Period => 12,
        EfiKey::Enter => 13,
        EfiKey::LShift => 14,
        EfiKey::B0 => 15,
        EfiKey::B1 => 16,
        EfiKey::B2 => 17,
        EfiKey::B3 => 18,
        EfiKey::B4 => 19,
        EfiKey::B5 => 20,
        EfiKey::B6 => 21,
        EfiKey::B7 => 22,
        EfiKey::B8 => 23,
        EfiKey::B9 => 24,
        EfiKey::B10 => 25,
        EfiKey::RShift => 26,
        EfiKey::UpArrow => 27,
        EfiKey::One => 28,
        EfiKey::Two => 29,
        EfiKey::Three => 30,
        EfiKey::CapsLock => 31,
        EfiKey::C1 => 32,
        EfiKey::C2 => 33,
        EfiKey::C3 => 34,
        EfiKey::C4 => 35,
        EfiKey::C5 => 36,
        EfiKey::C6 => 37,
        EfiKey::C7 => 38,
        EfiKey::C8 => 39,
        EfiKey::C9 => 40,
        EfiKey::C10 => 41,
        EfiKey::C11 => 42,
        EfiKey::C12 => 43,
        EfiKey::Four => 44,
        EfiKey::Five => 45,
        EfiKey::Six => 46,
        EfiKey::Plus => 47,
        EfiKey::Tab => 48,
        EfiKey::D1 => 49,
        EfiKey::D2 => 50,
        EfiKey::D3 => 51,
        EfiKey::D4 => 52,
        EfiKey::D5 => 53,
        EfiKey::D6 => 54,
        EfiKey::D7 => 55,
        EfiKey::D8 => 56,
        EfiKey::D9 => 57,
        EfiKey::D10 => 58,
        EfiKey::D11 => 59,
        EfiKey::D12 => 60,
        EfiKey::D13 => 61,
        EfiKey::Del => 62,
        EfiKey::End => 63,
        EfiKey::PgDn => 64,
        EfiKey::Seven => 65,
        EfiKey::Eight => 66,
        EfiKey::Nine => 67,
        EfiKey::E0 => 68,
        EfiKey::E1 => 69,
        EfiKey::E2 => 70,
        EfiKey::E3 => 71,
        EfiKey::E4 => 72,
        EfiKey::E5 => 73,
        EfiKey::E6 => 74,
        EfiKey::E7 => 75,
        EfiKey::E8 => 76,
        EfiKey::E9 => 77,
        EfiKey::E10 => 78,
        EfiKey::E11 => 79,
        EfiKey::E12 => 80,
        EfiKey::BackSpace => 81,
        EfiKey::Ins => 82,
        EfiKey::Home => 83,
        EfiKey::PgUp => 84,
        EfiKey::NLck => 85,
        EfiKey::Slash => 86,
        EfiKey::Asterisk => 87,
        EfiKey::Minus => 88,
        EfiKey::Esc => 89,
        EfiKey::F1 => 90,
        EfiKey::F2 => 91,
        EfiKey::F3 => 92,
        EfiKey::F4 => 93,
        EfiKey::F5 => 94,
        EfiKey::F6 => 95,
        EfiKey::F7 => 96,
        EfiKey::F8 => 97,
        EfiKey::F9 => 98,
        EfiKey::F10 => 99,
        EfiKey::F11 => 100,
        EfiKey::F12 => 101,
        EfiKey::Print => 102,
        EfiKey::SLck => 103,
        EfiKey::Pause => 104,
        EfiKey::Intl0 => 105,
        EfiKey::Intl1 => 106,
        EfiKey::Intl2 => 107,
        EfiKey::Intl3 => 108,
        EfiKey::Intl4 => 109,
        EfiKey::Intl5 => 110,
        EfiKey::Intl6 => 111,
        EfiKey::Intl7 => 112,
        EfiKey::Intl8 => 113,
        EfiKey::Intl9 => 114,
    }
}

pub fn efi_key_from_num(v: u32) -> (r: Option<EfiKey>)
    ensures r == spec_efi_key_from_num(v),
{
    if v == 0 { Some(EfiKey::LCtrl) }
    else if v == 1 { Some(EfiKey::A0) }
    else if v == 2 { Some(EfiKey::LAlt) }
    else if v == 3 { Some(EfiKey::SpaceBar) }
    else if v == 4 { Some(EfiKey::A2) }
    else if v == 5 { Some(EfiKey::A3) }
    else if v == 6 { Some(EfiKey::A4) }
    else if v == 7 { Some(EfiKey::RCtrl) }
    else if v == 8 { Some(EfiKey::LeftArrow) }
    else if v == 9 { Some(EfiKey::DownArrow) }
    else if v == 10 { Some(EfiKey::RightArrow) }
    else if v == 11 { Some(EfiKey::Zero) }
    else if v == 12 { Some(EfiKey::Period) }
    else if v == 13 { Some(EfiKey::Enter) }
    else if v == 14 { Some(EfiKey::LShift) }
    else if v == 15 { Some(EfiKey::B0) }
    else if v == 16 { Some(EfiKey::B1) }
    else if v == 17 { Some(EfiKey::B2) }
    else if v == 18 { Some(EfiKey::B3) }
    else if v == 19 { Some(EfiKey::B4) }
    else if v == 20 { Some(EfiKey::B5) }
    else if v == 21 { Some(EfiKey::B6) }
    else if v == 22 { Some(EfiKey::B7) }
    else if v == 23 { Some(EfiKey::B8) }
    else if v == 24 { Some(EfiKey::B9) }
    else if v == 25 { Some(EfiKey::B10) }
    else if v == 26 { Some(EfiKey::RShift) }
    else if v == 27 { Some(EfiKey::UpArrow) }
    else if v == 28 { Some(EfiKey::One) }
    else if v == 29 { Some(EfiKey::Two) }
    else if v == 30 { Some(EfiKey::Three) }
    else if v == 31 { Some(EfiKey::CapsLock) }
    else if v == 32 { Some(EfiKey::C1) }
    else if v == 33 { Some(EfiKey::C2) }
    else if v == 34 { Some(EfiKey::C3) }
    else if v == 35 { Some(EfiKey::C4) }
    else if v == 36 { Some(EfiKey::C5) }
    else if v == 37 { Some(EfiKey::C6) }
    else if v == 38 { Some(EfiKey::C7) }
    else if v == 39 { Some(EfiKey::C8) }
    else if v == 40 { Some(EfiKey::C9) }
    else if v == 41 { Some(EfiKey::C10) }
    else if v == 42 { Some(EfiKey::C11) }
    else if v == 43 { Some(EfiKey::C12) }
    else if v == 44 { Some(EfiKey::Four) }
    else if v == 45 { Some(EfiKey::Five) }
    else if v == 46 { Some(EfiKey::Six) }
    else if v == 47 { Some(EfiKey::Plus) }
    else if v == 48 { Some(EfiKey::Tab) }
    else if v == 49 { Some(EfiKey::D1) }
    else if v == 50 { Some(EfiKey::D2) }
    else if v == 51 { Some(EfiKey::D3) }
    else if v == 52 { Some(EfiKey::D4) }
    else if v == 53 { Some(EfiKey::D5) }
    else if v == 54 { Some(EfiKey::D6) }
    else if v == 55 { Some(EfiKey::D7) }
    else if v == 56 { Some(EfiKey::D8) }
    else if v == 57 { Some(EfiKey::D9) }
    else if v == 58 { Some(EfiKey::D10) }
    else if v == 59 { Some(EfiKey::D11) }
    else if v == 60 { Some(EfiKey::D12) }
    else if v == 61 { Some(EfiKey::D13) }
    else if v == 62 { Some(EfiKey::Del) }
    else if v == 63 { Some(EfiKey::End) }
    else if v == 64 { Some(EfiKey::PgDn) }
    else if v == 65 { Some(EfiKey::Seven) }
    else if v == 66 { Some(EfiKey::Eight) }
    else if v == 67 { Some(EfiKey::Nine) }
    else if v == 68 { Some(EfiKey::E0) }
    else if v == 69 { Some(EfiKey::E1) }
    else if v == 70 { Some(EfiKey::E2) }
    else if v == 71 { Some(EfiKey::E3) }
    else if v == 72 { Some(EfiKey::E4) }
    else if v == 73 { Some(EfiKey::E5) }
    else if v == 74 { Some(EfiKey::E6) }
    else if v == 75 { Some(EfiKey::E7) }
    else if v == 76 { Some(EfiKey::E8) }
    else if v == 77 { Some(EfiKey::E9) }
    else if v == 78 { Some(EfiKey::E10) }
    else if v == 79 { Some(EfiKey::E11) }
    else if v == 80 { Some(EfiKey::E12) }
    else if v == 81 { Some(EfiKey::BackSpace) }
    else if v == 82 { Some(EfiKey::Ins) }
    else if v == 83 { Some(EfiKey::Home) }
    else if v == 84 { Some(EfiKey::PgUp) }
    else if v == 85 { Some(EfiKey::NLck) }
    else if v == 86 { Some(EfiKey::Slash) }
    else if v == 87 { Some(EfiKey::Asterisk) }
    else if v == 88 { Some(EfiKey::Minus) }
    else if v == 89 { Some(EfiKey::Esc) }
    else if v == 90 { Some(EfiKey::F1) }
    else if v == 91 { Some(EfiKey::F2) }
    else if v == 92 { Some(EfiKey::F3) }
    else if v == 93 { Some(EfiKey::F4) }
    else if v == 94 { Some(EfiKey::F5) }
    else if v == 95 { Some(EfiKey::F6) }
    else if v == 96 { Some(EfiKey::F7) }
    else if v == 97 { Some(EfiKey::F8) }
    else if v == 98 { Some(EfiKey::F9) }
    else if v == 99 { Some(EfiKey::F10) }
    else if v == 100 { Some(EfiKey::F11) }
    else if v == 101 { Some(EfiKey::F12) }
    else if v == 102 { Some(EfiKey::Print) }
    else if v == 103 { Some(EfiKey::SLck) }
    else if v == 104 { Some(EfiKey::Pause) }
    else if v == 105 { Some(EfiKey::Intl0) }
    else if v == 106 { Some(EfiKey::Intl1) }
    else if v == 107 { Some(EfiKey::Intl2) }
    else if v == 108 { Some(EfiKey::Intl3) }
    else if v == 109 { Some(EfiKey::Intl4) }
    else if v == 110 { Some(EfiKey::Intl5) }
    else if v == 111 { Some(EfiKey::Intl6) }
    else if v == 112 { Some(EfiKey::Intl7) }
    else if v == 113 { Some(EfiKey::Intl8) }
    else if v == 114 { Some(EfiKey::Intl9) }
    else { None }
}

/// Encoding then decoding a physical key yields the key again.
pub proof fn lemma_efi_key_num_roundtrip(k: EfiKey)
    ensures spec_efi_key_from_num(spec_efi_key_num(k)) == Some(k),
{
}

/// Decoding then encoding a numeric code yields the code again.
pub proof fn lemma_efi_key_num_inverse(v: u32)
    ensures spec_efi_key_from_num(v) matches Some(k) ==> spec_efi_key_num(k) == v,
{
}

/// The physical key a HID usage stands for, per the fixed usage table.
pub open spec fn spec_usage_to_efi_key(u: u32) -> Option<EfiKey> {
    if u == 0x00070004 { Some(EfiKey::C1) }
    else if u == 0x00070005 { Some(EfiKey::B5) }
    else if u == 0x00070006 { Some(EfiKey::B3) }
    else if u == 0x00070007 { Some(EfiKey::C3) }
    else if u == 0x00070008 { Some(EfiKey::D3) }
    else if u == 0x00070009 { Some(EfiKey::C4) }
    else if u == 0x0007000A { Some(EfiKey::C5) }
    else if u == 0x0007000B { Some(EfiKey::C6) }
    else if u == 0x0007000C { Some(EfiKey::D8) }
    else if u == 0x0007000D { Some(EfiKey::C7) }
    else if u == 0x0007000E { Some(EfiKey::C8) }
    else if u == 0x0007000F { Some(EfiKey::C9) }
    else if u == 0x00070010 { Some(EfiKey::B7) }
    else if u == 0x00070011 { Some(EfiKey::B6) }
    else if u == 0x00070012 { Some(EfiKey::D9) }
    else if u == 0x00070013 { Some(EfiKey::D10) }
    else if u == 0x00070014 { Some(EfiKey::D1) }
    else if u == 0x00070015 { Some(EfiKey::D4) }
    else if u == 0x00070016 { Some(EfiKey::C2) }
    else if u == 0x00070017 { Some(EfiKey::D5) }
    else if u == 0x00070018 { Some(EfiKey::D7) }
    else if u == 0x00070019 { Some(EfiKey::B4) }
    else if u == 0x0007001A { Some(EfiKey::D2) }
    else if u == 0x0007001B { Some(EfiKey::B2) }
    else if u == 0x0007001C { Some(EfiKey::D6) }
    else if u == 0x0007001D { Some(EfiKey::B1) }
    else if u == 0x0007001E { Some(EfiKey::E1) }
    else if u == 0x0007001F { Some(EfiKey::E2) }
    else if u == 0x00070020 { Some(EfiKey::E3) }
    else if u == 0x00070021 { Some(EfiKey::E4) }
    else if u == 0x00070022 { Some(EfiKey::E5) }
    else if u == 0x00070023 { Some(EfiKey::E6) }
    else if u == 0x00070024 { Some(EfiKey::E7) }
    else if u == 0x00070025 { Some(EfiKey::E8) }
    else if u == 0x00070026 { Some(EfiKey::E9) }
    else if u == 0x00070027 { Some(EfiKey::E10) }
    else if u == 0x00070028 { Some(EfiKey::Enter) }
    else if u == 0x00070029 { Some(EfiKey::Esc) }
    else if u == 0x0007002A { Some(EfiKey::BackSpace) }
    else if u == 0x0007002B { Some(EfiKey::Tab) }
    else if u == 0x0007002C { Some(EfiKey::SpaceBar) }
    else if u == 0x0007002D { Some(EfiKey::E11) }
    else if u == 0x0007002E { Some(EfiKey::E12) }
    else if u == 0x0007002F { Some(EfiKey::D11) }
    else if u == 0x00070030 { Some(EfiKey::D12) }
    else if u == 0x00070031 { Some(EfiKey::D13) }
    else if u == 0x00070032 { Some(EfiKey::C12) }
    else if u == 0x00070033 { Some(EfiKey::C10) }
    else if u == 0x00070034 { Some(EfiKey::C11) }
    else if u == 0x00070035 { Some(EfiKey::E0) }
    else if u == 0x00070036 { Some(EfiKey::B8) }
    else if u == 0x00070037 { Some(EfiKey::B9) }
    else if u == 0x00070038 { Some(EfiKey::B10) }
    else if u == 0x00070039 { Some(EfiKey::CapsLock) }
    else if u == 0x0007003A { Some(EfiKey::F1) }
    else if u == 0x0007003B { Some(EfiKey::F2) }
    else if u == 0x0007003C { Some(EfiKey::F3) }
    else if u == 0x0007003D { Some(EfiKey::F4) }
    else if u == 0x0007003E { Some(EfiKey::F5) }
    else if u == 0x0007003F { Some(EfiKey::F6) }
    else if u == 0x00070040 { Some(EfiKey::F7) }
    else if u == 0x00070041 { Some(EfiKey::F8) }
    else if u == 0x00070042 { Some(EfiKey::F9) }
    else if u == 0x00070043 { Some(EfiKey::F10) }
    else if u == 0x00070044 { Some(EfiKey::F11) }
    else if u == 0x00070045 { Some(EfiKey::F12) }
    else if u == 0x00070046 { Some(EfiKey::Print) }
    else if u == 0x00070047 { Some(EfiKey::SLck) }
    else if u == 0x00070048 { Some(EfiKey::Pause) }
    else if u == 0x00070049 { Some(EfiKey::Ins) }
    else if u == 0x0007004A { Some(EfiKey::Home) }
    else if u == 0x0007004B { Some(EfiKey::PgUp) }
    else if u == 0x0007004C { Some(EfiKey::Del) }
    else if u == 0x0007004D { Some(EfiKey::End) }
    else if u == 0x0007004E { Some(EfiKey::PgDn) }
    else if u == 0x0007004F { Some(EfiKey::RightArrow) }
    else if u == 0x00070050 { Some(EfiKey::LeftArrow) }
    else if u == 0x00070051 { Some(EfiKey::DownArrow) }
    else if u == 0x00070052 { Some(EfiKey::UpArrow) }
    else if u == 0x00070053 { Some(EfiKey::NLck) }
    else if u == 0x00070054 { Some(EfiKey::Slash) }
    else if u == 0x00070055 { Some(EfiKey::Asterisk) }
    else if u == 0x00070056 { Some(EfiKey::Minus) }
    else if u == 0x00070057 { Some(EfiKey::Plus) }
    else if u == 0x00070058 { Some(EfiKey::Enter) }
    else if u == 0x00070059 { Some(EfiKey::One) }
    else if u == 0x0007005A { Some(EfiKey::Two) }
    else if u == 0x0007005B { Some(EfiKey::Three) }
    else if u == 0x0007005C { Some(EfiKey::Four) }
    else if u == 0x0007005D { Some(EfiKey::Five) }
    else if u == 0x0007005E { Some(EfiKey::Six) }
    else if u == 0x0007005F { Some(EfiKey::Seven) }
    else if u == 0x00070060 { Some(EfiKey::Eight) }
    else if u == 0x00070061 { Some(EfiKey::Nine) }
    else if u == 0x00070062 { Some(EfiKey::Zero) }
    else if u == 0x00070063 { Some(EfiKey::Period) }
    else if u == 0x00070064 { Some(EfiKey::B0) }
    else if u == 0x00070065 { Some(EfiKey::A4) }
    else if u == 0x000700E0 { Some(EfiKey::LCtrl) }
    else if u == 0x000700E1 { Some(EfiKey::LShift) }
    else if u == 0x000700E2 { Some(EfiKey::LAlt) }
    else if u == 0x000700E3 { Some(EfiKey::A0) }
    else if u == 0x000700E4 { Some(EfiKey::RCtrl) }
    else if u == 0x000700E5 { Some(EfiKey::RShift) }
    else if u == 0x000700E6 { Some(EfiKey::A2) }
    else if u == 0x000700E7 { Some(EfiKey::A3) }
    else { None }
}

pub fn usage_to_efi_key(u: u32) -> (r: Option<EfiKey>)
    ensures r == spec_usage_to_efi_key(u),
{
    if u == 0x00070004 { Some(EfiKey::C1) }
    else if u == 0x00070005 { Some(EfiKey::B5) }
    else if u == 0x00070006 { Some(EfiKey::B3) }
    else if u == 0x00070007 { Some(EfiKey::C3) }
    else if u == 0x00070008 { Some(EfiKey::D3) }
    else if u == 0x00070009 { Some(EfiKey::C4) }
    else if u == 0x0007000A { Some(EfiKey::C5) }
    else if u == 0x0007000B { Some(EfiKey::C6) }
    else if u == 0x0007000C { Some(EfiKey::D8) }
    else if u == 0x0007000D { Some(EfiKey::C7) }
    else if u == 0x0007000E { Some(EfiKey::C8) }
    else if u == 0x0007000F { Some(EfiKey::C9) }
    else if u == 0x00070010 { Some(EfiKey::B7) }
    else if u == 0x00070011 { Some(EfiKey::B6) }
    else if u == 0x00070012 { Some(EfiKey::D9) }
    else if u == 0x00070013 { Some(EfiKey::D10) }
    else if u == 0x00070014 { Some(EfiKey::D1) }
    else if u == 0x00070015 { Some(EfiKey::D4) }
    else if u == 0x00070016 { Some(EfiKey::C2) }
    else if u == 0x00070017 { Some(EfiKey::D5) }
    else if u == 0x00070018 { Some(EfiKey::D7) }
    else if u == 0x00070019 { Some(EfiKey::B4) }
    else if u == 0x0007001A { Some(EfiKey::D2) }
    else if u == 0x0007001B { Some(EfiKey::B2) }
    else if u == 0x0007001C { Some(EfiKey::D6) }
    else if u == 0x0007001D { Some(EfiKey::B1) }
    else if u == 0x0007001E { Some(EfiKey::E1) }
    else if u == 0x0007001F { Some(EfiKey::E2) }
    else if u == 0x00070020 { Some(EfiKey::E3) }
    else if u == 0x00070021 { Some(EfiKey::E4) }
    else if u == 0x00070022 { Some(EfiKey::E5) }
    else if u == 0x00070023 { Some(EfiKey::E6) }
    else if u == 0x00070024 { Some(EfiKey::E7) }
    else if u == 0x00070025 { Some(EfiKey::E8) }
    else if u == 0x00070026 { Some(EfiKey::E9) }
    else if u == 0x00070027 { Some(EfiKey::E10) }
    else if u == 0x00070028 { Some(EfiKey::Enter) }
    else if u == 0x00070029 { Some(EfiKey::Esc) }
    else if u == 0x0007002A { Some(EfiKey::BackSpace) }
    else if u == 0x0007002B { Some(EfiKey::Tab) }
    else if u == 0x0007002C { Some(EfiKey::SpaceBar) }
    else if u == 0x0007002D { Some(EfiKey::E11) }
    else if u == 0x0007002E { Some(EfiKey::E12) }
    else if u == 0x0007002F { Some(EfiKey::D11) }
    else if u == 0x00070030 { Some(EfiKey::D12) }
    else if u == 0x00070031 { Some(EfiKey::D13) }
    else if u == 0x00070032 { Some(EfiKey::C12) }
    else if u == 0x00070033 { Some(EfiKey::C10) }
    else if u == 0x00070034 { Some(EfiKey::C11) }
    else if u == 0x00070035 { Some(EfiKey::E0) }
    else if u == 0x00070036 { Some(EfiKey::B8) }
    else if u == 0x00070037 { Some(EfiKey::B9) }
    else if u == 0x00070038 { Some(EfiKey::B10) }
    else if u == 0x00070039 { Some(EfiKey::CapsLock) }
    else if u == 0x0007003A { Some(EfiKey::F1) }
    else if u == 0x0007003B { Some(EfiKey::F2) }
    else if u == 0x0007003C { Some(EfiKey::F3) }
    else if u == 0x0007003D { Some(EfiKey::F4) }
    else if u == 0x0007003E { Some(EfiKey::F5) }
    else if u == 0x0007003F { Some(EfiKey::F6) }
    else if u == 0x00070040 { Some(EfiKey::F7) }
    else if u == 0x00070041 { Some(EfiKey::F8) }
    else if u == 0x00070042 { Some(EfiKey::F9) }
    else if u == 0x00070043 { Some(EfiKey::F10) }
    else if u == 0x00070044 { Some(EfiKey::F11) }
    else if u == 0x00070045 { Some(EfiKey::F12) }
    else if u == 0x00070046 { Some(EfiKey::Print) }
    else if u == 0x00070047 { Some(EfiKey::SLck) }
    else if u == 0x00070048 { Some(EfiKey::Pause) }
    else if u == 0x00070049 { Some(EfiKey::Ins) }
    else if u == 0x0007004A { Some(EfiKey::Home) }
    else if u == 0x0007004B { Some(EfiKey::PgUp) }
    else if u == 0x0007004C { Some(EfiKey::Del) }
    else if u == 0x0007004D { Some(EfiKey::End) }
    else if u == 0x0007004E { Some(EfiKey::PgDn) }
    else if u == 0x0007004F { Some(EfiKey::RightArrow) }
    else if u == 0x00070050 { Some(EfiKey::LeftArrow) }
    else if u == 0x00070051 { Some(EfiKey::DownArrow) }
    else if u == 0x00070052 { Some(EfiKey::UpArrow) }
    else if u == 0x00070053 { Some(EfiKey::NLck) }
    else if u == 0x00070054 { Some(EfiKey::Slash) }
    else if u == 0x00070055 { Some(EfiKey::Asterisk) }
    else if u == 0x00070056 { Some(EfiKey::Minus) }
    else if u == 0x00070057 { Some(EfiKey::Plus) }
    else if u == 0x00070058 { Some(EfiKey::Enter) }
    else if u == 0x00070059 { Some(EfiKey::One) }
    else if u == 0x0007005A { Some(EfiKey::Two) }
    else if u == 0x0007005B { Some(EfiKey::Three) }
    else if u == 0x0007005C { Some(EfiKey::Four) }
    else if u == 0x0007005D { Some(EfiKey::Five) }
    else if u == 0x0007005E { Some(EfiKey::Six) }
    else if u == 0x0007005F { Some(EfiKey::Seven) }
    else if u == 0x00070060 { Some(EfiKey::Eight) }
    else if u == 0x00070061 { Some(EfiKey::Nine) }
    else if u == 0x00070062 { Some(EfiKey::Zero) }
    else if u == 0x00070063 { Some(EfiKey::Period) }
    else if u == 0x00070064 { Some(EfiKey::B0) }
    else if u == 0x00070065 { Some(EfiKey::A4) }
    else if u == 0x000700E0 { Some(EfiKey::LCtrl) }
    else if u == 0x000700E1 { Some(EfiKey::LShift) }
    else if u == 0x000700E2 { Some(EfiKey::LAlt) }
    else if u == 0x000700E3 { Some(EfiKey::A0) }
    else if u == 0x000700E4 { Some(EfiKey::RCtrl) }
    else if u == 0x000700E5 { Some(EfiKey::RShift) }
    else if u == 0x000700E6 { Some(EfiKey::A2) }
    else if u == 0x000700E7 { Some(EfiKey::A3) }
    else { None }
}

/// Scan code produced for a modifier code; the null scan for the rest.
pub open spec fn spec_modifier_to_scan(m: u16) -> u16 {
    if m == INSERT_MODIFIER { SCAN_INSERT }
    else if m == DELETE_MODIFIER { SCAN_DELETE }
    else if m == PAGE_DOWN_MODIFIER { SCAN_PAGE_DOWN }
    else if m == PAGE_UP_MODIFIER { SCAN_PAGE_UP }
    else if m == HOME_MODIFIER { SCAN_HOME }
    else if m == END_MODIFIER { SCAN_END }
    else if m == LEFT_ARROW_MODIFIER { SCAN_LEFT }
    else if m == RIGHT_ARROW_MODIFIER { SCAN_RIGHT }
    else if m == DOWN_ARROW_MODIFIER { SCAN_DOWN }
    else if m == UP_ARROW_MODIFIER { SCAN_UP }
    else if m == FUNCTION_KEY_ONE_MODIFIER { SCAN_F1 }
    else if m == FUNCTION_KEY_TWO_MODIFIER { SCAN_F2 }
    else if m == FUNCTION_KEY_THREE_MODIFIER { SCAN_F3 }
    else if m == FUNCTION_KEY_FOUR_MODIFIER { SCAN_F4 }
    else if m == FUNCTION_KEY_FIVE_MODIFIER { SCAN_F5 }
    else if m == FUNCTION_KEY_SIX_MODIFIER { SCAN_F6 }
    else if m == FUNCTION_KEY_SEVEN_MODIFIER { SCAN_F7 }
    else if m == FUNCTION_KEY_EIGHT_MODIFIER { SCAN_F8 }
    else if m == FUNCTION_KEY_NINE_MODIFIER { SCAN_F9 }
    else if m == FUNCTION_KEY_TEN_MODIFIER { SCAN_F10 }
    else if m == FUNCTION_KEY_ELEVEN_MODIFIER { SCAN_F11 }
    else if m == FUNCTION_KEY_TWELVE_MODIFIER { SCAN_F12 }
    else if m == PAUSE_MODIFIER { SCAN_PAUSE }
    else { SCAN_NULL }
}

pub fn modifier_to_scan(m: u16) -> (r: u16)
    ensures r == spec_modifier_to_scan(m),
{
    if m == INSERT_MODIFIER { SCAN_INSERT }
    else if m == DELETE_MODIFIER { SCAN_DELETE }
    else if m == PAGE_DOWN_MODIFIER { SCAN_PAGE_DOWN }
    else if m == PAGE_UP_MODIFIER { SCAN_PAGE_UP }
    else if m == HOME_MODIFIER { SCAN_HOME }
    else if m == END_MODIFIER { SCAN_END }
    else if m == LEFT_ARROW_MODIFIER { SCAN_LEFT }
    else if m == RIGHT_ARROW_MODIFIER { SCAN_RIGHT }
    else if m == DOWN_ARROW_MODIFIER { SCAN_DOWN }
    else if m == UP_ARROW_MODIFIER { SCAN_UP }
    else if m == FUNCTION_KEY_ONE_MODIFIER { SCAN_F1 }
    else if m == FUNCTION_KEY_TWO_MODIFIER { SCAN_F2 }
    else if m == FUNCTION_KEY_THREE_MODIFIER { SCAN_F3 }
    else if m == FUNCTION_KEY_FOUR_MODIFIER { SCAN_F4 }
    else if m == FUNCTION_KEY_FIVE_MODIFIER { SCAN_F5 }
    else if m == FUNCTION_KEY_SIX_MODIFIER { SCAN_F6 }
    else if m == FUNCTION_KEY_SEVEN_MODIFIER { SCAN_F7 }
    else if m == FUNCTION_KEY_EIGHT_MODIFIER { SCAN_F8 }
    else if m == FUNCTION_KEY_NINE_MODIFIER { SCAN_F9 }
    else if m == FUNCTION_KEY_TEN_MODIFIER { SCAN_F10 }
    else if m == FUNCTION_KEY_ELEVEN_MODIFIER { SCAN_F11 }
    else if m == FUNCTION_KEY_TWELVE_MODIFIER { SCAN_F12 }
    else if m == PAUSE_MODIFIER { SCAN_PAUSE }
    else { SCAN_NULL }
}

/// LED usage lit by a lock modifier, if any.
pub open spec fn spec_modifier_to_led_usage(m: u16) -> Option<u32> {
    if m == NUM_LOCK_MODIFIER { Some(LED_USAGE_NUM_LOCK) }
    else if m == CAPS_LOCK_MODIFIER { Some(LED_USAGE_CAPS_LOCK) }
    else if m == SCROLL_LOCK_MODIFIER { Some(LED_USAGE_SCROLL_LOCK) }
    else { None }
}

pub fn modifier_to_led_usage(m: u16) -> (r: Option<u32>)
    ensures r == spec_modifier_to_led_usage(m),
{
    if m == NUM_LOCK_MODIFIER { Some(LED_USAGE_NUM_LOCK) }
    else if m == CAPS_LOCK_MODIFIER { Some(LED_USAGE_CAPS_LOCK) }
    else if m == SCROLL_LOCK_MODIFIER { Some(LED_USAGE_SCROLL_LOCK) }
    else { None }
}

/// True for the modifier codes that stay active while the key is held.
pub open spec fn spec_is_held_modifier(m: u16) -> bool {
    m == LEFT_CONTROL_MODIFIER || m == RIGHT_CONTROL_MODIFIER || m == LEFT_SHIFT_MODIFIER
        || m == RIGHT_SHIFT_MODIFIER || m == LEFT_ALT_MODIFIER || m == RIGHT_ALT_MODIFIER
        || m == LEFT_LOGO_MODIFIER || m == RIGHT_LOGO_MODIFIER || m == MENU_MODIFIER
        || m == PRINT_MODIFIER || m == SYS_REQUEST_MODIFIER || m == ALT_GR_MODIFIER
}

pub fn is_held_modifier(m: u16) -> (r: bool)
    ensures r == spec_is_held_modifier(m),
{
    m == LEFT_CONTROL_MODIFIER || m == RIGHT_CONTROL_MODIFIER || m == LEFT_SHIFT_MODIFIER
        || m == RIGHT_SHIFT_MODIFIER || m == LEFT_ALT_MODIFIER || m == RIGHT_ALT_MODIFIER
        || m == LEFT_LOGO_MODIFIER || m == RIGHT_LOGO_MODIFIER || m == MENU_MODIFIER
        || m == PRINT_MODIFIER || m == SYS_REQUEST_MODIFIER || m == ALT_GR_MODIFIER
}

/// True for the modifier codes that toggle on each press.
pub open spec fn spec_is_toggle_modifier(m: u16) -> bool {
    m == NUM_LOCK_MODIFIER || m == CAPS_LOCK_MODIFIER || m == SCROLL_LOCK_MODIFIER
}

pub fn is_toggle_modifier(m: u16) -> (r: bool)
    ensures r == spec_is_toggle_modifier(m),
{
    m == NUM_LOCK_MODIFIER || m == CAPS_LOCK_MODIFIER || m == SCROLL_LOCK_MODIFIER
}

} // verus!
