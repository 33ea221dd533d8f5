//! The built-in default keyboard layout: the standard US-104 layout,
//! pinned as a spec-level constant that the builders are proved to return.

use vstd::prelude::*;
use crate::keys::{
    EfiKey, NULL_MODIFIER, CAPS_LOCK_MODIFIER, NUM_LOCK_MODIFIER, SCROLL_LOCK_MODIFIER,
    PRINT_MODIFIER, PAUSE_MODIFIER, INSERT_MODIFIER, HOME_MODIFIER, PAGE_UP_MODIFIER,
    DELETE_MODIFIER, END_MODIFIER, PAGE_DOWN_MODIFIER, RIGHT_ARROW_MODIFIER,
    LEFT_ARROW_MODIFIER, DOWN_ARROW_MODIFIER, UP_ARROW_MODIFIER, MENU_MODIFIER,
    LEFT_CONTROL_MODIFIER, LEFT_SHIFT_MODIFIER, LEFT_ALT_MODIFIER, LEFT_LOGO_MODIFIER,
    RIGHT_CONTROL_MODIFIER, RIGHT_SHIFT_MODIFIER, RIGHT_ALT_MODIFIER, RIGHT_LOGO_MODIFIER,
    FUNCTION_KEY_ONE_MODIFIER, FUNCTION_KEY_TWO_MODIFIER, FUNCTION_KEY_THREE_MODIFIER,
    FUNCTION_KEY_FOUR_MODIFIER, FUNCTION_KEY_FIVE_MODIFIER, FUNCTION_KEY_SIX_MODIFIER,
    FUNCTION_KEY_SEVEN_MODIFIER, FUNCTION_KEY_EIGHT_MODIFIER, FUNCTION_KEY_NINE_MODIFIER,
    FUNCTION_KEY_TEN_MODIFIER, FUNCTION_KEY_ELEVEN_MODIFIER, FUNCTION_KEY_TWELVE_MODIFIER,
    NS_KEY_MODIFIER, NS_KEY_DEPENDENCY_MODIFIER,
    AFFECTED_BY_STANDARD_SHIFT, AFFECTED_BY_CAPS_LOCK, AFFECTED_BY_NUM_LOCK,
};
use crate::layout::{
    Guid, HiiKeyDescriptor, HiiKey, HiiKeyView, HiiKeyboardDescription,
    HiiKeyboardLayout, HiiKeyboardPkg, HiiKeyboardPkgList,
    LayoutView, DescriptionView, PkgView, PkgListView,
};
use crate::codec::{
    spec_keys_view, spec_keys_wf, spec_key_item_wf, spec_plain_key_wf, spec_flatten_keys,
    spec_layout_wf, spec_layout_len, spec_descriptions_wf, spec_description_wf,
    spec_descs_view, spec_layouts_view, spec_pkg_wf, spec_pkg_list_wf, spec_enc_pkg_list,
    lemma_flatten_snoc, lemma_keys_wf_snoc, lemma_flatten_concat, lemma_keys_wf_concat,
    lemma_bmp_valid_utf16, lemma_enc_layout_len, lemma_enc_strings_single_len,
    pkg_list_to_buffer,
};

verus! {

/// One run of the default layout's key table.
pub open spec fn spec_default_keys_a() -> Seq<HiiKeyView> {
    seq![
        HiiKeyView::Key(HiiKeyDescriptor { key: EfiKey::C1, unicode: 0x0061,
            shifted_unicode: 0x0041, alt_gr_unicode: 0, shifted_alt_gr_unicode: 0,
            modifier: NULL_MODIFIER, affected_attribute: AFFECTED_BY_STANDARD_SHIFT | AFFECTED_BY_CAPS_LOCK }),
        HiiKeyView::Key(HiiKeyDescriptor { key: EfiKey::B5, unicode: 0x0062,
            shifted_unicode: 0x0042, alt_gr_unicode: 0, shifted_alt_gr_unicode: 0,
            modifier: NULL_MODIFIER, affected_attribute: AFFECTED_BY_STANDARD_SHIFT | AFFECTED_BY_CAPS_LOCK }),
        HiiKeyView::Key(HiiKeyDescriptor { key: EfiKey::B3, unicode: 0x0063,
            shifted_unicode: 0x0043, alt_gr_unicode: 0, shifted_alt_gr_unicode: 0,
            modifier: NULL_MODIFIER, affected_attribute: AFFECTED_BY_STANDARD_SHIFT | AFFECTED_BY_CAPS_LOCK }),
        HiiKeyView::Key(HiiKeyDescriptor { key: EfiKey::C3, unicode: 0x0064,
            shifted_unicode: 0x0044, alt_gr_unicode: 0, shifted_alt_gr_unicode: 0,
            modifier: NULL_MODIFIER, affected_attribute: AFFECTED_BY_STANDARD_SHIFT | AFFECTED_BY_CAPS_LOCK }),
        HiiKeyView::Key(HiiKeyDescriptor { key: EfiKey::D3, unicode: 0x0065,
            shifted_unicode: 0x0045, alt_gr_unicode: 0, shifted_alt_gr_unicode: 0,
            modifier: NULL_MODIFIER, affected_attribute: AFFECTED_BY_STANDARD_SHIFT | AFFECTED_BY_CAPS_LOCK }),
        HiiKeyView::Key(HiiKeyDescriptor { key: EfiKey::C4, unicode: 0x0066,
            shifted_unicode: 0x0046, alt_gr_unicode: 0, shifted_alt_gr_unicode: 0,
            modifier: NULL_MODIFIER, affected_attribute: AFFECTED_BY_STANDARD_SHIFT | AFFECTED_BY_CAPS_LOCK }),
        HiiKeyView::Key(HiiKeyDescriptor { key: EfiKey::C5, unicode: 0x0067,
            shifted_unicode: 0x0047, alt_gr_unicode: 0, shifted_alt_gr_unicode: 0,
            modifier: NULL_MODIFIER, affected_attribute: AFFECTED_BY_STANDARD_SHIFT | AFFECTED_BY_CAPS_LOCK }),
        HiiKeyView::Key(HiiKeyDescriptor { key: EfiKey::C6, unicode: 0x0068,
            shifted_unicode: 0x0048, alt_gr_unicode: 0, shifted_alt_gr_unicode: 0,
            modifier: NULL_MODIFIER, affected_attribute: AFFECTED_BY_STANDARD_SHIFT | AFFECTED_BY_CAPS_LOCK }),
        HiiKeyView::Key(HiiKeyDescriptor { key: EfiKey::D8, unicode: 0x0069,
            shifted_unicode: 0x0049, alt_gr_unicode: 0, shifted_alt_gr_unicode: 0,
            modifier: NULL_MODIFIER, affected_attribute: AFFECTED_BY_STANDARD_SHIFT | AFFECTED_BY_CAPS_LOCK }),
        HiiKeyView::Key(HiiKeyDescriptor { key: EfiKey::C7, unicode: 0x006A,
            shifted_unicode: 0x004A, alt_gr_unicode: 0, shifted_alt_gr_unicode: 0,
            modifier: NULL_MODIFIER, affected_attribute: AFFECTED_BY_STANDARD_SHIFT | AFFECTED_BY_CAPS_LOCK }),
        HiiKeyView::Key(HiiKeyDescriptor { key: EfiKey::C8, unicode: 0x006B,
            shifted_unicode: 0x004B, alt_gr_unicode: 0, shifted_alt_gr_unicode: 0,
            modifier: NULL_MODIFIER, affected_attribute: AFFECTED_BY_STANDARD_SHIFT | AFFECTED_BY_CAPS_LOCK }),
        HiiKeyView::Key(HiiKeyDescriptor { key: EfiKey::C9, unicode: 0x006C,
            shifted_unicode: 0x004C, alt_gr_unicode: 0, shifted_alt_gr_unicode: 0,
            modifier: NULL_MODIFIER, affected_attribute: AFFECTED_BY_STANDARD_SHIFT | AFFECTED_BY_CAPS_LOCK }),
        HiiKeyView::Key(HiiKeyDescriptor { key: EfiKey::B7, unicode: 0x006D,
            shifted_unicode: 0x004D, alt_gr_unicode: 0, shifted_alt_gr_unicode: 0,
            modifier: NULL_MODIFIER, affected_attribute: AFFECTED_BY_STANDARD_SHIFT | AFFECTED_BY_CAPS_LOCK }),
        HiiKeyView::Key(HiiKeyDescriptor { key: EfiKey::B6, unicode: 0x006E,
            shifted_unicode: 0x004E, alt_gr_unicode: 0, shifted_alt_gr_unicode: 0,
            modifier: NULL_MODIFIER, affected_attribute: AFFECTED_BY_STANDARD_SHIFT | AFFECTED_BY_CAPS_LOCK }),
        HiiKeyView::Key(HiiKeyDescriptor { key: EfiKey::D9, unicode: 0x006F,
            shifted_unicode: 0x004F, alt_gr_unicode: 0, shifted_alt_gr_unicode: 0,
            modifier: NULL_MODIFIER, affected_attribute: AFFECTED_BY_STANDARD_SHIFT | AFFECTED_BY_CAPS_LOCK }),
    ]
}

/// One run of the default layout's key table.
pub open spec fn spec_default_keys_b() -> Seq<HiiKeyView> {
    seq![
        HiiKeyView::Key(HiiKeyDescriptor { key: EfiKey::D10, unicode: 0x0070,
            shifted_unicode: 0x0050, alt_gr_unicode: 0, shifted_alt_gr_unicode: 0,
            modifier: NULL_MODIFIER, affected_attribute: AFFECTED_BY_STANDARD_SHIFT | AFFECTED_BY_CAPS_LOCK }),
        HiiKeyView::Key(HiiKeyDescriptor { key: EfiKey::D1, unicode: 0x0071,
            shifted_unicode: 0x0051, alt_gr_unicode: 0, shifted_alt_gr_unicode: 0,
            modifier: NULL_MODIFIER, affected_attribute: AFFECTED_BY_STANDARD_SHIFT | AFFECTED_BY_CAPS_LOCK }),
        HiiKeyView::Key(HiiKeyDescriptor { key: EfiKey::D4, unicode: 0x0072,
            shifted_unicode: 0x0052, alt_gr_unicode: 0, shifted_alt_gr_unicode: 0,
            modifier: NULL_MODIFIER, affected_attribute: AFFECTED_BY_STANDARD_SHIFT | AFFECTED_BY_CAPS_LOCK }),
        HiiKeyView::Key(HiiKeyDescriptor { key: EfiKey::C2, unicode: 0x0073,
            shifted_unicode: 0x0053, alt_gr_unicode: 0, shifted_alt_gr_unicode: 0,
            modifier: NULL_MODIFIER, affected_attribute: AFFECTED_BY_STANDARD_SHIFT | AFFECTED_BY_CAPS_LOCK }),
        HiiKeyView::Key(HiiKeyDescriptor { key: EfiKey::D5, unicode: 0x0074,
            shifted_unicode: 0x0054, alt_gr_unicode: 0, shifted_alt_gr_unicode: 0,
            modifier: NULL_MODIFIER, affected_attribute: AFFECTED_BY_STANDARD_SHIFT | AFFECTED_BY_CAPS_LOCK }),
        HiiKeyView::Key(HiiKeyDescriptor { key: EfiKey::D7, unicode: 0x0075,
            shifted_unicode: 0x0055, alt_gr_unicode: 0, shifted_alt_gr_unicode: 0,
            modifier: NULL_MODIFIER, affected_attribute: AFFECTED_BY_STANDARD_SHIFT | AFFECTED_BY_CAPS_LOCK }),
        HiiKeyView::Key(HiiKeyDescriptor { key: EfiKey::B4, unicode: 0x0076,
            shifted_unicode: 0x0056, alt_gr_unicode: 0, shifted_alt_gr_unicode: 0,
            modifier: NULL_MODIFIER, affected_attribute: AFFECTED_BY_STANDARD_SHIFT | AFFECTED_BY_CAPS_LOCK }),
        HiiKeyView::Key(HiiKeyDescriptor { key: EfiKey::D2, unicode: 0x0077,
            shifted_unicode: 0x0057, alt_gr_unicode: 0, shifted_alt_gr_unicode: 0,
            modifier: NULL_MODIFIER, affected_attribute: AFFECTED_BY_STANDARD_SHIFT | AFFECTED_BY_CAPS_LOCK }),
        HiiKeyView::Key(HiiKeyDescriptor { key: EfiKey::B2, unicode: 0x0078,
            shifted_unicode: 0x0058, alt_gr_unicode: 0, shifted_alt_gr_unicode: 0,
            modifier: NULL_MODIFIER, affected_attribute: AFFECTED_BY_STANDARD_SHIFT | AFFECTED_BY_CAPS_LOCK }),
        HiiKeyView::Key(HiiKeyDescriptor { key: EfiKey::D6, unicode: 0x0079,
            shifted_unicode: 0x0059, alt_gr_unicode: 0, shifted_alt_gr_unicode: 0,
            modifier: NULL_MODIFIER, affected_attribute: AFFECTED_BY_STANDARD_SHIFT | AFFECTED_BY_CAPS_LOCK }),
        HiiKeyView::Key(HiiKeyDescriptor { key: EfiKey::B1, unicode: 0x007A,
            shifted_unicode: 0x005A, alt_gr_unicode: 0, shifted_alt_gr_unicode: 0,
            modifier: NULL_MODIFIER, affected_attribute: AFFECTED_BY_STANDARD_SHIFT | AFFECTED_BY_CAPS_LOCK }),
        HiiKeyView::Key(HiiKeyDescriptor { key: EfiKey::E1, unicode: 0x0031,
            shifted_unicode: 0x0021, alt_gr_unicode: 0, shifted_alt_gr_unicode: 0,
            modifier: NULL_MODIFIER, affected_attribute: AFFECTED_BY_STANDARD_SHIFT }),
        HiiKeyView::Key(HiiKeyDescriptor { key: EfiKey::E2, unicode: 0x0032,
            shifted_unicode: 0x0040, alt_gr_unicode: 0, shifted_alt_gr_unicode: 0,
            modifier: NULL_MODIFIER, affected_attribute: AFFECTED_BY_STANDARD_SHIFT }),
        HiiKeyView::Key(HiiKeyDescriptor { key: EfiKey::E3, unicode: 0x0033,
            shifted_unicode: 0x0023, alt_gr_unicode: 0, shifted_alt_gr_unicode: 0,
            modifier: NULL_MODIFIER, affected_attribute: AFFECTED_BY_STANDARD_SHIFT }),
        HiiKeyView::Key(HiiKeyDescriptor { key: EfiKey::E4, unicode: 0x0034,
            shifted_unicode: 0x0024, alt_gr_unicode: 0, shifted_alt_gr_unicode: 0,
            modifier: NULL_MODIFIER, affected_attribute: AFFECTED_BY_STANDARD_SHIFT }),
    ]
}

/// One run of the default layout's key table.
pub open spec fn spec_default_keys_c() -> Seq<HiiKeyView> {
    seq![
        HiiKeyView::Key(HiiKeyDescriptor { key: EfiKey::E5, unicode: 0x0035,
            shifted_unicode: 0x0025, alt_gr_unicode: 0, shifted_alt_gr_unicode: 0,
            modifier: NULL_MODIFIER, affected_attribute: AFFECTED_BY_STANDARD_SHIFT }),
        HiiKeyView::Key(HiiKeyDescriptor { key: EfiKey::E6, unicode: 0x0036,
            shifted_unicode: 0x005E, alt_gr_unicode: 0, shifted_alt_gr_unicode: 0,
            modifier: NULL_MODIFIER, affected_attribute: AFFECTED_BY_STANDARD_SHIFT }),
        HiiKeyView::Key(HiiKeyDescriptor { key: EfiKey::E7, unicode: 0x0037,
            shifted_unicode: 0x0026, alt_gr_unicode: 0, shifted_alt_gr_unicode: 0,
            modifier: NULL_MODIFIER, affected_attribute: AFFECTED_BY_STANDARD_SHIFT }),
        HiiKeyView::Key(HiiKeyDescriptor { key: EfiKey::E8, unicode: 0x0038,
            shifted_unicode: 0x002A, alt_gr_unicode: 0, shifted_alt_gr_unicode: 0,
            modifier: NULL_MODIFIER, affected_attribute: AFFECTED_BY_STANDARD_SHIFT }),
        HiiKeyView::Key(HiiKeyDescriptor { key: EfiKey::E9, unicode: 0x0039,
            shifted_unicode: 0x0028, alt_gr_unicode: 0, shifted_alt_gr_unicode: 0,
            modifier: NULL_MODIFIER, affected_attribute: AFFECTED_BY_STANDARD_SHIFT }),
        HiiKeyView::Key(HiiKeyDescriptor { key: EfiKey::E10, unicode: 0x0030,
            shifted_unicode: 0x0029, alt_gr_unicode: 0, shifted_alt_gr_unicode: 0,
            modifier: NULL_MODIFIER, affected_attribute: AFFECTED_BY_STANDARD_SHIFT }),
        HiiKeyView::Key(HiiKeyDescriptor { key: EfiKey::Enter, unicode: 0x000D,
            shifted_unicode: 0x000D, alt_gr_unicode: 0, shifted_alt_gr_unicode: 0,
            modifier: NULL_MODIFIER, affected_attribute: 0 }),
        HiiKeyView::Key(HiiKeyDescriptor { key: EfiKey::Esc, unicode: 0x001B,
            shifted_unicode: 0x001B, alt_gr_unicode: 0, shifted_alt_gr_unicode: 0,
            modifier: NULL_MODIFIER, affected_attribute: 0 }),
        HiiKeyView::Key(HiiKeyDescriptor { key: EfiKey::BackSpace, unicode: 0x0008,
            shifted_unicode: 0x0008, alt_gr_unicode: 0, shifted_alt_gr_unicode: 0,
            modifier: NULL_MODIFIER, affected_attribute: 0 }),
        HiiKeyView::Key(HiiKeyDescriptor { key: EfiKey::Tab, unicode: 0x0009,
            shifted_unicode: 0x0009, alt_gr_unicode: 0, shifted_alt_gr_unicode: 0,
            modifier: NULL_MODIFIER, affected_attribute: 0 }),
        HiiKeyView::Key(HiiKeyDescriptor { key: EfiKey::SpaceBar, unicode: 0x0020,
            shifted_unicode: 0x0020, alt_gr_unicode: 0, shifted_alt_gr_unicode: 0,
            modifier: NULL_MODIFIER, affected_attribute: 0 }),
        HiiKeyView::Key(HiiKeyDescriptor { key: EfiKey::E11, unicode: 0x002D,
            shifted_unicode: 0x005F, alt_gr_unicode: 0, shifted_alt_gr_unicode: 0,
            modifier: NULL_MODIFIER, affected_attribute: AFFECTED_BY_STANDARD_SHIFT }),
        HiiKeyView::Key(HiiKeyDescriptor { key: EfiKey::E12, unicode: 0x003D,
            shifted_unicode: 0x002B, alt_gr_unicode: 0, shifted_alt_gr_unicode: 0,
            modifier: NULL_MODIFIER, affected_attribute: AFFECTED_BY_STANDARD_SHIFT }),
        HiiKeyView::Key(HiiKeyDescriptor { key: EfiKey::D11, unicode: 0x005B,
            shifted_unicode: 0x007B, alt_gr_unicode: 0, shifted_alt_gr_unicode: 0,
            modifier: NULL_MODIFIER, affected_attribute: AFFECTED_BY_STANDARD_SHIFT }),
        HiiKeyView::Key(HiiKeyDescriptor { key: EfiKey::D12, unicode: 0x005D,
            shifted_unicode: 0x007D, alt_gr_unicode: 0, shifted_alt_gr_unicode: 0,
            modifier: NULL_MODIFIER, affected_attribute: AFFECTED_BY_STANDARD_SHIFT }),
    ]
}

/// One run of the default layout's key table.
pub open spec fn spec_default_keys_d() -> Seq<HiiKeyView> {
    seq![
        HiiKeyView::Key(HiiKeyDescriptor { key: EfiKey::D13, unicode: 0x005C,
            shifted_unicode: 0x007C, alt_gr_unicode: 0, shifted_alt_gr_unicode: 0,
            modifier: NULL_MODIFIER, affected_attribute: AFFECTED_BY_STANDARD_SHIFT }),
        HiiKeyView::Key(HiiKeyDescriptor { key: EfiKey::C12, unicode: 0x005C,
            shifted_unicode: 0x007C, alt_gr_unicode: 0, shifted_alt_gr_unicode: 0,
            modifier: NULL_MODIFIER, affected_attribute: AFFECTED_BY_STANDARD_SHIFT }),
        HiiKeyView::Key(HiiKeyDescriptor { key: EfiKey::C10, unicode: 0x003B,
            shifted_unicode: 0x003A, alt_gr_unicode: 0, shifted_alt_gr_unicode: 0,
            modifier: NULL_MODIFIER, affected_attribute: AFFECTED_BY_STANDARD_SHIFT }),
        HiiKeyView::Key(HiiKeyDescriptor { key: EfiKey::C11, unicode: 0x0027,
            shifted_unicode: 0x0022, alt_gr_unicode: 0, shifted_alt_gr_unicode: 0,
            modifier: NULL_MODIFIER, affected_attribute: AFFECTED_BY_STANDARD_SHIFT }),
        HiiKeyView::Key(HiiKeyDescriptor { key: EfiKey::E0, unicode: 0x0060,
            shifted_unicode: 0x007E, alt_gr_unicode: 0, shifted_alt_gr_unicode: 0,
            modifier: NULL_MODIFIER, affected_attribute: AFFECTED_BY_STANDARD_SHIFT }),
        HiiKeyView::Key(HiiKeyDescriptor { key: EfiKey::B8, unicode: 0x002C,
            shifted_unicode: 0x003C, alt_gr_unicode: 0, shifted_alt_gr_unicode: 0,
            modifier: NULL_MODIFIER, affected_attribute: AFFECTED_BY_STANDARD_SHIFT }),
        HiiKeyView::Key(HiiKeyDescriptor { key: EfiKey::B9, unicode: 0x002E,
            shifted_unicode: 0x003E, alt_gr_unicode: 0, shifted_alt_gr_unicode: 0,
            modifier: NULL_MODIFIER, affected_attribute: AFFECTED_BY_STANDARD_SHIFT }),
        HiiKeyView::Key(HiiKeyDescriptor { key: EfiKey::B10, unicode: 0x002F,
            shifted_unicode: 0x003F, alt_gr_unicode: 0, shifted_alt_gr_unicode: 0,
            modifier: NULL_MODIFIER, affected_attribute: AFFECTED_BY_STANDARD_SHIFT }),
        HiiKeyView::Key(HiiKeyDescriptor { key: EfiKey::CapsLock, unicode: 0x0000,
            shifted_unicode: 0x0000, alt_gr_unicode: 0, shifted_alt_gr_unicode: 0,
            modifier: CAPS_LOCK_MODIFIER, affected_attribute: 0 }),
        HiiKeyView::Key(HiiKeyDescriptor { key: EfiKey::F1, unicode: 0x0000,
            shifted_unicode: 0x0000, alt_gr_unicode: 0, shifted_alt_gr_unicode: 0,
            modifier: FUNCTION_KEY_ONE_MODIFIER, affected_attribute: 0 }),
        HiiKeyView::Key(HiiKeyDescriptor { key: EfiKey::F2, unicode: 0x0000,
            shifted_unicode: 0x0000, alt_gr_unicode: 0, shifted_alt_gr_unicode: 0,
            modifier: FUNCTION_KEY_TWO_MODIFIER, affected_attribute: 0 }),
        HiiKeyView::Key(HiiKeyDescriptor { key: EfiKey::F3, unicode: 0x0000,
            shifted_unicode: 0x0000, alt_gr_unicode: 0, shifted_alt_gr_unicode: 0,
            modifier: FUNCTION_KEY_THREE_MODIFIER, affected_attribute: 0 }),
        HiiKeyView::Key(HiiKeyDescriptor { key: EfiKey::F4, unicode: 0x0000,
            shifted_unicode: 0x0000, alt_gr_unicode: 0, shifted_alt_gr_unicode: 0,
            modifier: FUNCTION_KEY_FOUR_MODIFIER, affected_attribute: 0 }),
        HiiKeyView::Key(HiiKeyDescriptor { key: EfiKey::F5, unicode: 0x0000,
            shifted_unicode: 0x0000, alt_gr_unicode: 0, shifted_alt_gr_unicode: 0,
            modifier: FUNCTION_KEY_FIVE_MODIFIER, affected_attribute: 0 }),
        HiiKeyView::Key(HiiKeyDescriptor { key: EfiKey::F6, unicode: 0x0000,
            shifted_unicode: 0x0000, alt_gr_unicode: 0, shifted_alt_gr_unicode: 0,
            modifier: FUNCTION_KEY_SIX_MODIFIER, affected_attribute: 0 }),
    ]
}

/// One run of the default layout's key table.
pub open spec fn spec_default_keys_e() -> Seq<HiiKeyView> {
    seq![
        HiiKeyView::Key(HiiKeyDescriptor { key: EfiKey::F7, unicode: 0x0000,
            shifted_unicode: 0x0000, alt_gr_unicode: 0, shifted_alt_gr_unicode: 0,
            modifier: FUNCTION_KEY_SEVEN_MODIFIER, affected_attribute: 0 }),
        HiiKeyView::Key(HiiKeyDescriptor { key: EfiKey::F8, unicode: 0x0000,
            shifted_unicode: 0x0000, alt_gr_unicode: 0, shifted_alt_gr_unicode: 0,
            modifier: FUNCTION_KEY_EIGHT_MODIFIER, affected_attribute: 0 }),
        HiiKeyView::Key(HiiKeyDescriptor { key: EfiKey::F9, unicode: 0x0000,
            shifted_unicode: 0x0000, alt_gr_unicode: 0, shifted_alt_gr_unicode: 0,
            modifier: FUNCTION_KEY_NINE_MODIFIER, affected_attribute: 0 }),
        HiiKeyView::Key(HiiKeyDescriptor { key: EfiKey::F10, unicode: 0x0000,
            shifted_unicode: 0x0000, alt_gr_unicode: 0, shifted_alt_gr_unicode: 0,
            modifier: FUNCTION_KEY_TEN_MODIFIER, affected_attribute: 0 }),
        HiiKeyView::Key(HiiKeyDescriptor { key: EfiKey::F11, unicode: 0x0000,
            shifted_unicode: 0x0000, alt_gr_unicode: 0, shifted_alt_gr_unicode: 0,
            modifier: FUNCTION_KEY_ELEVEN_MODIFIER, affected_attribute: 0 }),
        HiiKeyView::Key(HiiKeyDescriptor { key: EfiKey::F12, unicode: 0x0000,
            shifted_unicode: 0x0000, alt_gr_unicode: 0, shifted_alt_gr_unicode: 0,
            modifier: FUNCTION_KEY_TWELVE_MODIFIER, affected_attribute: 0 }),
        HiiKeyView::Key(HiiKeyDescriptor { key: EfiKey::Print, unicode: 0x0000,
            shifted_unicode: 0x0000, alt_gr_unicode: 0, shifted_alt_gr_unicode: 0,
            modifier: PRINT_MODIFIER, affected_attribute: 0 }),
        HiiKeyView::Key(HiiKeyDescriptor { key: EfiKey::SLck, unicode: 0x0000,
            shifted_unicode: 0x0000, alt_gr_unicode: 0, shifted_alt_gr_unicode: 0,
            modifier: SCROLL_LOCK_MODIFIER, affected_attribute: 0 }),
        HiiKeyView::Key(HiiKeyDescriptor { key: EfiKey::Pause, unicode: 0x0000,
            shifted_unicode: 0x0000, alt_gr_unicode: 0, shifted_alt_gr_unicode: 0,
            modifier: PAUSE_MODIFIER, affected_attribute: 0 }),
        HiiKeyView::Key(HiiKeyDescriptor { key: EfiKey::Ins, unicode: 0x0000,
            shifted_unicode: 0x0000, alt_gr_unicode: 0, shifted_alt_gr_unicode: 0,
            modifier: INSERT_MODIFIER, affected_attribute: 0 }),
        HiiKeyView::Key(HiiKeyDescriptor { key: EfiKey::Home, unicode: 0x0000,
            shifted_unicode: 0x0000, alt_gr_unicode: 0, shifted_alt_gr_unicode: 0,
            modifier: HOME_MODIFIER, affected_attribute: 0 }),
        HiiKeyView::Key(HiiKeyDescriptor { key: EfiKey::PgUp, unicode: 0x0000,
            shifted_unicode: 0x0000, alt_gr_unicode: 0, shifted_alt_gr_unicode: 0,
            modifier: PAGE_UP_MODIFIER, affected_attribute: 0 }),
        HiiKeyView::Key(HiiKeyDescriptor { key: EfiKey::Del, unicode: 0x0000,
            shifted_unicode: 0x0000, alt_gr_unicode: 0, shifted_alt_gr_unicode: 0,
            modifier: DELETE_MODIFIER, affected_attribute: 0 }),
        HiiKeyView::Key(HiiKeyDescriptor { key: EfiKey::End, unicode: 0x0000,
            shifted_unicode: 0x0000, alt_gr_unicode: 0, shifted_alt_gr_unicode: 0,
            modifier: END_MODIFIER, affected_attribute: 0 }),
        HiiKeyView::Key(HiiKeyDescriptor { key: EfiKey::PgDn, unicode: 0x0000,
            shifted_unicode: 0x0000, alt_gr_unicode: 0, shifted_alt_gr_unicode: 0,
            modifier: PAGE_DOWN_MODIFIER, affected_attribute: 0 }),
    ]
}

/// One run of the default layout's key table.
pub open spec fn spec_default_keys_f() -> Seq<HiiKeyView> {
    seq![
        HiiKeyView::Key(HiiKeyDescriptor { key: EfiKey::RightArrow, unicode: 0x0000,
            shifted_unicode: 0x0000, alt_gr_unicode: 0, shifted_alt_gr_unicode: 0,
            modifier: RIGHT_ARROW_MODIFIER, affected_attribute: 0 }),
        HiiKeyView::Key(HiiKeyDescriptor { key: EfiKey::LeftArrow, unicode: 0x0000,
            shifted_unicode: 0x0000, alt_gr_unicode: 0, shifted_alt_gr_unicode: 0,
            modifier: LEFT_ARROW_MODIFIER, affected_attribute: 0 }),
        HiiKeyView::Key(HiiKeyDescriptor { key: EfiKey::DownArrow, unicode: 0x0000,
            shifted_unicode: 0x0000, alt_gr_unicode: 0, shifted_alt_gr_unicode: 0,
            modifier: DOWN_ARROW_MODIFIER, affected_attribute: 0 }),
        HiiKeyView::Key(HiiKeyDescriptor { key: EfiKey::UpArrow, unicode: 0x0000,
            shifted_unicode: 0x0000, alt_gr_unicode: 0, shifted_alt_gr_unicode: 0,
            modifier: UP_ARROW_MODIFIER, affected_attribute: 0 }),
        HiiKeyView::Key(HiiKeyDescriptor { key: EfiKey::NLck, unicode: 0x0000,
            shifted_unicode: 0x0000, alt_gr_unicode: 0, shifted_alt_gr_unicode: 0,
            modifier: NUM_LOCK_MODIFIER, affected_attribute: 0 }),
        HiiKeyView::Key(HiiKeyDescriptor { key: EfiKey::Slash, unicode: 0x002F,
            shifted_unicode: 0x002F, alt_gr_unicode: 0, shifted_alt_gr_unicode: 0,
            modifier: NULL_MODIFIER, affected_attribute: 0 }),
        HiiKeyView::Key(HiiKeyDescriptor { key: EfiKey::Asterisk, unicode: 0x002A,
            shifted_unicode: 0x002A, alt_gr_unicode: 0, shifted_alt_gr_unicode: 0,
            modifier: NULL_MODIFIER, affected_attribute: 0 }),
        HiiKeyView::Key(HiiKeyDescriptor { key: EfiKey::Minus, unicode: 0x002D,
            shifted_unicode: 0x002D, alt_gr_unicode: 0, shifted_alt_gr_unicode: 0,
            modifier: NULL_MODIFIER, affected_attribute: 0 }),
        HiiKeyView::Key(HiiKeyDescriptor { key: EfiKey::Plus, unicode: 0x002B,
            shifted_unicode: 0x002B, alt_gr_unicode: 0, shifted_alt_gr_unicode: 0,
            modifier: NULL_MODIFIER, affected_attribute: 0 }),
        HiiKeyView::Key(HiiKeyDescriptor { key: EfiKey::Enter, unicode: 0x000D,
            shifted_unicode: 0x000D, alt_gr_unicode: 0, shifted_alt_gr_unicode: 0,
            modifier: NULL_MODIFIER, affected_attribute: 0 }),
        HiiKeyView::Key(HiiKeyDescriptor { key: EfiKey::One, unicode: 0x0031,
            shifted_unicode: 0x0031, alt_gr_unicode: 0, shifted_alt_gr_unicode: 0,
            modifier: END_MODIFIER, affected_attribute: AFFECTED_BY_STANDARD_SHIFT | AFFECTED_BY_NUM_LOCK }),
        HiiKeyView::Key(HiiKeyDescriptor { key: EfiKey::Two, unicode: 0x0032,
            shifted_unicode: 0x0032, alt_gr_unicode: 0, shifted_alt_gr_unicode: 0,
            modifier: DOWN_ARROW_MODIFIER, affected_attribute: AFFECTED_BY_STANDARD_SHIFT | AFFECTED_BY_NUM_LOCK }),
        HiiKeyView::Key(HiiKeyDescriptor { key: EfiKey::Three, unicode: 0x0033,
            shifted_unicode: 0x0033, alt_gr_unicode: 0, shifted_alt_gr_unicode: 0,
            modifier: PAGE_DOWN_MODIFIER, affected_attribute: AFFECTED_BY_STANDARD_SHIFT | AFFECTED_BY_NUM_LOCK }),
        HiiKeyView::Key(HiiKeyDescriptor { key: EfiKey::Four, unicode: 0x0034,
            shifted_unicode: 0x0034, alt_gr_unicode: 0, shifted_alt_gr_unicode: 0,
            modifier: LEFT_ARROW_MODIFIER, affected_attribute: AFFECTED_BY_STANDARD_SHIFT | AFFECTED_BY_NUM_LOCK }),
        HiiKeyView::Key(HiiKeyDescriptor { key: EfiKey::Five, unicode: 0x0035,
            shifted_unicode: 0x0035, alt_gr_unicode: 0, shifted_alt_gr_unicode: 0,
            modifier: NULL_MODIFIER, affected_attribute: AFFECTED_BY_STANDARD_SHIFT | AFFECTED_BY_NUM_LOCK }),
    ]
}

/// One run of the default layout's key table.
pub open spec fn spec_default_keys_g() -> Seq<HiiKeyView> {
    seq![
        HiiKeyView::Key(HiiKeyDescriptor { key: EfiKey::Six, unicode: 0x0036,
            shifted_unicode: 0x0036, alt_gr_unicode: 0, shifted_alt_gr_unicode: 0,
            modifier: RIGHT_ARROW_MODIFIER, affected_attribute: AFFECTED_BY_STANDARD_SHIFT | AFFECTED_BY_NUM_LOCK }),
        HiiKeyView::Key(HiiKeyDescriptor { key: EfiKey::Seven, unicode: 0x0037,
            shifted_unicode: 0x0037, alt_gr_unicode: 0, shifted_alt_gr_unicode: 0,
            modifier: HOME_MODIFIER, affected_attribute: AFFECTED_BY_STANDARD_SHIFT | AFFECTED_BY_NUM_LOCK }),
        HiiKeyView::Key(HiiKeyDescriptor { key: EfiKey::Eight, unicode: 0x0038,
            shifted_unicode: 0x0038, alt_gr_unicode: 0, shifted_alt_gr_unicode: 0,
            modifier: UP_ARROW_MODIFIER, affected_attribute: AFFECTED_BY_STANDARD_SHIFT | AFFECTED_BY_NUM_LOCK }),
        HiiKeyView::Key(HiiKeyDescriptor { key: EfiKey::Nine, unicode: 0x0039,
            shifted_unicode: 0x0039, alt_gr_unicode: 0, shifted_alt_gr_unicode: 0,
            modifier: PAGE_UP_MODIFIER, affected_attribute: AFFECTED_BY_STANDARD_SHIFT | AFFECTED_BY_NUM_LOCK }),
        HiiKeyView::Key(HiiKeyDescriptor { key: EfiKey::Zero, unicode: 0x0030,
            shifted_unicode: 0x0030, alt_gr_unicode: 0, shifted_alt_gr_unicode: 0,
            modifier: INSERT_MODIFIER, affected_attribute: AFFECTED_BY_STANDARD_SHIFT | AFFECTED_BY_NUM_LOCK }),
        HiiKeyView::Key(HiiKeyDescriptor { key: EfiKey::Period, unicode: 0x002E,
            shifted_unicode: 0x002E, alt_gr_unicode: 0, shifted_alt_gr_unicode: 0,
            modifier: DELETE_MODIFIER, affected_attribute: AFFECTED_BY_STANDARD_SHIFT | AFFECTED_BY_NUM_LOCK }),
        HiiKeyView::Key(HiiKeyDescriptor { key: EfiKey::A4, unicode: 0x0000,
            shifted_unicode: 0x0000, alt_gr_unicode: 0, shifted_alt_gr_unicode: 0,
            modifier: MENU_MODIFIER, affected_attribute: 0 }),
        HiiKeyView::Key(HiiKeyDescriptor { key: EfiKey::LCtrl, unicode: 0x0000,
            shifted_unicode: 0x0000, alt_gr_unicode: 0, shifted_alt_gr_unicode: 0,
            modifier: LEFT_CONTROL_MODIFIER, affected_attribute: 0 }),
        HiiKeyView::Key(HiiKeyDescriptor { key: EfiKey::LShift, unicode: 0x0000,
            shifted_unicode: 0x0000, alt_gr_unicode: 0, shifted_alt_gr_unicode: 0,
            modifier: LEFT_SHIFT_MODIFIER, affected_attribute: 0 }),
        HiiKeyView::Key(HiiKeyDescriptor { key: EfiKey::LAlt, unicode: 0x0000,
            shifted_unicode: 0x0000, alt_gr_unicode: 0, shifted_alt_gr_unicode: 0,
            modifier: LEFT_ALT_MODIFIER, affected_attribute: 0 }),
        HiiKeyView::Key(HiiKeyDescriptor { key: EfiKey::A0, unicode: 0x0000,
            shifted_unicode: 0x0000, alt_gr_unicode: 0, shifted_alt_gr_unicode: 0,
            modifier: LEFT_LOGO_MODIFIER, affected_attribute: 0 }),
        HiiKeyView::Key(HiiKeyDescriptor { key: EfiKey::RCtrl, unicode: 0x0000,
            shifted_unicode: 0x0000, alt_gr_unicode: 0, shifted_alt_gr_unicode: 0,
            modifier: RIGHT_CONTROL_MODIFIER, affected_attribute: 0 }),
        HiiKeyView::Key(HiiKeyDescriptor { key: EfiKey::RShift, unicode: 0x0000,
            shifted_unicode: 0x0000, alt_gr_unicode: 0, shifted_alt_gr_unicode: 0,
            modifier: RIGHT_SHIFT_MODIFIER, affected_attribute: 0 }),
        HiiKeyView::Key(HiiKeyDescriptor { key: EfiKey::A2, unicode: 0x0000,
            shifted_unicode: 0x0000, alt_gr_unicode: 0, shifted_alt_gr_unicode: 0,
            modifier: RIGHT_ALT_MODIFIER, affected_attribute: 0 }),
        HiiKeyView::Key(HiiKeyDescriptor { key: EfiKey::A3, unicode: 0x0000,
            shifted_unicode: 0x0000, alt_gr_unicode: 0, shifted_alt_gr_unicode: 0,
            modifier: RIGHT_LOGO_MODIFIER, affected_attribute: 0 }),
    ]
}

/// The standard US-104 layout as a spec-level constant: the default
/// layout GUID, the 105 key descriptors in order, and the en-US English
/// description.
pub open spec fn spec_default_us_layout() -> LayoutView {
    LayoutView {
        guid: seq![
            0x7cu8, 0x7a, 0x4d, 0x3a, 0x8a, 0x01, 0x42, 0x4b,
            0x81, 0xb3, 0xdc, 0x10, 0xe3, 0xb5, 0x91, 0xbd,
        ],
        keys: spec_default_keys_a() + spec_default_keys_b() + spec_default_keys_c() + spec_default_keys_d() + spec_default_keys_e() + spec_default_keys_f() + spec_default_keys_g(),
        descriptions: seq![DescriptionView {
            language: seq![0x0065u16, 0x006E, 0x002D, 0x0055, 0x0053],
            description: seq![0x0045u16, 0x006E, 0x0067, 0x006C, 0x0069, 0x0073, 0x0068, 0x0020, 0x004B, 0x0065, 0x0079, 0x0062, 0x006F, 0x0061, 0x0072, 0x0064],
        }],
    }
}

/// The default keyboard package: the US-104 layout alone.
pub open spec fn spec_default_us_pkg() -> PkgView {
    PkgView { layouts: seq![spec_default_us_layout()] }
}

/// The default package list: its fixed GUID around the default package.
pub open spec fn spec_default_us_pkg_list() -> PkgListView {
    PkgListView {
        package_list_guid: seq![
            0x43u8, 0x3b, 0x0f, 0x0c, 0xde, 0x44, 0x07, 0x49,
            0xb4, 0x78, 0x22, 0x5f, 0x6f, 0x62, 0x89, 0xdc,
        ],
        package: spec_default_us_pkg(),
    }
}

/// Appends one plain key to a layout's item list.
fn push_key(
    keys: &mut Vec<HiiKey>, key: EfiKey, unicode: u16, shifted: u16,
    modifier: u16, affected: u16,
)
    requires
        modifier != NS_KEY_MODIFIER,
        modifier != NS_KEY_DEPENDENCY_MODIFIER,
    ensures
        spec_keys_view(final(keys)@) == spec_keys_view(old(keys)@).push(
            HiiKeyView::Key(HiiKeyDescriptor {
                key, unicode, shifted_unicode: shifted,
                alt_gr_unicode: 0, shifted_alt_gr_unicode: 0,
                modifier, affected_attribute: affected,
            })),
        spec_keys_wf(spec_keys_view(old(keys)@))
            ==> spec_keys_wf(spec_keys_view(final(keys)@)),
        spec_flatten_keys(spec_keys_view(final(keys)@)).len()
            == spec_flatten_keys(spec_keys_view(old(keys)@)).len() + 1,
{
    let d = HiiKeyDescriptor {
        key, unicode, shifted_unicode: shifted,
        alt_gr_unicode: 0, shifted_alt_gr_unicode: 0,
        modifier, affected_attribute: affected,
    };
    keys.push(HiiKey::Key(d));
    proof {
        assert(spec_keys_view(keys@) =~= spec_keys_view(old(keys)@).push(HiiKeyView::Key(d)));
        if spec_keys_wf(spec_keys_view(old(keys)@)) {
            lemma_keys_wf_snoc(spec_keys_view(old(keys)@), HiiKeyView::Key(d));
        }
        lemma_flatten_snoc(spec_keys_view(old(keys)@), HiiKeyView::Key(d));
    }
}

fn default_keys_a() -> (r: Vec<HiiKey>)
    ensures
        spec_keys_view(r@) == spec_default_keys_a(),
        spec_keys_wf(spec_default_keys_a()),
        spec_flatten_keys(spec_default_keys_a()).len() == 15,
{
    let mut keys: Vec<HiiKey> = Vec::new();
    proof {
        assert(spec_keys_view(keys@) =~= Seq::<HiiKeyView>::empty());
        assert(spec_keys_wf(spec_keys_view(keys@)));
        assert(spec_flatten_keys(spec_keys_view(keys@)).len() == 0);
    }
    push_key(&mut keys, EfiKey::C1, 0x0061, 0x0041, NULL_MODIFIER, AFFECTED_BY_STANDARD_SHIFT | AFFECTED_BY_CAPS_LOCK);
    push_key(&mut keys, EfiKey::B5, 0x0062, 0x0042, NULL_MODIFIER, AFFECTED_BY_STANDARD_SHIFT | AFFECTED_BY_CAPS_LOCK);
    push_key(&mut keys, EfiKey::B3, 0x0063, 0x0043, NULL_MODIFIER, AFFECTED_BY_STANDARD_SHIFT | AFFECTED_BY_CAPS_LOCK);
    push_key(&mut keys, EfiKey::C3, 0x0064, 0x0044, NULL_MODIFIER, AFFECTED_BY_STANDARD_SHIFT | AFFECTED_BY_CAPS_LOCK);
    push_key(&mut keys, EfiKey::D3, 0x0065, 0x0045, NULL_MODIFIER, AFFECTED_BY_STANDARD_SHIFT | AFFECTED_BY_CAPS_LOCK);
    push_key(&mut keys, EfiKey::C4, 0x0066, 0x0046, NULL_MODIFIER, AFFECTED_BY_STANDARD_SHIFT | AFFECTED_BY_CAPS_LOCK);
    push_key(&mut keys, EfiKey::C5, 0x0067, 0x0047, NULL_MODIFIER, AFFECTED_BY_STANDARD_SHIFT | AFFECTED_BY_CAPS_LOCK);
    push_key(&mut keys, EfiKey::C6, 0x0068, 0x0048, NULL_MODIFIER, AFFECTED_BY_STANDARD_SHIFT | AFFECTED_BY_CAPS_LOCK);
    push_key(&mut keys, EfiKey::D8, 0x0069, 0x0049, NULL_MODIFIER, AFFECTED_BY_STANDARD_SHIFT | AFFECTED_BY_CAPS_LOCK);
    push_key(&mut keys, EfiKey::C7, 0x006A, 0x004A, NULL_MODIFIER, AFFECTED_BY_STANDARD_SHIFT | AFFECTED_BY_CAPS_LOCK);
    push_key(&mut keys, EfiKey::C8, 0x006B, 0x004B, NULL_MODIFIER, AFFECTED_BY_STANDARD_SHIFT | AFFECTED_BY_CAPS_LOCK);
    push_key(&mut keys, EfiKey::C9, 0x006C, 0x004C, NULL_MODIFIER, AFFECTED_BY_STANDARD_SHIFT | AFFECTED_BY_CAPS_LOCK);
    push_key(&mut keys, EfiKey::B7, 0x006D, 0x004D, NULL_MODIFIER, AFFECTED_BY_STANDARD_SHIFT | AFFECTED_BY_CAPS_LOCK);
    push_key(&mut keys, EfiKey::B6, 0x006E, 0x004E, NULL_MODIFIER, AFFECTED_BY_STANDARD_SHIFT | AFFECTED_BY_CAPS_LOCK);
    push_key(&mut keys, EfiKey::D9, 0x006F, 0x004F, NULL_MODIFIER, AFFECTED_BY_STANDARD_SHIFT | AFFECTED_BY_CAPS_LOCK);
    proof {
        assert(spec_keys_view(keys@) =~= spec_default_keys_a());
    }
    keys
}

fn default_keys_b() -> (r: Vec<HiiKey>)
    ensures
        spec_keys_view(r@) == spec_default_keys_b(),
        spec_keys_wf(spec_default_keys_b()),
        spec_flatten_keys(spec_default_keys_b()).len() == 15,
{
    let mut keys: Vec<HiiKey> = Vec::new();
    proof {
        assert(spec_keys_view(keys@) =~= Seq::<HiiKeyView>::empty());
        assert(spec_keys_wf(spec_keys_view(keys@)));
        assert(spec_flatten_keys(spec_keys_view(keys@)).len() == 0);
    }
    push_key(&mut keys, EfiKey::D10, 0x0070, 0x0050, NULL_MODIFIER, AFFECTED_BY_STANDARD_SHIFT | AFFECTED_BY_CAPS_LOCK);
    push_key(&mut keys, EfiKey::D1, 0x0071, 0x0051, NULL_MODIFIER, AFFECTED_BY_STANDARD_SHIFT | AFFECTED_BY_CAPS_LOCK);
    push_key(&mut keys, EfiKey::D4, 0x0072, 0x0052, NULL_MODIFIER, AFFECTED_BY_STANDARD_SHIFT | AFFECTED_BY_CAPS_LOCK);
    push_key(&mut keys, EfiKey::C2, 0x0073, 0x0053, NULL_MODIFIER, AFFECTED_BY_STANDARD_SHIFT | AFFECTED_BY_CAPS_LOCK);
    push_key(&mut keys, EfiKey::D5, 0x0074, 0x0054, NULL_MODIFIER, AFFECTED_BY_STANDARD_SHIFT | AFFECTED_BY_CAPS_LOCK);
    push_key(&mut keys, EfiKey::D7, 0x0075, 0x0055, NULL_MODIFIER, AFFECTED_BY_STANDARD_SHIFT | AFFECTED_BY_CAPS_LOCK);
    push_key(&mut keys, EfiKey::B4, 0x0076, 0x0056, NULL_MODIFIER, AFFECTED_BY_STANDARD_SHIFT | AFFECTED_BY_CAPS_LOCK);
    push_key(&mut keys, EfiKey::D2, 0x0077, 0x0057, NULL_MODIFIER, AFFECTED_BY_STANDARD_SHIFT | AFFECTED_BY_CAPS_LOCK);
    push_key(&mut keys, EfiKey::B2, 0x0078, 0x0058, NULL_MODIFIER, AFFECTED_BY_STANDARD_SHIFT | AFFECTED_BY_CAPS_LOCK);
    push_key(&mut keys, EfiKey::D6, 0x0079, 0x0059, NULL_MODIFIER, AFFECTED_BY_STANDARD_SHIFT | AFFECTED_BY_CAPS_LOCK);
    push_key(&mut keys, EfiKey::B1, 0x007A, 0x005A, NULL_MODIFIER, AFFECTED_BY_STANDARD_SHIFT | AFFECTED_BY_CAPS_LOCK);
    push_key(&mut keys, EfiKey::E1, 0x0031, 0x0021, NULL_MODIFIER, AFFECTED_BY_STANDARD_SHIFT);
    push_key(&mut keys, EfiKey::E2, 0x0032, 0x0040, NULL_MODIFIER, AFFECTED_BY_STANDARD_SHIFT);
    push_key(&mut keys, EfiKey::E3, 0x0033, 0x0023, NULL_MODIFIER, AFFECTED_BY_STANDARD_SHIFT);
    push_key(&mut keys, EfiKey::E4, 0x0034, 0x0024, NULL_MODIFIER, AFFECTED_BY_STANDARD_SHIFT);
    proof {
        assert(spec_keys_view(keys@) =~= spec_default_keys_b());
    }
    keys
}

fn default_keys_c() -> (r: Vec<HiiKey>)
    ensures
        spec_keys_view(r@) == spec_default_keys_c(),
        spec_keys_wf(spec_default_keys_c()),
        spec_flatten_keys(spec_default_keys_c()).len() == 15,
{
    let mut keys: Vec<HiiKey> = Vec::new();
    proof {
        assert(spec_keys_view(keys@) =~= Seq::<HiiKeyView>::empty());
        assert(spec_keys_wf(spec_keys_view(keys@)));
        assert(spec_flatten_keys(spec_keys_view(keys@)).len() == 0);
    }
    push_key(&mut keys, EfiKey::E5, 0x0035, 0x0025, NULL_MODIFIER, AFFECTED_BY_STANDARD_SHIFT);
    push_key(&mut keys, EfiKey::E6, 0x0036, 0x005E, NULL_MODIFIER, AFFECTED_BY_STANDARD_SHIFT);
    push_key(&mut keys, EfiKey::E7, 0x0037, 0x0026, NULL_MODIFIER, AFFECTED_BY_STANDARD_SHIFT);
    push_key(&mut keys, EfiKey::E8, 0x0038, 0x002A, NULL_MODIFIER, AFFECTED_BY_STANDARD_SHIFT);
    push_key(&mut keys, EfiKey::E9, 0x0039, 0x0028, NULL_MODIFIER, AFFECTED_BY_STANDARD_SHIFT);
    push_key(&mut keys, EfiKey::E10, 0x0030, 0x0029, NULL_MODIFIER, AFFECTED_BY_STANDARD_SHIFT);
    push_key(&mut keys, EfiKey::Enter, 0x000D, 0x000D, NULL_MODIFIER, 0);
    push_key(&mut keys, EfiKey::Esc, 0x001B, 0x001B, NULL_MODIFIER, 0);
    push_key(&mut keys, EfiKey::BackSpace, 0x0008, 0x0008, NULL_MODIFIER, 0);
    push_key(&mut keys, EfiKey::Tab, 0x0009, 0x0009, NULL_MODIFIER, 0);
    push_key(&mut keys, EfiKey::SpaceBar, 0x0020, 0x0020, NULL_MODIFIER, 0);
    push_key(&mut keys, EfiKey::E11, 0x002D, 0x005F, NULL_MODIFIER, AFFECTED_BY_STANDARD_SHIFT);
    push_key(&mut keys, EfiKey::E12, 0x003D, 0x002B, NULL_MODIFIER, AFFECTED_BY_STANDARD_SHIFT);
    push_key(&mut keys, EfiKey::D11, 0x005B, 0x007B, NULL_MODIFIER, AFFECTED_BY_STANDARD_SHIFT);
    push_key(&mut keys, EfiKey::D12, 0x005D, 0x007D, NULL_MODIFIER, AFFECTED_BY_STANDARD_SHIFT);
    proof {
        assert(spec_keys_view(keys@) =~= spec_default_keys_c());
    }
    keys
}

fn default_keys_d() -> (r: Vec<HiiKey>)
    ensures
        spec_keys_view(r@) == spec_default_keys_d(),
        spec_keys_wf(spec_default_keys_d()),
        spec_flatten_keys(spec_default_keys_d()).len() == 15,
{
    let mut keys: Vec<HiiKey> = Vec::new();
    proof {
        assert(spec_keys_view(keys@) =~= Seq::<HiiKeyView>::empty());
        assert(spec_keys_wf(spec_keys_view(keys@)));
        assert(spec_flatten_keys(spec_keys_view(keys@)).len() == 0);
    }
    push_key(&mut keys, EfiKey::D13, 0x005C, 0x007C, NULL_MODIFIER, AFFECTED_BY_STANDARD_SHIFT);
    push_key(&mut keys, EfiKey::C12, 0x005C, 0x007C, NULL_MODIFIER, AFFECTED_BY_STANDARD_SHIFT);
    push_key(&mut keys, EfiKey::C10, 0x003B, 0x003A, NULL_MODIFIER, AFFECTED_BY_STANDARD_SHIFT);
    push_key(&mut keys, EfiKey::C11, 0x0027, 0x0022, NULL_MODIFIER, AFFECTED_BY_STANDARD_SHIFT);
    push_key(&mut keys, EfiKey::E0, 0x0060, 0x007E, NULL_MODIFIER, AFFECTED_BY_STANDARD_SHIFT);
    push_key(&mut keys, EfiKey::B8, 0x002C, 0x003C, NULL_MODIFIER, AFFECTED_BY_STANDARD_SHIFT);
    push_key(&mut keys, EfiKey::B9, 0x002E, 0x003E, NULL_MODIFIER, AFFECTED_BY_STANDARD_SHIFT);
    push_key(&mut keys, EfiKey::B10, 0x002F, 0x003F, NULL_MODIFIER, AFFECTED_BY_STANDARD_SHIFT);
    push_key(&mut keys, EfiKey::CapsLock, 0x0000, 0x0000, CAPS_LOCK_MODIFIER, 0);
    push_key(&mut keys, EfiKey::F1, 0x0000, 0x0000, FUNCTION_KEY_ONE_MODIFIER, 0);
    push_key(&mut keys, EfiKey::F2, 0x0000, 0x0000, FUNCTION_KEY_TWO_MODIFIER, 0);
    push_key(&mut keys, EfiKey::F3, 0x0000, 0x0000, FUNCTION_KEY_THREE_MODIFIER, 0);
    push_key(&mut keys, EfiKey::F4, 0x0000, 0x0000, FUNCTION_KEY_FOUR_MODIFIER, 0);
    push_key(&mut keys, EfiKey::F5, 0x0000, 0x0000, FUNCTION_KEY_FIVE_MODIFIER, 0);
    push_key(&mut keys, EfiKey::F6, 0x0000, 0x0000, FUNCTION_KEY_SIX_MODIFIER, 0);
    proof {
        assert(spec_keys_view(keys@) =~= spec_default_keys_d());
    }
    keys
}

fn default_keys_e() -> (r: Vec<HiiKey>)
    ensures
        spec_keys_view(r@) == spec_default_keys_e(),
        spec_keys_wf(spec_default_keys_e()),
        spec_flatten_keys(spec_default_keys_e()).len() == 15,
{
    let mut keys: Vec<HiiKey> = Vec::new();
    proof {
        assert(spec_keys_view(keys@) =~= Seq::<HiiKeyView>::empty());
        assert(spec_keys_wf(spec_keys_view(keys@)));
        assert(spec_flatten_keys(spec_keys_view(keys@)).len() == 0);
    }
    push_key(&mut keys, EfiKey::F7, 0x0000, 0x0000, FUNCTION_KEY_SEVEN_MODIFIER, 0);
    push_key(&mut keys, EfiKey::F8, 0x0000, 0x0000, FUNCTION_KEY_EIGHT_MODIFIER, 0);
    push_key(&mut keys, EfiKey::F9, 0x0000, 0x0000, FUNCTION_KEY_NINE_MODIFIER, 0);
    push_key(&mut keys, EfiKey::F10, 0x0000, 0x0000, FUNCTION_KEY_TEN_MODIFIER, 0);
    push_key(&mut keys, EfiKey::F11, 0x0000, 0x0000, FUNCTION_KEY_ELEVEN_MODIFIER, 0);
    push_key(&mut keys, EfiKey::F12, 0x0000, 0x0000, FUNCTION_KEY_TWELVE_MODIFIER, 0);
    push_key(&mut keys, EfiKey::Print, 0x0000, 0x0000, PRINT_MODIFIER, 0);
    push_key(&mut keys, EfiKey::SLck, 0x0000, 0x0000, SCROLL_LOCK_MODIFIER, 0);
    push_key(&mut keys, EfiKey::Pause, 0x0000, 0x0000, PAUSE_MODIFIER, 0);
    push_key(&mut keys, EfiKey::Ins, 0x0000, 0x0000, INSERT_MODIFIER, 0);
    push_key(&mut keys, EfiKey::Home, 0x0000, 0x0000, HOME_MODIFIER, 0);
    push_key(&mut keys, EfiKey::PgUp, 0x0000, 0x0000, PAGE_UP_MODIFIER, 0);
    push_key(&mut keys, EfiKey::Del, 0x0000, 0x0000, DELETE_MODIFIER, 0);
    push_key(&mut keys, EfiKey::End, 0x0000, 0x0000, END_MODIFIER, 0);
    push_key(&mut keys, EfiKey::PgDn, 0x0000, 0x0000, PAGE_DOWN_MODIFIER, 0);
    proof {
        assert(spec_keys_view(keys@) =~= spec_default_keys_e());
    }
    keys
}

fn default_keys_f() -> (r: Vec<HiiKey>)
    ensures
        spec_keys_view(r@) == spec_default_keys_f(),
        spec_keys_wf(spec_default_keys_f()),
        spec_flatten_keys(spec_default_keys_f()).len() == 15,
{
    let mut keys: Vec<HiiKey> = Vec::new();
    proof {
        assert(spec_keys_view(keys@) =~= Seq::<HiiKeyView>::empty());
        assert(spec_keys_wf(spec_keys_view(keys@)));
        assert(spec_flatten_keys(spec_keys_view(keys@)).len() == 0);
    }
    push_key(&mut keys, EfiKey::RightArrow, 0x0000, 0x0000, RIGHT_ARROW_MODIFIER, 0);
    push_key(&mut keys, EfiKey::LeftArrow, 0x0000, 0x0000, LEFT_ARROW_MODIFIER, 0);
    push_key(&mut keys, EfiKey::DownArrow, 0x0000, 0x0000, DOWN_ARROW_MODIFIER, 0);
    push_key(&mut keys, EfiKey::UpArrow, 0x0000, 0x0000, UP_ARROW_MODIFIER, 0);
    push_key(&mut keys, EfiKey::NLck, 0x0000, 0x0000, NUM_LOCK_MODIFIER, 0);
    push_key(&mut keys, EfiKey::Slash, 0x002F, 0x002F, NULL_MODIFIER, 0);
    push_key(&mut keys, EfiKey::Asterisk, 0x002A, 0x002A, NULL_MODIFIER, 0);
    push_key(&mut keys, EfiKey::Minus, 0x002D, 0x002D, NULL_MODIFIER, 0);
    push_key(&mut keys, EfiKey::Plus, 0x002B, 0x002B, NULL_MODIFIER, 0);
    push_key(&mut keys, EfiKey::Enter, 0x000D, 0x000D, NULL_MODIFIER, 0);
    push_key(&mut keys, EfiKey::One, 0x0031, 0x0031, END_MODIFIER, AFFECTED_BY_STANDARD_SHIFT | AFFECTED_BY_NUM_LOCK);
    push_key(&mut keys, EfiKey::Two, 0x0032, 0x0032, DOWN_ARROW_MODIFIER, AFFECTED_BY_STANDARD_SHIFT | AFFECTED_BY_NUM_LOCK);
    push_key(&mut keys, EfiKey::Three, 0x0033, 0x0033, PAGE_DOWN_MODIFIER, AFFECTED_BY_STANDARD_SHIFT | AFFECTED_BY_NUM_LOCK);
    push_key(&mut keys, EfiKey::Four, 0x0034, 0x0034, LEFT_ARROW_MODIFIER, AFFECTED_BY_STANDARD_SHIFT | AFFECTED_BY_NUM_LOCK);
    push_key(&mut keys, EfiKey::Five, 0x0035, 0x0035, NULL_MODIFIER, AFFECTED_BY_STANDARD_SHIFT | AFFECTED_BY_NUM_LOCK);
    proof {
        assert(spec_keys_view(keys@) =~= spec_default_keys_f());
    }
    keys
}

fn default_keys_g() -> (r: Vec<HiiKey>)
    ensures
        spec_keys_view(r@) == spec_default_keys_g(),
        spec_keys_wf(spec_default_keys_g()),
        spec_flatten_keys(spec_default_keys_g()).len() == 15,
{
    let mut keys: Vec<HiiKey> = Vec::new();
    proof {
        assert(spec_keys_view(keys@) =~= Seq::<HiiKeyView>::empty());
        assert(spec_keys_wf(spec_keys_view(keys@)));
        assert(spec_flatten_keys(spec_keys_view(keys@)).len() == 0);
    }
    push_key(&mut keys, EfiKey::Six, 0x0036, 0x0036, RIGHT_ARROW_MODIFIER, AFFECTED_BY_STANDARD_SHIFT | AFFECTED_BY_NUM_LOCK);
    push_key(&mut keys, EfiKey::Seven, 0x0037, 0x0037, HOME_MODIFIER, AFFECTED_BY_STANDARD_SHIFT | AFFECTED_BY_NUM_LOCK);
    push_key(&mut keys, EfiKey::Eight, 0x0038, 0x0038, UP_ARROW_MODIFIER, AFFECTED_BY_STANDARD_SHIFT | AFFECTED_BY_NUM_LOCK);
    push_key(&mut keys, EfiKey::Nine, 0x0039, 0x0039, PAGE_UP_MODIFIER, AFFECTED_BY_STANDARD_SHIFT | AFFECTED_BY_NUM_LOCK);
    push_key(&mut keys, EfiKey::Zero, 0x0030, 0x0030, INSERT_MODIFIER, AFFECTED_BY_STANDARD_SHIFT | AFFECTED_BY_NUM_LOCK);
    push_key(&mut keys, EfiKey::Period, 0x002E, 0x002E, DELETE_MODIFIER, AFFECTED_BY_STANDARD_SHIFT | AFFECTED_BY_NUM_LOCK);
    push_key(&mut keys, EfiKey::A4, 0x0000, 0x0000, MENU_MODIFIER, 0);
    push_key(&mut keys, EfiKey::LCtrl, 0x0000, 0x0000, LEFT_CONTROL_MODIFIER, 0);
    push_key(&mut keys, EfiKey::LShift, 0x0000, 0x0000, LEFT_SHIFT_MODIFIER, 0);
    push_key(&mut keys, EfiKey::LAlt, 0x0000, 0x0000, LEFT_ALT_MODIFIER, 0);
    push_key(&mut keys, EfiKey::A0, 0x0000, 0x0000, LEFT_LOGO_MODIFIER, 0);
    push_key(&mut keys, EfiKey::RCtrl, 0x0000, 0x0000, RIGHT_CONTROL_MODIFIER, 0);
    push_key(&mut keys, EfiKey::RShift, 0x0000, 0x0000, RIGHT_SHIFT_MODIFIER, 0);
    push_key(&mut keys, EfiKey::A2, 0x0000, 0x0000, RIGHT_ALT_MODIFIER, 0);
    push_key(&mut keys, EfiKey::A3, 0x0000, 0x0000, RIGHT_LOGO_MODIFIER, 0);
    proof {
        assert(spec_keys_view(keys@) =~= spec_default_keys_g());
    }
    keys
}

/// Moves the items of `src` onto the end of `dst`.
fn append_keys(dst: &mut Vec<HiiKey>, src: Vec<HiiKey>)
    ensures
        spec_keys_view(final(dst)@) == spec_keys_view(old(dst)@) + spec_keys_view(src@),
{
    let mut s = src;
    let ghost orig = spec_keys_view(s@);
    proof {
        assert(spec_keys_view(dst@) + orig =~= spec_keys_view(old(dst)@) + orig);
    }
    while s.len() > 0
        invariant
            spec_keys_view(dst@) + spec_keys_view(s@)
                == spec_keys_view(old(dst)@) + orig,
        decreases s@.len(),
    {
        let ghost dpre = dst@;
        let ghost spre = s@;
        let x = s.remove(0);
        dst.push(x);
        proof {
            assert(spec_keys_view(dst@) =~= spec_keys_view(dpre).push(x@)) by {
                assert forall|i: int| 0 <= i < dst@.len() implies
                    spec_keys_view(dst@)[i] == spec_keys_view(dpre).push(x@)[i] by {
                    if i < dpre.len() {
                        assert(dst@[i] == dpre[i]);
                        assert(spec_keys_view(dpre)[i] == dpre[i]@);
                    }
                }
            }
            assert(spec_keys_view(s@) =~= spec_keys_view(spre).drop_first()) by {
                assert forall|i: int| 0 <= i < s@.len() implies
                    spec_keys_view(s@)[i] == spec_keys_view(spre).drop_first()[i] by {
                    assert(s@[i] == spre[i + 1]);
                    assert(spec_keys_view(spre)[i + 1] == spre[i + 1]@);
                }
            }
            assert(x@ == spec_keys_view(spre)[0]);
            assert(spec_keys_view(dpre).push(x@) + spec_keys_view(spre).drop_first()
                =~= spec_keys_view(dpre) + spec_keys_view(spre));
        }
    }
    proof {
        assert(spec_keys_view(s@) =~= Seq::<HiiKeyView>::empty());
        assert(spec_keys_view(dst@) + spec_keys_view(s@) =~= spec_keys_view(dst@));
    }
}

/// GUID under which the default layout is published.
pub fn default_keyboard_layout_guid() -> (r: Guid)
    ensures r@ == spec_default_us_layout().guid, r.wf(),
{
    let r = Guid::from_fields(0x3a4d7a7c, 0x018a, 0x4b42, 0x81, 0xb3, &[0xdc, 0x10, 0xe3, 0xb5, 0x91, 0xbd]);
    assert(r@ =~= spec_default_us_layout().guid);
    r
}

/// Returns the default keyboard layout: exactly the US-104 constant, which
/// is well-formed for the codec, so the round-trip laws apply to it.
pub fn get_default_keyboard_layout() -> (r: HiiKeyboardLayout)
    ensures
        r@ == spec_default_us_layout(),
        spec_layout_wf(r@),
        r@.keys.len() == 105,
        r@.descriptions.len() == 1,
{
    let mut keys = default_keys_a();
    append_keys(&mut keys, default_keys_b());
    append_keys(&mut keys, default_keys_c());
    append_keys(&mut keys, default_keys_d());
    append_keys(&mut keys, default_keys_e());
    append_keys(&mut keys, default_keys_f());
    append_keys(&mut keys, default_keys_g());
    proof {
        lemma_keys_wf_concat(spec_default_keys_a(), spec_default_keys_b());
        lemma_flatten_concat(spec_default_keys_a(), spec_default_keys_b());
        lemma_keys_wf_concat(spec_default_keys_a() + spec_default_keys_b(), spec_default_keys_c());
        lemma_flatten_concat(spec_default_keys_a() + spec_default_keys_b(), spec_default_keys_c());
        lemma_keys_wf_concat(spec_default_keys_a() + spec_default_keys_b() + spec_default_keys_c(), spec_default_keys_d());
        lemma_flatten_concat(spec_default_keys_a() + spec_default_keys_b() + spec_default_keys_c(), spec_default_keys_d());
        lemma_keys_wf_concat(spec_default_keys_a() + spec_default_keys_b() + spec_default_keys_c() + spec_default_keys_d(), spec_default_keys_e());
        lemma_flatten_concat(spec_default_keys_a() + spec_default_keys_b() + spec_default_keys_c() + spec_default_keys_d(), spec_default_keys_e());
        lemma_keys_wf_concat(spec_default_keys_a() + spec_default_keys_b() + spec_default_keys_c() + spec_default_keys_d() + spec_default_keys_e(), spec_default_keys_f());
        lemma_flatten_concat(spec_default_keys_a() + spec_default_keys_b() + spec_default_keys_c() + spec_default_keys_d() + spec_default_keys_e(), spec_default_keys_f());
        lemma_keys_wf_concat(spec_default_keys_a() + spec_default_keys_b() + spec_default_keys_c() + spec_default_keys_d() + spec_default_keys_e() + spec_default_keys_f(), spec_default_keys_g());
        lemma_flatten_concat(spec_default_keys_a() + spec_default_keys_b() + spec_default_keys_c() + spec_default_keys_d() + spec_default_keys_e() + spec_default_keys_f(), spec_default_keys_g());
        assert(spec_keys_view(keys@) == spec_default_keys_a() + spec_default_keys_b() + spec_default_keys_c() + spec_default_keys_d() + spec_default_keys_e() + spec_default_keys_f() + spec_default_keys_g());
        assert(spec_keys_wf(spec_keys_view(keys@)));
        assert(spec_flatten_keys(spec_keys_view(keys@)).len() == 105);
    }

    let mut language: Vec<u16> = Vec::new();
    language.push(0x0065);
    language.push(0x006E);
    language.push(0x002D);
    language.push(0x0055);
    language.push(0x0053);
    let mut description: Vec<u16> = Vec::new();
    description.push(0x0045);
    description.push(0x006E);
    description.push(0x0067);
    description.push(0x006C);
    description.push(0x0069);
    description.push(0x0073);
    description.push(0x0068);
    description.push(0x0020);
    description.push(0x004B);
    description.push(0x0065);
    description.push(0x0079);
    description.push(0x0062);
    description.push(0x006F);
    description.push(0x0061);
    description.push(0x0072);
    description.push(0x0064);
    let desc = HiiKeyboardDescription { language, description };
    proof {
        let dv = desc@;
        let combined = dv.language + seq![0x20u16] + dv.description;
        assert forall|j: int| 0 <= j < combined.len() implies #[trigger] combined[j] < 0xD800 by {
            if j < dv.language.len() {
                assert(combined[j] == dv.language[j]);
            } else if j > dv.language.len() {
                assert(combined[j] == dv.description[j - dv.language.len() - 1]);
            }
        }
        lemma_bmp_valid_utf16(combined, 0);
        assert(spec_description_wf(dv));
    }
    let mut descriptions: Vec<HiiKeyboardDescription> = Vec::new();
    descriptions.push(desc);
    let guid = default_keyboard_layout_guid();
    let layout = HiiKeyboardLayout { guid, keys, descriptions };
    proof {
        let c = spec_default_us_layout();
        assert(layout@.keys =~= spec_keys_view(layout.keys@));
        assert(layout@.descriptions =~= seq![layout.descriptions@[0]@]);
        assert(layout.descriptions@[0]@.language =~= c.descriptions[0].language);
        assert(layout.descriptions@[0]@.description =~= c.descriptions[0].description);
        assert(layout.descriptions@[0]@ =~= c.descriptions[0]);
        assert(layout@.descriptions =~= c.descriptions);
        assert(layout@ =~= c);
    }
    proof {
        let lv = layout@;
        assert(spec_descriptions_wf(lv.descriptions));
        assert(spec_flatten_keys(lv.keys).len() == 105);
        lemma_enc_strings_single_len(lv.descriptions[0]);
        assert(lv.descriptions == seq![lv.descriptions[0]]);
        assert(crate::codec::spec_enc_strings(lv.descriptions).len() == 23);
        assert(spec_layout_len(lv) == 23 + 16 * 105 + 2 + 2 * 23);
        assert(spec_layout_wf(lv));
    }
    layout
}

/// Returns the default keyboard package: exactly the default package
/// constant.
pub fn get_default_keyboard_pkg() -> (r: HiiKeyboardPkg)
    ensures r@ == spec_default_us_pkg(), spec_pkg_wf(r@), r@.layouts.len() == 1,
{
    let layout = get_default_keyboard_layout();
    let ghost lv = layout@;
    let mut layouts: Vec<HiiKeyboardLayout> = Vec::new();
    layouts.push(layout);
    let pkg = HiiKeyboardPkg { layouts };
    proof {
        assert(pkg@.layouts =~= seq![lv]);
        lemma_enc_layout_len(lv);
        let e = Seq::<crate::layout::LayoutView>::empty();
        assert(seq![lv].drop_first() =~= e);
        assert(seq![lv][0] == lv);
        assert(crate::codec::spec_enc_layouts(e) =~= Seq::<u8>::empty());
        assert(crate::codec::spec_enc_layouts(seq![lv])
            == crate::codec::spec_enc_layout(lv) + crate::codec::spec_enc_layouts(e));
        assert(crate::codec::spec_enc_layouts(seq![lv]).len() == spec_layout_len(lv));
        assert(pkg@ =~= spec_default_us_pkg());
    }
    pkg
}

/// Returns the default keyboard package list: exactly the default list
/// constant.
pub fn get_default_keyboard_pkg_list() -> (r: HiiKeyboardPkgList)
    ensures r@ == spec_default_us_pkg_list(), spec_pkg_list_wf(r@),
{
    let pkg = get_default_keyboard_pkg();
    let guid = Guid::from_fields(0x0c0f3b43, 0x44de, 0x4907, 0xb4, 0x78, &[0x22, 0x5f, 0x6f, 0x62, 0x89, 0xdc]);
    let pl = HiiKeyboardPkgList { package_list_guid: guid, package: pkg };
    proof {
        assert(pl@.package_list_guid =~= spec_default_us_pkg_list().package_list_guid);
        assert(pl@ =~= spec_default_us_pkg_list());
    }
    pl
}

/// Returns the default keyboard package list serialized to bytes, as handed
/// to the layout database service: exactly the encoding of the default
/// package list, on which the round-trip laws hold.
pub fn get_default_keyboard_pkg_list_buffer() -> (r: Vec<u8>)
    ensures
        r@ == spec_enc_pkg_list(spec_default_us_pkg_list()),
        spec_pkg_list_wf(spec_default_us_pkg_list()),
{
    let pl = get_default_keyboard_pkg_list();
    let ghost v = pl@;
    match pkg_list_to_buffer(&pl) {
        Ok(out) => {
            proof {
                assert(v == spec_default_us_pkg_list());
            }
            out
        },
        Err(_) => {
            proof { assert(false); }
            Vec::new()
        },
    }
}

} // verus!
