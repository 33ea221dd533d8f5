//! The key queue and layout engine: turns physical-key events into decoded
//! key events under the installed layout and the live modifier state.

use vstd::prelude::*;
use crate::keys::{
    EfiKey, spec_usage_to_efi_key, usage_to_efi_key,
    spec_modifier_to_scan, modifier_to_scan,
    spec_modifier_to_led_usage, modifier_to_led_usage,
    spec_is_held_modifier, is_held_modifier,
    spec_is_toggle_modifier, is_toggle_modifier,
    LEFT_CONTROL_MODIFIER, RIGHT_CONTROL_MODIFIER, LEFT_SHIFT_MODIFIER, RIGHT_SHIFT_MODIFIER,
    LEFT_ALT_MODIFIER, RIGHT_ALT_MODIFIER, LEFT_LOGO_MODIFIER, RIGHT_LOGO_MODIFIER,
    MENU_MODIFIER, SYS_REQUEST_MODIFIER, PRINT_MODIFIER, ALT_GR_MODIFIER,
    CAPS_LOCK_MODIFIER, NUM_LOCK_MODIFIER, SCROLL_LOCK_MODIFIER, DELETE_MODIFIER,
    AFFECTED_BY_STANDARD_SHIFT, AFFECTED_BY_CAPS_LOCK, AFFECTED_BY_NUM_LOCK,
    SHIFT_STATE_VALID, LEFT_SHIFT_PRESSED, RIGHT_SHIFT_PRESSED, LEFT_CONTROL_PRESSED,
    RIGHT_CONTROL_PRESSED, LEFT_ALT_PRESSED, RIGHT_ALT_PRESSED, LEFT_LOGO_PRESSED,
    RIGHT_LOGO_PRESSED, MENU_KEY_PRESSED, SYS_REQ_PRESSED,
    TOGGLE_STATE_VALID, KEY_STATE_EXPOSED, SCROLL_LOCK_ACTIVE, NUM_LOCK_ACTIVE,
    CAPS_LOCK_ACTIVE, SCAN_NULL, SCAN_ESC,
};
use crate::keydata::{
    InputKey, KeyState, KeyData, spec_matches_registered_key, spec_any_pattern_matches,
    OrdKeyData,
};
use crate::layout::{
    HiiKeyDescriptor, HiiNsKeyDescriptor, NsKeyView, HiiKey, HiiKeyView,
    HiiKeyboardLayout, LayoutView,
};

verus! {

/// Whether a keystroke is a press or a release.
#[derive(Clone, Copy, Debug, PartialEq, Eq, Structural)]
pub enum KeyAction {
    KeyUp,
    KeyDown,
}

/// Spec-level state of the key queue.
#[verifier::ext_equal]
pub ghost struct QView {
    pub layout: Option<LayoutView>,
    pub mods: Seq<u16>,
    pub ns: Option<NsKeyView>,
    pub partial: bool,
    pub keys: Seq<KeyData>,
    pub registered: Seq<KeyData>,
    pub notify: Seq<KeyData>,
}

// ---------------------------------------------------------------------------
// Modifier-set model (a duplicate-free sequence)
// ---------------------------------------------------------------------------

pub open spec fn spec_mods_insert(s: Seq<u16>, m: u16) -> Seq<u16> {
    if s.contains(m) { s } else { s.push(m) }
}

/// First index of `m` at or after `i`.
pub open spec fn spec_index_of(s: Seq<u16>, m: u16, i: int) -> Option<int>
    decreases s.len() - i when 0 <= i <= s.len()
{
    if i >= s.len() {
        None
    } else if s[i] == m {
        Some(i)
    } else {
        spec_index_of(s, m, i + 1)
    }
}

pub open spec fn spec_mods_remove(s: Seq<u16>, m: u16) -> Seq<u16> {
    match spec_index_of(s, m, 0) {
        None => s,
        Some(i) => s.remove(i),
    }
}

proof fn lemma_index_of_properties(s: Seq<u16>, m: u16, i: int)
    requires 0 <= i <= s.len(),
    ensures
        match spec_index_of(s, m, i) {
            Some(p) => i <= p < s.len() && s[p] == m,
            None => forall|j: int| i <= j < s.len() ==> s[j] != m,
        },
    decreases s.len() - i,
{
    if i < s.len() && s[i] != m {
        lemma_index_of_properties(s, m, i + 1);
    }
}

fn mods_contains(v: &Vec<u16>, m: u16) -> (r: bool)
    ensures r == v@.contains(m),
{
    let n = v.len();
    let mut i: usize = 0;
    while i < n
        invariant
            0 <= i <= n,
            n == v@.len(),
            forall|j: int| 0 <= j < i ==> v@[j] != m,
        decreases n - i,
    {
        if v[i] == m {
            return true;
        }
        i = i + 1;
    }
    assert(!v@.contains(m));
    false
}

fn mods_insert(v: &mut Vec<u16>, m: u16)
    ensures final(v)@ == spec_mods_insert(old(v)@, m),
{
    if !mods_contains(v, m) {
        v.push(m);
    }
}

fn mods_remove(v: &mut Vec<u16>, m: u16)
    ensures final(v)@ == spec_mods_remove(old(v)@, m),
{
    let n = v.len();
    let mut i: usize = 0;
    while i < n
        invariant
            0 <= i <= n,
            n == v@.len(),
            v@ == old(v)@,
            spec_index_of(v@, m, 0) == spec_index_of(v@, m, i as int),
        decreases n - i,
    {
        if v[i] == m {
            v.remove(i);
            return;
        }
        i = i + 1;
    }
    proof {
        lemma_index_of_properties(v@, m, 0);
    }
}

// ---------------------------------------------------------------------------
// Descriptor lookup
// ---------------------------------------------------------------------------

/// First dependent of a non-spacing key for physical key `k`, from `i` on.
pub open spec fn spec_find_dep(deps: Seq<HiiKeyDescriptor>, k: EfiKey, i: int)
    -> Option<HiiKeyDescriptor>
    decreases deps.len() - i when 0 <= i <= deps.len()
{
    if i >= deps.len() {
        None
    } else if deps[i].key == k {
        Some(deps[i])
    } else {
        spec_find_dep(deps, k, i + 1)
    }
}

/// Result of searching the layout items for a physical key.
pub ghost enum LayoutHit {
    HitKey(HiiKeyDescriptor),
    HitNs(NsKeyView),
    Miss,
}

/// First layout item for physical key `k`, from `i` on.
pub open spec fn spec_find_key(ks: Seq<HiiKeyView>, k: EfiKey, i: int) -> LayoutHit
    decreases ks.len() - i when 0 <= i <= ks.len()
{
    if i >= ks.len() {
        LayoutHit::Miss
    } else {
        match ks[i] {
            HiiKeyView::Key(d) => if d.key == k {
                LayoutHit::HitKey(d)
            } else {
                spec_find_key(ks, k, i + 1)
            },
            HiiKeyView::NsKey(n) => if n.descriptor.key == k {
                LayoutHit::HitNs(n)
            } else {
                spec_find_key(ks, k, i + 1)
            },
        }
    }
}

fn find_dep(deps: &Vec<HiiKeyDescriptor>, k: EfiKey) -> (r: Option<HiiKeyDescriptor>)
    ensures r == spec_find_dep(deps@, k, 0),
{
    let n = deps.len();
    let mut i: usize = 0;
    while i < n
        invariant
            0 <= i <= n,
            n == deps@.len(),
            spec_find_dep(deps@, k, 0) == spec_find_dep(deps@, k, i as int),
        decreases n - i,
    {
        if deps[i].key == k {
            return Some(deps[i]);
        }
        i = i + 1;
    }
    None
}

/// Exec result of searching the layout items.
pub enum KeySearch {
    FoundKey(HiiKeyDescriptor),
    FoundNs(HiiNsKeyDescriptor),
    NotFound,
}

fn copy_desc_vec(v: &Vec<HiiKeyDescriptor>) -> (r: Vec<HiiKeyDescriptor>)
    ensures r@ == v@,
{
    let n = v.len();
    let mut out: Vec<HiiKeyDescriptor> = Vec::new();
    let mut i: usize = 0;
    while i < n
        invariant
            0 <= i <= n,
            n == v@.len(),
            out@ == v@.subrange(0, i as int),
        decreases n - i,
    {
        out.push(v[i]);
        assert(out@ =~= v@.subrange(0, (i + 1) as int));
        i = i + 1;
    }
    assert(v@.subrange(0, n as int) =~= v@);
    out
}

fn copy_ns(n: &HiiNsKeyDescriptor) -> (r: HiiNsKeyDescriptor)
    ensures r@ == n@,
{
    HiiNsKeyDescriptor { descriptor: n.descriptor, dependent_keys: copy_desc_vec(&n.dependent_keys) }
}

#[verifier::loop_isolation(false)]
fn find_key(keys: &Vec<HiiKey>, k: EfiKey) -> (r: KeySearch)
    ensures
        match r {
            KeySearch::FoundKey(d) => spec_find_key(crate::codec::spec_keys_view(keys@), k, 0)
                == LayoutHit::HitKey(d),
            KeySearch::FoundNs(n) => spec_find_key(crate::codec::spec_keys_view(keys@), k, 0)
                == LayoutHit::HitNs(n@),
            KeySearch::NotFound => spec_find_key(crate::codec::spec_keys_view(keys@), k, 0)
                == LayoutHit::Miss,
        },
{
    let ghost kv = crate::codec::spec_keys_view(keys@);
    let n = keys.len();
    let mut i: usize = 0;
    while i < n
        invariant
            0 <= i <= n,
            spec_find_key(kv, k, 0) == spec_find_key(kv, k, i as int),
        decreases n - i,
    {
        match &keys[i] {
            HiiKey::Key(d) => {
                assert(kv[i as int] == HiiKeyView::Key(*d));
                if d.key == k {
                    return KeySearch::FoundKey(*d);
                }
            },
            HiiKey::NsKey(ns) => {
                assert(kv[i as int] == HiiKeyView::NsKey(ns@));
                if ns.descriptor.key == k {
                    return KeySearch::FoundNs(copy_ns(ns));
                }
            },
        }
        i = i + 1;
    }
    KeySearch::NotFound
}

// ---------------------------------------------------------------------------
// Key-state and event composition
// ---------------------------------------------------------------------------

/// The shift/toggle state words constructed from the active modifiers, with
/// the valid bits set and the exposed bit tracking partial-key support.
pub open spec fn spec_key_state(mods: Seq<u16>, partial: bool) -> KeyState {
    KeyState {
        key_shift_state: SHIFT_STATE_VALID
            | (if mods.contains(LEFT_CONTROL_MODIFIER) { LEFT_CONTROL_PRESSED } else { 0 })
            | (if mods.contains(RIGHT_CONTROL_MODIFIER) { RIGHT_CONTROL_PRESSED } else { 0 })
            | (if mods.contains(LEFT_ALT_MODIFIER) { LEFT_ALT_PRESSED } else { 0 })
            | (if mods.contains(RIGHT_ALT_MODIFIER) { RIGHT_ALT_PRESSED } else { 0 })
            | (if mods.contains(LEFT_SHIFT_MODIFIER) { LEFT_SHIFT_PRESSED } else { 0 })
            | (if mods.contains(RIGHT_SHIFT_MODIFIER) { RIGHT_SHIFT_PRESSED } else { 0 })
            | (if mods.contains(LEFT_LOGO_MODIFIER) { LEFT_LOGO_PRESSED } else { 0 })
            | (if mods.contains(RIGHT_LOGO_MODIFIER) { RIGHT_LOGO_PRESSED } else { 0 })
            | (if mods.contains(MENU_MODIFIER) { MENU_KEY_PRESSED } else { 0 })
            | (if mods.contains(SYS_REQUEST_MODIFIER) || mods.contains(PRINT_MODIFIER) {
                SYS_REQ_PRESSED
            } else { 0 }),
        key_toggle_state: TOGGLE_STATE_VALID
            | (if partial { KEY_STATE_EXPOSED } else { 0 })
            | (if mods.contains(SCROLL_LOCK_MODIFIER) { SCROLL_LOCK_ACTIVE } else { 0 })
            | (if mods.contains(NUM_LOCK_MODIFIER) { NUM_LOCK_ACTIVE } else { 0 })
            | (if mods.contains(CAPS_LOCK_MODIFIER) { CAPS_LOCK_ACTIVE } else { 0 }),
    }
}

/// The decoded event a descriptor produces on a press under the given
/// modifiers, or nothing where the stroke is dropped: shift, caps-lock and
/// num-lock composition, the escape special case, the partial-stroke rule,
/// and the shift-applied suppression of the shift-pressed bits.
pub open spec fn spec_compose_event(d: HiiKeyDescriptor, mods: Seq<u16>, partial: bool)
    -> Option<KeyData>
{
    let shift_active = mods.contains(LEFT_SHIFT_MODIFIER) || mods.contains(RIGHT_SHIFT_MODIFIER);
    let alt_gr_active = mods.contains(ALT_GR_MODIFIER);
    let caps_active = mods.contains(CAPS_LOCK_MODIFIER);
    let num_active = mods.contains(NUM_LOCK_MODIFIER);
    let scan0 = spec_modifier_to_scan(d.modifier);
    let shift_applied = d.affected_attribute & AFFECTED_BY_STANDARD_SHIFT != 0 && shift_active;
    let u1 = if d.affected_attribute & AFFECTED_BY_STANDARD_SHIFT != 0 {
        if shift_active {
            if alt_gr_active { d.shifted_alt_gr_unicode } else { d.shifted_unicode }
        } else {
            if alt_gr_active { d.alt_gr_unicode } else { d.unicode }
        }
    } else {
        d.unicode
    };
    let u2 = if d.affected_attribute & AFFECTED_BY_CAPS_LOCK != 0 && caps_active {
        if u1 == d.unicode {
            d.shifted_unicode
        } else if u1 == d.shifted_unicode {
            d.unicode
        } else {
            u1
        }
    } else {
        u1
    };
    let u3 = if d.affected_attribute & AFFECTED_BY_NUM_LOCK != 0 && !(num_active && !shift_active) {
        0u16
    } else {
        u2
    };
    let s3 = if d.affected_attribute & AFFECTED_BY_NUM_LOCK != 0 && num_active && !shift_active {
        SCAN_NULL
    } else {
        scan0
    };
    let u4 = if u3 == 0x1B && s3 == SCAN_NULL { 0u16 } else { u3 };
    let s4 = if u3 == 0x1B && s3 == SCAN_NULL { SCAN_ESC } else { s3 };
    if !partial && u4 == 0 && s4 == SCAN_NULL {
        None
    } else {
        let st = spec_key_state(mods, partial);
        let shift_state = if shift_applied {
            st.key_shift_state & !(LEFT_SHIFT_PRESSED | RIGHT_SHIFT_PRESSED)
        } else {
            st.key_shift_state
        };
        Some(KeyData {
            key: InputKey { unicode_char: u4, scan_code: s4 },
            key_state: KeyState { key_shift_state: shift_state, ..st },
        })
    }
}

// ---------------------------------------------------------------------------
// The keystroke transition
// ---------------------------------------------------------------------------

/// The descriptor a keystroke resolves to, with the non-spacing state after
/// resolution: `None` in the first position means the stroke resolves to no
/// descriptor (and the second position carries the new non-spacing state).
pub open spec fn spec_resolve_descriptor(st: QView, layout: LayoutView, k: EfiKey)
    -> (Option<HiiKeyDescriptor>, Option<NsKeyView>)
{
    let dep = match st.ns {
        Some(n) => spec_find_dep(n.dependent_keys, k, 0),
        None => None,
    };
    match dep {
        Some(d) => (Some(d), None),
        None => match spec_find_key(layout.keys, k, 0) {
            LayoutHit::HitKey(d) => (Some(d), st.ns),
            LayoutHit::HitNs(n2) => (None, Some(n2)),
            LayoutHit::Miss => (None, st.ns),
        },
    }
}

/// The modifier set after applying the held-modifier and toggle rules for
/// one keystroke on descriptor `d`.
pub open spec fn spec_update_mods(mods: Seq<u16>, d: HiiKeyDescriptor, action: KeyAction)
    -> Seq<u16>
{
    let m1 = if spec_is_held_modifier(d.modifier) {
        match action {
            KeyAction::KeyUp => spec_mods_remove(mods, d.modifier),
            KeyAction::KeyDown => spec_mods_insert(mods, d.modifier),
        }
    } else {
        mods
    };
    if spec_is_toggle_modifier(d.modifier) && action == KeyAction::KeyDown {
        if m1.contains(d.modifier) {
            spec_mods_remove(m1, d.modifier)
        } else {
            spec_mods_insert(m1, d.modifier)
        }
    } else {
        m1
    }
}

/// Whether the updated modifiers plus the descriptor demand a warm reset
/// (some control and some alt held, and the key is the delete action).
pub open spec fn spec_reset_demanded(mods: Seq<u16>, d: HiiKeyDescriptor) -> bool {
    (mods.contains(LEFT_CONTROL_MODIFIER) || mods.contains(RIGHT_CONTROL_MODIFIER))
        && (mods.contains(LEFT_ALT_MODIFIER) || mods.contains(RIGHT_ALT_MODIFIER))
        && d.modifier == DELETE_MODIFIER
}

/// The full keystroke transition: the state after the stroke and whether a
/// warm reset is demanded. When a reset is demanded nothing is enqueued.
pub open spec fn spec_keystroke(st: QView, usage: u32, action: KeyAction) -> (QView, bool) {
    match st.layout {
        None => (st, false),
        Some(layout) => match spec_usage_to_efi_key(usage) {
            None => (st, false),
            Some(k) => {
                let (desc_opt, ns1) = spec_resolve_descriptor(st, layout, k);
                match desc_opt {
                    None => (QView { ns: ns1, ..st }, false),
                    Some(d) => {
                        let mods1 = spec_update_mods(st.mods, d, action);
                        let st1 = QView { ns: ns1, mods: mods1, ..st };
                        if spec_reset_demanded(mods1, d) {
                            (st1, true)
                        } else if action == KeyAction::KeyUp {
                            (st1, false)
                        } else {
                            match spec_compose_event(d, mods1, st.partial) {
                                None => (st1, false),
                                Some(ev) => (QView {
                                    notify: if spec_any_pattern_matches(st.registered, ev) {
                                        st.notify.push(ev)
                                    } else {
                                        st.notify
                                    },
                                    keys: st.keys.push(ev),
                                    ..st1
                                }, false),
                            }
                        }
                    },
                }
            },
        },
    }
}

// ---------------------------------------------------------------------------
// LED derivation and lock-retention
// ---------------------------------------------------------------------------

/// The LED usages lit by the active modifiers, in modifier order.
pub open spec fn spec_active_leds(mods: Seq<u16>) -> Seq<u32>
    decreases mods.len(),
{
    if mods.len() == 0 {
        Seq::empty()
    } else {
        (match spec_modifier_to_led_usage(mods[0]) {
            Some(u) => seq![u],
            None => Seq::empty(),
        }) + spec_active_leds(mods.drop_first())
    }
}

/// The modifiers kept by a non-extended reset: those that drive an LED.
pub open spec fn spec_retain_led_mods(mods: Seq<u16>) -> Seq<u16>
    decreases mods.len(),
{
    if mods.len() == 0 {
        Seq::empty()
    } else {
        (if spec_modifier_to_led_usage(mods[0]) is Some {
            seq![mods[0]]
        } else {
            Seq::empty()
        }) + spec_retain_led_mods(mods.drop_first())
    }
}

fn active_leds_from(v: &Vec<u16>, i: usize) -> (r: Vec<u32>)
    requires i <= v@.len(),
    ensures r@ == spec_active_leds(v@.skip(i as int)),
    decreases v@.len() - i,
{
    if i == v.len() {
        let r: Vec<u32> = Vec::new();
        assert(v@.skip(i as int) =~= Seq::<u16>::empty());
        return r;
    }
    let mut rest = active_leds_from(v, i + 1);
    proof {
        assert(v@.skip(i as int).drop_first() =~= v@.skip(i as int + 1));
        assert(v@.skip(i as int)[0] == v@[i as int]);
    }
    match modifier_to_led_usage(v[i]) {
        Some(u) => {
            let ghost prev = rest@;
            rest.insert(0, u);
            assert(rest@ =~= seq![u] + prev);
            rest
        },
        None => {
            assert(rest@ =~= spec_active_leds(v@.skip(i as int)));
            rest
        },
    }
}

fn retain_led_mods_from(v: &Vec<u16>, i: usize) -> (r: Vec<u16>)
    requires i <= v@.len(),
    ensures r@ == spec_retain_led_mods(v@.skip(i as int)),
    decreases v@.len() - i,
{
    if i == v.len() {
        let r: Vec<u16> = Vec::new();
        assert(v@.skip(i as int) =~= Seq::<u16>::empty());
        return r;
    }
    let mut rest = retain_led_mods_from(v, i + 1);
    proof {
        assert(v@.skip(i as int).drop_first() =~= v@.skip(i as int + 1));
        assert(v@.skip(i as int)[0] == v@[i as int]);
    }
    match modifier_to_led_usage(v[i]) {
        Some(_) => {
            let ghost prev = rest@;
            rest.insert(0, v[i]);
            assert(rest@ =~= seq![v@[i as int]] + prev);
            rest
        },
        None => {
            assert(rest@ =~= spec_retain_led_mods(v@.skip(i as int)));
            rest
        },
    }
}

fn compose_event(d: HiiKeyDescriptor, mods: &Vec<u16>, partial: bool) -> (r: Option<KeyData>)
    ensures r == spec_compose_event(d, mods@, partial),
{
    let shift_active = mods_contains(mods, LEFT_SHIFT_MODIFIER)
        || mods_contains(mods, RIGHT_SHIFT_MODIFIER);
    let alt_gr_active = mods_contains(mods, ALT_GR_MODIFIER);
    let caps_active = mods_contains(mods, CAPS_LOCK_MODIFIER);
    let num_active = mods_contains(mods, NUM_LOCK_MODIFIER);
    let scan0 = modifier_to_scan(d.modifier);
    let shift_affected = d.affected_attribute & AFFECTED_BY_STANDARD_SHIFT != 0;
    let shift_applied = shift_affected && shift_active;
    let u1 = if shift_affected {
        if shift_active {
            if alt_gr_active { d.shifted_alt_gr_unicode } else { d.shifted_unicode }
        } else {
            if alt_gr_active { d.alt_gr_unicode } else { d.unicode }
        }
    } else {
        d.unicode
    };
    let u2 = if d.affected_attribute & AFFECTED_BY_CAPS_LOCK != 0 && caps_active {
        if u1 == d.unicode {
            d.shifted_unicode
        } else if u1 == d.shifted_unicode {
            d.unicode
        } else {
            u1
        }
    } else {
        u1
    };
    let num_affected = d.affected_attribute & AFFECTED_BY_NUM_LOCK != 0;
    let u3 = if num_affected && !(num_active && !shift_active) { 0u16 } else { u2 };
    let s3 = if num_affected && num_active && !shift_active { SCAN_NULL } else { scan0 };
    let esc_case = u3 == 0x1B && s3 == SCAN_NULL;
    let u4 = if esc_case { 0u16 } else { u3 };
    let s4 = if esc_case { SCAN_ESC } else { s3 };
    if !partial && u4 == 0 && s4 == SCAN_NULL {
        return None;
    }
    let st = key_state_of(mods, partial);
    let shift_state = if shift_applied {
        st.key_shift_state & !(LEFT_SHIFT_PRESSED | RIGHT_SHIFT_PRESSED)
    } else {
        st.key_shift_state
    };
    Some(KeyData {
        key: InputKey { unicode_char: u4, scan_code: s4 },
        key_state: KeyState { key_shift_state: shift_state, key_toggle_state: st.key_toggle_state },
    })
}

fn key_state_of(mods: &Vec<u16>, partial: bool) -> (r: KeyState)
    ensures r == spec_key_state(mods@, partial),
{
    let key_shift_state: u32 = SHIFT_STATE_VALID
        | (if mods_contains(mods, LEFT_CONTROL_MODIFIER) { LEFT_CONTROL_PRESSED } else { 0 })
        | (if mods_contains(mods, RIGHT_CONTROL_MODIFIER) { RIGHT_CONTROL_PRESSED } else { 0 })
        | (if mods_contains(mods, LEFT_ALT_MODIFIER) { LEFT_ALT_PRESSED } else { 0 })
        | (if mods_contains(mods, RIGHT_ALT_MODIFIER) { RIGHT_ALT_PRESSED } else { 0 })
        | (if mods_contains(mods, LEFT_SHIFT_MODIFIER) { LEFT_SHIFT_PRESSED } else { 0 })
        | (if mods_contains(mods, RIGHT_SHIFT_MODIFIER) { RIGHT_SHIFT_PRESSED } else { 0 })
        | (if mods_contains(mods, LEFT_LOGO_MODIFIER) { LEFT_LOGO_PRESSED } else { 0 })
        | (if mods_contains(mods, RIGHT_LOGO_MODIFIER) { RIGHT_LOGO_PRESSED } else { 0 })
        | (if mods_contains(mods, MENU_MODIFIER) { MENU_KEY_PRESSED } else { 0 })
        | (if mods_contains(mods, SYS_REQUEST_MODIFIER) || mods_contains(mods, PRINT_MODIFIER) {
            SYS_REQ_PRESSED
        } else { 0 });
    let key_toggle_state: u8 = TOGGLE_STATE_VALID
        | (if partial { KEY_STATE_EXPOSED } else { 0 })
        | (if mods_contains(mods, SCROLL_LOCK_MODIFIER) { SCROLL_LOCK_ACTIVE } else { 0 })
        | (if mods_contains(mods, NUM_LOCK_MODIFIER) { NUM_LOCK_ACTIVE } else { 0 })
        | (if mods_contains(mods, CAPS_LOCK_MODIFIER) { CAPS_LOCK_ACTIVE } else { 0 });
    KeyState { key_shift_state, key_toggle_state }
}

/// First index holding exactly the given key data, at or after `i`.
pub open spec fn spec_index_of_key(s: Seq<KeyData>, k: KeyData, i: int) -> Option<int>
    decreases s.len() - i when 0 <= i <= s.len()
{
    if i >= s.len() {
        None
    } else if s[i] == k {
        Some(i)
    } else {
        spec_index_of_key(s, k, i + 1)
    }
}

/// The registered set after removing one occurrence of a pattern.
pub open spec fn spec_registered_remove(s: Seq<KeyData>, k: KeyData) -> Seq<KeyData> {
    match spec_index_of_key(s, k, 0) {
        None => s,
        Some(i) => s.remove(i),
    }
}

/// The modifier set after writing the three lock bits of a toggle word.
pub open spec fn spec_toggle_mods(s: Seq<u16>, toggle: u8) -> Seq<u16> {
    let s1 = if toggle & SCROLL_LOCK_ACTIVE != 0 {
        spec_mods_insert(s, SCROLL_LOCK_MODIFIER)
    } else {
        spec_mods_remove(s, SCROLL_LOCK_MODIFIER)
    };
    let s2 = if toggle & NUM_LOCK_ACTIVE != 0 {
        spec_mods_insert(s1, NUM_LOCK_MODIFIER)
    } else {
        spec_mods_remove(s1, NUM_LOCK_MODIFIER)
    };
    if toggle & CAPS_LOCK_ACTIVE != 0 {
        spec_mods_insert(s2, CAPS_LOCK_MODIFIER)
    } else {
        spec_mods_remove(s2, CAPS_LOCK_MODIFIER)
    }
}

/// Manages the queue of pending keystrokes and the active keyboard state.
pub struct KeyQueue {
    layout: Option<HiiKeyboardLayout>,
    active_modifiers: Vec<u16>,
    active_ns_key: Option<HiiNsKeyDescriptor>,
    partial_key_support_active: bool,
    key_queue: Vec<KeyData>,
    registered_keys: Vec<KeyData>,
    notified_key_queue: Vec<KeyData>,
}

impl View for KeyQueue {
    type V = QView;

    closed spec fn view(&self) -> QView {
        QView {
            layout: match self.layout {
                Some(l) => Some(l@),
                None => None,
            },
            mods: self.active_modifiers@,
            ns: match self.active_ns_key {
                Some(n) => Some(n@),
                None => None,
            },
            partial: self.partial_key_support_active,
            keys: self.key_queue@,
            registered: self.registered_keys@,
            notify: self.notified_key_queue@,
        }
    }
}

/// The state of a fresh key queue: no layout, nothing active, all queues
/// empty.
pub open spec fn spec_empty_queue() -> QView {
    QView {
        layout: None,
        mods: Seq::empty(),
        ns: None,
        partial: false,
        keys: Seq::empty(),
        registered: Seq::empty(),
        notify: Seq::empty(),
    }
}

impl Default for KeyQueue {
    /// Returns a fresh key queue.
    fn default() -> (r: KeyQueue)
        ensures r@ == spec_empty_queue(), spec_queue_wf(r@),
    {
        let r = KeyQueue {
            layout: None,
            active_modifiers: Vec::new(),
            active_ns_key: None,
            partial_key_support_active: false,
            key_queue: Vec::new(),
            registered_keys: Vec::new(),
            notified_key_queue: Vec::new(),
        };
        assert(r@ =~= spec_empty_queue());
        r
    }
}

impl KeyQueue {
    /// Returns a fresh key queue.
    pub fn new() -> (r: KeyQueue)
        ensures r@ == spec_empty_queue(), spec_queue_wf(r@),
    {
        let r = KeyQueue {
            layout: None,
            active_modifiers: Vec::new(),
            active_ns_key: None,
            partial_key_support_active: false,
            key_queue: Vec::new(),
            registered_keys: Vec::new(),
            notified_key_queue: Vec::new(),
        };
        assert(r@ =~= spec_empty_queue());
        r
    }

    /// Resets the queue: pending strokes, the non-spacing state and partial
    /// exposure are cleared; an extended reset clears all modifiers, a plain
    /// one keeps only the LED-backed lock modifiers. Registrations and the
    /// notify queue are untouched.
    pub fn reset(&mut self, extended_reset: bool)
        ensures
            final(self)@ == (QView {
                mods: if extended_reset {
                    Seq::empty()
                } else {
                    spec_retain_led_mods(old(self)@.mods)
                },
                ns: None,
                partial: false,
                keys: Seq::empty(),
                ..old(self)@
            }),
            spec_queue_wf(old(self)@) ==> spec_queue_wf(final(self)@),
    {
        proof {
            if spec_queue_wf(self@) && !extended_reset {
                lemma_retain_led_mods_wf(self@.mods);
            }
        }
        if extended_reset {
            self.active_modifiers = Vec::new();
        } else {
            let retained = retain_led_mods_from(&self.active_modifiers, 0);
            proof {
                assert(self.active_modifiers@.skip(0) =~= self.active_modifiers@);
            }
            self.active_modifiers = retained;
        }
        self.active_ns_key = None;
        self.partial_key_support_active = false;
        self.key_queue = Vec::new();
        assert(self@ =~= (QView {
            mods: if extended_reset {
                Seq::empty()
            } else {
                spec_retain_led_mods(old(self)@.mods)
            },
            ns: None,
            partial: false,
            keys: Seq::empty(),
            ..old(self)@
        }));
    }

    /// Processes one keystroke, per the keystroke transition. Returns true
    /// exactly when the stroke demands the warm-reset path; nothing is
    /// enqueued in that case, and the caller owns the reset.
    pub fn keystroke(&mut self, usage: u32, action: KeyAction) -> (reset: bool)
        ensures
            final(self)@ == spec_keystroke(old(self)@, usage, action).0,
            reset == spec_keystroke(old(self)@, usage, action).1,
            spec_queue_wf(old(self)@) ==> spec_queue_wf(final(self)@),
    {
        let ghost st0 = self@;
        proof {
            if spec_queue_wf(st0) {
                lemma_keystroke_wf(st0, usage, action);
            }
        }
        if self.layout.is_none() {
            return false;
        }
        let k = match usage_to_efi_key(usage) {
            None => { return false; },
            Some(k) => k,
        };
        // resolve the stroke to a descriptor
        let mut desc_opt: Option<HiiKeyDescriptor> = None;
        if let Some(ns) = &self.active_ns_key {
            if let Some(d) = find_dep(&ns.dependent_keys, k) {
                desc_opt = Some(d);
            }
        }
        if desc_opt.is_some() {
            self.active_ns_key = None;
        } else {
            let hit = match &self.layout {
                Some(l) => find_key(&l.keys, k),
                None => KeySearch::NotFound,
            };
            match hit {
                KeySearch::FoundKey(d) => {
                    desc_opt = Some(d);
                },
                KeySearch::FoundNs(n) => {
                    self.active_ns_key = Some(n);
                    assert(self@ =~= spec_keystroke(st0, usage, action).0);
                    return false;
                },
                KeySearch::NotFound => {
                    assert(self@ =~= spec_keystroke(st0, usage, action).0);
                    return false;
                },
            }
        }
        let d = desc_opt.unwrap();
        assert(spec_resolve_descriptor(st0, st0.layout.unwrap(), k)
            == (Some(d), self@.ns));
        // modifier bookkeeping
        if is_held_modifier(d.modifier) {
            match action {
                KeyAction::KeyUp => mods_remove(&mut self.active_modifiers, d.modifier),
                KeyAction::KeyDown => mods_insert(&mut self.active_modifiers, d.modifier),
            }
        }
        if is_toggle_modifier(d.modifier) && matches!(action, KeyAction::KeyDown) {
            if mods_contains(&self.active_modifiers, d.modifier) {
                mods_remove(&mut self.active_modifiers, d.modifier);
            } else {
                mods_insert(&mut self.active_modifiers, d.modifier);
            }
        }
        assert(self@.mods == spec_update_mods(st0.mods, d, action));
        // the three-finger salute demands a warm reset from the caller
        let ctrl = mods_contains(&self.active_modifiers, LEFT_CONTROL_MODIFIER)
            || mods_contains(&self.active_modifiers, RIGHT_CONTROL_MODIFIER);
        let alt = mods_contains(&self.active_modifiers, LEFT_ALT_MODIFIER)
            || mods_contains(&self.active_modifiers, RIGHT_ALT_MODIFIER);
        if ctrl && alt && d.modifier == DELETE_MODIFIER {
            assert(self@ =~= spec_keystroke(st0, usage, action).0);
            return true;
        }
        if matches!(action, KeyAction::KeyUp) {
            assert(self@ =~= spec_keystroke(st0, usage, action).0);
            return false;
        }
        let ev = match compose_event(d, &self.active_modifiers, self.partial_key_support_active) {
            None => {
                assert(self@ =~= spec_keystroke(st0, usage, action).0);
                return false;
            },
            Some(ev) => ev,
        };
        if self.is_registered_key(ev) {
            self.notified_key_queue.push(ev);
        }
        self.key_queue.push(ev);
        assert(self@ =~= spec_keystroke(st0, usage, action).0);
        false
    }

    /// Whether any registered pattern matches the given event.
    pub fn is_registered_key(&self, current_key: KeyData) -> (r: bool)
        ensures r == spec_any_pattern_matches(self@.registered, current_key),
    {
        let n = self.registered_keys.len();
        let mut i: usize = 0;
        while i < n
            invariant
                0 <= i <= n,
                n == self.registered_keys@.len(),
                forall|j: int| 0 <= j < i ==> !spec_matches_registered_key(
                    current_key, #[trigger] self.registered_keys@[j]),
            decreases n - i,
        {
            let ev = OrdKeyData(current_key);
            let pat = OrdKeyData(self.registered_keys[i]);
            if ev.matches_registered_key(&pat) {
                return true;
            }
            i = i + 1;
        }
        false
    }

    /// The current shift/toggle state words.
    pub fn init_key_state(&self) -> (r: KeyState)
        ensures r == spec_key_state(self@.mods, self@.partial),
    {
        key_state_of(&self.active_modifiers, self.partial_key_support_active)
    }

    /// Removes and returns the oldest pending key event, if any.
    pub fn pop_key(&mut self) -> (r: Option<KeyData>)
        ensures
            old(self)@.keys.len() == 0 ==> r is None && final(self)@ == old(self)@,
            old(self)@.keys.len() > 0 ==> r == Some(old(self)@.keys[0])
                && final(self)@ == (QView { keys: old(self)@.keys.drop_first(), ..old(self)@ }),
    {
        if self.key_queue.len() == 0 {
            assert(self@ =~= old(self)@);
            return None;
        }
        let k = self.key_queue.remove(0);
        assert(self@.keys =~= old(self)@.keys.drop_first());
        assert(self@ =~= (QView { keys: old(self)@.keys.drop_first(), ..old(self)@ }));
        Some(k)
    }

    /// Returns the oldest pending key event without removing it.
    pub fn peek_key(&self) -> (r: Option<KeyData>)
        ensures
            self@.keys.len() == 0 ==> r is None,
            self@.keys.len() > 0 ==> r == Some(self@.keys[0]),
    {
        if self.key_queue.len() == 0 {
            None
        } else {
            Some(self.key_queue[0])
        }
    }

    /// Removes and returns the oldest notify-queue event, if any.
    pub fn pop_notify_key(&mut self) -> (r: Option<KeyData>)
        ensures
            old(self)@.notify.len() == 0 ==> r is None && final(self)@ == old(self)@,
            old(self)@.notify.len() > 0 ==> r == Some(old(self)@.notify[0])
                && final(self)@ == (QView {
                    notify: old(self)@.notify.drop_first(), ..old(self)@
                }),
    {
        if self.notified_key_queue.len() == 0 {
            assert(self@ =~= old(self)@);
            return None;
        }
        let k = self.notified_key_queue.remove(0);
        assert(self@.notify =~= old(self)@.notify.drop_first());
        assert(self@ =~= (QView { notify: old(self)@.notify.drop_first(), ..old(self)@ }));
        Some(k)
    }

    /// Returns the oldest notify-queue event without removing it.
    pub fn peek_notify_key(&self) -> (r: Option<KeyData>)
        ensures
            self@.notify.len() == 0 ==> r is None,
            self@.notify.len() > 0 ==> r == Some(self@.notify[0]),
    {
        if self.notified_key_queue.len() == 0 {
            None
        } else {
            Some(self.notified_key_queue[0])
        }
    }

    /// Writes the lock bits and the exposure bit of a toggle word into the
    /// live state.
    pub fn set_key_toggle_state(&mut self, toggle_state: u8)
        ensures
            final(self)@ == (QView {
                mods: spec_toggle_mods(old(self)@.mods, toggle_state),
                partial: toggle_state & KEY_STATE_EXPOSED != 0,
                ..old(self)@
            }),
            spec_queue_wf(old(self)@) ==> spec_queue_wf(final(self)@),
    {
        proof {
            if spec_queue_wf(self@) {
                lemma_toggle_mods_wf(self@.mods, toggle_state);
            }
        }
        if toggle_state & SCROLL_LOCK_ACTIVE != 0 {
            mods_insert(&mut self.active_modifiers, SCROLL_LOCK_MODIFIER);
        } else {
            mods_remove(&mut self.active_modifiers, SCROLL_LOCK_MODIFIER);
        }
        if toggle_state & NUM_LOCK_ACTIVE != 0 {
            mods_insert(&mut self.active_modifiers, NUM_LOCK_MODIFIER);
        } else {
            mods_remove(&mut self.active_modifiers, NUM_LOCK_MODIFIER);
        }
        if toggle_state & CAPS_LOCK_ACTIVE != 0 {
            mods_insert(&mut self.active_modifiers, CAPS_LOCK_MODIFIER);
        } else {
            mods_remove(&mut self.active_modifiers, CAPS_LOCK_MODIFIER);
        }
        self.partial_key_support_active = toggle_state & KEY_STATE_EXPOSED != 0;
        assert(self@ =~= (QView {
            mods: spec_toggle_mods(old(self)@.mods, toggle_state),
            partial: toggle_state & KEY_STATE_EXPOSED != 0,
            ..old(self)@
        }));
    }

    /// The HID LED usages lit under the active modifiers.
    pub fn get_active_leds(&self) -> (r: Vec<u32>)
        ensures r@ == spec_active_leds(self@.mods),
    {
        let r = active_leds_from(&self.active_modifiers, 0);
        proof {
            assert(self.active_modifiers@.skip(0) =~= self.active_modifiers@);
        }
        r
    }

    /// Whether a layout is installed.
    pub fn has_layout(&self) -> (r: bool)
        ensures r == (self@.layout is Some),
    {
        self.layout.is_some()
    }

    /// Installs (or clears) the layout the queue translates against.
    pub fn set_layout(&mut self, new_layout: Option<HiiKeyboardLayout>)
        ensures
            final(self)@ == (QView {
                layout: match new_layout {
                    Some(l) => Some(l@),
                    None => None,
                },
                ..old(self)@
            }),
    {
        self.layout = new_layout;
        assert(self@ =~= (QView {
            layout: match self.layout {
                Some(l) => Some(l@),
                None => None,
            },
            ..old(self)@
        }));
    }

    /// Registers a notification pattern; a duplicate registration is kept
    /// once.
    pub fn add_notify_key(&mut self, key_data: OrdKeyData)
        ensures
            final(self)@ == (QView {
                registered: if old(self)@.registered.contains(key_data.0) {
                    old(self)@.registered
                } else {
                    old(self)@.registered.push(key_data.0)
                },
                ..old(self)@
            }),
    {
        let n = self.registered_keys.len();
        let mut i: usize = 0;
        while i < n
            invariant
                0 <= i <= n,
                n == self.registered_keys@.len(),
                self@ == old(self)@,
                forall|j: int| 0 <= j < i ==> self.registered_keys@[j] != key_data.0,
            decreases n - i,
        {
            if self.registered_keys[i] == key_data.0 {
                assert(old(self)@.registered.contains(key_data.0));
                assert(self@ =~= (QView { registered: old(self)@.registered, ..old(self)@ }));
                return;
            }
            i = i + 1;
        }
        assert(!old(self)@.registered.contains(key_data.0));
        self.registered_keys.push(key_data.0);
        assert(self@ =~= (QView {
            registered: old(self)@.registered.push(key_data.0),
            ..old(self)@
        }));
    }

    /// Unregisters one occurrence of a notification pattern.
    pub fn remove_notify_key(&mut self, key_data: &OrdKeyData)
        ensures
            final(self)@ == (QView {
                registered: spec_registered_remove(old(self)@.registered, key_data.0),
                ..old(self)@
            }),
    {
        let n = self.registered_keys.len();
        let mut i: usize = 0;
        while i < n
            invariant
                0 <= i <= n,
                n == self.registered_keys@.len(),
                self@ == old(self)@,
                spec_index_of_key(self.registered_keys@, key_data.0, 0)
                    == spec_index_of_key(self.registered_keys@, key_data.0, i as int),
            decreases n - i,
        {
            if self.registered_keys[i] == key_data.0 {
                self.registered_keys.remove(i);
                assert(self@ =~= (QView {
                    registered: spec_registered_remove(old(self)@.registered, key_data.0),
                    ..old(self)@
                }));
                return;
            }
            i = i + 1;
        }
        assert(self@ =~= (QView {
            registered: spec_registered_remove(old(self)@.registered, key_data.0),
            ..old(self)@
        }));
    }
}

// ---------------------------------------------------------------------------
// Laws
// ---------------------------------------------------------------------------

/// The state an extended reset leaves the queue in.
pub open spec fn spec_reset_ext(st: QView) -> QView {
    QView {
        mods: Seq::empty(),
        ns: None,
        partial: false,
        keys: Seq::empty(),
        ..st
    }
}

/// An extended reset is idempotent: two in a row leave the same state as
/// one.
pub proof fn lemma_reset_ext_idempotent(st: QView)
    ensures spec_reset_ext(spec_reset_ext(st)) == spec_reset_ext(st),
{
    assert(spec_reset_ext(spec_reset_ext(st)) =~= spec_reset_ext(st));
}

/// The modifier set holds no duplicates.
pub open spec fn spec_mods_nodup(s: Seq<u16>) -> bool {
    forall|i: int, j: int| 0 <= i < j < s.len() ==> s[i] != s[j]
}

proof fn lemma_mods_insert_contains(s: Seq<u16>, m: u16, x: u16)
    ensures spec_mods_insert(s, m).contains(x) == (s.contains(x) || x == m),
{
    if s.contains(m) {
    } else {
        if s.contains(x) {
            let i = choose|i: int| 0 <= i < s.len() && s[i] == x;
            assert(s.push(m)[i] == x);
        }
        if x == m {
            assert(s.push(m)[s.len() as int] == m);
        }
        if s.push(m).contains(x) {
            let i = choose|i: int| 0 <= i < s.push(m).len() && s.push(m)[i] == x;
            if i < s.len() {
                assert(s[i] == x);
            }
        }
    }
}

proof fn lemma_mods_remove_contains(s: Seq<u16>, m: u16, x: u16)
    requires spec_mods_nodup(s),
    ensures
        spec_mods_remove(s, m).contains(x) == (s.contains(x) && x != m),
        spec_mods_nodup(spec_mods_remove(s, m)),
{
    lemma_index_of_properties(s, m, 0);
    match spec_index_of(s, m, 0) {
        None => {
            assert(!s.contains(m));
            if s.contains(x) && x == m {
                let i = choose|i: int| 0 <= i < s.len() && s[i] == x;
                assert(false);
            }
        },
        Some(p) => {
            let rem = s.remove(p);
            assert(s[p] == m);
            // duplicate-freedom: no other index holds m
            assert forall|k: int| 0 <= k < rem.len() implies
                #[trigger] rem[k] == if k < p { s[k] } else { s[k + 1] } by {
            }
            if rem.contains(x) {
                let k = choose|k: int| 0 <= k < rem.len() && rem[k] == x;
                if k < p {
                    assert(s[k] == x);
                    assert(x != m);
                } else {
                    assert(s[k + 1] == x);
                    assert(x != m);
                }
            }
            if s.contains(x) && x != m {
                let i = choose|i: int| 0 <= i < s.len() && s[i] == x;
                if i < p {
                    assert(rem[i] == x);
                } else {
                    assert(i != p);
                    assert(rem[i - 1] == x);
                }
            }
            assert forall|i: int, j: int| 0 <= i < j < rem.len() implies
                rem[i] != rem[j] by {
                assert(rem[i] == if i < p { s[i] } else { s[i + 1] });
                assert(rem[j] == if j < p { s[j] } else { s[j + 1] });
            }
        },
    }
}

proof fn lemma_mods_insert_nodup(s: Seq<u16>, m: u16)
    requires spec_mods_nodup(s),
    ensures spec_mods_nodup(spec_mods_insert(s, m)),
{
    if !s.contains(m) {
        let r = s.push(m);
        assert forall|i: int, j: int| 0 <= i < j < r.len() implies r[i] != r[j] by {
            if j == s.len() {
                assert(r[i] == s[i]);
                if s[i] == m {
                    assert(s.contains(m));
                }
            } else {
                assert(r[i] == s[i] && r[j] == s[j]);
            }
        }
    }
}

/// Writing a toggle word and reading the state back yields the word with
/// the valid bit added, for any toggle word made of the defined bits. The
/// duplicate-freedom premise is the queue well-formedness that the
/// constructors establish and every operation's contract preserves.
pub proof fn lemma_set_state_get_state(mods: Seq<u16>, partial: bool, t: u8)
    requires
        spec_mods_nodup(mods),
        t & (SCROLL_LOCK_ACTIVE | NUM_LOCK_ACTIVE | CAPS_LOCK_ACTIVE | KEY_STATE_EXPOSED) == t,
    ensures
        spec_key_state(spec_toggle_mods(mods, t), t & KEY_STATE_EXPOSED != 0).key_toggle_state
            == TOGGLE_STATE_VALID | t,
{
    let m2 = spec_toggle_mods(mods, t);
    let s1 = if t & SCROLL_LOCK_ACTIVE != 0 {
        spec_mods_insert(mods, SCROLL_LOCK_MODIFIER)
    } else {
        spec_mods_remove(mods, SCROLL_LOCK_MODIFIER)
    };
    let s2 = if t & NUM_LOCK_ACTIVE != 0 {
        spec_mods_insert(s1, NUM_LOCK_MODIFIER)
    } else {
        spec_mods_remove(s1, NUM_LOCK_MODIFIER)
    };
    // track membership of each lock modifier through the three steps
    if t & SCROLL_LOCK_ACTIVE != 0 {
        lemma_mods_insert_nodup(mods, SCROLL_LOCK_MODIFIER);
        lemma_mods_insert_contains(mods, SCROLL_LOCK_MODIFIER, SCROLL_LOCK_MODIFIER);
    } else {
        lemma_mods_remove_contains(mods, SCROLL_LOCK_MODIFIER, SCROLL_LOCK_MODIFIER);
    }
    assert(spec_mods_nodup(s1)) by {
        if t & SCROLL_LOCK_ACTIVE != 0 {
            lemma_mods_insert_nodup(mods, SCROLL_LOCK_MODIFIER);
        } else {
            lemma_mods_remove_contains(mods, SCROLL_LOCK_MODIFIER, 0);
        }
    }
    if t & NUM_LOCK_ACTIVE != 0 {
        lemma_mods_insert_nodup(s1, NUM_LOCK_MODIFIER);
        lemma_mods_insert_contains(s1, NUM_LOCK_MODIFIER, NUM_LOCK_MODIFIER);
        lemma_mods_insert_contains(s1, NUM_LOCK_MODIFIER, SCROLL_LOCK_MODIFIER);
    } else {
        lemma_mods_remove_contains(s1, NUM_LOCK_MODIFIER, NUM_LOCK_MODIFIER);
        lemma_mods_remove_contains(s1, NUM_LOCK_MODIFIER, SCROLL_LOCK_MODIFIER);
    }
    assert(spec_mods_nodup(s2)) by {
        if t & NUM_LOCK_ACTIVE != 0 {
            lemma_mods_insert_nodup(s1, NUM_LOCK_MODIFIER);
        } else {
            lemma_mods_remove_contains(s1, NUM_LOCK_MODIFIER, 0);
        }
    }
    if t & CAPS_LOCK_ACTIVE != 0 {
        lemma_mods_insert_contains(s2, CAPS_LOCK_MODIFIER, CAPS_LOCK_MODIFIER);
        lemma_mods_insert_contains(s2, CAPS_LOCK_MODIFIER, SCROLL_LOCK_MODIFIER);
        lemma_mods_insert_contains(s2, CAPS_LOCK_MODIFIER, NUM_LOCK_MODIFIER);
    } else {
        lemma_mods_remove_contains(s2, CAPS_LOCK_MODIFIER, CAPS_LOCK_MODIFIER);
        lemma_mods_remove_contains(s2, CAPS_LOCK_MODIFIER, SCROLL_LOCK_MODIFIER);
        lemma_mods_remove_contains(s2, CAPS_LOCK_MODIFIER, NUM_LOCK_MODIFIER);
    }
    assert(m2.contains(SCROLL_LOCK_MODIFIER) == (t & SCROLL_LOCK_ACTIVE != 0));
    assert(m2.contains(NUM_LOCK_MODIFIER) == (t & NUM_LOCK_ACTIVE != 0));
    assert(m2.contains(CAPS_LOCK_MODIFIER) == (t & CAPS_LOCK_ACTIVE != 0));
    let sc: u8 = if m2.contains(SCROLL_LOCK_MODIFIER) { SCROLL_LOCK_ACTIVE } else { 0 };
    let nu: u8 = if m2.contains(NUM_LOCK_MODIFIER) { NUM_LOCK_ACTIVE } else { 0 };
    let ca: u8 = if m2.contains(CAPS_LOCK_MODIFIER) { CAPS_LOCK_ACTIVE } else { 0 };
    let ex: u8 = if t & KEY_STATE_EXPOSED != 0 { KEY_STATE_EXPOSED } else { 0 };
    assert(spec_key_state(m2, t & KEY_STATE_EXPOSED != 0).key_toggle_state
        == TOGGLE_STATE_VALID | ex | sc | nu | ca);
    assert(TOGGLE_STATE_VALID | ex | sc | nu | ca == TOGGLE_STATE_VALID | t) by (bit_vector)
        requires
            sc == (if t & SCROLL_LOCK_ACTIVE != 0 { SCROLL_LOCK_ACTIVE } else { 0u8 }),
            nu == (if t & NUM_LOCK_ACTIVE != 0 { NUM_LOCK_ACTIVE } else { 0u8 }),
            ca == (if t & CAPS_LOCK_ACTIVE != 0 { CAPS_LOCK_ACTIVE } else { 0u8 }),
            ex == (if t & KEY_STATE_EXPOSED != 0 { KEY_STATE_EXPOSED } else { 0u8 }),
            t & (SCROLL_LOCK_ACTIVE | NUM_LOCK_ACTIVE | CAPS_LOCK_ACTIVE | KEY_STATE_EXPOSED) == t,
    {
    }
}

/// A non-spacing key composes with its dependent: pressing and releasing
/// the marker key and then a dependent key enqueues exactly one event, and
/// it carries the dependent's unicode.
pub proof fn lemma_ns_key_composition(
    st: QView, l: LayoutView, u1: u32, u2: u32, k1: EfiKey, k2: EfiKey,
    n: NsKeyView, d: HiiKeyDescriptor,
)
    requires
        st.layout == Some(l),
        st.ns is None,
        st.mods == Seq::<u16>::empty(),
        st.partial == false,
        st.registered == Seq::<KeyData>::empty(),
        spec_usage_to_efi_key(u1) == Some(k1),
        spec_usage_to_efi_key(u2) == Some(k2),
        spec_find_key(l.keys, k1, 0) == LayoutHit::HitNs(n),
        spec_find_dep(n.dependent_keys, k1, 0) is None,
        spec_find_dep(n.dependent_keys, k2, 0) == Some(d),
        !spec_is_held_modifier(d.modifier),
        !spec_is_toggle_modifier(d.modifier),
        d.modifier != DELETE_MODIFIER,
        d.affected_attribute & AFFECTED_BY_NUM_LOCK == 0,
        d.unicode != 0,
        d.unicode != 0x1B,
    ensures ({
        let (st1, r1) = spec_keystroke(st, u1, KeyAction::KeyDown);
        let (st2, r2) = spec_keystroke(st1, u1, KeyAction::KeyUp);
        let (st3, r3) = spec_keystroke(st2, u2, KeyAction::KeyDown);
        let (st4, r4) = spec_keystroke(st3, u2, KeyAction::KeyUp);
        &&& !r1 && !r2 && !r3 && !r4
        &&& st4.keys.len() == st.keys.len() + 1
        &&& st4.keys.last().key.unicode_char == d.unicode
    }),
{
    let (st1, r1) = spec_keystroke(st, u1, KeyAction::KeyDown);
    assert(st1 == QView { ns: Some(n), ..st } && !r1);
    let (st2, r2) = spec_keystroke(st1, u1, KeyAction::KeyUp);
    assert(st2 == QView { ns: Some(n), ..st } && !r2);
    let (st3, r3) = spec_keystroke(st2, u2, KeyAction::KeyDown);
    assert(spec_resolve_descriptor(st2, l, k2) == (Some(d), None::<NsKeyView>));
    assert(!r3);
    let ev = spec_compose_event(d, st.mods, false);
    assert(ev is Some && ev.unwrap().key.unicode_char == d.unicode);
    assert(st3.keys == st.keys.push(ev.unwrap()));
    assert(st3.keys.last() == ev.unwrap());
    let (st4, r4) = spec_keystroke(st3, u2, KeyAction::KeyUp);
    assert(!r4);
    assert(st4.keys == st3.keys);
}

/// A registered pattern that matches an enqueued event routes the event to
/// the notify queue: part of the notification guarantee, with dispatch to
/// the registered callbacks owed by the embedder.
pub proof fn lemma_match_enters_notify_queue(st: QView, usage: u32, action: KeyAction)
    ensures ({
        let (st2, r) = spec_keystroke(st, usage, action);
        st2.keys.len() > st.keys.len() && spec_any_pattern_matches(st.registered, st2.keys.last())
            ==> st2.notify == st.notify.push(st2.keys.last())
    }),
{
}

/// Well-formedness of a queue state: the modifier set holds no duplicates.
/// The constructors establish it and every operation preserves it.
pub open spec fn spec_queue_wf(q: QView) -> bool {
    spec_mods_nodup(q.mods)
}

/// Inserting preserves duplicate-freedom.
pub proof fn lemma_mods_insert_wf(s: Seq<u16>, m: u16)
    requires spec_mods_nodup(s),
    ensures spec_mods_nodup(spec_mods_insert(s, m)),
{
    lemma_mods_insert_nodup(s, m);
}

/// Removing preserves duplicate-freedom.
pub proof fn lemma_mods_remove_wf(s: Seq<u16>, m: u16)
    requires spec_mods_nodup(s),
    ensures spec_mods_nodup(spec_mods_remove(s, m)),
{
    lemma_mods_remove_contains(s, m, 0);
}

/// The keystroke modifier bookkeeping preserves duplicate-freedom.
pub proof fn lemma_update_mods_wf(mods: Seq<u16>, d: HiiKeyDescriptor, action: KeyAction)
    requires spec_mods_nodup(mods),
    ensures spec_mods_nodup(spec_update_mods(mods, d, action)),
{
    let m1 = if spec_is_held_modifier(d.modifier) {
        match action {
            KeyAction::KeyUp => spec_mods_remove(mods, d.modifier),
            KeyAction::KeyDown => spec_mods_insert(mods, d.modifier),
        }
    } else {
        mods
    };
    if spec_is_held_modifier(d.modifier) {
        match action {
            KeyAction::KeyUp => lemma_mods_remove_wf(mods, d.modifier),
            KeyAction::KeyDown => lemma_mods_insert_wf(mods, d.modifier),
        }
    }
    if spec_is_toggle_modifier(d.modifier) && action == KeyAction::KeyDown {
        if m1.contains(d.modifier) {
            lemma_mods_remove_wf(m1, d.modifier);
        } else {
            lemma_mods_insert_wf(m1, d.modifier);
        }
    }
}

/// Writing a toggle word preserves duplicate-freedom.
pub proof fn lemma_toggle_mods_wf(mods: Seq<u16>, t: u8)
    requires spec_mods_nodup(mods),
    ensures spec_mods_nodup(spec_toggle_mods(mods, t)),
{
    let s1 = if t & SCROLL_LOCK_ACTIVE != 0 {
        spec_mods_insert(mods, SCROLL_LOCK_MODIFIER)
    } else {
        spec_mods_remove(mods, SCROLL_LOCK_MODIFIER)
    };
    let s2 = if t & NUM_LOCK_ACTIVE != 0 {
        spec_mods_insert(s1, NUM_LOCK_MODIFIER)
    } else {
        spec_mods_remove(s1, NUM_LOCK_MODIFIER)
    };
    if t & SCROLL_LOCK_ACTIVE != 0 {
        lemma_mods_insert_wf(mods, SCROLL_LOCK_MODIFIER);
    } else {
        lemma_mods_remove_wf(mods, SCROLL_LOCK_MODIFIER);
    }
    if t & NUM_LOCK_ACTIVE != 0 {
        lemma_mods_insert_wf(s1, NUM_LOCK_MODIFIER);
    } else {
        lemma_mods_remove_wf(s1, NUM_LOCK_MODIFIER);
    }
    if t & CAPS_LOCK_ACTIVE != 0 {
        lemma_mods_insert_wf(s2, CAPS_LOCK_MODIFIER);
    } else {
        lemma_mods_remove_wf(s2, CAPS_LOCK_MODIFIER);
    }
}

proof fn lemma_retain_led_mods_contains(s: Seq<u16>, x: u16)
    ensures spec_retain_led_mods(s).contains(x) ==> s.contains(x),
    decreases s.len(),
{
    if s.len() > 0 {
        lemma_retain_led_mods_contains(s.drop_first(), x);
        let rest = spec_retain_led_mods(s.drop_first());
        if spec_retain_led_mods(s).contains(x) {
            let head = if spec_modifier_to_led_usage(s[0]) is Some {
                seq![s[0]]
            } else {
                Seq::<u16>::empty()
            };
            let i = choose|i: int| 0 <= i < spec_retain_led_mods(s).len()
                && spec_retain_led_mods(s)[i] == x;
            if i < head.len() {
                assert(s[0] == x);
            } else {
                assert(rest[i - head.len()] == x);
                assert(rest.contains(x));
                let j = choose|j: int| 0 <= j < s.drop_first().len() && s.drop_first()[j] == x;
                assert(s[j + 1] == x);
            }
        }
    }
}

/// Keeping only the LED-backed lock modifiers preserves duplicate-freedom.
pub proof fn lemma_retain_led_mods_wf(s: Seq<u16>)
    requires spec_mods_nodup(s),
    ensures spec_mods_nodup(spec_retain_led_mods(s)),
    decreases s.len(),
{
    if s.len() > 0 {
        assert(spec_mods_nodup(s.drop_first())) by {
            assert forall|i: int, j: int| 0 <= i < j < s.drop_first().len() implies
                s.drop_first()[i] != s.drop_first()[j] by {
                assert(s.drop_first()[i] == s[i + 1]);
                assert(s.drop_first()[j] == s[j + 1]);
            }
        }
        lemma_retain_led_mods_wf(s.drop_first());
        let rest = spec_retain_led_mods(s.drop_first());
        let r = spec_retain_led_mods(s);
        if spec_modifier_to_led_usage(s[0]) is Some {
            assert forall|i: int, j: int| 0 <= i < j < r.len() implies r[i] != r[j] by {
                if i == 0 {
                    assert(r[0] == s[0]);
                    assert(r[j] == rest[j - 1]);
                    if rest[j - 1] == s[0] {
                        assert(rest.contains(s[0]));
                        lemma_retain_led_mods_contains(s.drop_first(), s[0]);
                        let k = choose|k: int| 0 <= k < s.drop_first().len()
                            && s.drop_first()[k] == s[0];
                        assert(s[k + 1] == s[0]);
                    }
                } else {
                    assert(r[i] == rest[i - 1]);
                    assert(r[j] == rest[j - 1]);
                }
            }
        } else {
            assert(r =~= rest);
        }
    }
}

/// One keystroke preserves queue well-formedness.
pub proof fn lemma_keystroke_wf(st: QView, usage: u32, action: KeyAction)
    requires spec_queue_wf(st),
    ensures spec_queue_wf(spec_keystroke(st, usage, action).0),
{
    match st.layout {
        None => {},
        Some(layout) => match spec_usage_to_efi_key(usage) {
            None => {},
            Some(k) => {
                let (desc_opt, ns1) = spec_resolve_descriptor(st, layout, k);
                match desc_opt {
                    None => {},
                    Some(d) => {
                        lemma_update_mods_wf(st.mods, d, action);
                    },
                }
            },
        },
    }
}

} // verus!
