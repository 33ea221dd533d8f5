//! Bit-exact codec for the HII keyboard-layout package-list binary format.
//!
//! The format is specified here as spec-level parse and serialize functions;
//! the executable encoder and decoder are proved to refine them, and the
//! round-trip laws are proved of the spec functions.

use vstd::prelude::*;
use crate::keys::{
    spec_efi_key_num, spec_efi_key_from_num, efi_key_num, efi_key_from_num,
    lemma_efi_key_num_roundtrip, NS_KEY_MODIFIER, NS_KEY_DEPENDENCY_MODIFIER,
};
use crate::layout::{
    Guid, HiiKeyDescriptor, HiiNsKeyDescriptor, HiiKey, HiiKeyView, NsKeyView,
    HiiKeyboardDescription, DescriptionView, HiiKeyboardLayout, LayoutView,
    HiiKeyboardPkg, PkgView, HiiKeyboardPkgList, PkgListView,
};

verus! {

/// Errors reported by the codec.
#[derive(Clone, Copy, Debug, PartialEq, Eq, Structural)]
pub enum LayoutError {
    /// The byte buffer does not parse as the structure asked for.
    ParseError,
    /// The structure cannot be serialized (a count or length is out of range,
    /// or a description breaks the string rules).
    EncodeError,
}

/// Package type tag of a keyboard-layout package.
pub const PACKAGE_KEYBOARD_LAYOUT_TAG: u8 = 0x11;
/// Package type tag of the package-list end marker.
pub const PACKAGE_END_TAG: u8 = 0xDF;

// ---------------------------------------------------------------------------
// Little-endian integers
// ---------------------------------------------------------------------------

pub open spec fn spec_le16(v: u16) -> Seq<u8> {
    seq![(v % 256) as u8, (v / 256) as u8]
}

pub open spec fn spec_le32(v: u32) -> Seq<u8> {
    seq![
        (v % 256) as u8,
        ((v / 256) % 256) as u8,
        ((v / 65536) % 256) as u8,
        ((v / 16777216) % 256) as u8,
    ]
}

/// The 16-bit little-endian value at byte offset `i`.
pub open spec fn spec_u16_at(b: Seq<u8>, i: int) -> u16 {
    (b[i] + 256 * b[i + 1]) as u16
}

/// The 32-bit little-endian value at byte offset `i`.
pub open spec fn spec_u32_at(b: Seq<u8>, i: int) -> u32 {
    (b[i] + 256 * b[i + 1] + 65536 * b[i + 2] + 16777216 * b[i + 3]) as u32
}

proof fn lemma_le16_value(v: u16)
    ensures
        spec_le16(v).len() == 2,
        spec_u16_at(spec_le16(v), 0) == v,
{
}

proof fn lemma_le32_value(v: u32)
    ensures
        spec_le32(v).len() == 4,
        spec_u32_at(spec_le32(v), 0) == v,
{
    assert(spec_u32_at(spec_le32(v), 0) == v) by (nonlinear_arith);
}

fn read_u16(b: &[u8], i: usize) -> (r: u16)
    requires i + 2 <= b@.len(),
    ensures r == spec_u16_at(b@, i as int),
{
    (b[i] as u16) + 256 * (b[i + 1] as u16)
}

fn read_u32(b: &[u8], i: usize) -> (r: u32)
    requires i + 4 <= b@.len(),
    ensures r == spec_u32_at(b@, i as int),
{
    (b[i] as u32) + 256 * (b[i + 1] as u32) + 65536 * (b[i + 2] as u32)
        + 16777216 * (b[i + 3] as u32)
}

fn push_le16(out: &mut Vec<u8>, v: u16)
    ensures final(out)@ == old(out)@ + spec_le16(v),
{
    out.push((v % 256) as u8);
    out.push((v / 256) as u8);
    assert(out@ =~= old(out)@ + spec_le16(v));
}

fn push_le32(out: &mut Vec<u8>, v: u32)
    ensures final(out)@ == old(out)@ + spec_le32(v),
{
    out.push((v % 256) as u8);
    out.push(((v / 256) % 256) as u8);
    out.push(((v / 65536) % 256) as u8);
    out.push(((v / 16777216) % 256) as u8);
    assert(out@ =~= old(out)@ + spec_le32(v));
}

// ---------------------------------------------------------------------------
// Key descriptor records (16 bytes each)
// ---------------------------------------------------------------------------

/// The 16 wire bytes of one key descriptor record.
pub open spec fn spec_desc_bytes(d: HiiKeyDescriptor) -> Seq<u8> {
    let n = spec_efi_key_num(d.key);
    seq![
        (n % 256) as u8, ((n / 256) % 256) as u8,
        ((n / 65536) % 256) as u8, ((n / 16777216) % 256) as u8,
        (d.unicode % 256) as u8, (d.unicode / 256) as u8,
        (d.shifted_unicode % 256) as u8, (d.shifted_unicode / 256) as u8,
        (d.alt_gr_unicode % 256) as u8, (d.alt_gr_unicode / 256) as u8,
        (d.shifted_alt_gr_unicode % 256) as u8, (d.shifted_alt_gr_unicode / 256) as u8,
        (d.modifier % 256) as u8, (d.modifier / 256) as u8,
        (d.affected_attribute % 256) as u8, (d.affected_attribute / 256) as u8,
    ]
}

/// Parses the key descriptor record at byte offset `i`; fails on an unknown
/// physical-key code.
pub open spec fn spec_parse_desc_at(b: Seq<u8>, i: int) -> Option<HiiKeyDescriptor> {
    match spec_efi_key_from_num(spec_u32_at(b, i)) {
        Some(key) => Some(HiiKeyDescriptor {
            key,
            unicode: spec_u16_at(b, i + 4),
            shifted_unicode: spec_u16_at(b, i + 6),
            alt_gr_unicode: spec_u16_at(b, i + 8),
            shifted_alt_gr_unicode: spec_u16_at(b, i + 10),
            modifier: spec_u16_at(b, i + 12),
            affected_attribute: spec_u16_at(b, i + 14),
        }),
        None => None,
    }
}

/// A descriptor record re-parses from its own bytes, wherever they stand in
/// a longer buffer.
proof fn lemma_desc_bytes_roundtrip(b: Seq<u8>, i: int, d: HiiKeyDescriptor)
    requires
        0 <= i,
        i + 16 <= b.len(),
        b.subrange(i, i + 16) == spec_desc_bytes(d),
    ensures
        spec_parse_desc_at(b, i) == Some(d),
{
    let db = spec_desc_bytes(d);
    assert forall|k: int| 0 <= k < 16 implies b[i + k] == db[k] by {
        assert(b.subrange(i, i + 16)[k] == b[i + k]);
    }
    lemma_efi_key_num_roundtrip(d.key);
    assert(spec_u32_at(b, i) == spec_efi_key_num(d.key)) by {
        lemma_le32_value(spec_efi_key_num(d.key));
    }
    assert(spec_u16_at(b, i + 4) == d.unicode);
    assert(spec_u16_at(b, i + 6) == d.shifted_unicode);
    assert(spec_u16_at(b, i + 8) == d.alt_gr_unicode);
    assert(spec_u16_at(b, i + 10) == d.shifted_alt_gr_unicode);
    assert(spec_u16_at(b, i + 12) == d.modifier);
    assert(spec_u16_at(b, i + 14) == d.affected_attribute);
}

fn parse_desc_at(b: &[u8], i: usize) -> (r: Option<HiiKeyDescriptor>)
    requires
        i + 16 <= b@.len(),
        b@.len() <= usize::MAX,
    ensures r == spec_parse_desc_at(b@, i as int),
{
    let key_num = read_u32(b, i);
    match efi_key_from_num(key_num) {
        Some(key) => Some(HiiKeyDescriptor {
            key,
            unicode: read_u16(b, i + 4),
            shifted_unicode: read_u16(b, i + 6),
            alt_gr_unicode: read_u16(b, i + 8),
            shifted_alt_gr_unicode: read_u16(b, i + 10),
            modifier: read_u16(b, i + 12),
            affected_attribute: read_u16(b, i + 14),
        }),
        None => None,
    }
}

fn push_desc_bytes(out: &mut Vec<u8>, d: &HiiKeyDescriptor)
    ensures final(out)@ == old(out)@ + spec_desc_bytes(*d),
{
    push_le32(out, efi_key_num(d.key));
    push_le16(out, d.unicode);
    push_le16(out, d.shifted_unicode);
    push_le16(out, d.alt_gr_unicode);
    push_le16(out, d.shifted_alt_gr_unicode);
    push_le16(out, d.modifier);
    push_le16(out, d.affected_attribute);
    assert(out@ =~= old(out)@ + spec_desc_bytes(*d));
}

/// Serialization of a run of descriptor records.
pub open spec fn spec_enc_records(rs: Seq<HiiKeyDescriptor>) -> Seq<u8>
    decreases rs.len(),
{
    if rs.len() == 0 {
        Seq::empty()
    } else {
        spec_desc_bytes(rs[0]) + spec_enc_records(rs.drop_first())
    }
}

proof fn lemma_enc_records_len(rs: Seq<HiiKeyDescriptor>)
    ensures spec_enc_records(rs).len() == 16 * rs.len(),
    decreases rs.len(),
{
    if rs.len() > 0 {
        lemma_enc_records_len(rs.drop_first());
    }
}

/// Parses descriptor records from byte offset `i` up to exactly `end`.
pub open spec fn spec_parse_records(b: Seq<u8>, i: int, end: int) -> Option<Seq<HiiKeyDescriptor>>
    decreases end - i,
{
    if i >= end {
        if i == end { Some(Seq::empty()) } else { None }
    } else if i + 16 > end || end > b.len() {
        None
    } else {
        match spec_parse_desc_at(b, i) {
            None => None,
            Some(d) => match spec_parse_records(b, i + 16, end) {
                None => None,
                Some(rest) => Some(seq![d] + rest),
            },
        }
    }
}

/// A run of records re-parses from its own bytes, wherever it stands.
proof fn lemma_records_roundtrip(b: Seq<u8>, i: int, rs: Seq<HiiKeyDescriptor>)
    requires
        0 <= i,
        i + 16 * rs.len() <= b.len(),
        b.subrange(i, i + 16 * rs.len()) == spec_enc_records(rs),
    ensures
        spec_parse_records(b, i, i + 16 * rs.len()) == Some(rs),
    decreases rs.len(),
{
    lemma_enc_records_len(rs);
    if rs.len() == 0 {
    } else {
        let end = i + 16 * rs.len();
        let enc = spec_enc_records(rs);
        lemma_enc_records_len(rs.drop_first());
        assert(b.subrange(i, i + 16) =~= spec_desc_bytes(rs[0])) by {
            assert forall|k: int| 0 <= k < 16 implies
                b.subrange(i, i + 16)[k] == spec_desc_bytes(rs[0])[k] by {
                assert(b.subrange(i, end)[k] == b[i + k]);
                assert(enc[k] == spec_desc_bytes(rs[0])[k]);
            }
        }
        lemma_desc_bytes_roundtrip(b, i, rs[0]);
        assert(b.subrange(i + 16, end) =~= spec_enc_records(rs.drop_first())) by {
            assert forall|k: int| 0 <= k < 16 * rs.drop_first().len() implies
                b.subrange(i + 16, end)[k] == spec_enc_records(rs.drop_first())[k] by {
                assert(b.subrange(i, end)[16 + k] == b[i + 16 + k]);
                assert(enc[16 + k] == spec_enc_records(rs.drop_first())[k]);
            }
        }
        lemma_records_roundtrip(b, i + 16, rs.drop_first());
        assert(spec_parse_records(b, i, end) == Some(seq![rs[0]] + rs.drop_first()));
        assert(seq![rs[0]] + rs.drop_first() =~= rs);
    }
}

fn parse_records(b: &[u8], start: usize, end: usize) -> (r: Option<Vec<HiiKeyDescriptor>>)
    requires
        end <= b@.len(),
        b@.len() <= usize::MAX,
    ensures
        match r {
            Some(rs) => spec_parse_records(b@, start as int, end as int) == Some(rs@),
            None => spec_parse_records(b@, start as int, end as int) is None,
        },
    decreases end - start,
{
    if start >= end {
        if start == end { Some(Vec::new()) } else { None }
    } else if end - start < 16 {
        None
    } else {
        match parse_desc_at(b, start) {
            None => None,
            Some(d) => match parse_records(b, start + 16, end) {
                None => None,
                Some(mut rest) => {
                    let ghost prev = rest@;
                    rest.insert(0, d);
                    assert(rest@ =~= seq![d] + prev);
                    Some(rest)
                },
            },
        }
    }
}

// ---------------------------------------------------------------------------
// Grouping records into layout items
// ---------------------------------------------------------------------------

/// Length of the run of dependent-tagged records starting at `i`.
pub open spec fn spec_deps_from(rs: Seq<HiiKeyDescriptor>, i: int) -> int
    decreases rs.len() - i when 0 <= i <= rs.len()
{
    if i < rs.len() && rs[i].modifier == NS_KEY_DEPENDENCY_MODIFIER {
        1 + spec_deps_from(rs, i + 1)
    } else {
        0
    }
}

proof fn lemma_deps_from_bound(rs: Seq<HiiKeyDescriptor>, i: int)
    requires 0 <= i <= rs.len(),
    ensures 0 <= spec_deps_from(rs, i) <= rs.len() - i,
    decreases rs.len() - i,
{
    if i < rs.len() && rs[i].modifier == NS_KEY_DEPENDENCY_MODIFIER {
        lemma_deps_from_bound(rs, i + 1);
    }
}

/// A run of dependent records of exact length `n` is measured as `n`.
proof fn lemma_deps_from_run(rs: Seq<HiiKeyDescriptor>, i: int, n: int)
    requires
        0 <= i,
        0 <= n,
        i + n <= rs.len(),
        forall|j: int| i <= j < i + n ==> rs[j].modifier == NS_KEY_DEPENDENCY_MODIFIER,
        i + n == rs.len() || rs[i + n].modifier != NS_KEY_DEPENDENCY_MODIFIER,
    ensures
        spec_deps_from(rs, i) == n,
    decreases n,
{
    if n > 0 {
        lemma_deps_from_run(rs, i + 1, n - 1);
    }
}

/// Groups a run of records into layout items: a non-spacing marker absorbs
/// the dependent-tagged records that follow it.
pub open spec fn spec_group_from(rs: Seq<HiiKeyDescriptor>, i: int) -> Seq<HiiKeyView>
    decreases rs.len() - i when 0 <= i <= rs.len() via spec_group_from_decreases
{
    if i >= rs.len() {
        Seq::empty()
    } else if rs[i].modifier == NS_KEY_MODIFIER {
        let n = spec_deps_from(rs, i + 1);
        seq![HiiKeyView::NsKey(NsKeyView {
            descriptor: rs[i],
            dependent_keys: rs.subrange(i + 1, i + 1 + n),
        })] + spec_group_from(rs, i + 1 + n)
    } else {
        seq![HiiKeyView::Key(rs[i])] + spec_group_from(rs, i + 1)
    }
}

#[via_fn]
proof fn spec_group_from_decreases(rs: Seq<HiiKeyDescriptor>, i: int) {
    if 0 <= i < rs.len() {
        lemma_deps_from_bound(rs, i + 1);
    }
}

/// The flat records an item serializes to: its descriptor, then (for a
/// non-spacing key) its dependents.
pub open spec fn spec_key_records(k: HiiKeyView) -> Seq<HiiKeyDescriptor> {
    match k {
        HiiKeyView::Key(d) => seq![d],
        HiiKeyView::NsKey(n) => seq![n.descriptor] + n.dependent_keys,
    }
}

/// The flat records of a whole item list.
pub open spec fn spec_flatten_keys(ks: Seq<HiiKeyView>) -> Seq<HiiKeyDescriptor>
    decreases ks.len(),
{
    if ks.len() == 0 {
        Seq::empty()
    } else {
        spec_key_records(ks[0]) + spec_flatten_keys(ks.drop_first())
    }
}

/// A plain key may not carry the non-spacing marker or dependent tags.
pub open spec fn spec_plain_key_wf(d: HiiKeyDescriptor) -> bool {
    d.modifier != NS_KEY_MODIFIER && d.modifier != NS_KEY_DEPENDENCY_MODIFIER
}

/// Well-formedness of one layout item for serialization.
pub open spec fn spec_key_item_wf(k: HiiKeyView) -> bool {
    match k {
        HiiKeyView::Key(d) => spec_plain_key_wf(d),
        HiiKeyView::NsKey(n) => {
            &&& n.descriptor.modifier == NS_KEY_MODIFIER
            &&& forall|j: int| 0 <= j < n.dependent_keys.len()
                ==> n.dependent_keys[j].modifier == NS_KEY_DEPENDENCY_MODIFIER
        },
    }
}

pub open spec fn spec_keys_wf(ks: Seq<HiiKeyView>) -> bool {
    forall|i: int| 0 <= i < ks.len() ==> spec_key_item_wf(#[trigger] ks[i])
}

/// The first flat record of a well-formed item list never carries the
/// dependent tag.
proof fn lemma_flatten_first_not_dep(ks: Seq<HiiKeyView>)
    requires spec_keys_wf(ks), ks.len() > 0,
    ensures
        spec_flatten_keys(ks).len() > 0,
        spec_flatten_keys(ks)[0].modifier != NS_KEY_DEPENDENCY_MODIFIER,
{
    assert(spec_key_item_wf(ks[0]));
}

/// Grouping the flat records of a well-formed item list yields the list.
proof fn lemma_group_flatten_from(full: Seq<HiiKeyDescriptor>, i: int, ks: Seq<HiiKeyView>)
    requires
        0 <= i <= full.len(),
        spec_keys_wf(ks),
        full.subrange(i, full.len() as int) == spec_flatten_keys(ks),
    ensures
        spec_group_from(full, i) == ks,
    decreases ks.len(),
{
    let tail = full.subrange(i, full.len() as int);
    let flat = spec_flatten_keys(ks);
    if ks.len() == 0 {
        assert(tail.len() == 0);
        assert(i == full.len());
    } else {
        let k0 = ks[0];
        let recs0 = spec_key_records(k0);
        let rest = ks.drop_first();
        let flat_rest = spec_flatten_keys(rest);
        assert(flat == recs0 + flat_rest);
        assert(spec_key_item_wf(k0));
        assert(spec_keys_wf(rest)) by {
            assert forall|j: int| 0 <= j < rest.len() implies spec_key_item_wf(#[trigger] rest[j]) by {
                assert(rest[j] == ks[j + 1]);
            }
        }
        assert(full.len() - i == flat.len());
        assert(forall|k: int| 0 <= k < flat.len() ==> full[i + k] == #[trigger] flat[k]) by {
            assert forall|k: int| 0 <= k < flat.len() implies full[i + k] == #[trigger] flat[k] by {
                assert(tail[k] == full[i + k]);
            }
        }
        match k0 {
            HiiKeyView::Key(d) => {
                assert(full[i] == d) by {
                    assert(full[i + 0] == flat[0]);
                    assert(flat[0] == recs0[0]);
                }
                assert(full.subrange(i + 1, full.len() as int) =~= flat_rest) by {
                    assert forall|k: int| 0 <= k < flat_rest.len() implies
                        full.subrange(i + 1, full.len() as int)[k] == flat_rest[k] by {
                        assert(full[i + (1 + k)] == flat[1 + k]);
                        assert(flat[1 + k] == flat_rest[k]);
                    }
                }
                lemma_group_flatten_from(full, i + 1, rest);
                assert(spec_group_from(full, i) == seq![HiiKeyView::Key(d)] + rest);
                assert(seq![HiiKeyView::Key(d)] + rest =~= ks);
            },
            HiiKeyView::NsKey(n) => {
                let nd = n.dependent_keys.len() as int;
                assert(full[i] == n.descriptor) by {
                    assert(full[i + 0] == flat[0]);
                    assert(flat[0] == recs0[0]);
                }
                assert(n.descriptor.modifier == NS_KEY_MODIFIER);
                // the records after the marker are exactly the dependents
                assert forall|j: int| 0 <= j < nd implies
                    full[i + 1 + j] == #[trigger] n.dependent_keys[j] by {
                    assert(full[i + (1 + j)] == flat[1 + j]);
                    assert(flat[1 + j] == recs0[1 + j]);
                    assert(recs0[1 + j] == n.dependent_keys[j]);
                }
                assert forall|j: int| i + 1 <= j < i + 1 + nd implies
                    #[trigger] full[j].modifier == NS_KEY_DEPENDENCY_MODIFIER by {
                    assert(full[i + 1 + (j - i - 1)] == n.dependent_keys[j - i - 1]);
                }
                if rest.len() > 0 {
                    lemma_flatten_first_not_dep(rest);
                    assert(full[i + 1 + nd].modifier != NS_KEY_DEPENDENCY_MODIFIER) by {
                        assert(full[i + recs0.len()] == flat[recs0.len() as int]);
                        assert(flat[recs0.len() as int] == flat_rest[0]);
                    }
                    lemma_deps_from_run(full, i + 1, nd);
                } else {
                    assert(flat.len() == recs0.len());
                    lemma_deps_from_run(full, i + 1, nd);
                }
                assert(spec_deps_from(full, i + 1) == nd);
                assert(full.subrange(i + 1, i + 1 + nd) =~= n.dependent_keys) by {
                    assert forall|j: int| 0 <= j < nd implies
                        full.subrange(i + 1, i + 1 + nd)[j] == n.dependent_keys[j] by {
                        assert(full[i + 1 + j] == n.dependent_keys[j]);
                    }
                }
                assert(full.subrange(i + 1 + nd, full.len() as int) =~= flat_rest) by {
                    assert forall|k: int| 0 <= k < flat_rest.len() implies
                        full.subrange(i + 1 + nd, full.len() as int)[k] == flat_rest[k] by {
                        assert(full[i + (recs0.len() + k)] == flat[recs0.len() + k]);
                        assert(flat[recs0.len() + k] == flat_rest[k]);
                    }
                }
                lemma_group_flatten_from(full, i + 1 + nd, rest);
                assert(spec_group_from(full, i) == seq![HiiKeyView::NsKey(NsKeyView {
                    descriptor: full[i],
                    dependent_keys: full.subrange(i + 1, i + 1 + nd),
                })] + rest);
                assert(seq![HiiKeyView::NsKey(n)] + rest =~= ks);
            },
        }
    }
}

// ---------------------------------------------------------------------------
// Description strings (NUL-terminated UCS-2, "<lang> <description>")
// ---------------------------------------------------------------------------

/// UTF-16 validity of the code units from `i` on: every surrogate is paired.
pub open spec fn spec_valid_utf16_from(u: Seq<u16>, i: int) -> bool
    decreases u.len() - i when 0 <= i <= u.len()
{
    if i >= u.len() {
        true
    } else if 0xD800 <= u[i] <= 0xDBFF {
        i + 1 < u.len() && 0xDC00 <= u[i + 1] <= 0xDFFF && spec_valid_utf16_from(u, i + 2)
    } else if 0xDC00 <= u[i] <= 0xDFFF {
        false
    } else {
        spec_valid_utf16_from(u, i + 1)
    }
}

/// Units that stay below the surrogate range are valid UTF-16.
pub proof fn lemma_bmp_valid_utf16(u: Seq<u16>, i: int)
    requires
        0 <= i <= u.len(),
        forall|j: int| 0 <= j < u.len() ==> #[trigger] u[j] < 0xD800,
    ensures spec_valid_utf16_from(u, i),
    decreases u.len() - i,
{
    if i < u.len() {
        lemma_bmp_valid_utf16(u, i + 1);
    }
}

fn is_valid_utf16(u: &Vec<u16>) -> (r: bool)
    ensures r == spec_valid_utf16_from(u@, 0),
{
    let n = u.len();
    let mut i: usize = 0;
    while i < n
        invariant
            0 <= i <= n,
            n == u@.len(),
            spec_valid_utf16_from(u@, 0) == spec_valid_utf16_from(u@, i as int),
        decreases n - i,
    {
        let v = u[i];
        if 0xD800 <= v && v <= 0xDBFF {
            if i + 1 >= n || !(0xDC00 <= u[i + 1] && u[i + 1] <= 0xDFFF) {
                return false;
            }
            i = i + 2;
        } else if 0xDC00 <= v && v <= 0xDFFF {
            return false;
        } else {
            i = i + 1;
        }
    }
    true
}

/// The code units one description serializes to.
pub open spec fn spec_desc_string_units(d: DescriptionView) -> Seq<u16> {
    d.language + seq![0x20u16] + d.description + seq![0u16]
}

/// The code units a description list serializes to.
pub open spec fn spec_enc_strings(ds: Seq<DescriptionView>) -> Seq<u16>
    decreases ds.len(),
{
    if ds.len() == 0 {
        Seq::empty()
    } else {
        spec_desc_string_units(ds[0]) + spec_enc_strings(ds.drop_first())
    }
}

/// Little-endian byte form of a run of code units.
pub open spec fn spec_u16s_bytes(s: Seq<u16>) -> Seq<u8>
    decreases s.len(),
{
    if s.len() == 0 {
        Seq::empty()
    } else {
        spec_le16(s[0]) + spec_u16s_bytes(s.drop_first())
    }
}

proof fn lemma_u16s_bytes_index(s: Seq<u16>)
    ensures
        spec_u16s_bytes(s).len() == 2 * s.len(),
        forall|k: int| 0 <= k < s.len()
            ==> spec_u16_at(spec_u16s_bytes(s), 2 * k) == #[trigger] s[k],
    decreases s.len(),
{
    if s.len() > 0 {
        lemma_u16s_bytes_index(s.drop_first());
        let b = spec_u16s_bytes(s);
        assert forall|k: int| 0 <= k < s.len() implies
            spec_u16_at(b, 2 * k) == #[trigger] s[k] by {
            if k == 0 {
                assert(b[0] == (s[0] % 256) as u8);
                assert(b[1] == (s[0] / 256) as u8);
            } else {
                assert(b[2 * k] == spec_u16s_bytes(s.drop_first())[2 * k - 2]);
                assert(b[2 * k + 1] == spec_u16s_bytes(s.drop_first())[2 * k - 1]);
                assert(spec_u16_at(spec_u16s_bytes(s.drop_first()), 2 * (k - 1)) == s.drop_first()[k - 1]);
            }
        }
    }
}

/// Collects the code units of one NUL-terminated string at byte offset `i`.
pub open spec fn spec_collect_units(b: Seq<u8>, i: int) -> Option<(Seq<u16>, int)>
    decreases b.len() - i when 0 <= i
{
    if i + 2 > b.len() {
        None
    } else {
        let v = spec_u16_at(b, i);
        if v == 0 {
            Some((Seq::empty(), i + 2))
        } else {
            match spec_collect_units(b, i + 2) {
                None => None,
                Some((us, end)) => Some((seq![v] + us, end)),
            }
        }
    }
}

/// Collecting over bytes that spell `us` and then a NUL yields `us`.
proof fn lemma_collect_units_exact(b: Seq<u8>, i: int, us: Seq<u16>)
    requires
        0 <= i,
        i + 2 * us.len() + 2 <= b.len(),
        forall|k: int| 0 <= k < us.len() ==> spec_u16_at(b, i + 2 * k) == #[trigger] us[k],
        forall|k: int| 0 <= k < us.len() ==> #[trigger] us[k] != 0,
        spec_u16_at(b, i + 2 * us.len()) == 0,
    ensures
        spec_collect_units(b, i) == Some((us, i + 2 * us.len() + 2)),
    decreases us.len(),
{
    if us.len() == 0 {
    } else {
        assert(spec_u16_at(b, i) == us[0]);
        let rest = us.drop_first();
        assert forall|k: int| 0 <= k < rest.len() implies
            spec_u16_at(b, i + 2 + 2 * k) == #[trigger] rest[k] by {
            assert(spec_u16_at(b, i + 2 * (k + 1)) == us[k + 1]);
        }
        assert(spec_u16_at(b, i + 2 + 2 * rest.len()) == 0);
        lemma_collect_units_exact(b, i + 2, rest);
        assert(seq![us[0]] + rest =~= us);
    }
}

/// First space in the units from `i` on.
pub open spec fn spec_first_space(us: Seq<u16>, i: int) -> Option<int>
    decreases us.len() - i when 0 <= i <= us.len()
{
    if i >= us.len() {
        None
    } else if us[i] == 0x20 {
        Some(i)
    } else {
        spec_first_space(us, i + 1)
    }
}

proof fn lemma_first_space_run(us: Seq<u16>, i: int, p: int)
    requires
        0 <= i <= p < us.len(),
        forall|k: int| i <= k < p ==> #[trigger] us[k] != 0x20,
        us[p] == 0x20,
    ensures
        spec_first_space(us, i) == Some(p),
    decreases p - i,
{
    if i < p {
        lemma_first_space_run(us, i + 1, p);
    }
}

/// Parses one description string at byte offset `i`.
pub open spec fn spec_parse_string(b: Seq<u8>, i: int) -> Option<(DescriptionView, int)> {
    match spec_collect_units(b, i) {
        None => None,
        Some((us, end)) => if !spec_valid_utf16_from(us, 0) {
            None
        } else {
            match spec_first_space(us, 0) {
                None => None,
                Some(p) => Some((
                    DescriptionView {
                        language: us.subrange(0, p),
                        description: us.subrange(p + 1, us.len() as int),
                    },
                    end,
                )),
            }
        },
    }
}

/// Parses `m` description strings in order from byte offset `i`.
pub open spec fn spec_parse_strings(b: Seq<u8>, i: int, m: int) -> Option<(Seq<DescriptionView>, int)>
    decreases m,
{
    if m <= 0 {
        Some((Seq::empty(), i))
    } else {
        match spec_parse_string(b, i) {
            None => None,
            Some((d, j)) => match spec_parse_strings(b, j, m - 1) {
                None => None,
                Some((ds, end)) => Some((seq![d] + ds, end)),
            },
        }
    }
}

/// Well-formedness of one description for serialization: the language holds
/// no space and no NUL, the description no NUL, and the combined units are
/// valid UTF-16.
pub open spec fn spec_description_wf(d: DescriptionView) -> bool {
    &&& forall|j: int| 0 <= j < d.language.len()
        ==> #[trigger] d.language[j] != 0x20 && d.language[j] != 0
    &&& forall|j: int| 0 <= j < d.description.len() ==> #[trigger] d.description[j] != 0
    &&& spec_valid_utf16_from(d.language + seq![0x20u16] + d.description, 0)
}

pub open spec fn spec_descriptions_wf(ds: Seq<DescriptionView>) -> bool {
    forall|i: int| 0 <= i < ds.len() ==> spec_description_wf(#[trigger] ds[i])
}

// ---------------------------------------------------------------------------
// One keyboard layout
// ---------------------------------------------------------------------------

/// The flat descriptor records of a layout.
pub open spec fn spec_layout_records(l: LayoutView) -> Seq<HiiKeyDescriptor> {
    spec_flatten_keys(l.keys)
}

/// Offset of the description-string bundle from the start of the layout.
pub open spec fn spec_layout_str_off(l: LayoutView) -> int {
    23 + 16 * spec_layout_records(l).len() as int
}

/// Total byte length of the serialized layout.
pub open spec fn spec_layout_len(l: LayoutView) -> int {
    spec_layout_str_off(l) + 2 + 2 * spec_enc_strings(l.descriptions).len() as int
}

/// Serialization of one keyboard layout.
pub open spec fn spec_enc_layout(l: LayoutView) -> Seq<u8> {
    spec_le16(spec_layout_len(l) as u16) + l.guid + spec_le32(spec_layout_str_off(l) as u32)
        + seq![spec_layout_records(l).len() as u8]
        + spec_enc_records(spec_layout_records(l))
        + spec_le16(l.descriptions.len() as u16)
        + spec_u16s_bytes(spec_enc_strings(l.descriptions))
}

/// Well-formedness of a layout for serialization: the GUID is 16 bytes, the
/// items obey the non-spacing tagging rules, the record count fits the count
/// byte, the descriptions obey the string rules, and all lengths fit their
/// wire fields.
pub open spec fn spec_layout_wf(l: LayoutView) -> bool {
    &&& l.guid.len() == 16
    &&& spec_keys_wf(l.keys)
    &&& spec_layout_records(l).len() <= 255
    &&& spec_descriptions_wf(l.descriptions)
    &&& l.descriptions.len() <= 0xFFFF
    &&& spec_layout_len(l) <= 0xFFFF
}

/// Parses one keyboard layout at byte offset `i`; yields the layout and the
/// offset just past it.
pub open spec fn spec_parse_layout(b: Seq<u8>, i: int) -> Option<(LayoutView, int)> {
    if i + 23 > b.len() {
        None
    } else {
        let s_rel = spec_u32_at(b, i + 18) as int;
        let s_abs = i + s_rel;
        if !(s_rel >= 23 && s_abs + 2 <= b.len()) {
            None
        } else {
            match spec_parse_records(b, i + 23, s_abs) {
                None => None,
                Some(recs) => {
                    let m = spec_u16_at(b, s_abs) as int;
                    match spec_parse_strings(b, s_abs + 2, m) {
                        None => None,
                        Some((ds, end)) => Some((
                            LayoutView {
                                guid: b.subrange(i + 2, i + 18),
                                keys: spec_group_from(recs, 0),
                                descriptions: ds,
                            },
                            end,
                        )),
                    }
                },
            }
        }
    }
}

proof fn lemma_u16s_bytes_concat(a: Seq<u16>, c: Seq<u16>)
    ensures spec_u16s_bytes(a + c) == spec_u16s_bytes(a) + spec_u16s_bytes(c),
    decreases a.len(),
{
    if a.len() == 0 {
        assert(a + c =~= c);
        assert(spec_u16s_bytes(a) + spec_u16s_bytes(c) =~= spec_u16s_bytes(c));
    } else {
        lemma_u16s_bytes_concat(a.drop_first(), c);
        assert((a + c).drop_first() =~= a.drop_first() + c);
        assert((a + c)[0] == a[0]);
        assert(spec_le16(a[0]) + (spec_u16s_bytes(a.drop_first()) + spec_u16s_bytes(c))
            =~= (spec_le16(a[0]) + spec_u16s_bytes(a.drop_first())) + spec_u16s_bytes(c));
    }
}

/// Units read through a byte window that spells them out.
proof fn lemma_u16_at_through_window(b: Seq<u8>, j: int, s: Seq<u16>)
    requires
        0 <= j,
        j + 2 * s.len() <= b.len(),
        b.subrange(j, j + 2 * s.len()) == spec_u16s_bytes(s),
    ensures
        forall|k: int| 0 <= k < s.len() ==> spec_u16_at(b, j + 2 * k) == #[trigger] s[k],
{
    lemma_u16s_bytes_index(s);
    let w = spec_u16s_bytes(s);
    assert forall|k: int| 0 <= k < s.len() implies spec_u16_at(b, j + 2 * k) == #[trigger] s[k] by {
        assert(b.subrange(j, j + 2 * s.len())[2 * k] == b[j + 2 * k]);
        assert(b.subrange(j, j + 2 * s.len())[2 * k + 1] == b[j + 2 * k + 1]);
        assert(spec_u16_at(w, 2 * k) == s[k]);
    }
}

/// One well-formed description string re-parses from its own bytes.
proof fn lemma_parse_string_enc(b: Seq<u8>, j: int, d: DescriptionView)
    requires
        0 <= j,
        spec_description_wf(d),
        j + 2 * spec_desc_string_units(d).len() <= b.len(),
        b.subrange(j, j + 2 * spec_desc_string_units(d).len())
            == spec_u16s_bytes(spec_desc_string_units(d)),
    ensures
        spec_parse_string(b, j) == Some((d, j + 2 * spec_desc_string_units(d).len())),
{
    let inner = d.language + seq![0x20u16] + d.description;
    let units = spec_desc_string_units(d);
    assert(units =~= inner + seq![0u16]);
    lemma_u16_at_through_window(b, j, units);
    let nl = d.language.len() as int;
    assert forall|k: int| 0 <= k < inner.len() implies
        spec_u16_at(b, j + 2 * k) == #[trigger] inner[k] && inner[k] != 0 by {
        assert(units[k] == inner[k]);
        if k < nl {
            assert(inner[k] == d.language[k]);
        } else if k == nl {
            assert(inner[k] == 0x20);
        } else {
            assert(inner[k] == d.description[k - nl - 1]);
        }
    }
    assert(spec_u16_at(b, j + 2 * inner.len()) == 0) by {
        assert(units[inner.len() as int] == 0);
    }
    lemma_collect_units_exact(b, j, inner);
    assert(spec_valid_utf16_from(inner, 0));
    assert(inner[nl] == 0x20);
    assert forall|k: int| 0 <= k < nl implies #[trigger] inner[k] != 0x20 by {
        assert(inner[k] == d.language[k]);
    }
    lemma_first_space_run(inner, 0, nl);
    assert(inner.subrange(0, nl) =~= d.language);
    assert(inner.subrange(nl + 1, inner.len() as int) =~= d.description);
}

/// A well-formed description list re-parses from its own bytes.
proof fn lemma_parse_strings_enc(b: Seq<u8>, j: int, ds: Seq<DescriptionView>)
    requires
        0 <= j,
        spec_descriptions_wf(ds),
        j + 2 * spec_enc_strings(ds).len() <= b.len(),
        b.subrange(j, j + 2 * spec_enc_strings(ds).len()) == spec_u16s_bytes(spec_enc_strings(ds)),
    ensures
        spec_parse_strings(b, j, ds.len() as int)
            == Some((ds, j + 2 * spec_enc_strings(ds).len())),
    decreases ds.len(),
{
    if ds.len() == 0 {
    } else {
        let d0 = ds[0];
        let rest = ds.drop_first();
        let u0 = spec_desc_string_units(d0);
        let ur = spec_enc_strings(rest);
        assert(spec_enc_strings(ds) == u0 + ur);
        lemma_u16s_bytes_concat(u0, ur);
        lemma_u16s_bytes_index(u0);
        lemma_u16s_bytes_index(ur);
        lemma_u16s_bytes_index(spec_enc_strings(ds));
        let all = spec_u16s_bytes(spec_enc_strings(ds));
        let w0 = spec_u16s_bytes(u0);
        let wr = spec_u16s_bytes(ur);
        assert(all == w0 + wr);
        assert(spec_description_wf(d0));
        assert(b.subrange(j, j + 2 * u0.len()) =~= w0) by {
            assert forall|k: int| 0 <= k < 2 * u0.len() implies
                b.subrange(j, j + 2 * u0.len())[k] == w0[k] by {
                assert(b.subrange(j, j + 2 * spec_enc_strings(ds).len())[k] == b[j + k]);
                assert(all[k] == w0[k]);
            }
        }
        lemma_parse_string_enc(b, j, d0);
        let j2 = j + 2 * u0.len();
        assert(spec_descriptions_wf(rest)) by {
            assert forall|i: int| 0 <= i < rest.len() implies
                spec_description_wf(#[trigger] rest[i]) by {
                assert(rest[i] == ds[i + 1]);
            }
        }
        assert(b.subrange(j2, j2 + 2 * ur.len()) =~= wr) by {
            assert forall|k: int| 0 <= k < 2 * ur.len() implies
                b.subrange(j2, j2 + 2 * ur.len())[k] == wr[k] by {
                assert(b.subrange(j, j + 2 * spec_enc_strings(ds).len())[2 * u0.len() + k]
                    == b[j2 + k]);
                assert(all[2 * u0.len() + k] == wr[k]);
            }
        }
        lemma_parse_strings_enc(b, j2, rest);
        assert(seq![d0] + rest =~= ds);
    }
}

/// A well-formed layout re-parses from its own bytes, wherever they stand.
proof fn lemma_parse_layout_enc(b: Seq<u8>, i: int, l: LayoutView)
    requires
        0 <= i,
        spec_layout_wf(l),
        i + spec_layout_len(l) <= b.len(),
        b.subrange(i, i + spec_layout_len(l)) == spec_enc_layout(l),
    ensures
        spec_parse_layout(b, i) == Some((l, i + spec_layout_len(l))),
{
    let recs = spec_layout_records(l);
    let s_rel = spec_layout_str_off(l);
    let llen = spec_layout_len(l);
    let enc = spec_enc_layout(l);
    let strs = spec_enc_strings(l.descriptions);
    lemma_enc_records_len(recs);
    lemma_u16s_bytes_index(strs);
    assert(enc.len() == llen);
    assert(forall|k: int| 0 <= k < llen ==> #[trigger] b[i + k] == enc[k]) by {
        assert forall|k: int| 0 <= k < llen implies #[trigger] b[i + k] == enc[k] by {
            assert(b.subrange(i, i + llen)[k] == b[i + k]);
        }
    }
    // header fields
    let p3 = spec_le32(s_rel as u32);
    assert(spec_u32_at(b, i + 18) == s_rel as u32) by {
        lemma_le32_value(s_rel as u32);
        assert(b[i + 18] == enc[18]);
        assert(b[i + 19] == enc[19]);
        assert(b[i + 20] == enc[20]);
        assert(b[i + 21] == enc[21]);
        assert(enc[18] == p3[0]);
        assert(enc[19] == p3[1]);
        assert(enc[20] == p3[2]);
        assert(enc[21] == p3[3]);
    }
    let s_abs = i + s_rel;
    // records region
    assert(b.subrange(i + 23, s_abs) =~= spec_enc_records(recs)) by {
        assert forall|k: int| 0 <= k < 16 * recs.len() implies
            b.subrange(i + 23, s_abs)[k] == spec_enc_records(recs)[k] by {
            assert(b[i + (23 + k)] == enc[23 + k]);
            assert(enc[23 + k] == spec_enc_records(recs)[k]);
        }
    }
    assert(s_abs == (i + 23) + 16 * recs.len());
    lemma_records_roundtrip(b, i + 23, recs);
    assert(recs.subrange(0, recs.len() as int) =~= spec_flatten_keys(l.keys));
    lemma_group_flatten_from(recs, 0, l.keys);
    // description count
    assert(spec_u16_at(b, s_abs) == l.descriptions.len() as u16) by {
        lemma_le16_value(l.descriptions.len() as u16);
        let p6 = spec_le16(l.descriptions.len() as u16);
        assert(b[i + s_rel] == enc[s_rel]);
        assert(b[i + (s_rel + 1)] == enc[s_rel + 1]);
        assert(enc[s_rel] == p6[0]);
        assert(enc[s_rel + 1] == p6[1]);
    }
    // strings region
    assert(b.subrange(s_abs + 2, i + llen) =~= spec_u16s_bytes(strs)) by {
        assert forall|k: int| 0 <= k < 2 * strs.len() implies
            b.subrange(s_abs + 2, i + llen)[k] == spec_u16s_bytes(strs)[k] by {
            assert(b[i + (s_rel + 2 + k)] == enc[s_rel + 2 + k]);
            assert(enc[s_rel + 2 + k] == spec_u16s_bytes(strs)[k]);
        }
    }
    lemma_parse_strings_enc(b, s_abs + 2, l.descriptions);
    // guid
    assert(b.subrange(i + 2, i + 18) =~= l.guid) by {
        assert forall|k: int| 0 <= k < 16 implies b.subrange(i + 2, i + 18)[k] == l.guid[k] by {
            assert(b[i + (2 + k)] == enc[2 + k]);
            assert(enc[2 + k] == l.guid[k]);
        }
    }
    assert(spec_parse_layout(b, i) == Some((
        LayoutView { guid: l.guid, keys: l.keys, descriptions: l.descriptions },
        i + llen,
    )));
    assert(LayoutView { guid: l.guid, keys: l.keys, descriptions: l.descriptions } == l);
}

// ---------------------------------------------------------------------------
// Keyboard-layout package and package list
// ---------------------------------------------------------------------------

/// Spec view of a run of exec layout items.
pub open spec fn spec_keys_view(ks: Seq<HiiKey>) -> Seq<HiiKeyView> {
    Seq::new(ks.len(), |i: int| ks[i]@)
}

/// Spec view of a run of exec descriptions.
pub open spec fn spec_descs_view(ds: Seq<HiiKeyboardDescription>) -> Seq<DescriptionView> {
    Seq::new(ds.len(), |i: int| ds[i]@)
}

/// Spec view of a run of exec layouts.
pub open spec fn spec_layouts_view(ls: Seq<HiiKeyboardLayout>) -> Seq<LayoutView> {
    Seq::new(ls.len(), |i: int| ls[i]@)
}

/// Serialization of a run of layouts.
pub open spec fn spec_enc_layouts(ls: Seq<LayoutView>) -> Seq<u8>
    decreases ls.len(),
{
    if ls.len() == 0 {
        Seq::empty()
    } else {
        spec_enc_layout(ls[0]) + spec_enc_layouts(ls.drop_first())
    }
}

/// Byte length of a serialized package, header included.
pub open spec fn spec_pkg_len(p: PkgView) -> int {
    6 + spec_enc_layouts(p.layouts).len() as int
}

/// Serialization of a keyboard-layout package: a header word whose low 24
/// bits are the package length and whose high 8 bits are the keyboard-layout
/// tag, then the layout count, then the layouts.
pub open spec fn spec_enc_pkg(p: PkgView) -> Seq<u8> {
    spec_le32((spec_pkg_len(p) + 0x11000000) as u32)
        + spec_le16(p.layouts.len() as u16)
        + spec_enc_layouts(p.layouts)
}

pub open spec fn spec_layouts_wf(ls: Seq<LayoutView>) -> bool {
    forall|i: int| 0 <= i < ls.len() ==> spec_layout_wf(#[trigger] ls[i])
}

pub open spec fn spec_pkg_wf(p: PkgView) -> bool {
    &&& spec_layouts_wf(p.layouts)
    &&& p.layouts.len() <= 0xFFFF
    &&& spec_pkg_len(p) <= 0xFFFFFF
}

/// Parses `n` layouts in order from byte offset `i`.
pub open spec fn spec_parse_layouts(b: Seq<u8>, i: int, n: int) -> Option<(Seq<LayoutView>, int)>
    decreases n,
{
    if n <= 0 {
        Some((Seq::empty(), i))
    } else {
        match spec_parse_layout(b, i) {
            None => None,
            Some((l, j)) => match spec_parse_layouts(b, j, n - 1) {
                None => None,
                Some((ls, end)) => Some((seq![l] + ls, end)),
            },
        }
    }
}

/// Parses a keyboard-layout package at byte offset `i`. The package length
/// field is not checked, matching the layout-length convention; the type tag
/// must be the keyboard-layout tag.
pub open spec fn spec_parse_pkg(b: Seq<u8>, i: int) -> Option<(PkgView, int)> {
    if i + 6 > b.len() {
        None
    } else if spec_u32_at(b, i) / 0x1000000 != PACKAGE_KEYBOARD_LAYOUT_TAG as u32 {
        None
    } else {
        let n = spec_u16_at(b, i + 4) as int;
        match spec_parse_layouts(b, i + 6, n) {
            None => None,
            Some((ls, end)) => Some((PkgView { layouts: ls }, end)),
        }
    }
}

/// Total byte length of a serialized package list.
pub open spec fn spec_pkg_list_len(pl: PkgListView) -> int {
    24 + spec_enc_layouts(pl.package.layouts).len() as int + 6
}

/// Serialization of a package list: the list GUID, the total length, the
/// keyboard package, and the end-marker word.
pub open spec fn spec_enc_pkg_list(pl: PkgListView) -> Seq<u8> {
    pl.package_list_guid + spec_le32(spec_pkg_list_len(pl) as u32) + spec_enc_pkg(pl.package)
        + spec_le32(0xDF000004u32)
}

pub open spec fn spec_pkg_list_wf(pl: PkgListView) -> bool {
    &&& pl.package_list_guid.len() == 16
    &&& spec_pkg_wf(pl.package)
    &&& spec_pkg_list_len(pl) <= 0xFFFFFFFF
}

/// Parses a package list from the start of the buffer: the GUID, an ignored
/// total length, one keyboard package, and a 4-byte end marker (present but
/// not inspected).
pub open spec fn spec_parse_pkg_list(b: Seq<u8>) -> Option<(PkgListView, int)> {
    if b.len() < 20 {
        None
    } else {
        match spec_parse_pkg(b, 20) {
            None => None,
            Some((p, j)) => if j + 4 <= b.len() {
                Some((PkgListView { package_list_guid: b.subrange(0, 16), package: p }, j + 4))
            } else {
                None
            },
        }
    }
}

proof fn lemma_enc_layouts_len(ls: Seq<LayoutView>)
    ensures
        spec_enc_layouts(ls).len() == if ls.len() == 0 { 0int } else {
            spec_enc_layout(ls[0]).len() + spec_enc_layouts(ls.drop_first()).len() as int
        },
{
}

pub proof fn lemma_enc_layout_len(l: LayoutView)
    requires l.guid.len() == 16,
    ensures spec_enc_layout(l).len() == spec_layout_len(l),
{
    lemma_enc_records_len(spec_layout_records(l));
    lemma_u16s_bytes_index(spec_enc_strings(l.descriptions));
}

/// A run of well-formed layouts re-parses from its own bytes.
proof fn lemma_parse_layouts_enc(b: Seq<u8>, i: int, ls: Seq<LayoutView>)
    requires
        0 <= i,
        spec_layouts_wf(ls),
        i + spec_enc_layouts(ls).len() <= b.len(),
        b.subrange(i, i + spec_enc_layouts(ls).len()) == spec_enc_layouts(ls),
    ensures
        spec_parse_layouts(b, i, ls.len() as int)
            == Some((ls, i + spec_enc_layouts(ls).len())),
    decreases ls.len(),
{
    if ls.len() == 0 {
    } else {
        let l0 = ls[0];
        let rest = ls.drop_first();
        let e0 = spec_enc_layout(l0);
        let er = spec_enc_layouts(rest);
        let all = spec_enc_layouts(ls);
        assert(all == e0 + er);
        assert(spec_layout_wf(l0));
        lemma_enc_layout_len(l0);
        assert(forall|k: int| 0 <= k < all.len() ==> #[trigger] b[i + k] == all[k]) by {
            assert forall|k: int| 0 <= k < all.len() implies #[trigger] b[i + k] == all[k] by {
                assert(b.subrange(i, i + all.len())[k] == b[i + k]);
            }
        }
        assert(b.subrange(i, i + e0.len()) =~= e0) by {
            assert forall|k: int| 0 <= k < e0.len() implies
                b.subrange(i, i + e0.len())[k] == e0[k] by {
                assert(b[i + k] == all[k]);
                assert(all[k] == e0[k]);
            }
        }
        lemma_parse_layout_enc(b, i, l0);
        let j = i + e0.len();
        assert(spec_layouts_wf(rest)) by {
            assert forall|k: int| 0 <= k < rest.len() implies
                spec_layout_wf(#[trigger] rest[k]) by {
                assert(rest[k] == ls[k + 1]);
            }
        }
        assert(b.subrange(j, j + er.len()) =~= er) by {
            assert forall|k: int| 0 <= k < er.len() implies
                b.subrange(j, j + er.len())[k] == er[k] by {
                assert(b[i + (e0.len() + k)] == all[e0.len() + k]);
                assert(all[e0.len() + k] == er[k]);
            }
        }
        lemma_parse_layouts_enc(b, j, rest);
        assert(seq![l0] + rest =~= ls);
    }
}

/// A well-formed package list re-parses from its own bytes.
pub proof fn lemma_pkg_list_round_trip(pl: PkgListView)
    requires spec_pkg_list_wf(pl),
    ensures
        spec_parse_pkg_list(spec_enc_pkg_list(pl))
            == Some((pl, spec_pkg_list_len(pl))),
{
    let b = spec_enc_pkg_list(pl);
    let p = pl.package;
    let ep = spec_enc_pkg(p);
    let els = spec_enc_layouts(p.layouts);
    assert(b.len() == spec_pkg_list_len(pl));
    // package header word
    let hdr = (spec_pkg_len(p) + 0x11000000) as u32;
    assert(spec_u32_at(b, 20) == hdr) by {
        lemma_le32_value(hdr);
        let p3 = spec_le32(hdr);
        assert(b[20] == p3[0]);
        assert(b[21] == p3[1]);
        assert(b[22] == p3[2]);
        assert(b[23] == p3[3]);
    }
    assert(hdr / 0x1000000 == PACKAGE_KEYBOARD_LAYOUT_TAG as u32) by (nonlinear_arith)
        requires hdr == spec_pkg_len(p) + 0x11000000, 6 <= spec_pkg_len(p) <= 0xFFFFFF,
    {
    }
    assert(spec_u16_at(b, 24) == p.layouts.len() as u16) by {
        lemma_le16_value(p.layouts.len() as u16);
        let p6 = spec_le16(p.layouts.len() as u16);
        assert(b[24] == p6[0]);
        assert(b[25] == p6[1]);
    }
    assert(b.subrange(26, 26 + els.len() as int) =~= els) by {
        assert forall|k: int| 0 <= k < els.len() implies
            b.subrange(26, 26 + els.len() as int)[k] == els[k] by {
            assert(b[26 + k] == els[k]);
        }
    }
    lemma_parse_layouts_enc(b, 26, p.layouts);
    assert(spec_parse_layouts(b, 26, p.layouts.len() as int)
        == Some((p.layouts, 26 + els.len() as int)));
    assert(spec_parse_pkg(b, 20) == Some((PkgView { layouts: p.layouts }, 26 + els.len() as int)));
    assert(PkgView { layouts: p.layouts } == p);
    assert(b.subrange(0, 16) =~= pl.package_list_guid);
    assert(spec_parse_pkg_list(b) == Some((
        PkgListView { package_list_guid: pl.package_list_guid, package: p },
        26 + els.len() as int + 4,
    )));
    assert(PkgListView { package_list_guid: pl.package_list_guid, package: p } == pl);
}

/// Round trip by structure: a well-formed layout survives encoding and
/// decoding unchanged, and the decoder consumes exactly its bytes.
pub proof fn lemma_layout_round_trip(l: LayoutView)
    requires spec_layout_wf(l),
    ensures
        spec_parse_layout(spec_enc_layout(l), 0) == Some((l, spec_layout_len(l))),
{
    let b = spec_enc_layout(l);
    lemma_enc_layout_len(l);
    assert(b.subrange(0, spec_layout_len(l)) =~= b);
    lemma_parse_layout_enc(b, 0, l);
}

/// Round trip by value: a buffer that is the encoding of some well-formed
/// layout decodes to a layout that re-encodes to the very same bytes.
pub proof fn lemma_layout_bytes_round_trip(b: Seq<u8>)
    requires exists|l: LayoutView| spec_layout_wf(l) && b == spec_enc_layout(l),
    ensures
        spec_parse_layout(b, 0) matches Some(r)
            && spec_enc_layout(r.0) == b && r.1 == b.len(),
{
    let l = choose|l: LayoutView| spec_layout_wf(l) && b == spec_enc_layout(l);
    lemma_enc_layout_len(l);
    lemma_layout_round_trip(l);
}

/// Decoding is idempotent through one re-encoding: for a buffer in the image
/// of the encoder, decode of encode of decode is decode.
pub proof fn lemma_layout_decode_stable(b: Seq<u8>)
    requires exists|l: LayoutView| spec_layout_wf(l) && b == spec_enc_layout(l),
    ensures
        spec_parse_layout(b, 0) matches Some(r)
            && spec_parse_layout(spec_enc_layout(r.0), 0) == spec_parse_layout(b, 0),
{
    let l = choose|l: LayoutView| spec_layout_wf(l) && b == spec_enc_layout(l);
    lemma_layout_round_trip(l);
}

// ---------------------------------------------------------------------------
// Executable decoder
// ---------------------------------------------------------------------------

fn collect_units(b: &[u8], i: usize) -> (r: Option<(Vec<u16>, usize)>)
    requires i <= b@.len(), b@.len() <= usize::MAX,
    ensures
        match r {
            Some((us, end)) => spec_collect_units(b@, i as int) == Some((us@, end as int))
                && i <= end <= b@.len(),
            None => spec_collect_units(b@, i as int) is None,
        },
{
    let n = b.len();
    let mut acc: Vec<u16> = Vec::new();
    let mut j: usize = i;
    loop
        invariant
            i <= j <= n,
            n == b@.len(),
            n <= usize::MAX,
            spec_collect_units(b@, i as int) == match spec_collect_units(b@, j as int) {
                Some((us, end)) => Some((acc@ + us, end)),
                None => None::<(Seq<u16>, int)>,
            },
        decreases n - j,
    {
        if n - j < 2 {
            return None;
        }
        let v = read_u16(b, j);
        if v == 0 {
            assert(acc@ + Seq::<u16>::empty() =~= acc@);
            return Some((acc, j + 2));
        }
        let ghost prev = acc@;
        acc.push(v);
        proof {
            if spec_collect_units(b@, j as int + 2) is Some {
                let (us, end) = spec_collect_units(b@, j as int + 2).unwrap();
                assert(prev + (seq![v] + us) =~= (prev + seq![v]) + us);
                assert(acc@ =~= prev + seq![v]);
            }
        }
        j = j + 2;
    }
}

fn first_space(us: &Vec<u16>) -> (r: Option<usize>)
    ensures
        match r {
            Some(p) => spec_first_space(us@, 0) == Some(p as int),
            None => spec_first_space(us@, 0) is None,
        },
{
    let n = us.len();
    let mut j: usize = 0;
    while j < n
        invariant
            0 <= j <= n,
            n == us@.len(),
            spec_first_space(us@, 0) == spec_first_space(us@, j as int),
        decreases n - j,
    {
        if us[j] == 0x20 {
            return Some(j);
        }
        j = j + 1;
    }
    None
}

fn copy_units(us: &Vec<u16>, from: usize, to: usize) -> (r: Vec<u16>)
    requires from <= to <= us@.len(),
    ensures r@ == us@.subrange(from as int, to as int),
{
    let mut out: Vec<u16> = Vec::new();
    let mut j: usize = from;
    while j < to
        invariant
            from <= j <= to <= us@.len(),
            out@ == us@.subrange(from as int, j as int),
        decreases to - j,
    {
        out.push(us[j]);
        assert(out@ =~= us@.subrange(from as int, j + 1 as int));
        j = j + 1;
    }
    out
}

fn parse_string_at(b: &[u8], i: usize) -> (r: Option<(HiiKeyboardDescription, usize)>)
    requires i <= b@.len(), b@.len() <= usize::MAX,
    ensures
        match r {
            Some((d, end)) => spec_parse_string(b@, i as int) == Some((d@, end as int))
                && i <= end <= b@.len(),
            None => spec_parse_string(b@, i as int) is None,
        },
{
    let (us, end) = match collect_units(b, i) {
        None => { return None; },
        Some(x) => x,
    };
    if !is_valid_utf16(&us) {
        return None;
    }
    let p = match first_space(&us) {
        None => { return None; },
        Some(p) => p,
    };
    proof {
        lemma_first_space_in_range(us@, 0, p as int);
    }
    let language = copy_units(&us, 0, p);
    let description = copy_units(&us, p + 1, us.len());
    Some((HiiKeyboardDescription { language, description }, end))
}

proof fn lemma_first_space_in_range(us: Seq<u16>, i: int, p: int)
    requires 0 <= i <= us.len(), spec_first_space(us, i) == Some(p),
    ensures i <= p < us.len(),
    decreases us.len() - i,
{
    if i < us.len() && us[i] != 0x20 {
        lemma_first_space_in_range(us, i + 1, p);
    }
}

fn parse_strings_at(b: &[u8], i: usize, m: usize) -> (r: Option<(Vec<HiiKeyboardDescription>, usize)>)
    requires i <= b@.len(), b@.len() <= usize::MAX,
    ensures
        match r {
            Some((ds, end)) => spec_parse_strings(b@, i as int, m as int)
                == Some((spec_descs_view(ds@), end as int)) && i <= end <= b@.len(),
            None => spec_parse_strings(b@, i as int, m as int) is None,
        },
    decreases m,
{
    if m == 0 {
        let ds: Vec<HiiKeyboardDescription> = Vec::new();
        assert(spec_descs_view(ds@) =~= Seq::<DescriptionView>::empty());
        return Some((ds, i));
    }
    match parse_string_at(b, i) {
        None => None,
        Some((d, j)) => match parse_strings_at(b, j, m - 1) {
            None => None,
            Some((mut ds, end)) => {
                let ghost prev = ds@;
                ds.insert(0, d);
                assert(spec_descs_view(ds@) =~= seq![d@] + spec_descs_view(prev)) by {
                    assert forall|k: int| 0 <= k < ds@.len() implies
                        spec_descs_view(ds@)[k] == (seq![d@] + spec_descs_view(prev))[k] by {
                        if k > 0 {
                            assert(ds@[k] == prev[k - 1]);
                        }
                    }
                }
                Some((ds, end))
            },
        },
    }
}

fn deps_run_len(recs: &Vec<HiiKeyDescriptor>, i: usize) -> (r: usize)
    requires i <= recs@.len(),
    ensures
        r == spec_deps_from(recs@, i as int),
        i + r <= recs@.len(),
{
    let n = recs.len();
    let mut j: usize = i;
    while j < n && recs[j].modifier == NS_KEY_DEPENDENCY_MODIFIER
        invariant
            i <= j <= n,
            n == recs@.len(),
            spec_deps_from(recs@, i as int) == j - i + spec_deps_from(recs@, j as int),
        decreases n - j,
    {
        j = j + 1;
    }
    proof {
        lemma_deps_from_bound(recs@, j as int);
    }
    j - i
}

fn group_records_from(recs: &Vec<HiiKeyDescriptor>, i: usize) -> (r: Vec<HiiKey>)
    requires i <= recs@.len(),
    ensures spec_keys_view(r@) == spec_group_from(recs@, i as int),
    decreases recs@.len() - i,
{
    if i == recs.len() {
        let r: Vec<HiiKey> = Vec::new();
        assert(spec_keys_view(r@) =~= spec_group_from(recs@, i as int));
        return r;
    }
    let d = recs[i];
    if d.modifier == NS_KEY_MODIFIER {
        let n = deps_run_len(recs, i + 1);
        let n_recs = recs.len();
        let mut deps: Vec<HiiKeyDescriptor> = Vec::new();
        let mut k: usize = 0;
        while k < n
            invariant
                0 <= k <= n,
                i + 1 + n <= n_recs,
                n_recs == recs@.len(),
                deps@ == recs@.subrange(i + 1, i + 1 + k as int),
            decreases n - k,
        {
            deps.push(recs[i + 1 + k]);
            assert(deps@ =~= recs@.subrange(i + 1, i + 1 + (k + 1) as int));
            k = k + 1;
        }
        let mut rest = group_records_from(recs, i + 1 + n);
        let ghost prev = rest@;
        rest.insert(0, HiiKey::NsKey(HiiNsKeyDescriptor { descriptor: d, dependent_keys: deps }));
        assert(spec_keys_view(rest@) =~= spec_group_from(recs@, i as int)) by {
            assert forall|k2: int| 0 <= k2 < rest@.len() implies
                spec_keys_view(rest@)[k2] == spec_group_from(recs@, i as int)[k2] by {
                if k2 > 0 {
                    assert(rest@[k2] == prev[k2 - 1]);
                    assert(spec_keys_view(prev)[k2 - 1] == prev[k2 - 1]@);
                }
            }
        }
        rest
    } else {
        let mut rest = group_records_from(recs, i + 1);
        let ghost prev = rest@;
        rest.insert(0, HiiKey::Key(d));
        assert(spec_keys_view(rest@) =~= spec_group_from(recs@, i as int)) by {
            assert forall|k2: int| 0 <= k2 < rest@.len() implies
                spec_keys_view(rest@)[k2] == spec_group_from(recs@, i as int)[k2] by {
                if k2 > 0 {
                    assert(rest@[k2] == prev[k2 - 1]);
                    assert(spec_keys_view(prev)[k2 - 1] == prev[k2 - 1]@);
                }
            }
        }
        rest
    }
}

fn parse_layout_at(b: &[u8], i: usize) -> (r: Option<(HiiKeyboardLayout, usize)>)
    requires i <= b@.len(),
    ensures
        match r {
            Some((l, end)) => spec_parse_layout(b@, i as int) == Some((l@, end as int))
                && i <= end <= b@.len() && l.guid.wf(),
            None => spec_parse_layout(b@, i as int) is None,
        },
{
    let n = b.len();
    if n - i < 23 {
        return None;
    }
    let s_rel32 = read_u32(b, i + 18);
    if s_rel32 > 0xFFFFFFFF {
        return None;
    }
    let s_rel = s_rel32 as usize;
    if !(s_rel >= 23 && s_rel <= n - i && (n - i) - s_rel >= 2) {
        return None;
    }
    let s_abs = i + s_rel;
    let recs = match parse_records(b, i + 23, s_abs) {
        None => { return None; },
        Some(recs) => recs,
    };
    let m = read_u16(b, s_abs);
    let (ds, end) = match parse_strings_at(b, s_abs + 2, m as usize) {
        None => { return None; },
        Some(x) => x,
    };
    let guid_bytes = {
        let mut g: Vec<u8> = Vec::new();
        let mut k: usize = 0;
        while k < 16
            invariant
                0 <= k <= 16,
                i + 23 <= n,
                n == b@.len(),
                g@ == b@.subrange(i + 2, i + 2 + k as int),
            decreases 16 - k,
        {
            g.push(b[i + 2 + k]);
            assert(g@ =~= b@.subrange(i + 2, i + 2 + (k + 1) as int));
            k = k + 1;
        }
        g
    };
    let keys = group_records_from(&recs, 0);
    let l = HiiKeyboardLayout {
        guid: Guid { bytes: guid_bytes },
        keys,
        descriptions: ds,
    };
    assert(l@ == spec_parse_layout(b@, i as int).unwrap().0) by {
        assert(l@.guid =~= b@.subrange(i + 2, i + 18));
        assert(l@.keys =~= spec_keys_view(l.keys@));
        assert(l@.descriptions =~= spec_descs_view(ds@));
    }
    Some((l, end))
}

fn parse_layouts_at(b: &[u8], i: usize, m: usize) -> (r: Option<(Vec<HiiKeyboardLayout>, usize)>)
    requires i <= b@.len(),
    ensures
        match r {
            Some((ls, end)) => spec_parse_layouts(b@, i as int, m as int)
                == Some((spec_layouts_view(ls@), end as int)) && i <= end <= b@.len(),
            None => spec_parse_layouts(b@, i as int, m as int) is None,
        },
    decreases m,
{
    if m == 0 {
        let ls: Vec<HiiKeyboardLayout> = Vec::new();
        assert(spec_layouts_view(ls@) =~= Seq::<LayoutView>::empty());
        return Some((ls, i));
    }
    match parse_layout_at(b, i) {
        None => None,
        Some((l, j)) => match parse_layouts_at(b, j, m - 1) {
            None => None,
            Some((mut ls, end)) => {
                let ghost prev = ls@;
                ls.insert(0, l);
                assert(spec_layouts_view(ls@) =~= seq![l@] + spec_layouts_view(prev)) by {
                    assert forall|k: int| 0 <= k < ls@.len() implies
                        spec_layouts_view(ls@)[k] == (seq![l@] + spec_layouts_view(prev))[k] by {
                        if k > 0 {
                            assert(ls@[k] == prev[k - 1]);
                        }
                    }
                }
                Some((ls, end))
            },
        },
    }
}

fn parse_pkg_at(b: &[u8], i: usize) -> (r: Option<(HiiKeyboardPkg, usize)>)
    requires i <= b@.len(),
    ensures
        match r {
            Some((p, end)) => spec_parse_pkg(b@, i as int) == Some((p@, end as int))
                && i <= end <= b@.len(),
            None => spec_parse_pkg(b@, i as int) is None,
        },
{
    let n = b.len();
    if n - i < 6 {
        return None;
    }
    let hdr = read_u32(b, i);
    if hdr / 0x1000000 != PACKAGE_KEYBOARD_LAYOUT_TAG as u32 {
        return None;
    }
    let m = read_u16(b, i + 4);
    match parse_layouts_at(b, i + 6, m as usize) {
        None => None,
        Some((ls, end)) => {
            let p = HiiKeyboardPkg { layouts: ls };
            assert(p@.layouts =~= spec_layouts_view(p.layouts@));
            Some((p, end))
        },
    }
}

/// Decodes a package list from the start of the buffer. Returns the list
/// exactly when the buffer parses under the package-list format; the total
/// length field and the end-marker word are present but not inspected.
pub fn pkg_list_from_buffer(b: &[u8]) -> (r: Result<HiiKeyboardPkgList, LayoutError>)
    ensures
        match r {
            Ok(pl) => spec_parse_pkg_list(b@) matches Some(x) && x.0 == pl@,
            Err(e) => spec_parse_pkg_list(b@) is None && e == LayoutError::ParseError,
        },
{
    let n = b.len();
    if n < 20 {
        return Err(LayoutError::ParseError);
    }
    let (p, end) = match parse_pkg_at(b, 20) {
        None => { return Err(LayoutError::ParseError); },
        Some(x) => x,
    };
    if n - end < 4 {
        return Err(LayoutError::ParseError);
    }
    let mut g: Vec<u8> = Vec::new();
    let mut k: usize = 0;
    while k < 16
        invariant
            0 <= k <= 16,
            20 <= n,
            n == b@.len(),
            g@ == b@.subrange(0, k as int),
        decreases 16 - k,
    {
        g.push(b[k]);
        assert(g@ =~= b@.subrange(0, (k + 1) as int));
        k = k + 1;
    }
    let pl = HiiKeyboardPkgList { package_list_guid: Guid { bytes: g }, package: p };
    assert(pl@.package_list_guid =~= b@.subrange(0, 16));
    Ok(pl)
}

/// Decodes one keyboard layout from the start of the buffer. Returns the
/// layout exactly when the buffer parses under the layout format.
pub fn keyboard_layout_from_buffer(b: &[u8]) -> (r: Result<HiiKeyboardLayout, LayoutError>)
    ensures
        match r {
            Ok(l) => spec_parse_layout(b@, 0) matches Some(x) && x.0 == l@ && l.guid.wf(),
            Err(e) => spec_parse_layout(b@, 0) is None && e == LayoutError::ParseError,
        },
{
    match parse_layout_at(b, 0) {
        None => Err(LayoutError::ParseError),
        Some((l, _end)) => Ok(l),
    }
}

// ---------------------------------------------------------------------------
// Executable encoder
// ---------------------------------------------------------------------------

fn flatten_from(keys: &Vec<HiiKey>, i: usize, out: &mut Vec<HiiKeyDescriptor>)
    requires i <= keys@.len(),
    ensures
        final(out)@ == old(out)@
            + spec_flatten_keys(spec_keys_view(keys@).skip(i as int)),
    decreases keys@.len() - i,
{
    let ghost kv = spec_keys_view(keys@);
    if i == keys.len() {
        assert(kv.skip(i as int) =~= Seq::<HiiKeyView>::empty());
        assert(out@ =~= out@ + spec_flatten_keys(kv.skip(i as int)));
        return;
    }
    let ghost base = out@;
    match &keys[i] {
        HiiKey::Key(d) => {
            out.push(*d);
            assert(out@ =~= base + spec_key_records(kv[i as int]));
        },
        HiiKey::NsKey(ns) => {
            out.push(ns.descriptor);
            let nd = ns.dependent_keys.len();
            let mut k: usize = 0;
            while k < nd
                invariant
                    0 <= k <= nd,
                    nd == ns.dependent_keys@.len(),
                    out@ == base + seq![ns.descriptor]
                        + ns.dependent_keys@.subrange(0, k as int),
                decreases nd - k,
            {
                out.push(ns.dependent_keys[k]);
                assert(out@ =~= base + seq![ns.descriptor]
                    + ns.dependent_keys@.subrange(0, (k + 1) as int));
                k = k + 1;
            }
            assert(ns.dependent_keys@.subrange(0, nd as int) =~= ns.dependent_keys@);
            assert(out@ =~= base + spec_key_records(kv[i as int])) by {
                assert(kv[i as int] == keys@[i as int]@);
                assert(spec_key_records(kv[i as int])
                    =~= seq![ns.descriptor] + ns.dependent_keys@);
            }
        },
    }
    let ghost mid = out@;
    flatten_from(keys, i + 1, out);
    proof {
        assert(kv.skip(i as int).drop_first() =~= kv.skip(i as int + 1));
        assert(kv.skip(i as int)[0] == kv[i as int]);
        assert(spec_flatten_keys(kv.skip(i as int))
            == spec_key_records(kv[i as int]) + spec_flatten_keys(kv.skip(i as int + 1)));
        assert(out@ =~= base + spec_flatten_keys(kv.skip(i as int)));
    }
}

fn flatten_keys(keys: &Vec<HiiKey>) -> (r: Vec<HiiKeyDescriptor>)
    ensures r@ == spec_flatten_keys(spec_keys_view(keys@)),
{
    let mut out: Vec<HiiKeyDescriptor> = Vec::new();
    flatten_from(keys, 0, &mut out);
    assert(spec_keys_view(keys@).skip(0) =~= spec_keys_view(keys@));
    assert(out@ =~= spec_flatten_keys(spec_keys_view(keys@)));
    out
}

fn enc_records_into(recs: &Vec<HiiKeyDescriptor>, i: usize, out: &mut Vec<u8>)
    requires i <= recs@.len(),
    ensures final(out)@ == old(out)@ + spec_enc_records(recs@.skip(i as int)),
    decreases recs@.len() - i,
{
    if i == recs.len() {
        assert(recs@.skip(i as int) =~= Seq::<HiiKeyDescriptor>::empty());
        assert(out@ =~= out@ + spec_enc_records(recs@.skip(i as int)));
        return;
    }
    let ghost base = out@;
    push_desc_bytes(out, &recs[i]);
    enc_records_into(recs, i + 1, out);
    proof {
        assert(recs@.skip(i as int).drop_first() =~= recs@.skip(i as int + 1));
        assert(recs@.skip(i as int)[0] == recs@[i as int]);
        assert(out@ =~= base + spec_enc_records(recs@.skip(i as int)));
    }
}

proof fn lemma_u16s_bytes_single(v: u16)
    ensures spec_u16s_bytes(seq![v]) == spec_le16(v),
{
    let s1 = seq![v];
    assert(s1.len() == 1);
    assert(s1[0] == v);
    assert(s1.drop_first() =~= Seq::<u16>::empty());
    assert(spec_u16s_bytes(s1.drop_first()) =~= Seq::<u8>::empty());
    assert(spec_u16s_bytes(s1) == spec_le16(v) + spec_u16s_bytes(s1.drop_first()));
    assert(spec_le16(v) + Seq::<u8>::empty() =~= spec_le16(v));
}

proof fn lemma_u16s_bytes_snoc(s: Seq<u16>, x: u16)
    ensures spec_u16s_bytes(s.push(x)) == spec_u16s_bytes(s) + spec_le16(x),
    decreases s.len(),
{
    if s.len() == 0 {
        assert(s.push(x) =~= seq![x]);
        lemma_u16s_bytes_single(x);
        assert(spec_u16s_bytes(s) + spec_le16(x) =~= spec_le16(x));
    } else {
        lemma_u16s_bytes_snoc(s.drop_first(), x);
        assert(s.push(x).drop_first() =~= s.drop_first().push(x));
        assert(s.push(x)[0] == s[0]);
        assert(spec_le16(s[0]) + (spec_u16s_bytes(s.drop_first()) + spec_le16(x))
            =~= (spec_le16(s[0]) + spec_u16s_bytes(s.drop_first())) + spec_le16(x));
    }
}

fn push_units_bytes(out: &mut Vec<u8>, us: &Vec<u16>)
    ensures final(out)@ == old(out)@ + spec_u16s_bytes(us@),
{
    let n = us.len();
    let mut k: usize = 0;
    while k < n
        invariant
            0 <= k <= n,
            n == us@.len(),
            out@ == old(out)@ + spec_u16s_bytes(us@.subrange(0, k as int)),
        decreases n - k,
    {
        push_le16(out, us[k]);
        proof {
            lemma_u16s_bytes_snoc(us@.subrange(0, k as int), us@[k as int]);
            assert(us@.subrange(0, k as int).push(us@[k as int])
                =~= us@.subrange(0, (k + 1) as int));
            assert(out@ =~= old(out)@ + spec_u16s_bytes(us@.subrange(0, (k + 1) as int)));
        }
        k = k + 1;
    }
    assert(us@.subrange(0, n as int) =~= us@);
}

fn push_string_units(out: &mut Vec<u8>, d: &HiiKeyboardDescription)
    ensures final(out)@ == old(out)@ + spec_u16s_bytes(spec_desc_string_units(d@)),
{
    let ghost base = out@;
    push_units_bytes(out, &d.language);
    push_le16(out, 0x20);
    push_units_bytes(out, &d.description);
    push_le16(out, 0);
    proof {
        let units = spec_desc_string_units(d@);
        lemma_u16s_bytes_concat(d.language@, seq![0x20u16]);
        lemma_u16s_bytes_concat(d.language@ + seq![0x20u16], d.description@);
        lemma_u16s_bytes_concat(d.language@ + seq![0x20u16] + d.description@, seq![0u16]);
        lemma_u16s_bytes_single(0x20);
        lemma_u16s_bytes_single(0);
        assert(out@ =~= base + spec_u16s_bytes(units));
    }
}

fn enc_strings_into(ds: &Vec<HiiKeyboardDescription>, i: usize, out: &mut Vec<u8>)
    requires i <= ds@.len(),
    ensures
        final(out)@ == old(out)@
            + spec_u16s_bytes(spec_enc_strings(spec_descs_view(ds@).skip(i as int))),
    decreases ds@.len() - i,
{
    let ghost dv = spec_descs_view(ds@);
    if i == ds.len() {
        assert(dv.skip(i as int) =~= Seq::<DescriptionView>::empty());
        assert(out@ =~= out@ + spec_u16s_bytes(spec_enc_strings(dv.skip(i as int))));
        return;
    }
    let ghost base = out@;
    push_string_units(out, &ds[i]);
    enc_strings_into(ds, i + 1, out);
    proof {
        assert(dv.skip(i as int).drop_first() =~= dv.skip(i as int + 1));
        assert(dv.skip(i as int)[0] == dv[i as int]);
        assert(spec_enc_strings(dv.skip(i as int))
            == spec_desc_string_units(dv[i as int]) + spec_enc_strings(dv.skip(i as int + 1)));
        lemma_u16s_bytes_concat(
            spec_desc_string_units(dv[i as int]),
            spec_enc_strings(dv.skip(i as int + 1)),
        );
        assert(out@ =~= base + spec_u16s_bytes(spec_enc_strings(dv.skip(i as int))));
    }
}

fn check_description_wf(d: &HiiKeyboardDescription) -> (r: bool)
    ensures r == spec_description_wf(d@),
{
    let nl = d.language.len();
    let mut k: usize = 0;
    while k < nl
        invariant
            0 <= k <= nl,
            nl == d.language@.len(),
            forall|j: int| 0 <= j < k
                ==> #[trigger] d.language@[j] != 0x20 && d.language@[j] != 0,
        decreases nl - k,
    {
        if d.language[k] == 0x20 || d.language[k] == 0 {
            return false;
        }
        k = k + 1;
    }
    let ndv = d.description.len();
    let mut k2: usize = 0;
    while k2 < ndv
        invariant
            0 <= k2 <= ndv,
            ndv == d.description@.len(),
            forall|j: int| 0 <= j < k2 ==> #[trigger] d.description@[j] != 0,
        decreases ndv - k2,
    {
        if d.description[k2] == 0 {
            return false;
        }
        k2 = k2 + 1;
    }
    let mut combined: Vec<u16> = Vec::new();
    let mut k3: usize = 0;
    while k3 < nl
        invariant
            0 <= k3 <= nl,
            nl == d.language@.len(),
            combined@ == d.language@.subrange(0, k3 as int),
        decreases nl - k3,
    {
        combined.push(d.language[k3]);
        assert(combined@ =~= d.language@.subrange(0, (k3 + 1) as int));
        k3 = k3 + 1;
    }
    combined.push(0x20);
    let mut k4: usize = 0;
    while k4 < ndv
        invariant
            0 <= k4 <= ndv,
            ndv == d.description@.len(),
            nl == d.language@.len(),
            combined@ == d.language@.subrange(0, nl as int) + seq![0x20u16]
                + d.description@.subrange(0, k4 as int),
        decreases ndv - k4,
    {
        combined.push(d.description[k4]);
        assert(combined@ =~= d.language@.subrange(0, nl as int) + seq![0x20u16]
            + d.description@.subrange(0, (k4 + 1) as int));
        k4 = k4 + 1;
    }
    assert(combined@ =~= d.language@ + seq![0x20u16] + d.description@);
    is_valid_utf16(&combined)
}

#[verifier::loop_isolation(false)]
fn check_keys_wf(keys: &Vec<HiiKey>) -> (r: bool)
    ensures r == spec_keys_wf(spec_keys_view(keys@)),
{
    let ghost kv = spec_keys_view(keys@);
    let n = keys.len();
    let mut i: usize = 0;
    while i < n
        invariant
            0 <= i <= n,
            n == keys@.len(),
            kv == spec_keys_view(keys@),
            forall|j: int| 0 <= j < i ==> spec_key_item_wf(#[trigger] kv[j]),
        decreases n - i,
    {
        match &keys[i] {
            HiiKey::Key(d) => {
                assert(kv[i as int] == HiiKeyView::Key(*d));
                if d.modifier == NS_KEY_MODIFIER || d.modifier == NS_KEY_DEPENDENCY_MODIFIER {
                    assert(!spec_key_item_wf(kv[i as int]));
                    return false;
                }
                assert(spec_key_item_wf(kv[i as int]));
            },
            HiiKey::NsKey(ns) => {
                assert(kv[i as int] == HiiKeyView::NsKey(ns@));
                if ns.descriptor.modifier != NS_KEY_MODIFIER {
                    assert(!spec_key_item_wf(kv[i as int]));
                    return false;
                }
                let nd = ns.dependent_keys.len();
                let mut k: usize = 0;
                while k < nd
                    invariant
                        0 <= k <= nd,
                        nd == ns.dependent_keys@.len(),
                        forall|j: int| 0 <= j < k ==> #[trigger] ns.dependent_keys@[j].modifier
                            == NS_KEY_DEPENDENCY_MODIFIER,
                    decreases nd - k,
                {
                    if ns.dependent_keys[k].modifier != NS_KEY_DEPENDENCY_MODIFIER {
                        assert(ns.dependent_keys@[k as int].modifier != NS_KEY_DEPENDENCY_MODIFIER);
                        assert(!spec_key_item_wf(kv[i as int]));
                        return false;
                    }
                    k = k + 1;
                }
                assert(spec_key_item_wf(kv[i as int])) by {
                    assert(kv[i as int] == keys@[i as int]@);
                }
            },
        }
        i = i + 1;
    }
    true
}

/// Encodes one keyboard layout. Succeeds exactly on well-formed layouts and
/// then yields precisely the layout's serialization.
pub fn layout_to_buffer(l: &HiiKeyboardLayout) -> (r: Result<Vec<u8>, LayoutError>)
    ensures
        match r {
            Ok(out) => spec_layout_wf(l@) && out@ == spec_enc_layout(l@),
            Err(e) => !spec_layout_wf(l@) && e == LayoutError::EncodeError,
        },
{
    if l.guid.bytes.len() != 16 {
        return Err(LayoutError::EncodeError);
    }
    if !check_keys_wf(&l.keys) {
        return Err(LayoutError::EncodeError);
    }
    let recs = flatten_keys(&l.keys);
    if recs.len() > 255 {
        return Err(LayoutError::EncodeError);
    }
    let nd = l.descriptions.len();
    if nd > 0xFFFF {
        return Err(LayoutError::EncodeError);
    }
    let mut di: usize = 0;
    while di < nd
        invariant
            0 <= di <= nd,
            nd == l.descriptions@.len(),
            forall|j: int| 0 <= j < di
                ==> spec_description_wf(#[trigger] spec_descs_view(l.descriptions@)[j]),
        decreases nd - di,
    {
        if !check_description_wf(&l.descriptions[di]) {
            assert(!spec_description_wf(spec_descs_view(l.descriptions@)[di as int]));
            return Err(LayoutError::EncodeError);
        }
        assert(spec_description_wf(spec_descs_view(l.descriptions@)[di as int]));
        di = di + 1;
    }
    // serialize the string bundle first so its byte length is at hand
    let mut strs: Vec<u8> = Vec::new();
    enc_strings_into(&l.descriptions, 0, &mut strs);
    proof {
        assert(spec_descs_view(l.descriptions@).skip(0) =~= spec_descs_view(l.descriptions@));
        lemma_u16s_bytes_index(spec_enc_strings(spec_descs_view(l.descriptions@)));
    }
    if strs.len() > 0xFFFF {
        return Err(LayoutError::EncodeError);
    }
    let total: usize = 23 + 16 * recs.len() + 2 + strs.len();
    if total > 0xFFFF {
        return Err(LayoutError::EncodeError);
    }
    let ghost lv = l@;
    proof {
        assert(spec_layout_records(lv) == recs@) by {
            assert(lv.keys =~= spec_keys_view(l.keys@));
        }
        assert(spec_enc_strings(lv.descriptions) == spec_enc_strings(spec_descs_view(l.descriptions@))) by {
            assert(lv.descriptions =~= spec_descs_view(l.descriptions@));
        }
        assert(spec_layout_len(lv) == total);
        assert(spec_layout_wf(lv));
    }
    let mut out: Vec<u8> = Vec::new();
    push_le16(&mut out, total as u16);
    let mut gi: usize = 0;
    let ghost hdr = out@;
    while gi < 16
        invariant
            0 <= gi <= 16,
            l.guid.bytes@.len() == 16,
            out@ == hdr + l.guid.bytes@.subrange(0, gi as int),
        decreases 16 - gi,
    {
        out.push(l.guid.bytes[gi]);
        assert(out@ =~= hdr + l.guid.bytes@.subrange(0, (gi + 1) as int));
        gi = gi + 1;
    }
    assert(l.guid.bytes@.subrange(0, 16) =~= l.guid.bytes@);
    push_le32(&mut out, (23 + 16 * recs.len()) as u32);
    out.push(recs.len() as u8);
    let ghost before_recs = out@;
    enc_records_into(&recs, 0, &mut out);
    proof {
        assert(recs@.skip(0) =~= recs@);
    }
    push_le16(&mut out, nd as u16);
    let ghost before_strs = out@;
    push_units_bytes_vec(&mut out, &strs);
    proof {
        assert(out@ =~= spec_enc_layout(lv));
    }
    Ok(out)
}

fn push_units_bytes_vec(out: &mut Vec<u8>, add: &Vec<u8>)
    ensures final(out)@ == old(out)@ + add@,
{
    let n = add.len();
    let mut k: usize = 0;
    while k < n
        invariant
            0 <= k <= n,
            n == add@.len(),
            out@ == old(out)@ + add@.subrange(0, k as int),
        decreases n - k,
    {
        out.push(add[k]);
        assert(out@ =~= old(out)@ + add@.subrange(0, (k + 1) as int));
        k = k + 1;
    }
    assert(add@.subrange(0, n as int) =~= add@);
}

/// Decodes a keyboard-layout package from the start of the buffer.
pub fn pkg_from_buffer(b: &[u8]) -> (r: Result<HiiKeyboardPkg, LayoutError>)
    ensures
        match r {
            Ok(p) => spec_parse_pkg(b@, 0) matches Some(x) && x.0 == p@,
            Err(e) => spec_parse_pkg(b@, 0) is None && e == LayoutError::ParseError,
        },
{
    match parse_pkg_at(b, 0) {
        None => Err(LayoutError::ParseError),
        Some((p, _end)) => Ok(p),
    }
}

fn enc_layouts_into(ls: &Vec<HiiKeyboardLayout>, i: usize, out: &mut Vec<u8>)
    -> (r: Result<(), LayoutError>)
    requires i <= ls@.len(),
    ensures
        match r {
            Ok(()) => spec_layouts_wf(spec_layouts_view(ls@).skip(i as int))
                && final(out)@ == old(out)@
                    + spec_enc_layouts(spec_layouts_view(ls@).skip(i as int)),
            Err(e) => !spec_layouts_wf(spec_layouts_view(ls@).skip(i as int))
                && e == LayoutError::EncodeError,
        },
    decreases ls@.len() - i,
{
    let ghost lv = spec_layouts_view(ls@);
    if i == ls.len() {
        assert(lv.skip(i as int) =~= Seq::<LayoutView>::empty());
        assert(out@ =~= out@ + spec_enc_layouts(lv.skip(i as int)));
        return Ok(());
    }
    let ghost base = out@;
    proof {
        assert(lv.skip(i as int)[0] == lv[i as int]);
        assert(lv.skip(i as int).drop_first() =~= lv.skip(i as int + 1));
    }
    match layout_to_buffer(&ls[i]) {
        Err(e) => {
            assert(!spec_layouts_wf(lv.skip(i as int))) by {
                assert(lv.skip(i as int)[0] == lv[i as int]);
                assert(!spec_layout_wf(lv.skip(i as int)[0]));
            }
            Err(e)
        },
        Ok(lb) => {
            push_units_bytes_vec(out, &lb);
            match enc_layouts_into(ls, i + 1, out) {
                Err(e) => {
                    assert(!spec_layouts_wf(lv.skip(i as int))) by {
                        let bad = choose|j: int| 0 <= j < lv.skip(i as int + 1).len()
                            && !spec_layout_wf(#[trigger] lv.skip(i as int + 1)[j]);
                        assert(!spec_layout_wf(lv.skip(i as int + 1)[bad]));
                        assert(lv.skip(i as int)[bad + 1] == lv.skip(i as int + 1)[bad]);
                    }
                    Err(e)
                },
                Ok(()) => {
                    proof {
                        assert(spec_layouts_wf(lv.skip(i as int))) by {
                            assert forall|j: int| 0 <= j < lv.skip(i as int).len() implies
                                spec_layout_wf(#[trigger] lv.skip(i as int)[j]) by {
                                if j > 0 {
                                    assert(lv.skip(i as int)[j] == lv.skip(i as int + 1)[j - 1]);
                                }
                            }
                        }
                        assert(out@ =~= base + spec_enc_layouts(lv.skip(i as int)));
                    }
                    Ok(())
                },
            }
        },
    }
}

/// Encodes a keyboard-layout package. Succeeds exactly on well-formed
/// packages and then yields precisely the package's serialization.
pub fn pkg_to_buffer(p: &HiiKeyboardPkg) -> (r: Result<Vec<u8>, LayoutError>)
    ensures
        match r {
            Ok(out) => spec_pkg_wf(p@) && out@ == spec_enc_pkg(p@),
            Err(e) => !spec_pkg_wf(p@) && e == LayoutError::EncodeError,
        },
{
    let nl = p.layouts.len();
    if nl > 0xFFFF {
        assert(p@.layouts.len() == nl);
        return Err(LayoutError::EncodeError);
    }
    let mut body: Vec<u8> = Vec::new();
    if let Err(e) = enc_layouts_into(&p.layouts, 0, &mut body) {
        proof {
            assert(spec_layouts_view(p.layouts@).skip(0) =~= spec_layouts_view(p.layouts@));
            assert(p@.layouts =~= spec_layouts_view(p.layouts@));
        }
        return Err(e);
    }
    proof {
        assert(spec_layouts_view(p.layouts@).skip(0) =~= spec_layouts_view(p.layouts@));
        assert(p@.layouts =~= spec_layouts_view(p.layouts@));
    }
    if body.len() > 0xFFFFFF - 6 {
        return Err(LayoutError::EncodeError);
    }
    let pkg_len: usize = 6 + body.len();
    assert(spec_pkg_len(p@) == pkg_len);
    assert(spec_pkg_wf(p@));
    let mut out: Vec<u8> = Vec::new();
    push_le32(&mut out, pkg_len as u32 + 0x11000000);
    push_le16(&mut out, nl as u16);
    push_units_bytes_vec(&mut out, &body);
    assert(out@ =~= spec_enc_pkg(p@));
    Ok(out)
}

/// Encodes a package list. Succeeds exactly on well-formed package lists and
/// then yields precisely the list's serialization.
pub fn pkg_list_to_buffer(pl: &HiiKeyboardPkgList) -> (r: Result<Vec<u8>, LayoutError>)
    ensures
        match r {
            Ok(out) => spec_pkg_list_wf(pl@) && out@ == spec_enc_pkg_list(pl@),
            Err(e) => !spec_pkg_list_wf(pl@) && e == LayoutError::EncodeError,
        },
{
    if pl.package_list_guid.bytes.len() != 16 {
        return Err(LayoutError::EncodeError);
    }
    let pkg_bytes = match pkg_to_buffer(&pl.package) {
        Err(e) => { return Err(e); },
        Ok(x) => x,
    };
    // 16 (guid) + 4 (length) + package + 4 (end marker); bounded well below u32
    let total: usize = 24 + pkg_bytes.len();
    assert(spec_pkg_list_len(pl@) == total) by {
        lemma_enc_pkg_len(pl@.package);
    }
    let mut out: Vec<u8> = Vec::new();
    push_units_bytes_vec(&mut out, &pl.package_list_guid.bytes);
    push_le32(&mut out, total as u32);
    push_units_bytes_vec(&mut out, &pkg_bytes);
    push_le32(&mut out, 0xDF000004);
    assert(out@ =~= spec_enc_pkg_list(pl@));
    Ok(out)
}

proof fn lemma_enc_pkg_len(p: PkgView)
    ensures spec_enc_pkg(p).len() == 6 + spec_enc_layouts(p.layouts).len(),
{
}

/// Flattening distributes over appending one item.
pub proof fn lemma_flatten_snoc(ks: Seq<HiiKeyView>, k: HiiKeyView)
    ensures spec_flatten_keys(ks.push(k)) == spec_flatten_keys(ks) + spec_key_records(k),
    decreases ks.len(),
{
    if ks.len() == 0 {
        let e = Seq::<HiiKeyView>::empty();
        assert(ks.push(k).drop_first() =~= e);
        assert(ks.push(k)[0] == k);
        assert(spec_flatten_keys(e) =~= Seq::<HiiKeyDescriptor>::empty());
        assert(spec_flatten_keys(ks.push(k)) == spec_key_records(k) + spec_flatten_keys(e));
        assert(spec_key_records(k) + spec_flatten_keys(e) =~= spec_key_records(k));
        assert(spec_flatten_keys(ks) + spec_key_records(k) =~= spec_key_records(k));
    } else {
        lemma_flatten_snoc(ks.drop_first(), k);
        assert(ks.push(k).drop_first() =~= ks.drop_first().push(k));
        assert(ks.push(k)[0] == ks[0]);
        assert(spec_key_records(ks[0]) + (spec_flatten_keys(ks.drop_first()) + spec_key_records(k))
            =~= (spec_key_records(ks[0]) + spec_flatten_keys(ks.drop_first())) + spec_key_records(k));
    }
}

/// Item-list well-formedness is preserved by appending a well-formed item.
pub proof fn lemma_keys_wf_snoc(ks: Seq<HiiKeyView>, k: HiiKeyView)
    requires spec_keys_wf(ks), spec_key_item_wf(k),
    ensures spec_keys_wf(ks.push(k)),
{
    assert forall|i: int| 0 <= i < ks.push(k).len() implies
        spec_key_item_wf(#[trigger] ks.push(k)[i]) by {
        if i < ks.len() {
            assert(ks.push(k)[i] == ks[i]);
        } else {
            assert(ks.push(k)[i] == k);
        }
    }
}

/// Unit count of the string bundle of a single description.
pub proof fn lemma_enc_strings_single_len(d: DescriptionView)
    ensures
        spec_enc_strings(seq![d]).len()
            == d.language.len() + d.description.len() + 2,
{
    let e = Seq::<DescriptionView>::empty();
    assert(seq![d].drop_first() =~= e);
    assert(seq![d][0] == d);
    assert(spec_enc_strings(e) =~= Seq::<u16>::empty());
    assert(spec_enc_strings(seq![d]) == spec_desc_string_units(d) + spec_enc_strings(e));
}

/// Flattening distributes over concatenation of item lists.
pub proof fn lemma_flatten_concat(a: Seq<HiiKeyView>, b: Seq<HiiKeyView>)
    ensures spec_flatten_keys(a + b) == spec_flatten_keys(a) + spec_flatten_keys(b),
    decreases a.len(),
{
    if a.len() == 0 {
        assert(a + b =~= b);
        assert(spec_flatten_keys(a) + spec_flatten_keys(b) =~= spec_flatten_keys(b));
    } else {
        lemma_flatten_concat(a.drop_first(), b);
        assert((a + b).drop_first() =~= a.drop_first() + b);
        assert((a + b)[0] == a[0]);
        assert(spec_key_records(a[0]) + (spec_flatten_keys(a.drop_first()) + spec_flatten_keys(b))
            =~= (spec_key_records(a[0]) + spec_flatten_keys(a.drop_first())) + spec_flatten_keys(b));
    }
}

/// Item-list well-formedness is preserved by concatenation.
pub proof fn lemma_keys_wf_concat(a: Seq<HiiKeyView>, b: Seq<HiiKeyView>)
    requires spec_keys_wf(a), spec_keys_wf(b),
    ensures spec_keys_wf(a + b),
{
    assert forall|i: int| 0 <= i < (a + b).len() implies
        spec_key_item_wf(#[trigger] (a + b)[i]) by {
        if i < a.len() {
            assert((a + b)[i] == a[i]);
        } else {
            assert((a + b)[i] == b[i - a.len()]);
        }
    }
}

} // verus!
