//! Plain model of HID report fields, with verified extraction of field
//! values from report buffers.
//!
//! A field occupies the bit range `[bit_start, bit_end)` of the report body,
//! least-significant bit first. A value read from a field is range-checked
//! against the field's logical bounds, with sign extension when the logical
//! minimum is negative, matching the conventions of the report-descriptor
//! parser this model is fed from. Fields wider than 32 bits are not
//! accepted.

use vstd::prelude::*;

verus! {

/// A variable field: one usage with a logical range and attributes.
#[derive(Clone, Copy, Debug, PartialEq, Eq, Structural)]
pub struct VariableFieldDef {
    pub usage: u32,
    pub bit_start: u32,
    pub bit_end: u32,
    pub logical_min: i32,
    pub logical_max: i32,
    pub relative: bool,
}

/// An array field: a selector with a logical range and a list of usage
/// ranges.
#[derive(Clone, Debug, PartialEq, Eq)]
pub struct ArrayFieldDef {
    pub bit_start: u32,
    pub bit_end: u32,
    pub logical_min: i32,
    pub logical_max: i32,
    pub usage_ranges: Vec<(u32, u32)>,
}

/// Spec-level value of an array field.
pub ghost struct ArrayFieldView {
    pub bit_start: u32,
    pub bit_end: u32,
    pub logical_min: i32,
    pub logical_max: i32,
    pub usage_ranges: Seq<(u32, u32)>,
}

impl View for ArrayFieldDef {
    type V = ArrayFieldView;

    open spec fn view(&self) -> ArrayFieldView {
        ArrayFieldView {
            bit_start: self.bit_start,
            bit_end: self.bit_end,
            logical_min: self.logical_min,
            logical_max: self.logical_max,
            usage_ranges: self.usage_ranges@,
        }
    }
}

/// One field of a report.
#[derive(Clone, Debug, PartialEq, Eq)]
pub enum FieldDef {
    Variable(VariableFieldDef),
    Array(ArrayFieldDef),
    Padding,
}

/// Spec-level value of a report field.
pub ghost enum FieldView {
    Variable(VariableFieldDef),
    Array(ArrayFieldView),
    Padding,
}

impl View for FieldDef {
    type V = FieldView;

    open spec fn view(&self) -> FieldView {
        match self {
            FieldDef::Variable(f) => FieldView::Variable(*f),
            FieldDef::Array(f) => FieldView::Array(f@),
            FieldDef::Padding => FieldView::Padding,
        }
    }
}

/// One report of a descriptor: its id, its size in bits, and its fields.
#[derive(Clone, Debug, PartialEq, Eq)]
pub struct ReportInfo {
    pub report_id: Option<u32>,
    pub size_in_bits: usize,
    pub fields: Vec<FieldDef>,
}

/// Spec-level value of a report.
pub ghost struct ReportInfoView {
    pub report_id: Option<u32>,
    pub size_in_bits: int,
    pub fields: Seq<FieldView>,
}

impl View for ReportInfo {
    type V = ReportInfoView;

    open spec fn view(&self) -> ReportInfoView {
        ReportInfoView {
            report_id: self.report_id,
            size_in_bits: self.size_in_bits as int,
            fields: Seq::new(self.fields@.len(), |i: int| self.fields@[i]@),
        }
    }
}

/// A parsed report descriptor reduced to plain values: the input and output
/// reports and the count of feature reports.
#[derive(Clone, Debug, PartialEq, Eq)]
pub struct ReportDescriptorInfo {
    pub input_reports: Vec<ReportInfo>,
    pub output_reports: Vec<ReportInfo>,
    pub feature_report_count: usize,
}

/// Spec-level value of a descriptor.
pub ghost struct DescriptorView {
    pub input_reports: Seq<ReportInfoView>,
    pub output_reports: Seq<ReportInfoView>,
    pub feature_report_count: int,
}

impl View for ReportDescriptorInfo {
    type V = DescriptorView;

    open spec fn view(&self) -> DescriptorView {
        DescriptorView {
            input_reports: Seq::new(self.input_reports@.len(), |i: int| self.input_reports@[i]@),
            output_reports: Seq::new(self.output_reports@.len(), |i: int| self.output_reports@[i]@),
            feature_report_count: self.feature_report_count as int,
        }
    }
}

// ---------------------------------------------------------------------------
// Bit extraction
// ---------------------------------------------------------------------------

/// Bit `i` of the buffer (0 or 1), bits numbered LSB-first within each byte.
pub open spec fn spec_bit(b: Seq<u8>, i: int) -> u8 {
    (b[i / 8] >> ((i % 8) as u8)) & 1
}

pub open spec fn spec_pow2(n: int) -> int
    decreases n,
{
    if n <= 0 { 1 } else { 2 * spec_pow2(n - 1) }
}

/// Unsigned value of the bit range `[start, end)`, LSB first.
pub open spec fn spec_field_raw(b: Seq<u8>, start: int, end: int) -> int
    decreases end - start,
{
    if start >= end {
        0
    } else {
        spec_bit(b, start) + 2 * spec_field_raw(b, start + 1, end)
    }
}

proof fn lemma_field_raw_bound(b: Seq<u8>, start: int, end: int)
    ensures 0 <= spec_field_raw(b, start, end) < spec_pow2(end - start),
    decreases end - start,
{
    if start >= end {
    } else {
        lemma_field_raw_bound(b, start + 1, end);
        lemma_bit_le_one(b, start);
    }
}

proof fn lemma_bit_le_one(b: Seq<u8>, i: int)
    ensures spec_bit(b, i) <= 1,
{
    let y = b[i / 8];
    let o = (i % 8) as u8;
    assert((y >> o) & 1 <= 1) by (bit_vector);
}

proof fn lemma_pow2_32()
    ensures
        spec_pow2(32) == 0x100000000,
        spec_pow2(31) == 0x80000000,
    decreases 0int,
{
    reveal_with_fuel(spec_pow2, 33);
}

/// The value a field reads from the report body: out-of-window and
/// zero-width or over-wide fields read nothing; a negative logical minimum
/// makes the field signed (two's complement over its width); the value must
/// lie within the logical range, whose maximum is read as unsigned when the
/// minimum is non-negative.
pub open spec fn spec_field_value(b: Seq<u8>, start: int, end: int, min: i32, max: i32)
    -> Option<i64>
{
    let nbits = end - start;
    if !(0 < nbits <= 32) {
        None
    } else if (end + 7) / 8 > b.len() {
        None
    } else {
        let raw = spec_field_raw(b, start, end);
        let value = if min < 0 && spec_bit(b, end - 1) == 1 {
            raw - spec_pow2(nbits)
        } else {
            raw
        };
        let amax: int = if min < 0 { max as int } else { max as u32 as int };
        if value < min as int || value > amax {
            None
        } else {
            Some(value as i64)
        }
    }
}

/// Reads one bit of the report body.
fn read_bit(b: &[u8], i: usize) -> (r: u8)
    requires i / 8 < b@.len(),
    ensures r == spec_bit(b@, i as int),
{
    let byte = b[i / 8];
    let off = (i % 8) as u8;
    let r = (byte >> off) & 1;
    assert(r == spec_bit(b@, i as int)) by {
        assert(i as int / 8 == (i / 8) as int);
        assert(i as int % 8 == (i % 8) as int);
    }
    r
}

/// Reads the unsigned raw value of the bit range `[start, end)`.
#[verifier::loop_isolation(false)]
fn field_raw(b: &[u8], start: usize, end: usize) -> (r: u64)
    requires
        start <= end,
        end - start <= 32,
        end <= 8 * b@.len(),
    ensures
        r == spec_field_raw(b@, start as int, end as int),
        r < 0x100000000,
{
    let mut acc: u64 = 0;
    let mut i: usize = end;
    while i > start
        invariant
            start <= i <= end,
            acc == spec_field_raw(b@, i as int, end as int),
            acc < spec_pow2(end - i as int),
        decreases i,
    {
        i = i - 1;
        let bit = read_bit(b, i);
        proof {
            lemma_bit_le_one(b@, i as int);
            lemma_field_raw_bound(b@, i as int, end as int);
            lemma_pow2_32();
            lemma_pow2_monotone(end - i as int, 32);
        }
        acc = (bit as u64) + 2 * acc;
    }
    proof {
        lemma_field_raw_bound(b@, start as int, end as int);
        lemma_pow2_32();
        lemma_pow2_monotone(end as int - start as int, 32);
    }
    acc
}

proof fn lemma_pow2_pos(n: int)
    ensures spec_pow2(n) >= 1,
    decreases n,
{
    if n > 0 {
        lemma_pow2_pos(n - 1);
    }
}

proof fn lemma_pow2_monotone(a: int, c: int)
    requires a <= c,
    ensures spec_pow2(a) <= spec_pow2(c),
    decreases c - a,
{
    if a < c {
        lemma_pow2_monotone(a, c - 1);
        lemma_pow2_pos(c - 1);
    }
}

fn pow2_u64(n: usize) -> (r: u64)
    requires n <= 32,
    ensures r == spec_pow2(n as int),
{
    let mut r: u64 = 1;
    let mut k: usize = 0;
    while k < n
        invariant
            0 <= k <= n <= 32,
            r == spec_pow2(k as int),
            r <= 0x100000000,
        decreases n - k,
    {
        proof {
            lemma_pow2_monotone(k as int + 1, 32);
            lemma_pow2_32();
        }
        r = 2 * r;
        k = k + 1;
    }
    r
}

/// Reads a field's value from the report body, per the field-value rules.
pub fn field_value(b: &[u8], bit_start: u32, bit_end: u32, logical_min: i32, logical_max: i32)
    -> (r: Option<i64>)
    ensures
        r == spec_field_value(
            b@, bit_start as int, bit_end as int, logical_min, logical_max),
{
    if !(bit_start < bit_end && bit_end - bit_start <= 32) {
        return None;
    }
    let blen = b.len();
    if ((bit_end as u64) + 7) / 8 > blen as u64 {
        return None;
    }
    assert(bit_end as int <= 8 * b@.len());
    let nbits = (bit_end - bit_start) as usize;
    let raw = field_raw(b, bit_start as usize, bit_end as usize);
    let sign_bit = read_bit(b, bit_end as usize - 1);
    let value: i64 = if logical_min < 0 && sign_bit == 1 {
        let p = pow2_u64(nbits);
        proof {
            lemma_pow2_monotone(nbits as int, 32);
            lemma_pow2_32();
            lemma_pow2_pos(nbits as int);
        }
        (raw as i64) - (p as i64)
    } else {
        raw as i64
    };
    let amax: i64 = if logical_min < 0 {
        logical_max as i64
    } else {
        (logical_max as u32) as i64
    };
    if value < logical_min as i64 || value > amax {
        None
    } else {
        Some(value)
    }
}

/// Writes a field's value into the report body: the value must lie within
/// the signed logical range and the field must fit the body and be at most
/// 32 bits wide; the body keeps its length either way.
/// One bit written into a buffer: the byte holding position `pos` has that
/// bit replaced by the low bit of `bit`.
pub open spec fn spec_set_field_step(b: Seq<u8>, pos: int, bit: u8) -> Seq<u8> {
    b.update(pos / 8, (b[pos / 8] & !(1u8 << ((pos % 8) as u8))) | ((bit & 1) << ((pos % 8) as u8)))
}

/// The buffer after writing bits `k..nbits` of `bits` into the window that
/// starts at `start`, LSB first.
pub open spec fn spec_set_field(b: Seq<u8>, start: int, nbits: int, bits: u64, k: int) -> Seq<u8>
    decreases nbits - k,
{
    if k >= nbits {
        b
    } else {
        spec_set_field(
            spec_set_field_step(b, start + k, ((bits >> (k as u64)) & 1) as u8),
            start, nbits, bits, k + 1,
        )
    }
}

/// Writing an in-window field leaves the buffer's length unchanged.
pub proof fn lemma_set_field_len(b: Seq<u8>, start: int, nbits: int, bits: u64, k: int)
    requires
        0 <= start,
        0 <= k,
        start + nbits <= 8 * b.len(),
    ensures spec_set_field(b, start, nbits, bits, k).len() == b.len(),
    decreases nbits - k,
{
    if k < nbits {
        let b2 = spec_set_field_step(b, start + k, ((bits >> (k as u64)) & 1) as u8);
        assert(0 <= (start + k) / 8 < b.len());
        assert(b2.len() == b.len());
        lemma_set_field_len(b2, start, nbits, bits, k + 1);
    }
}

pub fn set_field_value(
    b: &mut Vec<u8>, bit_start: u32, bit_end: u32, logical_min: i32, logical_max: i32,
    data: i64,
) -> (r: bool)
    ensures
        final(b)@.len() == old(b)@.len(),
        r == (logical_min as i64 <= data <= logical_max as i64
            && 0 < bit_end - bit_start <= 32
            && bit_start < bit_end
            && (bit_end as int + 7) / 8 <= old(b)@.len()),
        !r ==> final(b)@ == old(b)@,
        r ==> final(b)@ == spec_set_field(
            old(b)@, bit_start as int, bit_end - bit_start,
            (data as u64) & 0xFFFFFFFF, 0),
{
    if !(logical_min as i64 <= data && data <= logical_max as i64) {
        return false;
    }
    if !(bit_start < bit_end && bit_end - bit_start <= 32) {
        return false;
    }
    let blen = b.len();
    if ((bit_end as u64) + 7) / 8 > blen as u64 {
        return false;
    }
    let nbits = (bit_end - bit_start) as usize;
    let bits: u64 = #[verifier::truncate] (data as u64) & 0xFFFFFFFF;
    let mut k: usize = 0;
    while k < nbits
        invariant
            0 <= k <= nbits <= 32,
            b@.len() == old(b)@.len(),
            bit_end as int <= 8 * b@.len(),
            nbits == bit_end - bit_start,
            bit_start < bit_end,
            bits == (data as u64) & 0xFFFFFFFF,
            spec_set_field(b@, bit_start as int, nbits as int, bits, k as int)
                == spec_set_field(old(b)@, bit_start as int, nbits as int, bits, 0),
        decreases nbits - k,
    {
        let ghost pre = b@;
        let pos: u64 = bit_start as u64 + k as u64;
        let byte_idx = (pos / 8) as usize;
        let bit_off = (pos % 8) as u8;
        assert(byte_idx < b@.len());
        let sh: u64 = k as u64;
        let masked: u64 = (bits >> sh) & 1;
        assert(masked <= 1) by (bit_vector)
            requires sh < 64, masked == (bits >> sh) & 1,
        {
        }
        let bit_val = masked as u8;
        assert(bit_off < 8);
        let old_byte = b[byte_idx];
        let new_byte = (old_byte & !(1u8 << bit_off)) | (bit_val << bit_off);
        b.set(byte_idx, new_byte);
        proof {
            let posi: int = bit_start as int + k as int;
            assert(byte_idx == posi / 8);
            assert(bit_off == (posi % 8) as u8);
            assert(bit_val & 1 == bit_val) by (bit_vector)
                requires bit_val == 0 || bit_val == 1,
            {
            }
            assert(b@ == spec_set_field_step(pre, posi, bit_val));
            assert(bit_val == ((bits >> (k as u64)) & 1) as u8);
        }
        k = k + 1;
    }
    true
}

/// The selector's usage under an array field's declared ranges: step through
/// the ranges, subtracting each range's span from the index until the index
/// falls inside a range.
pub open spec fn spec_array_usage(ranges: Seq<(u32, u32)>, idx: int) -> Option<u32>
    decreases ranges.len(),
{
    if !(0 <= idx <= 0xFFFFFFFF) {
        None
    } else if ranges.len() == 0 {
        None
    } else {
        let (lo, hi) = ranges[0];
        let span = hi - lo;
        if idx <= span {
            Some((lo + idx) as u32)
        } else {
            spec_array_usage(ranges.drop_first(), idx - span)
        }
    }
}

/// Resolves an array selector index to a usage.
fn array_usage(ranges: &Vec<(u32, u32)>, idx: i64) -> (r: Option<u32>)
    ensures r == spec_array_usage(ranges@, idx as int),
{
    let r = array_usage_from(ranges, 0, idx);
    proof {
        assert(ranges@.skip(0) =~= ranges@);
    }
    r
}

fn array_usage_from(ranges: &Vec<(u32, u32)>, i: usize, idx: i64) -> (r: Option<u32>)
    requires i <= ranges@.len(),
    ensures r == spec_array_usage(ranges@.skip(i as int), idx as int),
    decreases ranges@.len() - i,
{
    if !(0 <= idx && idx <= 0xFFFFFFFFi64) {
        return None;
    }
    if i == ranges.len() {
        assert(ranges@.skip(i as int) =~= Seq::<(u32, u32)>::empty());
        return None;
    }
    proof {
        assert(ranges@.skip(i as int)[0] == ranges@[i as int]);
        assert(ranges@.skip(i as int).drop_first() =~= ranges@.skip(i as int + 1));
    }
    let (lo, hi) = ranges[i];
    let span = (hi as i64) - (lo as i64);
    if idx <= span {
        Some(((lo as i64) + idx) as u32)
    } else {
        array_usage_from(ranges, i + 1, idx - span)
    }
}

/// The usage an array field contributes for the report body, if any: the
/// field value must read, be non-zero, and resolve within the usage ranges.
pub open spec fn spec_array_field_usage(f: ArrayFieldView, b: Seq<u8>) -> Option<u32> {
    match spec_field_value(b, f.bit_start as int, f.bit_end as int, f.logical_min, f.logical_max) {
        None => None,
        Some(v) => if v == 0 {
            None
        } else {
            spec_array_usage(f.usage_ranges, v - f.logical_min as int)
        },
    }
}

/// Reads the usage an array field contributes for the report body.
pub fn array_field_usage(f: &ArrayFieldDef, b: &[u8]) -> (r: Option<u32>)
    ensures r == spec_array_field_usage(f@, b@),
{
    match field_value(b, f.bit_start, f.bit_end, f.logical_min, f.logical_max) {
        None => None,
        Some(v) => {
            if v == 0 {
                None
            } else {
                proof {
                    if spec_field_value(b@, f.bit_start as int, f.bit_end as int,
                        f.logical_min, f.logical_max) == Some(v) {
                        assert(v >= f.logical_min as i64);
                    }
                }
                array_usage(&f.usage_ranges, v - f.logical_min as i64)
            }
        },
    }
}

} // verus!
