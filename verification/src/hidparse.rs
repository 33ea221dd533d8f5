//! Boundary to the report-descriptor parser crate.
//!
//! Parsing a raw HID report descriptor is the parser crate's work; this
//! module declares the parser's types, wraps the few calls the library
//! makes, and converts the parsed structure into the plain field model of
//! [`crate::fields`] in verified code. Every contract downstream speaks of
//! the plain model; nothing is assumed about the parsed structure beyond
//! what the conversion reads through these wrappers.

use vstd::prelude::*;
use crate::fields::{
    VariableFieldDef, ArrayFieldDef, FieldDef, ReportInfo, ReportDescriptorInfo,
};

verus! {

#[verifier::external_type_specification]
#[verifier::external_body]
pub struct ExReportDescriptor(hidparser::ReportDescriptor);

#[verifier::external_type_specification]
#[verifier::external_body]
pub struct ExReport(hidparser::Report);

#[verifier::external_type_specification]
#[verifier::external_body]
pub struct ExVariableField(hidparser::VariableField);

#[verifier::external_type_specification]
#[verifier::external_body]
pub struct ExArrayField(hidparser::ArrayField);

/// One field of a parsed report, classified.
pub enum HpField {
    Var(hidparser::VariableField),
    Arr(hidparser::ArrayField),
    Pad,
}

// ---------------------------------------------------------------------------
// Descriptor pre-scan
// ---------------------------------------------------------------------------
//
// The parser crate assembles reports with unguarded 32-bit arithmetic: for
// every input/output/feature item it multiplies the declared report count
// and report size, accumulates the products into a bit position, and
// allocates one field per declared count. A descriptor is free to declare
// counts and sizes up to 2^32 - 1, on which that arithmetic overflows (a
// panic in overflow-checked builds) and the allocation exhausts memory. The
// pre-scan below walks the item stream — the framing is a few lines of
// grammar — and bounds the declared geometry, so the parser is only ever
// called on descriptors whose assembly stays in range. Real descriptors sit
// far below the caps.

/// Largest declared report count the pre-scan admits.
pub const PRESCAN_MAX_COUNT: u32 = 0x1000;
/// Largest declared report size (in bits) the pre-scan admits.
pub const PRESCAN_MAX_SIZE: u32 = 0x1000;
/// Largest accumulated count-times-size total (in bits) the pre-scan admits.
pub const PRESCAN_MAX_TOTAL_BITS: u64 = 0x10000000;

/// The little-endian value of an item's data bytes (`n` of them, at most 4).
pub open spec fn spec_item_value(b: Seq<u8>, pos: int, n: int) -> u32 {
    (
        (if n >= 1 { b[pos] as int } else { 0 })
            + (if n >= 2 { 256 * (b[pos + 1] as int) } else { 0 })
            + (if n >= 3 { 65536 * (b[pos + 2] as int) } else { 0 })
            + (if n >= 4 { 16777216 * (b[pos + 3] as int) } else { 0 })
    ) as u32
}

/// Walks the item stream from `pos`, tracking the declared report size and
/// count (the parser reads them from one live global table), and requires
/// every input/output/feature item's declared geometry to stay under the
/// caps. A stream the item framing itself would cut short passes: the
/// parser stops with an error there before any report assembly.
pub open spec fn spec_prescan_from(
    b: Seq<u8>, pos: int, count: Option<u32>, size: Option<u32>, total: int,
) -> bool
    decreases b.len() - pos when 0 <= pos
{
    if pos >= b.len() {
        true
    } else {
        let header = b[pos];
        let size_field = (header & 0x3) as int;
        let data_len: int = if size_field == 3 { 4 } else { size_field };
        let item_type = (header >> 2) & 0x3;
        let tag = header >> 4;
        if size_field == 2 && tag == 0xF && item_type == 3 {
            // long item: a data-length byte and a tag byte follow the header
            if pos + 3 > b.len() {
                true
            } else if pos + 3 + (b[pos + 1] as int) > b.len() {
                true
            } else {
                spec_prescan_from(b, pos + 3 + (b[pos + 1] as int), count, size, total)
            }
        } else if pos + 1 + data_len > b.len() {
            true
        } else {
            let count2 = if item_type == 1 && tag == 9 {
                Some(spec_item_value(b, pos + 1, data_len))
            } else {
                count
            };
            let size2 = if item_type == 1 && tag == 7 {
                Some(spec_item_value(b, pos + 1, data_len))
            } else {
                size
            };
            if item_type == 0 && (tag == 8 || tag == 9 || tag == 0xB) {
                match (count2, size2) {
                    (Some(c), Some(s)) => if c > PRESCAN_MAX_COUNT || s > PRESCAN_MAX_SIZE
                        || total + c * s > PRESCAN_MAX_TOTAL_BITS {
                        false
                    } else {
                        spec_prescan_from(b, pos + 1 + data_len, count2, size2, total + c * s)
                    },
                    _ => spec_prescan_from(b, pos + 1 + data_len, count2, size2, total),
                }
            } else {
                spec_prescan_from(b, pos + 1 + data_len, count2, size2, total)
            }
        }
    }
}

/// Whether a descriptor's declared report geometry is within the caps.
pub open spec fn spec_descriptor_prescan_ok(b: Seq<u8>) -> bool {
    spec_prescan_from(b, 0, None, None, 0)
}

fn item_value(b: &[u8], pos: usize, n: usize) -> (r: u32)
    requires n <= 4, pos + n <= b@.len(),
    ensures r == spec_item_value(b@, pos as int, n as int),
{
    let mut v: u32 = 0;
    if n >= 1 {
        v = v + (b[pos] as u32);
    }
    if n >= 2 {
        v = v + 256 * (b[pos + 1] as u32);
    }
    if n >= 3 {
        v = v + 65536 * (b[pos + 2] as u32);
    }
    if n >= 4 {
        v = v + 16777216 * (b[pos + 3] as u32);
    }
    v
}

/// Checks a descriptor's declared report geometry against the caps.
pub fn descriptor_prescan(bytes: &[u8]) -> (r: bool)
    ensures r == spec_descriptor_prescan_ok(bytes@),
{
    let n = bytes.len();
    let mut pos: usize = 0;
    let mut count: Option<u32> = None;
    let mut size: Option<u32> = None;
    let mut total: u64 = 0;
    loop
        invariant
            0 <= pos <= n,
            n == bytes@.len(),
            total <= PRESCAN_MAX_TOTAL_BITS,
            spec_descriptor_prescan_ok(bytes@)
                == spec_prescan_from(bytes@, pos as int, count, size, total as int),
        decreases n - pos,
    {
        if pos >= n {
            return true;
        }
        let header = bytes[pos];
        assert(header & 0x3 <= 3) by (bit_vector);
        let size_field = (header & 0x3) as usize;
        let data_len: usize = if size_field == 3 { 4 } else { size_field };
        let item_type = (header >> 2) & 0x3;
        let tag = header >> 4;
        if size_field == 2 && tag == 0xF && item_type == 3 {
            if n - pos < 3 {
                return true;
            }
            let ldata = bytes[pos + 1] as usize;
            if ldata > n - pos - 3 {
                return true;
            }
            pos = pos + 3 + ldata;
            continue;
        }
        if data_len > n - pos - 1 {
            return true;
        }
        if item_type == 1 && tag == 9 {
            count = Some(item_value(bytes, pos + 1, data_len));
        }
        if item_type == 1 && tag == 7 {
            size = Some(item_value(bytes, pos + 1, data_len));
        }
        if item_type == 0 && (tag == 8 || tag == 9 || tag == 0xB) {
            match (count, size) {
                (Some(c), Some(s)) => {
                    if c > PRESCAN_MAX_COUNT || s > PRESCAN_MAX_SIZE {
                        return false;
                    }
                    assert((c as u64) * (s as u64) <= 0x1000000) by (nonlinear_arith)
                        requires c <= 0x1000u32, s <= 0x1000u32,
                    {
                    }
                    let product: u64 = (c as u64) * (s as u64);
                    if total + product > PRESCAN_MAX_TOTAL_BITS {
                        return false;
                    }
                    total = total + product;
                },
                _ => {},
            }
        }
        pos = pos + 1 + data_len;
    }
}

/// Relies on hidparser::parse_report_descriptor: parses raw descriptor
/// bytes; any parse error is reported as `None`. The pre-scan bound is
/// required because the parser's report assembly multiplies the declared
/// report count and size, accumulates bit positions in unguarded 32-bit
/// arithmetic, and allocates one field per declared count; the bound keeps
/// that assembly in range.
#[verifier::external_body]
fn parse_descriptor(bytes: &[u8]) -> Option<hidparser::ReportDescriptor>
    requires spec_descriptor_prescan_ok(bytes@),
{
    hidparser::parse_report_descriptor(bytes).ok()
}

/// Relies on the public report vectors of hidparser::ReportDescriptor:
/// the counts of input, output and feature reports.
#[verifier::external_body]
fn report_counts(d: &hidparser::ReportDescriptor) -> (usize, usize, usize) {
    (d.input_reports.len(), d.output_reports.len(), d.features.len())
}

/// Relies on hidparser::ReportDescriptor::input_reports: the i-th input
/// report, if any.
#[verifier::external_body]
fn input_report_at<'a>(d: &'a hidparser::ReportDescriptor, i: usize) -> Option<&'a hidparser::Report> {
    d.input_reports.get(i)
}

/// Relies on hidparser::ReportDescriptor::output_reports: the i-th output
/// report, if any.
#[verifier::external_body]
fn output_report_at<'a>(d: &'a hidparser::ReportDescriptor, i: usize) -> Option<&'a hidparser::Report> {
    d.output_reports.get(i)
}

/// Relies on the public fields of hidparser::Report: the report id, the
/// size in bits, and the field count.
#[verifier::external_body]
fn report_meta(r: &hidparser::Report) -> (Option<u32>, usize, usize) {
    (r.report_id.map(u32::from), r.size_in_bits, r.fields.len())
}

/// Relies on hidparser::Report::fields and the ReportField variants: the
/// j-th field, classified and detached.
#[verifier::external_body]
fn report_field_at(r: &hidparser::Report, j: usize) -> Option<HpField> {
    match r.fields.get(j) {
        Some(hidparser::ReportField::Variable(f)) => Some(HpField::Var(f.clone())),
        Some(hidparser::ReportField::Array(f)) => Some(HpField::Arr(f.clone())),
        Some(hidparser::ReportField::Padding(_)) => Some(HpField::Pad),
        None => None,
    }
}

/// Relies on the public fields of hidparser::VariableField: its usage, bit
/// window, logical bounds and relative attribute, as plain values.
#[verifier::external_body]
fn variable_field_info(f: &hidparser::VariableField) -> VariableFieldDef {
    VariableFieldDef {
        usage: u32::from(f.usage),
        bit_start: f.bits.start,
        bit_end: f.bits.end,
        logical_min: i32::from(f.logical_minimum),
        logical_max: i32::from(f.logical_maximum),
        relative: f.attributes.relative,
    }
}

/// Relies on the public fields of hidparser::ArrayField: its bit window,
/// logical bounds and usage-range count, as plain values.
#[verifier::external_body]
fn array_field_meta(f: &hidparser::ArrayField) -> (u32, u32, i32, i32, usize) {
    (
        f.bits.start,
        f.bits.end,
        i32::from(f.logical_minimum),
        i32::from(f.logical_maximum),
        f.usage_list.len(),
    )
}

/// Relies on hidparser::ArrayField::usage_list and UsageRange: the k-th
/// usage range as a pair of bounds.
#[verifier::external_body]
fn array_usage_range_at(f: &hidparser::ArrayField, k: usize) -> Option<(u32, u32)> {
    f.usage_list.get(k).map(|r| (r.start(), r.end()))
}

fn convert_report(r: &hidparser::Report) -> ReportInfo {
    let (report_id, size_in_bits, n_fields) = report_meta(r);
    let mut fields: Vec<FieldDef> = Vec::new();
    let mut j: usize = 0;
    while j < n_fields
        decreases n_fields - j,
    {
        match report_field_at(r, j) {
            Some(HpField::Var(f)) => {
                fields.push(FieldDef::Variable(variable_field_info(&f)));
            },
            Some(HpField::Arr(f)) => {
                let (bit_start, bit_end, logical_min, logical_max, n_ranges) =
                    array_field_meta(&f);
                let mut usage_ranges: Vec<(u32, u32)> = Vec::new();
                let mut k: usize = 0;
                while k < n_ranges
                    decreases n_ranges - k,
                {
                    if let Some(pair) = array_usage_range_at(&f, k) {
                        usage_ranges.push(pair);
                    }
                    k = k + 1;
                }
                fields.push(FieldDef::Array(ArrayFieldDef {
                    bit_start, bit_end, logical_min, logical_max, usage_ranges,
                }));
            },
            Some(HpField::Pad) => {
                fields.push(FieldDef::Padding);
            },
            None => {},
        }
        j = j + 1;
    }
    ReportInfo { report_id, size_in_bits, fields }
}

/// Converts a parsed descriptor into the plain field model.
fn descriptor_info_of(d: &hidparser::ReportDescriptor) -> ReportDescriptorInfo {
    let (n_in, n_out, n_feat) = report_counts(d);
    let mut input_reports: Vec<ReportInfo> = Vec::new();
    let mut i: usize = 0;
    while i < n_in
        decreases n_in - i,
    {
        if let Some(r) = input_report_at(d, i) {
            input_reports.push(convert_report(r));
        }
        i = i + 1;
    }
    let mut output_reports: Vec<ReportInfo> = Vec::new();
    let mut j: usize = 0;
    while j < n_out
        decreases n_out - j,
    {
        if let Some(r) = output_report_at(d, j) {
            output_reports.push(convert_report(r));
        }
        j = j + 1;
    }
    ReportDescriptorInfo { input_reports, output_reports, feature_report_count: n_feat }
}

/// Parses raw descriptor bytes and reduces the result to the plain field
/// model. `None` when the pre-scan rejects the declared report geometry or
/// the parser rejects the bytes.
pub fn descriptor_info_from_bytes(bytes: &[u8]) -> (r: Option<ReportDescriptorInfo>)
    ensures !spec_descriptor_prescan_ok(bytes@) ==> r is None,
{
    if !descriptor_prescan(bytes) {
        return None;
    }
    match parse_descriptor(bytes) {
        None => None,
        Some(d) => Some(descriptor_info_of(&d)),
    }
}

} // verus!
