//! The keyboard handler: report-descriptor ingestion for keyboard usages,
//! per-report diffing into up/down events, LED output-report synthesis, and
//! registered-callback bookkeeping.

use vstd::prelude::*;
use crate::status::EfiStatus;
use crate::fields::{
    VariableFieldDef, ArrayFieldDef, ArrayFieldView, FieldDef, FieldView,
    ReportInfo, ReportInfoView, ReportDescriptorInfo, DescriptorView,
    spec_field_value, field_value, spec_array_field_usage, array_field_usage,
    set_field_value,
};
use crate::keys::{
    KEYBOARD_MODIFIER_USAGE_MIN, KEYBOARD_MODIFIER_USAGE_MAX,
    KEYBOARD_USAGE_MIN, KEYBOARD_USAGE_MAX, LED_USAGE_MIN, LED_USAGE_MAX,
};
use crate::keydata::{InputKey, KeyState, KeyData, OrdKeyData, spec_matches_registered_key};
use crate::key_queue::{
    KeyQueue, KeyAction, QView, spec_keystroke, spec_active_leds, spec_key_state,
    spec_retain_led_mods, spec_toggle_mods,
};
use crate::keys::{
    LEFT_CONTROL_PRESSED, RIGHT_CONTROL_PRESSED, KEY_STATE_EXPOSED,
};

verus! {

/// An input report of interest: its id, its body size in bytes, and the
/// modifier and key-array fields it carries.
#[derive(Clone, Debug, PartialEq, Eq)]
pub struct KeyboardReportData {
    pub report_id: Option<u32>,
    pub report_size: usize,
    pub variable_fields: Vec<VariableFieldDef>,
    pub array_fields: Vec<ArrayFieldDef>,
}

/// Spec-level value of an input report of interest.
pub ghost struct KbReportView {
    pub report_id: Option<u32>,
    pub report_size: int,
    pub var_fields: Seq<VariableFieldDef>,
    pub arr_fields: Seq<ArrayFieldView>,
}

impl View for KeyboardReportData {
    type V = KbReportView;

    open spec fn view(&self) -> KbReportView {
        KbReportView {
            report_id: self.report_id,
            report_size: self.report_size as int,
            var_fields: self.variable_fields@,
            arr_fields: Seq::new(self.array_fields@.len(), |i: int| self.array_fields@[i]@),
        }
    }
}

/// An output report of interest: its id, its size, and its LED fields.
#[derive(Clone, Debug, PartialEq, Eq)]
pub struct KeyboardOutputReportBuilder {
    pub report_id: Option<u32>,
    pub report_size: usize,
    pub led_fields: Vec<VariableFieldDef>,
}

/// Spec-level value of an output report of interest.
pub ghost struct KbOutputView {
    pub report_id: Option<u32>,
    pub report_size: int,
    pub led_fields: Seq<VariableFieldDef>,
}

impl View for KeyboardOutputReportBuilder {
    type V = KbOutputView;

    open spec fn view(&self) -> KbOutputView {
        KbOutputView {
            report_id: self.report_id,
            report_size: self.report_size as int,
            led_fields: self.led_fields@,
        }
    }
}

// ---------------------------------------------------------------------------
// Descriptor ingestion
// ---------------------------------------------------------------------------

/// Whether an array field's usage ranges reach into the keyboard page.
pub open spec fn spec_arr_relevant(ranges: Seq<(u32, u32)>) -> bool {
    exists|i: int| 0 <= i < ranges.len()
        && ((#[trigger] ranges[i]).0 <= KEYBOARD_USAGE_MIN <= ranges[i].1
            || ranges[i].0 <= KEYBOARD_USAGE_MAX <= ranges[i].1)
}

/// The modifier fields kept from a report's field list.
pub open spec fn spec_kb_var_fields(fs: Seq<FieldView>) -> Seq<VariableFieldDef>
    decreases fs.len(),
{
    if fs.len() == 0 {
        Seq::empty()
    } else {
        (match fs[0] {
            FieldView::Variable(f) => if KEYBOARD_MODIFIER_USAGE_MIN <= f.usage
                && f.usage <= KEYBOARD_MODIFIER_USAGE_MAX {
                seq![f]
            } else {
                Seq::empty()
            },
            _ => Seq::empty(),
        }) + spec_kb_var_fields(fs.drop_first())
    }
}

/// The key-array fields kept from a report's field list.
pub open spec fn spec_kb_arr_fields(fs: Seq<FieldView>) -> Seq<ArrayFieldView>
    decreases fs.len(),
{
    if fs.len() == 0 {
        Seq::empty()
    } else {
        (match fs[0] {
            FieldView::Array(f) => if spec_arr_relevant(f.usage_ranges) {
                seq![f]
            } else {
                Seq::empty()
            },
            _ => Seq::empty(),
        }) + spec_kb_arr_fields(fs.drop_first())
    }
}

/// The LED fields kept from an output report's field list.
pub open spec fn spec_led_fields(fs: Seq<FieldView>) -> Seq<VariableFieldDef>
    decreases fs.len(),
{
    if fs.len() == 0 {
        Seq::empty()
    } else {
        (match fs[0] {
            FieldView::Variable(f) => if LED_USAGE_MIN <= f.usage && f.usage <= LED_USAGE_MAX {
                seq![f]
            } else {
                Seq::empty()
            },
            _ => Seq::empty(),
        }) + spec_led_fields(fs.drop_first())
    }
}

/// The input report of interest built from one parsed report: the body size
/// is the bit size rounded up to whole bytes.
pub open spec fn spec_kb_report_of(r: ReportInfoView) -> KbReportView {
    KbReportView {
        report_id: r.report_id,
        report_size: (r.size_in_bits + 7) / 8,
        var_fields: spec_kb_var_fields(r.fields),
        arr_fields: spec_kb_arr_fields(r.fields),
    }
}

/// The output builder built from one parsed report.
pub open spec fn spec_kb_output_of(r: ReportInfoView) -> KbOutputView {
    KbOutputView {
        report_id: r.report_id,
        report_size: (r.size_in_bits + 7) / 8,
        led_fields: spec_led_fields(r.fields),
    }
}

/// Whether the descriptor declares several reports anywhere.
pub open spec fn spec_multiple_reports(d: DescriptorView) -> bool {
    d.input_reports.len() > 1 || d.output_reports.len() > 1 || d.feature_report_count > 1
}

/// A descriptor is rejected with a device error when several reports exist
/// and some input or output report carries no id.
pub open spec fn spec_kb_id_conflict(d: DescriptorView) -> bool {
    spec_multiple_reports(d) && (
        (exists|i: int| 0 <= i < d.input_reports.len()
            && (#[trigger] d.input_reports[i]).report_id is None)
        || (exists|i: int| 0 <= i < d.output_reports.len()
            && (#[trigger] d.output_reports[i]).report_id is None))
}

/// The input reports of interest of a descriptor.
pub open spec fn spec_kb_inputs(rs: Seq<ReportInfoView>) -> Seq<KbReportView>
    decreases rs.len(),
{
    if rs.len() == 0 {
        Seq::empty()
    } else {
        let kb = spec_kb_report_of(rs[0]);
        (if kb.var_fields.len() > 0 || kb.arr_fields.len() > 0 {
            seq![kb]
        } else {
            Seq::empty()
        }) + spec_kb_inputs(rs.drop_first())
    }
}

/// The output builders of a descriptor.
pub open spec fn spec_kb_outputs(rs: Seq<ReportInfoView>) -> Seq<KbOutputView>
    decreases rs.len(),
{
    if rs.len() == 0 {
        Seq::empty()
    } else {
        let ob = spec_kb_output_of(rs[0]);
        (if ob.led_fields.len() > 0 {
            seq![ob]
        } else {
            Seq::empty()
        }) + spec_kb_outputs(rs.drop_first())
    }
}

/// The id-present flag after ingestion: the flag governs how inbound input
/// reports are framed, so it follows the input reports — the id-ness of the
/// last one, or the prior value when there are none. (When several reports
/// exist anywhere, ingestion has already required every report to carry an
/// id.)
pub open spec fn spec_kb_id_present(d: DescriptorView, prior: bool) -> bool {
    if d.input_reports.len() > 0 {
        d.input_reports.last().report_id is Some
    } else {
        prior
    }
}

fn arr_relevant(ranges: &Vec<(u32, u32)>) -> (r: bool)
    ensures r == spec_arr_relevant(ranges@),
{
    let n = ranges.len();
    let mut i: usize = 0;
    while i < n
        invariant
            0 <= i <= n,
            n == ranges@.len(),
            forall|j: int| 0 <= j < i ==> !((#[trigger] ranges@[j]).0 <= KEYBOARD_USAGE_MIN <= ranges@[j].1
                || ranges@[j].0 <= KEYBOARD_USAGE_MAX <= ranges@[j].1),
        decreases n - i,
    {
        let (lo, hi) = ranges[i];
        if (lo <= KEYBOARD_USAGE_MIN && KEYBOARD_USAGE_MIN <= hi)
            || (lo <= KEYBOARD_USAGE_MAX && KEYBOARD_USAGE_MAX <= hi) {
            return true;
        }
        i = i + 1;
    }
    false
}

fn copy_ranges(v: &Vec<(u32, u32)>) -> (r: Vec<(u32, u32)>)
    ensures r@ == v@,
{
    let n = v.len();
    let mut out: Vec<(u32, u32)> = Vec::new();
    let mut i: usize = 0;
    while i < n
        invariant
            0 <= i <= n,
            n == v@.len(),
            out@ == v@.subrange(0, i as int),
        decreases n - i,
    {
        out.push(v[i]);
        assert(out@ =~= v@.subrange(0, (i + 1) as int));
        i = i + 1;
    }
    assert(v@.subrange(0, n as int) =~= v@);
    out
}

fn kb_var_fields_from(fields: &Vec<FieldDef>, i: usize) -> (r: Vec<VariableFieldDef>)
    requires i <= fields@.len(),
    ensures r@ == spec_kb_var_fields(Seq::new(fields@.len(), |k: int| fields@[k]@).skip(i as int)),
    decreases fields@.len() - i,
{
    let ghost fv = Seq::new(fields@.len(), |k: int| fields@[k]@);
    if i == fields.len() {
        let r: Vec<VariableFieldDef> = Vec::new();
        assert(fv.skip(i as int) =~= Seq::<FieldView>::empty());
        return r;
    }
    proof {
        assert(fv.skip(i as int)[0] == fv[i as int]);
        assert(fv.skip(i as int).drop_first() =~= fv.skip(i as int + 1));
    }
    let mut rest = kb_var_fields_from(fields, i + 1);
    match &fields[i] {
        FieldDef::Variable(f) => {
            assert(fv[i as int] == FieldView::Variable(*f));
            if KEYBOARD_MODIFIER_USAGE_MIN <= f.usage && f.usage <= KEYBOARD_MODIFIER_USAGE_MAX {
                let ghost prev = rest@;
                rest.insert(0, *f);
                assert(rest@ =~= seq![*f] + prev);
            } else {
                assert(rest@ =~= spec_kb_var_fields(fv.skip(i as int)));
            }
        },
        FieldDef::Array(f) => {
            assert(fv[i as int] == FieldView::Array(f@));
            assert(rest@ =~= spec_kb_var_fields(fv.skip(i as int)));
        },
        FieldDef::Padding => {
            assert(fv[i as int] == FieldView::Padding);
            assert(rest@ =~= spec_kb_var_fields(fv.skip(i as int)));
        },
    }
    rest
}

fn led_fields_from(fields: &Vec<FieldDef>, i: usize) -> (r: Vec<VariableFieldDef>)
    requires i <= fields@.len(),
    ensures r@ == spec_led_fields(Seq::new(fields@.len(), |k: int| fields@[k]@).skip(i as int)),
    decreases fields@.len() - i,
{
    let ghost fv = Seq::new(fields@.len(), |k: int| fields@[k]@);
    if i == fields.len() {
        let r: Vec<VariableFieldDef> = Vec::new();
        assert(fv.skip(i as int) =~= Seq::<FieldView>::empty());
        return r;
    }
    proof {
        assert(fv.skip(i as int)[0] == fv[i as int]);
        assert(fv.skip(i as int).drop_first() =~= fv.skip(i as int + 1));
    }
    let mut rest = led_fields_from(fields, i + 1);
    match &fields[i] {
        FieldDef::Variable(f) => {
            assert(fv[i as int] == FieldView::Variable(*f));
            if LED_USAGE_MIN <= f.usage && f.usage <= LED_USAGE_MAX {
                let ghost prev = rest@;
                rest.insert(0, *f);
                assert(rest@ =~= seq![*f] + prev);
            } else {
                assert(rest@ =~= spec_led_fields(fv.skip(i as int)));
            }
        },
        FieldDef::Array(f) => {
            assert(fv[i as int] == FieldView::Array(f@));
            assert(rest@ =~= spec_led_fields(fv.skip(i as int)));
        },
        FieldDef::Padding => {
            assert(fv[i as int] == FieldView::Padding);
            assert(rest@ =~= spec_led_fields(fv.skip(i as int)));
        },
    }
    rest
}

/// Spec view of a run of exec array fields.
pub open spec fn spec_arrs_view(v: Seq<ArrayFieldDef>) -> Seq<ArrayFieldView> {
    Seq::new(v.len(), |i: int| v[i]@)
}

fn kb_arr_fields_from(fields: &Vec<FieldDef>, i: usize) -> (r: Vec<ArrayFieldDef>)
    requires i <= fields@.len(),
    ensures
        spec_arrs_view(r@)
            == spec_kb_arr_fields(Seq::new(fields@.len(), |k: int| fields@[k]@).skip(i as int)),
    decreases fields@.len() - i,
{
    let ghost fv = Seq::new(fields@.len(), |k: int| fields@[k]@);
    if i == fields.len() {
        let r: Vec<ArrayFieldDef> = Vec::new();
        assert(fv.skip(i as int) =~= Seq::<FieldView>::empty());
        assert(spec_arrs_view(r@) =~= spec_kb_arr_fields(fv.skip(i as int)));
        return r;
    }
    proof {
        assert(fv.skip(i as int)[0] == fv[i as int]);
        assert(fv.skip(i as int).drop_first() =~= fv.skip(i as int + 1));
    }
    let mut rest = kb_arr_fields_from(fields, i + 1);
    match &fields[i] {
        FieldDef::Variable(f) => {
            assert(fv[i as int] == FieldView::Variable(*f));
            assert(spec_arrs_view(rest@) =~= spec_kb_arr_fields(fv.skip(i as int)));
        },
        FieldDef::Array(f) => {
            assert(fv[i as int] == FieldView::Array(f@));
            if arr_relevant(&f.usage_ranges) {
                let copied = ArrayFieldDef {
                    bit_start: f.bit_start,
                    bit_end: f.bit_end,
                    logical_min: f.logical_min,
                    logical_max: f.logical_max,
                    usage_ranges: copy_ranges(&f.usage_ranges),
                };
                let ghost prev = rest@;
                assert(copied@ == f@);
                rest.insert(0, copied);
                assert(spec_arrs_view(rest@) =~= seq![f@] + spec_arrs_view(prev)) by {
                    assert forall|k: int| 0 <= k < rest@.len() implies
                        spec_arrs_view(rest@)[k] == (seq![f@] + spec_arrs_view(prev))[k] by {
                        if k > 0 {
                            assert(rest@[k] == prev[k - 1]);
                        }
                    }
                }
            } else {
                assert(spec_arrs_view(rest@) =~= spec_kb_arr_fields(fv.skip(i as int)));
            }
        },
        FieldDef::Padding => {
            assert(fv[i as int] == FieldView::Padding);
            assert(spec_arrs_view(rest@) =~= spec_kb_arr_fields(fv.skip(i as int)));
        },
    }
    rest
}

/// Spec views of runs of exec values.
pub open spec fn spec_kb_reports_view(v: Seq<KeyboardReportData>) -> Seq<KbReportView> {
    Seq::new(v.len(), |i: int| v[i]@)
}

pub open spec fn spec_kb_outputs_view(v: Seq<KeyboardOutputReportBuilder>) -> Seq<KbOutputView> {
    Seq::new(v.len(), |i: int| v[i]@)
}

pub open spec fn spec_reports_view(v: Seq<ReportInfo>) -> Seq<ReportInfoView> {
    Seq::new(v.len(), |i: int| v[i]@)
}

fn div_ceil8(n: usize) -> (r: usize)
    ensures r == (n + 7) / 8,
{
    let r = if n % 8 == 0 { n / 8 } else { n / 8 + 1 };
    assert(r == (n + 7) / 8) by (nonlinear_arith)
        requires
            n % 8 == 0 ==> r == n / 8,
            n % 8 != 0 ==> r == n / 8 + 1,
            n >= 0,
    {
    }
    r
}

fn kb_inputs_from(rs: &Vec<ReportInfo>, i: usize) -> (r: Vec<KeyboardReportData>)
    requires i <= rs@.len(),
    ensures
        spec_kb_reports_view(r@)
            == spec_kb_inputs(spec_reports_view(rs@).skip(i as int)),
    decreases rs@.len() - i,
{
    let ghost rv = spec_reports_view(rs@);
    if i == rs.len() {
        let r: Vec<KeyboardReportData> = Vec::new();
        assert(rv.skip(i as int) =~= Seq::<ReportInfoView>::empty());
        assert(spec_kb_reports_view(r@) =~= spec_kb_inputs(rv.skip(i as int)));
        return r;
    }
    proof {
        assert(rv.skip(i as int)[0] == rv[i as int]);
        assert(rv.skip(i as int).drop_first() =~= rv.skip(i as int + 1));
    }
    let mut rest = kb_inputs_from(rs, i + 1);
    let report = &rs[i];
    let variable_fields = kb_var_fields_from(&report.fields, 0);
    let array_fields = kb_arr_fields_from(&report.fields, 0);
    proof {
        let fv = Seq::new(report.fields@.len(), |k: int| report.fields@[k]@);
        assert(fv.skip(0) =~= fv);
        assert(fv =~= rv[i as int].fields);
    }
    if variable_fields.len() > 0 || array_fields.len() > 0 {
        let kb = KeyboardReportData {
            report_id: report.report_id,
            report_size: div_ceil8(report.size_in_bits),
            variable_fields,
            array_fields,
        };
        assert(kb@ == spec_kb_report_of(rv[i as int]));
        let ghost prev = rest@;
        rest.insert(0, kb);
        assert(spec_kb_reports_view(rest@) =~= seq![kb@] + spec_kb_reports_view(prev)) by {
            assert forall|k: int| 0 <= k < rest@.len() implies
                spec_kb_reports_view(rest@)[k]
                    == (seq![kb@] + spec_kb_reports_view(prev))[k] by {
                if k > 0 {
                    assert(rest@[k] == prev[k - 1]);
                    assert(spec_kb_reports_view(prev)[k - 1] == prev[k - 1]@);
                }
            }
        }
    } else {
        assert(spec_kb_report_of(rv[i as int]).var_fields.len() == 0);
        assert(spec_kb_report_of(rv[i as int]).arr_fields.len() == 0);
        assert(spec_kb_reports_view(rest@) =~= spec_kb_inputs(rv.skip(i as int)));
    }
    rest
}

fn kb_outputs_from(rs: &Vec<ReportInfo>, i: usize) -> (r: Vec<KeyboardOutputReportBuilder>)
    requires i <= rs@.len(),
    ensures
        spec_kb_outputs_view(r@)
            == spec_kb_outputs(spec_reports_view(rs@).skip(i as int)),
    decreases rs@.len() - i,
{
    let ghost rv = spec_reports_view(rs@);
    if i == rs.len() {
        let r: Vec<KeyboardOutputReportBuilder> = Vec::new();
        assert(rv.skip(i as int) =~= Seq::<ReportInfoView>::empty());
        assert(spec_kb_outputs_view(r@) =~= spec_kb_outputs(rv.skip(i as int)));
        return r;
    }
    proof {
        assert(rv.skip(i as int)[0] == rv[i as int]);
        assert(rv.skip(i as int).drop_first() =~= rv.skip(i as int + 1));
    }
    let mut rest = kb_outputs_from(rs, i + 1);
    let report = &rs[i];
    let led_fields = led_fields_from(&report.fields, 0);
    proof {
        let fv = Seq::new(report.fields@.len(), |k: int| report.fields@[k]@);
        assert(fv.skip(0) =~= fv);
        assert(fv =~= rv[i as int].fields);
    }
    if led_fields.len() > 0 {
        let ob = KeyboardOutputReportBuilder {
            report_id: report.report_id,
            report_size: div_ceil8(report.size_in_bits),
            led_fields,
        };
        assert(ob@ == spec_kb_output_of(rv[i as int]));
        let ghost prev = rest@;
        rest.insert(0, ob);
        assert(spec_kb_outputs_view(rest@) =~= seq![ob@] + spec_kb_outputs_view(prev)) by {
            assert forall|k: int| 0 <= k < rest@.len() implies
                spec_kb_outputs_view(rest@)[k]
                    == (seq![ob@] + spec_kb_outputs_view(prev))[k] by {
                if k > 0 {
                    assert(rest@[k] == prev[k - 1]);
                    assert(spec_kb_outputs_view(prev)[k - 1] == prev[k - 1]@);
                }
            }
        }
    } else {
        assert(spec_kb_output_of(rv[i as int]).led_fields.len() == 0);
        assert(spec_kb_outputs_view(rest@) =~= spec_kb_outputs(rv.skip(i as int)));
    }
    rest
}

fn has_no_id_report(rs: &Vec<ReportInfo>) -> (r: bool)
    ensures
        r == exists|i: int| 0 <= i < rs@.len()
            && (#[trigger] spec_reports_view(rs@)[i]).report_id is None,
{
    let ghost rv = spec_reports_view(rs@);
    let n = rs.len();
    let mut i: usize = 0;
    while i < n
        invariant
            0 <= i <= n,
            n == rs@.len(),
            rv == spec_reports_view(rs@),
            forall|j: int| 0 <= j < i ==> (#[trigger] rv[j]).report_id is Some,
        decreases n - i,
    {
        if rs[i].report_id.is_none() {
            assert(rv[i as int].report_id is None);
            return true;
        }
        i = i + 1;
    }
    false
}

// ---------------------------------------------------------------------------
// Report processing model
// ---------------------------------------------------------------------------

/// Inserts a usage into an ordered duplicate-free usage sequence.
pub open spec fn spec_sorted_insert(s: Seq<u32>, u: u32) -> Seq<u32>
    decreases s.len(),
{
    if s.len() == 0 {
        seq![u]
    } else if s[0] == u {
        s
    } else if s[0] > u {
        seq![u] + s
    } else {
        seq![s[0]] + spec_sorted_insert(s.drop_first(), u)
    }
}

fn sorted_insert_from(v: &Vec<u32>, i: usize, u: u32) -> (r: Vec<u32>)
    requires i <= v@.len(),
    ensures r@ == spec_sorted_insert(v@.skip(i as int), u),
    decreases v@.len() - i,
{
    if i == v.len() {
        let mut r: Vec<u32> = Vec::new();
        r.push(u);
        assert(v@.skip(i as int) =~= Seq::<u32>::empty());
        assert(r@ =~= seq![u]);
        return r;
    }
    proof {
        assert(v@.skip(i as int)[0] == v@[i as int]);
        assert(v@.skip(i as int).drop_first() =~= v@.skip(i as int + 1));
    }
    let head = v[i];
    if head == u {
        let r = copy_u32_vec_from(v, i);
        return r;
    }
    if head > u {
        let mut r = copy_u32_vec_from(v, i);
        let ghost prev = r@;
        r.insert(0, u);
        assert(r@ =~= seq![u] + prev);
        return r;
    }
    let mut rest = sorted_insert_from(v, i + 1, u);
    let ghost prev = rest@;
    rest.insert(0, head);
    assert(rest@ =~= seq![head] + prev);
    rest
}

fn copy_u32_vec_from(v: &Vec<u32>, i: usize) -> (r: Vec<u32>)
    requires i <= v@.len(),
    ensures r@ == v@.skip(i as int),
{
    let n = v.len();
    let mut out: Vec<u32> = Vec::new();
    let mut j: usize = i;
    while j < n
        invariant
            i <= j <= n,
            n == v@.len(),
            out@ == v@.subrange(i as int, j as int),
        decreases n - j,
    {
        out.push(v[j]);
        assert(out@ =~= v@.subrange(i as int, (j + 1) as int));
        j = j + 1;
    }
    assert(v@.subrange(i as int, n as int) =~= v@.skip(i as int));
    out
}

pub fn sorted_insert(v: &mut Vec<u32>, u: u32)
    ensures final(v)@ == spec_sorted_insert(old(v)@, u),
{
    let r = sorted_insert_from(v, 0, u);
    proof {
        assert(v@.skip(0) =~= v@);
    }
    *v = r;
}

/// The usages contributed by the modifier fields: each field whose value
/// reads non-zero contributes its usage.
pub open spec fn spec_apply_var_fields(acc: Seq<u32>, fs: Seq<VariableFieldDef>, b: Seq<u8>)
    -> Seq<u32>
    decreases fs.len(),
{
    if fs.len() == 0 {
        acc
    } else {
        let f = fs[0];
        let acc2 = match spec_field_value(b, f.bit_start as int, f.bit_end as int,
            f.logical_min, f.logical_max) {
            Some(x) => if x != 0 { spec_sorted_insert(acc, f.usage) } else { acc },
            None => acc,
        };
        spec_apply_var_fields(acc2, fs.drop_first(), b)
    }
}

/// The usages contributed by the key-array fields.
pub open spec fn spec_apply_arr_fields(acc: Seq<u32>, fs: Seq<ArrayFieldView>, b: Seq<u8>)
    -> Seq<u32>
    decreases fs.len(),
{
    if fs.len() == 0 {
        acc
    } else {
        let acc2 = match spec_array_field_usage(fs[0], b) {
            Some(u) => spec_sorted_insert(acc, u),
            None => acc,
        };
        spec_apply_arr_fields(acc2, fs.drop_first(), b)
    }
}

/// The set of usages pressed in a report body, as an ordered sequence.
pub open spec fn spec_current_usages(rv: KbReportView, b: Seq<u8>) -> Seq<u32> {
    spec_apply_arr_fields(
        spec_apply_var_fields(Seq::empty(), rv.var_fields, b),
        rv.arr_fields,
        b,
    )
}

fn current_usages_of(rd: &KeyboardReportData, b: &[u8]) -> (r: Vec<u32>)
    ensures r@ == spec_current_usages(rd@, b@),
{
    let mut acc: Vec<u32> = Vec::new();
    let nv = rd.variable_fields.len();
    proof {
        assert(rd.variable_fields@.skip(0) =~= rd.variable_fields@);
    }
    let mut i: usize = 0;
    while i < nv
        invariant
            0 <= i <= nv,
            nv == rd.variable_fields@.len(),
            spec_apply_var_fields(acc@, rd.variable_fields@.skip(i as int), b@)
                == spec_apply_var_fields(Seq::empty(), rd.variable_fields@, b@),
        decreases nv - i,
    {
        proof {
            assert(rd.variable_fields@.skip(i as int)[0] == rd.variable_fields@[i as int]);
            assert(rd.variable_fields@.skip(i as int).drop_first()
                =~= rd.variable_fields@.skip(i as int + 1));
        }
        let f = rd.variable_fields[i];
        match field_value(b, f.bit_start, f.bit_end, f.logical_min, f.logical_max) {
            Some(x) => {
                if x != 0 {
                    sorted_insert(&mut acc, f.usage);
                }
            },
            None => {},
        }
        i = i + 1;
    }
    proof {
        assert(rd.variable_fields@.skip(nv as int) =~= Seq::<VariableFieldDef>::empty());
        assert(rd.variable_fields@.skip(0) =~= rd.variable_fields@);
    }
    let ghost after_var = acc@;
    let na = rd.array_fields.len();
    let ghost arrs = Seq::new(rd.array_fields@.len(), |k: int| rd.array_fields@[k]@);
    proof {
        assert(arrs.skip(0) =~= arrs);
    }
    let mut j: usize = 0;
    while j < na
        invariant
            0 <= j <= na,
            na == rd.array_fields@.len(),
            arrs == Seq::new(rd.array_fields@.len(), |k: int| rd.array_fields@[k]@),
            spec_apply_arr_fields(acc@, arrs.skip(j as int), b@)
                == spec_apply_arr_fields(after_var, arrs, b@),
        decreases na - j,
    {
        proof {
            assert(arrs.skip(j as int)[0] == arrs[j as int]);
            assert(arrs.skip(j as int).drop_first() =~= arrs.skip(j as int + 1));
        }
        match array_field_usage(&rd.array_fields[j], b) {
            Some(u) => {
                sorted_insert(&mut acc, u);
            },
            None => {},
        }
        j = j + 1;
    }
    proof {
        assert(arrs.skip(na as int) =~= Seq::<ArrayFieldView>::empty());
        assert(arrs.skip(0) =~= arrs);
    }
    acc
}

/// The elements of `a` that are not in `c`, in descending order (`a` is
/// ascending).
pub open spec fn spec_diff_desc(a: Seq<u32>, c: Seq<u32>) -> Seq<u32>
    decreases a.len(),
{
    if a.len() == 0 {
        Seq::empty()
    } else if !c.contains(a.last()) {
        seq![a.last()] + spec_diff_desc(a.drop_last(), c)
    } else {
        spec_diff_desc(a.drop_last(), c)
    }
}

fn u32_contains(v: &Vec<u32>, u: u32) -> (r: bool)
    ensures r == v@.contains(u),
{
    let n = v.len();
    let mut i: usize = 0;
    while i < n
        invariant
            0 <= i <= n,
            n == v@.len(),
            forall|j: int| 0 <= j < i ==> v@[j] != u,
        decreases n - i,
    {
        if v[i] == u {
            return true;
        }
        i = i + 1;
    }
    assert(!v@.contains(u));
    false
}

fn diff_desc(a: &Vec<u32>, c: &Vec<u32>) -> (r: Vec<u32>)
    ensures r@ == spec_diff_desc(a@, c@),
{
    let mut out: Vec<u32> = Vec::new();
    let mut i: usize = a.len();
    proof {
        assert(a@.take(a@.len() as int) =~= a@);
        assert(spec_diff_desc(a@, c@).subrange(0, 0) =~= Seq::<u32>::empty());
    }
    while i > 0
        invariant
            0 <= i <= a@.len(),
            out@ == spec_diff_desc(a@, c@).subrange(
                0,
                spec_diff_desc(a@, c@).len() - spec_diff_desc(a@.take(i as int), c@).len()),
            spec_diff_desc(a@.take(i as int), c@).len() <= spec_diff_desc(a@, c@).len(),
            spec_diff_desc(a@, c@)
                == out@ + spec_diff_desc(a@.take(i as int), c@),
        decreases i,
    {
        i = i - 1;
        proof {
            assert(a@.take(i as int + 1).last() == a@[i as int]);
            assert(a@.take(i as int + 1).drop_last() =~= a@.take(i as int));
        }
        if !u32_contains(c, a[i]) {
            let ghost prev = out@;
            out.push(a[i]);
            proof {
                assert(spec_diff_desc(a@.take(i as int + 1), c@)
                    == seq![a@[i as int]] + spec_diff_desc(a@.take(i as int), c@));
                assert(out@ =~= prev.push(a@[i as int]));
                assert(out@ + spec_diff_desc(a@.take(i as int), c@)
                    =~= prev + spec_diff_desc(a@.take(i as int + 1), c@));
                assert(out@ =~= spec_diff_desc(a@, c@).subrange(
                    0,
                    spec_diff_desc(a@, c@).len()
                        - spec_diff_desc(a@.take(i as int), c@).len()));
            }
        } else {
            proof {
                assert(spec_diff_desc(a@.take(i as int + 1), c@)
                    == spec_diff_desc(a@.take(i as int), c@));
            }
        }
    }
    proof {
        assert(a@.take(0) =~= Seq::<u32>::empty());
        assert(spec_diff_desc(Seq::<u32>::empty(), c@) =~= Seq::<u32>::empty());
        assert(out@ =~= spec_diff_desc(a@, c@));
    }
    out
}

/// Folds a run of keystrokes with one action into the queue, stopping at the
/// first stroke that demands a reset.
pub open spec fn spec_fold_strokes(q: QView, us: Seq<u32>, action: KeyAction) -> (QView, bool)
    decreases us.len(),
{
    if us.len() == 0 {
        (q, false)
    } else {
        let (q1, r) = spec_keystroke(q, us[0], action);
        if r {
            (q1, true)
        } else {
            spec_fold_strokes(q1, us.drop_first(), action)
        }
    }
}

fn apply_strokes(q: &mut KeyQueue, us: &Vec<u32>, action: KeyAction) -> (reset: bool)
    ensures
        final(q)@ == spec_fold_strokes(old(q)@, us@, action).0,
        reset == spec_fold_strokes(old(q)@, us@, action).1,
{
    let n = us.len();
    proof {
        assert(us@.skip(0) =~= us@);
    }
    let mut i: usize = 0;
    while i < n
        invariant
            0 <= i <= n,
            n == us@.len(),
            spec_fold_strokes(old(q)@, us@, action)
                == spec_fold_strokes(q@, us@.skip(i as int), action),
        decreases n - i,
    {
        proof {
            assert(us@.skip(i as int)[0] == us@[i as int]);
            assert(us@.skip(i as int).drop_first() =~= us@.skip(i as int + 1));
        }
        let r = q.keystroke(us[i], action);
        if r {
            return true;
        }
        i = i + 1;
    }
    proof {
        assert(us@.skip(n as int) =~= Seq::<u32>::empty());
    }
    false
}

/// Releases then presses, stopping at a demanded reset.
pub open spec fn spec_apply_diff(q: QView, rel: Seq<u32>, prs: Seq<u32>) -> (QView, bool) {
    let (q1, r1) = spec_fold_strokes(q, rel, KeyAction::KeyUp);
    if r1 {
        (q1, true)
    } else {
        spec_fold_strokes(q1, prs, KeyAction::KeyDown)
    }
}

/// Set equality of two usage sequences.
pub open spec fn spec_set_eq(a: Seq<u32>, c: Seq<u32>) -> bool {
    (forall|i: int| 0 <= i < a.len() ==> c.contains(#[trigger] a[i]))
        && (forall|i: int| 0 <= i < c.len() ==> a.contains(#[trigger] c[i]))
}

fn u32_set_eq(a: &Vec<u32>, c: &Vec<u32>) -> (r: bool)
    ensures r == spec_set_eq(a@, c@),
{
    let na = a.len();
    let mut i: usize = 0;
    while i < na
        invariant
            0 <= i <= na,
            na == a@.len(),
            forall|j: int| 0 <= j < i ==> c@.contains(#[trigger] a@[j]),
        decreases na - i,
    {
        if !u32_contains(c, a[i]) {
            return false;
        }
        i = i + 1;
    }
    let nc = c.len();
    let mut j: usize = 0;
    while j < nc
        invariant
            0 <= j <= nc,
            nc == c@.len(),
            forall|k: int| 0 <= k < j ==> a@.contains(#[trigger] c@[k]),
        decreases nc - j,
    {
        if !u32_contains(a, c[j]) {
            return false;
        }
        j = j + 1;
    }
    true
}

/// First report of interest with the given id.
pub open spec fn spec_lookup_report(rs: Seq<KbReportView>, id: Option<u32>)
    -> Option<KbReportView>
    decreases rs.len(),
{
    if rs.len() == 0 {
        None
    } else if rs[0].report_id == id {
        Some(rs[0])
    } else {
        spec_lookup_report(rs.drop_first(), id)
    }
}

// ---------------------------------------------------------------------------
// The keyboard handler
// ---------------------------------------------------------------------------

/// One registered key-notification: its handle, its pattern, and an opaque
/// token naming the callback the embedder dispatches to.
#[derive(Clone, Copy, Debug, PartialEq, Eq, Structural)]
pub struct NotifyRegistration {
    pub handle: usize,
    pub pattern: KeyData,
    pub callback: usize,
}

/// Spec-level state of the keyboard handler.
#[verifier::ext_equal]
pub ghost struct KbView {
    pub input_reports: Seq<KbReportView>,
    pub output_builders: Seq<KbOutputView>,
    pub report_id_present: bool,
    pub last: Seq<u32>,
    pub leds: Seq<u32>,
    pub q: QView,
    pub callbacks: Seq<NotifyRegistration>,
    pub next_handle: usize,
    pub agent: usize,
    pub controller: Option<usize>,
}

/// One inbound report's effect on the handler: the new state, whether a warm
/// reset is demanded, and whether the LED set changed (and to what).
pub open spec fn spec_kb_receive(h: KbView, b: Seq<u8>) -> (KbView, bool, bool) {
    if b.len() == 0 {
        (h, false, false)
    } else {
        let id: Option<u32> = if h.report_id_present { Some(b[0] as u32) } else { None };
        let body = if h.report_id_present { b.drop_first() } else { b };
        if body.len() == 0 {
            (h, false, false)
        } else {
            match spec_lookup_report(h.input_reports, id) {
                None => (h, false, false),
                Some(rv) => if body.len() != rv.report_size {
                    (h, false, false)
                } else {
                    let current = spec_current_usages(rv, body);
                    if current == h.last {
                        (h, false, false)
                    } else {
                        let rel = spec_diff_desc(h.last, current);
                        let prs = spec_diff_desc(current, h.last);
                        let (q2, rst) = spec_apply_diff(h.q, rel, prs);
                        if rst {
                            (KbView { q: q2, ..h }, true, false)
                        } else {
                            let new_leds = spec_active_leds(q2.mods);
                            let changed = !spec_set_eq(new_leds, h.leds);
                            (KbView {
                                q: q2,
                                last: current,
                                leds: if changed { new_leds } else { h.leds },
                                ..h
                            }, false, changed)
                        }
                    }
                },
            }
        }
    }
}

/// The value written into one LED field: one when its usage is lit.
pub open spec fn spec_led_value(leds: Seq<u32>, usage: u32) -> i64 {
    if leds.contains(usage) { 1 } else { 0 }
}

/// A zero-filled report body.
pub open spec fn spec_zero_bytes(n: int) -> Seq<u8> {
    Seq::new(n as nat, |i: int| 0u8)
}

/// One LED field applied to a report body: its bit window receives the lit
/// value, under exactly the conditions a field write succeeds; the body is
/// untouched otherwise.
pub open spec fn spec_led_apply(b: Seq<u8>, f: VariableFieldDef, leds: Seq<u32>) -> Seq<u8> {
    let data = spec_led_value(leds, f.usage);
    if f.logical_min as i64 <= data <= f.logical_max as i64
        && 0 < f.bit_end - f.bit_start <= 32
        && f.bit_start < f.bit_end
        && (f.bit_end as int + 7) / 8 <= b.len() {
        crate::fields::spec_set_field(
            b, f.bit_start as int, f.bit_end - f.bit_start, (data as u64) & 0xFFFFFFFF, 0)
    } else {
        b
    }
}

/// A run of LED fields applied in order.
pub open spec fn spec_led_fold(b: Seq<u8>, fs: Seq<VariableFieldDef>, leds: Seq<u32>) -> Seq<u8>
    decreases fs.len(),
{
    if fs.len() == 0 {
        b
    } else {
        spec_led_fold(spec_led_apply(b, fs[0], leds), fs.drop_first(), leds)
    }
}

/// The LED output report body one builder produces under a lit set: a
/// zero-filled body with each LED field's bit following membership.
pub open spec fn spec_led_buffer(ob: KbOutputView, leds: Seq<u32>) -> Seq<u8> {
    spec_led_fold(spec_zero_bytes(ob.report_size), ob.led_fields, leds)
}

/// The returned LED reports follow the builders and the lit set: one report
/// per builder, carrying its id and its LED buffer.
pub open spec fn spec_led_reports_match(
    r: Seq<(Option<u32>, Vec<u8>)>, builders: Seq<KbOutputView>, leds: Seq<u32>,
) -> bool {
    &&& r.len() == builders.len()
    &&& forall|i: int| 0 <= i < r.len()
        ==> (#[trigger] r[i]).0 == builders[i].report_id
            && r[i].1@ == spec_led_buffer(builders[i], leds)
}

/// Keyboard HID handler: translates inbound reports into decoded key events
/// and LED output reports.
pub struct KeyboardHidHandler {
    agent: usize,
    controller: Option<usize>,
    input_reports: Vec<KeyboardReportData>,
    output_builders: Vec<KeyboardOutputReportBuilder>,
    report_id_present: bool,
    last_keys: Vec<u32>,
    led_state: Vec<u32>,
    key_queue: KeyQueue,
    notification_callbacks: Vec<NotifyRegistration>,
    next_notify_handle: usize,
}

impl View for KeyboardHidHandler {
    type V = KbView;

    closed spec fn view(&self) -> KbView {
        KbView {
            input_reports: spec_kb_reports_view(self.input_reports@),
            output_builders: spec_kb_outputs_view(self.output_builders@),
            report_id_present: self.report_id_present,
            last: self.last_keys@,
            leds: self.led_state@,
            q: self.key_queue@,
            callbacks: self.notification_callbacks@,
            next_handle: self.next_notify_handle,
            agent: self.agent,
            controller: self.controller,
        }
    }
}

impl KeyboardHidHandler {
    /// Instantiates a new keyboard handler owned by `agent`.
    pub fn new(agent: usize) -> (r: KeyboardHidHandler)
        ensures
            r@.agent == agent,
            r@.controller is None,
            r@.input_reports.len() == 0,
            r@.output_builders.len() == 0,
            r@.report_id_present == false,
            r@.last.len() == 0,
            r@.leds.len() == 0,
            r@.q == crate::key_queue::spec_empty_queue(),
            crate::key_queue::spec_queue_wf(r@.q),
            r@.callbacks.len() == 0,
            r@.next_handle == 0,
    {
        let r = KeyboardHidHandler {
            agent,
            controller: None,
            input_reports: Vec::new(),
            output_builders: Vec::new(),
            report_id_present: false,
            last_keys: Vec::new(),
            led_state: Vec::new(),
            key_queue: KeyQueue::new(),
            notification_callbacks: Vec::new(),
            next_notify_handle: 0,
        };
        assert(spec_kb_reports_view(r.input_reports@) =~= Seq::<KbReportView>::empty());
        assert(spec_kb_outputs_view(r.output_builders@) =~= Seq::<KbOutputView>::empty());
        r
    }

    /// Ingests a parsed report descriptor. Fails with a device error when
    /// several reports exist and one carries no id; fails as unsupported
    /// when no keyboard input field and no LED output field was found. On
    /// failure the handler is unchanged.
    pub fn process_descriptor(&mut self, descriptor: &ReportDescriptorInfo)
        -> (r: Result<(), EfiStatus>)
        ensures
            spec_kb_id_conflict(descriptor@) <==> r == Err::<(), EfiStatus>(EfiStatus::DeviceError),
            !spec_kb_id_conflict(descriptor@)
                && spec_kb_inputs(descriptor@.input_reports).len() == 0
                && spec_kb_outputs(descriptor@.output_reports).len() == 0
                <==> r == Err::<(), EfiStatus>(EfiStatus::Unsupported),
            r is Err ==> final(self)@ == old(self)@,
            r is Ok <==> !spec_kb_id_conflict(descriptor@)
                && !(spec_kb_inputs(descriptor@.input_reports).len() == 0
                    && spec_kb_outputs(descriptor@.output_reports).len() == 0),
            r is Ok ==> final(self)@ == (KbView {
                input_reports: spec_kb_inputs(descriptor@.input_reports),
                output_builders: spec_kb_outputs(descriptor@.output_reports),
                report_id_present: spec_kb_id_present(descriptor@, old(self)@.report_id_present),
                ..old(self)@
            }),
    {
        let ghost dv = descriptor@;
        proof {
            assert(dv.input_reports =~= spec_reports_view(descriptor.input_reports@));
            assert(dv.output_reports =~= spec_reports_view(descriptor.output_reports@));
        }
        let multiple = descriptor.input_reports.len() > 1 || descriptor.output_reports.len() > 1
            || descriptor.feature_report_count > 1;
        if multiple
            && (has_no_id_report(&descriptor.input_reports)
                || has_no_id_report(&descriptor.output_reports)) {
            return Err(EfiStatus::DeviceError);
        }
        assert(!spec_kb_id_conflict(dv));
        let inputs = kb_inputs_from(&descriptor.input_reports, 0);
        let outputs = kb_outputs_from(&descriptor.output_reports, 0);
        proof {
            assert(spec_reports_view(descriptor.input_reports@).skip(0)
                =~= spec_reports_view(descriptor.input_reports@));
            assert(spec_reports_view(descriptor.output_reports@).skip(0)
                =~= spec_reports_view(descriptor.output_reports@));
        }
        if inputs.len() == 0 && outputs.len() == 0 {
            return Err(EfiStatus::Unsupported);
        }
        // the id-present flag follows the input reports it governs
        if descriptor.input_reports.len() > 0 {
            let lastr = &descriptor.input_reports[descriptor.input_reports.len() - 1];
            self.report_id_present = lastr.report_id.is_some();
            assert(dv.input_reports.last().report_id == lastr.report_id);
        }
        self.input_reports = inputs;
        self.output_builders = outputs;
        assert(self@ =~= (KbView {
            input_reports: spec_kb_inputs(dv.input_reports),
            output_builders: spec_kb_outputs(dv.output_reports),
            report_id_present: spec_kb_id_present(dv, old(self)@.report_id_present),
            ..old(self)@
        }));
        Ok(())
    }

    /// Ingests a descriptor and binds the handler to a controller; the
    /// combination the lifecycle code performs on start.
    pub fn initialize(&mut self, controller: usize, descriptor: &ReportDescriptorInfo)
        -> (r: Result<(), EfiStatus>)
        ensures
            r is Err ==> final(self)@ == old(self)@,
            r is Ok ==> final(self)@ == (KbView {
                input_reports: spec_kb_inputs(descriptor@.input_reports),
                output_builders: spec_kb_outputs(descriptor@.output_reports),
                report_id_present: spec_kb_id_present(descriptor@, old(self)@.report_id_present),
                controller: Some(controller),
                ..old(self)@
            }),
            r is Ok <==> !spec_kb_id_conflict(descriptor@)
                && !(spec_kb_inputs(descriptor@.input_reports).len() == 0
                    && spec_kb_outputs(descriptor@.output_reports).len() == 0),
    {
        match self.process_descriptor(descriptor) {
            Err(e) => Err(e),
            Ok(()) => {
                self.controller = Some(controller);
                assert(self@ =~= (KbView {
                    input_reports: spec_kb_inputs(descriptor@.input_reports),
                    output_builders: spec_kb_outputs(descriptor@.output_reports),
                    report_id_present: spec_kb_id_present(
                        descriptor@, old(self)@.report_id_present),
                    controller: Some(controller),
                    ..old(self)@
                }));
                Ok(())
            },
        }
    }

    fn lookup_report_index(&self, id: Option<u32>) -> (r: Option<usize>)
        ensures
            match r {
                Some(i) => i < self.input_reports@.len()
                    && spec_lookup_report(self@.input_reports, id)
                        == Some(self.input_reports@[i as int]@),
                None => spec_lookup_report(self@.input_reports, id) is None,
            },
    {
        let ghost rv = self@.input_reports;
        let n = self.input_reports.len();
        proof {
            assert(rv =~= spec_kb_reports_view(self.input_reports@));
            assert(rv.skip(0) =~= rv);
        }
        let mut i: usize = 0;
        while i < n
            invariant
                0 <= i <= n,
                n == self.input_reports@.len(),
                rv == spec_kb_reports_view(self.input_reports@),
                spec_lookup_report(rv, id) == spec_lookup_report(rv.skip(i as int), id),
            decreases n - i,
        {
            proof {
                assert(rv.skip(i as int)[0] == rv[i as int]);
                assert(rv.skip(i as int).drop_first() =~= rv.skip(i as int + 1));
            }
            let matches_id = match (&self.input_reports[i].report_id, &id) {
                (Some(a), Some(c)) => *a == *c,
                (None, None) => true,
                _ => false,
            };
            if matches_id {
                assert(rv[i as int].report_id == id);
                return Some(i);
            }
            assert(rv[i as int].report_id != id);
            i = i + 1;
        }
        proof {
            assert(rv.skip(n as int) =~= Seq::<KbReportView>::empty());
        }
        None
    }

    /// Handles one inbound report: peels the id when ids are in use, drops
    /// mis-sized or unknown reports, recomputes the pressed set, delivers
    /// releases then presses in descending usage order to the key queue, and
    /// rebuilds LED reports when the LED set changed. Returns whether a warm
    /// reset is demanded and the LED output reports to send.
    pub fn receive_report(&mut self, report: &[u8])
        -> (r: (bool, Vec<(Option<u32>, Vec<u8>)>))
        ensures
            final(self)@ == spec_kb_receive(old(self)@, report@).0,
            r.0 == spec_kb_receive(old(self)@, report@).1,
            spec_kb_receive(old(self)@, report@).2 ==> spec_led_reports_match(
                r.1@, old(self)@.output_builders, spec_kb_receive(old(self)@, report@).0.leds),
            !spec_kb_receive(old(self)@, report@).2 ==> r.1@.len() == 0,
            crate::key_queue::spec_queue_wf(old(self)@.q)
                ==> crate::key_queue::spec_queue_wf(final(self)@.q),
    {
        let ghost h0 = self@;
        proof {
            if crate::key_queue::spec_queue_wf(h0.q) {
                lemma_kb_receive_wf(h0, report@);
            }
        }
        let none_reports: Vec<(Option<u32>, Vec<u8>)> = Vec::new();
        if report.len() == 0 {
            assert(self@ =~= spec_kb_receive(h0, report@).0);
            return (false, none_reports);
        }
        let (id, body_start): (Option<u32>, usize) = if self.report_id_present {
            (Some(report[0] as u32), 1)
        } else {
            (None, 0)
        };
        let body_len = report.len() - body_start;
        let ghost body = if h0.report_id_present { report@.drop_first() } else { report@ };
        assert(body =~= report@.subrange(body_start as int, report@.len() as int));
        if body_len == 0 {
            assert(self@ =~= spec_kb_receive(h0, report@).0);
            return (false, none_reports);
        }
        let ri = match self.lookup_report_index(id) {
            None => {
                assert(self@ =~= spec_kb_receive(h0, report@).0);
                return (false, none_reports);
            },
            Some(ri) => ri,
        };
        if body_len != self.input_reports[ri].report_size {
            assert(self@ =~= spec_kb_receive(h0, report@).0);
            return (false, none_reports);
        }
        // copy the body so field windows index from zero
        let mut body_vec: Vec<u8> = Vec::new();
        let mut bi: usize = body_start;
        while bi < report.len()
            invariant
                body_start <= bi <= report@.len(),
                body_vec@ == report@.subrange(body_start as int, bi as int),
            decreases report@.len() - bi,
        {
            body_vec.push(report[bi]);
            assert(body_vec@ =~= report@.subrange(body_start as int, (bi + 1) as int));
            bi = bi + 1;
        }
        assert(body_vec@ == body);
        let current = current_usages_of(&self.input_reports[ri], body_vec.as_slice());
        // unchanged state: nothing to deliver
        if u32_vec_eq(&current, &self.last_keys) {
            assert(current@ == h0.last);
            assert(self@ =~= spec_kb_receive(h0, report@).0);
            return (false, none_reports);
        }
        assert(current@ != h0.last);
        let releases = diff_desc(&self.last_keys, &current);
        let presses = diff_desc(&current, &self.last_keys);
        let r1 = apply_strokes(&mut self.key_queue, &releases, KeyAction::KeyUp);
        if r1 {
            assert(self@ =~= spec_kb_receive(h0, report@).0);
            return (true, none_reports);
        }
        let r2 = apply_strokes(&mut self.key_queue, &presses, KeyAction::KeyDown);
        if r2 {
            assert(self@ =~= spec_kb_receive(h0, report@).0);
            return (true, none_reports);
        }
        self.last_keys = current;
        let (changed, reports) = self.generate_led_output_reports();
        assert(self@ =~= spec_kb_receive(h0, report@).0);
        (false, reports)
    }

    /// Rebuilds the LED output reports when the LED set derived from the
    /// active modifiers differs (as a set) from the recorded LED state;
    /// records the new state in that case.
    #[verifier::loop_isolation(false)]
    fn generate_led_output_reports(&mut self) -> (r: (bool, Vec<(Option<u32>, Vec<u8>)>))
        ensures
            r.0 == !spec_set_eq(spec_active_leds(old(self)@.q.mods), old(self)@.leds),
            final(self)@ == (KbView {
                leds: if r.0 {
                    spec_active_leds(old(self)@.q.mods)
                } else {
                    old(self)@.leds
                },
                ..old(self)@
            }),
            r.0 ==> spec_led_reports_match(
                r.1@, old(self)@.output_builders, spec_active_leds(old(self)@.q.mods)),
            !r.0 ==> r.1@.len() == 0,
    {
        let current_leds = self.key_queue.get_active_leds();
        let out: Vec<(Option<u32>, Vec<u8>)> = Vec::new();
        if u32_set_eq(&current_leds, &self.led_state) {
            assert(self@ =~= (KbView { leds: old(self)@.leds, ..old(self)@ }));
            return (false, out);
        }
        self.led_state = current_leds;
        let ghost leds = self.led_state@;
        let mut out2: Vec<(Option<u32>, Vec<u8>)> = Vec::new();
        let nb = self.output_builders.len();
        let mut i: usize = 0;
        while i < nb
            invariant
                0 <= i <= nb,
                self@ == (KbView { leds: spec_active_leds(old(self)@.q.mods), ..old(self)@ }),
                out2@.len() == i,
                forall|j: int| 0 <= j < i
                    ==> (#[trigger] out2@[j]).0 == old(self)@.output_builders[j].report_id
                        && out2@[j].1@ == spec_led_buffer(old(self)@.output_builders[j], leds),
            decreases nb - i,
        {
            let ghost ob = old(self)@.output_builders[i as int];
            proof {
                assert(spec_kb_outputs_view(self.output_builders@)[i as int]
                    == self.output_builders@[i as int]@);
            }
            let size = self.output_builders[i].report_size;
            let mut buf: Vec<u8> = Vec::new();
            let mut z: usize = 0;
            while z < size
                invariant 0 <= z <= size, buf@ == spec_zero_bytes(z as int),
                decreases size - z,
            {
                buf.push(0);
                assert(buf@ =~= spec_zero_bytes((z + 1) as int));
                z = z + 1;
            }
            assert(buf@ == spec_zero_bytes(ob.report_size));
            let nf = self.output_builders[i].led_fields.len();
            proof {
                assert(ob.led_fields.skip(0) =~= ob.led_fields);
            }
            let mut fj: usize = 0;
            while fj < nf
                invariant
                    0 <= fj <= nf,
                    nf == ob.led_fields.len(),
                    spec_led_fold(buf@, ob.led_fields.skip(fj as int), leds)
                        == spec_led_buffer(ob, leds),
                decreases nf - fj,
            {
                proof {
                    assert(ob.led_fields.skip(fj as int)[0] == ob.led_fields[fj as int]);
                    assert(ob.led_fields.skip(fj as int).drop_first()
                        =~= ob.led_fields.skip(fj as int + 1));
                }
                let f = self.output_builders[i].led_fields[fj];
                assert(f == ob.led_fields[fj as int]);
                let lit = u32_contains(&self.led_state, f.usage);
                let data: i64 = if lit { 1 } else { 0 };
                assert(data == spec_led_value(leds, f.usage));
                let ghost pre = buf@;
                let _ = set_field_value(
                    &mut buf, f.bit_start, f.bit_end, f.logical_min, f.logical_max, data,
                );
                proof {
                    assert(buf@ == spec_led_apply(pre, f, leds));
                }
                fj = fj + 1;
            }
            proof {
                assert(ob.led_fields.skip(nf as int) =~= Seq::<VariableFieldDef>::empty());
                assert(buf@ == spec_led_buffer(ob, leds));
            }
            out2.push((self.output_builders[i].report_id, buf));
            i = i + 1;
        }
        (true, out2)
    }
}

fn u32_vec_eq(a: &Vec<u32>, c: &Vec<u32>) -> (r: bool)
    ensures r == (a@ == c@),
{
    if a.len() != c.len() {
        return false;
    }
    let n = a.len();
    let mut i: usize = 0;
    while i < n
        invariant
            0 <= i <= n,
            n == a@.len() == c@.len(),
            forall|j: int| 0 <= j < i ==> a@[j] == c@[j],
        decreases n - i,
    {
        if a[i] != c[i] {
            return false;
        }
        i = i + 1;
    }
    assert(a@ =~= c@);
    true
}

/// The key queue with its leading no-key no-scan (partial) events removed.
pub open spec fn spec_skip_partials(keys: Seq<KeyData>) -> Seq<KeyData>
    decreases keys.len(),
{
    if keys.len() == 0 {
        keys
    } else if keys[0].key.unicode_char == 0 && keys[0].key.scan_code == 0 {
        spec_skip_partials(keys.drop_first())
    } else {
        keys
    }
}

/// The control-alpha folding of the basic text-in path: with a control held,
/// a letter maps to its C0 control code.
pub open spec fn spec_ctrl_fold(k: KeyData) -> InputKey {
    if k.key_state.key_shift_state & (LEFT_CONTROL_PRESSED | RIGHT_CONTROL_PRESSED) != 0 {
        let u1 = if 0x61 <= k.key.unicode_char <= 0x7A {
            (k.key.unicode_char - 0x60) as u16
        } else {
            k.key.unicode_char
        };
        let u2 = if 0x41 <= u1 <= 0x5A { (u1 - 0x40) as u16 } else { u1 };
        InputKey { unicode_char: u2, scan_code: k.key.scan_code }
    } else {
        k.key
    }
}

impl KeyboardHidHandler {
    /// Resets the keyboard state: pending keys and the pressed snapshot are
    /// cleared, and the key queue is reset. An extended reset also rebuilds
    /// the LED reports (all LEDs off) for the caller to send.
    pub fn reset(&mut self, extended_verification: bool)
        -> (r: Vec<(Option<u32>, Vec<u8>)>)
        ensures
            final(self)@ == (KbView {
                last: Seq::empty(),
                q: QView {
                    mods: if extended_verification {
                        Seq::empty()
                    } else {
                        spec_retain_led_mods(old(self)@.q.mods)
                    },
                    ns: None,
                    partial: false,
                    keys: Seq::empty(),
                    ..old(self)@.q
                },
                leds: if extended_verification && !spec_set_eq(Seq::empty(), old(self)@.leds) {
                    Seq::empty()
                } else {
                    old(self)@.leds
                },
                ..old(self)@
            }),
            !extended_verification ==> r@.len() == 0,
            extended_verification ==> ({
                let changed = !spec_set_eq(
                    spec_active_leds(Seq::<u16>::empty()), old(self)@.leds);
                &&& (changed ==> spec_led_reports_match(
                    r@, old(self)@.output_builders, spec_active_leds(Seq::<u16>::empty())))
                &&& (!changed ==> r@.len() == 0)
            }),
            crate::key_queue::spec_queue_wf(old(self)@.q)
                ==> crate::key_queue::spec_queue_wf(final(self)@.q),
    {
        let ghost h0 = self@;
        proof {
            if crate::key_queue::spec_queue_wf(h0.q) && !extended_verification {
                crate::key_queue::lemma_retain_led_mods_wf(h0.q.mods);
            }
        }
        self.last_keys = Vec::new();
        self.key_queue.reset(extended_verification);
        if extended_verification {
            let (_changed, reports) = self.generate_led_output_reports();
            proof {
                assert(spec_active_leds(Seq::<u16>::empty()) =~= Seq::<u32>::empty());
                assert(self@ =~= (KbView {
                    last: Seq::empty(),
                    q: QView {
                        mods: Seq::empty(),
                        ns: None,
                        partial: false,
                        keys: Seq::empty(),
                        ..h0.q
                    },
                    leds: if !spec_set_eq(Seq::empty(), h0.leds) { Seq::empty() } else { h0.leds },
                    ..h0
                }));
            }
            reports
        } else {
            let r: Vec<(Option<u32>, Vec<u8>)> = Vec::new();
            assert(self@ =~= (KbView {
                last: Seq::empty(),
                q: QView {
                    mods: spec_retain_led_mods(h0.q.mods),
                    ns: None,
                    partial: false,
                    keys: Seq::empty(),
                    ..h0.q
                },
                leds: h0.leds,
                ..h0
            }));
            r
        }
    }

    /// Rebuilds LED reports if the LED set changed; for callers that adjust
    /// state out of band.
    pub fn update_leds(&mut self) -> (r: (bool, Vec<(Option<u32>, Vec<u8>)>))
        ensures
            r.0 == !spec_set_eq(spec_active_leds(old(self)@.q.mods), old(self)@.leds),
            final(self)@ == (KbView {
                leds: if r.0 {
                    spec_active_leds(old(self)@.q.mods)
                } else {
                    old(self)@.leds
                },
                ..old(self)@
            }),
            r.0 ==> spec_led_reports_match(
                r.1@, old(self)@.output_builders, spec_active_leds(old(self)@.q.mods)),
            !r.0 ==> r.1@.len() == 0,
    {
        self.generate_led_output_reports()
    }

    /// Returns the oldest pending key event without removing it.
    pub fn peek_key(&self) -> (r: Option<KeyData>)
        ensures
            self@.q.keys.len() == 0 ==> r is None,
            self@.q.keys.len() > 0 ==> r == Some(self@.q.keys[0]),
    {
        self.key_queue.peek_key()
    }

    /// Removes and returns the oldest pending key event.
    pub fn pop_key(&mut self) -> (r: Option<KeyData>)
        ensures
            old(self)@.q.keys.len() == 0 ==> r is None && final(self)@ == old(self)@,
            old(self)@.q.keys.len() > 0 ==> r == Some(old(self)@.q.keys[0])
                && final(self)@ == (KbView {
                    q: QView { keys: old(self)@.q.keys.drop_first(), ..old(self)@.q },
                    ..old(self)@
                }),
    {
        let r = self.key_queue.pop_key();
        proof {
            if old(self)@.q.keys.len() == 0 {
                assert(self@ =~= old(self)@);
            } else {
                assert(self@ =~= (KbView {
                    q: QView { keys: old(self)@.q.keys.drop_first(), ..old(self)@.q },
                    ..old(self)@
                }));
            }
        }
        r
    }

    /// The live shift/toggle state.
    pub fn get_key_state(&self) -> (r: KeyState)
        ensures r == spec_key_state(self@.q.mods, self@.q.partial),
    {
        self.key_queue.init_key_state()
    }

    /// Writes a toggle word into the live state and rebuilds the LED state
    /// record; the returned reports carry the new LED settings.
    pub fn set_key_toggle_state(&mut self, toggle_state: u8)
        -> (r: (bool, Vec<(Option<u32>, Vec<u8>)>))
        ensures ({
            let mods2 = spec_toggle_mods(old(self)@.q.mods, toggle_state);
            let changed = !spec_set_eq(spec_active_leds(mods2), old(self)@.leds);
            &&& r.0 == changed
            &&& final(self)@ == (KbView {
                q: QView {
                    mods: mods2,
                    partial: toggle_state & KEY_STATE_EXPOSED != 0,
                    ..old(self)@.q
                },
                leds: if changed { spec_active_leds(mods2) } else { old(self)@.leds },
                ..old(self)@
            })
            &&& (changed ==> spec_led_reports_match(
                r.1@, old(self)@.output_builders, spec_active_leds(mods2)))
            &&& (!changed ==> r.1@.len() == 0)
        }),
        crate::key_queue::spec_queue_wf(old(self)@.q)
            ==> crate::key_queue::spec_queue_wf(final(self)@.q),
    {
        let ghost h0 = self@;
        proof {
            if crate::key_queue::spec_queue_wf(h0.q) {
                crate::key_queue::lemma_toggle_mods_wf(h0.q.mods, toggle_state);
            }
        }
        self.key_queue.set_key_toggle_state(toggle_state);
        let (changed, reports) = self.generate_led_output_reports();
        proof {
            let mods2 = spec_toggle_mods(h0.q.mods, toggle_state);
            assert(self@ =~= (KbView {
                q: QView {
                    mods: mods2,
                    partial: toggle_state & KEY_STATE_EXPOSED != 0,
                    ..h0.q
                },
                leds: if changed { spec_active_leds(mods2) } else { h0.leds },
                ..h0
            }));
        }
        (changed, reports)
    }

    /// The basic text-in read: discards leading partial strokes, then pops
    /// the first real stroke and folds control-alpha combinations to C0
    /// control codes. Not-ready exactly when no real stroke is queued.
    pub fn read_key(&mut self) -> (r: Result<InputKey, EfiStatus>)
        ensures
            final(self)@ == (KbView {
                q: QView {
                    keys: if spec_skip_partials(old(self)@.q.keys).len() == 0 {
                        spec_skip_partials(old(self)@.q.keys)
                    } else {
                        spec_skip_partials(old(self)@.q.keys).drop_first()
                    },
                    ..old(self)@.q
                },
                ..old(self)@
            }),
            spec_skip_partials(old(self)@.q.keys).len() == 0
                <==> r == Err::<InputKey, EfiStatus>(EfiStatus::NotReady),
            spec_skip_partials(old(self)@.q.keys).len() > 0
                ==> r == Ok::<InputKey, EfiStatus>(
                    spec_ctrl_fold(spec_skip_partials(old(self)@.q.keys)[0])),
    {
        let ghost h0 = self@;
        proof {
            assert(h0 == old(self)@);
        }
        loop
            invariant
                h0 == old(self)@,
                self@ == (KbView { q: QView { keys: self@.q.keys, ..h0.q }, ..h0 }),
                spec_skip_partials(h0.q.keys) == spec_skip_partials(self@.q.keys),
            decreases self@.q.keys.len(),
        {
            let ghost kpre = self@.q.keys;
            match self.key_queue.pop_key() {
                None => {
                    proof {
                        assert(kpre.len() == 0);
                        assert(spec_skip_partials(kpre) == kpre);
                        assert(spec_skip_partials(h0.q.keys).len() == 0);
                        assert(self@ =~= (KbView {
                            q: QView { keys: spec_skip_partials(h0.q.keys), ..h0.q },
                            ..h0
                        }));
                    }
                    return Err(EfiStatus::NotReady);
                },
                Some(key_data) => {
                    if key_data.key.unicode_char == 0 && key_data.key.scan_code == 0 {
                        proof {
                            assert(spec_skip_partials(kpre) == spec_skip_partials(kpre.drop_first()));
                            assert(self@ =~= (KbView {
                                q: QView { keys: self@.q.keys, ..h0.q },
                                ..h0
                            }));
                        }
                    } else {
                        let folded = ctrl_fold(key_data);
                        proof {
                            assert(spec_skip_partials(kpre) == kpre);
                            assert(spec_skip_partials(h0.q.keys) == kpre);
                            assert(self@ =~= (KbView {
                                q: QView {
                                    keys: spec_skip_partials(h0.q.keys).drop_first(),
                                    ..h0.q
                                },
                                ..h0
                            }));
                        }
                        return Ok(folded);
                    }
                },
            }
        }
    }

    /// The extended read: pops one stroke as-is; not-ready returns the live
    /// state with a null key.
    pub fn read_key_ex(&mut self) -> (r: (EfiStatus, KeyData))
        ensures
            old(self)@.q.keys.len() > 0 ==> r == (EfiStatus::Success, old(self)@.q.keys[0])
                && final(self)@ == (KbView {
                    q: QView { keys: old(self)@.q.keys.drop_first(), ..old(self)@.q },
                    ..old(self)@
                }),
            old(self)@.q.keys.len() == 0 ==> final(self)@ == old(self)@
                && r == (EfiStatus::NotReady, KeyData {
                    key: InputKey { unicode_char: 0, scan_code: 0 },
                    key_state: spec_key_state(old(self)@.q.mods, old(self)@.q.partial),
                }),
    {
        match self.pop_key() {
            Some(k) => (EfiStatus::Success, k),
            None => {
                let st = self.get_key_state();
                (EfiStatus::NotReady, KeyData {
                    key: InputKey { unicode_char: 0, scan_code: 0 },
                    key_state: st,
                })
            },
        }
    }

    /// Discards leading partial strokes and reports whether a real stroke is
    /// ready; the wait-for-key paths signal their event exactly then.
    pub fn key_ready(&mut self) -> (r: bool)
        ensures
            final(self)@ == (KbView {
                q: QView { keys: spec_skip_partials(old(self)@.q.keys), ..old(self)@.q },
                ..old(self)@
            }),
            r == (spec_skip_partials(old(self)@.q.keys).len() > 0),
    {
        let ghost h0 = self@;
        proof {
            assert(h0 == old(self)@);
        }
        loop
            invariant
                h0 == old(self)@,
                self@ == (KbView { q: QView { keys: self@.q.keys, ..h0.q }, ..h0 }),
                spec_skip_partials(h0.q.keys) == spec_skip_partials(self@.q.keys),
            decreases self@.q.keys.len(),
        {
            let ghost kpre = self@.q.keys;
            match self.key_queue.peek_key() {
                None => {
                    proof {
                        assert(kpre.len() == 0);
                        assert(spec_skip_partials(kpre) == kpre);
                        assert(spec_skip_partials(h0.q.keys).len() == 0);
                        assert(self@ =~= (KbView {
                            q: QView { keys: spec_skip_partials(h0.q.keys), ..h0.q },
                            ..h0
                        }));
                    }
                    return false;
                },
                Some(key_data) => {
                    if key_data.key.unicode_char == 0 && key_data.key.scan_code == 0 {
                        let _ = self.key_queue.pop_key();
                        proof {
                            assert(spec_skip_partials(kpre) == spec_skip_partials(kpre.drop_first()));
                        }
                    } else {
                        proof {
                            assert(spec_skip_partials(kpre) == kpre);
                            assert(spec_skip_partials(h0.q.keys) == kpre);
                            assert(self@ =~= (KbView {
                                q: QView { keys: spec_skip_partials(h0.q.keys), ..h0.q },
                                ..h0
                            }));
                        }
                        return true;
                    }
                },
            }
        }
    }

    /// Whether a notify-queue event is pending; the deferred dispatch event
    /// is signalled exactly then.
    pub fn has_pending_notify(&self) -> (r: bool)
        ensures r == (self@.q.notify.len() > 0),
    {
        self.key_queue.peek_notify_key().is_some()
    }

    /// Installs (or clears) the keyboard layout.
    pub fn set_layout(&mut self, layout: Option<crate::layout::HiiKeyboardLayout>)
        ensures
            final(self)@ == (KbView {
                q: QView {
                    layout: match layout {
                        Some(l) => Some(l@),
                        None => None,
                    },
                    ..old(self)@.q
                },
                ..old(self)@
            }),
    {
        self.key_queue.set_layout(layout);
        assert(self@ =~= (KbView {
            q: QView {
                layout: match layout {
                    Some(l) => Some(l@),
                    None => None,
                },
                ..old(self)@.q
            },
            ..old(self)@
        }));
    }

    /// Whether a layout is installed.
    pub fn has_layout(&self) -> (r: bool)
        ensures r == (self@.q.layout is Some),
    {
        self.key_queue.has_layout()
    }

    /// Decodes a layout buffer from the layout service and installs it; the
    /// layout-change path. Fails without state change on a malformed buffer.
    pub fn install_layout_from_buffer(&mut self, buffer: &[u8])
        -> (r: Result<(), crate::codec::LayoutError>)
        ensures
            r is Err ==> final(self)@ == old(self)@
                && crate::codec::spec_parse_layout(buffer@, 0) is None,
            r is Ok ==> (crate::codec::spec_parse_layout(buffer@, 0) matches Some(p)
                && final(self)@ == (KbView {
                    q: QView { layout: Some(p.0), ..old(self)@.q },
                    ..old(self)@
                })),
    {
        match crate::codec::keyboard_layout_from_buffer(buffer) {
            Err(e) => {
                assert(self@ =~= old(self)@);
                Err(e)
            },
            Ok(l) => {
                self.set_layout(Some(l));
                Ok(())
            },
        }
    }

    /// The handle owning this handler.
    pub fn get_agent(&self) -> (r: usize)
        ensures r == self@.agent,
    {
        self.agent
    }

    /// The controller this handler is bound to, if started.
    pub fn get_controller(&self) -> (r: Option<usize>)
        ensures r == self@.controller,
    {
        self.controller
    }

    /// Binds or unbinds the controller.
    pub fn set_controller(&mut self, controller: Option<usize>)
        ensures final(self)@ == (KbView { controller, ..old(self)@ }),
    {
        self.controller = controller;
        assert(self@ =~= (KbView { controller, ..old(self)@ }));
    }
}

fn ctrl_fold(k: KeyData) -> (r: InputKey)
    ensures r == spec_ctrl_fold(k),
{
    if k.key_state.key_shift_state & (LEFT_CONTROL_PRESSED | RIGHT_CONTROL_PRESSED) != 0 {
        let mut u = k.key.unicode_char;
        if 0x61 <= u && u <= 0x7A {
            u = u - 0x60;
        }
        if 0x41 <= u && u <= 0x5A {
            u = u - 0x40;
        }
        InputKey { unicode_char: u, scan_code: k.key.scan_code }
    } else {
        k.key
    }
}

/// First registration index with the given pattern and callback, from `i`.
pub open spec fn spec_find_registration(
    cs: Seq<NotifyRegistration>, pattern: KeyData, callback: usize, i: int,
) -> Option<NotifyRegistration>
    decreases cs.len() - i when 0 <= i <= cs.len()
{
    if i >= cs.len() {
        None
    } else if cs[i].pattern == pattern && cs[i].callback == callback {
        Some(cs[i])
    } else {
        spec_find_registration(cs, pattern, callback, i + 1)
    }
}

/// First index of the registration with the given handle, from `i`.
pub open spec fn spec_find_handle(cs: Seq<NotifyRegistration>, handle: usize, i: int)
    -> Option<int>
    decreases cs.len() - i when 0 <= i <= cs.len()
{
    if i >= cs.len() {
        None
    } else if cs[i].handle == handle {
        Some(i)
    } else {
        spec_find_handle(cs, handle, i + 1)
    }
}

/// Whether some registration besides index `skip_idx` carries the pattern.
pub open spec fn spec_other_with_pattern(
    cs: Seq<NotifyRegistration>, pattern: KeyData, skip_idx: int,
) -> bool {
    exists|j: int| 0 <= j < cs.len() && j != skip_idx
        && (#[trigger] cs[j]).pattern == pattern
}

/// The callback tokens of the registrations whose pattern matches an event.
pub open spec fn spec_matching_callbacks(cs: Seq<NotifyRegistration>, ev: KeyData) -> Seq<usize>
    decreases cs.len(),
{
    if cs.len() == 0 {
        Seq::empty()
    } else {
        (if spec_matches_registered_key(ev, cs[0].pattern) {
            seq![cs[0].callback]
        } else {
            Seq::empty()
        }) + spec_matching_callbacks(cs.drop_first(), ev)
    }
}

impl KeyboardHidHandler {
    /// Registers a key-notification callback (named by an opaque token) for
    /// a pattern. An identical registration keeps its handle; a new one gets
    /// the next fresh handle, and the pattern joins the queue's registered
    /// set.
    pub fn insert_key_notify_callback(&mut self, key_data: KeyData, callback: usize)
        -> (handle: usize)
        requires old(self)@.next_handle < usize::MAX,
        ensures
            match spec_find_registration(old(self)@.callbacks, key_data, callback, 0) {
                Some(existing) => handle == existing.handle && final(self)@ == old(self)@,
                None => {
                    &&& handle == old(self)@.next_handle + 1
                    &&& final(self)@ == (KbView {
                        callbacks: old(self)@.callbacks.push(NotifyRegistration {
                            handle, pattern: key_data, callback,
                        }),
                        next_handle: handle,
                        q: QView {
                            registered: if old(self)@.q.registered.contains(key_data) {
                                old(self)@.q.registered
                            } else {
                                old(self)@.q.registered.push(key_data)
                            },
                            ..old(self)@.q
                        },
                        ..old(self)@
                    })
                },
            },
    {
        let ghost cs = self@.callbacks;
        let n = self.notification_callbacks.len();
        proof {
            assert(cs =~= self.notification_callbacks@);
        }
        let mut i: usize = 0;
        while i < n
            invariant
                0 <= i <= n,
                n == self.notification_callbacks@.len(),
                cs == self.notification_callbacks@,
                self@ == old(self)@,
                spec_find_registration(cs, key_data, callback, 0)
                    == spec_find_registration(cs, key_data, callback, i as int),
            decreases n - i,
        {
            let entry = self.notification_callbacks[i];
            if entry.pattern == key_data && entry.callback == callback {
                return entry.handle;
            }
            i = i + 1;
        }
        assert(spec_find_registration(cs, key_data, callback, 0) is None);
        let handle = self.next_notify_handle + 1;
        self.next_notify_handle = handle;
        self.notification_callbacks.push(NotifyRegistration {
            handle, pattern: key_data, callback,
        });
        self.key_queue.add_notify_key(OrdKeyData(key_data));
        assert(self@ =~= (KbView {
            callbacks: old(self)@.callbacks.push(NotifyRegistration {
                handle, pattern: key_data, callback,
            }),
            next_handle: handle,
            q: QView {
                registered: if old(self)@.q.registered.contains(key_data) {
                    old(self)@.q.registered
                } else {
                    old(self)@.q.registered.push(key_data)
                },
                ..old(self)@.q
            },
            ..old(self)@
        }));
        handle
    }

    /// Unregisters a callback by handle. A handle never registered yields
    /// the invalid-parameter error; when the last registration with the
    /// removed pattern disappears, the pattern leaves the queue's registered
    /// set.
    pub fn remove_key_notify_callback(&mut self, notification_handle: usize)
        -> (r: Result<(), EfiStatus>)
        ensures
            spec_find_handle(old(self)@.callbacks, notification_handle, 0) is Some <==> r is Ok,
            spec_find_handle(old(self)@.callbacks, notification_handle, 0) is None
                <==> r == Err::<(), EfiStatus>(EfiStatus::InvalidParameter),
            r is Err ==> final(self)@ == old(self)@,
            r is Ok ==> (spec_find_handle(old(self)@.callbacks, notification_handle, 0)
                matches Some(idx) && final(self)@ == (KbView {
                    callbacks: old(self)@.callbacks.remove(idx),
                    q: QView {
                        registered: if spec_other_with_pattern(
                            old(self)@.callbacks, old(self)@.callbacks[idx].pattern, idx) {
                            old(self)@.q.registered
                        } else {
                            crate::key_queue::spec_registered_remove(
                                old(self)@.q.registered, old(self)@.callbacks[idx].pattern)
                        },
                        ..old(self)@.q
                    },
                    ..old(self)@
                })),
    {
        let ghost cs = self@.callbacks;
        let n = self.notification_callbacks.len();
        proof {
            assert(cs =~= self.notification_callbacks@);
        }
        let mut i: usize = 0;
        while i < n
            invariant
                0 <= i <= n,
                n == self.notification_callbacks@.len(),
                cs == self.notification_callbacks@,
                self@ == old(self)@,
                spec_find_handle(cs, notification_handle, 0)
                    == spec_find_handle(cs, notification_handle, i as int),
            decreases n - i,
        {
            if self.notification_callbacks[i].handle == notification_handle {
                let removed = self.notification_callbacks.remove(i);
                // does any other registration still carry this pattern?
                let mut other = false;
                let n2 = self.notification_callbacks.len();
                let mut j: usize = 0;
                while j < n2
                    invariant
                        0 <= j <= n2,
                        n2 == self.notification_callbacks@.len(),
                        self.notification_callbacks@ == cs.remove(i as int),
                        removed == cs[i as int],
                        0 <= i < cs.len(),
                        other == exists|k: int| 0 <= k < j
                            && (#[trigger] self.notification_callbacks@[k]).pattern
                                == removed.pattern,
                    decreases n2 - j,
                {
                    if self.notification_callbacks[j].pattern == removed.pattern {
                        other = true;
                    }
                    j = j + 1;
                }
                proof {
                    lemma_other_pattern_equiv(cs, i as int, removed.pattern);
                }
                if !other {
                    self.key_queue.remove_notify_key(&OrdKeyData(removed.pattern));
                }
                assert(self@ =~= (KbView {
                    callbacks: cs.remove(i as int),
                    q: QView {
                        registered: if spec_other_with_pattern(cs, cs[i as int].pattern, i as int) {
                            old(self)@.q.registered
                        } else {
                            crate::key_queue::spec_registered_remove(
                                old(self)@.q.registered, cs[i as int].pattern)
                        },
                        ..old(self)@.q
                    },
                    ..old(self)@
                }));
                return Ok(());
            }
            i = i + 1;
        }
        assert(spec_find_handle(cs, notification_handle, 0) is None);
        Err(EfiStatus::InvalidParameter)
    }

    /// Pops the next notify-queue event and gathers the callback tokens of
    /// the registrations matching it.
    pub fn get_pending_callbacks(&mut self) -> (r: (Option<KeyData>, Vec<usize>))
        ensures
            old(self)@.q.notify.len() == 0 ==> r.0 is None && r.1@.len() == 0
                && final(self)@ == old(self)@,
            old(self)@.q.notify.len() > 0 ==> r.0 == Some(old(self)@.q.notify[0])
                && r.1@ == spec_matching_callbacks(old(self)@.callbacks, old(self)@.q.notify[0])
                && final(self)@ == (KbView {
                    q: QView { notify: old(self)@.q.notify.drop_first(), ..old(self)@.q },
                    ..old(self)@
                }),
    {
        let pending = self.key_queue.pop_notify_key();
        match pending {
            None => {
                let empty: Vec<usize> = Vec::new();
                assert(self@ =~= old(self)@);
                (None, empty)
            },
            Some(ev) => {
                let callbacks = matching_callbacks_from(&self.notification_callbacks, 0, ev);
                proof {
                    assert(self.notification_callbacks@.skip(0) =~= self.notification_callbacks@);
                    assert(self@ =~= (KbView {
                        q: QView { notify: old(self)@.q.notify.drop_first(), ..old(self)@.q },
                        ..old(self)@
                    }));
                }
                (Some(ev), callbacks)
            },
        }
    }
}

proof fn lemma_other_pattern_equiv(cs: Seq<NotifyRegistration>, i: int, pattern: KeyData)
    requires 0 <= i < cs.len(),
    ensures
        (exists|k: int| 0 <= k < cs.remove(i).len()
            && (#[trigger] cs.remove(i)[k]).pattern == pattern)
            == spec_other_with_pattern(cs, pattern, i),
{
    let rem = cs.remove(i);
    if exists|k: int| 0 <= k < rem.len() && (#[trigger] rem[k]).pattern == pattern {
        let k = choose|k: int| 0 <= k < rem.len() && (#[trigger] rem[k]).pattern == pattern;
        if k < i {
            assert(cs[k] == rem[k]);
            assert(spec_other_with_pattern(cs, pattern, i));
        } else {
            assert(cs[k + 1] == rem[k]);
            assert(spec_other_with_pattern(cs, pattern, i));
        }
    }
    if spec_other_with_pattern(cs, pattern, i) {
        let j = choose|j: int| 0 <= j < cs.len() && j != i
            && (#[trigger] cs[j]).pattern == pattern;
        if j < i {
            assert(rem[j] == cs[j]);
        } else {
            assert(rem[j - 1] == cs[j]);
        }
    }
}

fn matching_callbacks_from(cs: &Vec<NotifyRegistration>, i: usize, ev: KeyData)
    -> (r: Vec<usize>)
    requires i <= cs@.len(),
    ensures r@ == spec_matching_callbacks(cs@.skip(i as int), ev),
    decreases cs@.len() - i,
{
    if i == cs.len() {
        let r: Vec<usize> = Vec::new();
        assert(cs@.skip(i as int) =~= Seq::<NotifyRegistration>::empty());
        return r;
    }
    proof {
        assert(cs@.skip(i as int)[0] == cs@[i as int]);
        assert(cs@.skip(i as int).drop_first() =~= cs@.skip(i as int + 1));
    }
    let mut rest = matching_callbacks_from(cs, i + 1, ev);
    let entry = OrdKeyData(ev);
    let pat = OrdKeyData(cs[i].pattern);
    if entry.matches_registered_key(&pat) {
        let ghost prev = rest@;
        rest.insert(0, cs[i].callback);
        assert(rest@ =~= seq![cs@[i as int].callback] + prev);
    } else {
        assert(rest@ =~= spec_matching_callbacks(cs@.skip(i as int), ev));
    }
    rest
}

/// A registration whose pattern matches a notify event is dispatched: its
/// callback token appears among the gathered callbacks for that event.
pub proof fn lemma_matching_callback_included(
    cs: Seq<NotifyRegistration>, i: int, ev: KeyData,
)
    requires
        0 <= i < cs.len(),
        spec_matches_registered_key(ev, cs[i].pattern),
    ensures
        spec_matching_callbacks(cs, ev).contains(cs[i].callback),
    decreases cs.len(),
{
    if i == 0 {
        assert(spec_matching_callbacks(cs, ev)[0] == cs[0].callback);
    } else {
        lemma_matching_callback_included(cs.drop_first(), i - 1, ev);
        let rest = spec_matching_callbacks(cs.drop_first(), ev);
        let j = choose|j: int| 0 <= j < rest.len() && rest[j] == cs[i].callback;
        let head = if spec_matches_registered_key(ev, cs[0].pattern) {
            seq![cs[0].callback]
        } else {
            Seq::<usize>::empty()
        };
        assert(spec_matching_callbacks(cs, ev)[head.len() + j] == cs[i].callback);
    }
}

/// Folding keystrokes preserves queue well-formedness.
pub proof fn lemma_fold_strokes_wf(q: QView, us: Seq<u32>, action: KeyAction)
    requires crate::key_queue::spec_queue_wf(q),
    ensures crate::key_queue::spec_queue_wf(spec_fold_strokes(q, us, action).0),
    decreases us.len(),
{
    if us.len() > 0 {
        crate::key_queue::lemma_keystroke_wf(q, us[0], action);
        let (q1, r) = spec_keystroke(q, us[0], action);
        if !r {
            lemma_fold_strokes_wf(q1, us.drop_first(), action);
        }
    }
}

/// Handling one inbound report preserves queue well-formedness.
pub proof fn lemma_kb_receive_wf(h: KbView, b: Seq<u8>)
    requires crate::key_queue::spec_queue_wf(h.q),
    ensures crate::key_queue::spec_queue_wf(spec_kb_receive(h, b).0.q),
{
    if b.len() == 0 {
    } else {
        let id: Option<u32> = if h.report_id_present { Some(b[0] as u32) } else { None };
        let body = if h.report_id_present { b.drop_first() } else { b };
        if body.len() == 0 {
        } else {
            match spec_lookup_report(h.input_reports, id) {
                None => {},
                Some(rv) => if body.len() != rv.report_size {
                } else {
                    let current = spec_current_usages(rv, body);
                    if current == h.last {
                    } else {
                        let rel = spec_diff_desc(h.last, current);
                        let prs = spec_diff_desc(current, h.last);
                        lemma_fold_strokes_wf(h.q, rel, KeyAction::KeyUp);
                        let (q1, r1) = spec_fold_strokes(h.q, rel, KeyAction::KeyUp);
                        if !r1 {
                            lemma_fold_strokes_wf(q1, prs, KeyAction::KeyDown);
                        }
                    }
                },
            }
        }
    }
}

proof fn lemma_led_fold_len(b: Seq<u8>, fs: Seq<VariableFieldDef>, leds: Seq<u32>)
    ensures spec_led_fold(b, fs, leds).len() == b.len(),
    decreases fs.len(),
{
    if fs.len() > 0 {
        let f = fs[0];
        let b2 = spec_led_apply(b, f, leds);
        assert(b2.len() == b.len()) by {
            let data = spec_led_value(leds, f.usage);
            if f.logical_min as i64 <= data <= f.logical_max as i64
                && 0 < f.bit_end - f.bit_start <= 32
                && f.bit_start < f.bit_end
                && (f.bit_end as int + 7) / 8 <= b.len() {
                crate::fields::lemma_set_field_len(
                    b, f.bit_start as int, f.bit_end - f.bit_start,
                    (data as u64) & 0xFFFFFFFF, 0);
            }
        }
        lemma_led_fold_len(b2, fs.drop_first(), leds);
    }
}

/// An LED output report body is exactly as long as its report declares.
pub proof fn lemma_led_buffer_len(ob: KbOutputView, leds: Seq<u32>)
    requires ob.report_size >= 0,
    ensures spec_led_buffer(ob, leds).len() == ob.report_size,
{
    lemma_led_fold_len(spec_zero_bytes(ob.report_size), ob.led_fields, leds);
}

} // verus!
