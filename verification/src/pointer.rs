//! The pointer handler: report-descriptor ingestion for pointer usages,
//! normalization of absolute and relative axis inputs onto a fixed
//! resolution, and button-mask assembly with change detection.

use vstd::prelude::*;
use crate::status::EfiStatus;
use crate::fields::{
    VariableFieldDef, FieldDef, FieldView, ReportInfo, ReportInfoView,
    ReportDescriptorInfo, DescriptorView, spec_field_value, field_value,
};

verus! {

/// Pointer axis usages and the button page.
pub const GENERIC_DESKTOP_X: u32 = 0x00010030;
pub const GENERIC_DESKTOP_Y: u32 = 0x00010031;
pub const GENERIC_DESKTOP_Z: u32 = 0x00010032;
pub const GENERIC_DESKTOP_WHEEL: u32 = 0x00010038;
pub const BUTTON_PAGE: u16 = 0x0009;
pub const BUTTON_MIN: u32 = 0x00090001;
pub const BUTTON_MAX: u32 = 0x00090020;

/// Number of points on each axis of the normalized coordinate space.
pub const AXIS_RESOLUTION: u64 = 1024;
/// The initial X and Y position: the centre of the space.
pub const CENTER: u64 = 512;

/// The report kinds a HID transport exchanges.
#[derive(Clone, Copy, Debug, PartialEq, Eq, Structural)]
pub enum HidReportType {
    InputReport,
    OutputReport,
    Feature,
}

impl HidReportType {
    /// The wire encoding of the report kind.
    pub fn wire_value(&self) -> (r: u8)
        ensures
            *self == HidReportType::InputReport ==> r == 1,
            *self == HidReportType::OutputReport ==> r == 2,
            *self == HidReportType::Feature ==> r == 3,
    {
        match self {
            HidReportType::InputReport => 1,
            HidReportType::OutputReport => 2,
            HidReportType::Feature => 3,
        }
    }
}

/// The pointer state handed to consumers.
#[derive(Clone, Copy, Debug, PartialEq, Eq, Structural, Default)]
pub struct AbsolutePointerState {
    pub current_x: u64,
    pub current_y: u64,
    pub current_z: u64,
    pub active_buttons: u32,
}

/// The advertised pointer mode.
#[derive(Clone, Copy, Debug, PartialEq, Eq, Structural, Default)]
pub struct AbsolutePointerMode {
    pub absolute_min_x: u64,
    pub absolute_min_y: u64,
    pub absolute_min_z: u64,
    pub absolute_max_x: u64,
    pub absolute_max_y: u64,
    pub absolute_max_z: u64,
    pub attributes: u32,
}

/// An input report of interest: its id, body size, and axis/button fields in
/// declaration order.
#[derive(Clone, Debug, PartialEq, Eq)]
pub struct PointerReportData {
    pub report_id: Option<u32>,
    pub report_size: usize,
    pub relevant_fields: Vec<VariableFieldDef>,
}

/// Spec-level value of an input report of interest.
pub ghost struct PtrReportView {
    pub report_id: Option<u32>,
    pub report_size: int,
    pub fields: Seq<VariableFieldDef>,
}

impl View for PointerReportData {
    type V = PtrReportView;

    open spec fn view(&self) -> PtrReportView {
        PtrReportView {
            report_id: self.report_id,
            report_size: self.report_size as int,
            fields: self.relevant_fields@,
        }
    }
}

/// Whether a variable field's usage makes it a pointer field of interest.
pub open spec fn spec_ptr_relevant(usage: u32) -> bool {
    usage == GENERIC_DESKTOP_X || usage == GENERIC_DESKTOP_Y || usage == GENERIC_DESKTOP_Z
        || usage == GENERIC_DESKTOP_WHEEL || (BUTTON_MIN <= usage && usage <= BUTTON_MAX)
}

/// The pointer fields kept from a report's field list, in order.
pub open spec fn spec_ptr_fields(fs: Seq<FieldView>) -> Seq<VariableFieldDef>
    decreases fs.len(),
{
    if fs.len() == 0 {
        Seq::empty()
    } else {
        (match fs[0] {
            FieldView::Variable(f) => if spec_ptr_relevant(f.usage) {
                seq![f]
            } else {
                Seq::empty()
            },
            _ => Seq::empty(),
        }) + spec_ptr_fields(fs.drop_first())
    }
}

/// The usages supported by a field list, as insertions into an ordered set.
pub open spec fn spec_collect_usages(acc: Seq<u32>, fs: Seq<VariableFieldDef>) -> Seq<u32>
    decreases fs.len(),
{
    if fs.len() == 0 {
        acc
    } else {
        spec_collect_usages(crate::keyboard::spec_sorted_insert(acc, fs[0].usage), fs.drop_first())
    }
}

// ---------------------------------------------------------------------------
// Axis normalization
// ---------------------------------------------------------------------------

/// The logical span of a field: the distance from minimum to maximum, where
/// the maximum reads as unsigned when the minimum is non-negative; nothing
/// when the span is not positive or overflows.
pub open spec fn spec_field_range(min: i32, max: i32) -> Option<u32> {
    if min < 0 {
        let d = max as int - min as int;
        if d > u32::MAX || d <= 0 { None } else { Some(d as u32) }
    } else {
        let d = (max as u32) as int - (min as u32) as int;
        if d <= 0 { None } else { Some(d as u32) }
    }
}

fn field_range(min: i32, max: i32) -> (r: Option<u32>)
    ensures r == spec_field_range(min, max),
{
    if min < 0 {
        let d = (max as i64) - (min as i64);
        if d > u32::MAX as i64 || d <= 0 { None } else { Some(d as u32) }
    } else {
        let minu = min as u32;
        let maxu = max as u32;
        if maxu <= minu { None } else { Some(maxu - minu) }
    }
}

pub open spec fn spec_clamp_axis(v: int) -> u64 {
    if v < 0 { 0u64 } else if v > 1024 { 1024u64 } else { v as u64 }
}

/// The new axis position a field input projects to: a relative input moves
/// the current position, an absolute input is scaled from its logical range
/// onto the axis; both clamp to the axis bounds. Nothing on an unreadable
/// value or an empty range.
pub open spec fn spec_resolve_axis(current: u64, f: VariableFieldDef, b: Seq<u8>)
    -> Option<u64>
{
    match spec_field_value(b, f.bit_start as int, f.bit_end as int, f.logical_min, f.logical_max) {
        None => None,
        Some(v) => if f.relative {
            Some(spec_clamp_axis(current + v))
        } else {
            match spec_field_range(f.logical_min, f.logical_max) {
                None => None,
                Some(rg) => Some(spec_clamp_axis(
                    ((v - f.logical_min) * 1024 * 1000) / (rg * 1000),
                )),
            }
        },
    }
}

fn resolve_axis(current: u64, f: &VariableFieldDef, b: &[u8]) -> (r: Option<u64>)
    requires current <= 1024,
    ensures
        r == spec_resolve_axis(current, *f, b@),
        r matches Some(v) ==> v <= 1024,
{
    let v = match field_value(b, f.bit_start, f.bit_end, f.logical_min, f.logical_max) {
        None => { return None; },
        Some(v) => v,
    };
    proof {
        // the field value obeys the logical bounds
        assert(f.logical_min as i64 <= v);
        assert(v <= 0x100000000i64);
    }
    if f.relative {
        let moved: i64 = (current as i64) + v;
        let clamped: u64 = if moved < 0 {
            0
        } else if moved > 1024 {
            1024
        } else {
            moved as u64
        };
        Some(clamped)
    } else {
        let rg = match field_range(f.logical_min, f.logical_max) {
            None => { return None; },
            Some(rg) => rg,
        };
        let translated: i64 = v - (f.logical_min as i64);
        let scaled: i64 = (translated * 1024 * 1000) / ((rg as i64) * 1000);
        let clamped: u64 = if scaled < 0 {
            0
        } else if scaled > 1024 {
            1024
        } else {
            scaled as u64
        };
        Some(clamped)
    }
}

/// One field's effect on the pointer state: axis fields move their axis,
/// button fields rewrite their bit; the changed flag latches any difference.
pub open spec fn spec_apply_ptr_field(
    st: AbsolutePointerState, changed: bool, f: VariableFieldDef, b: Seq<u8>,
) -> (AbsolutePointerState, bool) {
    if f.usage == GENERIC_DESKTOP_X {
        match spec_resolve_axis(st.current_x, f, b) {
            Some(v) => (
                AbsolutePointerState { current_x: v, ..st },
                changed || v != st.current_x,
            ),
            None => (st, changed),
        }
    } else if f.usage == GENERIC_DESKTOP_Y {
        match spec_resolve_axis(st.current_y, f, b) {
            Some(v) => (
                AbsolutePointerState { current_y: v, ..st },
                changed || v != st.current_y,
            ),
            None => (st, changed),
        }
    } else if f.usage == GENERIC_DESKTOP_Z || f.usage == GENERIC_DESKTOP_WHEEL {
        match spec_resolve_axis(st.current_z, f, b) {
            Some(v) => (
                AbsolutePointerState { current_z: v, ..st },
                changed || v != st.current_z,
            ),
            None => (st, changed),
        }
    } else if BUTTON_MIN <= f.usage && f.usage <= BUTTON_MAX && f.usage - BUTTON_MIN <= 31 {
        match spec_field_value(b, f.bit_start as int, f.bit_end as int,
            f.logical_min, f.logical_max) {
            Some(v) => {
                let shift = (f.usage - BUTTON_MIN) as u32;
                let new_buttons = (st.active_buttons & !(1u32 << shift))
                    | ((v as u32) << shift);
                (
                    AbsolutePointerState { active_buttons: new_buttons, ..st },
                    changed || new_buttons != st.active_buttons,
                )
            },
            None => (st, changed),
        }
    } else {
        (st, changed)
    }
}

/// The fields of a report folded over the pointer state in order.
pub open spec fn spec_apply_ptr_fields(
    st: AbsolutePointerState, changed: bool, fs: Seq<VariableFieldDef>, b: Seq<u8>,
) -> (AbsolutePointerState, bool)
    decreases fs.len(),
{
    if fs.len() == 0 {
        (st, changed)
    } else {
        let (st1, c1) = spec_apply_ptr_field(st, changed, fs[0], b);
        spec_apply_ptr_fields(st1, c1, fs.drop_first(), b)
    }
}

/// Axis coordinates stay within the axis bounds.
pub open spec fn spec_ptr_state_wf(st: AbsolutePointerState) -> bool {
    st.current_x <= 1024 && st.current_y <= 1024 && st.current_z <= 1024
}

proof fn lemma_apply_field_wf(st: AbsolutePointerState, changed: bool, f: VariableFieldDef, b: Seq<u8>)
    requires spec_ptr_state_wf(st),
    ensures spec_ptr_state_wf(spec_apply_ptr_field(st, changed, f, b).0),
{
}

/// Axis saturation: folding any run of field inputs over a well-formed
/// pointer state keeps every axis within the zero-to-resolution bounds.
pub proof fn lemma_apply_fields_wf(
    st: AbsolutePointerState, changed: bool, fs: Seq<VariableFieldDef>, b: Seq<u8>,
)
    requires spec_ptr_state_wf(st),
    ensures spec_ptr_state_wf(spec_apply_ptr_fields(st, changed, fs, b).0),
    decreases fs.len(),
{
    if fs.len() > 0 {
        lemma_apply_field_wf(st, changed, fs[0], b);
        let (st1, c1) = spec_apply_ptr_field(st, changed, fs[0], b);
        lemma_apply_fields_wf(st1, c1, fs.drop_first(), b);
    }
}

// ---------------------------------------------------------------------------
// The pointer handler
// ---------------------------------------------------------------------------

/// Spec-level state of the pointer handler.
#[verifier::ext_equal]
pub ghost struct PtrView {
    pub input_reports: Seq<PtrReportView>,
    pub supported_usages: Seq<u32>,
    pub report_id_present: bool,
    pub state_changed: bool,
    pub current_state: AbsolutePointerState,
    pub agent: usize,
    pub controller: Option<usize>,
}

/// The input reports of interest of a descriptor.
pub open spec fn spec_ptr_inputs(rs: Seq<ReportInfoView>) -> Seq<PtrReportView>
    decreases rs.len(),
{
    if rs.len() == 0 {
        Seq::empty()
    } else {
        let fields = spec_ptr_fields(rs[0].fields);
        (if fields.len() > 0 {
            seq![PtrReportView {
                report_id: rs[0].report_id,
                report_size: (rs[0].size_in_bits + 7) / 8,
                fields,
            }]
        } else {
            Seq::empty()
        }) + spec_ptr_inputs(rs.drop_first())
    }
}

/// The supported usages over all reports of a descriptor.
pub open spec fn spec_ptr_usages(rs: Seq<ReportInfoView>, acc: Seq<u32>) -> Seq<u32>
    decreases rs.len(),
{
    if rs.len() == 0 {
        acc
    } else {
        spec_ptr_usages(rs.drop_first(), spec_collect_usages(acc, spec_ptr_fields(rs[0].fields)))
    }
}

/// A pointer descriptor is rejected with a device error when several input
/// reports exist and one carries no id.
pub open spec fn spec_ptr_id_conflict(d: DescriptorView) -> bool {
    d.input_reports.len() > 1 && exists|i: int| 0 <= i < d.input_reports.len()
        && (#[trigger] d.input_reports[i]).report_id is None
}

/// The initial pointer state: axes centred, no buttons, no change pending.
pub open spec fn spec_initial_ptr_state() -> AbsolutePointerState {
    AbsolutePointerState { current_x: 512, current_y: 512, current_z: 0, active_buttons: 0 }
}

/// First report of interest with the given id.
pub open spec fn spec_ptr_lookup(rs: Seq<PtrReportView>, id: Option<u32>)
    -> Option<PtrReportView>
    decreases rs.len(),
{
    if rs.len() == 0 {
        None
    } else if rs[0].report_id == id {
        Some(rs[0])
    } else {
        spec_ptr_lookup(rs.drop_first(), id)
    }
}

/// One inbound report's effect on the pointer handler.
pub open spec fn spec_ptr_receive(h: PtrView, b: Seq<u8>) -> PtrView {
    if b.len() == 0 {
        h
    } else {
        let id: Option<u32> = if h.report_id_present { Some(b[0] as u32) } else { None };
        let body = if h.report_id_present { b.drop_first() } else { b };
        if body.len() == 0 {
            h
        } else {
            match spec_ptr_lookup(h.input_reports, id) {
                None => h,
                Some(rv) => if body.len() != rv.report_size {
                    h
                } else {
                    let (st2, c2) = spec_apply_ptr_fields(
                        h.current_state, h.state_changed, rv.fields, body);
                    PtrView { current_state: st2, state_changed: c2, ..h }
                },
            }
        }
    }
}

/// Pointer HID handler: translates inbound reports into normalized pointer
/// state.
pub struct PointerHidHandler {
    agent: usize,
    controller: Option<usize>,
    input_reports: Vec<PointerReportData>,
    supported_usages: Vec<u32>,
    report_id_present: bool,
    state_changed: bool,
    current_state: AbsolutePointerState,
}

impl View for PointerHidHandler {
    type V = PtrView;

    closed spec fn view(&self) -> PtrView {
        PtrView {
            input_reports: Seq::new(self.input_reports@.len(), |i: int| self.input_reports@[i]@),
            supported_usages: self.supported_usages@,
            report_id_present: self.report_id_present,
            state_changed: self.state_changed,
            current_state: self.current_state,
            agent: self.agent,
            controller: self.controller,
        }
    }
}

/// Spec view of a run of exec pointer reports.
pub open spec fn spec_ptr_reports_view(v: Seq<PointerReportData>) -> Seq<PtrReportView> {
    Seq::new(v.len(), |i: int| v[i]@)
}

fn ptr_fields_from(fields: &Vec<FieldDef>, i: usize) -> (r: Vec<VariableFieldDef>)
    requires i <= fields@.len(),
    ensures r@ == spec_ptr_fields(Seq::new(fields@.len(), |k: int| fields@[k]@).skip(i as int)),
    decreases fields@.len() - i,
{
    let ghost fv = Seq::new(fields@.len(), |k: int| fields@[k]@);
    if i == fields.len() {
        let r: Vec<VariableFieldDef> = Vec::new();
        assert(fv.skip(i as int) =~= Seq::<FieldView>::empty());
        return r;
    }
    proof {
        assert(fv.skip(i as int)[0] == fv[i as int]);
        assert(fv.skip(i as int).drop_first() =~= fv.skip(i as int + 1));
    }
    let mut rest = ptr_fields_from(fields, i + 1);
    match &fields[i] {
        FieldDef::Variable(f) => {
            assert(fv[i as int] == FieldView::Variable(*f));
            let relevant = f.usage == GENERIC_DESKTOP_X || f.usage == GENERIC_DESKTOP_Y
                || f.usage == GENERIC_DESKTOP_Z || f.usage == GENERIC_DESKTOP_WHEEL
                || (BUTTON_MIN <= f.usage && f.usage <= BUTTON_MAX);
            if relevant {
                let ghost prev = rest@;
                rest.insert(0, *f);
                assert(rest@ =~= seq![*f] + prev);
            } else {
                assert(rest@ =~= spec_ptr_fields(fv.skip(i as int)));
            }
        },
        FieldDef::Array(f) => {
            assert(fv[i as int] == FieldView::Array(f@));
            assert(rest@ =~= spec_ptr_fields(fv.skip(i as int)));
        },
        FieldDef::Padding => {
            assert(fv[i as int] == FieldView::Padding);
            assert(rest@ =~= spec_ptr_fields(fv.skip(i as int)));
        },
    }
    rest
}

impl PointerHidHandler {
    /// Instantiates a new pointer handler owned by `agent`.
    pub fn new(agent: usize) -> (r: PointerHidHandler)
        ensures
            r@.agent == agent,
            r@.controller is None,
            r@.input_reports.len() == 0,
            r@.supported_usages.len() == 0,
            r@.report_id_present == false,
            r@.state_changed == false,
            r@.current_state == spec_initial_ptr_state(),
    {
        let r = PointerHidHandler {
            agent,
            controller: None,
            input_reports: Vec::new(),
            supported_usages: Vec::new(),
            report_id_present: false,
            state_changed: false,
            current_state: AbsolutePointerState {
                current_x: CENTER,
                current_y: CENTER,
                current_z: 0,
                active_buttons: 0,
            },
        };
        assert(r@.input_reports =~= Seq::<PtrReportView>::empty());
        r
    }

    /// Ingests a parsed report descriptor. A device error when several input
    /// reports exist and one carries no id; unsupported when no pointer
    /// field was found. On failure the handler is unchanged.
    pub fn process_descriptor(&mut self, descriptor: &ReportDescriptorInfo)
        -> (r: Result<(), EfiStatus>)
        ensures
            spec_ptr_id_conflict(descriptor@) <==> r == Err::<(), EfiStatus>(EfiStatus::DeviceError),
            !spec_ptr_id_conflict(descriptor@)
                && spec_ptr_inputs(descriptor@.input_reports).len() == 0
                <==> r == Err::<(), EfiStatus>(EfiStatus::Unsupported),
            r is Err ==> final(self)@ == old(self)@,
            r is Ok <==> !spec_ptr_id_conflict(descriptor@)
                && spec_ptr_inputs(descriptor@.input_reports).len() > 0,
            r is Ok ==> final(self)@ == (PtrView {
                input_reports: spec_ptr_inputs(descriptor@.input_reports),
                supported_usages: spec_ptr_usages(
                    descriptor@.input_reports, old(self)@.supported_usages),
                report_id_present: if descriptor@.input_reports.len() > 0 {
                    descriptor@.input_reports.last().report_id is Some
                } else {
                    old(self)@.report_id_present
                },
                ..old(self)@
            }),
    {
        let ghost dv = descriptor@;
        let ghost h0 = self@;
        proof {
            assert(dv.input_reports
                =~= Seq::new(descriptor.input_reports@.len(),
                    |k: int| descriptor.input_reports@[k]@));
        }
        let n = descriptor.input_reports.len();
        let multiple = n > 1;
        if multiple {
            let mut i: usize = 0;
            while i < n
                invariant
                    0 <= i <= n,
                    1 < n == descriptor.input_reports@.len(),
                    dv == descriptor@,
                    self@ == h0,
                    self@ == old(self)@,
                    forall|j: int| 0 <= j < i
                        ==> (#[trigger] dv.input_reports[j]).report_id is Some,
                decreases n - i,
            {
                if descriptor.input_reports[i].report_id.is_none() {
                    assert(dv.input_reports[i as int].report_id is None);
                    assert(spec_ptr_id_conflict(dv));
                    return Err(EfiStatus::DeviceError);
                }
                i = i + 1;
            }
        }
        assert(!spec_ptr_id_conflict(dv));
        // collect reports and usages
        let mut kept: Vec<PointerReportData> = Vec::new();
        let mut usages = copy_u32_vec(&self.supported_usages);
        let ghost u0 = usages@;
        assert(u0 == h0.supported_usages);
        proof {
            assert(dv.input_reports.skip(0) =~= dv.input_reports);
            assert(spec_ptr_reports_view(kept@) =~= Seq::<PtrReportView>::empty());
            assert(spec_ptr_reports_view(kept@) + spec_ptr_inputs(dv.input_reports)
                =~= spec_ptr_inputs(dv.input_reports));
        }
        let mut i: usize = 0;
        while i < n
            invariant
                0 <= i <= n,
                n == descriptor.input_reports@.len(),
                dv == descriptor@,
                spec_ptr_reports_view(kept@) + spec_ptr_inputs(dv.input_reports.skip(i as int))
                    == spec_ptr_inputs(dv.input_reports),
                spec_ptr_usages(dv.input_reports.skip(i as int), usages@)
                    == spec_ptr_usages(dv.input_reports, u0),
            decreases n - i,
        {
            proof {
                assert(dv.input_reports.skip(i as int)[0] == dv.input_reports[i as int]);
                assert(dv.input_reports.skip(i as int).drop_first()
                    =~= dv.input_reports.skip(i as int + 1));
            }
            let report = &descriptor.input_reports[i];
            let fields = ptr_fields_from(&report.fields, 0);
            proof {
                let fv = Seq::new(report.fields@.len(), |k: int| report.fields@[k]@);
                assert(fv.skip(0) =~= fv);
                assert(fv =~= dv.input_reports[i as int].fields);
            }
            // record the usages of every kept field
            let nf = fields.len();
            let ghost ustart = usages@;
            proof {
                assert(fields@.skip(0) =~= fields@);
            }
            let mut fj: usize = 0;
            while fj < nf
                invariant
                    0 <= fj <= nf,
                    nf == fields@.len(),
                    spec_collect_usages(usages@, fields@.skip(fj as int))
                        == spec_collect_usages(ustart, fields@),
                decreases nf - fj,
            {
                proof {
                    assert(fields@.skip(fj as int)[0] == fields@[fj as int]);
                    assert(fields@.skip(fj as int).drop_first() =~= fields@.skip(fj as int + 1));
                }
                crate::keyboard::sorted_insert(&mut usages, fields[fj].usage);
                fj = fj + 1;
            }
            proof {
                assert(fields@.skip(nf as int) =~= Seq::<VariableFieldDef>::empty());
            }
            if fields.len() > 0 {
                let prd = PointerReportData {
                    report_id: report.report_id,
                    report_size: div_ceil8_ptr(report.size_in_bits),
                    relevant_fields: fields,
                };
                let ghost prev = kept@;
                kept.push(prd);
                assert(spec_ptr_reports_view(kept@)
                    =~= spec_ptr_reports_view(prev).push(prd@)) by {
                    assert forall|k: int| 0 <= k < kept@.len() implies
                        spec_ptr_reports_view(kept@)[k]
                            == spec_ptr_reports_view(prev).push(prd@)[k] by {
                        if k < prev.len() {
                            assert(kept@[k] == prev[k]);
                            assert(spec_ptr_reports_view(prev)[k] == prev[k]@);
                        }
                    }
                }
                assert(spec_ptr_reports_view(kept@)
                    + spec_ptr_inputs(dv.input_reports.skip(i as int + 1))
                    =~= spec_ptr_reports_view(prev)
                        + spec_ptr_inputs(dv.input_reports.skip(i as int)));
            }
            i = i + 1;
        }
        proof {
            assert(dv.input_reports.skip(n as int) =~= Seq::<ReportInfoView>::empty());
            assert(spec_ptr_reports_view(kept@) + Seq::<PtrReportView>::empty()
                =~= spec_ptr_reports_view(kept@));
            assert(dv.input_reports.skip(0) =~= dv.input_reports);
        }
        if kept.len() == 0 {
            proof {
                assert(spec_ptr_inputs(dv.input_reports).len() == 0);
            }
            return Err(EfiStatus::Unsupported);
        }
        if n > 0 {
            self.report_id_present =
                descriptor.input_reports[n - 1].report_id.is_some();
            assert(dv.input_reports.last().report_id
                == descriptor.input_reports@[n - 1].report_id);
        }
        self.input_reports = kept;
        self.supported_usages = usages;
        assert(self@ =~= (PtrView {
            input_reports: spec_ptr_inputs(dv.input_reports),
            supported_usages: spec_ptr_usages(dv.input_reports, h0.supported_usages),
            report_id_present: if dv.input_reports.len() > 0 {
                dv.input_reports.last().report_id is Some
            } else {
                h0.report_id_present
            },
            ..h0
        }));
        Ok(())
    }
}

fn copy_u32_vec(v: &Vec<u32>) -> (r: Vec<u32>)
    ensures r@ == v@,
{
    let n = v.len();
    let mut out: Vec<u32> = Vec::new();
    let mut i: usize = 0;
    while i < n
        invariant
            0 <= i <= n,
            n == v@.len(),
            out@ == v@.subrange(0, i as int),
        decreases n - i,
    {
        out.push(v[i]);
        assert(out@ =~= v@.subrange(0, (i + 1) as int));
        i = i + 1;
    }
    assert(v@.subrange(0, n as int) =~= v@);
    out
}

fn div_ceil8_ptr(n: usize) -> (r: usize)
    ensures r == (n + 7) / 8,
{
    let r = if n % 8 == 0 { n / 8 } else { n / 8 + 1 };
    assert(r == (n + 7) / 8) by (nonlinear_arith)
        requires
            n % 8 == 0 ==> r == n / 8,
            n % 8 != 0 ==> r == n / 8 + 1,
            n >= 0,
    {
    }
    r
}

impl PointerHidHandler {
    /// Ingests a descriptor and binds the handler to a controller.
    pub fn initialize(&mut self, controller: usize, descriptor: &ReportDescriptorInfo)
        -> (r: Result<(), EfiStatus>)
        ensures
            r is Err ==> final(self)@ == old(self)@,
            r is Ok <==> !spec_ptr_id_conflict(descriptor@)
                && spec_ptr_inputs(descriptor@.input_reports).len() > 0,
            r is Ok ==> final(self)@ == (PtrView {
                input_reports: spec_ptr_inputs(descriptor@.input_reports),
                supported_usages: spec_ptr_usages(
                    descriptor@.input_reports, old(self)@.supported_usages),
                report_id_present: if descriptor@.input_reports.len() > 0 {
                    descriptor@.input_reports.last().report_id is Some
                } else {
                    old(self)@.report_id_present
                },
                controller: Some(controller),
                ..old(self)@
            }),
    {
        match self.process_descriptor(descriptor) {
            Err(e) => Err(e),
            Ok(()) => {
                self.controller = Some(controller);
                assert(self@ =~= (PtrView {
                    input_reports: spec_ptr_inputs(descriptor@.input_reports),
                    supported_usages: spec_ptr_usages(
                        descriptor@.input_reports, old(self)@.supported_usages),
                    report_id_present: if descriptor@.input_reports.len() > 0 {
                        descriptor@.input_reports.last().report_id is Some
                    } else {
                        old(self)@.report_id_present
                    },
                    controller: Some(controller),
                    ..old(self)@
                }));
                Ok(())
            },
        }
    }

    fn lookup_report_index(&self, id: Option<u32>) -> (r: Option<usize>)
        ensures
            match r {
                Some(i) => i < self.input_reports@.len()
                    && spec_ptr_lookup(self@.input_reports, id)
                        == Some(self.input_reports@[i as int]@),
                None => spec_ptr_lookup(self@.input_reports, id) is None,
            },
    {
        let ghost rv = self@.input_reports;
        let n = self.input_reports.len();
        proof {
            assert(rv =~= spec_ptr_reports_view(self.input_reports@));
            assert(rv.skip(0) =~= rv);
        }
        let mut i: usize = 0;
        while i < n
            invariant
                0 <= i <= n,
                n == self.input_reports@.len(),
                rv == spec_ptr_reports_view(self.input_reports@),
                rv == self@.input_reports,
                spec_ptr_lookup(rv, id) == spec_ptr_lookup(rv.skip(i as int), id),
            decreases n - i,
        {
            proof {
                assert(rv.skip(i as int)[0] == rv[i as int]);
                assert(rv.skip(i as int).drop_first() =~= rv.skip(i as int + 1));
            }
            let matches_id = match (&self.input_reports[i].report_id, &id) {
                (Some(a), Some(c)) => *a == *c,
                (None, None) => true,
                _ => false,
            };
            if matches_id {
                assert(rv[i as int].report_id == id);
                return Some(i);
            }
            assert(rv[i as int].report_id != id);
            i = i + 1;
        }
        proof {
            assert(rv.skip(n as int) =~= Seq::<PtrReportView>::empty());
        }
        None
    }

    /// Handles one inbound report: peels the id when ids are in use, drops
    /// mis-sized or unknown reports, and folds the axis and button fields
    /// over the pointer state.
    pub fn receive_report(&mut self, report: &[u8])
        requires spec_ptr_state_wf(old(self)@.current_state),
        ensures
            final(self)@ == spec_ptr_receive(old(self)@, report@),
            spec_ptr_state_wf(final(self)@.current_state),
    {
        let ghost h0 = self@;
        if report.len() == 0 {
            assert(self@ =~= spec_ptr_receive(h0, report@));
            return;
        }
        let (id, body_start): (Option<u32>, usize) = if self.report_id_present {
            (Some(report[0] as u32), 1)
        } else {
            (None, 0)
        };
        let body_len = report.len() - body_start;
        let ghost body = if h0.report_id_present { report@.drop_first() } else { report@ };
        assert(body =~= report@.subrange(body_start as int, report@.len() as int));
        if body_len == 0 {
            assert(self@ =~= spec_ptr_receive(h0, report@));
            return;
        }
        let ri = match self.lookup_report_index(id) {
            None => {
                assert(self@ =~= spec_ptr_receive(h0, report@));
                return;
            },
            Some(ri) => ri,
        };
        if body_len != self.input_reports[ri].report_size {
            assert(self@ =~= spec_ptr_receive(h0, report@));
            return;
        }
        let mut body_vec: Vec<u8> = Vec::new();
        let mut bi: usize = body_start;
        while bi < report.len()
            invariant
                body_start <= bi <= report@.len(),
                body_vec@ == report@.subrange(body_start as int, bi as int),
            decreases report@.len() - bi,
        {
            body_vec.push(report[bi]);
            assert(body_vec@ =~= report@.subrange(body_start as int, (bi + 1) as int));
            bi = bi + 1;
        }
        assert(body_vec@ == body);
        let ghost fields = self.input_reports@[ri as int]@.fields;
        let nf = self.input_reports[ri].relevant_fields.len();
        proof {
            assert(fields.skip(0) =~= fields);
            lemma_apply_fields_wf(h0.current_state, h0.state_changed, fields, body);
        }
        let mut fj: usize = 0;
        while fj < nf
            invariant
                0 <= fj <= nf,
                ri < self.input_reports@.len(),
                nf == self.input_reports@[ri as int].relevant_fields@.len(),
                fields == self.input_reports@[ri as int]@.fields,
                body_vec@ == body,
                spec_ptr_state_wf(self.current_state),
                self@ == (PtrView {
                    current_state: self@.current_state,
                    state_changed: self@.state_changed,
                    ..h0
                }),
                spec_apply_ptr_fields(
                    self.current_state, self.state_changed, fields.skip(fj as int), body)
                    == spec_apply_ptr_fields(
                        h0.current_state, h0.state_changed, fields, body),
            decreases nf - fj,
        {
            proof {
                assert(fields.skip(fj as int)[0] == fields[fj as int]);
                assert(fields.skip(fj as int).drop_first() =~= fields.skip(fj as int + 1));
            }
            let f = self.input_reports[ri].relevant_fields[fj];
            assert(f == fields[fj as int]);
            let ghost st_pre = self.current_state;
            let ghost ch_pre = self.state_changed;
            if f.usage == GENERIC_DESKTOP_X {
                if let Some(v) = resolve_axis(self.current_state.current_x, &f, body_vec.as_slice()) {
                    if v != self.current_state.current_x {
                        self.state_changed = true;
                    }
                    self.current_state.current_x = v;
                }
            } else if f.usage == GENERIC_DESKTOP_Y {
                if let Some(v) = resolve_axis(self.current_state.current_y, &f, body_vec.as_slice()) {
                    if v != self.current_state.current_y {
                        self.state_changed = true;
                    }
                    self.current_state.current_y = v;
                }
            } else if f.usage == GENERIC_DESKTOP_Z || f.usage == GENERIC_DESKTOP_WHEEL {
                if let Some(v) = resolve_axis(self.current_state.current_z, &f, body_vec.as_slice()) {
                    if v != self.current_state.current_z {
                        self.state_changed = true;
                    }
                    self.current_state.current_z = v;
                }
            } else if BUTTON_MIN <= f.usage && f.usage <= BUTTON_MAX && f.usage - BUTTON_MIN <= 31 {
                if let Some(v) = field_value(
                    body_vec.as_slice(), f.bit_start, f.bit_end, f.logical_min, f.logical_max) {
                    let shift = (f.usage - BUTTON_MIN) as u32;
                    let truncated = #[verifier::truncate] (v as u32);
                    let new_buttons = (self.current_state.active_buttons & !(1u32 << shift))
                        | (truncated << shift);
                    if new_buttons != self.current_state.active_buttons {
                        self.state_changed = true;
                    }
                    self.current_state.active_buttons = new_buttons;
                }
            }
            proof {
                assert((self.current_state, self.state_changed)
                    == spec_apply_ptr_field(st_pre, ch_pre, f, body));
            }
            fj = fj + 1;
        }
        proof {
            assert(fields.skip(nf as int) =~= Seq::<VariableFieldDef>::empty());
            assert(self@ =~= spec_ptr_receive(h0, report@));
        }
    }

    /// Reinitializes the pointer state: axes centred, buttons clear, no
    /// change pending.
    pub fn reset_state(&mut self)
        ensures
            final(self)@ == (PtrView {
                current_state: spec_initial_ptr_state(),
                state_changed: false,
                ..old(self)@
            }),
    {
        self.current_state = AbsolutePointerState {
            current_x: CENTER,
            current_y: CENTER,
            current_z: 0,
            active_buttons: 0,
        };
        self.state_changed = false;
        assert(self@ =~= (PtrView {
            current_state: spec_initial_ptr_state(),
            state_changed: false,
            ..old(self)@
        }));
    }

    /// Returns the pointer state exactly when a change is pending, clearing
    /// the change flag; not-ready otherwise, with no state written.
    pub fn get_state(&mut self) -> (r: Result<AbsolutePointerState, EfiStatus>)
        ensures
            old(self)@.state_changed ==> r == Ok::<AbsolutePointerState, EfiStatus>(
                old(self)@.current_state)
                && final(self)@ == (PtrView { state_changed: false, ..old(self)@ }),
            !old(self)@.state_changed ==> r == Err::<AbsolutePointerState, EfiStatus>(
                EfiStatus::NotReady) && final(self)@ == old(self)@,
    {
        if self.state_changed {
            self.state_changed = false;
            assert(self@ =~= (PtrView { state_changed: false, ..old(self)@ }));
            Ok(self.current_state)
        } else {
            assert(self@ =~= old(self)@);
            Err(EfiStatus::NotReady)
        }
    }

    /// Whether a change is pending; the wait-for-input path signals its
    /// event exactly then.
    pub fn has_input(&self) -> (r: bool)
        ensures r == self@.state_changed,
    {
        self.state_changed
    }

    /// The advertised mode: each axis spans the full resolution exactly when
    /// a matching usage was seen; the alternate-button attribute is set with
    /// more than one button usage, and the pressure attribute whenever a Z
    /// or wheel usage is present.
    pub fn initialize_mode(&self) -> (r: AbsolutePointerMode)
        ensures
            r.absolute_min_x == 0 && r.absolute_min_y == 0 && r.absolute_min_z == 0,
            self@.supported_usages.contains(GENERIC_DESKTOP_X) <==> r.absolute_max_x == 1024,
            !self@.supported_usages.contains(GENERIC_DESKTOP_X) ==> r.absolute_max_x == 0,
            self@.supported_usages.contains(GENERIC_DESKTOP_Y) <==> r.absolute_max_y == 1024,
            !self@.supported_usages.contains(GENERIC_DESKTOP_Y) ==> r.absolute_max_y == 0,
            (self@.supported_usages.contains(GENERIC_DESKTOP_Z)
                || self@.supported_usages.contains(GENERIC_DESKTOP_WHEEL))
                <==> r.absolute_max_z == 1024,
            r.attributes == (if self@.supported_usages.contains(GENERIC_DESKTOP_Z)
                || self@.supported_usages.contains(GENERIC_DESKTOP_WHEEL) { 2u32 } else { 0u32 })
                + (if spec_button_count(self@.supported_usages) > 1 { 1u32 } else { 0u32 }),
    {
        let mut mode = AbsolutePointerMode {
            absolute_min_x: 0, absolute_min_y: 0, absolute_min_z: 0,
            absolute_max_x: 0, absolute_max_y: 0, absolute_max_z: 0,
            attributes: 0,
        };
        if usages_contain(&self.supported_usages, GENERIC_DESKTOP_X) {
            mode.absolute_max_x = AXIS_RESOLUTION;
        }
        if usages_contain(&self.supported_usages, GENERIC_DESKTOP_Y) {
            mode.absolute_max_y = AXIS_RESOLUTION;
        }
        let z = usages_contain(&self.supported_usages, GENERIC_DESKTOP_Z)
            || usages_contain(&self.supported_usages, GENERIC_DESKTOP_WHEEL);
        if z {
            mode.absolute_max_z = AXIS_RESOLUTION;
            mode.attributes = mode.attributes + 2;
        }
        let buttons = button_count(&self.supported_usages);
        if buttons > 1 {
            mode.attributes = mode.attributes + 1;
        }
        mode
    }

    /// The handle owning this handler.
    pub fn get_agent(&self) -> (r: usize)
        ensures r == self@.agent,
    {
        self.agent
    }

    /// The controller this handler is bound to, if started.
    pub fn get_controller(&self) -> (r: Option<usize>)
        ensures r == self@.controller,
    {
        self.controller
    }
}

/// The count of supported usages on the button page.
pub open spec fn spec_button_count(us: Seq<u32>) -> int
    decreases us.len(),
{
    if us.len() == 0 {
        0
    } else {
        (if us[0] >> 16 == BUTTON_PAGE as u32 { 1int } else { 0int })
            + spec_button_count(us.drop_first())
    }
}

fn usages_contain(v: &Vec<u32>, u: u32) -> (r: bool)
    ensures r == v@.contains(u),
{
    let n = v.len();
    let mut i: usize = 0;
    while i < n
        invariant
            0 <= i <= n,
            n == v@.len(),
            forall|j: int| 0 <= j < i ==> v@[j] != u,
        decreases n - i,
    {
        if v[i] == u {
            return true;
        }
        i = i + 1;
    }
    assert(!v@.contains(u));
    false
}

fn button_count(v: &Vec<u32>) -> (r: usize)
    ensures r == spec_button_count(v@),
{
    let n = v.len();
    proof {
        assert(v@.skip(0) =~= v@);
    }
    let mut count: usize = 0;
    let mut i: usize = 0;
    while i < n
        invariant
            0 <= i <= n,
            n == v@.len(),
            count <= i,
            count + spec_button_count(v@.skip(i as int)) == spec_button_count(v@),
        decreases n - i,
    {
        proof {
            assert(v@.skip(i as int)[0] == v@[i as int]);
            assert(v@.skip(i as int).drop_first() =~= v@.skip(i as int + 1));
        }
        if v[i] >> 16 == BUTTON_PAGE as u32 {
            count = count + 1;
        }
        i = i + 1;
    }
    proof {
        assert(v@.skip(n as int) =~= Seq::<u32>::empty());
    }
    count
}

impl PointerHidHandler {
    /// The current pointer state, without consuming the change flag.
    pub fn peek_state(&self) -> (r: AbsolutePointerState)
        ensures r == self@.current_state,
    {
        self.current_state
    }
}

/// Every resolved axis position lies within the axis bounds.
pub proof fn lemma_axis_in_bounds(current: u64, f: VariableFieldDef, b: Seq<u8>)
    ensures spec_resolve_axis(current, f, b) matches Some(v) ==> 0 <= v <= 1024,
{
}

/// An absolute input within a non-empty logical range projects to the
/// scaled position, clamped to the axis bounds.
pub proof fn lemma_absolute_axis_projection(
    current: u64, f: VariableFieldDef, b: Seq<u8>, v: i64, rg: u32,
)
    requires
        !f.relative,
        spec_field_value(b, f.bit_start as int, f.bit_end as int, f.logical_min, f.logical_max)
            == Some(v),
        spec_field_range(f.logical_min, f.logical_max) == Some(rg),
    ensures
        spec_resolve_axis(current, f, b)
            == Some(spec_clamp_axis(((v - f.logical_min) * 1024 * 1000) / (rg * 1000))),
{
}

/// A relative input moves the position by the read value, clamped to the
/// axis bounds.
pub proof fn lemma_relative_axis_projection(current: u64, f: VariableFieldDef, b: Seq<u8>, v: i64)
    requires
        f.relative,
        spec_field_value(b, f.bit_start as int, f.bit_end as int, f.logical_min, f.logical_max)
            == Some(v),
    ensures
        spec_resolve_axis(current, f, b) == Some(spec_clamp_axis(current + v)),
{
}

} // verus!
