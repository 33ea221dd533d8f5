use vstd::prelude::*;
use crate::keys::EfiKey;

verus! {

/// A 16-byte firmware GUID, stored in its wire byte order.
#[derive(Debug, Clone, PartialEq, Eq)]
pub struct Guid {
    pub bytes: Vec<u8>,
}

impl View for Guid {
    type V = Seq<u8>;

    open spec fn view(&self) -> Seq<u8> {
        self.bytes@
    }
}

/// Wire bytes of a GUID given as its structured fields.
pub open spec fn spec_guid_from_fields(
    d1: u32, d2: u16, d3: u16, c_hi: u8, c_lo: u8, node: Seq<u8>,
) -> Seq<u8> {
    seq![
        (d1 % 256) as u8, ((d1 / 256) % 256) as u8,
        ((d1 / 65536) % 256) as u8, ((d1 / 16777216) % 256) as u8,
        (d2 % 256) as u8, ((d2 / 256) % 256) as u8,
        (d3 % 256) as u8, ((d3 / 256) % 256) as u8,
        c_hi, c_lo,
    ] + node
}

impl Guid {
    pub open spec fn wf(&self) -> bool {
        self@.len() == 16
    }

    /// Builds a GUID from the conventional field form.
    pub fn from_fields(d1: u32, d2: u16, d3: u16, c_hi: u8, c_lo: u8, node: &[u8; 6]) -> (r: Guid)
        ensures
            r@ == spec_guid_from_fields(d1, d2, d3, c_hi, c_lo, node@),
            r.wf(),
    {
        let mut bytes: Vec<u8> = Vec::new();
        bytes.push((d1 % 256) as u8);
        bytes.push(((d1 / 256) % 256) as u8);
        bytes.push(((d1 / 65536) % 256) as u8);
        bytes.push(((d1 / 16777216) % 256) as u8);
        bytes.push((d2 % 256) as u8);
        bytes.push(((d2 / 256) % 256) as u8);
        bytes.push((d3 % 256) as u8);
        bytes.push(((d3 / 256) % 256) as u8);
        bytes.push(c_hi);
        bytes.push(c_lo);
        let mut i: usize = 0;
        while i < 6
            invariant
                0 <= i <= 6,
                bytes@ == spec_guid_from_fields(d1, d2, d3, c_hi, c_lo, node@.take(i as int)),
            decreases 6 - i,
        {
            bytes.push(node[i]);
            i = i + 1;
        }
        assert(node@.take(6) == node@);
        Guid { bytes }
    }

}

/// One key position of a layout: its unicode outputs under the four shift
/// planes, its modifier code, and which state bits affect it.
#[derive(Debug, Clone, Copy, PartialEq, Eq, Structural)]
pub struct HiiKeyDescriptor {
    pub key: EfiKey,
    pub unicode: u16,
    pub shifted_unicode: u16,
    pub alt_gr_unicode: u16,
    pub shifted_alt_gr_unicode: u16,
    pub modifier: u16,
    pub affected_attribute: u16,
}

/// A non-spacing (dead) key: the marker descriptor plus the descriptors that
/// may follow it to compose an output.
#[derive(Debug, Clone, PartialEq, Eq)]
pub struct HiiNsKeyDescriptor {
    pub descriptor: HiiKeyDescriptor,
    pub dependent_keys: Vec<HiiKeyDescriptor>,
}

/// Spec-level value of a non-spacing key.
#[verifier::ext_equal]
pub ghost struct NsKeyView {
    pub descriptor: HiiKeyDescriptor,
    pub dependent_keys: Seq<HiiKeyDescriptor>,
}

impl View for HiiNsKeyDescriptor {
    type V = NsKeyView;

    open spec fn view(&self) -> NsKeyView {
        NsKeyView { descriptor: self.descriptor, dependent_keys: self.dependent_keys@ }
    }
}

/// A layout item: either a plain key or a non-spacing key.
#[derive(Debug, Clone, PartialEq, Eq)]
pub enum HiiKey {
    Key(HiiKeyDescriptor),
    NsKey(HiiNsKeyDescriptor),
}

/// Spec-level value of a layout item.
#[verifier::ext_equal]
pub ghost enum HiiKeyView {
    Key(HiiKeyDescriptor),
    NsKey(NsKeyView),
}

impl View for HiiKey {
    type V = HiiKeyView;

    open spec fn view(&self) -> HiiKeyView {
        match self {
            HiiKey::Key(d) => HiiKeyView::Key(*d),
            HiiKey::NsKey(n) => HiiKeyView::NsKey(n@),
        }
    }
}

/// A language tag and human description for a layout, as UCS-2 code units.
#[derive(Debug, Clone, PartialEq, Eq)]
pub struct HiiKeyboardDescription {
    pub language: Vec<u16>,
    pub description: Vec<u16>,
}

/// Spec-level value of a layout description.
#[verifier::ext_equal]
pub ghost struct DescriptionView {
    pub language: Seq<u16>,
    pub description: Seq<u16>,
}

impl View for HiiKeyboardDescription {
    type V = DescriptionView;

    open spec fn view(&self) -> DescriptionView {
        DescriptionView { language: self.language@, description: self.description@ }
    }
}

/// A keyboard layout: its GUID, its items, and its descriptions.
#[derive(Debug, Clone, PartialEq, Eq)]
pub struct HiiKeyboardLayout {
    pub guid: Guid,
    pub keys: Vec<HiiKey>,
    pub descriptions: Vec<HiiKeyboardDescription>,
}

/// Spec-level value of a keyboard layout.
#[verifier::ext_equal]
pub ghost struct LayoutView {
    pub guid: Seq<u8>,
    pub keys: Seq<HiiKeyView>,
    pub descriptions: Seq<DescriptionView>,
}

impl View for HiiKeyboardLayout {
    type V = LayoutView;

    open spec fn view(&self) -> LayoutView {
        LayoutView {
            guid: self.guid@,
            keys: Seq::new(self.keys@.len(), |i: int| self.keys@[i]@),
            descriptions: Seq::new(self.descriptions@.len(), |i: int| self.descriptions@[i]@),
        }
    }
}

/// A keyboard-layout package: the layouts it carries.
#[derive(Debug, Clone, PartialEq, Eq)]
pub struct HiiKeyboardPkg {
    pub layouts: Vec<HiiKeyboardLayout>,
}

/// Spec-level value of a keyboard-layout package.
#[verifier::ext_equal]
pub ghost struct PkgView {
    pub layouts: Seq<LayoutView>,
}

impl View for HiiKeyboardPkg {
    type V = PkgView;

    open spec fn view(&self) -> PkgView {
        PkgView { layouts: Seq::new(self.layouts@.len(), |i: int| self.layouts@[i]@) }
    }
}

/// A package list holding exactly one keyboard-layout package.
#[derive(Debug, Clone, PartialEq, Eq)]
pub struct HiiKeyboardPkgList {
    pub package_list_guid: Guid,
    pub package: HiiKeyboardPkg,
}

/// Spec-level value of a package list.
#[verifier::ext_equal]
pub ghost struct PkgListView {
    pub package_list_guid: Seq<u8>,
    pub package: PkgView,
}

impl View for HiiKeyboardPkgList {
    type V = PkgListView;

    open spec fn view(&self) -> PkgListView {
        PkgListView { package_list_guid: self.package_list_guid@, package: self.package@ }
    }
}

} // verus!
