//! Construction of the initial hardware state of one virtual processor
//! (the VMSA), encoding real-mode-compatible reset semantics.

use vstd::prelude::*;

use crate::cmd_options::Platform;
use crate::directive::Directive;
use crate::directive::DirectiveView;

verus! {

/// The architectural reset address of the boot processor.
pub const BSP_RESET_ADDR: u32 = 0xfffffff0;

/// One segment register: selector, attributes, limit and base.
#[derive(Copy, Clone, Debug, PartialEq, Eq, Structural)]
pub struct SegmentRegister {
    pub selector: u16,
    pub attrib: u16,
    pub limit: u32,
    pub base: u64,
}

/// The initial register snapshot installed for one virtual processor.
#[derive(Copy, Clone, Debug, PartialEq, Eq, Structural)]
pub struct ProcessorState {
    pub cs: SegmentRegister,
    pub ds: SegmentRegister,
    pub es: SegmentRegister,
    pub fs: SegmentRegister,
    pub gs: SegmentRegister,
    pub ss: SegmentRegister,
    pub tr: SegmentRegister,
    pub ldtr: SegmentRegister,
    pub dr6: u64,
    pub dr7: u64,
    pub cr0: u64,
    pub cr4: u64,
    pub xcr0: u64,
    pub rip: u64,
    pub rflags: u64,
    pub pat: u64,
    pub efer: u64,
    pub x87_fcw: u16,
    pub mxcsr: u32,
    /// The extended-feature-control word; bit 0 signals SNP to the
    /// hypervisor.
    pub sev_features: u64,
}

/// A data segment at reset: selector 0, base 0, limit 0xffff, access 0x93.
pub open spec fn spec_data_segment() -> SegmentRegister {
    SegmentRegister { selector: 0, attrib: 0x93, limit: 0xffff, base: 0 }
}

/// The full reset state of one processor: fixed architectural values, with
/// the code segment and instruction pointer derived from `reset_addr`, and
/// the SNP feature bit set exactly on the most capable platform.
pub open spec fn spec_vmsa(reset_addr: u32, platform: Platform) -> ProcessorState {
    ProcessorState {
        cs: SegmentRegister {
            selector: 0xf000,
            attrib: 0x9b,
            limit: 0xffff,
            base: (reset_addr & 0xffff0000) as u64,
        },
        ds: spec_data_segment(),
        es: spec_data_segment(),
        fs: spec_data_segment(),
        gs: spec_data_segment(),
        ss: spec_data_segment(),
        tr: SegmentRegister { selector: 0, attrib: 0x8b, limit: 0xffff, base: 0 },
        ldtr: SegmentRegister { selector: 0, attrib: 0x82, limit: 0xffff, base: 0 },
        dr6: 0xffff0ff0,
        dr7: 0x400,
        cr0: 0x10,
        cr4: 0x40,
        xcr0: 1,
        rip: (reset_addr & 0xffff) as u64,
        rflags: 2,
        pat: 0x0007040600070406,
        efer: 0x1000,
        x87_fcw: 0x37f,
        mxcsr: 0x1f80,
        sev_features: if platform is SevSnp {
            1
        } else {
            0
        },
    }
}

/// Builds the initial register state for one processor that starts fetching
/// at `reset_addr` on `platform`.
fn construct_vmsa(reset_addr: u32, platform: Platform) -> (r: ProcessorState)
    ensures
        r == spec_vmsa(reset_addr, platform),
{
    let data_segment = SegmentRegister { selector: 0, attrib: 0x93, limit: 0xffff, base: 0 };
    let snp: bool = match platform {
        Platform::SevSnp => true,
        _ => false,
    };
    ProcessorState {
        cs: SegmentRegister {
            selector: 0xf000,
            attrib: 0x9b,
            limit: 0xffff,
            base: (reset_addr & 0xffff0000) as u64,
        },
        ds: data_segment,
        es: data_segment,
        fs: data_segment,
        gs: data_segment,
        ss: data_segment,
        tr: SegmentRegister { selector: 0, attrib: 0x8b, limit: 0xffff, base: 0 },
        ldtr: SegmentRegister { selector: 0, attrib: 0x82, limit: 0xffff, base: 0 },
        dr6: 0xffff0ff0,
        dr7: 0x400,
        cr0: 0x10,
        cr4: 0x40,
        xcr0: 1,
        rip: (reset_addr & 0xffff) as u64,
        rflags: 2,
        pat: 0x0007040600070406,
        efer: 0x1000,
        x87_fcw: 0x37f,
        mxcsr: 0x1f80,
        sev_features: if snp {
            1
        } else {
            0
        },
    }
}

/// The directive installing an application processor's initial state: the
/// supplied index and reset address, at the fixed context address.
pub fn construct_ap_vmsa(
    gpa_start: u64,
    compatibility_mask: u32,
    platform: Platform,
    reset_addr: u32,
    vp_index: u16,
) -> (r: Directive)
    ensures
        r@ == (DirectiveView::ProcessorContext {
            gpa: gpa_start,
            compatibility_mask,
            vp_index,
            vmsa: spec_vmsa(reset_addr, platform),
        }),
{
    let vmsa = construct_vmsa(reset_addr, platform);
    Directive::ProcessorContext { gpa: gpa_start, compatibility_mask, vp_index, vmsa }
}

/// The directive installing the boot processor's initial state: always
/// index 0, starting at the architectural reset address.
pub fn construct_bsp_vmsa(gpa_start: u64, compatibility_mask: u32, platform: Platform) -> (r:
    Directive)
    ensures
        r@ == (DirectiveView::ProcessorContext {
            gpa: gpa_start,
            compatibility_mask,
            vp_index: 0,
            vmsa: spec_vmsa(BSP_RESET_ADDR, platform),
        }),
{
    let vmsa = construct_vmsa(BSP_RESET_ADDR, platform);
    Directive::ProcessorContext { gpa: gpa_start, compatibility_mask, vp_index: 0, vmsa }
}

} // verus!
