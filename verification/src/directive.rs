//! The library's model of one boot directive: place a page of data at a
//! guest physical address, or install the initial state of one virtual
//! processor. An external serializer turns these into the container format.

use vstd::prelude::*;

use crate::vmsa::ProcessorState;

verus! {

/// Size in bytes of one guest page.
pub const PAGE_SIZE_4K: u64 = 4096;

/// What kind of contents a placed page carries.
#[derive(Copy, Clone, Debug, PartialEq, Eq, Structural)]
pub enum PageDataType {
    /// Ordinary data (or an empty reservation).
    Normal,
    /// The page the firmware expects the secrets page at.
    Secrets,
    /// The page the firmware expects CPUID data at.
    CpuidData,
}

/// One boot-time instruction of the generated descriptor.
#[derive(Debug, Clone, PartialEq, Eq)]
pub enum Directive {
    /// Place `data` (possibly empty, meaning a reservation) at `gpa`.
    PageData { gpa: u64, compatibility_mask: u32, data_type: PageDataType, data: Vec<u8> },
    /// Install `vmsa` as the initial state of processor `vp_index`.
    ProcessorContext { gpa: u64, compatibility_mask: u32, vp_index: u16, vmsa: ProcessorState },
}

/// The mathematical value of a directive: as `Directive`, with the payload
/// bytes as a sequence.
pub enum DirectiveView {
    PageData { gpa: u64, compatibility_mask: u32, data_type: PageDataType, data: Seq<u8> },
    ProcessorContext { gpa: u64, compatibility_mask: u32, vp_index: u16, vmsa: ProcessorState },
}

impl View for Directive {
    type V = DirectiveView;

    open spec fn view(&self) -> DirectiveView {
        match self {
            Directive::PageData { gpa, compatibility_mask, data_type, data } => {
                DirectiveView::PageData {
                    gpa: *gpa,
                    compatibility_mask: *compatibility_mask,
                    data_type: *data_type,
                    data: data@,
                }
            },
            Directive::ProcessorContext { gpa, compatibility_mask, vp_index, vmsa } => {
                DirectiveView::ProcessorContext {
                    gpa: *gpa,
                    compatibility_mask: *compatibility_mask,
                    vp_index: *vp_index,
                    vmsa: *vmsa,
                }
            },
        }
    }
}

/// The values of a whole directive list.
pub open spec fn dirs_views(s: Seq<Directive>) -> Seq<DirectiveView> {
    s.map_values(|d: Directive| d@)
}

/// Appending one directive appends its value.
pub proof fn lemma_dirs_views_push(s: Seq<Directive>, d: Directive)
    ensures
        dirs_views(s.push(d)) == dirs_views(s).push(d@),
{
    assert(dirs_views(s.push(d)) =~= dirs_views(s).push(d@));
}

/// How many pages cover `len` bytes: `len / 4096`, rounded up.
pub open spec fn page_count(len: int) -> int {
    (len + PAGE_SIZE_4K as int - 1) / (PAGE_SIZE_4K as int)
}

/// The clipped byte range of page `k` of a buffer of `len` bytes.
pub open spec fn page_end(len: int, k: int) -> int {
    if 4096 * (k + 1) <= len {
        4096 * (k + 1)
    } else {
        len
    }
}

/// Page `k` of the firmware image, placed at `start + 4096 * k`.
pub open spec fn fw_page_at(data: Seq<u8>, start: int, mask: u32, k: int) -> DirectiveView {
    DirectiveView::PageData {
        gpa: (start + 4096 * k) as u64,
        compatibility_mask: mask,
        data_type: PageDataType::Normal,
        data: data.subrange(4096 * k, page_end(data.len() as int, k)),
    }
}

/// The page directives that carry the firmware image itself, one per
/// 4096-byte chunk (the final chunk may be shorter).
pub open spec fn fw_pages(data: Seq<u8>, start: int, mask: u32) -> Seq<DirectiveView> {
    Seq::new(page_count(data.len() as int) as nat, |k: int| fw_page_at(data, start, mask, k))
}

/// For any firmware byte length, one ordinary page directive covers each
/// 4096-byte chunk of the image: `len / 4096` rounded up, in all.
pub proof fn lemma_fw_pages_count(data: Seq<u8>, start: int, mask: u32)
    ensures
        fw_pages(data, start, mask).len() == page_count(data.len() as int),
{
}

/// A page directive with no payload: a reservation of `gpa`.
pub open spec fn empty_page(gpa: u64, mask: u32, data_type: PageDataType) -> DirectiveView {
    DirectiveView::PageData { gpa, compatibility_mask: mask, data_type, data: Seq::empty() }
}

} // verus!
