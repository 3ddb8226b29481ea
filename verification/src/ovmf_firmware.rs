//! The backward-walking GUID-table parser that recovers firmware metadata
//! from the tail of an OVMF image, and the builder of the page-placement
//! directives for the firmware bytes and its prevalidated regions.
//!
//! A table, read backward from a "current offset", is laid out as
//! `[ payload ][ 2-byte little-endian total length ][ 16-byte GUID ]`, the
//! GUID ending exactly at the current offset. Tables are chained by being
//! laid out contiguously before one another, and the chain is found through
//! a fixed footer table near the end of the image.

use vstd::prelude::*;
use vstd::slice::slice_subrange;
use vstd::slice::slice_to_vec;

use crate::bytes::read_u16;
use crate::bytes::read_u32;
use crate::bytes::spec_le_u16;
use crate::bytes::spec_le_u32;
use crate::cmd_options::Platform;
use crate::directive::dirs_views;
use crate::directive::empty_page;
use crate::directive::fw_page_at;
use crate::directive::fw_pages;
use crate::directive::lemma_dirs_views_push;
use crate::directive::page_count;
use crate::directive::page_end;
use crate::directive::Directive;
use crate::directive::DirectiveView;
use crate::directive::PageDataType;
use crate::error::BuildError;

verus! {

/// Metadata descriptor type: a prevalidated memory region.
pub const SEV_META_DESC_TYPE_MEM: u32 = 1;

/// Metadata descriptor type: the secrets page.
pub const SEV_META_DESC_TYPE_SECRETS: u32 = 2;

/// Metadata descriptor type: the CPUID page.
pub const SEV_META_DESC_TYPE_CPUID: u32 = 3;

/// Metadata descriptor type: the calling-area page.
pub const SEV_META_DESC_TYPE_CAA: u32 = 4;

/// Offset from the end of the file where the OVMF table footer GUID should
/// be.
pub const FOOTER_OFFSET: usize = 32;

/// Upper bound on the number of prevalidated memory regions the firmware may
/// declare.
pub const MAX_PREVALIDATED: usize = 8;

/// Bytes of a table footer: 16-byte GUID plus 2-byte length field.
pub const TABLE_FOOTER_SIZE: usize = 18;

/// The GUID (in little-endian byte order) tagging the OVMF table footer,
/// `96b582de-1fb2-45f7-baea-a366c55a082d`.
pub open spec fn spec_footer_guid() -> Seq<u8> {
    seq![
        0xdeu8, 0x82, 0xb5, 0x96, 0xb2, 0x1f, 0xf7, 0x45, 0xba, 0xea, 0xa3, 0x66, 0xc5, 0x5a,
        0x08, 0x2d,
    ]
}

/// The GUID (little-endian) tagging the SEV metadata pointer table,
/// `dc886566-984a-4798-a75e-5585a7bf67cc`.
pub open spec fn spec_sev_metadata_guid() -> Seq<u8> {
    seq![
        0x66u8, 0x65, 0x88, 0xdc, 0x4a, 0x98, 0x98, 0x47, 0xa7, 0x5e, 0x55, 0x85, 0xa7, 0xbf,
        0x67, 0xcc,
    ]
}

/// The GUID (little-endian) tagging the SEV info block,
/// `00f771de-1a7e-4fcb-890e-68c77e2fb44e`.
pub open spec fn spec_sev_info_block_guid() -> Seq<u8> {
    seq![
        0xdeu8, 0x71, 0xf7, 0x00, 0x7e, 0x1a, 0xcb, 0x4f, 0x89, 0x0e, 0x68, 0xc7, 0x7e, 0x2f,
        0xb4, 0x4e,
    ]
}

/// The footer GUID as bytes.
pub fn footer_guid() -> (r: Vec<u8>)
    ensures
        r@ == spec_footer_guid(),
{
    let r: Vec<u8> = vec![
        0xdeu8, 0x82, 0xb5, 0x96, 0xb2, 0x1f, 0xf7, 0x45, 0xba, 0xea, 0xa3, 0x66, 0xc5, 0x5a,
        0x08, 0x2d,
    ];
    proof {
        assert(r@ =~= spec_footer_guid());
    }
    r
}

/// The SEV metadata pointer table GUID as bytes.
pub fn sev_metadata_guid() -> (r: Vec<u8>)
    ensures
        r@ == spec_sev_metadata_guid(),
{
    let r: Vec<u8> = vec![
        0x66u8, 0x65, 0x88, 0xdc, 0x4a, 0x98, 0x98, 0x47, 0xa7, 0x5e, 0x55, 0x85, 0xa7, 0xbf,
        0x67, 0xcc,
    ];
    proof {
        assert(r@ =~= spec_sev_metadata_guid());
    }
    r
}

/// The SEV info block GUID as bytes.
pub fn sev_info_block_guid() -> (r: Vec<u8>)
    ensures
        r@ == spec_sev_info_block_guid(),
{
    let r: Vec<u8> = vec![
        0xdeu8, 0x71, 0xf7, 0x00, 0x7e, 0x1a, 0xcb, 0x4f, 0x89, 0x0e, 0x68, 0xc7, 0x7e, 0x2f,
        0xb4, 0x4e,
    ];
    proof {
        assert(r@ =~= spec_sev_info_block_guid());
    }
    r
}

/// Whether `a` and `b` hold the same bytes.
fn bytes_eq(a: &Vec<u8>, b: &Vec<u8>) -> (r: bool)
    ensures
        r == (a@ == b@),
{
    if a.len() != b.len() {
        assert(a@ !~= b@);
        return false;
    }
    let n = a.len();
    let mut i: usize = 0;
    while i < n
        invariant
            n == a@.len() == b@.len(),
            0 <= i <= n,
            forall|k: int| 0 <= k < i ==> a@[k] == b@[k],
        decreases n - i,
    {
        if a[i] != b[i] {
            assert(a@ !~= b@);
            return false;
        }
        i += 1;
    }
    assert(a@ =~= b@);
    true
}

/// One node in the GUID-table chain: its GUID, and the byte range of its
/// payload within the image.
pub struct TableInfo {
    /// The 16-byte GUID, in little-endian byte order as stored.
    pub uuid: Vec<u8>,
    /// Offset of the first payload byte.
    pub data_offset: usize,
    /// Number of payload bytes.
    pub data_length: u16,
}

/// Whether a well-formed table ends at offset `co` of `data`: there is room
/// for a footer below `co`, and the declared total length covers at least
/// the footer and reaches no lower than the start of the buffer.
pub open spec fn table_ok(data: Seq<u8>, co: int) -> bool {
    &&& co >= 18
    &&& co <= data.len()
    &&& 18 <= spec_table_size(data, co) <= co
}

/// The declared total length of the table ending at `co`.
pub open spec fn spec_table_size(data: Seq<u8>, co: int) -> int {
    spec_le_u16(data, co - 18)
}

/// The GUID of the table ending at `co`.
pub open spec fn spec_table_guid(data: Seq<u8>, co: int) -> Seq<u8> {
    data.subrange(co - 16, co)
}

/// Offset of the first payload byte of the table ending at `co`.
pub open spec fn spec_table_data_offset(data: Seq<u8>, co: int) -> int {
    co - spec_table_size(data, co)
}

/// Payload length of the table ending at `co`.
pub open spec fn spec_table_data_length(data: Seq<u8>, co: int) -> int {
    spec_table_size(data, co) - 18
}

/// An entry that represents an area of pre-validated memory defined by the
/// firmware.
#[derive(Clone, Copy, Debug, PartialEq, Eq, Structural)]
pub struct OvmfFwMem {
    /// The base physical address of the prevalidated memory region.
    pub base: u32,
    /// The length of the prevalidated memory region in bytes.
    pub size: u32,
}

impl Default for OvmfFwMem {
    /// An empty region at address zero.
    fn default() -> (r: Self)
        ensures
            r == (OvmfFwMem { base: 0, size: 0 }),
    {
        OvmfFwMem { base: 0, size: 0 }
    }
}

/// Parsed firmware placement and metadata.
#[derive(Clone, Debug)]
pub struct OvmfFwInfo {
    /// The guest physical address of the start of the guest firmware.
    pub start: u32,
    /// The size of the guest firmware in bytes.
    pub size: u32,
    /// The guest physical address at which the firmware expects to find the
    /// secrets page.
    pub secrets_page: u32,
    /// The guest physical address at which the firmware expects to find the
    /// calling area page.
    pub caa_page: u32,
    /// The guest physical address at which the firmware expects to find the
    /// CPUID page.
    pub cpuid_page: u32,
    /// The SEV-ES reset vector for application processors.
    pub reset_addr: u32,
    /// The prevalidated memory regions defined by the firmware; at most
    /// `MAX_PREVALIDATED` of them.
    pub prevalidated: Vec<OvmfFwMem>,
}

/// The mathematical value of `OvmfFwInfo`, with the region list as a
/// sequence.
pub struct FwInfoView {
    pub start: u32,
    pub size: u32,
    pub secrets_page: u32,
    pub caa_page: u32,
    pub cpuid_page: u32,
    pub reset_addr: u32,
    pub prevalidated: Seq<OvmfFwMem>,
}

impl View for OvmfFwInfo {
    type V = FwInfoView;

    open spec fn view(&self) -> FwInfoView {
        FwInfoView {
            start: self.start,
            size: self.size,
            secrets_page: self.secrets_page,
            caa_page: self.caa_page,
            cpuid_page: self.cpuid_page,
            reset_addr: self.reset_addr,
            prevalidated: self.prevalidated@,
        }
    }
}

/// The value of a fresh `OvmfFwInfo`: everything zero, no regions.
pub open spec fn spec_fw_info_default() -> FwInfoView {
    FwInfoView {
        start: 0,
        size: 0,
        secrets_page: 0,
        caa_page: 0,
        cpuid_page: 0,
        reset_addr: 0,
        prevalidated: Seq::empty(),
    }
}

impl Default for OvmfFwInfo {
    /// A fresh record with every address zero and no regions.
    fn default() -> (r: Self)
        ensures
            r@ == spec_fw_info_default(),
    {
        let r = OvmfFwInfo {
            start: 0,
            size: 0,
            secrets_page: 0,
            caa_page: 0,
            cpuid_page: 0,
            reset_addr: 0,
            prevalidated: Vec::new(),
        };
        proof {
            assert(r@.prevalidated =~= spec_fw_info_default().prevalidated);
        }
        r
    }
}

/// One 12-byte metadata descriptor: a region base, length and type.
pub struct MetadataDesc {
    pub base: u32,
    pub len: u32,
    pub metadata_type: u32,
}

impl MetadataDesc {
    /// Encoded size of one descriptor.
    pub fn size() -> (r: usize)
        ensures
            r == 12,
    {
        4 * 3
    }

    /// Decodes a descriptor from the first 12 bytes of `value`; fails when
    /// the buffer is shorter.
    pub fn try_from(value: &[u8]) -> (r: Result<Self, BuildError>)
        ensures
            value@.len() >= 12 ==> (r matches Ok(d) && d.base == spec_le_u32(value@, 0) && d.len
                == spec_le_u32(value@, 4) && d.metadata_type == spec_le_u32(value@, 8)),
            value@.len() < 12 ==> r == Err::<Self, BuildError>(BuildError::MalformedTable),
    {
        if value.len() < Self::size() {
            return Err(BuildError::MalformedTable);
        }
        let base = match read_u32(slice_subrange(value, 0, 4)) {
            Ok(v) => v,
            Err(e) => {
                return Err(e);
            },
        };
        let len = match read_u32(slice_subrange(value, 4, 8)) {
            Ok(v) => v,
            Err(e) => {
                return Err(e);
            },
        };
        let metadata_type = match read_u32(slice_subrange(value, 8, 12)) {
            Ok(v) => v,
            Err(e) => {
                return Err(e);
            },
        };
        Ok(Self { base, len, metadata_type })
    }
}

/// The 16-byte header of the SEV metadata table: signature, length, version
/// and descriptor count.
pub struct SevMetadata {
    pub sig: u32,
    pub len: u32,
    pub version: u32,
    pub num_desc: u32,
}

impl SevMetadata {
    /// Encoded size of the header.
    pub fn size() -> (r: usize)
        ensures
            r == 16,
    {
        4 * 4
    }

    /// Decodes the header from the first 16 bytes of `value`; fails when the
    /// buffer is shorter.
    pub fn try_from(value: &[u8]) -> (r: Result<Self, BuildError>)
        ensures
            value@.len() >= 16 ==> (r matches Ok(m) && m.sig == spec_le_u32(value@, 0) && m.len
                == spec_le_u32(value@, 4) && m.version == spec_le_u32(value@, 8) && m.num_desc
                == spec_le_u32(value@, 12)),
            value@.len() < 16 ==> r == Err::<Self, BuildError>(BuildError::MalformedTable),
    {
        if value.len() < Self::size() {
            return Err(BuildError::MalformedTable);
        }
        let sig = match read_u32(slice_subrange(value, 0, 4)) {
            Ok(v) => v,
            Err(e) => {
                return Err(e);
            },
        };
        let len = match read_u32(slice_subrange(value, 4, 8)) {
            Ok(v) => v,
            Err(e) => {
                return Err(e);
            },
        };
        let version = match read_u32(slice_subrange(value, 8, 12)) {
            Ok(v) => v,
            Err(e) => {
                return Err(e);
            },
        };
        let num_desc = match read_u32(slice_subrange(value, 12, 16)) {
            Ok(v) => v,
            Err(e) => {
                return Err(e);
            },
        };
        Ok(Self { sig, len, version, num_desc })
    }
}

/// Walks one step backward: reads the GUID ending exactly at
/// `current_offset` and the length field just below it, and returns the
/// table's GUID and payload range. Fails with `MalformedTable` when there is
/// no room for a footer below `current_offset` or the declared length is
/// inconsistent with the table's position.
pub fn read_table(current_offset: usize, data: &[u8]) -> (r: Result<TableInfo, BuildError>)
    requires
        current_offset <= data@.len(),
    ensures
        table_ok(data@, current_offset as int) ==> (r matches Ok(t) && t.uuid@ == spec_table_guid(
            data@,
            current_offset as int,
        ) && t.data_offset == spec_table_data_offset(data@, current_offset as int)
            && t.data_length == spec_table_data_length(data@, current_offset as int)),
        !table_ok(data@, current_offset as int) ==> r == Err::<TableInfo, BuildError>(
            BuildError::MalformedTable,
        ),
{
    // current_offset is at the top of the structure.
    if current_offset < TABLE_FOOTER_SIZE {
        return Err(BuildError::MalformedTable);
    }
    let entry_uuid = slice_to_vec(slice_subrange(data, current_offset - 16, current_offset));
    let table_size_offset = current_offset - TABLE_FOOTER_SIZE;
    let size_bytes = slice_subrange(data, table_size_offset, table_size_offset + 2);
    let table_size = match read_u16(size_bytes) {
        Ok(v) => v as usize,
        Err(e) => {
            return Err(e);
        },
    };
    assert(table_size == spec_table_size(data@, current_offset as int));
    if table_size > current_offset || table_size < TABLE_FOOTER_SIZE {
        return Err(BuildError::MalformedTable);
    }
    Ok(
        TableInfo {
            uuid: entry_uuid,
            data_offset: current_offset - table_size,
            data_length: (table_size - TABLE_FOOTER_SIZE) as u16,
        },
    )
}

/// The effect of one metadata descriptor on the firmware record: a memory
/// descriptor appends a prevalidated region (failing with `TooManyRegions`
/// past the bound, the record unchanged), the page descriptors set the
/// matching page address, and any other type is ignored.
pub open spec fn spec_desc_apply(fw: FwInfoView, base: u32, len: u32, typ: u32) -> Result<
    FwInfoView,
    BuildError,
> {
    if typ == SEV_META_DESC_TYPE_MEM {
        if fw.prevalidated.len() >= MAX_PREVALIDATED {
            Err(BuildError::TooManyRegions)
        } else {
            Ok(FwInfoView { prevalidated: fw.prevalidated.push(OvmfFwMem { base, size: len }), ..fw })
        }
    } else if typ == SEV_META_DESC_TYPE_SECRETS {
        Ok(FwInfoView { secrets_page: base, ..fw })
    } else if typ == SEV_META_DESC_TYPE_CPUID {
        Ok(FwInfoView { cpuid_page: base, ..fw })
    } else if typ == SEV_META_DESC_TYPE_CAA {
        Ok(FwInfoView { caa_page: base, ..fw })
    } else {
        Ok(fw)
    }
}

/// The effect of descriptors `i..n` of the SEV metadata table whose header
/// starts at `off`: each 12-byte descriptor in turn, stopping at the first
/// failure with the record as mutated so far.
pub open spec fn spec_descs_apply(data: Seq<u8>, off: int, n: int, i: int, fw: FwInfoView) -> (
    Result<(), BuildError>,
    FwInfoView,
)
    decreases n - i,
{
    if i >= n {
        (Ok(()), fw)
    } else {
        let doff = off + 16 + i * 12;
        if doff + 12 > data.len() {
            (Err(BuildError::MalformedTable), fw)
        } else {
            let base = spec_le_u32(data, doff) as u32;
            let len = spec_le_u32(data, doff + 4) as u32;
            let typ = spec_le_u32(data, doff + 8) as u32;
            match spec_desc_apply(fw, base, len, typ) {
                Ok(fw2) => spec_descs_apply(data, off, n, i + 1, fw2),
                Err(e) => (Err(e), fw),
            }
        }
    }
}

/// The effect of the SEV metadata table whose pointer payload sits at
/// `tdo`: the payload holds a 4-byte offset back from the end of the file,
/// where the table's header and descriptors sit.
pub open spec fn spec_sev_metadata_apply(data: Seq<u8>, tdo: int, fw: FwInfoView) -> (
    Result<(), BuildError>,
    FwInfoView,
) {
    if tdo < 0 || tdo + 4 > data.len() {
        (Err(BuildError::MalformedTable), fw)
    } else {
        let back = spec_le_u32(data, tdo);
        if back > data.len() || back < 16 {
            (Err(BuildError::MalformedTable), fw)
        } else {
            let off = data.len() - back;
            let n = spec_le_u32(data, off + 12);
            spec_descs_apply(data, off, n, 0, fw)
        }
    }
}

/// The effect of the info block: its first four bytes become the reset
/// address of the application processors.
pub open spec fn spec_info_block_apply(payload: Seq<u8>, fw: FwInfoView) -> (
    Result<(), BuildError>,
    FwInfoView,
) {
    if payload.len() < 4 {
        (Err(BuildError::MalformedTable), fw)
    } else {
        (Ok(()), FwInfoView { reset_addr: spec_le_u32(payload, 0) as u32, ..fw })
    }
}

/// Parses the SEV metadata table pointed to by the 4-byte payload at
/// `table_data_offset` and applies its descriptors to `firmware`. On
/// failure, `firmware` keeps the mutations made before the failing
/// descriptor.
pub fn parse_sev_metadata(data: &[u8], table_data_offset: usize, firmware: &mut OvmfFwInfo) -> (r:
    Result<(), BuildError>)
    ensures
        ({
            let (sr, sfw) = spec_sev_metadata_apply(data@, table_data_offset as int, old(firmware)@);
            r == sr && final(firmware)@ == sfw
        }),
{
    if data.len() < 4 || table_data_offset > data.len() - 4 {
        return Err(BuildError::MalformedTable);
    }
    let back = match read_u32(slice_subrange(data, table_data_offset, table_data_offset + 4)) {
        Ok(v) => v as usize,
        Err(e) => {
            return Err(e);
        },
    };
    if back > data.len() || back < 16 {
        return Err(BuildError::MalformedTable);
    }
    let offset = data.len() - back;
    let metadata = match SevMetadata::try_from(slice_subrange(data, offset, offset + 16)) {
        Ok(m) => m,
        Err(e) => {
            return Err(e);
        },
    };
    let num_desc = metadata.num_desc;
    proof {
        let sub = data@.subrange(table_data_offset as int, table_data_offset as int + 4);
        assert(spec_le_u32(sub, 0) == spec_le_u32(data@, table_data_offset as int));
        let hdr = data@.subrange(offset as int, offset as int + 16);
        assert(spec_le_u32(hdr, 12) == spec_le_u32(data@, offset as int + 12));
    }
    let ghost fw_entry = firmware@;
    let mut i: u32 = 0;
    let mut desc_offset: usize = offset + 16;
    while i < num_desc
        invariant
            desc_offset == offset + 16 + i * 12,
            desc_offset <= data@.len(),
            i <= num_desc,
            offset + 16 <= data@.len(),
            fw_entry == old(firmware)@,
            spec_sev_metadata_apply(data@, table_data_offset as int, fw_entry)
                == spec_descs_apply(data@, offset as int, num_desc as int, 0, fw_entry),
            spec_descs_apply(data@, offset as int, num_desc as int, i as int, firmware@)
                == spec_descs_apply(data@, offset as int, num_desc as int, 0, fw_entry),
        decreases num_desc - i,
    {
        let ghost fw_pre = firmware@;
        let ghost doff = desc_offset as int;
        if data.len() < 12 || desc_offset > data.len() - 12 {
            proof {
                assert(spec_descs_apply(data@, offset as int, num_desc as int, i as int, fw_pre)
                    == (Err::<(), BuildError>(BuildError::MalformedTable), fw_pre));
            }
            return Err(BuildError::MalformedTable);
        }
        let desc = match MetadataDesc::try_from(slice_subrange(data, desc_offset, desc_offset + 12)) {
            Ok(d) => d,
            Err(e) => {
                return Err(e);
            },
        };
        proof {
            let sub = data@.subrange(doff, doff + 12);
            assert(spec_le_u32(sub, 0) == spec_le_u32(data@, doff));
            assert(spec_le_u32(sub, 4) == spec_le_u32(data@, doff + 4));
            assert(spec_le_u32(sub, 8) == spec_le_u32(data@, doff + 8));
        }
        if desc.metadata_type == SEV_META_DESC_TYPE_MEM {
            if firmware.prevalidated.len() >= MAX_PREVALIDATED {
                proof {
                    assert(spec_desc_apply(fw_pre, desc.base, desc.len, desc.metadata_type)
                        == Err::<FwInfoView, BuildError>(BuildError::TooManyRegions));
                    assert(spec_descs_apply(data@, offset as int, num_desc as int, i as int, fw_pre)
                        == (Err::<(), BuildError>(BuildError::TooManyRegions), fw_pre));
                }
                return Err(BuildError::TooManyRegions);
            }
            firmware.prevalidated.push(OvmfFwMem { base: desc.base, size: desc.len });
        } else if desc.metadata_type == SEV_META_DESC_TYPE_SECRETS {
            firmware.secrets_page = desc.base;
        } else if desc.metadata_type == SEV_META_DESC_TYPE_CPUID {
            firmware.cpuid_page = desc.base;
        } else if desc.metadata_type == SEV_META_DESC_TYPE_CAA {
            firmware.caa_page = desc.base;
        }
        proof {
            assert(spec_desc_apply(fw_pre, desc.base, desc.len, desc.metadata_type)
                == Ok::<FwInfoView, BuildError>(firmware@));
            assert(spec_descs_apply(data@, offset as int, num_desc as int, i as int, fw_pre)
                == spec_descs_apply(data@, offset as int, num_desc as int, i as int + 1, firmware@));
        }
        i += 1;
        desc_offset += 12;
    }
    Ok(())
}

/// The effect of dispatching the table ending at `co`: the SEV metadata
/// pointer table and the info block are interpreted, any other GUID is
/// skipped. On success the result carries the table's payload offset — the
/// offset at which the next (earlier) table ends.
pub open spec fn spec_inner_table_apply(data: Seq<u8>, co: int, fw: FwInfoView) -> (
    Result<int, BuildError>,
    FwInfoView,
) {
    if !table_ok(data, co) {
        (Err(BuildError::MalformedTable), fw)
    } else {
        let tdo = spec_table_data_offset(data, co);
        let tdl = spec_table_data_length(data, co);
        let guid = spec_table_guid(data, co);
        if guid == spec_sev_metadata_guid() {
            let (r, fw2) = spec_sev_metadata_apply(data, tdo, fw);
            (
                match r {
                    Ok(_) => Ok(tdo),
                    Err(e) => Err(e),
                },
                fw2,
            )
        } else if guid == spec_sev_info_block_guid() {
            let (r, fw2) = spec_info_block_apply(data.subrange(tdo, tdo + tdl), fw);
            (
                match r {
                    Ok(_) => Ok(tdo),
                    Err(e) => Err(e),
                },
                fw2,
            )
        } else {
            (Ok(tdo), fw)
        }
    }
}

/// Walks the chain backward from the table ending at `co` until the cursor
/// reaches `end`, dispatching each table; fails if an offset ever fails to
/// strictly decrease.
pub open spec fn spec_walk_tables(data: Seq<u8>, co: int, end: int, fw: FwInfoView) -> (
    Result<(), BuildError>,
    FwInfoView,
)
    decreases co,
{
    if co <= end {
        (Ok(()), fw)
    } else {
        let (r, fw2) = spec_inner_table_apply(data, co, fw);
        match r {
            Ok(next) => if 0 <= next < co {
                spec_walk_tables(data, next, end, fw2)
            } else {
                (Err(BuildError::MalformedTable), fw2)
            },
            Err(e) => (Err(e), fw2),
        }
    }
}

/// The effect of parsing the whole image: find the footer table at the fixed
/// offset from the end, check its GUID, then walk the chain of tables laid
/// out across its payload, from its top down to its start.
pub open spec fn spec_parse_ovmf(data: Seq<u8>, fw: FwInfoView) -> (
    Result<(), BuildError>,
    FwInfoView,
) {
    if data.len() < 32 {
        (Err(BuildError::MalformedTable), fw)
    } else {
        let co0 = data.len() - 32;
        if !table_ok(data, co0) {
            (Err(BuildError::MalformedTable), fw)
        } else if spec_table_guid(data, co0) != spec_footer_guid() {
            (Err(BuildError::FooterNotFound), fw)
        } else {
            let end = spec_table_data_offset(data, co0);
            spec_walk_tables(data, end + spec_table_data_length(data, co0), end, fw)
        }
    }
}

/// Reads the table ending at `current_offset` and dispatches its payload by
/// GUID; returns the offset at which the next (earlier) table ends.
pub fn parse_inner_table(current_offset: usize, data: &[u8], firmware: &mut OvmfFwInfo) -> (r:
    Result<usize, BuildError>)
    requires
        current_offset <= data@.len(),
    ensures
        ({
            let (sr, sfw) = spec_inner_table_apply(data@, current_offset as int, old(firmware)@);
            final(firmware)@ == sfw && (match (r, sr) {
                (Ok(v), Ok(sv)) => v as int == sv,
                (Err(e), Err(se)) => e == se,
                _ => false,
            })
        }),
{
    let table = match read_table(current_offset, data) {
        Ok(t) => t,
        Err(e) => {
            return Err(e);
        },
    };
    if bytes_eq(&table.uuid, &sev_metadata_guid()) {
        match parse_sev_metadata(data, table.data_offset, firmware) {
            Ok(_) => {},
            Err(e) => {
                return Err(e);
            },
        }
    } else if bytes_eq(&table.uuid, &sev_info_block_guid()) {
        assert(table.data_offset + table.data_length <= data@.len());
        let payload = slice_subrange(
            data,
            table.data_offset,
            table.data_offset + table.data_length as usize,
        );
        match parse_sev_info_block(payload, firmware) {
            Ok(_) => {},
            Err(e) => {
                return Err(e);
            },
        }
    }
    Ok(table.data_offset)
}

/// Parses the chain of GUID-tagged metadata tables at the tail of the OVMF
/// image into `firmware`. Fails with `MalformedTable` when the image is too
/// small or a table is inconsistent, and with `FooterNotFound` when the
/// fixed footer table does not carry the footer GUID; never reads out of
/// bounds. On failure, `firmware` keeps the fields set before the failure.
pub fn parse_ovmf(data: &[u8], firmware: &mut OvmfFwInfo) -> (r: Result<(), BuildError>)
    ensures
        ({
            let (sr, sfw) = spec_parse_ovmf(data@, old(firmware)@);
            r == sr && final(firmware)@ == sfw
        }),
{
    // The OVMF table footer GUID is stored at a fixed offset from the end of
    // the file.
    if data.len() < FOOTER_OFFSET {
        return Err(BuildError::MalformedTable);
    }
    let mut current_offset = data.len() - FOOTER_OFFSET;
    let ovmf_table = match read_table(current_offset, data) {
        Ok(t) => t,
        Err(e) => {
            return Err(e);
        },
    };
    if !bytes_eq(&ovmf_table.uuid, &footer_guid()) {
        return Err(BuildError::FooterNotFound);
    }
    let table_end = ovmf_table.data_offset;
    current_offset = ovmf_table.data_offset + ovmf_table.data_length as usize;
    let ghost fw_entry = firmware@;
    while current_offset > table_end
        invariant
            current_offset <= data@.len(),
            fw_entry == old(firmware)@,
            spec_walk_tables(data@, current_offset as int, table_end as int, firmware@)
                == spec_parse_ovmf(data@, fw_entry),
        decreases current_offset,
    {
        let next = match parse_inner_table(current_offset, data, firmware) {
            Ok(v) => v,
            Err(e) => {
                return Err(e);
            },
        };
        // The chain must make progress toward the footer payload's start, or
        // the input is malformed.
        if next >= current_offset {
            return Err(BuildError::MalformedTable);
        }
        current_offset = next;
    }
    Ok(())
}

/// The empty placeholder directives reserving one prevalidated region: one
/// per 4096-byte-aligned chunk spanning `[base, base + size)`.
pub open spec fn spec_region_pages(mem: OvmfFwMem, mask: u32) -> Seq<DirectiveView> {
    Seq::new(
        page_count(mem.size as int) as nat,
        |j: int| empty_page((mem.base + 4096 * j) as u64, mask, PageDataType::Normal),
    )
}

/// For a prevalidated region of any size, the number of placeholder page
/// directives emitted for it is the region's size in 4096-byte pages,
/// rounded up.
pub proof fn lemma_region_pages_count(mem: OvmfFwMem, mask: u32)
    ensures
        spec_region_pages(mem, mask).len() == page_count(mem.size as int),
{
}

/// A table whose injected length field exceeds the current offset is
/// rejected with `MalformedTable` and leaves the firmware record unchanged,
/// whatever the record holds.
pub proof fn lemma_oversized_length_rejected(data: Seq<u8>, co: int, fw: FwInfoView)
    requires
        18 <= co <= data.len(),
        spec_table_size(data, co) > co,
    ensures
        !table_ok(data, co),
        spec_inner_table_apply(data, co, fw) == (
            Err::<int, BuildError>(BuildError::MalformedTable),
            fw,
        ),
{
}

/// With the region list already holding the most regions the format admits,
/// one more memory descriptor fails with `TooManyRegions` and leaves the
/// record — the regions gathered so far included — unchanged.
pub proof fn lemma_region_capacity_exceeded(data: Seq<u8>, off: int, n: int, i: int, fw: FwInfoView)
    requires
        fw.prevalidated.len() >= MAX_PREVALIDATED,
        0 <= i < n,
        off + 16 + i * 12 + 12 <= data.len(),
        spec_le_u32(data, off + 16 + i * 12 + 8) == SEV_META_DESC_TYPE_MEM,
    ensures
        spec_descs_apply(data, off, n, i, fw) == (
            Err::<(), BuildError>(BuildError::TooManyRegions),
            fw,
        ),
{
}

/// The placeholder directives of regions `r..` of `regions`, in order.
pub open spec fn spec_regions_pages_from(regions: Seq<OvmfFwMem>, mask: u32, r: int) -> Seq<
    DirectiveView,
>
    decreases regions.len() - r,
{
    if r < 0 || r >= regions.len() {
        Seq::empty()
    } else {
        spec_region_pages(regions[r], mask) + spec_regions_pages_from(regions, mask, r + 1)
    }
}

/// The placeholder directives emitted for the most capable isolation mode:
/// the secrets page, the calling-area page, the CPUID page, then every
/// prevalidated region's pages.
pub open spec fn spec_snp_placeholders(fw: FwInfoView, mask: u32) -> Seq<DirectiveView> {
    seq![
        empty_page(fw.secrets_page as u64, mask, PageDataType::Secrets),
        empty_page(fw.caa_page as u64, mask, PageDataType::Normal),
        empty_page(fw.cpuid_page as u64, mask, PageDataType::CpuidData),
    ] + spec_regions_pages_from(fw.prevalidated, mask, 0)
}

/// The full directive list built from a firmware image: one page per
/// 4096-byte chunk of the image placed so the image ends exactly at the
/// 4 GiB boundary, then, on the most capable platform only, the placeholder
/// reservations.
pub open spec fn spec_firmware_directives(
    data: Seq<u8>,
    fw: FwInfoView,
    mask: u32,
    platform: Platform,
) -> Seq<DirectiveView> {
    fw_pages(data, 0x1_0000_0000 - data.len() as int, mask) + if platform is SevSnp {
        spec_snp_placeholders(fw, mask)
    } else {
        Seq::empty()
    }
}

/// Interprets the info block payload: its first four bytes become the
/// application-processor reset address; fails when the payload is shorter.
pub fn parse_sev_info_block(data: &[u8], firmware: &mut OvmfFwInfo) -> (r: Result<(), BuildError>)
    ensures
        ({
            let (sr, sfw) = spec_info_block_apply(data@, old(firmware)@);
            r == sr && final(firmware)@ == sfw
        }),
{
    let reset_addr = match read_u32(data) {
        Ok(v) => v,
        Err(e) => {
            return Err(e);
        },
    };
    firmware.reset_addr = reset_addr;
    Ok(())
}

/// Appends one empty placeholder directive per 4096-byte-aligned chunk of
/// the prevalidated region `mem`.
fn push_region_placeholders(directives: &mut Vec<Directive>, mem: &OvmfFwMem, compatibility_mask: u32)
    ensures
        dirs_views(final(directives)@) == dirs_views(old(directives)@) + spec_region_pages(
            *mem,
            compatibility_mask,
        ),
{
    let pages: u64 = (mem.size as u64 + 4095) / 4096;
    let ghost target = spec_region_pages(*mem, compatibility_mask);
    let ghost base_views = dirs_views(directives@);
    let mut j: u64 = 0;
    while j < pages
        invariant
            j <= pages,
            pages == page_count(mem.size as int),
            target == spec_region_pages(*mem, compatibility_mask),
            dirs_views(directives@) == base_views + target.take(j as int),
        decreases pages - j,
    {
        let gpa: u64 = mem.base as u64 + j * 4096;
        let ghost pre = directives@;
        let d = Directive::PageData {
            gpa,
            compatibility_mask,
            data_type: PageDataType::Normal,
            data: Vec::new(),
        };
        let ghost gd = d;
        directives.push(d);
        proof {
            lemma_dirs_views_push(pre, gd);
            assert(target[j as int] == empty_page(
                (mem.base + 4096 * (j as int)) as u64,
                compatibility_mask,
                PageDataType::Normal,
            ));
            assert(target.take(j as int + 1) =~= target.take(j as int).push(target[j as int]));
            assert(dirs_views(directives@) =~= base_views + target.take(j as int + 1));
        }
        j = j + 1;
    }
    proof {
        assert(target.take(pages as int) =~= target);
        assert(dirs_views(directives@) =~= base_views + target);
    }
}

/// On the most capable platform, appends the empty placeholder directives:
/// the secrets page, the calling-area page, the CPUID page, and every
/// prevalidated region's pages, in that order.
fn push_snp_placeholders(directives: &mut Vec<Directive>, fw_info: &OvmfFwInfo, compatibility_mask: u32)
    ensures
        dirs_views(final(directives)@) == dirs_views(old(directives)@) + spec_snp_placeholders(
            fw_info@,
            compatibility_mask,
        ),
{
    let ghost entry_views = dirs_views(directives@);
    let ghost pre1 = directives@;
    directives.push(
        Directive::PageData {
            gpa: fw_info.secrets_page as u64,
            compatibility_mask,
            data_type: PageDataType::Secrets,
            data: Vec::new(),
        },
    );
    let ghost pre2 = directives@;
    directives.push(
        Directive::PageData {
            gpa: fw_info.caa_page as u64,
            compatibility_mask,
            data_type: PageDataType::Normal,
            data: Vec::new(),
        },
    );
    let ghost pre3 = directives@;
    directives.push(
        Directive::PageData {
            gpa: fw_info.cpuid_page as u64,
            compatibility_mask,
            data_type: PageDataType::CpuidData,
            data: Vec::new(),
        },
    );
    let ghost fixed = seq![
        empty_page(fw_info@.secrets_page as u64, compatibility_mask, PageDataType::Secrets),
        empty_page(fw_info@.caa_page as u64, compatibility_mask, PageDataType::Normal),
        empty_page(fw_info@.cpuid_page as u64, compatibility_mask, PageDataType::CpuidData),
    ];
    proof {
        assert(dirs_views(directives@) =~= entry_views + fixed);
    }
    let ghost base_views = dirs_views(directives@);
    let n = fw_info.prevalidated.len();
    let mut r: usize = 0;
    while r < n
        invariant
            r <= n,
            n == fw_info.prevalidated@.len(),
            dirs_views(directives@) + spec_regions_pages_from(
                fw_info.prevalidated@,
                compatibility_mask,
                r as int,
            ) == base_views + spec_regions_pages_from(
                fw_info.prevalidated@,
                compatibility_mask,
                0,
            ),
        decreases n - r,
    {
        let mem = fw_info.prevalidated[r];
        let ghost views_pre = dirs_views(directives@);
        push_region_placeholders(directives, &mem, compatibility_mask);
        proof {
            assert((views_pre + spec_region_pages(mem, compatibility_mask))
                + spec_regions_pages_from(fw_info.prevalidated@, compatibility_mask, r as int + 1)
                =~= views_pre + (spec_region_pages(mem, compatibility_mask)
                + spec_regions_pages_from(
                fw_info.prevalidated@,
                compatibility_mask,
                r as int + 1,
            )));
        }
        r = r + 1;
    }
    proof {
        assert(spec_regions_pages_from(fw_info.prevalidated@, compatibility_mask, n as int)
            =~= Seq::<DirectiveView>::empty());
        assert(dirs_views(directives@) + Seq::<DirectiveView>::empty() =~= dirs_views(
            directives@,
        ));
        assert((entry_views + fixed) + spec_regions_pages_from(
            fw_info.prevalidated@,
            compatibility_mask,
            0,
        ) =~= entry_views + spec_snp_placeholders(fw_info@, compatibility_mask));
    }
}

/// A parsed firmware image: its placement metadata and the page directives
/// that place it (and, on the most capable platform, its reservations).
pub struct OvmfFirmware {
    fw_info: OvmfFwInfo,
    directives: Vec<Directive>,
}

/// The mathematical value of a parsed firmware image.
pub struct OvmfFirmwareView {
    pub fw_info: FwInfoView,
    pub directives: Seq<DirectiveView>,
}

impl View for OvmfFirmware {
    type V = OvmfFirmwareView;

    closed spec fn view(&self) -> OvmfFirmwareView {
        OvmfFirmwareView { fw_info: self.fw_info@, directives: dirs_views(self.directives@) }
    }
}

impl OvmfFirmware {
    /// Parses a whole firmware image and builds its page directives: the
    /// metadata tables are interpreted, the image is pinned to end exactly
    /// at the 4 GiB boundary, each 4096-byte chunk becomes one ordinary page
    /// directive, and on the most capable platform the placeholder
    /// reservations follow.
    pub fn parse(data: &[u8], compatibility_mask: u32, platform: Platform) -> (r: Result<
        Self,
        BuildError,
    >)
        ensures
            data@.len() > 0xffff_ffff ==> r == Err::<Self, BuildError>(
                BuildError::FirmwareTooLarge,
            ),
            data@.len() <= 0xffff_ffff ==> ({
                let (sr, sfw) = spec_parse_ovmf(data@, spec_fw_info_default());
                match (r, sr) {
                    (Err(e), Err(se)) => e == se,
                    (Ok(fw), Ok(_)) => {
                        &&& fw@.fw_info == (FwInfoView {
                            start: (0x1_0000_0000 - data@.len()) as u32,
                            size: data@.len() as u32,
                            ..sfw
                        })
                        &&& fw@.fw_info.start == 0x1_0000_0000 - data@.len()
                        &&& fw@.directives == spec_firmware_directives(
                            data@,
                            fw@.fw_info,
                            compatibility_mask,
                            platform,
                        )
                    },
                    _ => false,
                }
            }),
    {
        if data.len() > 0xffff_ffff {
            return Err(BuildError::FirmwareTooLarge);
        }
        let mut fw_info = OvmfFwInfo::default();
        match parse_ovmf(data, &mut fw_info) {
            Ok(_) => {},
            Err(e) => {
                return Err(e);
            },
        }
        let len = data.len();
        assert(len >= 32);

        // OVMF must be located to end at 4 GiB.
        fw_info.start = (0x1_0000_0000u64 - len as u64) as u32;
        fw_info.size = len as u32;

        // Build page directives for the file contents.
        let ghost start_int: int = 0x1_0000_0000 - len as int;
        let mut directives: Vec<Directive> = Vec::new();
        let pages: u64 = (len as u64 + 4095) / 4096;
        let mut gpa: u64 = fw_info.start as u64;
        let mut pos: usize = 0;
        let mut k: u64 = 0;
        while k < pages
            invariant
                len == data@.len(),
                32 <= len <= 0xffff_ffff,
                pages == page_count(len as int),
                start_int == 0x1_0000_0000 - len as int,
                k <= pages,
                pos == (if 4096 * (k as int) <= len {
                    4096 * (k as int)
                } else {
                    len as int
                }),
                gpa == start_int + 4096 * k,
                directives@.len() == k,
                forall|q: int|
                    0 <= q < k ==> directives@[q]@ == fw_page_at(
                        data@,
                        start_int,
                        compatibility_mask,
                        q,
                    ),
            decreases pages - k,
        {
            proof {
                vstd::arithmetic::div_mod::lemma_fundamental_div_mod(len as int + 4095, 4096);
                vstd::arithmetic::div_mod::lemma_mod_bound(len as int + 4095, 4096);
                assert(4096 * (k as int) < len);
            }
            let chunk_len: usize = if len - pos >= 4096 {
                4096
            } else {
                len - pos
            };
            let chunk = slice_to_vec(slice_subrange(data, pos, pos + chunk_len));
            let ghost pre = directives@;
            let d = Directive::PageData {
                gpa,
                compatibility_mask,
                data_type: PageDataType::Normal,
                data: chunk,
            };
            directives.push(d);
            proof {
                assert(data@.subrange(pos as int, pos as int + chunk_len as int) =~= data@
                    .subrange(4096 * (k as int), page_end(len as int, k as int)));
                assert(directives@[k as int]@ == fw_page_at(
                    data@,
                    start_int,
                    compatibility_mask,
                    k as int,
                ));
            }
            gpa = gpa + 4096;
            pos = pos + chunk_len;
            k = k + 1;
        }
        proof {
            assert(dirs_views(directives@) =~= fw_pages(data@, start_int, compatibility_mask));
        }

        let snp: bool = match platform {
            Platform::SevSnp => true,
            _ => false,
        };
        if snp {
            // Build page directives for the metadata.
            push_snp_placeholders(&mut directives, &fw_info, compatibility_mask);
        } else {
            proof {
                assert(fw_pages(data@, start_int, compatibility_mask) + Seq::<
                    DirectiveView,
                >::empty() =~= fw_pages(data@, start_int, compatibility_mask));
            }
        }
        Ok(Self { fw_info, directives })
    }

    /// The built page directives.
    pub fn directives(&self) -> (r: &Vec<Directive>)
        ensures
            dirs_views(r@) == self@.directives,
    {
        &self.directives
    }

    /// The parsed placement metadata.
    pub fn get_fw_info(&self) -> (r: &OvmfFwInfo)
        ensures
            r@ == self@.fw_info,
    {
        &self.fw_info
    }

    /// Takes the parsed metadata and the built directives out of the value.
    pub fn into_parts(self) -> (r: (OvmfFwInfo, Vec<Directive>))
        ensures
            r.0@ == self@.fw_info,
            dirs_views(r.1@) == self@.directives,
    {
        (self.fw_info, self.directives)
    }
}

} // verus!
