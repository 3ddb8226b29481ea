use igvmbuilder::directive::Directive;
use igvmbuilder::directive::PageDataType;
use igvmbuilder::igvm_builder::reorder_directives;
use igvmbuilder::igvm_builder::InitHeader;
use igvmbuilder::igvm_builder::PlatformType;
use igvmbuilder::igvm_builder::COMPATIBILITY_MASK;
use igvmbuilder::igvm_builder::VMSA_GPA;
use igvmbuilder::ovmf_firmware::footer_guid;
use igvmbuilder::ovmf_firmware::sev_metadata_guid;
use igvmbuilder::construct_ap_vmsa;
use igvmbuilder::construct_bsp_vmsa;
use igvmbuilder::CmdOptions;
use igvmbuilder::IgvmBuilder;
use igvmbuilder::OvmfFirmware;
use igvmbuilder::Platform;

fn le16(v: u16) -> [u8; 2] {
    [v as u8, (v >> 8) as u8]
}

fn le32(v: u32) -> [u8; 4] {
    [v as u8, (v >> 8) as u8, (v >> 16) as u8, (v >> 24) as u8]
}

fn put(buf: &mut [u8], off: usize, bytes: &[u8]) {
    buf[off..off + bytes.len()].copy_from_slice(bytes);
}

/// An image of `len` bytes holding only a valid, empty footer table.
fn plain_image(len: usize) -> Vec<u8> {
    let mut buf = vec![0u8; len];
    let co0 = len - 32;
    put(&mut buf, co0 - 16, &footer_guid());
    put(&mut buf, co0 - 18, &le16(18));
    buf
}

/// An image of `len` bytes whose chain holds one SEV metadata pointer table
/// whose target declares the given descriptors.
fn image_with_sev_metadata(len: usize, meta_off: usize, descs: &[(u32, u32, u32)]) -> Vec<u8> {
    let mut buf = vec![0u8; len];
    let co0 = len - 32;
    // One inner table: a 4-byte pointer payload tagged with the metadata GUID.
    let size = 4 + 18;
    let co = co0 - 18;
    put(&mut buf, co - 16, &sev_metadata_guid());
    put(&mut buf, co - 18, &le16(size as u16));
    put(&mut buf, co - size, &le32((len - meta_off) as u32));
    put(&mut buf, co0 - 16, &footer_guid());
    put(&mut buf, co0 - 18, &le16((co0 - (co - size)) as u16));
    // The metadata table itself.
    let mut table = Vec::new();
    table.extend_from_slice(&le32(0x56455341));
    table.extend_from_slice(&le32((16 + 12 * descs.len()) as u32));
    table.extend_from_slice(&le32(1));
    table.extend_from_slice(&le32(descs.len() as u32));
    for (base, sz, typ) in descs {
        table.extend_from_slice(&le32(*base));
        table.extend_from_slice(&le32(*sz));
        table.extend_from_slice(&le32(*typ));
    }
    put(&mut buf, meta_off, &table);
    buf
}

fn options(platform: Platform, cpucount: u16) -> CmdOptions {
    CmdOptions {
        firmware: String::new(),
        output: String::new(),
        cpucount,
        verbose: false,
        platform,
    }
}

#[test]
fn firmware_parse_places_image_at_top() {
    // 5000 bytes: two pages (4096 + 904), ending exactly at 4 GiB.
    let data = plain_image(5000);
    let fw = OvmfFirmware::parse(&data, 1, Platform::Native).unwrap();
    let info = fw.get_fw_info();
    assert_eq!(info.start, (0x1_0000_0000u64 - 5000) as u32);
    assert_eq!(info.size, 5000);
    let dirs = fw.directives();
    assert_eq!(dirs.len(), 2);
    match &dirs[0] {
        Directive::PageData { gpa, compatibility_mask, data_type, data: page } => {
            assert_eq!(*gpa, 0x1_0000_0000u64 - 5000);
            assert_eq!(*compatibility_mask, 1);
            assert_eq!(*data_type, PageDataType::Normal);
            assert_eq!(page.as_slice(), &data[0..4096]);
        }
        other => panic!("expected a page directive, got {:?}", other),
    }
    match &dirs[1] {
        Directive::PageData { gpa, data: page, .. } => {
            assert_eq!(*gpa, 0x1_0000_0000u64 - 5000 + 4096);
            assert_eq!(page.as_slice(), &data[4096..5000]);
        }
        other => panic!("expected a page directive, got {:?}", other),
    }
}

#[test]
fn firmware_parse_counts_pages_rounding_up() {
    for (len, pages) in [(4096usize, 1usize), (4097, 2), (8192, 2), (8193, 3)] {
        let data = plain_image(len);
        let fw = OvmfFirmware::parse(&data, 1, Platform::Native).unwrap();
        assert_eq!(fw.directives().len(), pages, "image of {} bytes", len);
    }
}

#[test]
fn firmware_parse_emits_region_placeholders() {
    // Two regions: 0x2000 bytes make two placeholders, 4097 bytes make two.
    let data = image_with_sev_metadata(
        8192,
        4096,
        &[
            (0x1000, 0x2000, 1),
            (0x10000, 4097, 1),
            (0x5000, 0, 2),
            (0x6000, 0, 3),
            (0x7000, 0, 4),
        ],
    );
    let fw = OvmfFirmware::parse(&data, 1, Platform::SevSnp).unwrap();
    let dirs = fw.directives();
    // 2 firmware pages, secrets, caa, cpuid, 2 + 2 region placeholders.
    assert_eq!(dirs.len(), 9);
    let expected: Vec<(u64, PageDataType)> = vec![
        (0x5000, PageDataType::Secrets),
        (0x7000, PageDataType::Normal),
        (0x6000, PageDataType::CpuidData),
        (0x1000, PageDataType::Normal),
        (0x2000, PageDataType::Normal),
        (0x10000, PageDataType::Normal),
        (0x11000, PageDataType::Normal),
    ];
    for (k, (egpa, etype)) in expected.iter().enumerate() {
        match &dirs[2 + k] {
            Directive::PageData { gpa, data_type, data, .. } => {
                assert_eq!(gpa, egpa);
                assert_eq!(data_type, etype);
                assert!(data.is_empty());
            }
            other => panic!("expected a placeholder, got {:?}", other),
        }
    }
}

#[test]
fn region_of_size_zero_emits_no_placeholder() {
    let data = image_with_sev_metadata(8192, 4096, &[(0x20000, 0, 1)]);
    let fw = OvmfFirmware::parse(&data, 1, Platform::SevSnp).unwrap();
    // 2 firmware pages plus the three fixed placeholders, nothing for the
    // empty region.
    assert_eq!(fw.directives().len(), 5);
    assert_eq!(fw.get_fw_info().prevalidated.len(), 1);
    assert_eq!(fw.get_fw_info().prevalidated[0].size, 0);
}

#[test]
fn firmware_parse_skips_placeholders_off_snp() {
    let data = image_with_sev_metadata(8192, 4096, &[(0x1000, 0x2000, 1), (0x5000, 0, 2)]);
    let fw = OvmfFirmware::parse(&data, 1, Platform::Sev).unwrap();
    assert_eq!(fw.directives().len(), 2); // firmware pages only
    assert_eq!(fw.get_fw_info().secrets_page, 0x5000);
}

#[test]
fn vmsa_bsp_has_reset_state() {
    let d = construct_bsp_vmsa(VMSA_GPA, COMPATIBILITY_MASK, Platform::SevEs);
    match d {
        Directive::ProcessorContext { gpa, compatibility_mask, vp_index, vmsa } => {
            assert_eq!(gpa, 0xFFFF_FFFF_F000);
            assert_eq!(compatibility_mask, 1);
            assert_eq!(vp_index, 0);
            assert_eq!(vmsa.cs.selector, 0xf000);
            assert_eq!(vmsa.cs.base, 0xffff0000);
            assert_eq!(vmsa.cs.limit, 0xffff);
            assert_eq!(vmsa.cs.attrib, 0x9b);
            assert_eq!(vmsa.ds.selector, 0);
            assert_eq!(vmsa.ds.attrib, 0x93);
            assert_eq!(vmsa.ds.limit, 0xffff);
            assert_eq!(vmsa.tr.attrib, 0x8b);
            assert_eq!(vmsa.ldtr.attrib, 0x82);
            assert_eq!(vmsa.dr6, 0xffff0ff0);
            assert_eq!(vmsa.dr7, 0x400);
            assert_eq!(vmsa.cr0, 0x10);
            assert_eq!(vmsa.cr4, 0x40);
            assert_eq!(vmsa.xcr0, 1);
            assert_eq!(vmsa.rip, 0xfff0);
            assert_eq!(vmsa.rflags, 2);
            assert_eq!(vmsa.pat, 0x0007040600070406);
            assert_eq!(vmsa.efer, 0x1000);
            assert_eq!(vmsa.x87_fcw, 0x37f);
            assert_eq!(vmsa.mxcsr, 0x1f80);
            assert_eq!(vmsa.sev_features, 0); // not the most capable mode
        }
        other => panic!("expected a processor context, got {:?}", other),
    }
}

#[test]
fn vmsa_ap_derives_segment_from_reset_address() {
    let d = construct_ap_vmsa(VMSA_GPA, 1, Platform::SevSnp, 0x12345678, 3);
    match d {
        Directive::ProcessorContext { vp_index, vmsa, .. } => {
            assert_eq!(vp_index, 3);
            assert_eq!(vmsa.cs.base, 0x12340000);
            assert_eq!(vmsa.rip, 0x5678);
            assert_eq!(vmsa.sev_features, 1); // SNP feature bit
        }
        other => panic!("expected a processor context, got {:?}", other),
    }
}

#[test]
fn reorder_keeps_relative_order() {
    // Every directive the library emits is a page or a context, so the
    // stable partition must hand the list back in its original order.
    let input = vec![
        Directive::PageData {
            gpa: 0x1000,
            compatibility_mask: 1,
            data_type: PageDataType::Normal,
            data: vec![1, 2],
        },
        construct_bsp_vmsa(VMSA_GPA, 1, Platform::SevEs),
        Directive::PageData {
            gpa: 0x2000,
            compatibility_mask: 1,
            data_type: PageDataType::Secrets,
            data: vec![],
        },
        construct_ap_vmsa(VMSA_GPA, 1, Platform::SevEs, 0x1234, 1),
    ];
    let expected = input.clone();
    let result = reorder_directives(input);
    assert_eq!(result, expected);
}

#[test]
fn build_sev_es_emits_one_context_per_processor() {
    let data = plain_image(4096);
    let fw = OvmfFirmware::parse(&data, 1, Platform::SevEs).unwrap();
    let out = IgvmBuilder::new(options(Platform::SevEs, 3), fw).build();
    let contexts: Vec<&Directive> = out
        .directives
        .iter()
        .filter(|d| matches!(d, Directive::ProcessorContext { .. }))
        .collect();
    assert_eq!(contexts.len(), 3);
    for (i, d) in contexts.iter().enumerate() {
        match d {
            Directive::ProcessorContext { gpa, vp_index, vmsa, .. } => {
                assert_eq!(*gpa, 0xFFFF_FFFF_F000);
                assert_eq!(*vp_index as usize, i);
                if i == 0 {
                    // The boot processor starts at the architectural reset
                    // address.
                    assert_eq!(vmsa.rip, 0xfff0);
                    assert_eq!(vmsa.cs.base, 0xffff0000);
                }
            }
            other => panic!("expected a processor context, got {:?}", other),
        }
    }
}

#[test]
fn build_native_emits_no_context() {
    let data = plain_image(4096);
    let fw = OvmfFirmware::parse(&data, 1, Platform::Native).unwrap();
    let out = IgvmBuilder::new(options(Platform::Native, 4), fw).build();
    assert!(out
        .directives
        .iter()
        .all(|d| matches!(d, Directive::PageData { .. })));
    assert_eq!(out.directives.len(), 1);
}

#[test]
fn build_chooses_policy_per_platform() {
    for (platform, expected_policy, expected_type) in [
        (Platform::Sev, 1u64, PlatformType::Sev),
        (Platform::SevEs, 5, PlatformType::SevEs),
        (Platform::SevSnp, 0x30000, PlatformType::SevSnp),
        (Platform::Native, 0, PlatformType::Native),
    ] {
        let data = plain_image(4096);
        let fw = OvmfFirmware::parse(&data, 1, platform).unwrap();
        let out = IgvmBuilder::new(options(platform, 1), fw).build();
        assert_eq!(out.initialization.len(), 1);
        let InitHeader::GuestPolicy { policy, compatibility_mask } = out.initialization[0];
        assert_eq!(policy, expected_policy);
        assert_eq!(compatibility_mask, 1);
        assert_eq!(out.platforms.len(), 1);
        assert_eq!(out.platforms[0].platform_type, expected_type);
        assert_eq!(out.platforms[0].compatibility_mask, 1);
        assert_eq!(out.platforms[0].highest_vtl, 0);
        assert_eq!(out.platforms[0].platform_version, 1);
        assert_eq!(out.platforms[0].shared_gpa_boundary, 0);
    }
}

#[test]
fn build_end_to_end_snp() {
    // 8192 bytes of firmware, one memory region, the three special pages,
    // the most capable platform, two processors.
    let data = image_with_sev_metadata(
        8192,
        4096,
        &[
            (0x1000, 0x2000, 1),
            (0x5000, 0x1000, 2),
            (0x6000, 0x1000, 3),
            (0x7000, 0x1000, 4),
        ],
    );
    let fw = OvmfFirmware::parse(&data, 1, Platform::SevSnp).unwrap();
    let out = IgvmBuilder::new(options(Platform::SevSnp, 2), fw).build();

    // 2 firmware pages, 1 secrets, 1 caa, 1 cpuid, 2 region placeholders,
    // 2 processor contexts.
    assert_eq!(out.directives.len(), 9);
    let pages: Vec<(u64, PageDataType, usize)> = out
        .directives
        .iter()
        .filter_map(|d| match d {
            Directive::PageData { gpa, data_type, data, .. } => {
                Some((*gpa, *data_type, data.len()))
            }
            _ => None,
        })
        .collect();
    assert_eq!(
        pages,
        vec![
            (0x1_0000_0000 - 8192, PageDataType::Normal, 4096),
            (0x1_0000_0000 - 4096, PageDataType::Normal, 4096),
            (0x5000, PageDataType::Secrets, 0),
            (0x7000, PageDataType::Normal, 0),
            (0x6000, PageDataType::CpuidData, 0),
            (0x1000, PageDataType::Normal, 0),
            (0x2000, PageDataType::Normal, 0),
        ]
    );
    let contexts: Vec<u16> = out
        .directives
        .iter()
        .filter_map(|d| match d {
            Directive::ProcessorContext { vp_index, .. } => Some(*vp_index),
            _ => None,
        })
        .collect();
    assert_eq!(contexts, vec![0, 1]);
    // Every page and context directive trails all others (here: nothing
    // else exists, and the order of the build is preserved).
    assert!(matches!(out.directives[7], Directive::ProcessorContext { vp_index: 0, .. }));
    assert!(matches!(out.directives[8], Directive::ProcessorContext { vp_index: 1, .. }));
}
