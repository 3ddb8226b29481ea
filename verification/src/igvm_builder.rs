//! The build orchestrator: sequences the initialization header, the
//! platform-support header, the firmware page directives and the
//! per-processor directives, then stably partitions the directive list so
//! that every page and processor-context directive trails all others.

use vstd::prelude::*;

use crate::cmd_options::CmdOptions;
use crate::cmd_options::Platform;
use crate::directive::dirs_views;
use crate::directive::Directive;
use crate::directive::DirectiveView;
use crate::ovmf_firmware::OvmfFirmware;
use crate::vmsa::construct_ap_vmsa;
use crate::vmsa::construct_bsp_vmsa;
use crate::vmsa::spec_vmsa;
use crate::vmsa::BSP_RESET_ADDR;

verus! {

/// The compatibility mask stamped on every header and directive of a run.
pub const COMPATIBILITY_MASK: u32 = 1;

/// The fixed guest physical address of every processor-context directive.
pub const VMSA_GPA: u64 = 0xFFFF_FFFF_F000;

/// The platform-type tag of the platform-support header.
#[derive(Copy, Clone, Debug, PartialEq, Eq, Structural)]
pub enum PlatformType {
    Sev,
    SevEs,
    SevSnp,
    Native,
}

/// The one platform-support header emitted per run.
#[derive(Copy, Clone, Debug, PartialEq, Eq, Structural)]
pub struct PlatformHeader {
    pub compatibility_mask: u32,
    pub highest_vtl: u8,
    pub platform_type: PlatformType,
    pub platform_version: u16,
    pub shared_gpa_boundary: u64,
}

/// An initialization header: the guest policy chosen for the platform.
#[derive(Copy, Clone, Debug, PartialEq, Eq, Structural)]
pub enum InitHeader {
    GuestPolicy { policy: u64, compatibility_mask: u32 },
}

/// The platform-type tag each platform maps to.
pub open spec fn spec_platform_type(platform: Platform) -> PlatformType {
    match platform {
        Platform::Sev => PlatformType::Sev,
        Platform::SevEs => PlatformType::SevEs,
        Platform::SevSnp => PlatformType::SevSnp,
        Platform::Native => PlatformType::Native,
    }
}

/// The guest-policy value each platform maps to: the no-debug bit for the
/// basic mode, no-debug plus ES-required for the ES mode, the reserved bit
/// plus SMT-allowed for the most capable mode, and zero otherwise.
pub open spec fn spec_policy(platform: Platform) -> u64 {
    match platform {
        Platform::Sev => 1,
        Platform::SevEs => 5,
        Platform::SevSnp => 0x30000,
        Platform::Native => 0,
    }
}

/// The platform-support header emitted for `platform`.
pub open spec fn spec_platform_header(platform: Platform) -> PlatformHeader {
    PlatformHeader {
        compatibility_mask: COMPATIBILITY_MASK,
        highest_vtl: 0,
        platform_type: spec_platform_type(platform),
        platform_version: 1,
        shared_gpa_boundary: 0,
    }
}

/// The initialization header emitted for `platform`.
pub open spec fn spec_init_header(platform: Platform) -> InitHeader {
    InitHeader::GuestPolicy {
        policy: spec_policy(platform),
        compatibility_mask: COMPATIBILITY_MASK,
    }
}

/// Whether the platform requires per-processor context directives.
pub open spec fn spec_requires_vp_context(platform: Platform) -> bool {
    platform is SevEs || platform is SevSnp
}

/// How many processor-context directives a request for `cpucount`
/// processors yields: the boot processor always gets one, plus one per
/// remaining requested processor.
pub open spec fn spec_vp_count(cpucount: u16) -> int {
    if cpucount == 0 {
        1
    } else {
        cpucount as int
    }
}

/// The processor-context directives of one run: on a platform that requires
/// them, the boot processor (index 0, architectural reset address) followed
/// by one application processor per remaining requested processor, with
/// strictly increasing indices and the recovered reset address.
pub open spec fn spec_vp_directives(platform: Platform, cpucount: u16, reset_addr: u32) -> Seq<
    DirectiveView,
> {
    if spec_requires_vp_context(platform) {
        Seq::new(
            spec_vp_count(cpucount) as nat,
            |i: int|
                DirectiveView::ProcessorContext {
                    gpa: VMSA_GPA,
                    compatibility_mask: COMPATIBILITY_MASK,
                    vp_index: i as u16,
                    vmsa: spec_vmsa(
                        if i == 0 {
                            BSP_RESET_ADDR
                        } else {
                            reset_addr
                        },
                        platform,
                    ),
                },
        )
    } else {
        Seq::empty()
    }
}

/// The boot-processor directive has index 0 and the fixed context address,
/// and requesting `cpucount` processors on a platform that requires context
/// yields exactly `cpucount` context directives with indices `0..cpucount`.
pub proof fn lemma_vp_directives_indices(platform: Platform, cpucount: u16, reset_addr: u32)
    requires
        spec_requires_vp_context(platform),
        cpucount >= 1,
    ensures
        spec_vp_directives(platform, cpucount, reset_addr).len() == cpucount,
        spec_vp_directives(platform, cpucount, reset_addr)[0]
            == (DirectiveView::ProcessorContext {
            gpa: VMSA_GPA,
            compatibility_mask: COMPATIBILITY_MASK,
            vp_index: 0,
            vmsa: spec_vmsa(BSP_RESET_ADDR, platform),
        }),
        forall|i: int|
            0 <= i < cpucount ==> #[trigger] spec_vp_directives(platform, cpucount, reset_addr)[i]
                == (DirectiveView::ProcessorContext {
                gpa: VMSA_GPA,
                compatibility_mask: COMPATIBILITY_MASK,
                vp_index: i as u16,
                vmsa: spec_vmsa(
                    if i == 0 {
                        BSP_RESET_ADDR
                    } else {
                        reset_addr
                    },
                    platform,
                ),
            }),
{
}

/// Whether a directive carries memory or processor state, and so is moved
/// to the end of the list by the final reorder.
pub open spec fn spec_is_page_or_context(d: DirectiveView) -> bool {
    d is PageData || d is ProcessorContext
}

/// The directives of `s` that the reorder keeps in front, in order.
pub open spec fn spec_nonpages(s: Seq<DirectiveView>) -> Seq<DirectiveView>
    decreases s.len(),
{
    if s.len() == 0 {
        Seq::empty()
    } else {
        let rest = spec_nonpages(s.drop_last());
        if !spec_is_page_or_context(s.last()) {
            rest.push(s.last())
        } else {
            rest
        }
    }
}

/// The page and processor-context directives of `s`, in order.
pub open spec fn spec_pages(s: Seq<DirectiveView>) -> Seq<DirectiveView>
    decreases s.len(),
{
    if s.len() == 0 {
        Seq::empty()
    } else {
        let rest = spec_pages(s.drop_last());
        if spec_is_page_or_context(s.last()) {
            rest.push(s.last())
        } else {
            rest
        }
    }
}

/// The stable partition applied to the finished directive list: everything
/// that is not a page or context, in order, then every page and context, in
/// order.
pub open spec fn spec_reorder(s: Seq<DirectiveView>) -> Seq<DirectiveView> {
    spec_nonpages(s) + spec_pages(s)
}

/// Appending one directive appends it to exactly one of the partitions.
proof fn lemma_partition_push(s: Seq<DirectiveView>, x: DirectiveView)
    ensures
        spec_pages(s.push(x)) == if spec_is_page_or_context(x) {
            spec_pages(s).push(x)
        } else {
            spec_pages(s)
        },
        spec_nonpages(s.push(x)) == if !spec_is_page_or_context(x) {
            spec_nonpages(s).push(x)
        } else {
            spec_nonpages(s)
        },
{
    assert(s.push(x).drop_last() =~= s);
    assert(s.push(x).last() == x);
}

/// The two partitions of a list together hold exactly its elements.
pub proof fn lemma_partition_len(s: Seq<DirectiveView>)
    ensures
        spec_pages(s).len() + spec_nonpages(s).len() == s.len(),
    decreases s.len(),
{
    if s.len() == 0 {
    } else {
        lemma_partition_len(s.drop_last());
    }
}

/// Each partition holds only directives of its kind.
pub proof fn lemma_partition_preds(s: Seq<DirectiveView>)
    ensures
        forall|i: int|
            0 <= i < spec_pages(s).len() ==> spec_is_page_or_context(#[trigger] spec_pages(s)[i]),
        forall|i: int|
            0 <= i < spec_nonpages(s).len() ==> !spec_is_page_or_context(
                #[trigger] spec_nonpages(s)[i],
            ),
    decreases s.len(),
{
    if s.len() == 0 {
    } else {
        lemma_partition_preds(s.drop_last());
        let prest = spec_pages(s.drop_last());
        let nrest = spec_nonpages(s.drop_last());
        assert forall|i: int| 0 <= i < spec_pages(s).len() implies spec_is_page_or_context(
            spec_pages(s)[i],
        ) by {
            if spec_is_page_or_context(s.last()) {
                assert(spec_pages(s) == prest.push(s.last()));
                if i < prest.len() {
                    assert(spec_pages(s)[i] == prest[i]);
                }
            } else {
                assert(spec_pages(s) == prest);
            }
        }
        assert forall|i: int| 0 <= i < spec_nonpages(s).len() implies !spec_is_page_or_context(
            spec_nonpages(s)[i],
        ) by {
            if !spec_is_page_or_context(s.last()) {
                assert(spec_nonpages(s) == nrest.push(s.last()));
                if i < nrest.len() {
                    assert(spec_nonpages(s)[i] == nrest[i]);
                }
            } else {
                assert(spec_nonpages(s) == nrest);
            }
        }
    }
}

/// After the final reorder nothing is lost: the front of the list is exactly
/// the non-page/context directives in their original order, the tail is
/// exactly the page and context directives in their original order, and a
/// page or context directive never precedes a directive of the other kind.
pub proof fn lemma_reorder_separates(s: Seq<DirectiveView>)
    ensures
        spec_reorder(s).len() == s.len(),
        spec_reorder(s).take(spec_nonpages(s).len() as int) == spec_nonpages(s),
        spec_reorder(s).skip(spec_nonpages(s).len() as int) == spec_pages(s),
        forall|i: int, j: int|
            0 <= i < j < s.len() && spec_is_page_or_context(#[trigger] spec_reorder(s)[i])
                ==> spec_is_page_or_context(#[trigger] spec_reorder(s)[j]),
{
    lemma_partition_len(s);
    lemma_partition_preds(s);
    assert(spec_reorder(s).take(spec_nonpages(s).len() as int) =~= spec_nonpages(s));
    assert(spec_reorder(s).skip(spec_nonpages(s).len() as int) =~= spec_pages(s));
}

/// Concatenating directive lists concatenates their values.
pub proof fn lemma_dirs_views_add(a: Seq<Directive>, b: Seq<Directive>)
    ensures
        dirs_views(a + b) == dirs_views(a) + dirs_views(b),
{
    assert(dirs_views(a + b) =~= dirs_views(a) + dirs_views(b));
}

/// Stably partitions the directive list: every page-data and
/// processor-context directive moves to the end, each partition keeping its
/// internal order.
pub fn reorder_directives(input: Vec<Directive>) -> (r: Vec<Directive>)
    ensures
        dirs_views(r@) == spec_reorder(dirs_views(input@)),
{
    let ghost all = input@;
    let mut rest = input;
    let mut pages: Vec<Directive> = Vec::new();
    let mut others: Vec<Directive> = Vec::new();
    let ghost consumed: int = 0;
    proof {
        assert(dirs_views(all.take(0)) =~= Seq::<DirectiveView>::empty());
        assert(rest@ =~= all.skip(0));
    }
    while rest.len() > 0
        invariant
            0 <= consumed <= all.len(),
            rest@ == all.skip(consumed),
            dirs_views(others@) == spec_nonpages(dirs_views(all.take(consumed))),
            dirs_views(pages@) == spec_pages(dirs_views(all.take(consumed))),
        decreases rest@.len(),
    {
        let ghost others_pre = others@;
        let ghost pages_pre = pages@;
        let d = rest.remove(0);
        let ghost gd = d;
        proof {
            assert(all.skip(consumed)[0] == all[consumed]);
            assert(rest@ =~= all.skip(consumed + 1));
            assert(dirs_views(all.take(consumed + 1)) =~= dirs_views(all.take(consumed)).push(
                gd@,
            ));
            lemma_partition_push(dirs_views(all.take(consumed)), gd@);
        }
        if IgvmBuilder::filter_pages(&d) {
            pages.push(d);
            proof {
                crate::directive::lemma_dirs_views_push(pages_pre, gd);
            }
        } else {
            others.push(d);
            proof {
                crate::directive::lemma_dirs_views_push(others_pre, gd);
            }
        }
        proof {
            consumed = consumed + 1;
        }
    }
    proof {
        assert(all.take(consumed) =~= all);
    }
    let mut result = others;
    let ghost result_pre = result@;
    let mut pages = pages;
    result.append(&mut pages);
    proof {
        lemma_dirs_views_add(result_pre, result@.skip(result_pre.len() as int));
        assert(result@ =~= result_pre + result@.skip(result_pre.len() as int));
        assert(dirs_views(result@) =~= spec_reorder(dirs_views(all)));
    }
    result
}

/// The lists an external serializer turns into the container file: the
/// platform-support headers, the initialization headers, and the reordered
/// directives.
pub struct IgvmOutput {
    pub platforms: Vec<PlatformHeader>,
    pub initialization: Vec<InitHeader>,
    pub directives: Vec<Directive>,
}

/// Assembles the whole descriptor for one run from the parsed firmware and
/// the run's options.
pub struct IgvmBuilder {
    pub options: CmdOptions,
    pub firmware: OvmfFirmware,
    pub platforms: Vec<PlatformHeader>,
    pub initialization: Vec<InitHeader>,
    pub directives: Vec<Directive>,
}

impl IgvmBuilder {
    /// A builder for one run, with empty header and directive lists.
    pub fn new(options: CmdOptions, firmware: OvmfFirmware) -> (r: Self)
        ensures
            r.options == options,
            r.firmware == firmware,
            r.platforms@ == Seq::<PlatformHeader>::empty(),
            r.initialization@ == Seq::<InitHeader>::empty(),
            r.directives@ == Seq::<Directive>::empty(),
    {
        let r = Self {
            options,
            firmware,
            platforms: Vec::new(),
            initialization: Vec::new(),
            directives: Vec::new(),
        };
        proof {
            assert(r.platforms@ =~= Seq::<PlatformHeader>::empty());
            assert(r.initialization@ =~= Seq::<InitHeader>::empty());
            assert(r.directives@ =~= Seq::<Directive>::empty());
        }
        r
    }

    /// Whether a directive is moved to the end of the list by the final
    /// reorder: every page-data or processor-context directive is.
    pub fn filter_pages(directive: &Directive) -> (r: bool)
        ensures
            r == spec_is_page_or_context(directive@),
    {
        match directive {
            Directive::PageData { .. } => true,
            Directive::ProcessorContext { .. } => true,
        }
    }

    /// The platform-support header of the selected platform.
    fn build_platforms(platform: Platform) -> (r: PlatformHeader)
        ensures
            r == spec_platform_header(platform),
    {
        let platform_type = match platform {
            Platform::Sev => PlatformType::Sev,
            Platform::SevEs => PlatformType::SevEs,
            Platform::SevSnp => PlatformType::SevSnp,
            Platform::Native => PlatformType::Native,
        };
        PlatformHeader {
            compatibility_mask: COMPATIBILITY_MASK,
            highest_vtl: 0,
            platform_type,
            platform_version: 1,
            shared_gpa_boundary: 0,
        }
    }

    /// The guest-policy initialization header of the selected platform.
    fn build_initialization(platform: Platform) -> (r: InitHeader)
        ensures
            r == spec_init_header(platform),
    {
        let policy: u64 = match platform {
            Platform::Sev => 1,  // No Debug
            Platform::SevEs => 5,  // No Debug and ES required
            Platform::SevSnp => 0x30000,  // Reserved bit set and SMT allowed
            Platform::Native => 0,
        };
        InitHeader::GuestPolicy { policy, compatibility_mask: COMPATIBILITY_MASK }
    }

    /// Appends the per-processor context directives: the boot processor,
    /// then one application processor per remaining requested processor.
    fn build_directives(
        platform: Platform,
        cpucount: u16,
        reset_addr: u32,
        directives: &mut Vec<Directive>,
    )
        ensures
            dirs_views(final(directives)@) == dirs_views(old(directives)@) + spec_vp_directives(
                platform,
                cpucount,
                reset_addr,
            ),
    {
        let ghost base = dirs_views(directives@);
        let ghost vpd = spec_vp_directives(platform, cpucount, reset_addr);
        let needs_context: bool = match platform {
            Platform::SevEs | Platform::SevSnp => true,
            _ => false,
        };
        if !needs_context {
            proof {
                assert(base + vpd =~= base);
            }
            return ;
        }
        // Build VMSAs for the required number of processors.
        let ghost pre = directives@;
        let bsp = construct_bsp_vmsa(VMSA_GPA, COMPATIBILITY_MASK, platform);
        let ghost gbsp = bsp;
        directives.push(bsp);
        proof {
            crate::directive::lemma_dirs_views_push(pre, gbsp);
            assert(vpd[0] == gbsp@);
            assert(base + vpd.take(1) =~= base.push(gbsp@));
        }
        let mut vp: u16 = 1;
        while vp < cpucount
            invariant
                1 <= vp,
                vp <= cpucount || vp == 1,
                vp <= vpd.len(),
                vpd == spec_vp_directives(platform, cpucount, reset_addr),
                spec_requires_vp_context(platform),
                dirs_views(directives@) == base + vpd.take(vp as int),
            decreases cpucount - vp,
        {
            let ghost pre2 = directives@;
            let ap = construct_ap_vmsa(VMSA_GPA, COMPATIBILITY_MASK, platform, reset_addr, vp);
            let ghost gap = ap;
            directives.push(ap);
            proof {
                crate::directive::lemma_dirs_views_push(pre2, gap);
                assert(vpd[vp as int] == gap@);
                assert(vpd.take(vp as int + 1) =~= vpd.take(vp as int).push(vpd[vp as int]));
                assert(base + vpd.take(vp as int + 1) =~= (base + vpd.take(vp as int)).push(
                    gap@,
                ));
            }
            vp = vp + 1;
        }
        proof {
            assert(vpd.take(vpd.len() as int) =~= vpd);
        }
    }

    /// Builds the finished output: the initialization header, the firmware
    /// and per-processor directives, the platform-support header, and the
    /// final stable reorder that moves every page and context directive to
    /// the end of the list.
    pub fn build(self) -> (r: IgvmOutput)
        ensures
            r.platforms@ == self.platforms@.push(spec_platform_header(self.options.platform)),
            r.initialization@ == self.initialization@.push(spec_init_header(self.options.platform)),
            dirs_views(r.directives@) == spec_reorder(
                dirs_views(self.directives@) + self.firmware@.directives + spec_vp_directives(
                    self.options.platform,
                    self.options.cpucount,
                    self.firmware@.fw_info.reset_addr,
                ),
            ),
    {
        let IgvmBuilder { options, firmware, mut platforms, mut initialization, mut directives } =
            self;
        initialization.push(Self::build_initialization(options.platform));

        let ghost base0 = dirs_views(directives@);
        let (fw_info, mut fw_dirs) = firmware.into_parts();
        let ghost fw_views = dirs_views(fw_dirs@);
        directives.append(&mut fw_dirs);
        proof {
            lemma_dirs_views_add(directives@.take(base0.len() as int), directives@.skip(
                base0.len() as int,
            ));
            assert(directives@ =~= directives@.take(base0.len() as int) + directives@.skip(
                base0.len() as int,
            ));
            assert(dirs_views(directives@) =~= base0 + fw_views);
        }
        Self::build_directives(options.platform, options.cpucount, fw_info.reset_addr,
            &mut directives);
        platforms.push(Self::build_platforms(options.platform));

        // Separate the page and context directives out from the others so
        // the consuming launcher sees them last.
        let directives = reorder_directives(directives);
        proof {
            assert((base0 + fw_views) + spec_vp_directives(
                options.platform,
                options.cpucount,
                fw_info.reset_addr,
            ) =~= base0 + fw_views + spec_vp_directives(
                options.platform,
                options.cpucount,
                fw_info.reset_addr,
            ));
        }
        IgvmOutput { platforms, initialization, directives }
    }
}

} // verus!
