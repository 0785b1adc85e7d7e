//! What the kernel takes from the ACPI tables: PCI configuration regions
//! (MCFG), the FADT's century register, the HPET (HPET table) and the
//! interrupt model (MADT).
use vstd::prelude::*;
use crate::interrupts::{InterruptSourceOverride, IoApicInfo, IoApicSet};
use crate::pci::{ConfigRegionAccess, PciConfigRegion};

verus! {

/// The HPET table: where the register block is.
#[derive(Clone, Copy, Debug, PartialEq, Eq)]
pub struct HpetInfo {
    pub base_address: u64,
    pub hpet_number: u8,
    pub main_counter_minimum_tick: u16,
}

/// The APIC interrupt model from the MADT.
pub struct PlatformInfo {
    pub local_apic_address: u64,
    pub io_apics: Vec<IoApicInfo>,
    pub interrupt_source_overrides: Vec<InterruptSourceOverride>,
    pub also_has_legacy_pics: bool,
}

/// The tables, as read once at boot.
pub struct AcpiTables {
    pub pci_regions: Vec<PciConfigRegion>,
    pub fadt_century: u8,
    pub hpet: Option<HpetInfo>,
    pub platform: PlatformInfo,
}

/// The PCI configuration regions from the MCFG.
pub fn get_pci_config_regions(tables: &AcpiTables) -> (r: ConfigRegionAccess)
    ensures
        r.regions@ == tables.pci_regions@,
{
    let mut regions: Vec<PciConfigRegion> = Vec::new();
    let mut i: usize = 0;
    while i < tables.pci_regions.len()
        invariant
            0 <= i <= tables.pci_regions@.len(),
            regions@ == tables.pci_regions@.subrange(0, i as int),
        decreases tables.pci_regions@.len() - i,
    {
        regions.push(tables.pci_regions[i]);
        proof {
            assert(tables.pci_regions@.subrange(0, i + 1) == tables.pci_regions@.subrange(0, i as int).push(tables.pci_regions@[i as int]));
        }
        i = i + 1;
    }
    proof {
        assert(tables.pci_regions@.subrange(0, tables.pci_regions@.len() as int) == tables.pci_regions@);
    }
    ConfigRegionAccess { regions }
}

/// The CMOS register that holds the century, if the FADT names one
/// (zero means it does not).
pub fn get_century_register(tables: &AcpiTables) -> (r: Option<u8>)
    ensures
        r == (if tables.fadt_century == 0 { None } else { Some(tables.fadt_century) }),
{
    if tables.fadt_century == 0 { None } else { Some(tables.fadt_century) }
}

/// The HPET, if the tables describe one.
pub fn get_hpet(tables: &AcpiTables) -> (r: Option<HpetInfo>)
    ensures
        r == tables.hpet,
{
    tables.hpet
}

/// The interrupt model.
pub fn get_platform_info(tables: &AcpiTables) -> (r: &PlatformInfo)
    ensures
        *r == tables.platform,
{
    &tables.platform
}

/// The IOAPICs of the platform, sorted by GSI base.
pub fn init_ioapic(io_apics: &Vec<IoApicInfo>) -> (r: IoApicSet)
    ensures
        r.sorted(),
        r@.to_multiset() == io_apics@.to_multiset(),
{
    let mut set = IoApicSet::new();
    let mut i: usize = 0;
    proof {
        assert(io_apics@.subrange(0, 0) =~= Seq::<IoApicInfo>::empty());
        assert(set@ =~= io_apics@.subrange(0, 0));
    }
    while i < io_apics.len()
        invariant
            0 <= i <= io_apics@.len(),
            set.sorted(),
            set@.to_multiset() == io_apics@.subrange(0, i as int).to_multiset(),
        decreases io_apics@.len() - i,
    {
        set.insert(io_apics[i]);
        proof {
            let s = io_apics@.subrange(0, i as int);
            assert(io_apics@.subrange(0, i + 1) == s.push(io_apics@[i as int]));
            vstd::seq_lib::to_multiset_build(s, io_apics@[i as int]);
        }
        i = i + 1;
    }
    proof {
        assert(io_apics@.subrange(0, io_apics@.len() as int) == io_apics@);
    }
    set
}

} // verus!
