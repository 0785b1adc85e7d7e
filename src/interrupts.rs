//! Interrupt routing: the table of handlers behind vectors 32..=251, the
//! IOAPICs that own ranges of global system interrupts, legacy IRQ
//! overrides, and MSI/MSI-X vector allocation. Each registration hands back
//! a guard; releasing the guard is the only way to free its vector.
use vstd::prelude::*;

verus! {

/// Vector of the first general interrupt; slot `i` of the table serves
/// vector `FIRST_VECTOR + i`.
pub const FIRST_VECTOR: u8 = 32;

/// Slots in the handler table: vectors 32..=255.
pub const NUM_SLOTS: usize = 224;

/// Vector that asks every core to flush its TLB.
pub const LOCAL_APIC_TLB_FLUSH: u8 = 252;

/// Vector of LAPIC error interrupts.
pub const LOCAL_APIC_ERROR: u8 = 253;

/// Vector of the LAPIC timer.
pub const LOCAL_APIC_TIMER: u8 = 254;

/// Vector of spurious LAPIC interrupts.
pub const LOCAL_APIC_SPURIOUS: u8 = 255;

/// Last vector that registrations may take.
pub const LAST_FREE: u8 = 251;

/// Base of the MSI message address on x86: `0xFEE` in bits 20..32.
pub const MSI_ADDRESS_BASE: u32 = 0xFEE0_0000;

/// What runs when a vector fires: nothing, a plain function, or an owned
/// closure.
pub enum InterruptHandler<S, D> {
    Empty,
    Static(S),
    Dynamic(D),
}

impl<S, D> InterruptHandler<S, D> {
    pub open spec fn is_set(&self) -> bool {
        !(self is Empty)
    }

    /// Whether a handler is installed.
    pub fn is_none(&self) -> (r: bool)
        ensures
            r == !self.is_set(),
    {
        match self {
            InterruptHandler::Empty => true,
            _ => false,
        }
    }
}

/// How an interrupt line signals.
#[derive(Clone, Copy, Debug, PartialEq, Eq)]
pub enum InterruptType {
    EdgeHigh,
    EdgeLow,
    LevelHigh,
    LevelLow,
}

/// Polarity that a legacy override asks for.
#[derive(Clone, Copy, Debug, PartialEq, Eq)]
pub enum Polarity {
    SameAsBus,
    ActiveHigh,
    ActiveLow,
}

/// Trigger mode that a legacy override asks for.
#[derive(Clone, Copy, Debug, PartialEq, Eq)]
pub enum TriggerMode {
    SameAsBus,
    Edge,
    Level,
}

/// An ACPI interrupt source override: legacy ISA IRQ `isa_source` arrives
/// on `global_system_interrupt` with the given signalling.
#[derive(Clone, Copy, Debug, PartialEq, Eq)]
pub struct InterruptSourceOverride {
    pub isa_source: u8,
    pub global_system_interrupt: u32,
    pub polarity: Polarity,
    pub trigger_mode: TriggerMode,
}

/// The signalling an override imposes, or `itype` where it leaves it open.
pub open spec fn override_type(iso: InterruptSourceOverride, itype: InterruptType) -> InterruptType {
    match (iso.trigger_mode, iso.polarity) {
        (TriggerMode::Edge, Polarity::ActiveHigh) => InterruptType::EdgeHigh,
        (TriggerMode::Edge, Polarity::ActiveLow) => InterruptType::EdgeLow,
        (TriggerMode::Level, Polarity::ActiveHigh) => InterruptType::LevelHigh,
        (TriggerMode::Level, Polarity::ActiveLow) => InterruptType::LevelLow,
        _ => itype,
    }
}

/// Applies the first override for `irq` in `isos`: the interrupt it
/// arrives on and how it signals. Without one, `irq` arrives on the
/// same-numbered GSI with the signalling asked for.
pub open spec fn resolve_override_spec(isos: Seq<InterruptSourceOverride>, irq: u8, itype: InterruptType) -> (u32, InterruptType)
    decreases isos.len(),
{
    if isos.len() == 0 {
        (irq as u32, itype)
    } else if isos[0].isa_source == irq {
        (isos[0].global_system_interrupt, override_type(isos[0], itype))
    } else {
        resolve_override_spec(isos.subrange(1, isos.len() as int), irq, itype)
    }
}

/// Applies the first override for `irq`.
pub fn resolve_override(isos: &Vec<InterruptSourceOverride>, irq: u8, itype: InterruptType) -> (r: (u32, InterruptType))
    ensures
        r == resolve_override_spec(isos@, irq, itype),
{
    let mut i: usize = 0;
    proof {
        assert(isos@.subrange(0, isos@.len() as int) == isos@);
    }
    while i < isos.len()
        invariant
            0 <= i <= isos@.len(),
            resolve_override_spec(isos@.subrange(i as int, isos@.len() as int), irq, itype) == resolve_override_spec(isos@, irq, itype),
        decreases isos@.len() - i,
    {
        let iso = isos[i];
        let ghost rest = isos@.subrange(i as int, isos@.len() as int);
        proof {
            assert(rest[0] == iso);
            assert(rest.subrange(1, rest.len() as int) == isos@.subrange(i + 1, isos@.len() as int));
        }
        if iso.isa_source == irq {
            let t = match (iso.trigger_mode, iso.polarity) {
                (TriggerMode::Edge, Polarity::ActiveHigh) => InterruptType::EdgeHigh,
                (TriggerMode::Edge, Polarity::ActiveLow) => InterruptType::EdgeLow,
                (TriggerMode::Level, Polarity::ActiveHigh) => InterruptType::LevelHigh,
                (TriggerMode::Level, Polarity::ActiveLow) => InterruptType::LevelLow,
                _ => itype,
            };
            return (iso.global_system_interrupt, t);
        }
        i = i + 1;
    }
    (irq as u32, itype)
}

/// An IOAPIC as routing sees it: the first GSI it owns and the index of
/// its last redirection entry.
#[derive(Clone, Copy, Debug, PartialEq, Eq)]
pub struct IoApicInfo {
    pub gsi_base: u32,
    pub max_table_entry: u8,
}

/// `apic` owns `gsi`.
pub open spec fn owns(apic: IoApicInfo, gsi: u32) -> bool {
    apic.gsi_base <= gsi && gsi - apic.gsi_base <= apic.max_table_entry
}

/// The IOAPICs, kept sorted by GSI base.
pub struct IoApicSet {
    apics: Vec<IoApicInfo>,
}

impl IoApicSet {
    pub closed spec fn view(&self) -> Seq<IoApicInfo> {
        self.apics@
    }

    pub open spec fn sorted(&self) -> bool {
        forall|i: int, j: int| 0 <= i < j < self@.len() ==> self@[i].gsi_base <= self@[j].gsi_base
    }

    /// No IOAPIC yet.
    pub fn new() -> (r: Self)
        ensures
            r@.len() == 0,
    {
        IoApicSet { apics: Vec::new() }
    }

    /// Adds an IOAPIC, after those whose base is not above its own.
    pub fn insert(&mut self, apic: IoApicInfo)
        requires
            old(self).sorted(),
        ensures
            final(self).sorted(),
            final(self)@.to_multiset() == old(self)@.to_multiset().insert(apic),
    {
        let mut p: usize = 0;
        while p < self.apics.len() && self.apics[p].gsi_base <= apic.gsi_base
            invariant
                0 <= p <= self@.len(),
                self == old(self),
                forall|j: int| 0 <= j < p ==> self@[j].gsi_base <= apic.gsi_base,
            decreases self@.len() - p,
        {
            p = p + 1;
        }
        let ghost s0 = self@;
        self.apics.insert(p, apic);
        proof {
            assert(self@ == s0.insert(p as int, apic));
            vstd::seq_lib::to_multiset_insert(s0, p as int, apic);
            assert forall|i: int, j: int| 0 <= i < j < self@.len() implies self@[i].gsi_base <= self@[j].gsi_base by {
                if j < p {
                } else if j == p {
                } else if i < p {
                    assert(self@[j] == s0[j - 1]);
                    if p < s0.len() {
                        assert(s0[p as int].gsi_base > apic.gsi_base);
                    }
                } else if i == p {
                    assert(self@[j] == s0[j - 1]);
                    assert(s0[p as int].gsi_base > apic.gsi_base);
                } else {
                    assert(self@[j] == s0[j - 1]);
                    assert(self@[i] == s0[i - 1]);
                }
            }
        }
    }

    /// The first IOAPIC, in base order, that owns `gsi`, if any does.
    pub fn find_io_apic(&self, gsi: u32) -> (r: Option<usize>)
        ensures
            r matches Some(i) ==> i < self@.len() && owns(self@[i as int], gsi)
                && forall|j: int| 0 <= j < i ==> !owns(#[trigger] self@[j], gsi),
            r is None ==> forall|j: int| 0 <= j < self@.len() ==> !owns(#[trigger] self@[j], gsi),
    {
        let mut i: usize = 0;
        while i < self.apics.len()
            invariant
                0 <= i <= self@.len(),
                forall|j: int| 0 <= j < i ==> !owns(#[trigger] self@[j], gsi),
            decreases self@.len() - i,
        {
            let a = self.apics[i];
            if a.gsi_base <= gsi && gsi - a.gsi_base <= a.max_table_entry as u32 {
                return Some(i);
            }
            i = i + 1;
        }
        None
    }

    /// The first IOAPIC, in base order, that owns `gsi`; some IOAPIC must
    /// own it (callers test with `find_io_apic`).
    pub fn get_io_apic(&self, gsi: u32) -> (r: usize)
        requires
            exists|j: int| 0 <= j < self@.len() && owns(#[trigger] self@[j], gsi),
        ensures
            r < self@.len() && owns(self@[r as int], gsi),
            forall|j: int| 0 <= j < r ==> !owns(#[trigger] self@[j], gsi),
    {
        match self.find_io_apic(gsi) {
            Some(i) => i,
            None => {
                proof {
                    let j = choose|j: int| 0 <= j < self@.len() && owns(#[trigger] self@[j], gsi);
                    assert(!owns(self@[j], gsi));
                }
                0
            },
        }
    }

    /// The first vector above every vector that the IOAPICs own
    /// (an IOAPIC with base `b` owns vectors `32 + b ..= 32 + b + max`).
    pub fn first_free_vector(&self) -> (r: u64)
        ensures
            forall|j: int| 0 <= j < self@.len() ==> FIRST_VECTOR + (#[trigger] self@[j]).gsi_base + self@[j].max_table_entry < r,
            r >= FIRST_VECTOR,
            self@.len() == 0 ==> r == FIRST_VECTOR,
            forall|j: int| 0 <= j < self@.len() ==> FIRST_VECTOR + (#[trigger] self@[j]).gsi_base + self@[j].max_table_entry + 1 <= r,
            self@.len() > 0 ==> exists|j: int| 0 <= j < self@.len() && r == FIRST_VECTOR + (#[trigger] self@[j]).gsi_base + self@[j].max_table_entry + 1,
    {
        let mut r: u64 = FIRST_VECTOR as u64;
        let mut i: usize = 0;
        while i < self.apics.len()
            invariant
                0 <= i <= self@.len(),
                r >= FIRST_VECTOR,
                r <= FIRST_VECTOR + u32::MAX + 256,
                forall|j: int| 0 <= j < i ==> FIRST_VECTOR + (#[trigger] self@[j]).gsi_base + self@[j].max_table_entry + 1 <= r,
                i == 0 ==> r == FIRST_VECTOR,
                i > 0 ==> exists|j: int| 0 <= j < i && r == FIRST_VECTOR + (#[trigger] self@[j]).gsi_base + self@[j].max_table_entry + 1,
            decreases self@.len() - i,
        {
            let a = self.apics[i];
            let top = FIRST_VECTOR as u64 + a.gsi_base as u64 + a.max_table_entry as u64 + 1;
            if top > r || i == 0 {
                proof {
                    if i > 0 {
                        let j0 = choose|j: int| 0 <= j < i && r == FIRST_VECTOR + (#[trigger] self@[j]).gsi_base + self@[j].max_table_entry + 1;
                    }
                }
                r = if top > r { top } else { r };
                proof {
                    if i == 0 {
                        assert(r == top);
                    }
                }
            }
            i = i + 1;
        }
        r
    }
}

/// Why a registration failed.
#[derive(Clone, Copy, Debug, PartialEq, Eq)]
pub enum InterruptError {
    /// No IOAPIC owns the interrupt.
    NoIoApic,
    /// The interrupt's vector is one of the four the LAPIC keeps.
    VectorReserved,
    /// Another guard holds the vector.
    VectorInUse,
}

/// The PCI capabilities that MSI registration looks at.
#[derive(Clone, Copy, Debug, PartialEq, Eq)]
pub enum CapabilityKind {
    Msi,
    MsiX,
    Other,
}

/// Proof of a registration. `IoApic` holds the GSI; `Msi` and `MsiX` hold
/// the index of the capability they programmed and their vector.
#[derive(Debug, PartialEq, Eq)]
pub enum InterruptGuard {
    IoApic(u32),
    Msi(usize, u8),
    MsiX(usize, u8),
}

/// The table slot that `g` holds.
pub open spec fn guard_slot(g: InterruptGuard) -> int {
    match g {
        InterruptGuard::IoApic(gsi) => gsi as int,
        InterruptGuard::Msi(_, v) => v - FIRST_VECTOR,
        InterruptGuard::MsiX(_, v) => v - FIRST_VECTOR,
    }
}

/// How to program an IOAPIC redirection entry for a registration.
#[derive(Clone, Copy, Debug, PartialEq, Eq)]
pub struct IoApicRoute {
    /// Index of the IOAPIC in the sorted set.
    pub apic: usize,
    /// Redirection entry within that IOAPIC.
    pub entry: u8,
    pub vector: u8,
    pub level_triggered: bool,
    pub low_active: bool,
}

/// The MSI message a device writes to raise a vector: the LAPIC message
/// address and the vector as data.
#[derive(Clone, Copy, Debug, PartialEq, Eq)]
pub struct MsiMessage {
    pub address: u32,
    pub data: u32,
}

/// What to mask once a guard is released.
#[derive(Clone, Copy, Debug, PartialEq, Eq)]
pub enum MaskSource {
    IoApic { apic: usize, entry: u8 },
    Msi(usize),
    MsiX(usize),
}

/// The handler table and the IOAPICs, with the first vector that MSI
/// registrations may take.
pub struct InterruptController<S, D> {
    handlers: Vec<InterruptHandler<S, D>>,
    io_apics: IoApicSet,
    first_free: u64,
}

impl<S, D> InterruptController<S, D> {
    /// The handler in slot `i`.
    pub closed spec fn slot(&self, i: int) -> InterruptHandler<S, D> {
        self.handlers@[i]
    }

    /// The IOAPICs, sorted by GSI base.
    pub closed spec fn apics(&self) -> Seq<IoApicInfo> {
        self.io_apics@
    }

    /// First vector that MSI registrations may take.
    pub closed spec fn msi_floor(&self) -> int {
        self.first_free as int
    }

    pub closed spec fn wf(&self) -> bool {
        &&& self.handlers@.len() == NUM_SLOTS
        &&& self.io_apics.sorted()
        &&& self.first_free >= FIRST_VECTOR
    }

    /// Slots other than `s` are the same in both controllers.
    pub open spec fn same_except(&self, other: &Self, s: int) -> bool {
        &&& self.apics() == other.apics()
        &&& self.msi_floor() == other.msi_floor()
        &&& forall|j: int| 0 <= j < NUM_SLOTS && j != s ==> #[trigger] self.slot(j) == other.slot(j)
    }

    /// A controller over `io_apics` with every slot empty; MSI vectors start
    /// above the last vector the IOAPICs own.
    pub fn new(io_apics: IoApicSet) -> (r: Self)
        requires
            io_apics.sorted(),
        ensures
            r.wf(),
            r.apics() == io_apics@,
            forall|j: int| 0 <= j < NUM_SLOTS ==> !(#[trigger] r.slot(j)).is_set(),
            forall|j: int| 0 <= j < io_apics@.len() ==> FIRST_VECTOR + (#[trigger] io_apics@[j]).gsi_base + io_apics@[j].max_table_entry < r.msi_floor(),
            io_apics@.len() == 0 ==> r.msi_floor() == FIRST_VECTOR,
    {
        let first_free = io_apics.first_free_vector();
        let mut handlers: Vec<InterruptHandler<S, D>> = Vec::new();
        let mut i: usize = 0;
        while i < NUM_SLOTS
            invariant
                0 <= i <= NUM_SLOTS,
                handlers@.len() == i,
                forall|j: int| 0 <= j < i ==> !(#[trigger] handlers@[j]).is_set(),
            decreases NUM_SLOTS - i,
        {
            handlers.push(InterruptHandler::Empty);
            i = i + 1;
        }
        InterruptController { handlers, io_apics, first_free }
    }

    /// The handler behind `vector`, for dispatch.
    pub fn handler(&self, vector: u8) -> (r: &InterruptHandler<S, D>)
        requires
            self.wf(),
            vector >= FIRST_VECTOR,
        ensures
            *r == self.slot(vector - FIRST_VECTOR),
    {
        &self.handlers[(vector - FIRST_VECTOR) as usize]
    }

    /// Registers `h` for legacy or IOAPIC interrupt `irq`: applies the first
    /// override for it, finds the IOAPIC that owns the resulting GSI, and
    /// takes the slot of vector `32 + gsi`. Fails, changing nothing, when no
    /// IOAPIC owns the GSI, when its vector is reserved, or when the slot is
    /// held.
    pub fn set_interrupt(
        &mut self,
        overrides: &Vec<InterruptSourceOverride>,
        irq: u8,
        itype: InterruptType,
        h: InterruptHandler<S, D>,
    ) -> (r: Result<(InterruptGuard, IoApicRoute), InterruptError>)
        requires
            old(self).wf(),
            h.is_set(),
        ensures
            final(self).wf(),
            r is Ok <==> registration_check(*old(self), resolve_override_spec(overrides@, irq, itype).0) is Ok,
            r matches Err(e) ==> *final(self) == *old(self)
                && Err::<(), InterruptError>(e) == registration_check(*old(self), resolve_override_spec(overrides@, irq, itype).0),
            r matches Ok((g, route)) ==> {
                &&& g == InterruptGuard::IoApic(resolve_override_spec(overrides@, irq, itype).0)
                &&& final(self).slot(guard_slot(g)) == h
                &&& final(self).same_except(&*old(self), guard_slot(g))
                &&& route_matches(old(self).apics(), resolve_override_spec(overrides@, irq, itype), route)
            },
    {
        let (gsi, t) = resolve_override(overrides, irq, itype);
        let apic = match self.io_apics.find_io_apic(gsi) {
            Some(a) => a,
            None => return Err(InterruptError::NoIoApic),
        };
        if gsi >= (NUM_SLOTS - 4) as u32 {
            return Err(InterruptError::VectorReserved);
        }
        if !self.handlers[gsi as usize].is_none() {
            return Err(InterruptError::VectorInUse);
        }
        let info = self.io_apics.apics[apic];
        proof {
            assert(owns(old(self).apics()[apic as int], gsi));
        }
        let level_triggered = match t {
            InterruptType::LevelHigh | InterruptType::LevelLow => true,
            _ => false,
        };
        let low_active = match t {
            InterruptType::EdgeLow | InterruptType::LevelLow => true,
            _ => false,
        };
        let route = IoApicRoute {
            apic,
            entry: (gsi - info.gsi_base) as u8,
            vector: FIRST_VECTOR + gsi as u8,
            level_triggered,
            low_active,
        };
        self.handlers.set(gsi as usize, h);
        Ok((InterruptGuard::IoApic(gsi), route))
    }

    /// Registers `h` behind the first free vector from the MSI floor up to
    /// `LAST_FREE`, on the first MSI or MSI-X capability in `caps`.
    /// `None`, changing nothing, when no vector is free or no capability fits.
    pub fn set_interrupt_msi(&mut self, caps: &Vec<CapabilityKind>, h: InterruptHandler<S, D>) -> (r: Option<(InterruptGuard, MsiMessage)>)
        requires
            old(self).wf(),
            h.is_set(),
        ensures
            final(self).wf(),
            match r {
                Some((g, msg)) => {
                    let v = match g {
                        InterruptGuard::Msi(_, v) => v,
                        InterruptGuard::MsiX(_, v) => v,
                        InterruptGuard::IoApic(_) => 0,
                    };
                    let c = match g {
                        InterruptGuard::Msi(c, _) => c,
                        InterruptGuard::MsiX(c, _) => c,
                        InterruptGuard::IoApic(_) => 0,
                    };
                    &&& !(g is IoApic)
                    &&& old(self).msi_floor() <= v <= LAST_FREE
                    &&& !old(self).slot(v - FIRST_VECTOR).is_set()
                    &&& forall|u: int| old(self).msi_floor() <= u < v ==> (#[trigger] old(self).slot(u - FIRST_VECTOR)).is_set()
                    &&& final(self).slot(v - FIRST_VECTOR) == h
                    &&& final(self).same_except(&*old(self), v - FIRST_VECTOR)
                    &&& c < caps@.len()
                    &&& forall|k: int| 0 <= k < c ==> caps@[k] == CapabilityKind::Other
                    &&& (g is Msi) == (caps@[c as int] == CapabilityKind::Msi)
                    &&& (g is MsiX) == (caps@[c as int] == CapabilityKind::MsiX)
                    &&& msg == MsiMessage { address: MSI_ADDRESS_BASE, data: v as u32 }
                },
                None => {
                    &&& *final(self) == *old(self)
                    &&& (forall|u: int| old(self).msi_floor() <= u <= LAST_FREE ==> (#[trigger] old(self).slot(u - FIRST_VECTOR)).is_set())
                        || (forall|k: int| 0 <= k < caps@.len() ==> caps@[k] == CapabilityKind::Other)
                },
            },
    {
        let mut v: u64 = self.first_free;
        while v <= LAST_FREE as u64 && !self.handlers[(v - FIRST_VECTOR as u64) as usize].is_none()
            invariant
                self.wf(),
                self == old(self),
                self.first_free <= v,
                forall|u: int| self.first_free <= u < v ==> (#[trigger] self.slot(u - FIRST_VECTOR)).is_set(),
            decreases LAST_FREE + 1 - v,
        {
            v = v + 1;
        }
        if v > LAST_FREE as u64 {
            return None;
        }
        let mut c: usize = 0;
        while c < caps.len() && matches!(caps[c], CapabilityKind::Other)
            invariant
                0 <= c <= caps@.len(),
                forall|k: int| 0 <= k < c ==> caps@[k] == CapabilityKind::Other,
            decreases caps@.len() - c,
        {
            c = c + 1;
        }
        if c == caps.len() {
            return None;
        }
        let vector = v as u8;
        let g = match caps[c] {
            CapabilityKind::Msi => InterruptGuard::Msi(c, vector),
            _ => InterruptGuard::MsiX(c, vector),
        };
        self.handlers.set((v - FIRST_VECTOR as u64) as usize, h);
        Some((g, MsiMessage { address: MSI_ADDRESS_BASE, data: vector as u32 }))
    }

    /// Frees the slot that `g` holds and says which source to mask.
    pub fn release(&mut self, g: InterruptGuard) -> (r: MaskSource)
        requires
            old(self).wf(),
            0 <= guard_slot(g) < NUM_SLOTS,
            g matches InterruptGuard::IoApic(gsi) ==> exists|j: int| 0 <= j < old(self).apics().len() && owns(#[trigger] old(self).apics()[j], gsi),
        ensures
            final(self).wf(),
            !final(self).slot(guard_slot(g)).is_set(),
            final(self).same_except(&*old(self), guard_slot(g)),
            match g {
                InterruptGuard::IoApic(gsi) => r matches MaskSource::IoApic { apic, entry } && apic < old(self).apics().len()
                    && owns(old(self).apics()[apic as int], gsi) && entry == gsi - old(self).apics()[apic as int].gsi_base,
                InterruptGuard::Msi(c, _) => r == MaskSource::Msi(c),
                InterruptGuard::MsiX(c, _) => r == MaskSource::MsiX(c),
            },
    {
        match g {
            InterruptGuard::IoApic(gsi) => {
                self.handlers.set(gsi as usize, InterruptHandler::Empty);
                let apic = self.io_apics.get_io_apic(gsi);
                let info = self.io_apics.apics[apic];
                MaskSource::IoApic { apic, entry: (gsi - info.gsi_base) as u8 }
            },
            InterruptGuard::Msi(c, v) => {
                self.handlers.set((v - FIRST_VECTOR) as usize, InterruptHandler::Empty);
                MaskSource::Msi(c)
            },
            InterruptGuard::MsiX(c, v) => {
                self.handlers.set((v - FIRST_VECTOR) as usize, InterruptHandler::Empty);
                MaskSource::MsiX(c)
            },
        }
    }
}

/// Whether a registration on `gsi` may go ahead, and if not, why.
pub open spec fn registration_check<S, D>(c: InterruptController<S, D>, gsi: u32) -> Result<(), InterruptError> {
    if forall|j: int| 0 <= j < c.apics().len() ==> !owns(#[trigger] c.apics()[j], gsi) {
        Err(InterruptError::NoIoApic)
    } else if gsi >= NUM_SLOTS - 4 {
        Err(InterruptError::VectorReserved)
    } else if c.slot(gsi as int).is_set() {
        Err(InterruptError::VectorInUse)
    } else {
        Ok(())
    }
}

/// `route` programs the first IOAPIC that owns the GSI in `target`, at the
/// GSI's entry, for vector `32 + gsi`, with the signalling in `target`.
pub open spec fn route_matches(apics: Seq<IoApicInfo>, target: (u32, InterruptType), route: IoApicRoute) -> bool {
    let (gsi, t) = target;
    &&& route.apic < apics.len()
    &&& owns(apics[route.apic as int], gsi)
    &&& forall|j: int| 0 <= j < route.apic ==> !owns(#[trigger] apics[j], gsi)
    &&& route.entry == gsi - apics[route.apic as int].gsi_base
    &&& route.vector == FIRST_VECTOR + gsi
    &&& route.level_triggered == (t == InterruptType::LevelHigh || t == InterruptType::LevelLow)
    &&& route.low_active == (t == InterruptType::EdgeLow || t == InterruptType::LevelLow)
}

/// A vector held by a guard stays held, with the same handler, through any
/// registration or release that concerns another slot; the guard's own
/// release empties it.
pub proof fn lemma_guard_slot_lifecycle<S, D>(
    c0: InterruptController<S, D>,
    c1: InterruptController<S, D>,
    held: int,
    changed: int,
)
    requires
        0 <= held < NUM_SLOTS,
        c0.slot(held).is_set(),
        c1.same_except(&c0, changed),
        held != changed,
    ensures
        c1.slot(held) == c0.slot(held),
        c1.slot(held).is_set(),
{
}

} // verus!
