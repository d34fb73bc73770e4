//! What the kernel keeps of the ACPI tables.

use super::DeviceProbeError;
use crate::object::{Handle, ObjectError};
use vstd::prelude::*;

verus! {

/// ACPI device errors.
#[derive(Debug, Clone, Copy, PartialEq, Eq, Structural)]
pub enum AcpiError {
    ParseFailed,
    NamespaceInitFailed(ObjectError),
}

/// Translation of the addresses in ACPI tables.
#[derive(Debug, Clone, Copy, PartialEq, Eq, Structural)]
pub struct AcpiIdentityHandler {
    pub physical_memory_offset: usize,
}

impl AcpiIdentityHandler {
    /// The virtual address that stands for a physical one. An address that is
    /// in the mapping of physical memory already stays as it is.
    pub fn to_virt(&self, phys_or_virt: usize) -> (virt: usize)
        requires
            phys_or_virt < self.physical_memory_offset ==> phys_or_virt
                + self.physical_memory_offset <= usize::MAX,
        ensures
            virt == if phys_or_virt >= self.physical_memory_offset {
                phys_or_virt as int
            } else {
                phys_or_virt + self.physical_memory_offset
            },
    {
        if phys_or_virt >= self.physical_memory_offset {
            phys_or_virt
        } else {
            phys_or_virt + self.physical_memory_offset
        }
    }
}

/// Entry of the multiple APIC description table.
#[derive(Debug, Clone, Copy, PartialEq, Eq, Structural)]
pub enum MadtEntry {
    LocalApic { apic_id: u8, flags: u32 },
    LocalX2Apic { x2apic_id: u32, flags: u32 },
    Other,
}

/// The identifier of the processor that an entry describes, if it is enabled.
pub open spec fn enabled_lapic(entry: MadtEntry) -> Option<u32> {
    match entry {
        MadtEntry::LocalApic { apic_id, flags } => if flags & 1 != 0 {
            Some(apic_id as u32)
        } else {
            None
        },
        MadtEntry::LocalX2Apic { x2apic_id, flags } => if flags & 1 != 0 {
            Some(x2apic_id)
        } else {
            None
        },
        MadtEntry::Other => None,
    }
}

/// The identifiers of the enabled processors among the first entries.
pub open spec fn enabled_lapics(entries: Seq<MadtEntry>, count: int) -> Seq<u32>
    decreases count,
{
    if count <= 0 {
        Seq::empty()
    } else {
        let before = enabled_lapics(entries, count - 1);
        match enabled_lapic(entries[count - 1]) {
            Some(id) => before.push(id),
            None => before,
        }
    }
}

/// CPU topology extracted from MADT and cached by the ACPI device.
#[derive(Debug)]
pub struct CpuTopology {
    lapic_ids: Vec<u32>,
}

impl View for CpuTopology {
    type V = Seq<u32>;

    closed spec fn view(&self) -> Seq<u32> {
        self.lapic_ids@
    }
}

impl CpuTopology {
    /// A topology with at least one processor.
    pub fn new(lapic_ids: Vec<u32>) -> (topology: Option<Self>)
        ensures
            match topology {
                Some(topology) => topology@ == lapic_ids@ && lapic_ids@.len() > 0,
                None => lapic_ids@.len() == 0,
            },
    {
        if lapic_ids.len() == 0 {
            return None;
        }
        Some(CpuTopology { lapic_ids })
    }

    /// The enabled processors of the table, in firmware order.
    pub fn from_madt(entries: &Vec<MadtEntry>) -> (topology: Option<Self>)
        ensures
            match topology {
                Some(topology) => topology@ == enabled_lapics(entries@, entries@.len() as int)
                    && topology@.len() > 0,
                None => enabled_lapics(entries@, entries@.len() as int).len() == 0,
            },
    {
        let mut lapic_ids: Vec<u32> = Vec::new();
        let mut i: usize = 0;
        while i < entries.len()
            invariant
                i <= entries@.len(),
                lapic_ids@ == enabled_lapics(entries@, i as int),
            decreases entries@.len() - i,
        {
            match entries[i] {
                MadtEntry::LocalApic { apic_id, flags } => {
                    if flags & 1 != 0 {
                        lapic_ids.push(apic_id as u32);
                    }
                },
                MadtEntry::LocalX2Apic { x2apic_id, flags } => {
                    if flags & 1 != 0 {
                        lapic_ids.push(x2apic_id);
                    }
                },
                MadtEntry::Other => {},
            }
            i = i + 1;
        }
        Self::new(lapic_ids)
    }

    /// Return the number of enabled CPUs described by MADT.
    pub fn cpu_count(&self) -> (count: usize)
        ensures
            count == self@.len(),
    {
        self.lapic_ids.len()
    }

    /// Return the enabled LAPIC IDs in firmware order.
    pub fn lapic_ids(&self) -> (ids: &[u32])
        ensures
            ids@ == self@,
    {
        self.lapic_ids.as_slice()
    }
}

/// Execute a closure with an early ACPI table mapping.
pub fn early_table_with<T, R>(table: Option<T>, f: impl FnOnce(&T) -> R) -> (result: Option<R>)
    requires
        table matches Some(mapping) ==> call_requires(f, (&mapping,)),
    ensures
        match result {
            Some(value) => table matches Some(mapping) && call_ensures(f, (&mapping,), value),
            None => table is None,
        },
{
    match table {
        Some(mapping) => Some(f(&mapping)),
        None => None,
    }
}

/// Return CPU topology from MADT before formal ACPI device publication.
pub fn early_cpu_topology(madt: Option<Vec<MadtEntry>>) -> (topology: Option<CpuTopology>)
    ensures
        match topology {
            Some(topology) => madt matches Some(entries) && topology@ == enabled_lapics(
                entries@,
                entries@.len() as int,
            ) && topology@.len() > 0,
            None => madt matches Some(entries) ==> enabled_lapics(
                entries@,
                entries@.len() as int,
            ).len() == 0,
        },
{
    match madt {
        Some(entries) => CpuTopology::from_madt(&entries),
        None => None,
    }
}

/// Wrapper payload for ACPI table objects.
pub struct AcpiTable<T> {
    mapping: T,
}

impl<T> AcpiTable<T> {
    pub closed spec fn contents(&self) -> T {
        self.mapping
    }

    pub fn new(mapping: T) -> (table: Self)
        ensures
            table.contents() == mapping,
    {
        AcpiTable { mapping }
    }

    /// Every access to a table reads it.
    pub fn read(&self) -> (mapping: AcpiTableMapping<'_, T>)
        ensures
            mapping.contents() == self.contents(),
    {
        AcpiTableMapping::new(&self.mapping)
    }
}

/// Shared view of an ACPI table.
pub struct AcpiTableMapping<'a, T> {
    mapping: &'a T,
}

impl<'a, T> AcpiTableMapping<'a, T> {
    pub closed spec fn contents(&self) -> T {
        *self.mapping
    }

    pub fn new(mapping: &'a T) -> (view: Self)
        ensures
            view.contents() == *mapping,
    {
        AcpiTableMapping { mapping }
    }

    pub fn get(&self) -> (mapping: &T)
        ensures
            *mapping == self.contents(),
    {
        self.mapping
    }
}

/// ACPI device object registered under `/Kernel/Device/ACPI`.
pub struct Acpi {
    madt: bool,
    hpet: bool,
    cpu_topology: Option<CpuTopology>,
}

/// What the ACPI device knows.
#[verifier::ext_equal]
pub struct AcpiView {
    pub madt: bool,
    pub hpet: bool,
    pub cpus: Option<Seq<u32>>,
}

impl View for Acpi {
    type V = AcpiView;

    closed spec fn view(&self) -> AcpiView {
        AcpiView {
            madt: self.madt,
            hpet: self.hpet,
            cpus: match self.cpu_topology {
                Some(topology) => Some(topology@),
                None => None,
            },
        }
    }
}

/// Step of taking over the tables that the firmware has.
#[derive(Debug, Clone, Copy, PartialEq)]
pub enum DiscoverStep {
    /// Read the list of tables.
    Parse,
    /// Look for the description of the processors.
    FindMadt,
    RegisterMadt,
    /// Look for the description of the event timer.
    FindHpet,
    RegisterHpet,
    Done(Result<(), AcpiError>),
}

/// How a step of taking over the tables ended.
pub enum DiscoverEvent {
    Parsed(bool),
    Madt(Option<Vec<MadtEntry>>),
    Hpet(bool),
    Registered(Result<(), ObjectError>),
}

impl Acpi {
    pub fn new() -> (device: Self)
        ensures
            device@ == (AcpiView { madt: false, hpet: false, cpus: None }),
    {
        Acpi { madt: false, hpet: false, cpu_topology: None }
    }

    /// What the device knows and does after a step. The processors are known once
    /// their table was found, even where it cannot be registered; a failure ends
    /// the discovery. A step goes on only from its own event.
    pub open spec fn discovered(
        before: AcpiView,
        step: DiscoverStep,
        event: DiscoverEvent,
    ) -> (AcpiView, DiscoverStep) {
        match (step, event) {
            (DiscoverStep::Parse, DiscoverEvent::Parsed(parsed)) => (
                before,
                if parsed {
                    DiscoverStep::FindMadt
                } else {
                    DiscoverStep::Done(Err(AcpiError::ParseFailed))
                },
            ),
            (DiscoverStep::FindMadt, DiscoverEvent::Madt(madt)) => match madt {
                None => (before, DiscoverStep::FindHpet),
                Some(entries) => {
                    let cpus = enabled_lapics(entries@, entries@.len() as int);
                    (
                        AcpiView {
                            cpus: if cpus.len() > 0 {
                                Some(cpus)
                            } else {
                                before.cpus
                            },
                            ..before
                        },
                        DiscoverStep::RegisterMadt,
                    )
                },
            },
            (DiscoverStep::RegisterMadt, DiscoverEvent::Registered(registered)) => match registered {
                Ok(_) => (AcpiView { madt: true, ..before }, DiscoverStep::FindHpet),
                Err(error) => (
                    before,
                    DiscoverStep::Done(Err(AcpiError::NamespaceInitFailed(error))),
                ),
            },
            (DiscoverStep::FindHpet, DiscoverEvent::Hpet(found)) => (
                before,
                if found {
                    DiscoverStep::RegisterHpet
                } else {
                    DiscoverStep::Done(Ok(()))
                },
            ),
            (DiscoverStep::RegisterHpet, DiscoverEvent::Registered(registered)) => match registered {
                Ok(_) => (AcpiView { hpet: true, ..before }, DiscoverStep::Done(Ok(()))),
                Err(error) => (
                    before,
                    DiscoverStep::Done(Err(AcpiError::NamespaceInitFailed(error))),
                ),
            },
            _ => (before, step),
        }
    }

    /// Goes on after a step of taking over the tables. Discovery begins with
    /// `Parse`.
    pub fn discover_tables(&mut self, step: DiscoverStep, event: DiscoverEvent) -> (next:
        DiscoverStep)
        ensures
            (final(self)@, next) == Self::discovered(old(self)@, step, event),
    {
        match (step, event) {
            (DiscoverStep::Parse, DiscoverEvent::Parsed(parsed)) => if parsed {
                DiscoverStep::FindMadt
            } else {
                DiscoverStep::Done(Err(AcpiError::ParseFailed))
            },
            (DiscoverStep::FindMadt, DiscoverEvent::Madt(madt)) => match madt {
                None => DiscoverStep::FindHpet,
                Some(entries) => {
                    if let Some(topology) = CpuTopology::from_madt(&entries) {
                        self.cpu_topology = Some(topology);
                    }
                    DiscoverStep::RegisterMadt
                },
            },
            (DiscoverStep::RegisterMadt, DiscoverEvent::Registered(registered)) => match registered {
                Ok(()) => {
                    self.madt = true;
                    DiscoverStep::FindHpet
                },
                Err(error) => DiscoverStep::Done(Err(AcpiError::NamespaceInitFailed(error))),
            },
            (DiscoverStep::FindHpet, DiscoverEvent::Hpet(found)) => if found {
                DiscoverStep::RegisterHpet
            } else {
                DiscoverStep::Done(Ok(()))
            },
            (DiscoverStep::RegisterHpet, DiscoverEvent::Registered(registered)) => match registered {
                Ok(()) => {
                    self.hpet = true;
                    DiscoverStep::Done(Ok(()))
                },
                Err(error) => DiscoverStep::Done(Err(AcpiError::NamespaceInitFailed(error))),
            },
            (step, _) => step,
        }
    }

    /// The first step of a probe. Without a root pointer the probe is over: no
    /// namespace is made and no driver registered.
    pub fn probe(rsdp_addr: Option<usize>) -> (step: AcpiProbeStep)
        ensures
            step == AcpiProbeStep::first(rsdp_addr),
            rsdp_addr is None ==> step == AcpiProbeStep::Done(Ok(None)),
    {
        match rsdp_addr {
            None => AcpiProbeStep::Done(Ok(None)),
            Some(_) => AcpiProbeStep::CreateNamespace,
        }
    }
}

/// Step of probing the device.
#[derive(Debug, Clone, Copy, PartialEq)]
pub enum AcpiProbeStep {
    /// Make the namespace of the tables.
    CreateNamespace,
    /// Register the device.
    Register,
    /// Let the registered device take over the tables.
    Discover(Handle),
    Done(Result<Option<Handle>, AcpiError>),
}

/// How a step of the probe ended.
#[derive(Debug, Clone, Copy, PartialEq)]
pub enum AcpiProbeEvent {
    Namespace(Result<(), ObjectError>),
    Registered(Result<Handle, ObjectError>),
    /// The device may not be reachable, or fail.
    Discovered(Result<Result<(), AcpiError>, ObjectError>),
}

impl AcpiProbeStep {
    /// A machine without firmware tables has no device.
    pub open spec fn first(rsdp_addr: Option<usize>) -> AcpiProbeStep {
        if rsdp_addr is None {
            AcpiProbeStep::Done(Ok(None))
        } else {
            AcpiProbeStep::CreateNamespace
        }
    }

    /// What a step leads to: the first failure ends the probe. A step goes on
    /// only from its own event.
    pub open spec fn after(self, event: AcpiProbeEvent) -> AcpiProbeStep {
        match (self, event) {
            (AcpiProbeStep::CreateNamespace, AcpiProbeEvent::Namespace(made)) => match made {
                Ok(_) => AcpiProbeStep::Register,
                Err(error) => AcpiProbeStep::Done(Err(AcpiError::NamespaceInitFailed(error))),
            },
            (AcpiProbeStep::Register, AcpiProbeEvent::Registered(registered)) => match registered {
                Ok(handle) => AcpiProbeStep::Discover(handle),
                Err(error) => AcpiProbeStep::Done(Err(AcpiError::NamespaceInitFailed(error))),
            },
            (AcpiProbeStep::Discover(handle), AcpiProbeEvent::Discovered(discovered)) => {
                match discovered {
                    Ok(Ok(_)) => AcpiProbeStep::Done(Ok(Some(handle))),
                    Ok(Err(error)) => AcpiProbeStep::Done(Err(error)),
                    Err(error) => AcpiProbeStep::Done(Err(AcpiError::NamespaceInitFailed(error))),
                }
            },
            _ => self,
        }
    }

    /// Goes on after the step was taken.
    pub fn advance(self, event: AcpiProbeEvent) -> (step: Self)
        ensures
            step == self.after(event),
    {
        match (self, event) {
            (AcpiProbeStep::CreateNamespace, AcpiProbeEvent::Namespace(made)) => match made {
                Ok(()) => AcpiProbeStep::Register,
                Err(error) => AcpiProbeStep::Done(Err(AcpiError::NamespaceInitFailed(error))),
            },
            (AcpiProbeStep::Register, AcpiProbeEvent::Registered(registered)) => match registered {
                Ok(handle) => AcpiProbeStep::Discover(handle),
                Err(error) => AcpiProbeStep::Done(Err(AcpiError::NamespaceInitFailed(error))),
            },
            (AcpiProbeStep::Discover(handle), AcpiProbeEvent::Discovered(discovered)) => {
                match discovered {
                    Ok(Ok(())) => AcpiProbeStep::Done(Ok(Some(handle))),
                    Ok(Err(error)) => AcpiProbeStep::Done(Err(error)),
                    Err(error) => AcpiProbeStep::Done(Err(AcpiError::NamespaceInitFailed(error))),
                }
            },
            _ => self,
        }
    }
}

/// A probe without a root pointer is over whatever happens: nothing that it is
/// told makes it create a namespace or register a driver.
pub proof fn law_no_firmware_no_device(events: Seq<AcpiProbeEvent>)
    ensures
        events.fold_left(
            AcpiProbeStep::first(None),
            |step: AcpiProbeStep, event: AcpiProbeEvent| step.after(event),
        ) == AcpiProbeStep::Done(Ok(None)),
    decreases events.len(),
{
    reveal_with_fuel(Seq::fold_left, 2);
    if events.len() > 0 {
        law_no_firmware_no_device(events.drop_last());
    }
}

/// The device manager's probe, once the firmware was asked for its root pointer:
/// where it could not be asked, there is no probe.
pub fn probe_acpi_device(firmware: Result<Option<usize>, ObjectError>) -> (result: Result<
    AcpiProbeStep,
    DeviceProbeError,
>)
    ensures
        result == (match firmware {
            Ok(rsdp_addr) => Ok::<AcpiProbeStep, DeviceProbeError>(AcpiProbeStep::first(rsdp_addr)),
            Err(_) => Err::<AcpiProbeStep, DeviceProbeError>(
                DeviceProbeError::InitializationFailed,
            ),
        }),
{
    match firmware {
        Ok(rsdp_addr) => Ok(Acpi::probe(rsdp_addr)),
        Err(_) => Err(DeviceProbeError::InitializationFailed),
    }
}

/// What the device manager is told of a probe that is over.
pub fn acpi_probe_outcome(probed: Result<Option<Handle>, AcpiError>) -> (result: Result<
    Option<Handle>,
    DeviceProbeError,
>)
    ensures
        result == (match probed {
            Ok(handle) => Ok::<Option<Handle>, DeviceProbeError>(handle),
            Err(_) => Err::<Option<Handle>, DeviceProbeError>(
                DeviceProbeError::InitializationFailed,
            ),
        }),
{
    match probed {
        Ok(handle) => Ok(handle),
        Err(_) => Err(DeviceProbeError::InitializationFailed),
    }
}

} // verus!
