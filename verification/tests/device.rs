use akarin::device::acpi::{
    acpi_probe_outcome, early_cpu_topology, early_table_with, probe_acpi_device, Acpi, AcpiError,
    AcpiIdentityHandler, AcpiProbeEvent, AcpiProbeStep, AcpiTable, CpuTopology, DiscoverEvent,
    DiscoverStep, MadtEntry,
};
use akarin::device::efifb::{
    DisplayMode, EfiFramebuffer, FramebufferConsole, FramebufferProbeEvent, FramebufferProbeStep,
};
use akarin::device::glyph::glyph_for;
use akarin::device::manager::{after_probe, probe_all, ProbeStep};
use akarin::device::mmio::{MmioAccess, MmioBuffer};
use akarin::device::DeviceProbeError;
use akarin::ipc::frame::{RawReply, ReplyValues};
use akarin::object::{Capability, Handle, ObjectError};

fn handle(object: u64) -> Handle {
    Handle {
        object,
        capabilities: Capability::none(),
        interface_caps: 0,
        clone_refusal: None,
        acquire_refusal: None,
        key_refusal: None,
        derive_refusal: None,
    }
}

const MODE: DisplayMode = DisplayMode {
    width: 64,
    height: 40,
    pitch: 256,
    depth: 32,
    red: 2,
    green: 1,
    blue: 0,
    alpha: Some(3),
};

fn display(mode: DisplayMode) -> FramebufferConsole<MmioBuffer> {
    FramebufferConsole::new(MmioBuffer::new(vec![0x55; mode.pitch * mode.height]), mode)
}

fn pixel(window: &MmioBuffer, x: usize, y: usize) -> u32 {
    window.read_u32(y * MODE.pitch + x * 4).unwrap()
}

#[test]
fn windows_refuse_what_does_not_fit() {
    let mut window = MmioBuffer::new(vec![0; 6]);
    assert_eq!(window.len(), 6);
    assert!(window.write_u32(1, 0x0403_0201));
    assert_eq!(window.read_u32(1), Some(0x0403_0201));
    assert_eq!(window.read_u16(2), Some(0x0302));
    assert_eq!(window.read_u8(4), Some(4));
    assert!(window.write_u16(4, 0xbeef));
    assert_eq!(window.read_u16(4), Some(0xbeef));
    assert_eq!(window.read_u8(3), Some(3));
    assert!(!window.write_u32(3, 0));
    assert!(!window.write_u16(5, 0));
    assert!(!window.write_u8(6, 0));
    assert_eq!(window.read_u32(3), None);
    assert_eq!(window.read_u16(5), None);
    assert_eq!(window.read_u8(usize::MAX), None);
}

#[test]
fn glyphs_come_from_the_font() {
    for c in ['A', '?', 'g', '漢'] {
        let glyph = glyph_for(c);
        let font = unifont::get_glyph(c).unwrap();
        assert_eq!(glyph.width, font.get_width());
        for y in 0..16 {
            for x in 0..glyph.width {
                assert_eq!(glyph.get_pixel(x, y), font.get_pixel(x, y));
            }
        }
    }
    assert_eq!(glyph_for('A').width, 8);
    assert_eq!(glyph_for('A').rows[4], 0x18);
    assert_eq!(glyph_for('漢').width, 16);
    assert!(unifont::get_glyph('\u{10ffff}').is_none());
    assert_eq!(glyph_for('\u{10ffff}').rows, glyph_for('?').rows);
}

#[test]
fn text_is_drawn_from_the_border() {
    let mut console = display(MODE);
    assert_eq!(pixel(console.framebuffer(), 63, 39), 0);
    console.write_str("A");
    let glyph = glyph_for('A');
    for y in 0..16 {
        for x in 0..8 {
            let expected = if glyph.get_pixel(x, y) { 0xffff_ffff } else { 0 };
            assert_eq!(pixel(console.framebuffer(), 1 + x, 1 + y), expected);
        }
    }
    console.write_str("\nA");
    assert_eq!(pixel(console.framebuffer(), 4, 19 + 4), 0xffff_ffff);
    assert_eq!(console.framebuffer().len(), 256 * 40);
    console.clear();
    assert_eq!(pixel(console.framebuffer(), 4, 5), 0);
}

#[test]
fn full_display_scrolls_by_lines() {
    let mut console = display(MODE);
    console.write_str("A\nA");
    assert_eq!(pixel(console.framebuffer(), 4, 5), 0xffff_ffff);
    console.write_str("\nA");
    assert_eq!(pixel(console.framebuffer(), 4, 22 + 4), 0xffff_ffff);
    assert_eq!(pixel(console.framebuffer(), 4, 4 + 4), 0xffff_ffff);
    assert_eq!(console.framebuffer().len(), 256 * 40);
}

#[test]
fn full_line_wraps() {
    let mut console = display(MODE);
    console.write_str("AAAAAAA");
    assert_eq!(pixel(console.framebuffer(), 49 + 3, 5), 0xffff_ffff);
    assert_eq!(pixel(console.framebuffer(), 4, 23), 0);
    console.write_str("A");
    assert_eq!(pixel(console.framebuffer(), 4, 23), 0xffff_ffff);
}

#[test]
fn colours_take_their_places() {
    let mut console = display(MODE);
    console.draw_pixel(2, 0, 1, 2, 3);
    assert_eq!(pixel(console.framebuffer(), 2, 0), 0xff01_0203);
    console.draw_pixel(64, 0, 9, 9, 9);
    console.draw_pixel(0, 40, 9, 9, 9);
    assert_eq!(pixel(console.framebuffer(), 0, 1), 0);
    let mut plain = display(DisplayMode { depth: 24, alpha: None, ..MODE });
    plain.draw_pixel(1, 0, 1, 2, 3);
    assert_eq!(plain.framebuffer().read_u32(2), Some(0x0102_0300));
}

#[test]
fn framebuffer_device_ends_once() {
    let mut device = EfiFramebuffer::new(MmioBuffer::new(vec![0; 256 * 40]), MODE);
    assert_eq!(device.attach_logger_output(3), Ok(()));
    assert_eq!(device.attach_logger_output(4), Err(ObjectError::InvalidArgument));
    assert_eq!(device.write_str("A"), Ok(()));
    assert_eq!(pixel(device.framebuffer(), 4, 5), 0xffff_ffff);
    assert_eq!(device.dispatch(1), Err(ObjectError::InvalidArgument));
    assert_eq!(device.dispatch(0), Ok(Some(3)));
    assert_eq!(
        EfiFramebuffer::<MmioBuffer>::finish_dispatch(Ok(())),
        Ok(RawReply {
            status: 1,
            values: ReplyValues { v0: 0, v1: 0, v2: 0, v3: 0, v4: 0 },
        })
    );
    assert_eq!(
        EfiFramebuffer::<MmioBuffer>::finish_dispatch(Err(ObjectError::ObjectNotFound)),
        Err(ObjectError::ObjectNotFound)
    );
    assert_eq!(device.dispatch(0), Err(ObjectError::ObjectDestroyed));
    assert_eq!(device.unregister(), Err(ObjectError::ObjectDestroyed));
    assert_eq!(device.write_str("A"), Err(ObjectError::ObjectDestroyed));
    assert_eq!(device.attach_logger_output(5), Err(ObjectError::ObjectDestroyed));
}

#[test]
fn framebuffer_probe_is_rolled_back() {
    let lost = ObjectError::ObjectNotFound;
    let failed = FramebufferProbeStep::Done(Err(DeviceProbeError::InitializationFailed));
    let go = |step: FramebufferProbeStep, event| step.probe_efi_framebuffer(event);
    let make = go(FramebufferProbeStep::Take, FramebufferProbeEvent::Taken(Ok(true)));
    assert_eq!(make, FramebufferProbeStep::Make);
    let register = go(make, FramebufferProbeEvent::Made(Ok(())));
    assert_eq!(register, FramebufferProbeStep::Register);
    let remove = go(register, FramebufferProbeEvent::Registered(Ok(handle(1))));
    assert_eq!(remove, FramebufferProbeStep::Remove(handle(1)));
    assert_eq!(
        go(remove, FramebufferProbeEvent::Removed(Ok(()))),
        FramebufferProbeStep::Done(Ok(Some(handle(1))))
    );
    let back = go(remove, FramebufferProbeEvent::Removed(Err(lost)));
    assert_eq!(back, FramebufferProbeStep::RollBack);
    assert_eq!(go(back, FramebufferProbeEvent::RolledBack), failed);
    assert_eq!(
        go(FramebufferProbeStep::Take, FramebufferProbeEvent::Taken(Ok(false))),
        FramebufferProbeStep::Done(Err(DeviceProbeError::NotPresent))
    );
    assert_eq!(go(FramebufferProbeStep::Take, FramebufferProbeEvent::Taken(Err(lost))), failed);
    assert_eq!(go(make, FramebufferProbeEvent::Made(Err(lost))), failed);
    assert_eq!(go(register, FramebufferProbeEvent::Registered(Err(lost))), failed);
    assert_eq!(go(make, FramebufferProbeEvent::RolledBack), make);
}

#[test]
fn probes_stop_at_the_first_failure() {
    let failed = DeviceProbeError::InitializationFailed;
    assert_eq!(after_probe(Ok(Some(handle(1)))), ProbeStep::Keep(handle(1)));
    assert_eq!(after_probe(Ok(None)), ProbeStep::Skip);
    assert_eq!(after_probe(Err(DeviceProbeError::NotPresent)), ProbeStep::Skip);
    assert_eq!(after_probe(Err(failed)), ProbeStep::Stop(failed));
    let results = vec![
        Ok(Some(handle(1))),
        Err(DeviceProbeError::NotPresent),
        Ok(Some(handle(2))),
        Err(failed),
        Ok(Some(handle(3))),
    ];
    let run = probe_all(&results);
    assert_eq!(run.result, Err(failed));
    assert_eq!((run.run, run.kept), (4, vec![handle(1), handle(2)]));
    let run = probe_all(&results[..3].to_vec());
    assert_eq!((run.result, run.run), (Ok(()), 3));
}

fn madt() -> Vec<MadtEntry> {
    vec![
        MadtEntry::LocalApic { apic_id: 4, flags: 1 },
        MadtEntry::LocalApic { apic_id: 5, flags: 2 },
        MadtEntry::Other,
        MadtEntry::LocalX2Apic { x2apic_id: 0x1_0000, flags: 3 },
        MadtEntry::LocalX2Apic { x2apic_id: 9, flags: 0 },
    ]
}

#[test]
fn enabled_processors_are_listed() {
    let topology = early_cpu_topology(Some(madt())).unwrap();
    assert_eq!(topology.cpu_count(), 2);
    assert_eq!(topology.lapic_ids(), &[4, 0x1_0000]);
    assert!(early_cpu_topology(None).is_none());
    assert!(CpuTopology::from_madt(&vec![MadtEntry::Other]).is_none());
    assert!(CpuTopology::new(Vec::new()).is_none());
}

#[test]
fn tables_are_read_in_place() {
    let table = AcpiTable::new(madt());
    assert_eq!(table.read().get().len(), 5);
    assert_eq!(early_table_with(Some(7), |value: &u32| *value + 1), Some(8));
    assert_eq!(early_table_with(None, |value: &u32| *value + 1), None);
    let handler = AcpiIdentityHandler { physical_memory_offset: 0x1000 };
    assert_eq!(handler.to_virt(0x234), 0x1234);
    assert_eq!(handler.to_virt(0x1234), 0x1234);
}

#[test]
fn table_discovery_reports_the_first_failure() {
    let lost = ObjectError::ObjectNotFound;
    let failed = DiscoverStep::Done(Err(AcpiError::NamespaceInitFailed(lost)));
    let mut acpi = Acpi::new();
    let mut go = |step, event| acpi.discover_tables(step, event);
    assert_eq!(
        go(DiscoverStep::Parse, DiscoverEvent::Parsed(false)),
        DiscoverStep::Done(Err(AcpiError::ParseFailed))
    );
    assert_eq!(go(DiscoverStep::Parse, DiscoverEvent::Parsed(true)), DiscoverStep::FindMadt);
    assert_eq!(go(DiscoverStep::FindMadt, DiscoverEvent::Madt(None)), DiscoverStep::FindHpet);
    assert_eq!(
        go(DiscoverStep::FindMadt, DiscoverEvent::Madt(Some(madt()))),
        DiscoverStep::RegisterMadt
    );
    assert_eq!(go(DiscoverStep::RegisterMadt, DiscoverEvent::Registered(Err(lost))), failed);
    assert_eq!(
        go(DiscoverStep::RegisterMadt, DiscoverEvent::Registered(Ok(()))),
        DiscoverStep::FindHpet
    );
    assert_eq!(go(DiscoverStep::FindHpet, DiscoverEvent::Hpet(false)), DiscoverStep::Done(Ok(())));
    assert_eq!(go(DiscoverStep::FindHpet, DiscoverEvent::Hpet(true)), DiscoverStep::RegisterHpet);
    assert_eq!(go(DiscoverStep::RegisterHpet, DiscoverEvent::Registered(Err(lost))), failed);
    assert_eq!(
        go(DiscoverStep::RegisterHpet, DiscoverEvent::Registered(Ok(()))),
        DiscoverStep::Done(Ok(()))
    );
    assert_eq!(go(DiscoverStep::FindHpet, DiscoverEvent::Parsed(true)), DiscoverStep::FindHpet);
}

#[test]
fn acpi_probe_reports_the_first_failure() {
    let lost = ObjectError::ObjectNotFound;
    let failed = AcpiProbeStep::Done(Err(AcpiError::NamespaceInitFailed(lost)));
    let create = Acpi::probe(Some(0xe_0000));
    assert_eq!(create, AcpiProbeStep::CreateNamespace);
    assert_eq!(create.advance(AcpiProbeEvent::Namespace(Err(lost))), failed);
    let register = create.advance(AcpiProbeEvent::Namespace(Ok(())));
    assert_eq!(register, AcpiProbeStep::Register);
    assert_eq!(register.advance(AcpiProbeEvent::Registered(Err(lost))), failed);
    let discover = register.advance(AcpiProbeEvent::Registered(Ok(handle(7))));
    assert_eq!(discover, AcpiProbeStep::Discover(handle(7)));
    assert_eq!(discover.advance(AcpiProbeEvent::Discovered(Err(lost))), failed);
    assert_eq!(
        discover.advance(AcpiProbeEvent::Discovered(Ok(Err(AcpiError::ParseFailed)))),
        AcpiProbeStep::Done(Err(AcpiError::ParseFailed))
    );
    assert_eq!(
        discover.advance(AcpiProbeEvent::Discovered(Ok(Ok(())))),
        AcpiProbeStep::Done(Ok(Some(handle(7))))
    );
}

#[test]
fn machine_without_firmware_gets_no_device() {
    let over = Acpi::probe(None);
    assert_eq!(over, AcpiProbeStep::Done(Ok(None)));
    assert_eq!(over.advance(AcpiProbeEvent::Namespace(Ok(()))), over);
    assert_eq!(over.advance(AcpiProbeEvent::Registered(Ok(handle(7)))), over);
}

#[test]
fn acpi_failures_fail_the_probe() {
    let failed = DeviceProbeError::InitializationFailed;
    assert_eq!(acpi_probe_outcome(Ok(Some(handle(7)))), Ok(Some(handle(7))));
    assert_eq!(acpi_probe_outcome(Ok(None)), Ok(None));
    assert_eq!(acpi_probe_outcome(Err(AcpiError::ParseFailed)), Err(failed));
    assert_eq!(probe_acpi_device(Err(ObjectError::ObjectNotFound)), Err(failed));
    assert_eq!(probe_acpi_device(Ok(Some(5))), Ok(AcpiProbeStep::CreateNamespace));
}
