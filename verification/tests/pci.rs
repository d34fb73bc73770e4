use akarin::device::mmio::{MmioAccess, MmioBuffer};
use akarin::device::pci::bars::{read_bar, summarize_bars, PciBarSummary};
use akarin::device::pci::cap::{
    MsixTableWrite, PciCapabilityBits, PciCapabilitySummary, PciInterruptCapabilities,
    PciInterruptMode, PciInterruptSummary,
};
use akarin::device::pci::config::{PciBdf, PciConfigAccess};
use akarin::device::pci::ecam::{ecam_window_len, EcamEntry, PciEcamConfig, PciEcamRegion};
use akarin::device::pci::function::{
    IrqMessageBlock, PciExecuteStep, PciFunction, PciFunctionExecuteGuard, PciFunctionReadGuard,
    PciMessageCapability,
};
use akarin::device::pci::interrupt::PciInterruptBinder;
use akarin::device::pci::object::{
    PciAbi, PciFunctionInfo, PciFunctionMethod, PciHostBridge, PciHostMethod, PciHostReadGuard,
    PciInterruptBindArgs, PciInvokeError, PciPublishEvent, PciPublishStep, PciReply, PciSyscallCodec, PciUnsupportedGuard,
    PublishedPciHostBridge,
};
use akarin::interrupt::object::IrqAbi;
use akarin::interrupt::{IrqError, MessageIrqDescriptor, MessageIrqKind, MessageIrqRequest};
use akarin::ipc::frame::ReplyValues;
use akarin::object::{Capability, Handle, HandleTable, ObjectError};

const ABI: PciAbi = PciAbi {
    host_query: 1,
    function_query: 2,
    function_interrupt: 4,
    mode_intx: 10,
    mode_msi: 11,
    mode_msix: 12,
    bit_intx: 1,
    bit_msi: 2,
    bit_msix: 4,
    capability_bits: PciCapabilityBits { list: 1, msi: 2, msix: 4 },
    no_cpu_hint: usize::MAX,
};

const IRQ: IrqAbi = IrqAbi {
    controller_query: 1,
    controller_topology: 2,
    controller_features: 4,
    line_query: 8,
    line_open: 16,
    line_route: 32,
    session_query: 64,
    session_enable: 128,
    session_wait: 256,
    session_ack: 512,
    open_flags: 3,
    open_shared: 1,
};

const CARD: PciBdf = PciBdf { segment: 0, bus: 1, device: 3, function: 0 };

const ABSENT: PciBdf = PciBdf { segment: 0, bus: 1, device: 4, function: 0 };

fn config() -> PciEcamConfig<MmioBuffer> {
    let window = MmioBuffer::new(vec![0xff; ecam_window_len(1, 1)]);
    let entry = EcamEntry { segment_group: 0, bus_start: 1, bus_end: 1, window: Some(window) };
    PciEcamConfig::discover_from_firmware(Some(vec![entry])).ok().unwrap()
}

/// A bus with one card that has both message capabilities.
fn with_card() -> PciEcamConfig<MmioBuffer> {
    let mut config = config();
    for offset in (0..0x100).step_by(4) {
        config.write_u32(CARD, offset, 0);
    }
    config.write_u32(CARD, 0x00, 0x1234_8086);
    config.write_u32(CARD, 0x04, 0x0010_0007);
    config.write_u32(CARD, 0x08, 0x0203_0401);
    config.write_u32(CARD, 0x10, 0x0000_e001);
    config.write_u32(CARD, 0x14, 0xfeb0_000c);
    config.write_u32(CARD, 0x18, 0x0000_0001);
    config.write_u32(CARD, 0x1c, 0xfea0_0000);
    config.write_u8(CARD, 0x34, 0x50);
    config.write_u32(CARD, 0x50, 0x0184_7005);
    config.write_u32(CARD, 0x70, 0x0003_0011);
    config.write_u32(CARD, 0x74, 0x0000_2003);
    config.write_u32(CARD, 0x78, 0x0000_3003);
    config
}

fn message(index: usize) -> MessageIrqDescriptor {
    MessageIrqDescriptor {
        address_lo: 0xfee0_1000,
        address_hi: 1,
        data: 0x40 + index as u32,
        vector: 0x40 + index,
        cpu_id: 1,
    }
}

fn words(v0: usize, v1: usize, v2: usize, v3: usize, v4: usize) -> PciReply {
    PciReply::Done(ReplyValues { v0, v1, v2, v3, v4 })
}

fn handle(object: u64) -> Handle {
    Handle {
        object,
        capabilities: Capability::none(),
        interface_caps: 0,
        clone_refusal: None,
        acquire_refusal: None,
        key_refusal: None,
        derive_refusal: None,
    }
}

fn card() -> PciFunction {
    PciFunction::new(PciFunctionInfo::from_config(&with_card(), CARD).unwrap())
}

#[test]
fn functions_have_names_of_their_own() {
    assert_eq!(PciBdf::new(0x12ab, 0xc, 0x1f, 7).object_name(), "12ab:0c:1f.7");
    assert_eq!(CARD.object_name(), "0000:01:03.0");
    assert_ne!(CARD.object_name(), ABSENT.object_name());
}

#[test]
fn regions_come_from_the_firmware() {
    assert_eq!(ecam_window_len(0, 3), 0x40_0000);
    let none = PciEcamConfig::<MmioBuffer>::discover_from_firmware(None);
    assert_eq!(none.err(), Some(IrqError::NotSupported));
    let unmapped: EcamEntry<MmioBuffer> =
        EcamEntry { segment_group: 0, bus_start: 0, bus_end: 0, window: None };
    assert!(PciEcamConfig::discover_from_firmware(Some(vec![unmapped])).is_err());
    let config = config();
    assert_eq!((config.region_count(), config.buses(0)), (1, (0, 1, 1)));
}

#[test]
fn registers_are_read_back() {
    let mut config = config();
    assert!(config.contains(CARD));
    let elsewhere = PciBdf { bus: 2, ..CARD };
    assert!(!config.contains(elsewhere));
    config.write_u64(CARD, 0x40, 0x8877_6655_4433_2211);
    assert_eq!(config.read_u64(CARD, 0x40), 0x8877_6655_4433_2211);
    assert_eq!(config.read_u16(CARD, 0x42), 0x4433);
    config.write_u8(CARD, 0x41, 0xaa);
    assert_eq!(config.read_u32(CARD, 0x40), 0x4433_aa11);
    assert_eq!(config.read_u32(ABSENT, 0x40), u32::MAX);
    config.write_u16(elsewhere, 0, 1);
    assert_eq!(config.read_u16(elsewhere, 0), u16::MAX);
    assert_eq!(config.read_u8(CARD, 0x1000), 0xff);
    assert_eq!(config.read_u16(CARD, 0x1000), u16::MAX);
}

#[test]
fn scan_finds_what_answers() {
    assert_eq!(config().present_functions(), Vec::<PciBdf>::new());
    let mut config = with_card();
    let second = PciBdf { function: 5, ..CARD };
    config.write_u32(second, 0, 0x5678_8086);
    assert_eq!(config.present_functions(), vec![CARD]);
    config.write_u8(CARD, 0x0e, 0x80);
    assert_eq!(config.present_functions(), vec![CARD, second]);
    let summary = with_card().interrupt_summary();
    let expected =
        PciInterruptSummary { present_functions: 1, msi_functions: 0, msix_functions: 1 };
    assert_eq!(summary, expected);
}

#[test]
fn bars_are_summarized() {
    let mut config = with_card();
    let summary = PciBarSummary {
        bar_count: 6,
        present_mask: 0b1011,
        io_mask: 0b0001,
        mmio64_mask: 0b0010,
        prefetchable_mask: 0b0100,
    };
    assert_eq!(summarize_bars(&config, CARD), summary);
    assert_eq!(read_bar(&config, CARD, 0), Err(IrqError::NotSupported));
    assert_eq!(read_bar(&config, CARD, 1), Ok(0x1_feb0_0000));
    assert_eq!(read_bar(&config, CARD, 3), Ok(0xfea0_0000));
    assert_eq!(read_bar(&config, CARD, 6), Err(IrqError::InvalidParameter));
    config.write_u32(CARD, 0x24, 4);
    assert_eq!(read_bar(&config, CARD, 5), Err(IrqError::InvalidParameter));
    config.write_u32(CARD, 0x24, 2);
    assert_eq!(read_bar(&config, CARD, 5), Err(IrqError::NotSupported));
    config.write_u8(CARD, 0x0e, 2);
    assert_eq!(summarize_bars(&config, CARD).bar_count, 0);
}

#[test]
fn capabilities_are_found_in_the_list() {
    let mut config = with_card();
    let caps = PciInterruptCapabilities::new(&config, CARD);
    assert!(caps.present());
    let msi = caps.msi().unwrap();
    assert_eq!((msi.offset, msi.max_messages), (0x50, 4));
    assert!(msi.supports_64bit && msi.supports_masking);
    assert!(msi.supports_count(1) && msi.supports_count(4));
    assert!(!msi.supports_count(0) && !msi.supports_count(3) && !msi.supports_count(8));
    let msix = caps.msix().unwrap();
    assert_eq!((msix.offset, msix.table_size), (0x70, 4));
    assert_eq!((msix.table_bir, msix.table_offset), (3, 0x2000));
    assert_eq!((msix.pba_bir, msix.pba_offset), (3, 0x3000));
    assert_eq!(caps.interrupt_mode(), PciInterruptMode::Msix);
    let summary = PciCapabilitySummary {
        capability_bits: 7,
        max_msi_vectors: 4,
        max_msix_vectors: 4,
    };
    assert_eq!(caps.capability_summary(ABI.capability_bits), summary);
    assert!(!PciInterruptCapabilities::new(&config, ABSENT).present());
    config.write_u8(CARD, 0x51, 0x53);
    let caps = PciInterruptCapabilities::new(&config, CARD);
    assert_eq!(caps.interrupt_mode(), PciInterruptMode::Msi);
    assert!(caps.msix().is_none());
    config.write_u16(CARD, 0x06, 0);
    let caps = PciInterruptCapabilities::new(&config, CARD);
    assert_eq!(caps.interrupt_mode(), PciInterruptMode::Intx);
}

#[test]
fn msi_is_programmed() {
    let mut config = with_card();
    let msi = PciInterruptCapabilities::new(&config, CARD).msi().unwrap();
    let messages = vec![message(0), message(1)];
    assert_eq!(msi.enable(&mut config, CARD, &messages), Ok(()));
    assert_eq!(config.read_u16(CARD, 0x52), 0x0195);
    assert_eq!(config.read_u32(CARD, 0x54), 0xfee0_1000);
    assert_eq!(config.read_u32(CARD, 0x58), 1);
    assert_eq!(config.read_u16(CARD, 0x5c), 0x40);
    assert_eq!(config.read_u16(CARD, 0x04), 0x0407);
    msi.disable(&mut config, CARD);
    assert_eq!(config.read_u16(CARD, 0x52), 0x0194);
    let bad = Err(IrqError::InvalidParameter);
    assert_eq!(msi.enable(&mut config, CARD, &vec![]), bad);
    assert_eq!(msi.enable(&mut config, CARD, &vec![message(1), message(2)]), bad);
    assert_eq!(msi.enable(&mut config, CARD, &vec![message(0), message(2)]), bad);
    let crowd = (0..8).map(message).collect();
    assert_eq!(msi.enable(&mut config, CARD, &crowd), bad);
    assert_eq!(config.read_u16(CARD, 0x52), 0x0194);
}

#[test]
fn msix_table_is_planned() {
    let mut config = with_card();
    let msix = PciInterruptCapabilities::new(&config, CARD).msix().unwrap();
    let messages = vec![message(0), message(5)];
    let plan = msix.enable(&mut config, CARD, &messages).ok().unwrap();
    assert_eq!(config.read_u16(CARD, 0x72), 0x4003);
    assert_eq!((plan.phys_base, plan.size, plan.control), (0xfea0_0000, 0x2040, 0x4003));
    assert_eq!(plan.writes.len(), 8);
    assert_eq!(plan.writes[4], MsixTableWrite { offset: 0x2010, value: 0xfee0_1000 });
    assert_eq!(plan.writes[6], MsixTableWrite { offset: 0x2018, value: 0x45 });
    assert_eq!(plan.writes[7], MsixTableWrite { offset: 0x201c, value: 0 });
    msix.finish_enable(&mut config, CARD, plan.control);
    assert_eq!(config.read_u16(CARD, 0x72), 0x8003);
    assert_eq!(config.read_u16(CARD, 0x04), 0x0407);
    msix.disable(&mut config, CARD);
    assert_eq!(config.read_u16(CARD, 0x72), 0x4003);
    assert_eq!(msix.enable(&mut config, CARD, &vec![]).err(), Some(IrqError::InvalidParameter));
    config.write_u32(CARD, 0x1c, 1);
    let refused = msix.enable(&mut config, CARD, &messages).err();
    assert_eq!(refused, Some(IrqError::NotSupported));
}

#[test]
fn silenced_function_delivers_nothing() {
    let mut config = with_card();
    config.write_u16(CARD, 0x52, 0x0185);
    config.write_u16(CARD, 0x72, 0x8003);
    PciInterruptCapabilities::disable_all_interrupts(&mut config, CARD);
    assert_eq!(config.read_u16(CARD, 0x52), 0x0184);
    assert_eq!(config.read_u16(CARD, 0x72), 0x4003);
    assert_eq!(config.read_u16(CARD, 0x04), 0x0407);
}

#[test]
fn silencing_keeps_the_rest_and_settles() {
    let mut config = with_card();
    config.write_u16(CARD, 0x52, 0xffff);
    config.write_u16(CARD, 0x72, 0xffff);
    let before: Vec<u8> = (0..0x1000).map(|at| config.read_u8(CARD, at)).collect();
    PciInterruptCapabilities::disable_all_interrupts(&mut config, CARD);
    let after: Vec<u8> = (0..0x1000).map(|at| config.read_u8(CARD, at)).collect();
    let changed: Vec<usize> = (0..0x1000).filter(|&at| before[at] != after[at]).collect();
    assert_eq!(changed, vec![0x05, 0x52, 0x73]);
    assert_eq!(config.read_u16(CARD, 0x52), 0xfffe);
    assert_eq!(config.read_u16(CARD, 0x72), 0x7fff);
    PciInterruptCapabilities::disable_all_interrupts(&mut config, CARD);
    let again: Vec<u8> = (0..0x1000).map(|at| config.read_u8(CARD, at)).collect();
    assert_eq!(after, again);
}

#[test]
fn registers_lie_apart() {
    let last = PciBdf { segment: 0, bus: 1, device: 31, function: 7 };
    let mut config = config();
    config.write_u8(CARD, 0x000, 1);
    config.write_u8(CARD, 0xfff, 2);
    config.write_u8(last, 0xfff, 3);
    config.write_u8(ABSENT, 0xfff, 4);
    assert_eq!((config.read_u8(CARD, 0x000), config.read_u8(CARD, 0xfff)), (1, 2));
    assert_eq!((config.read_u8(last, 0xfff), config.read_u8(ABSENT, 0xfff)), (3, 4));
    config.write_u8(CARD, 0x1000, 9);
    assert_eq!(config.read_u8(PciBdf { function: 1, ..CARD }, 0x000), 0xff);
}

#[test]
fn binder_asks_the_controller() {
    let mut config = with_card();
    let (msi, request) = PciInterruptBinder::request_msi(&config, CARD, 2, Some(1)).unwrap();
    let expected = MessageIrqRequest {
        kind: MessageIrqKind::Msi,
        count: 2,
        target_cpu: Some(1),
        allow_spread: false,
    };
    assert_eq!(request, expected);
    let bad = Err(IrqError::InvalidParameter);
    assert_eq!(PciInterruptBinder::request_msi(&config, ABSENT, 2, None), bad);
    assert_eq!(PciInterruptBinder::request_msi(&config, CARD, 3, None), bad);
    let (_, request) = PciInterruptBinder::request_msix(&config, CARD, 3, None).unwrap();
    assert_eq!((request.kind, request.allow_spread), (MessageIrqKind::Msix, true));
    assert!(PciInterruptBinder::request_msix(&config, CARD, 5, None).is_err());
    let made = PciInterruptBinder::allocate_msi(
        &mut config,
        CARD,
        msi,
        7u64,
        &vec![message(0), message(1)],
        vec!['a', 'b'],
    );
    let made = made.ok().unwrap();
    assert_eq!((made.block, made.sessions), (7, vec!['a', 'b']));
    assert_eq!(PciInterruptBinder::disable_interrupts(&mut config, CARD), Ok(()));
    let absent = PciInterruptBinder::disable_interrupts(&mut config, ABSENT);
    assert_eq!(absent, Err(IrqError::InvalidParameter));
    config.write_u16(CARD, 0x06, 0);
    let unsupported = Err(IrqError::NotSupported);
    assert_eq!(PciInterruptBinder::request_msi(&config, CARD, 2, None), unsupported);
}

#[test]
fn functions_are_described() {
    let info = card().info;
    assert_eq!((info.vendor_id, info.device_id), (0x8086, 0x1234));
    assert_eq!((info.class_code, info.subclass, info.prog_if, info.revision_id), (2, 3, 4, 1));
    assert_eq!(info.object_name(), "0000:01:03.0");
    assert!(PciFunctionInfo::from_config(&with_card(), ABSENT).is_none());
    assert_eq!(
        PciSyscallCodec::function_info(info),
        words(0, 0x1_0300, 0x1234_8086, 0x0203_0401, 0)
    );
    let host = PciHostBridge::new(PciHostBridge::enumerate_functions(&with_card()));
    assert_eq!((host.function_count(), host.functions()[0]), (1, info));
    let guard = PciHostReadGuard { interface_caps: 1 };
    let query = Some(PciHostMethod::QuerySummary);
    assert_eq!(guard.dispatch(&host, &ABI, query, true), Ok(words(1, 1, 0, 0, 0)));
    assert_eq!(
        guard.dispatch(&host, &ABI, None, true),
        Ok(PciReply::Failed(PciInvokeError::InvalidParameter))
    );
    let denied = Err(ObjectError::InsufficientCapabilities);
    assert_eq!(PciHostReadGuard { interface_caps: 2 }.dispatch(&host, &ABI, query, true), denied);
    assert_eq!(PciUnsupportedGuard.dispatch(), denied);
}

#[test]
fn published_functions_withhold_control() {
    let config = with_card();
    let published = PublishedPciHostBridge::new(&config).publish(&ABI);
    assert_eq!(published.len(), 1);
    assert_eq!(published[0].name, "0000:01:03.0");
    assert!(published[0].withheld.agent && published[0].withheld.admin && published[0].sticky);
    assert_eq!(published[0].interface_caps, 6);
}

#[test]
fn controller_failures_are_named() {
    for (error, expected) in [
        (IrqError::InvalidParameter, PciInvokeError::InvalidParameter),
        (IrqError::NotSupported, PciInvokeError::NotSupported),
        (IrqError::OutOfResources, PciInvokeError::OutOfResources),
        (IrqError::Closed, PciInvokeError::ControllerFailure),
    ] {
        assert_eq!(PciInvokeError::from_irq(error), expected);
    }
}

#[test]
fn function_answers_queries() {
    let config = with_card();
    let function = card();
    let guard = PciFunctionReadGuard { interface_caps: 2 };
    let ask = |method, runtime| guard.dispatch(&function, &ABI, Some(method), runtime);
    assert_eq!(
        ask(PciFunctionMethod::QueryInfo, None),
        Ok(PciSyscallCodec::function_info(function.info))
    );
    assert_eq!(
        ask(PciFunctionMethod::QueryBars, None),
        Ok(PciReply::Failed(PciInvokeError::RuntimeUnavailable))
    );
    assert_eq!(
        ask(PciFunctionMethod::QueryBars, Some(&config)),
        Ok(words(6, 0b1011, 0b0001, 0b0010, 0b0100))
    );
    assert_eq!(
        ask(PciFunctionMethod::QueryInterruptModes, Some(&config)),
        Ok(words(7, 10, 4, 4, 0))
    );
    assert_eq!(
        ask(PciFunctionMethod::QueryCapabilities, Some(&config)),
        Ok(words(7, 4, 4, 0, 0))
    );
    let denied = Err(ObjectError::InsufficientCapabilities);
    assert_eq!(ask(PciFunctionMethod::EnableMsi, Some(&config)), denied);
    let poor = PciFunctionReadGuard { interface_caps: 4 };
    let query = Some(PciFunctionMethod::QueryInfo);
    assert_eq!(poor.dispatch(&function, &ABI, query, Some(&config)), denied);
}

const ARGS: PciInterruptBindArgs =
    PciInterruptBindArgs { count: 2, cpu_hint: 1, slots_len: 2, slots_ptr: 0x1000 };

fn failed(error: PciInvokeError) -> PciExecuteStep {
    PciExecuteStep::Finished(Ok(PciReply::Failed(error)))
}

#[test]
fn interrupt_requests_are_checked_in_order() {
    let mut config = with_card();
    let mut function = card();
    let guard = PciFunctionExecuteGuard { interface_caps: 4 };
    let enable = Some(PciFunctionMethod::EnableMsi);
    let mut run = |function: &mut PciFunction, args, runtime| {
        guard.dispatch(function, &ABI, &mut config, enable, args, runtime).step
    };
    assert_eq!(run(&mut function, None, true), failed(PciInvokeError::Fault));
    let none = PciInterruptBindArgs { count: 0, ..ARGS };
    assert_eq!(run(&mut function, Some(none), true), failed(PciInvokeError::InvalidParameter));
    let small = PciInterruptBindArgs { slots_len: 1, ..ARGS };
    assert_eq!(run(&mut function, Some(small), true), failed(PciInvokeError::BufferTooSmall));
    assert_eq!(
        run(&mut function, Some(ARGS), false),
        failed(PciInvokeError::RuntimeUnavailable)
    );
    let odd = PciInterruptBindArgs { count: 3, slots_len: 3, ..ARGS };
    assert_eq!(run(&mut function, Some(odd), true), failed(PciInvokeError::InvalidParameter));
    assert!(!function.configuring);
    let PciExecuteStep::Allocate(PciMessageCapability::Msi(_), request) =
        run(&mut function, Some(ARGS), true)
    else {
        panic!("the controller is asked");
    };
    assert_eq!((request.count, request.target_cpu), (2, Some(1)));
    assert!(function.configuring);
    assert_eq!(run(&mut function, Some(ARGS), true), failed(PciInvokeError::Busy));
    assert_eq!(
        PciFunctionExecuteGuard::refuse(&mut function, IrqError::Closed),
        PciReply::Failed(PciInvokeError::ControllerFailure)
    );
    assert!(!function.configuring);
    let denied = PciExecuteStep::Finished(Err(ObjectError::InsufficientCapabilities));
    let query = Some(PciFunctionMethod::QueryInfo);
    let refused = guard.dispatch(&mut function, &ABI, &mut config, query, None, true);
    assert_eq!(refused.step, denied);
}

#[test]
fn bound_interrupts_are_published_or_undone() {
    let block = IrqMessageBlock { id: 5, kind: MessageIrqKind::Msi };
    let sessions = vec![Ok(handle(1)), Ok(handle(2))];
    let mut config = with_card();
    let mut function = card();
    let mut table = HandleTable::new();
    table.install_handle(0, handle(9));
    assert_eq!(function.begin_reconfigure(), Ok(()));
    assert_eq!(function.begin_reconfigure(), Err(PciInvokeError::Busy));
    let lost = vec![Ok(handle(1)), Err(ObjectError::ObjectNotFound)];
    let (slots, reply) = PciFunctionExecuteGuard::publish(
        &mut function, &ABI, &IRQ, &mut config, block, &lost, &mut table, true,
    );
    assert_eq!((slots, reply), (vec![], PciReply::Object(ObjectError::ObjectNotFound)));
    let (slots, reply) = PciFunctionExecuteGuard::publish(
        &mut function, &ABI, &IRQ, &mut config, block, &sessions, &mut table, false,
    );
    assert_eq!((slots, reply), (vec![], PciReply::Failed(PciInvokeError::Fault)));
    assert_eq!((table.get(1), function.active, function.configuring), (None, None, false));
    let (slots, reply) = PciFunctionExecuteGuard::publish(
        &mut function, &ABI, &IRQ, &mut config, block, &sessions, &mut table, true,
    );
    assert_eq!((slots, reply), (vec![1, 2], words(2, 11, 0, 0, 0)));
    let session = Handle {
        capabilities: Capability {
            read: true,
            write: true,
            execute: true,
            agent: false,
            admin: false,
            send: true,
        },
        interface_caps: IRQ.session_query | IRQ.session_wait | IRQ.session_ack,
        ..handle(2)
    };
    assert_eq!((table.get(2), function.active), (Some(session), Some(block)));
    let guard = PciFunctionExecuteGuard { interface_caps: 4 };
    let disable = Some(PciFunctionMethod::DisableInterrupts);
    let outcome = guard.dispatch(&mut function, &ABI, &mut config, disable, None, true);
    assert_eq!(outcome.retired, Some(block));
    assert_eq!(outcome.step, PciExecuteStep::Finished(Ok(words(0, 0, 0, 0, 0))));
    assert_eq!(function.active, None);
    let outcome = guard.dispatch(&mut function, &ABI, &mut config, disable, None, false);
    assert_eq!(outcome.step, failed(PciInvokeError::RuntimeUnavailable));
    function.finish_reconfigure(Some(block));
    assert_eq!(function.retire(&mut config, true), Some(block));
    assert_eq!(function.active, None);
}

#[test]
fn windows_hold_whole_buses() {
    let window = MmioBuffer::new(vec![0; ecam_window_len(2, 3)]);
    assert_eq!(window.len(), 0x20_0000);
}

#[test]
fn host_is_published_after_its_functions() {
    let go = |step: PciPublishStep, event| step.advance(&ABI, 2, event);
    let mut step = go(PciPublishStep::CreateNamespace, PciPublishEvent::Namespace(Ok(())));
    for at in 0..2 {
        assert_eq!(step, PciPublishStep::AddFunction(at));
        step = go(step, PciPublishEvent::Added(Ok(())));
    }
    assert_eq!(step, PciPublishStep::RegisterHost);
    let caps = go(step, PciPublishEvent::Registered(Ok(handle(4))));
    assert_eq!(caps, PciPublishStep::SetHostCaps(handle(4), ABI.host_query));
    let done = PciPublishStep::Done(Ok(handle(4)));
    assert_eq!(go(caps, PciPublishEvent::HostCaps(Ok(()))), done);
    let lost = ObjectError::ObjectNotFound;
    let failed = PciPublishStep::Done(Err(lost));
    let first = PciPublishStep::CreateNamespace;
    assert_eq!(go(first, PciPublishEvent::Namespace(Err(lost))), failed);
    let add = PciPublishStep::AddFunction(1);
    assert_eq!(go(add, PciPublishEvent::Added(Err(lost))), failed);
    assert_eq!(go(step, PciPublishEvent::Registered(Err(lost))), failed);
    assert_eq!(go(caps, PciPublishEvent::HostCaps(Err(lost))), failed);
    assert_eq!(
        first.advance(&ABI, 0, PciPublishEvent::Namespace(Ok(()))),
        PciPublishStep::RegisterHost
    );
}

#[test]
fn registers_lie_apart_in_the_window() {
    let mmio = MmioBuffer::new(vec![0xff; ecam_window_len(0, 1)]);
    let region = PciEcamRegion { segment_group: 0, bus_start: 0, bus_end: 1, mmio };
    assert_eq!(region.register_offset(CARD, 4), Some(0x11_8004));
    let next = PciBdf { function: 1, ..CARD };
    assert_eq!(region.register_offset(next, 4), Some(0x11_9004));
    assert_eq!(region.register_offset(CARD, 0x1000), None);
    let far = PciBdf { segment: 1, ..CARD };
    assert_eq!(region.register_offset(far, 4), None);
    let beyond = PciBdf { bus: 2, ..CARD };
    assert_eq!(region.register_offset(beyond, 4), None);
}
