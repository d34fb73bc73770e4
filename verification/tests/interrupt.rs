use akarin::interrupt::object::{
    irq_name, map_object_error, session_rights, InterruptControllerInfo,
    InterruptControllerReadGuard, IrqAbi, IrqControllerMethod, IrqDelivery, IrqErrorCode,
    IrqLineAction, IrqLineAdminGuard, IrqLineAgentGuard, IrqLineMethod, IrqLineReadGuard,
    IrqLineState, IrqReply, IrqSessionAction, IrqSessionGuard, IrqSessionGuardMode,
    IrqSessionMethod, IrqSessionState, IrqSyscallCodec, PublishEvent, PublishStep,
    PublishedInterruptController, SessionStep, UnsupportedGuard,
};
use akarin::interrupt::IrqError;
use akarin::ipc::frame::ReplyValues;
use akarin::object::{Capability, Handle, HandleTable, ObjectError};

const ABI: IrqAbi = IrqAbi {
    controller_query: 1,
    controller_topology: 2,
    controller_features: 4,
    line_query: 8,
    line_open: 16,
    line_route: 32,
    session_query: 64,
    session_enable: 128,
    session_wait: 256,
    session_ack: 512,
    open_flags: 3,
    open_shared: 1,
};

const INFO: InterruptControllerInfo =
    InterruptControllerInfo { line_count: 24, local_irq_base: 16, cpu_count: 4, feature_bits: 6 };

const LINE: IrqLineState = IrqLineState {
    irq: 5,
    flags: 1,
    session_count: 2,
    enabled_session_count: 1,
    current_epoch: 9,
};

const SESSION: IrqSessionState = IrqSessionState {
    irq: 5,
    session_id: 3,
    flags: 1,
    enabled: true,
    closed: false,
    inflight_epoch: Some(8),
    pending_count: 2,
};

const DENIED: ObjectError = ObjectError::InsufficientCapabilities;

fn words(v0: usize, v1: usize, v2: usize, v3: usize, v4: usize) -> IrqReply {
    IrqReply::Done(ReplyValues { v0, v1, v2, v3, v4 })
}

#[test]
fn replies_are_packed() {
    assert_eq!(IrqSyscallCodec::pack_controller_info(INFO), words(24, 16, 4, 0, 0));
    assert_eq!(IrqSyscallCodec::pack_controller_topology(INFO), words(4, 0, 0, 0, 0));
    assert_eq!(IrqSyscallCodec::pack_controller_features(INFO), words(6, 0, 0, 0, 0));
    assert_eq!(IrqSyscallCodec::pack_line_state(LINE), words(5, 1, 2, 1, 9));
    assert_eq!(IrqSyscallCodec::pack_session_state(SESSION), words(5, 3, 1, 5, 2));
    let closed = IrqSessionState { enabled: false, closed: true, inflight_epoch: None, ..SESSION };
    assert_eq!(IrqSyscallCodec::pack_session_state(closed), words(5, 3, 1, 2, 2));
    let delivery = IrqDelivery { epoch: 7, irq: 5, pending_count: 1, flags: 3 };
    assert_eq!(IrqSyscallCodec::ok_wait(delivery), words(7, 5, 1, 3, 0));
    assert_eq!(IrqSyscallCodec::ok_ack(4, 9), words(4, 9, 0, 0, 0));
    assert_eq!(IrqSyscallCodec::object_error(DENIED), IrqReply::Object(DENIED));
}

#[test]
fn errors_have_codes_of_their_own() {
    let all = [
        (IrqError::InvalidIrq(7), IrqErrorCode::InvalidIrq, 7),
        (IrqError::InvalidParameter, IrqErrorCode::InvalidParameter, 0),
        (IrqError::OutOfResources, IrqErrorCode::OutOfResources, 0),
        (IrqError::NotSupported, IrqErrorCode::NotSupported, 0),
        (IrqError::WouldBlock, IrqErrorCode::WouldBlock, 0),
        (IrqError::Closed, IrqErrorCode::Closed, 0),
        (IrqError::DeadlineUnsupported, IrqErrorCode::DeadlineUnsupported, 0),
    ];
    for (error, code, detail) in all {
        assert_eq!(IrqSyscallCodec::map_underlying_error(error), (code, detail));
        let gone = matches!(error, IrqError::OutOfResources | IrqError::Closed);
        let object = if gone { ObjectError::ObjectDestroyed } else { ObjectError::InvalidArgument };
        assert_eq!(map_object_error(error), object);
    }
}

#[test]
fn lines_are_named_by_number() {
    assert_eq!(irq_name(0), "0");
    assert_eq!(irq_name(130), "130");
    assert_ne!(irq_name(13), irq_name(130));
}

fn device() -> Handle {
    Handle {
        object: 4,
        capabilities: Capability::none(),
        interface_caps: 0,
        clone_refusal: None,
        acquire_refusal: None,
        key_refusal: None,
        derive_refusal: None,
    }
}

#[test]
fn lines_are_published_in_order() {
    let mut controller = PublishedInterruptController::new(vec![false, true, false, true]);
    assert_eq!(controller.step, PublishStep::RegisterDriver);
    controller.publish(PublishEvent::Driver(Ok(device())));
    for irq in [1, 3] {
        assert_eq!(controller.step, PublishStep::FindLine(irq));
        controller.publish(PublishEvent::Line(Ok(())));
        assert_eq!(controller.step, PublishStep::RegisterLine(irq));
        controller.publish(PublishEvent::LineRegistered(Ok(())));
    }
    assert_eq!(controller.step, PublishStep::Done(Ok(device())));
    assert_eq!(controller.registered, vec![1, 3]);
}

#[test]
fn refused_line_keeps_those_before_it() {
    let mut controller = PublishedInterruptController::new(vec![true, true, true]);
    controller.publish(PublishEvent::Driver(Ok(device())));
    controller.publish(PublishEvent::Line(Ok(())));
    controller.publish(PublishEvent::LineRegistered(Ok(())));
    controller.publish(PublishEvent::Line(Err(IrqError::Closed)));
    assert_eq!(controller.step, PublishStep::Done(Err(ObjectError::ObjectDestroyed)));
    assert_eq!((controller.registered, controller.device), (vec![0], Some(device())));
    let mut refused = PublishedInterruptController::new(vec![true]);
    refused.publish(PublishEvent::Driver(Ok(device())));
    refused.publish(PublishEvent::Line(Ok(())));
    refused.publish(PublishEvent::LineRegistered(Err(ObjectError::InvalidArgument)));
    assert_eq!(refused.step, PublishStep::Done(Err(ObjectError::InvalidArgument)));
    let mut none = PublishedInterruptController::new(vec![true]);
    none.publish(PublishEvent::Driver(Err(ObjectError::ObjectNotFound)));
    assert_eq!(none.step, PublishStep::Done(Err(ObjectError::ObjectNotFound)));
    assert!(none.registered.is_empty());
}

#[test]
fn controllers_answer_queries() {
    let guard = InterruptControllerReadGuard { interface_caps: 3 };
    let ask = |method| guard.dispatch(&ABI, INFO, method);
    assert_eq!(ask(Some(IrqControllerMethod::QueryInfo)), Ok(words(24, 16, 4, 0, 0)));
    assert_eq!(ask(Some(IrqControllerMethod::QueryTopology)), Ok(words(4, 0, 0, 0, 0)));
    assert_eq!(ask(Some(IrqControllerMethod::QueryFeatures)), Err(DENIED));
    assert_eq!(ask(None), Ok(IrqReply::Failed(IrqError::InvalidParameter)));
    assert_eq!(UnsupportedGuard.dispatch(), Err(DENIED));
}

#[test]
fn line_planes_differ() {
    let query = Some(IrqLineMethod::QueryState);
    let open = Some(IrqLineMethod::OpenSession);
    let route = Some(IrqLineMethod::SetDestination);
    let denied = IrqLineAction::Finished(Err(DENIED));
    let bad = IrqLineAction::Finished(Ok(IrqReply::Failed(IrqError::InvalidParameter)));
    let read = IrqLineReadGuard { interface_caps: u32::MAX };
    let answer = IrqLineAction::Finished(Ok(words(5, 1, 2, 1, 9)));
    assert_eq!(read.dispatch(&ABI, query, Ok(LINE)), answer);
    assert_eq!(read.dispatch(&ABI, open, Ok(LINE)), denied);
    assert_eq!(
        read.dispatch(&ABI, query, Err(IrqError::Closed)),
        IrqLineAction::Finished(Ok(IrqReply::Failed(IrqError::Closed)))
    );
    let agent = IrqLineAgentGuard { interface_caps: u32::MAX };
    assert_eq!(agent.dispatch(&ABI, open, 0), IrqLineAction::Open(1));
    assert_eq!(agent.dispatch(&ABI, open, 2), IrqLineAction::Open(2));
    assert_eq!(agent.dispatch(&ABI, open, 4), bad);
    assert_eq!(agent.dispatch(&ABI, query, 0), denied);
    assert_eq!(agent.dispatch(&ABI, None, 0), bad);
    let admin = IrqLineAdminGuard { interface_caps: u32::MAX };
    assert_eq!(admin.dispatch(&ABI, route, 6, Ok(LINE)), IrqLineAction::Route(6));
    assert_eq!(admin.dispatch(&ABI, query, 6, Ok(LINE)), answer);
    assert_eq!(admin.dispatch(&ABI, open, 3, Ok(LINE)), IrqLineAction::Open(3));
    let poor = IrqLineAdminGuard { interface_caps: 31 };
    assert_eq!(poor.dispatch(&ABI, route, 6, Ok(LINE)), denied);
    assert_eq!(IrqLineAdminGuard::finish_route(Ok(())), words(0, 0, 0, 0, 0));
    assert_eq!(
        IrqLineAdminGuard::finish_route(Err(IrqError::NotSupported)),
        IrqReply::Failed(IrqError::NotSupported)
    );
}

#[test]
fn opened_session_gets_a_slot() {
    let (capabilities, interface_caps) = session_rights(&ABI);
    assert!(capabilities.send && capabilities.read && capabilities.write && capabilities.execute);
    assert!(!capabilities.agent && !capabilities.admin);
    assert_eq!(interface_caps, ABI.session_query | ABI.session_wait | ABI.session_ack);
    assert_eq!(interface_caps & ABI.session_enable, 0);
    let mut table = HandleTable::new();
    table.install_handle(0, device());
    assert_eq!(
        IrqLineAgentGuard::after_open(Err(IrqError::Closed)),
        SessionStep::Done(IrqReply::Failed(IrqError::Closed))
    );
    assert_eq!(IrqLineAgentGuard::after_open(Ok(())), SessionStep::MakeObject);
    let lost = Err(ObjectError::ObjectNotFound);
    assert_eq!(
        IrqLineAgentGuard::finish_open(&mut table, &ABI, lost),
        Err(ObjectError::ObjectNotFound)
    );
    let closed = Handle { derive_refusal: Some(ObjectError::ObjectDestroyed), ..device() };
    assert_eq!(
        IrqLineAgentGuard::finish_open(&mut table, &ABI, Ok(closed)),
        Err(ObjectError::ObjectDestroyed)
    );
    let opened = IrqLineAgentGuard::finish_open(&mut table, &ABI, Ok(device()));
    assert_eq!(opened, Ok(words(1, 0, 0, 0, 0)));
    assert_eq!(table.get(1), Some(Handle { capabilities, interface_caps, ..device() }));
}

#[test]
fn only_the_admin_changes_a_session() {
    let guard = |mode| IrqSessionGuard { interface_caps: u32::MAX, mode };
    let enable = Some(IrqSessionMethod::SetEnabled);
    let close = Some(IrqSessionMethod::Close);
    for mode in [
        IrqSessionGuardMode::Read,
        IrqSessionGuardMode::Write,
        IrqSessionGuardMode::Execute,
        IrqSessionGuardMode::Agent,
    ] {
        let refused = (IrqSessionAction::Keep, Err(DENIED));
        assert_eq!(guard(mode).dispatch(&ABI, enable, 1, SESSION), refused);
        assert_eq!(guard(mode).dispatch(&ABI, close, 0, SESSION), refused);
    }
    let admin = guard(IrqSessionGuardMode::Admin);
    assert_eq!(
        admin.dispatch(&ABI, enable, 7, SESSION).0,
        IrqSessionAction::SetEnabled(true)
    );
    assert_eq!(
        admin.dispatch(&ABI, enable, 0, SESSION).0,
        IrqSessionAction::SetEnabled(false)
    );
    assert_eq!(admin.dispatch(&ABI, close, 0, SESSION).0, IrqSessionAction::Close);
    let read = guard(IrqSessionGuardMode::Read);
    assert_eq!(
        read.dispatch(&ABI, Some(IrqSessionMethod::QueryState), 0, SESSION),
        (IrqSessionAction::Keep, Ok(words(5, 3, 1, 5, 2)))
    );
    assert_eq!(
        admin.dispatch(&ABI, None, 0, SESSION),
        (IrqSessionAction::Keep, Ok(IrqReply::Failed(IrqError::InvalidParameter)))
    );
    assert_eq!(guard(IrqSessionGuardMode::Execute).require_wait(&ABI), Ok(()));
    assert_eq!(guard(IrqSessionGuardMode::Execute).require_ack(&ABI), Err(DENIED));
    assert_eq!(guard(IrqSessionGuardMode::Write).require_ack(&ABI), Ok(()));
    assert_eq!(guard(IrqSessionGuardMode::Write).require_wait(&ABI), Err(DENIED));
}
