//! What interrupt objects guarantee, stated over words, rights and lines.

use super::object::{
    line_answer, line_from, lines_below, object_error_of, open_action, session_made, sessions_made,
    words, InterruptControllerInfo, InterruptControllerReadGuard, IrqAbi, IrqControllerMethod,
    IrqLineAction, IrqLineState, IrqReply, IrqSessionGuard, IrqSessionGuardMode, IrqSessionMethod,
    IrqSessionState, IrqSyscallCodec, PublishEvent, PublishStep, PublishedInterruptController,
};
use super::IrqError;
use crate::ipc::cap::covers;
use crate::object::{Handle, ObjectError};
use vstd::prelude::*;

verus! {

/// The handle to a session that was opened can be sent on and used to read, write
/// and execute, but not to administer. Of the interface it has the three bits for
/// its state, for waiting and for acknowledging.
pub proof fn law_session_handles_are_for_use(abi: IrqAbi, owner: Result<Handle, ObjectError>)
    ensures
        session_made(abi, owner) matches Ok(session) ==> {
            &&& owner is Ok
            &&& session.object == owner->Ok_0.object
            &&& session.capabilities.read
            &&& session.capabilities.write
            &&& session.capabilities.execute
            &&& session.capabilities.send
            &&& !session.capabilities.admin
            &&& !session.capabilities.agent
            &&& session.interface_caps & abi.session_query == abi.session_query
            &&& session.interface_caps & abi.session_wait == abi.session_wait
            &&& session.interface_caps & abi.session_ack == abi.session_ack
            &&& session.interface_caps & !(abi.session_query | abi.session_wait | abi.session_ack)
                == 0
        },
        owner is Err ==> session_made(abi, owner) is Err && session_made(abi, owner)->Err_0
            == owner->Err_0,
        owner is Ok ==> (session_made(abi, owner) is Ok <==> owner->Ok_0.derive_refusal is None),
{
    let (q, w, a) = (abi.session_query, abi.session_wait, abi.session_ack);
    assert((q | w | a) & q == q && (q | w | a) & w == w && (q | w | a) & a == a && (q | w | a) & !(q
        | w | a) == 0) by (bit_vector);
}

/// Each owner gets its own session, in order.
pub proof fn law_sessions_are_made_in_order(
    abi: IrqAbi,
    owners: Seq<Result<Handle, ObjectError>>,
    i: int,
)
    requires
        0 <= i < owners.len(),
    ensures
        sessions_made(abi, owners).len() == owners.len(),
        sessions_made(abi, owners)[i] is Ok ==> owners[i] is Ok && sessions_made(
            abi,
            owners,
        )[i]->Ok_0.object == owners[i]->Ok_0.object,
{
}

/// The words of a line are its number, its flags, how many sessions it has and how
/// many of them are enabled, and its epoch.
pub proof fn law_line_words(state: IrqLineState)
    requires
        state.current_epoch <= usize::MAX,
    ensures
        ({
            let told = IrqSyscallCodec::line_words(state);
            &&& told.v0 == state.irq
            &&& told.v1 == state.flags
            &&& told.v2 == state.session_count
            &&& told.v3 == state.enabled_session_count
            &&& told.v4 == state.current_epoch
        }),
{
}

/// The fourth word of a session has a bit each for enabled, closed and not
/// acknowledged.
pub proof fn law_session_words(state: IrqSessionState)
    ensures
        ({
            let told = IrqSyscallCodec::session_words(state);
            &&& told.v0 == state.irq
            &&& told.v1 == state.session_id
            &&& told.v2 == state.flags
            &&& told.v3 % 2 == 1 <==> state.enabled
            &&& told.v3 / 2 % 2 == 1 <==> state.closed
            &&& told.v3 / 4 % 2 == 1 <==> state.inflight_epoch is Some
            &&& told.v3 < 8
            &&& told.v4 == state.pending_count
        }),
{
}

/// Short replies leave the last words zero.
pub proof fn law_short_replies_end_in_zeros(v0: usize, v1: usize, v2: usize)
    ensures
        words(v0, v1, v2) matches IrqReply::Done(told) && told.v0 == v0 && told.v1 == v1 && told.v2
            == v2 && told.v3 == 0 && told.v4 == 0,
{
}

/// The error of a line that does not exist names it. The others have codes of
/// their own name and no detail.
pub proof fn law_error_codes_name_the_error(error: IrqError)
    ensures
        ({
            let (code, detail) = IrqSyscallCodec::code_of(error);
            &&& error matches IrqError::InvalidIrq(irq) ==> code is InvalidIrq && detail == irq
            &&& !(error is InvalidIrq) ==> detail == 0
            &&& code is InvalidParameter <==> error is InvalidParameter
            &&& code is OutOfResources <==> error is OutOfResources
            &&& code is NotSupported <==> error is NotSupported
            &&& code is WouldBlock <==> error is WouldBlock
            &&& code is Closed <==> error is Closed
            &&& code is DeadlineUnsupported <==> error is DeadlineUnsupported
        }),
        object_error_of(error) is ObjectDestroyed <==> error is OutOfResources || error is Closed,
        object_error_of(error) is InvalidArgument <==> !(error is OutOfResources) && !(error
            is Closed),
{
}

proof fn lemma_lines(valid: Seq<bool>, count: int, irq: usize)
    requires
        0 <= count <= valid.len(),
        valid.len() <= usize::MAX,
    ensures
        lines_below(valid, count).contains(irq) <==> irq < count && valid[irq as int],
        forall|i: int|
            0 <= i < lines_below(valid, count).len() ==> #[trigger] lines_below(valid, count)[i]
                < count,
        forall|i: int, j: int|
            0 <= i < j < lines_below(valid, count).len() ==> lines_below(valid, count)[i]
                < lines_below(valid, count)[j],
    decreases count,
{
    if count > 0 {
        let rest = lines_below(valid, count - 1);
        let all = lines_below(valid, count);
        lemma_lines(valid, count - 1, irq);
        if rest.contains(irq) {
            let k = choose|k: int| 0 <= k < rest.len() && rest[k] == irq;
            assert(all[k] == irq);
        }
        if valid[count - 1] {
            assert(all[rest.len() as int] == count - 1);
        }
        if all.contains(irq) && irq != count - 1 {
            let k = choose|k: int| 0 <= k < all.len() && all[k] == irq;
            assert(rest[k] == irq);
        }
    }
}

/// A controller that was published has every line that it says it has registered,
/// once and in ascending order, and no other.
pub proof fn law_published_controller_has_its_lines(
    controller: PublishedInterruptController,
    handle: Handle,
    irq: usize,
)
    requires
        controller.wf(),
        controller.step == PublishStep::Done(Ok(handle)),
        controller.valid@.len() <= usize::MAX,
    ensures
        controller.registered@.contains(irq) <==> irq < controller.valid@.len()
            && controller.valid@[irq as int],
        forall|i: int, j: int|
            0 <= i < j < controller.registered@.len() ==> controller.registered@[i]
                < controller.registered@[j],
        controller.device == Some(handle),
{
    lemma_lines(controller.valid@, controller.valid@.len() as int, irq);
}

proof fn lemma_next_line(valid: Seq<bool>, from: int, irq: int)
    requires
        0 <= from <= valid.len(),
    ensures
        from <= line_from(valid, from) <= valid.len(),
        line_from(valid, from) < valid.len() ==> valid[line_from(valid, from)],
        from <= irq < line_from(valid, from) ==> !valid[irq],
    decreases valid.len() - from,
{
    if from < valid.len() && !valid[from] {
        lemma_next_line(valid, from + 1, irq);
    }
}

/// The controller is registered before its lines. A line is looked up and then
/// registered, and no line is passed over. A failure ends the publication.
pub proof fn law_lines_are_published_in_turn(
    controller: PublishedInterruptController,
    event: PublishEvent,
    irq: usize,
)
    requires
        controller.wf(),
        controller.valid@.len() <= usize::MAX,
    ensures
        controller.step is RegisterDriver && (event matches PublishEvent::Driver(Err(_)))
            ==> controller.after(event) is Done && controller.after(event)->Done_0 is Err,
        controller.step is RegisterDriver && (event matches PublishEvent::Driver(Ok(_))) ==> {
            &&& controller.after(event) matches PublishStep::FindLine(next) ==> controller.valid@[next as int]
                && forall|k: int| 0 <= k < next ==> !#[trigger] controller.valid@[k]
            &&& controller.after(event) is Done ==> controller.after(event)->Done_0 is Ok && forall|
                k: int,
            |
                0 <= k < controller.valid@.len() ==> !#[trigger] controller.valid@[k]
        },
        controller.step == PublishStep::FindLine(irq) && (event matches PublishEvent::Line(Ok(_)))
            ==> controller.after(event) == PublishStep::RegisterLine(irq),
        controller.step == PublishStep::RegisterLine(irq) && (event
            matches PublishEvent::LineRegistered(Ok(_))) ==> {
            &&& controller.after(event) matches PublishStep::FindLine(next) ==> irq < next
                && controller.valid@[next as int] && forall|k: int|
                irq < k < next ==> !#[trigger] controller.valid@[k]
            &&& controller.after(event) is Done ==> controller.after(event)->Done_0 is Ok && forall|
                k: int,
            |
                irq < k < controller.valid@.len() ==> !#[trigger] controller.valid@[k]
        },
{
    let valid = controller.valid@;
    assert forall|k: int| 0 <= k < line_from(valid, 0) implies !#[trigger] valid[k] by {
        lemma_next_line(valid, 0, k);
    }
    lemma_next_line(valid, 0, 0);
    if controller.step == PublishStep::RegisterLine(irq) {
        lemma_next_line(valid, irq + 1, 0);
        assert forall|k: int| irq < k < line_from(valid, irq + 1) implies !#[trigger] valid[k] by {
            lemma_next_line(valid, irq + 1, k);
        }
    }
}

/// A controller answers who may ask: how many lines it has, where the local ones
/// begin and how many processors there are, or one of the others alone.
pub proof fn law_controller_answers_who_may_ask(
    guard: InterruptControllerReadGuard,
    abi: IrqAbi,
    info: InterruptControllerInfo,
    method: IrqControllerMethod,
)
    ensures
        ({
            let needed = match method {
                IrqControllerMethod::QueryInfo => abi.controller_query,
                IrqControllerMethod::QueryTopology => abi.controller_topology,
                IrqControllerMethod::QueryFeatures => abi.controller_features,
            };
            let answer = guard.answer(abi, info, Some(method));
            &&& answer is Ok <==> covers(guard.interface_caps, needed)
            &&& answer matches Err(error) ==> error is InsufficientCapabilities
            &&& answer matches Ok(reply) ==> {
                &&& reply matches IrqReply::Done(told)
                &&& method is QueryInfo ==> told.v0 == info.line_count && told.v1
                    == info.local_irq_base && told.v2 == info.cpu_count
                &&& method is QueryTopology ==> told.v0 == info.cpu_count && told.v1 == 0
                &&& method is QueryFeatures ==> told.v0 == info.feature_bits && told.v1 == 0
                &&& told.v3 == 0
                &&& told.v4 == 0
            }
        }),
        guard.answer(abi, info, None) == Ok::<IrqReply, ObjectError>(
            IrqReply::Failed(IrqError::InvalidParameter),
        ),
{
}

/// A line tells its state to who may ask.
pub proof fn law_line_tells_its_state(caps: u32, abi: IrqAbi, state: Result<IrqLineState, IrqError>)
    ensures
        ({
            let answer = line_answer(caps, abi, state);
            &&& !covers(caps, abi.line_query) ==> answer == IrqLineAction::Finished(
                Err(ObjectError::InsufficientCapabilities),
            )
            &&& covers(caps, abi.line_query) && state is Ok ==> (answer
                matches IrqLineAction::Finished(Ok(IrqReply::Done(told))) && told.v0
                == state->Ok_0.irq && told.v2 == state->Ok_0.session_count)
            &&& covers(caps, abi.line_query) && state is Err ==> answer == IrqLineAction::Finished(
                Ok(IrqReply::Failed(state->Err_0)),
            )
        }),
{
}

/// A session is opened with flags that there are and that are asked for. Without
/// any it shares its line.
pub proof fn law_sessions_open_with_known_flags(caps: u32, abi: IrqAbi, flags: usize)
    ensures
        ({
            let action = open_action(caps, abi, flags);
            &&& action matches IrqLineAction::Open(opened) ==> {
                &&& covers(caps, abi.line_open)
                &&& flags == 0 ==> opened == abi.open_shared
                &&& flags != 0 ==> opened == flags && flags & abi.open_flags == flags
            }
            &&& !covers(caps, abi.line_open) ==> action == IrqLineAction::Finished(
                Err(ObjectError::InsufficientCapabilities),
            )
            &&& covers(caps, abi.line_open) && flags & abi.open_flags != flags ==> action
                == IrqLineAction::Finished(Ok(IrqReply::Failed(IrqError::InvalidParameter)))
            &&& covers(caps, abi.line_open) && flags & abi.open_flags == flags ==> action is Open
            &&& !(action is Route)
        }),
{
}

/// The state of a session can be read from the read side and from the
/// administration, and only the administration switches or closes it.
pub proof fn law_session_sides(guard: IrqSessionGuard, abi: IrqAbi, method: IrqSessionMethod)
    ensures
        guard.may(abi, method) ==> guard.mode == IrqSessionGuardMode::Admin || (guard.mode
            == IrqSessionGuardMode::Read && method == IrqSessionMethod::QueryState),
        guard.may(abi, IrqSessionMethod::QueryState) ==> covers(
            guard.interface_caps,
            abi.session_query,
        ),
        guard.may(abi, IrqSessionMethod::SetEnabled) ==> covers(
            guard.interface_caps,
            abi.session_enable,
        ),
        guard.may(abi, IrqSessionMethod::Close) ==> covers(
            guard.interface_caps,
            abi.session_enable,
        ),
        guard.mode == IrqSessionGuardMode::Admin && guard.interface_caps == u32::MAX ==> guard.may(
            abi,
            method,
        ),
        guard.mode == IrqSessionGuardMode::Read && covers(guard.interface_caps, abi.session_query)
            ==> guard.may(abi, IrqSessionMethod::QueryState),
{
}

} // verus!
