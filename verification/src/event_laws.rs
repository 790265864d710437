//! What holds of a whole event on a connection, from its first move to its last.

use vstd::prelude::*;

use crate::client_view::ClientView;
use crate::events::{
    BufferState, ClientResult, EffectView, InputView, Phase, Side, SocketResult, Step,
};
use crate::laws::{law_effects_are_kept, law_handling_an_event_keeps_the_connection};
use crate::parser::{Chunk, HttpStateView, RequestState, ResponseState};
use crate::ready::{ReadinessView, ReadyKind};

verus! {

/// The connection after a row of inputs.
pub open spec fn run<Front, Back>(
    client: ClientView<Front, Back>,
    inputs: Seq<InputView>,
) -> ClientView<Front, Back>
    decreases inputs.len(),
{
    if inputs.len() == 0 {
        client
    } else {
        run(client, inputs.drop_last()).resumed(inputs.last()).0
    }
}

/// Each input of a row comes when it may.
pub open spec fn accepts_all<Front, Back>(
    client: ClientView<Front, Back>,
    inputs: Seq<InputView>,
) -> bool
    decreases inputs.len(),
{
    inputs.len() > 0 ==> accepts_all(client, inputs.drop_last()) && run(
        client,
        inputs.drop_last(),
    ).accepts(inputs.last())
}

/// The move that the owner is asked for after a row of inputs to an event, which began with
/// `decision`.
pub open spec fn outcome<Front, Back>(
    client: ClientView<Front, Back>,
    decision: (ReadinessView, Step),
    inputs: Seq<InputView>,
) -> Step {
    if inputs.len() == 0 {
        decision.1
    } else {
        run(client.moved(decision).0, inputs.drop_last()).resumed(inputs.last()).1
    }
}

/// The connection after a row of inputs to an event, which began with `decision`.
pub open spec fn after<Front, Back>(
    client: ClientView<Front, Back>,
    decision: (ReadinessView, Step),
    inputs: Seq<InputView>,
) -> ClientView<Front, Back> {
    run(client.moved(decision).0, inputs)
}

/// How the last write of a row of inputs ended: the one before the last look at the buffers.
pub open spec fn last_result(inputs: Seq<InputView>) -> SocketResult {
    inputs[inputs.len() - 2]->Sent_result
}

/// The writes of a row of inputs have come to the end of a message in the buffer of that side:
/// the last one did not fail, nothing is left to be written, or can be for now, and the buffer
/// stands at the start of the next message.
pub open spec fn is_written(inputs: Seq<InputView>, side: Side) -> bool {
    &&& inputs.len() >= 2
    &&& inputs.last() is Buffers
    &&& {
        let left = match side {
            Side::Front => inputs.last()->front,
            Side::Back => inputs.last()->back,
        };
        &&& !(last_result(inputs) is Error)
        &&& last_result(inputs) is WouldBlock || left.output_data_size == 0
        &&& left.can_restart_parsing
    }
}

/// The writes of a row of inputs have stopped before the end of a message in the buffer of that
/// side: the last one did not fail, nothing is left to be written, or can be for now, and the
/// message goes on.
pub open spec fn is_paused(inputs: Seq<InputView>, side: Side) -> bool {
    &&& inputs.len() >= 2
    &&& inputs.last() is Buffers
    &&& {
        let left = match side {
            Side::Front => inputs.last()->front,
            Side::Back => inputs.last()->back,
        };
        &&& !(last_result(inputs) is Error)
        &&& last_result(inputs) is WouldBlock || left.output_data_size == 0
        &&& !left.can_restart_parsing
    }
}

/// What the parser left, if it ran last.
pub open spec fn last_parsed(inputs: Seq<InputView>) -> Option<HttpStateView> {
    if inputs.len() == 0 {
        None
    } else {
        match inputs.last() {
            InputView::Parsed(state) => Some(state),
            _ => None,
        }
    }
}

/// Where the handling of a readable client socket can stand after a row of inputs.
proof fn lemma_readable_run<Front, Back>(
    client: ClientView<Front, Back>,
    front: BufferState,
    inputs: Seq<InputView>,
)
    requires
        accepts_all(client.moved(client.on_readable(front)).0, inputs),
    ensures
        ({
            let now = after(client, client.on_readable(front), inputs);
            &&& now.phase !is Idle ==> now.state == client.state
            &&& match now.phase {
                Phase::FrontRead => inputs.len() == 0,
                Phase::FrontQueue { size, result } => inputs.len() == 1 && inputs[0]
                    == (InputView::Received { size, result }),
                Phase::FrontSkip { size, result } => inputs.len() == 2 && inputs[0]
                    == (InputView::Received { size, result }),
                Phase::RequestParse => 2 <= inputs.len() <= 3 && (client.state.has_host
                    ==> client.state.request != Some(RequestState::Request)
                    && client.state.request != Some(RequestState::RequestWithBody)),
                Phase::Idle => inputs.len() <= 4,
                _ => false,
            }
        }),
        inputs.len() > 0 ==> client.status is Normal && front.available_space > 0
            && inputs[0] is Received,
    decreases inputs.len(),
{
    if inputs.len() > 0 {
        let rest = inputs.drop_last();
        lemma_readable_run(client, front, rest);
        if rest.len() > 0 {
            assert(rest[0] == inputs[0]);
        }
    }
}

/// A readable client socket is handled in at most four inputs. It asks for a backend exactly if
/// the request had not named its host and the parser now finds it; the connection then waits to
/// write to the backend. It fails exactly if the request cannot be parsed. It never closes a
/// backend.
pub proof fn law_when_a_backend_is_asked_for<Front, Back>(
    client: ClientView<Front, Back>,
    front: BufferState,
    inputs: Seq<InputView>,
)
    requires
        accepts_all(client.moved(client.on_readable(front)).0, inputs),
    ensures
        inputs.len() <= 4,
        outcome(client, client.on_readable(front), inputs) == Step::Done(
            ClientResult::ConnectBackend,
        ) <==> !client.state.has_host && (last_parsed(inputs) matches Some(state) && state.has_host
            && !state.front_error),
        outcome(client, client.on_readable(front), inputs) is Failed <==> (last_parsed(
            inputs,
        ) matches Some(state) && state.front_error),
        outcome(client, client.on_readable(front), inputs) == Step::Done(
            ClientResult::ConnectBackend,
        ) ==> {
            let now = after(client, client.on_readable(front), inputs);
            &&& client.status is Normal
            &&& front.available_space > 0
            &&& last_parsed(inputs) == Some(now.state)
            &&& now.readiness.back_interest.contains(ReadyKind::Writable)
        },
        outcome(client, client.on_readable(front), inputs) matches Step::Done(result) ==> (
        result is Continue || result is CloseClient || result is ConnectBackend),
        !(outcome(client, client.on_readable(front), inputs) is Restart),
{
    lemma_readable_run(client, front, inputs);
    if inputs.len() > 0 {
        lemma_readable_run(client, front, inputs.drop_last());
    }
}

/// A readable client socket that is handled without the parser failing closes the client exactly if
/// its buffer was full with no backend to empty it into, the read ended in an error, or a chunk of
/// the request was broken before.
pub proof fn law_when_reading_a_request_closes<Front, Back>(
    client: ClientView<Front, Back>,
    front: BufferState,
    inputs: Seq<InputView>,
)
    requires
        accepts_all(client.moved(client.on_readable(front)).0, inputs),
        outcome(client, client.on_readable(front), inputs) is Done,
    ensures
        outcome(client, client.on_readable(front), inputs) == Step::Done(ClientResult::CloseClient)
            <==> if inputs.len() == 0 {
            client.status is Normal && front.available_space == 0 && client.backend_token is None
        } else {
            &&& !(inputs.last() is Parsed)
            &&& inputs[0]->Received_result is Error || (client.state.has_host
                && client.state.request == Some(RequestState::RequestWithBodyChunks(Chunk::Error)))
        },
{
    lemma_readable_run(client, front, inputs);
    if inputs.len() > 0 {
        let rest = inputs.drop_last();
        lemma_readable_run(client, front, rest);
        if rest.len() > 0 {
            assert(rest[0] == inputs[0]);
        }
    }
}

/// The bytes of a request that is known up to its end, or of a body with a known length, only pass
/// through: after a read that did not fail the event ends well, without the parser, and the
/// connection waits to write to the backend. It stops reading exactly if its buffer is full or
/// the request needs no more.
pub proof fn law_a_known_request_passes_through<Front, Back>(
    client: ClientView<Front, Back>,
    front: BufferState,
    inputs: Seq<InputView>,
)
    requires
        accepts_all(client.moved(client.on_readable(front)).0, inputs),
        client.state.has_host,
        client.state.request == Some(RequestState::Request) || client.state.request == Some(
            RequestState::RequestWithBody,
        ),
        inputs.len() >= 2,
        !(inputs[0]->Received_result is Error),
        outcome(client, client.on_readable(front), inputs) != Step::Look,
    ensures
        ({
            let now = after(client, client.on_readable(front), inputs);
            let left = inputs.last()->front;
            &&& inputs.last() is Buffers
            &&& outcome(client, client.on_readable(front), inputs) == Step::Done(
                ClientResult::Continue,
            )
            &&& now.state == client.state
            &&& now.readiness.back_interest.contains(ReadyKind::Writable)
            &&& now.readiness.front_interest.contains(ReadyKind::Readable)
                <==> client.readiness.front_interest.contains(ReadyKind::Readable)
                && left.available_space > 0 && left.needs_input
        }),
{
    lemma_readable_run(client, front, inputs);
    let rest = inputs.drop_last();
    lemma_readable_run(client, front, rest);
    assert(rest[0] == inputs[0]);
    lemma_reading_keeps_readiness(client, front, rest);
}

/// Nothing is decided about a readable client socket before the buffers have been looked at: while
/// bytes are read and skipped, the connection waits for what it waited for.
proof fn lemma_reading_keeps_readiness<Front, Back>(
    client: ClientView<Front, Back>,
    front: BufferState,
    inputs: Seq<InputView>,
)
    requires
        accepts_all(client.moved(client.on_readable(front)).0, inputs),
    ensures
        ({
            let now = after(client, client.on_readable(front), inputs);
            now.phase is FrontRead || now.phase is FrontQueue || now.phase is FrontSkip
                ==> now.readiness == client.readiness
        }),
    decreases inputs.len(),
{
    if inputs.len() > 0 {
        lemma_reading_keeps_readiness(client, front, inputs.drop_last());
        lemma_readable_run(client, front, inputs.drop_last());
    }
}

/// Where the handling of a readable backend socket can stand after a row of inputs.
proof fn lemma_back_readable_run<Front, Back>(
    client: ClientView<Front, Back>,
    back: BufferState,
    inputs: Seq<InputView>,
)
    requires
        accepts_all(client.moved(client.on_back_readable(back)).0, inputs),
    ensures
        ({
            let now = after(client, client.on_back_readable(back), inputs);
            &&& now.phase !is Idle ==> now.state == client.state
            &&& match now.phase {
                Phase::BackRead => inputs.len() == 0,
                Phase::BackQueue { size, result } => inputs.len() == 1 && inputs[0]
                    == (InputView::Received { size, result }),
                Phase::ResponseParse => inputs.len() == 2 && !(inputs[0]->Received_result is Error),
                Phase::Idle => inputs.len() <= 3,
                _ => false,
            }
        }),
        inputs.len() > 0 ==> client.status is Normal && back.available_space > 0
            && client.backend is Some && inputs[0] is Received,
    decreases inputs.len(),
{
    if inputs.len() > 0 {
        let rest = inputs.drop_last();
        lemma_back_readable_run(client, back, rest);
        if rest.len() > 0 {
            assert(rest[0] == inputs[0]);
        }
    }
}

/// A readable backend socket is handled in at most three inputs. It fails exactly if the response
/// cannot be parsed. Both connections are closed at once exactly if the backend is gone or the
/// read ended in an error, and the client's alone exactly if a chunk of the response was broken
/// before.
pub proof fn law_when_reading_a_response_closes<Front, Back>(
    client: ClientView<Front, Back>,
    back: BufferState,
    inputs: Seq<InputView>,
)
    requires
        accepts_all(client.moved(client.on_back_readable(back)).0, inputs),
    ensures
        inputs.len() <= 3,
        outcome(client, client.on_back_readable(back), inputs) is Failed <==> (last_parsed(
            inputs,
        ) matches Some(state) && state.back_error),
        outcome(client, client.on_back_readable(back), inputs) == Step::Done(
            ClientResult::CloseBothFailure,
        ) <==> if inputs.len() == 0 {
            client.status is Normal && back.available_space > 0 && client.backend is None
        } else {
            inputs.len() == 2 && inputs[0]->Received_result is Error
        },
        outcome(client, client.on_back_readable(back), inputs) == Step::Done(
            ClientResult::CloseClient,
        ) <==> inputs.len() == 2 && !(inputs[0]->Received_result is Error) && client.state.response
            == Some(ResponseState::ResponseWithBodyChunks(Chunk::Error)),
        outcome(client, client.on_back_readable(back), inputs) matches Step::Done(result) ==> (
        result is Continue || result is CloseClient || result is CloseBothFailure),
        !(outcome(client, client.on_back_readable(back), inputs) is Restart),
{
    lemma_back_readable_run(client, back, inputs);
    if inputs.len() > 0 {
        let rest = inputs.drop_last();
        lemma_back_readable_run(client, back, rest);
        if rest.len() > 0 {
            assert(rest[0] == inputs[0]);
        }
    }
}

/// Once the parser has gone over a response without an error, the event ends well, whatever it found,
/// and what was not yet known to come in chunks is to be forwarded to the client. The connection
/// stops reading exactly if the response has no body.
pub proof fn law_a_parsed_head_is_forwarded<Front, Back>(
    client: ClientView<Front, Back>,
    back: BufferState,
    inputs: Seq<InputView>,
)
    requires
        accepts_all(client.moved(client.on_back_readable(back)).0, inputs),
        last_parsed(inputs) matches Some(state) && !state.back_error,
        !(client.state.response matches Some(ResponseState::ResponseWithBodyChunks(_))),
    ensures
        ({
            let now = after(client, client.on_back_readable(back), inputs);
            &&& outcome(client, client.on_back_readable(back), inputs) == Step::Done(
                ClientResult::Continue,
            )
            &&& now.readiness.front_interest.contains(ReadyKind::Writable)
            &&& now.readiness.back_interest.contains(ReadyKind::Readable)
                <==> client.readiness.back_interest.contains(ReadyKind::Readable)
                && now.state.response != Some(ResponseState::Response)
            &&& last_parsed(inputs) == Some(now.state)
        }),
{
    let rest = inputs.drop_last();
    lemma_back_readable_run(client, back, rest);
    assert(rest[0] == inputs[0]);
    lemma_reading_a_head_keeps_interest(client, back, rest);
}

/// Before the parser has gone over the head of a response, the connection waits for what it waited
/// for.
proof fn lemma_reading_a_head_keeps_interest<Front, Back>(
    client: ClientView<Front, Back>,
    back: BufferState,
    inputs: Seq<InputView>,
)
    requires
        accepts_all(client.moved(client.on_back_readable(back)).0, inputs),
    ensures
        ({
            let now = after(client, client.on_back_readable(back), inputs);
            now.phase is BackRead || now.phase is BackQueue || now.phase is ResponseParse ==> {
                &&& now.readiness.front_interest == client.readiness.front_interest
                &&& now.readiness.back_interest == client.readiness.back_interest
            }
        }),
    decreases inputs.len(),
{
    if inputs.len() > 0 {
        lemma_reading_a_head_keeps_interest(client, back, inputs.drop_last());
        lemma_back_readable_run(client, back, inputs.drop_last());
    }
}

/// Where the handling of a writable client socket can stand after a row of inputs.
proof fn lemma_writable_run<Front, Back>(
    client: ClientView<Front, Back>,
    back: BufferState,
    inputs: Seq<InputView>,
)
    requires
        accepts_all(client.moved(client.on_writable(back)).0, inputs),
    ensures
        ({
            let now = after(client, client.on_writable(back), inputs);
            &&& now.state == client.state
            &&& now.status == client.status
            &&& now.phase is FrontWrite || now.phase is FrontWritten ==> now.readiness
                == client.readiness
            &&& match now.phase {
                Phase::FrontWrite => true,
                Phase::FrontWritten { result } => inputs.len() > 0 && inputs.last() is Sent
                    && inputs.last()->Sent_result == result,
                Phase::Restart => true,
                Phase::Idle => true,
                _ => false,
            }
        }),
    decreases inputs.len(),
{
    if inputs.len() > 0 {
        lemma_writable_run(client, back, inputs.drop_last());
    }
}

/// A writable client socket ends the exchange exactly if the whole response has been parsed and
/// written. The connection then starts over if the request asks to keep it, and is
/// closed otherwise. It is closed in failure exactly if what was written to its end is neither a
/// response nor a chunk of one, and the client's alone exactly if a write failed.
pub proof fn law_when_an_exchange_ends<Front, Back>(
    client: ClientView<Front, Back>,
    back: BufferState,
    inputs: Seq<InputView>,
)
    requires
        client.status is Normal,
        accepts_all(client.moved(client.on_writable(back)).0, inputs),
    ensures
        ({
            let ended = is_written(inputs, Side::Back) && client.state.response_is_complete();
            let step = outcome(client, client.on_writable(back), inputs);
            &&& step == Step::Restart <==> ended && client.state.front_keep_alive()
            &&& step == Step::Done(ClientResult::CloseBothSuccess) <==> ended
                && !client.state.front_keep_alive()
            &&& step == Step::Done(ClientResult::CloseBothFailure) <==> is_written(
                inputs,
                Side::Back,
            ) && match client.state.response {
                Some(ResponseState::ResponseWithBodyChunks(_)) => false,
                _ => !client.state.response_is_complete(),
            }
            &&& step == Step::Done(ClientResult::CloseClient) <==> inputs.len() >= 2
                && inputs.last() is Buffers && last_result(inputs) is Error
        }),
{
    if inputs.len() > 0 {
        let rest = inputs.drop_last();
        lemma_writable_run(client, back, rest);
        if rest.len() > 0 {
            assert(rest.last() == inputs[inputs.len() - 2]);
        }
    }
}

/// A response that is not written to its end is waited for: when the client's socket has taken what
/// there was, or takes no more for now, the event ends well and the connection waits for the
/// backend to send on. Nothing else that it waits for changes.
pub proof fn law_the_rest_of_a_response_is_waited_for<Front, Back>(
    client: ClientView<Front, Back>,
    back: BufferState,
    inputs: Seq<InputView>,
)
    requires
        client.status is Normal,
        accepts_all(client.moved(client.on_writable(back)).0, inputs),
        is_paused(inputs, Side::Back),
    ensures
        ({
            let now = after(client, client.on_writable(back), inputs);
            &&& outcome(client, client.on_writable(back), inputs) == Step::Done(
                ClientResult::Continue,
            )
            &&& now.readiness.back_interest == client.readiness.back_interest.insert(
                ReadyKind::Readable,
            )
            &&& now.readiness.front_interest == client.readiness.front_interest
        }),
{
    let rest = inputs.drop_last();
    lemma_writable_run(client, back, rest);
    assert(rest.last() == inputs[inputs.len() - 2]);
}

/// Where the handling of a writable backend socket can stand after a row of inputs.
proof fn lemma_back_writable_run<Front, Back>(
    client: ClientView<Front, Back>,
    front: BufferState,
    inputs: Seq<InputView>,
)
    requires
        accepts_all(client.moved(client.on_back_writable(front)).0, inputs),
    ensures
        ({
            let now = after(client, client.on_back_writable(front), inputs);
            &&& now.state == client.state
            &&& now.phase is BackWrite || now.phase is BackWritten ==> now.readiness
                == client.readiness
            &&& match now.phase {
                Phase::BackWrite => true,
                Phase::BackWritten { result } => inputs.len() > 0 && inputs.last() is Sent
                    && inputs.last()->Sent_result == result,
                Phase::Idle => true,
                _ => false,
            }
        }),
        inputs.len() > 0 ==> client.status is Normal && front.output_data_size > 0
            && client.backend is Some,
    decreases inputs.len(),
{
    if inputs.len() > 0 {
        lemma_back_writable_run(client, front, inputs.drop_last());
    }
}

/// When a writable backend socket has taken the request to its end, the connection waits for the
/// response, and for no more of the request. Both connections are closed exactly if the backend
/// is gone, a write failed, or what was written to its end is neither a request nor a chunk of
/// one.
pub proof fn law_when_a_request_is_forwarded<Front, Back>(
    client: ClientView<Front, Back>,
    front: BufferState,
    inputs: Seq<InputView>,
)
    requires
        client.status is Normal,
        accepts_all(client.moved(client.on_back_writable(front)).0, inputs),
    ensures
        ({
            let step = outcome(client, client.on_back_writable(front), inputs);
            let now = after(client, client.on_back_writable(front), inputs);
            let written = is_written(inputs, Side::Front);
            &&& written && client.state.request_is_complete() ==> {
                &&& step == Step::Done(ClientResult::Continue)
                &&& now.readiness.back_interest.contains(ReadyKind::Readable)
                &&& !now.readiness.back_interest.contains(ReadyKind::Writable)
                &&& !now.readiness.front_interest.contains(ReadyKind::Readable)
            }
            &&& step == Step::Done(ClientResult::CloseBothFailure) <==> if inputs.len() == 0 {
                front.output_data_size > 0 && client.backend is None
            } else {
                ||| inputs.len() >= 2 && inputs.last() is Buffers && last_result(inputs) is Error
                ||| written && match client.state.request {
                    Some(RequestState::RequestWithBodyChunks(_)) => false,
                    _ => !client.state.request_is_complete(),
                }
            }
        }),
{
    if inputs.len() > 0 {
        let rest = inputs.drop_last();
        lemma_back_writable_run(client, front, rest);
        if rest.len() > 0 {
            assert(rest.last() == inputs[inputs.len() - 2]);
        }
    }
}

/// A request that is not written to its end is waited for: when the backend's socket has taken what
/// there was, or takes no more for now, the event ends well, and the connection waits for more of
/// the request and for the backend to take it. Nothing else that it waits for changes.
pub proof fn law_the_rest_of_a_request_is_waited_for<Front, Back>(
    client: ClientView<Front, Back>,
    front: BufferState,
    inputs: Seq<InputView>,
)
    requires
        accepts_all(client.moved(client.on_back_writable(front)).0, inputs),
        is_paused(inputs, Side::Front),
    ensures
        ({
            let now = after(client, client.on_back_writable(front), inputs);
            &&& outcome(client, client.on_back_writable(front), inputs) == Step::Done(
                ClientResult::Continue,
            )
            &&& now.readiness.front_interest == client.readiness.front_interest.insert(
                ReadyKind::Readable,
            )
            &&& now.readiness.back_interest == client.readiness.back_interest.insert(
                ReadyKind::Writable,
            )
        }),
{
    let rest = inputs.drop_last();
    lemma_back_writable_run(client, front, rest);
    assert(rest.last() == inputs[inputs.len() - 2]);
}

/// A writable backend socket is handled by writing and looking at the buffers, and ends well or
/// closes both connections: it never closes one side alone.
pub proof fn law_forwarding_a_request_ends_in_two_ways<Front, Back>(
    client: ClientView<Front, Back>,
    front: BufferState,
    inputs: Seq<InputView>,
)
    requires
        accepts_all(client.moved(client.on_back_writable(front)).0, inputs),
    ensures
        match outcome(client, client.on_back_writable(front), inputs) {
            Step::Done(result) => result is Continue || result is CloseBothFailure,
            Step::Send(side) => side is Back,
            Step::Look => true,
            _ => false,
        },
{
    if inputs.len() > 0 {
        lemma_back_writable_run(client, front, inputs.drop_last());
    }
}

/// The bytes of output that a list of effects takes out of the buffer of a side.
pub open spec fn bytes_taken(effects: Seq<EffectView>, side: Side) -> int
    decreases effects.len(),
{
    if effects.len() == 0 {
        0
    } else {
        bytes_taken(effects.drop_last(), side) + match effects.last() {
            EffectView::ConsumeOutput(from, size) => if from == side {
                size as int
            } else {
                0
            },
            _ => 0,
        }
    }
}

/// One more effect takes its own bytes.
proof fn lemma_bytes_taken_push(effects: Seq<EffectView>, effect: EffectView, side: Side)
    ensures
        bytes_taken(effects.push(effect), side) == bytes_taken(effects, side) + match effect {
            EffectView::ConsumeOutput(from, size) => if from == side {
                size as int
            } else {
                0
            },
            _ => 0,
        },
{
    assert(effects.push(effect).drop_last() =~= effects);
}

/// However an event goes on, the counters of a connection grow by exactly the bytes that are
/// taken out of its buffers.
pub proof fn law_counters_follow_the_buffers<Front, Back>(
    client: ClientView<Front, Back>,
    inputs: Seq<InputView>,
)
    requires
        accepts_all(client, inputs),
    ensures
        run(client, inputs).front_buf_position - client.front_buf_position == bytes_taken(
            run(client, inputs).effects,
            Side::Front,
        ) - bytes_taken(client.effects, Side::Front),
        run(client, inputs).back_buf_position - client.back_buf_position == bytes_taken(
            run(client, inputs).effects,
            Side::Back,
        ) - bytes_taken(client.effects, Side::Back),
    decreases inputs.len(),
{
    if inputs.len() > 0 {
        let rest = inputs.drop_last();
        let before = run(client, rest);
        law_counters_follow_the_buffers(client, rest);
        assert forall|effect: EffectView, side: Side|
            #[trigger] bytes_taken(before.effects.push(effect), side) == bytes_taken(
                before.effects,
                side,
            ) + match effect {
                EffectView::ConsumeOutput(from, size) => if from == side {
                    size as int
                } else {
                    0
                },
                _ => 0,
            } by {
            lemma_bytes_taken_push(before.effects, effect, side);
        }
        match (before.phase, inputs.last()) {
            (Phase::FrontRead, InputView::Received { size, .. }) => {
                let filled = before.effects.push(EffectView::Fill(Side::Front, size));
                lemma_bytes_taken_push(
                    filled,
                    EffectView::SliceInput(Side::Front, size),
                    Side::Front,
                );
                lemma_bytes_taken_push(
                    filled,
                    EffectView::SliceInput(Side::Front, size),
                    Side::Back,
                );
            },
            (Phase::BackRead, InputView::Received { size, .. }) => {
                let filled = before.effects.push(EffectView::Fill(Side::Back, size));
                lemma_bytes_taken_push(
                    filled,
                    EffectView::SliceInput(Side::Back, size),
                    Side::Front,
                );
                lemma_bytes_taken_push(filled, EffectView::SliceInput(Side::Back, size), Side::Back);
            },
            _ => {},
        }
    }
}

/// However an event goes on, the answer that the client gets does not change its origin, and what
/// was handed to the owner stays handed over.
pub proof fn law_a_run_keeps_status_and_effects<Front, Back>(
    client: ClientView<Front, Back>,
    inputs: Seq<InputView>,
)
    ensures
        run(client, inputs).status == client.status,
        client.effects.is_prefix_of(run(client, inputs).effects),
    decreases inputs.len(),
{
    if inputs.len() > 0 {
        let before = run(client, inputs.drop_last());
        law_a_run_keeps_status_and_effects(client, inputs.drop_last());
        law_effects_are_kept(before, inputs.last());
        law_handling_an_event_keeps_the_connection(before, inputs.last());
        let effects = run(client, inputs).effects;
        assert(client.effects =~= effects.subrange(0, client.effects.len() as int)) by {
            assert forall|i: int| 0 <= i < client.effects.len() implies client.effects[i]
                == effects[i] by {
                assert(client.effects[i] == before.effects[i]);
                assert(before.effects[i] == effects[i]);
            }
        }
    }
}

} // verus!
