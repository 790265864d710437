//! What each move of an event leaves behind: when it ends the event and how, and what the
//! connection waits for afterwards, told for each kind of socket event.

use vstd::prelude::*;

use crate::client_view::ClientView;
use crate::events::{
    BufferState, ClientResult, EffectView, InputView, Phase, Side, SocketResult, Step,
};
use crate::parser::{Chunk, HttpStateView, RequestState, ResponseState};
use crate::ready::{ReadinessView, ReadyKind};

verus! {

/// Of a connection, only what it waits for and where it stands has changed.
pub open spec fn only_decides<Front, Back>(
    before: ClientView<Front, Back>,
    after: ClientView<Front, Back>,
) -> bool {
    after == ClientView { readiness: after.readiness, phase: after.phase, ..before }
}

/// A client's socket that is readable is read from if the buffer has space. Without space the
/// connection waits for the backend to take the data, or is closed if there is none. A client
/// that the proxy answers itself is not read from: it waits for its answer.
pub proof fn law_a_readable_client<Front, Back>(client: ClientView<Front, Back>, front: BufferState)
    ensures
        ({
            let (after, step) = client.moved(client.on_readable(front));
            let r = client.readiness;
            let now = after.readiness;
            let normal = client.status is Normal;
            let full = front.available_space == 0;
            let stuck = normal && full && client.backend_token is None;
            &&& step == Step::Done(ClientResult::CloseClient) <==> stuck
            &&& step == Step::Receive(Side::Front) <==> normal && !full
            &&& step == Step::Done(ClientResult::Continue) <==> !normal || (full && !stuck)
            &&& forall|kind: ReadyKind| #[trigger]
                now.front_interest.contains(kind) <==> !stuck && match kind {
                    ReadyKind::Readable => r.front_interest.contains(kind) && !(normal && full),
                    ReadyKind::Writable => r.front_interest.contains(kind) || !normal,
                    _ => r.front_interest.contains(kind),
                }
            &&& forall|kind: ReadyKind| #[trigger]
                now.back_interest.contains(kind) <==> !stuck && match kind {
                    ReadyKind::Readable => r.back_interest.contains(kind) && normal,
                    ReadyKind::Writable => normal && (r.back_interest.contains(kind) || full),
                    _ => r.back_interest.contains(kind),
                }
            &&& now.front_readiness == r.front_readiness
            &&& now.back_readiness == r.back_readiness
            &&& only_decides(client, after)
        }),
{
}

/// What a read brought is queued, and the buffers are looked at with its outcome in mind. An empty
/// read from the client queues nothing.
pub proof fn law_read_bytes_are_queued<Front, Back>(
    client: ClientView<Front, Back>,
    size: usize,
    result: SocketResult,
)
    requires
        client.phase is FrontRead || client.phase is BackRead,
    ensures
        ({
            let (after, step) = client.resumed(InputView::Received { size, result });
            &&& step == Step::Look
            &&& client.phase is FrontRead ==> after.phase == (Phase::FrontQueue { size, result })
            &&& client.phase is BackRead ==> after.phase == (Phase::BackQueue { size, result })
            &&& client.phase is FrontRead && size > 0 ==> after.effects =~= client.effects + seq![
                EffectView::Fill(Side::Front, size),
                EffectView::SliceInput(Side::Front, size),
            ]
            &&& client.phase is FrontRead && size == 0 ==> after.effects == client.effects
            &&& client.phase is BackRead ==> after.effects =~= client.effects + seq![
                EffectView::Fill(Side::Back, size),
                EffectView::SliceInput(Side::Back, size),
            ]
            &&& after == ClientView { effects: after.effects, phase: after.phase, ..client }
        }),
{
}

/// After a read that brought bytes, those that lie before the next message are skipped: all that
/// are queued, or as many as it takes to get there, whichever is less. Nothing is decided before.
pub proof fn law_bytes_before_the_message_are_skipped<Front, Back>(
    client: ClientView<Front, Back>,
    front: BufferState,
    back: BufferState,
)
    requires
        client.phase is FrontQueue,
        client.phase->FrontQueue_size > 0,
        front.parsed_position < front.start_parsing_position,
    ensures
        ({
            let (after, step) = client.resumed(InputView::Buffers { front, back });
            &&& step == Step::Look
            &&& after.phase == Phase::FrontSkip {
                size: client.phase->FrontQueue_size,
                result: client.phase->FrontQueue_result,
            }
            &&& after == ClientView { effects: after.effects, phase: after.phase, ..client }
            &&& after.effects.len() == client.effects.len() + 1
            &&& after.effects.drop_last() == client.effects
            &&& match after.effects.last() {
                EffectView::ConsumeParsed(side, count) => {
                    &&& side is Front
                    &&& count <= front.input_data_size
                    &&& front.parsed_position + count <= front.start_parsing_position
                    &&& count == front.input_data_size || front.parsed_position + count
                        == front.start_parsing_position
                },
                _ => false,
            }
        }),
{
    let effects = client.resumed(InputView::Buffers { front, back }).0.effects;
    assert(effects.drop_last() =~= client.effects);
}

/// Nothing is skipped after an empty read, nor when the parser stands at the message or behind its
/// start: only what the connection waits for changes.
pub proof fn law_nothing_else_is_skipped<Front, Back>(
    client: ClientView<Front, Back>,
    front: BufferState,
    back: BufferState,
)
    requires
        client.phase is FrontQueue || client.phase is FrontSkip,
        client.phase is FrontQueue ==> client.phase->FrontQueue_size == 0
            || front.start_parsing_position <= front.parsed_position,
    ensures
        only_decides(client, client.resumed(InputView::Buffers { front, back }).0),
        client.resumed(InputView::Buffers { front, back }).1 != Step::Look,
{
}

/// After a read from the client the event goes on as the request stands. The connection is closed
/// exactly if the read failed or a chunk is broken. The parser runs over a request whose head or
/// chunk is not complete. A request whose bytes only pass through ends the event well, however
/// the read ended; the connection stops reading if its buffer is full or it needs no more.
pub proof fn law_data_from_the_client<Front, Back>(
    client: ClientView<Front, Back>,
    front: BufferState,
    back: BufferState,
    size: usize,
    result: SocketResult,
)
    requires
        client.phase == (Phase::FrontQueue { size, result }) || client.phase == (Phase::FrontSkip {
            size,
            result,
        }),
        client.phase is FrontQueue ==> size == 0 || front.start_parsing_position
            <= front.parsed_position,
    ensures
        ({
            let (after, step) = client.resumed(InputView::Buffers { front, back });
            let r = client.readiness;
            let now = after.readiness;
            let known = client.state.has_host;
            let request = client.state.request;
            let passing = request == Some(RequestState::Request) || request == Some(
                RequestState::RequestWithBody,
            );
            let copying = request == Some(RequestState::RequestWithBodyChunks(Chunk::Copying));
            let ended = request == Some(RequestState::RequestWithBodyChunks(Chunk::Ended));
            let broken = request == Some(RequestState::RequestWithBodyChunks(Chunk::Error));
            let closed = result is Error || (known && broken);
            &&& step == Step::Done(ClientResult::CloseClient) <==> closed
            &&& step == Step::Done(ClientResult::Continue) <==> !closed && known && (passing
                || ended || (copying && front.needs_input))
            &&& step == Step::Parse(Side::Front) <==> !closed && !(known && (passing || ended || (
            copying && front.needs_input)))
            &&& forall|kind: ReadyKind| #[trigger]
                now.front_interest.contains(kind) <==> !closed && r.front_interest.contains(kind)
                    && (kind is Readable ==> front.available_space > 0 && !(known && (ended || (
                passing && !front.needs_input))))
            &&& forall|kind: ReadyKind| #[trigger]
                now.back_interest.contains(kind) <==> !closed && (r.back_interest.contains(kind)
                    || (kind is Writable && known))
            &&& forall|kind: ReadyKind| #[trigger]
                now.front_readiness.contains(kind) <==> !closed && r.front_readiness.contains(kind)
                    && (kind is Readable ==> size > 0 && result is Continue)
            &&& forall|kind: ReadyKind| #[trigger]
                now.back_readiness.contains(kind) <==> !closed && r.back_readiness.contains(kind)
            &&& only_decides(client, after)
        }),
{
}

/// Once the parser has gone over the request, the event fails exactly if it could not be parsed. A
/// backend is asked for exactly if the host was found just now; otherwise the event ends well. The
/// connection stops reading when it sees the end of the request, and waits to write to the backend
/// as soon as the host is known.
pub proof fn law_a_parsed_request<Front, Back>(
    client: ClientView<Front, Back>,
    parsed: HttpStateView,
)
    requires
        client.phase is RequestParse,
    ensures
        ({
            let (after, step) = client.resumed(InputView::Parsed(parsed));
            let r = client.readiness;
            let now = after.readiness;
            let known = client.state.has_host;
            let failed = parsed.front_error;
            let in_chunks = client.state.request matches Some(
                RequestState::RequestWithBodyChunks(_),
            );
            let at_end = if in_chunks {
                parsed.request == Some(RequestState::RequestWithBodyChunks(Chunk::Ended))
            } else {
                parsed.request == Some(RequestState::Request)
            };
            let cleared = known && failed;
            &&& step == Step::Failed(ClientResult::CloseClient) <==> failed
            &&& step == Step::Done(ClientResult::ConnectBackend) <==> !failed && !known
                && parsed.has_host
            &&& step == Step::Done(ClientResult::Continue) <==> !failed && (known
                || !parsed.has_host)
            &&& forall|kind: ReadyKind| #[trigger]
                now.front_interest.contains(kind) <==> !cleared && r.front_interest.contains(kind)
                    && (kind is Readable ==> !failed && !(known && at_end))
            &&& forall|kind: ReadyKind| #[trigger]
                now.back_interest.contains(kind) <==> !cleared && (r.back_interest.contains(kind)
                    || (kind is Writable && !failed && if known {
                    !in_chunks
                } else {
                    parsed.has_host
                }))
            &&& forall|kind: ReadyKind| #[trigger]
                now.front_readiness.contains(kind) <==> !cleared && r.front_readiness.contains(kind)
            &&& forall|kind: ReadyKind| #[trigger]
                now.back_readiness.contains(kind) <==> !cleared && r.back_readiness.contains(kind)
            &&& after.state == parsed
            &&& only_decides(ClientView { state: parsed, ..client }, after)
        }),
{
}

/// A client's socket that is writable is written to as long as there is output. Without output the
/// connection waits for the backend to send more; a client that the proxy answers itself is closed
/// once its buffer is empty.
pub proof fn law_a_writable_client<Front, Back>(client: ClientView<Front, Back>, back: BufferState)
    ensures
        ({
            let (after, step) = client.moved(client.on_writable(back));
            let r = client.readiness;
            let now = after.readiness;
            let normal = client.status is Normal;
            let output = back.output_data_size > 0;
            let closed = !output && !normal && back.available_data == 0;
            &&& step == Step::Send(Side::Front) <==> output
            &&& step == Step::Done(ClientResult::CloseClient) <==> closed
            &&& step == Step::Done(ClientResult::Continue) <==> !output && !closed
            &&& forall|kind: ReadyKind| #[trigger]
                now.front_interest.contains(kind) <==> !closed && r.front_interest.contains(kind)
                    && (kind is Writable ==> output)
            &&& forall|kind: ReadyKind| #[trigger]
                now.back_interest.contains(kind) <==> !closed && (r.back_interest.contains(kind)
                    || (kind is Readable && normal && !output))
            &&& forall|kind: ReadyKind| #[trigger]
                now.front_readiness.contains(kind) <==> !closed && r.front_readiness.contains(kind)
            &&& forall|kind: ReadyKind| #[trigger]
                now.back_readiness.contains(kind) <==> !closed && r.back_readiness.contains(kind)
            &&& only_decides(client, after)
        }),
{
}

/// What a write took leaves the buffer that it came from and is counted for the side that sent it,
/// and the buffers are looked at with the outcome of the write in mind.
pub proof fn law_written_bytes_leave_the_buffer<Front, Back>(
    client: ClientView<Front, Back>,
    size: usize,
    result: SocketResult,
)
    requires
        client.phase is FrontWrite || client.phase is BackWrite,
        client.phase is FrontWrite ==> client.back_buf_position + size <= usize::MAX,
        client.phase is BackWrite ==> client.front_buf_position + size <= usize::MAX,
    ensures
        ({
            let (after, step) = client.resumed(InputView::Sent { size, result });
            &&& step == Step::Look
            &&& client.phase is FrontWrite ==> {
                &&& after.phase == (Phase::FrontWritten { result })
                &&& after.back_buf_position - client.back_buf_position == size
                &&& after.front_buf_position == client.front_buf_position
                &&& after.effects =~= client.effects + seq![
                    EffectView::ConsumeOutput(Side::Back, size),
                ]
            }
            &&& client.phase is BackWrite ==> {
                &&& after.phase == (Phase::BackWritten { result })
                &&& after.front_buf_position - client.front_buf_position == size
                &&& after.back_buf_position == client.back_buf_position
                &&& after.effects =~= client.effects + seq![
                    EffectView::ConsumeOutput(Side::Front, size),
                ]
            }
            &&& after == ClientView {
                front_buf_position: after.front_buf_position,
                back_buf_position: after.back_buf_position,
                effects: after.effects,
                phase: after.phase,
                ..client
            }
        }),
{
}

/// After a write to the client, more is written as long as the socket takes it. A response that is
/// not written to its end waits for the backend to send the rest, and so does one whose next
/// chunks are still to come. At its end the connection starts over or is closed, as the request
/// asks. Both connections are closed in failure exactly if what was written to its end is no
/// response.
pub proof fn law_after_a_write_to_the_client<Front, Back>(
    client: ClientView<Front, Back>,
    front: BufferState,
    back: BufferState,
    result: SocketResult,
)
    requires
        client.phase == (Phase::FrontWritten { result }),
        client.status is Normal,
    ensures
        ({
            let (after, step) = client.resumed(InputView::Buffers { front, back });
            let r = client.readiness;
            let now = after.readiness;
            let response = client.state.response;
            let more = result is Continue && back.output_data_size > 0;
            let paused = !(result is Error) && !more;
            let in_chunks = response == Some(ResponseState::ResponseWithBodyChunks(Chunk::Copying))
                || response == Some(ResponseState::ResponseWithBodyChunks(Chunk::Error));
            let complete = response == Some(ResponseState::Response) || response == Some(
                ResponseState::ResponseWithBody,
            ) || response == Some(ResponseState::ResponseWithBodyChunks(Chunk::Ended));
            let at_end = paused && back.can_restart_parsing;
            let keep = client.state.request is Some && client.state.request_keep_alive;
            let failed = at_end && !complete && !in_chunks;
            let waits = paused && (!back.can_restart_parsing || in_chunks);
            let cleared = result is Error || failed || (at_end && complete && !keep);
            &&& step == Step::Send(Side::Front) <==> more
            &&& step == Step::Done(ClientResult::CloseClient) <==> result is Error
            &&& step == Step::Restart <==> at_end && complete && keep
            &&& step == Step::Done(ClientResult::CloseBothSuccess) <==> at_end && complete && !keep
            &&& step == Step::Done(ClientResult::CloseBothFailure) <==> failed
            &&& step == Step::Done(ClientResult::Continue) <==> waits
            &&& forall|kind: ReadyKind| #[trigger]
                now.front_interest.contains(kind) <==> !cleared && r.front_interest.contains(kind)
            &&& forall|kind: ReadyKind| #[trigger]
                now.back_interest.contains(kind) <==> !cleared && (r.back_interest.contains(kind)
                    || (kind is Readable && waits))
            &&& forall|kind: ReadyKind| #[trigger]
                now.front_readiness.contains(kind) <==> !cleared && r.front_readiness.contains(kind)
                    && (kind is Writable ==> result is Continue)
            &&& forall|kind: ReadyKind| #[trigger]
                now.back_readiness.contains(kind) <==> !cleared && r.back_readiness.contains(kind)
            &&& only_decides(client, after)
        }),
{
}

/// An answer of the proxy itself is written as long as the socket takes it. The client is closed
/// exactly if a write fails or the buffer is empty once no more can be written.
pub proof fn law_after_a_write_of_an_answer<Front, Back>(
    client: ClientView<Front, Back>,
    front: BufferState,
    back: BufferState,
    result: SocketResult,
)
    requires
        client.phase == (Phase::FrontWritten { result }),
        client.status is DefaultAnswer,
    ensures
        ({
            let (after, step) = client.resumed(InputView::Buffers { front, back });
            let r = client.readiness;
            let now = after.readiness;
            let more = result is Continue && back.output_data_size > 0;
            let closed = result is Error || (!more && back.available_data == 0);
            &&& step == Step::Send(Side::Front) <==> more
            &&& step == Step::Done(ClientResult::CloseClient) <==> closed
            &&& step == Step::Done(ClientResult::Continue) <==> !more && !closed
            &&& forall|kind: ReadyKind| #[trigger]
                now.front_interest.contains(kind) <==> !closed && r.front_interest.contains(kind)
            &&& forall|kind: ReadyKind| #[trigger]
                now.back_interest.contains(kind) <==> !closed && r.back_interest.contains(kind)
            &&& forall|kind: ReadyKind| #[trigger]
                now.front_readiness.contains(kind) <==> !closed && r.front_readiness.contains(kind)
                    && (kind is Writable ==> result is Continue)
            &&& forall|kind: ReadyKind| #[trigger]
                now.back_readiness.contains(kind) <==> !closed && r.back_readiness.contains(kind)
            &&& only_decides(client, after)
        }),
{
}

/// A backend's socket that is writable is written to if there is output. Without output the
/// connection waits for more of the request. Both connections are closed exactly if there is
/// output and no backend to take it.
pub proof fn law_a_writable_backend<Front, Back>(client: ClientView<Front, Back>, front: BufferState)
    ensures
        ({
            let (after, step) = client.moved(client.on_back_writable(front));
            let r = client.readiness;
            let now = after.readiness;
            let normal = client.status is Normal;
            let output = front.output_data_size > 0;
            let closed = normal && output && client.backend is None;
            &&& step == Step::Done(ClientResult::CloseBothFailure) <==> closed
            &&& step == Step::Send(Side::Back) <==> normal && output && !closed
            &&& step == Step::Done(ClientResult::Continue) <==> !normal || !output
            &&& forall|kind: ReadyKind| #[trigger]
                now.front_interest.contains(kind) <==> !closed && (r.front_interest.contains(kind)
                    || (kind is Readable && normal && !output) || (kind is Writable && !normal))
            &&& forall|kind: ReadyKind| #[trigger]
                now.back_interest.contains(kind) <==> !closed && r.back_interest.contains(kind) && (
                kind is Writable ==> normal && output)
            &&& forall|kind: ReadyKind| #[trigger]
                now.front_readiness.contains(kind) <==> !closed && r.front_readiness.contains(kind)
            &&& forall|kind: ReadyKind| #[trigger]
                now.back_readiness.contains(kind) <==> !closed && r.back_readiness.contains(kind)
            &&& only_decides(client, after)
        }),
{
}

/// After a write to the backend, more is written as long as the socket takes it. A request that is
/// not written to its end waits for the rest, on both sides. At its end the connection waits for
/// the response instead; between chunks it waits for the next one. Both connections are closed
/// exactly if the write failed or what was written to its end is no request.
pub proof fn law_after_a_write_to_the_backend<Front, Back>(
    client: ClientView<Front, Back>,
    front: BufferState,
    back: BufferState,
    result: SocketResult,
)
    requires
        client.phase == (Phase::BackWritten { result }),
    ensures
        ({
            let (after, step) = client.resumed(InputView::Buffers { front, back });
            let r = client.readiness;
            let now = after.readiness;
            let request = client.state.request;
            let more = result is Continue && front.output_data_size > 0;
            let paused = !(result is Error) && !more;
            let in_chunks = request == Some(RequestState::RequestWithBodyChunks(Chunk::Copying))
                || request == Some(RequestState::RequestWithBodyChunks(Chunk::Error));
            let complete = request == Some(RequestState::Request) || request == Some(
                RequestState::RequestWithBody,
            ) || request == Some(RequestState::RequestWithBodyChunks(Chunk::Ended));
            let at_end = paused && front.can_restart_parsing;
            let closed = result is Error || (at_end && !complete && !in_chunks);
            &&& step == Step::Send(Side::Back) <==> more
            &&& step == Step::Done(ClientResult::CloseBothFailure) <==> closed
            &&& step == Step::Done(ClientResult::Continue) <==> paused && !closed
            &&& forall|kind: ReadyKind| #[trigger]
                now.front_interest.contains(kind) <==> !closed && if kind is Readable && paused {
                    !(at_end && complete)
                } else {
                    r.front_interest.contains(kind)
                }
            &&& forall|kind: ReadyKind| #[trigger]
                now.back_interest.contains(kind) <==> !closed && match kind {
                    ReadyKind::Readable => r.back_interest.contains(kind) || (at_end && complete),
                    ReadyKind::Writable => (paused && !at_end) || (r.back_interest.contains(kind)
                        && !(at_end && complete)),
                    _ => r.back_interest.contains(kind),
                }
            &&& forall|kind: ReadyKind| #[trigger]
                now.front_readiness.contains(kind) <==> !closed && r.front_readiness.contains(kind)
            &&& forall|kind: ReadyKind| #[trigger]
                now.back_readiness.contains(kind) <==> !closed && r.back_readiness.contains(kind)
                    && (kind is Writable ==> result is Continue)
            &&& only_decides(client, after)
        }),
{
}

/// A backend's socket that is readable is read from if the buffer has space; otherwise the
/// connection stops waiting for it. Both connections are closed exactly if there is space and no
/// backend to fill it.
pub proof fn law_a_readable_backend<Front, Back>(client: ClientView<Front, Back>, back: BufferState)
    ensures
        ({
            let (after, step) = client.moved(client.on_back_readable(back));
            let r = client.readiness;
            let now = after.readiness;
            let reads = client.status is Normal && back.available_space > 0;
            let closed = reads && client.backend is None;
            &&& step == Step::Done(ClientResult::CloseBothFailure) <==> closed
            &&& step == Step::Receive(Side::Back) <==> reads && !closed
            &&& step == Step::Done(ClientResult::Continue) <==> !reads
            &&& forall|kind: ReadyKind| #[trigger]
                now.front_interest.contains(kind) <==> !closed && r.front_interest.contains(kind)
            &&& forall|kind: ReadyKind| #[trigger]
                now.back_interest.contains(kind) <==> !closed && r.back_interest.contains(kind) && (
                kind is Readable ==> reads)
            &&& forall|kind: ReadyKind| #[trigger]
                now.front_readiness.contains(kind) <==> !closed && r.front_readiness.contains(kind)
            &&& forall|kind: ReadyKind| #[trigger]
                now.back_readiness.contains(kind) <==> !closed && r.back_readiness.contains(kind)
            &&& only_decides(client, after)
        }),
{
}

/// After a read from the backend the event goes on as the response stands. Both connections are
/// closed exactly if the read failed, the client alone exactly if a chunk is broken. The parser
/// runs over a response whose head or chunk is not complete. A body that only passes through is to
/// be forwarded at once; the connection stops reading when the response needs no more.
pub proof fn law_data_from_the_backend<Front, Back>(
    client: ClientView<Front, Back>,
    front: BufferState,
    back: BufferState,
    size: usize,
    result: SocketResult,
)
    requires
        client.phase == (Phase::BackQueue { size, result }),
        result is Error || client.state.response != Some(ResponseState::Error),
    ensures
        ({
            let (after, step) = client.resumed(InputView::Buffers { front, back });
            let r = client.readiness;
            let now = after.readiness;
            let response = client.state.response;
            let bare = response == Some(ResponseState::Response);
            let passing = response == Some(ResponseState::ResponseWithBody);
            let copying = response == Some(ResponseState::ResponseWithBodyChunks(Chunk::Copying));
            let ended = response == Some(ResponseState::ResponseWithBodyChunks(Chunk::Ended));
            let broken = response == Some(ResponseState::ResponseWithBodyChunks(Chunk::Error));
            let closed = result is Error || broken;
            let settled = bare || passing || ended || (copying && back.needs_input);
            &&& step == Step::Done(ClientResult::CloseBothFailure) <==> result is Error
            &&& step == Step::Done(ClientResult::CloseClient) <==> broken && !(result is Error)
            &&& step == Step::Done(ClientResult::Continue) <==> !closed && settled
            &&& step == Step::Parse(Side::Back) <==> !closed && !settled
            &&& forall|kind: ReadyKind| #[trigger]
                now.front_interest.contains(kind) <==> !closed && (r.front_interest.contains(kind)
                    || (kind is Writable && passing))
            &&& forall|kind: ReadyKind| #[trigger]
                now.back_interest.contains(kind) <==> !closed && r.back_interest.contains(kind) && (
                kind is Readable ==> !bare && !ended && !(passing && !back.needs_input))
            &&& forall|kind: ReadyKind| #[trigger]
                now.front_readiness.contains(kind) <==> !closed && r.front_readiness.contains(kind)
            &&& forall|kind: ReadyKind| #[trigger]
                now.back_readiness.contains(kind) <==> !closed && r.back_readiness.contains(kind)
                    && (kind is Readable ==> size > 0 && result is Continue)
            &&& only_decides(client, after)
        }),
{
}

/// Once the parser has gone over the response, the event fails exactly if it could not be parsed,
/// and ends well otherwise, whatever kind of response was found. The response is then to be
/// forwarded, but for the bare end of its chunks, and the connection stops reading at its end.
pub proof fn law_a_parsed_response<Front, Back>(
    client: ClientView<Front, Back>,
    parsed: HttpStateView,
)
    requires
        client.phase is ResponseParse,
    ensures
        ({
            let (after, step) = client.resumed(InputView::Parsed(parsed));
            let r = client.readiness;
            let now = after.readiness;
            let failed = parsed.back_error;
            let in_chunks = client.state.response matches Some(
                ResponseState::ResponseWithBodyChunks(_),
            );
            let last_chunk = in_chunks && parsed.response == Some(
                ResponseState::ResponseWithBodyChunks(Chunk::Ended),
            );
            let bare = !in_chunks && parsed.response == Some(ResponseState::Response);
            &&& step == Step::Failed(ClientResult::CloseBothFailure) <==> failed
            &&& step == Step::Done(ClientResult::Continue) <==> !failed
            &&& forall|kind: ReadyKind| #[trigger]
                now.front_interest.contains(kind) <==> !failed && (r.front_interest.contains(kind)
                    || (kind is Writable && !last_chunk))
            &&& forall|kind: ReadyKind| #[trigger]
                now.back_interest.contains(kind) <==> !failed && r.back_interest.contains(kind) && (
                kind is Readable ==> !last_chunk && !bare)
            &&& forall|kind: ReadyKind| #[trigger]
                now.front_readiness.contains(kind) <==> !failed && r.front_readiness.contains(kind)
            &&& forall|kind: ReadyKind| #[trigger]
                now.back_readiness.contains(kind) <==> !failed && r.back_readiness.contains(kind)
            &&& after.state == parsed
            &&& only_decides(ClientView { state: parsed, ..client }, after)
        }),
{
}

/// After every step the owner can come back with the outcome of the move that it was asked for,
/// and with nothing else; after the last one it comes back with nothing. The outcome of a write is
/// taken as long as it can be counted, and a look at the buffers unless the backend sends on after
/// a response that could not be parsed.
pub proof fn law_only_the_outcome_of_the_move_is_taken<Front, Back>(
    client: ClientView<Front, Back>,
    input: InputView,
)
    ensures
        client.accepts(input) <==> match client.phase {
            Phase::Idle => false,
            Phase::Restart => false,
            Phase::FrontRead => input is Received,
            Phase::BackRead => input is Received,
            Phase::RequestParse => input is Parsed,
            Phase::ResponseParse => input is Parsed,
            Phase::FrontWrite => input is Sent && client.back_buf_position + input->Sent_size
                <= usize::MAX,
            Phase::BackWrite => input is Sent && client.front_buf_position + input->Sent_size
                <= usize::MAX,
            Phase::BackQueue { result, .. } => input is Buffers && (result is Error
                || client.state.response != Some(ResponseState::Error)),
            _ => input is Buffers,
        },
{
}

/// The phase after a decision is the one in which its move is made.
pub proof fn law_the_phase_follows_the_move<Front, Back>(
    client: ClientView<Front, Back>,
    decision: (ReadinessView, Step),
)
    ensures
        client.moved(decision).1 == decision.1,
        client.moved(decision).0.readiness == decision.0,
        only_decides(client, client.moved(decision).0),
        ({
            let phase = client.moved(decision).0.phase;
            match decision.1 {
                Step::Receive(side) => if side is Front {
                    phase is FrontRead
                } else {
                    phase is BackRead
                },
                Step::Send(side) => if side is Front {
                    phase is FrontWrite
                } else {
                    phase is BackWrite
                },
                Step::Parse(side) => if side is Front {
                    phase is RequestParse
                } else {
                    phase is ResponseParse
                },
                Step::Restart => phase is Restart,
                Step::Done(_) => phase is Idle,
                Step::Failed(_) => phase is Idle,
                Step::Look => true,
            }
        }),
{
}

/// Where a decision about the buffers leaves off, the phase is that of its move.
pub proof fn law_the_phase_follows_the_outcome<Front, Back>(
    client: ClientView<Front, Back>,
    input: InputView,
)
    requires
        client.accepts(input),
        client.resumed(input).1 != Step::Look,
    ensures
        client.resumed(input).0.phase == client.moved(
            (client.readiness, client.resumed(input).1),
        ).0.phase,
{
}

} // verus!
