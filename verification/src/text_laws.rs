//! What a connection writes about itself, how it begins and starts over, and what the models of
//! plain values say.

use vstd::prelude::*;

use crate::address::{Endpoints, EndpointsView, IpText, IpTextView};
use crate::client_view::{log_prefix, request_header, response_header, ClientView};
use crate::events::{effect_views, BufferState, Effect, EffectView, Input, InputView, Side};
use crate::events::SocketResult;
use crate::messages::{HttpFront, Instance, ServerMessage, ServerMessageType, ServerMessageTypeView};
use crate::messages::{Command, ProxyOrder};
use crate::parser::{
    optional_text, Authority, AuthorityView, HttpState, HttpStateView, RequestState, ResponseState,
};
use crate::ready::{ReadinessView, ReadyKind};
use crate::text::{decimal, digit};

verus! {

/// The lines that a request gets name both ends of the client's connection if both are known, with
/// version 6 addresses between quotes, and then the request. Otherwise they name the request only.
pub proof fn law_the_added_lines(peer: Seq<char>, local: Seq<char>, id: Seq<char>)
    ensures
        ({
            let lines = |peer: IpTextView, local: IpTextView|
                request_header(EndpointsView { peer: Some(peer), local: Some(local) }, id);
            let p4 = IpTextView::V4(peer);
            let p6 = IpTextView::V6(peer);
            let l4 = IpTextView::V4(local);
            let l6 = IpTextView::V6(local);
            &&& lines(p4, l4) =~= "Forwarded: for="@ + peer + ";by="@ + local
                + "\r\nRequest-id: "@ + id + "\r\n"@
            &&& lines(p4, l6) =~= "Forwarded: for="@ + peer + ";by=\""@ + local
                + "\"\r\nRequest-id: "@ + id + "\r\n"@
            &&& lines(p6, l4) =~= "Forwarded: for=\""@ + peer + "\";by="@ + local
                + "\r\nRequest-id: "@ + id + "\r\n"@
            &&& lines(p6, l6) =~= "Forwarded: for=\""@ + peer + "\";by=\""@ + local
                + "\"\r\nRequest-id: "@ + id + "\r\n"@
        }),
        forall|ends: EndpointsView|
            ends.peer is None || ends.local is None ==> #[trigger] request_header(ends, id)
                == response_header(id),
        response_header(id) =~= "Request-id: "@ + id + "\r\n"@,
{
    reveal_strlit("Forwarded: for=");
    reveal_strlit("Forwarded: for=\"");
    reveal_strlit(";by=");
    reveal_strlit(";by=\"");
    reveal_strlit("\";by=");
    reveal_strlit("\";by=\"");
    reveal_strlit("\r\nRequest-id: ");
    reveal_strlit("\"\r\nRequest-id: ");
    reveal_strlit("Request-id: ");
    reveal_strlit("\r\n");
    reveal_strlit("\"");
}

/// A log line begins with the server, the request and the application, each followed by a tab. A
/// connection without an application is logged as one with the application `unknown`.
pub proof fn law_the_log_prefix(context: Seq<char>, id: Seq<char>, app_id: Seq<char>)
    ensures
        log_prefix(context, id, Some(app_id)) =~= context + seq!['\t'] + id + seq!['\t'] + app_id
            + seq!['\t'],
        log_prefix(context, id, None) == log_prefix(context, id, Some("unknown"@)),
{
    reveal_strlit("\t");
}

/// The number that decimal digits stand for.
pub open spec fn value(digits: Seq<char>) -> int
    decreases digits.len(),
{
    if digits.len() == 0 {
        0
    } else {
        10 * value(digits.drop_last()) + (digits.last() as int - '0' as int)
    }
}

/// The digit of a number stands for it.
proof fn lemma_digit(n: nat)
    requires
        n < 10,
    ensures
        '0' <= digit(n) <= '9',
        digit(n) as int - '0' as int == n,
{
    assert(n == 0 || n == 1 || n == 2 || n == 3 || n == 4 || n == 5 || n == 6 || n == 7 || n == 8
        || n == 9);
}

/// A number in decimal reads back as the number, is made of digits, and has no leading zero.
pub proof fn law_decimal_reads_back(n: nat)
    ensures
        value(decimal(n)) == n,
        decimal(n).len() > 0,
        forall|i: int| 0 <= i < decimal(n).len() ==> '0' <= #[trigger] decimal(n)[i] <= '9',
        n > 0 ==> decimal(n)[0] != '0',
        n == 0 ==> decimal(n).len() == 1,
    decreases n,
{
    let digits = decimal(n);
    if n < 10 {
        lemma_digit(n);
        assert(digits.drop_last() =~= Seq::empty());
        assert(value(Seq::<char>::empty()) == 0);
        assert(digits.last() == digit(n));
    } else {
        let rest = decimal(n / 10);
        law_decimal_reads_back(n / 10);
        lemma_digit(n % 10);
        assert(digits.drop_last() =~= rest);
        assert(digits.last() == digit(n % 10));
        assert forall|i: int| 0 <= i < digits.len() implies '0' <= #[trigger] digits[i] <= '9' by {
            if i < rest.len() {
                assert(digits[i] == rest[i]);
            }
        }
        assert(digits[0] == rest[0]);
    }
}

/// The text of an instance's address is its IP address, a colon and its port in decimal. An order
/// names an instance exactly if it adds or removes one.
pub proof fn law_the_text_of_an_address(instance: Instance, id: String, order: ProxyOrder)
    ensures
        ({
            let text = instance.address_view();
            let n = instance.ip_address@.len() as int;
            &&& text.take(n) =~= instance.ip_address@
            &&& text[n] == ':'
            &&& value(text.skip(n + 1)) == instance.port
            &&& text.skip(n + 1) =~= decimal(instance.port as nat)
        }),
        ProxyOrder::Command(id, Command::AddInstance(instance)).instance_view() == Some(instance),
        ProxyOrder::Command(id, Command::RemoveInstance(instance)).instance_view() == Some(instance),
        order.instance_view() is Some ==> match order {
            ProxyOrder::Command(_, Command::AddInstance(_)) => true,
            ProxyOrder::Command(_, Command::RemoveInstance(_)) => true,
            _ => false,
        },
{
    reveal_strlit(":");
    law_decimal_reads_back(instance.port as nat);
    let text = instance.address_view();
    let n = instance.ip_address@.len() as int;
    assert(text.skip(n + 1) =~= decimal(instance.port as nat));
}

/// An exchange begins with nothing parsed, no error, no host and nothing to keep, and with the
/// headers that are to be added.
pub proof fn law_an_exchange_begins(req_header: Seq<char>, res_header: Seq<char>)
    ensures
        ({
            let state = HttpStateView::initial(req_header, res_header);
            &&& state.request == Some(RequestState::Parsing)
            &&& state.response == Some(ResponseState::Parsing)
            &&& !state.has_host && !state.front_error && !state.back_error
            &&& !state.request_keep_alive && !state.response_keep_alive
            &&& state.host is None && state.uri is None
            &&& state.added_req_header == req_header
            &&& state.added_res_header == res_header
        }),
{
}

/// A side of a connection outlives the exchange exactly if there is a message on it that says so.
pub proof fn law_a_message_keeps_its_side(state: HttpStateView)
    ensures
        state.front_keep_alive() <==> state.request_keep_alive && state.request is Some,
        state.back_keep_alive() <==> state.response_keep_alive && state.response is Some,
{
}

/// A new connection has its socket and its name, and nothing else yet: no backend, tokens, timers or
/// application, nothing counted, nothing to wait for and nothing to do. Its headers carry its name.
pub proof fn law_a_connection_begins<Front, Back>(
    context: Seq<char>,
    frontend: Front,
    ends: EndpointsView,
    id: Seq<char>,
    start: u64,
)
    ensures
        ({
            let client = ClientView::<Front, Back>::fresh(context, frontend, ends, id, start);
            &&& client.frontend == frontend
            &&& client.backend is None
            &&& client.token is None && client.backend_token is None
            &&& client.front_timeout is None && client.back_timeout is None
            &&& client.status is Normal
            &&& client.state == HttpStateView::initial(
                request_header(ends, id),
                response_header(id),
            )
            &&& client.front_buf_position == 0 && client.back_buf_position == 0
            &&& client.start == start
            &&& client.app_id is None
            &&& client.request_id == id
            &&& client.server_context == context
            &&& client.readiness.front_interest.is_empty()
            &&& client.readiness.back_interest.is_empty()
            &&& client.readiness.front_readiness.is_empty()
            &&& client.readiness.back_readiness.is_empty()
            &&& client.log_ctx == log_prefix(context, id, None)
            &&& client.effects.len() == 0
            &&& client.phase is Idle
        }),
{
}

/// A connection that is made ready for its next exchange gets its new name, begins a new exchange
/// with headers under the old name, counts from nothing and empties both buffers. Its log prefix
/// carries the new name and the application. Everything else stays.
pub proof fn law_a_renewed_connection<Front, Back>(
    client: ClientView<Front, Back>,
    ends: EndpointsView,
    id: Seq<char>,
)
    ensures
        ({
            let after = client.renewed(ends, id);
            &&& after.request_id == id
            &&& after.state == HttpStateView::initial(
                request_header(ends, client.request_id),
                response_header(client.request_id),
            )
            &&& after.front_buf_position == 0 && after.back_buf_position == 0
            &&& after.log_ctx == log_prefix(client.server_context, id, client.app_id)
            &&& after.effects =~= client.effects + seq![
                EffectView::Reset(Side::Front),
                EffectView::Reset(Side::Back),
            ]
            &&& after == ClientView {
                request_id: after.request_id,
                state: after.state,
                front_buf_position: after.front_buf_position,
                back_buf_position: after.back_buf_position,
                log_ctx: after.log_ctx,
                effects: after.effects,
                ..client
            }
        }),
{
}

/// A connection that starts over is renewed, waits for the next request on the client's side, and
/// on the backend's side to write to it if the response keeps it, and for its end in any case.
pub proof fn law_a_connection_starts_over<Front, Back>(
    client: ClientView<Front, Back>,
    ends: EndpointsView,
    id: Seq<char>,
)
    ensures
        ({
            let after = client.restarted(ends, id);
            let now = after.readiness;
            &&& forall|kind: ReadyKind| #[trigger]
                now.front_interest.contains(kind) <==> !(kind is Writable)
            &&& forall|kind: ReadyKind| #[trigger]
                now.back_interest.contains(kind) <==> match kind {
                    ReadyKind::Readable => false,
                    ReadyKind::Writable => client.state.response is Some
                        && client.state.response_keep_alive,
                    _ => true,
                }
            &&& now.front_readiness == client.readiness.front_readiness
            &&& now.back_readiness == client.readiness.back_readiness
            &&& after.phase is Idle
            &&& after == ClientView {
                readiness: after.readiness,
                phase: after.phase,
                ..client.renewed(ends, id)
            }
        }),
{
}

/// A change of what a connection waits for, and one more effect, change nothing else.
pub proof fn law_one_part_changes_alone<Front, Back>(
    client: ClientView<Front, Back>,
    readiness: ReadinessView,
    effect: EffectView,
)
    ensures
        client.with_readiness(readiness).readiness == readiness,
        client.with_readiness(readiness).with_readiness(client.readiness) == client,
        client.then_do(effect).effects.len() == client.effects.len() + 1,
        client.then_do(effect).effects.last() == effect,
        client.then_do(effect).effects.drop_last() == client.effects,
        (ClientView { effects: client.effects, ..client.then_do(effect) }) == client,
{
    assert(client.then_do(effect).effects.drop_last() =~= client.effects);
}

/// A change of what a connection waits for concerns one set and one kind: the others stay.
pub proof fn law_readiness_changes_one_kind(r: ReadinessView, kind: ReadyKind, other: ReadyKind)
    ensures
        r.want_front(kind).front_interest.contains(other) <==> r.front_interest.contains(other)
            || other == kind,
        r.want_back(kind).back_interest.contains(other) <==> r.back_interest.contains(other)
            || other == kind,
        r.leave_front(kind).front_interest.contains(other) <==> r.front_interest.contains(other)
            && other != kind,
        r.leave_back(kind).back_interest.contains(other) <==> r.back_interest.contains(other)
            && other != kind,
        r.block_front(kind).front_readiness.contains(other) <==> r.front_readiness.contains(other)
            && other != kind,
        r.block_back(kind).back_readiness.contains(other) <==> r.back_readiness.contains(other)
            && other != kind,
        r.want_front(kind) == (ReadinessView {
            front_interest: r.want_front(kind).front_interest,
            ..r
        }),
        r.leave_front(kind) == (ReadinessView {
            front_interest: r.leave_front(kind).front_interest,
            ..r
        }),
        r.want_back(kind) == (ReadinessView { back_interest: r.want_back(kind).back_interest, ..r }),
        r.leave_back(kind) == (ReadinessView {
            back_interest: r.leave_back(kind).back_interest,
            ..r
        }),
        r.block_front(kind) == (ReadinessView {
            front_readiness: r.block_front(kind).front_readiness,
            ..r
        }),
        r.block_back(kind) == (ReadinessView {
            back_readiness: r.block_back(kind).back_readiness,
            ..r
        }),
        !ReadinessView::none().front_interest.contains(kind),
        !ReadinessView::none().back_interest.contains(kind),
        !ReadinessView::none().front_readiness.contains(kind),
        !ReadinessView::none().back_readiness.contains(kind),
{
}

/// The model of an effect is the effect: what is to be done, on which side, and with how much.
pub proof fn law_effects_mean_what_they_say(
    effects: Seq<Effect>,
    i: int,
    side: Side,
    count: usize,
    bytes: Vec<u8>,
)
    ensures
        Effect::Fill(side, count)@ == EffectView::Fill(side, count),
        Effect::SliceInput(side, count)@ == EffectView::SliceInput(side, count),
        Effect::ConsumeParsed(side, count)@ == EffectView::ConsumeParsed(side, count),
        Effect::ConsumeOutput(side, count)@ == EffectView::ConsumeOutput(side, count),
        Effect::Reset(side)@ == EffectView::Reset(side),
        Effect::Write(side, bytes)@ == EffectView::Write(side, bytes@),
        Effect::ShutdownBackend@ == EffectView::ShutdownBackend,
        effect_views(effects).len() == effects.len(),
        0 <= i < effects.len() ==> effect_views(effects)[i] == effects[i]@,
{
}

/// The model of an input is the input.
pub proof fn law_inputs_mean_what_they_say(
    size: usize,
    result: SocketResult,
    front: BufferState,
    back: BufferState,
    state: HttpState,
)
    ensures
        (Input::Received { size, result })@ == (InputView::Received { size, result }),
        (Input::Sent { size, result })@ == (InputView::Sent { size, result }),
        (Input::Buffers { front, back })@ == (InputView::Buffers { front, back }),
        Input::Parsed(state)@ == InputView::Parsed(state@),
        state@.request == state.request,
        state@.response == state.response,
        state@.has_host == state.has_host,
        state@.front_error == state.front_error,
        state@.back_error == state.back_error,
        state@.request_keep_alive == state.request_keep_alive,
        state@.response_keep_alive == state.response_keep_alive,
        state@.host == optional_text(state.host),
        state@.uri == optional_text(state.uri),
        state@.added_req_header == state.added_req_header@,
        state@.added_res_header == state.added_res_header@,
{
}

/// The models of texts, addresses, fronts and answers hold their characters and bytes.
pub proof fn law_texts_mean_what_they_say(
    text: String,
    ends: Endpoints,
    front: HttpFront,
    message: ServerMessage,
    port: Vec<u8>,
    rest: Vec<u8>,
)
    ensures
        optional_text(Some(text)) == Some(text@),
        optional_text(None) is None,
        IpText::V4(text)@ == IpTextView::V4(text@),
        IpText::V6(text)@ == IpTextView::V6(text@),
        ends@.peer is Some <==> ends.peer is Some,
        ends@.local is Some <==> ends.local is Some,
        ends.peer is Some ==> ends@.peer->0 == ends.peer->0@,
        ends.local is Some ==> ends@.local->0 == ends.local->0@,
        front@.app_id == front.app_id@,
        front@.hostname == front.hostname@,
        front@.path_begin == front.path_begin@,
        message@.id == message.id@,
        message@.message == message.message@,
        ServerMessageType::AddedFront@ is AddedFront,
        ServerMessageType::RemovedFront@ is RemovedFront,
        ServerMessageType::AddedInstance@ is AddedInstance,
        ServerMessageType::RemovedInstance@ is RemovedInstance,
        ServerMessageType::Stopped@ is Stopped,
        ServerMessageType::Error(text)@ == ServerMessageTypeView::Error(text@),
        Authority::Invalid@ is Invalid,
        (Authority::Parsed { hostname: text, port: Some(port), rest })@ == (AuthorityView::Parsed {
            hostname: text@,
            port: Some(port@),
            rest: rest@,
        }),
        (Authority::Parsed { hostname: text, port: None, rest })@ == (AuthorityView::Parsed {
            hostname: text@,
            port: None,
            rest: rest@,
        }),
{
}

} // verus!
