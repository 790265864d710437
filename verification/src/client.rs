//! A client's connection.
//!
//! Each event on one of its sockets is handled in steps. A step looks at the buffers, which it is
//! shown as plain numbers, and says what its owner does next: read, write, parse, or stop. Work
//! on the buffers themselves is left in a list of effects that the owner collects with
//! `take_effects` after every call.

use vstd::prelude::*;
use vstd::slice::slice_to_vec;
use vstd::string::*;

use mio::timer::Timeout;
use mio::{Ready, Token};

use crate::address::{Endpoints, IpText, SocketAddr};
use crate::client_view::{ClientStatus, ClientView};
use crate::client_view::{forwarded_node, log_prefix, request_header, response_header};
use crate::events::{
    BufferState, ClientResult, Effect, EffectView, Input, Phase, Side, SocketResult, Step,
};
use crate::events::effect_views;
use crate::outside::{is_random_uuid, new_request_id};
use crate::parser::{optional_text, Chunk, HttpState, RequestState, ResponseState};
use crate::ready::{ready_or, Readiness, ReadyKind};

verus! {

/// A connection between a client, over the socket `Front`, and a backend, over the socket `Back`.
pub struct Client<Front, Back> {
    pub frontend: Front,
    backend: Option<Back>,
    token: Option<Token>,
    backend_token: Option<Token>,
    front_timeout: Option<Timeout>,
    back_timeout: Option<Timeout>,
    status: ClientStatus,
    state: HttpState,
    front_buf_position: usize,
    back_buf_position: usize,
    start: u64,
    pub app_id: Option<String>,
    request_id: String,
    server_context: String,
    readiness: Readiness,
    log_ctx: String,
    effects: Vec<Effect>,
    phase: Phase,
}

impl<Front, Back> View for Client<Front, Back> {
    type V = ClientView<Front, Back>;

    closed spec fn view(&self) -> ClientView<Front, Back> {
        ClientView {
            frontend: self.frontend,
            backend: self.backend,
            token: self.token,
            backend_token: self.backend_token,
            front_timeout: self.front_timeout,
            back_timeout: self.back_timeout,
            status: self.status,
            state: self.state@,
            front_buf_position: self.front_buf_position,
            back_buf_position: self.back_buf_position,
            start: self.start,
            app_id: optional_text(self.app_id),
            request_id: self.request_id@,
            server_context: self.server_context@,
            readiness: self.readiness@,
            log_ctx: self.log_ctx@,
            effects: effect_views(self.effects@),
            phase: self.phase,
        }
    }
}

/// Writes an IP address as a `Forwarded` header does.
fn forwarded_node_text(ip: &IpText) -> (text: String)
    ensures
        text@ == forwarded_node(ip@),
{
    match ip {
        IpText::V4(text) => text.clone(),
        IpText::V6(text) => {
            let mut quoted = "\"".to_owned();
            quoted.append(text.as_str());
            quoted.append("\"");
            quoted
        },
    }
}

/// The header line that names a request.
fn response_header_text(request_id: &str) -> (text: String)
    ensures
        text@ == response_header(request_id@),
{
    let mut text = "Request-id: ".to_owned();
    text.append(request_id);
    text.append("\r\n");
    text
}

/// The header lines that a request gets on its way to the backend.
fn request_header_text(ends: &Endpoints, request_id: &str) -> (text: String)
    ensures
        text@ == request_header(ends@, request_id@),
{
    match (&ends.peer, &ends.local) {
        (Some(peer), Some(local)) => {
            let mut text = "Forwarded: for=".to_owned();
            text.append(forwarded_node_text(peer).as_str());
            text.append(";by=");
            text.append(forwarded_node_text(local).as_str());
            text.append("\r\n");
            text.append(response_header_text(request_id).as_str());
            text
        },
        _ => response_header_text(request_id),
    }
}

/// The prefix of a log line.
fn log_prefix_text(server_context: &str, request_id: &str, app_id: &Option<String>) -> (text:
    String)
    ensures
        text@ == log_prefix(server_context@, request_id@, optional_text(*app_id)),
{
    let mut text = server_context.to_owned();
    text.append("\t");
    text.append(request_id);
    text.append("\t");
    match app_id {
        Some(app_id) => text.append(app_id.as_str()),
        None => text.append("unknown"),
    }
    text.append("\t");
    text
}

impl<Front, Back> Client<Front, Back> {
    /// A new connection, named at random, that starts now.
    pub fn new(server_context: &str, sock: Front, ends: &Endpoints) -> (client: Option<
        Client<Front, Back>,
    >)
        ensures
            client is Some,
            exists|request_id: Seq<char>, start: u64|
                is_random_uuid(request_id) && client->0@ == #[trigger] ClientView::<
                    Front,
                    Back,
                >::fresh(server_context@, sock, ends@, request_id, start),
    {
        let request_id = new_request_id();
        let start: u64 = time::precise_time_ns();
        Some(Client::with_request_id(server_context, sock, ends, request_id, start))
    }

    /// A new connection with the given name and starting time.
    pub fn with_request_id(
        server_context: &str,
        sock: Front,
        ends: &Endpoints,
        request_id: String,
        start: u64,
    ) -> (client: Client<Front, Back>)
        ensures
            client@ == ClientView::<Front, Back>::fresh(
                server_context@,
                sock,
                ends@,
                request_id@,
                start,
            ),
    {
        let log_ctx = log_prefix_text(server_context, request_id.as_str(), &None);
        let mut state = HttpState::new();
        state.added_req_header = request_header_text(ends, request_id.as_str());
        state.added_res_header = response_header_text(request_id.as_str());
        let client = Client {
            frontend: sock,
            backend: None,
            token: None,
            backend_token: None,
            front_timeout: None,
            back_timeout: None,
            status: ClientStatus::Normal,
            state,
            front_buf_position: 0,
            back_buf_position: 0,
            start,
            app_id: None,
            request_id,
            server_context: server_context.to_owned(),
            readiness: Readiness::new(),
            log_ctx,
            effects: Vec::new(),
            phase: Phase::Idle,
        };
        assert(client@.effects =~= Seq::empty());
        client
    }

    /// The effects that have gathered since the last call, in order.
    pub fn take_effects(&mut self) -> (effects: Vec<Effect>)
        ensures
            effect_views(effects@) == old(self)@.effects,
            final(self)@ == (ClientView { effects: Seq::empty(), ..old(self)@ }),
    {
        let mut effects: Vec<Effect> = Vec::new();
        effects.append(&mut self.effects);
        assert(effect_views(self.effects@) =~= Seq::empty());
        assert(effects@ =~= old(self).effects@);
        effects
    }

    /// Adds an effect to the list.
    fn push_effect(&mut self, effect: Effect)
        ensures
            final(self)@ == old(self)@.then_do(effect@),
    {
        self.effects.push(effect);
        assert(effect_views(self.effects@) =~= effect_views(old(self).effects@).push(effect@));
    }
}

/// The events on the two sockets.
impl<Front, Back> Client<Front, Back> {
    /// The client's socket is readable.
    pub fn readable(&mut self, front: BufferState, back: BufferState) -> (step: Step)
        requires
            old(self)@.status is Normal ==> !old(self)@.state.front_error && back.empty,
        ensures
            (final(self)@, step) == old(self)@.moved(old(self)@.on_readable(front)),
    {
        let step = self.decide_readable(front);
        self.settle(step)
    }

    /// The client's socket is writable.
    pub fn writable(&mut self, front: BufferState, back: BufferState) -> (step: Step)
        requires
            front.empty,
        ensures
            (final(self)@, step) == old(self)@.moved(old(self)@.on_writable(back)),
    {
        let step = self.decide_writable(back);
        self.settle(step)
    }

    /// The backend's socket is writable.
    pub fn back_writable(&mut self, front: BufferState, back: BufferState) -> (step: Step)
        requires
            old(self)@.status is Normal ==> back.empty,
        ensures
            (final(self)@, step) == old(self)@.moved(old(self)@.on_back_writable(front)),
    {
        let step = self.decide_back_writable(front);
        self.settle(step)
    }

    /// The backend's socket is readable.
    pub fn back_readable(&mut self, front: BufferState, back: BufferState) -> (step: Step)
        requires
            old(self)@.status is Normal ==> front.empty,
        ensures
            (final(self)@, step) == old(self)@.moved(old(self)@.on_back_readable(back)),
    {
        let step = self.decide_back_readable(back);
        self.settle(step)
    }

    /// Goes on with the event that is being handled.
    pub fn resume(&mut self, input: Input) -> (step: Step)
        requires
            old(self)@.accepts(input@),
        ensures
            (final(self)@, step) == old(self)@.resumed(input@),
    {
        match (self.phase, input) {
            (Phase::FrontRead, Input::Received { size, result }) => {
                self.queue_front(size);
                self.look(Phase::FrontQueue { size, result })
            },
            (Phase::FrontQueue { size, result }, Input::Buffers { front, back: _ }) => {
                if size > 0 && front.start_parsing_position > front.parsed_position {
                    self.skip_parsed(front);
                    self.look(Phase::FrontSkip { size, result })
                } else {
                    let step = self.decide_front_data(size, result, front);
                    self.settle(step)
                }
            },
            (Phase::FrontSkip { size, result }, Input::Buffers { front, back: _ }) => {
                let step = self.decide_front_data(size, result, front);
                self.settle(step)
            },
            (Phase::RequestParse, Input::Parsed(parsed)) => {
                let step = self.take_request(parsed);
                self.settle(step)
            },
            (Phase::FrontWrite, Input::Sent { size, result }) => {
                self.count_front_sent(size);
                self.look(Phase::FrontWritten { result })
            },
            (Phase::FrontWritten { result }, Input::Buffers { front: _, back }) => {
                let step = self.decide_front_sent(result, back);
                self.settle(step)
            },
            (Phase::BackWrite, Input::Sent { size, result }) => {
                self.count_back_sent(size);
                self.look(Phase::BackWritten { result })
            },
            (Phase::BackWritten { result }, Input::Buffers { front, back: _ }) => {
                let step = self.decide_back_sent(result, front);
                self.settle(step)
            },
            (Phase::BackRead, Input::Received { size, result }) => {
                self.queue_back(size);
                self.look(Phase::BackQueue { size, result })
            },
            (Phase::BackQueue { size, result }, Input::Buffers { front: _, back }) => {
                let step = self.decide_back_data(size, result, back);
                self.settle(step)
            },
            (Phase::ResponseParse, Input::Parsed(parsed)) => {
                let step = self.take_response(parsed);
                self.settle(step)
            },
            _ => Step::Done(ClientResult::Continue),
        }
    }

    /// Whether the handling of the event can go on with `input`.
    pub fn can_resume(&self, input: &Input) -> (possible: bool)
        ensures
            possible == self@.accepts(input@),
    {
        match (self.phase, input) {
            (Phase::FrontRead, Input::Received { .. }) => true,
            (Phase::FrontQueue { .. }, Input::Buffers { .. }) => true,
            (Phase::FrontSkip { .. }, Input::Buffers { .. }) => true,
            (Phase::RequestParse, Input::Parsed(_)) => true,
            (Phase::FrontWrite, Input::Sent { size, .. }) => *size <= usize::MAX
                - self.back_buf_position,
            (Phase::FrontWritten { .. }, Input::Buffers { .. }) => true,
            (Phase::BackWrite, Input::Sent { size, .. }) => *size <= usize::MAX
                - self.front_buf_position,
            (Phase::BackWritten { .. }, Input::Buffers { .. }) => true,
            (Phase::BackRead, Input::Received { .. }) => true,
            (Phase::BackQueue { result, .. }, Input::Buffers { .. }) => {
                let failed: bool = match self.state.response {
                    Some(ResponseState::Error) => true,
                    _ => false,
                };
                result == SocketResult::Error || !failed
            },
            (Phase::ResponseParse, Input::Parsed(_)) => true,
            _ => false,
        }
    }

    /// Enters the phase in which the owner makes the move `step`.
    fn settle(&mut self, step: Step) -> (same: Step)
        ensures
            same == step,
            final(self)@ == (ClientView {
                phase: ClientView::<Front, Back>::phase_of(step),
                ..old(self)@
            }),
    {
        self.phase = match step {
            Step::Receive(Side::Front) => Phase::FrontRead,
            Step::Receive(Side::Back) => Phase::BackRead,
            Step::Send(Side::Front) => Phase::FrontWrite,
            Step::Send(Side::Back) => Phase::BackWrite,
            Step::Parse(Side::Front) => Phase::RequestParse,
            Step::Parse(Side::Back) => Phase::ResponseParse,
            Step::Restart => Phase::Restart,
            _ => Phase::Idle,
        };
        step
    }

    /// Enters a phase in which the owner looks at the buffers.
    fn look(&mut self, phase: Phase) -> (step: Step)
        ensures
            (final(self)@, step) == old(self)@.looking(phase),
    {
        self.phase = phase;
        Step::Look
    }
}

/// Decisions about the client's socket.
impl<Front, Back> Client<Front, Back> {
    /// The client's socket is readable.
    fn decide_readable(&mut self, front: BufferState) -> (step: Step)
        ensures
            step == old(self)@.on_readable(front).1,
            final(self)@ == old(self)@.with_readiness(old(self)@.on_readable(front).0),
    {
        if self.status == ClientStatus::DefaultAnswer {
            self.readiness.want_front(ReadyKind::Writable);
            self.readiness.leave_back(ReadyKind::Readable);
            self.readiness.leave_back(ReadyKind::Writable);
            return Step::Done(ClientResult::Continue);
        }
        if front.available_space == 0 {
            if self.backend_token.is_none() {
                self.readiness.front_interest = Ready::empty();
                self.readiness.back_interest = Ready::empty();
                return Step::Done(ClientResult::CloseClient);
            } else {
                self.readiness.leave_front(ReadyKind::Readable);
                self.readiness.want_back(ReadyKind::Writable);
                return Step::Done(ClientResult::Continue);
            }
        }
        Step::Receive(Side::Front)
    }

    /// A read from the client's socket has brought `size` bytes: they are to be queued.
    fn queue_front(&mut self, size: usize)
        ensures
            final(self)@ == (if size > 0 {
                old(self)@.then_do(EffectView::Fill(Side::Front, size)).then_do(
                    EffectView::SliceInput(Side::Front, size),
                )
            } else {
                old(self)@
            }),
    {
        if size > 0 {
            self.push_effect(Effect::Fill(Side::Front, size));
            self.push_effect(Effect::SliceInput(Side::Front, size));
        }
    }

    /// The bytes from the client are queued: those before the next message are skipped.
    fn skip_parsed(&mut self, front: BufferState)
        requires
            ClientView::<Front, Back>::is_behind(front),
        ensures
            final(self)@ == old(self)@.then_do(
                EffectView::ConsumeParsed(
                    Side::Front,
                    ClientView::<Front, Back>::bytes_to_skip(front),
                ),
            ),
    {
        let behind: usize = front.start_parsing_position - front.parsed_position;
        let to_consume: usize = if front.input_data_size < behind {
            front.input_data_size
        } else {
            behind
        };
        self.push_effect(Effect::ConsumeParsed(Side::Front, to_consume));
    }

    /// What to do with the `size` bytes from the client, after the read that ended with `result`.
    fn decide_front_data(
        &mut self,
        size: usize,
        result: SocketResult,
        front: BufferState,
    ) -> (step: Step)
        ensures
            step == old(self)@.on_front_data(size, result, front).1,
            final(self)@ == old(self)@.with_readiness(
                old(self)@.on_front_data(size, result, front).0,
            ),
    {
        if front.available_space == 0 {
            self.readiness.leave_front(ReadyKind::Readable);
        }
        if size == 0 {
            self.readiness.block_front(ReadyKind::Readable);
        }
        match result {
            SocketResult::Error => {
                self.readiness.reset();
                return Step::Done(ClientResult::CloseClient);
            },
            SocketResult::WouldBlock => {
                self.readiness.block_front(ReadyKind::Readable);
            },
            SocketResult::Continue => {},
        }
        if !self.state.has_host {
            return Step::Parse(Side::Front);
        }
        self.readiness.want_back(ReadyKind::Writable);
        match self.state.request {
            Some(RequestState::Request) | Some(RequestState::RequestWithBody) => {
                if !front.needs_input {
                    self.readiness.leave_front(ReadyKind::Readable);
                }
                Step::Done(ClientResult::Continue)
            },
            Some(RequestState::RequestWithBodyChunks(chunk)) => {
                if chunk == Chunk::Ended {
                    self.readiness.leave_front(ReadyKind::Readable);
                    Step::Done(ClientResult::Continue)
                } else if chunk == Chunk::Error {
                    self.readiness.reset();
                    Step::Done(ClientResult::CloseClient)
                } else if !front.needs_input {
                    Step::Parse(Side::Front)
                } else {
                    Step::Done(ClientResult::Continue)
                }
            },
            _ => Step::Parse(Side::Front),
        }
    }

    /// The parser has gone over the request.
    fn take_request(&mut self, parsed: HttpState) -> (step: Step)
        ensures
            step == old(self)@.on_request_parsed(parsed@).1,
            final(self)@ == (ClientView {
                state: parsed@,
                readiness: old(self)@.on_request_parsed(parsed@).0,
                ..old(self)@
            }),
    {
        let had_host: bool = self.state.has_host;
        let request = self.state.request;
        self.state = parsed;
        if !had_host {
            if self.state.front_error {
                self.readiness.leave_front(ReadyKind::Readable);
                return Step::Failed(ClientResult::CloseClient);
            }
            if self.state.has_host {
                self.readiness.want_back(ReadyKind::Writable);
                return Step::Done(ClientResult::ConnectBackend);
            }
            return Step::Done(ClientResult::Continue);
        }
        if self.state.front_error {
            self.readiness.reset();
            return Step::Failed(ClientResult::CloseClient);
        }
        match request {
            Some(RequestState::RequestWithBodyChunks(_)) => {
                if let Some(RequestState::RequestWithBodyChunks(Chunk::Ended)) = self.state.request {
                    self.readiness.leave_front(ReadyKind::Readable);
                }
            },
            _ => {
                if let Some(RequestState::Request) = self.state.request {
                    self.readiness.leave_front(ReadyKind::Readable);
                }
                self.readiness.want_back(ReadyKind::Writable);
            },
        }
        Step::Done(ClientResult::Continue)
    }

    /// The client's socket is writable.
    fn decide_writable(&mut self, back: BufferState) -> (step: Step)
        ensures
            step == old(self)@.on_writable(back).1,
            final(self)@ == old(self)@.with_readiness(old(self)@.on_writable(back).0),
    {
        if self.status == ClientStatus::DefaultAnswer {
            if back.output_data_size == 0 {
                self.readiness.leave_front(ReadyKind::Writable);
            }
        } else if back.output_data_size == 0 {
            self.readiness.want_back(ReadyKind::Readable);
            self.readiness.leave_front(ReadyKind::Writable);
            return Step::Done(ClientResult::Continue);
        }
        self.decide_front_sent(SocketResult::Continue, back)
    }

    /// A write to the client's socket has taken `size` bytes.
    fn count_front_sent(&mut self, size: usize)
        requires
            old(self)@.back_buf_position + size <= usize::MAX,
        ensures
            final(self)@ == (ClientView {
                back_buf_position: (old(self)@.back_buf_position + size) as usize,
                ..old(self)@
            }).then_do(EffectView::ConsumeOutput(Side::Back, size)),
    {
        self.push_effect(Effect::ConsumeOutput(Side::Back, size));
        self.back_buf_position = self.back_buf_position + size;
    }

    /// What to do after a write to the client's socket that ended with `result`.
    fn decide_front_sent(&mut self, result: SocketResult, back: BufferState) -> (step: Step)
        ensures
            step == old(self)@.on_front_sent(result, back).1,
            final(self)@ == old(self)@.with_readiness(old(self)@.on_front_sent(result, back).0),
    {
        if result == SocketResult::Continue && back.output_data_size > 0 {
            return Step::Send(Side::Front);
        }
        if self.status == ClientStatus::DefaultAnswer {
            if result != SocketResult::Continue {
                self.readiness.block_front(ReadyKind::Writable);
            }
            if back.available_data == 0 {
                self.readiness.reset();
                return Step::Done(ClientResult::CloseClient);
            }
            if result == SocketResult::Error {
                self.readiness.reset();
                return Step::Done(ClientResult::CloseClient);
            }
            return Step::Done(ClientResult::Continue);
        }
        match result {
            SocketResult::Error => {
                self.readiness.reset();
                return Step::Done(ClientResult::CloseClient);
            },
            SocketResult::WouldBlock => {
                self.readiness.block_front(ReadyKind::Writable);
            },
            SocketResult::Continue => {},
        }
        if back.can_restart_parsing {
            match self.state.response {
                Some(ResponseState::Response)
                | Some(ResponseState::ResponseWithBody)
                | Some(ResponseState::ResponseWithBodyChunks(Chunk::Ended)) => {
                    if self.state.front_keep_alive() {
                        Step::Restart
                    } else {
                        self.readiness.reset();
                        Step::Done(ClientResult::CloseBothSuccess)
                    }
                },
                Some(ResponseState::ResponseWithBodyChunks(_)) => {
                    self.readiness.want_back(ReadyKind::Readable);
                    Step::Done(ClientResult::Continue)
                },
                _ => {
                    self.readiness.reset();
                    Step::Done(ClientResult::CloseBothFailure)
                },
            }
        } else {
            self.readiness.want_back(ReadyKind::Readable);
            Step::Done(ClientResult::Continue)
        }
    }
}

/// Decisions about the backend's socket.
impl<Front, Back> Client<Front, Back> {
    /// The backend's socket is writable.
    fn decide_back_writable(&mut self, front: BufferState) -> (step: Step)
        ensures
            step == old(self)@.on_back_writable(front).1,
            final(self)@ == old(self)@.with_readiness(old(self)@.on_back_writable(front).0),
    {
        if self.status == ClientStatus::DefaultAnswer {
            self.readiness.leave_back(ReadyKind::Writable);
            self.readiness.want_front(ReadyKind::Writable);
            return Step::Done(ClientResult::Continue);
        }
        if front.output_data_size == 0 {
            self.readiness.want_front(ReadyKind::Readable);
            self.readiness.leave_back(ReadyKind::Writable);
            return Step::Done(ClientResult::Continue);
        }
        if self.backend.is_none() {
            self.readiness.reset();
            return Step::Done(ClientResult::CloseBothFailure);
        }
        Step::Send(Side::Back)
    }

    /// A write to the backend's socket has taken `size` bytes.
    fn count_back_sent(&mut self, size: usize)
        requires
            old(self)@.front_buf_position + size <= usize::MAX,
        ensures
            final(self)@ == (ClientView {
                front_buf_position: (old(self)@.front_buf_position + size) as usize,
                ..old(self)@
            }).then_do(EffectView::ConsumeOutput(Side::Front, size)),
    {
        self.push_effect(Effect::ConsumeOutput(Side::Front, size));
        self.front_buf_position = self.front_buf_position + size;
    }

    /// What to do after a write to the backend's socket that ended with `result`.
    fn decide_back_sent(&mut self, result: SocketResult, front: BufferState) -> (step: Step)
        ensures
            step == old(self)@.on_back_sent(result, front).1,
            final(self)@ == old(self)@.with_readiness(old(self)@.on_back_sent(result, front).0),
    {
        if result == SocketResult::Continue && front.output_data_size > 0 {
            return Step::Send(Side::Back);
        }
        match result {
            SocketResult::Error => {
                self.readiness.reset();
                return Step::Done(ClientResult::CloseBothFailure);
            },
            SocketResult::WouldBlock => {
                self.readiness.block_back(ReadyKind::Writable);
            },
            SocketResult::Continue => {},
        }
        if front.can_restart_parsing {
            match self.state.request {
                Some(RequestState::Request)
                | Some(RequestState::RequestWithBody)
                | Some(RequestState::RequestWithBodyChunks(Chunk::Ended)) => {
                    self.readiness.leave_front(ReadyKind::Readable);
                    self.readiness.want_back(ReadyKind::Readable);
                    self.readiness.leave_back(ReadyKind::Writable);
                    Step::Done(ClientResult::Continue)
                },
                Some(RequestState::RequestWithBodyChunks(_)) => {
                    self.readiness.want_front(ReadyKind::Readable);
                    Step::Done(ClientResult::Continue)
                },
                _ => {
                    self.readiness.reset();
                    Step::Done(ClientResult::CloseBothFailure)
                },
            }
        } else {
            self.readiness.want_front(ReadyKind::Readable);
            self.readiness.want_back(ReadyKind::Writable);
            Step::Done(ClientResult::Continue)
        }
    }

    /// The backend's socket is readable.
    fn decide_back_readable(&mut self, back: BufferState) -> (step: Step)
        ensures
            step == old(self)@.on_back_readable(back).1,
            final(self)@ == old(self)@.with_readiness(old(self)@.on_back_readable(back).0),
    {
        if self.status == ClientStatus::DefaultAnswer {
            self.readiness.leave_back(ReadyKind::Readable);
            return Step::Done(ClientResult::Continue);
        }
        if back.available_space == 0 {
            self.readiness.leave_back(ReadyKind::Readable);
            return Step::Done(ClientResult::Continue);
        }
        if self.backend.is_none() {
            self.readiness.reset();
            return Step::Done(ClientResult::CloseBothFailure);
        }
        Step::Receive(Side::Back)
    }

    /// A read from the backend's socket has brought `size` bytes: they are to be queued.
    fn queue_back(&mut self, size: usize)
        ensures
            final(self)@ == old(self)@.then_do(EffectView::Fill(Side::Back, size)).then_do(
                EffectView::SliceInput(Side::Back, size),
            ),
    {
        self.push_effect(Effect::Fill(Side::Back, size));
        self.push_effect(Effect::SliceInput(Side::Back, size));
    }

    /// What to do with the `size` bytes from the backend, after the read that ended with
    /// `result`.
    fn decide_back_data(
        &mut self,
        size: usize,
        result: SocketResult,
        back: BufferState,
    ) -> (step: Step)
        requires
            !(result is Error) ==> old(self)@.state.response != Some(ResponseState::Error),
        ensures
            step == old(self)@.on_back_data(size, result, back).1,
            final(self)@ == old(self)@.with_readiness(
                old(self)@.on_back_data(size, result, back).0,
            ),
    {
        if result != SocketResult::Continue || size == 0 {
            self.readiness.block_back(ReadyKind::Readable);
        }
        if result == SocketResult::Error {
            self.readiness.reset();
            return Step::Done(ClientResult::CloseBothFailure);
        }
        match self.state.response {
            Some(ResponseState::Response) => {
                self.readiness.leave_back(ReadyKind::Readable);
                Step::Done(ClientResult::Continue)
            },
            Some(ResponseState::ResponseWithBody) => {
                self.readiness.want_front(ReadyKind::Writable);
                if !back.needs_input {
                    self.readiness.leave_back(ReadyKind::Readable);
                }
                Step::Done(ClientResult::Continue)
            },
            Some(ResponseState::ResponseWithBodyChunks(chunk)) => {
                if chunk == Chunk::Ended {
                    self.readiness.leave_back(ReadyKind::Readable);
                    Step::Done(ClientResult::Continue)
                } else if chunk == Chunk::Error {
                    self.readiness.reset();
                    Step::Done(ClientResult::CloseClient)
                } else if !back.needs_input {
                    Step::Parse(Side::Back)
                } else {
                    Step::Done(ClientResult::Continue)
                }
            },
            _ => Step::Parse(Side::Back),
        }
    }

    /// The parser has gone over the response.
    fn take_response(&mut self, parsed: HttpState) -> (step: Step)
        ensures
            step == old(self)@.on_response_parsed(parsed@).1,
            final(self)@ == (ClientView {
                state: parsed@,
                readiness: old(self)@.on_response_parsed(parsed@).0,
                ..old(self)@
            }),
    {
        let response = self.state.response;
        self.state = parsed;
        if self.state.back_error {
            self.readiness.reset();
            return Step::Failed(ClientResult::CloseBothFailure);
        }
        match response {
            Some(ResponseState::ResponseWithBodyChunks(_)) => {
                if let Some(ResponseState::ResponseWithBodyChunks(Chunk::Ended)) =
                    self.state.response {
                    self.readiness.leave_back(ReadyKind::Readable);
                } else {
                    self.readiness.want_front(ReadyKind::Writable);
                }
            },
            _ => {
                self.readiness.want_front(ReadyKind::Writable);
                if let Some(ResponseState::Response) = self.state.response {
                    self.readiness.leave_back(ReadyKind::Readable);
                }
            },
        }
        Step::Done(ClientResult::Continue)
    }
}

/// The life of a connection.
impl<Front, Back> Client<Front, Back> {
    /// Makes the connection ready for its next exchange, which gets a new random name.
    pub fn reset(&mut self, ends: &Endpoints)
        ensures
            exists|request_id: Seq<char>|
                is_random_uuid(request_id) && final(self)@ == #[trigger] old(self)@.renewed(
                    ends@,
                    request_id,
                ),
    {
        let request_id = new_request_id();
        self.reset_with(ends, request_id);
    }

    /// Makes the connection ready for its next exchange, which is called `request_id`.
    pub fn reset_with(&mut self, ends: &Endpoints, request_id: String)
        ensures
            final(self)@ == old(self)@.renewed(ends@, request_id@),
    {
        self.state.reset();
        self.state.added_req_header = self.added_request_header(ends);
        self.state.added_res_header = self.added_response_header();
        self.front_buf_position = 0;
        self.back_buf_position = 0;
        self.push_effect(Effect::Reset(Side::Front));
        self.push_effect(Effect::Reset(Side::Back));
        self.request_id = request_id;
        self.log_ctx = self.log_context();
    }

    /// Uses the client's connection for another exchange, under a new random name.
    pub fn restart(&mut self, ends: &Endpoints) -> (result: ClientResult)
        requires
            old(self)@.phase is Restart,
        ensures
            result == (if old(self)@.state.back_keep_alive() {
                ClientResult::Continue
            } else {
                ClientResult::CloseBackend
            }),
            exists|request_id: Seq<char>|
                is_random_uuid(request_id) && final(self)@ == #[trigger] old(self)@.restarted(
                    ends@,
                    request_id,
                ),
    {
        let request_id = new_request_id();
        self.restart_with(ends, request_id)
    }

    /// Uses the client's connection for another exchange, which is called `request_id`.
    pub fn restart_with(&mut self, ends: &Endpoints, request_id: String) -> (result: ClientResult)
        requires
            old(self)@.phase is Restart,
        ensures
            result == (if old(self)@.state.back_keep_alive() {
                ClientResult::Continue
            } else {
                ClientResult::CloseBackend
            }),
            final(self)@ == old(self)@.restarted(ends@, request_id@),
    {
        let back_keep_alive: bool = self.state.back_keep_alive();
        self.reset_with(ends, request_id);
        self.phase = Phase::Idle;
        self.readiness.front_interest = ready_or(
            ready_or(Ready::readable(), Ready::hup()),
            Ready::error(),
        );
        if back_keep_alive {
            self.readiness.back_interest = ready_or(
                ready_or(Ready::writable(), Ready::hup()),
                Ready::error(),
            );
            ClientResult::Continue
        } else {
            self.readiness.back_interest = ready_or(Ready::hup(), Ready::error());
            ClientResult::CloseBackend
        }
    }

    /// Answers the client in place of a backend: `buf` replaces what the client was to be sent.
    pub fn set_answer(&mut self, buf: &[u8])
        ensures
            final(self)@ == old(self)@.answering(buf@),
    {
        self.push_effect(Effect::Reset(Side::Back));
        let answer = slice_to_vec(buf);
        self.push_effect(Effect::Write(Side::Back, answer));
        self.status = ClientStatus::DefaultAnswer;
    }

    /// Names the application that the connection belongs to.
    pub fn set_app_id(&mut self, app_id: &str)
        ensures
            final(self)@ == (ClientView {
                app_id: Some(app_id@),
                log_ctx: log_prefix(
                    old(self)@.server_context,
                    old(self)@.request_id,
                    Some(app_id@),
                ),
                ..old(self)@
            }),
    {
        self.app_id = Some(app_id.to_owned());
        self.log_ctx = self.log_context();
    }

    /// Names the application that the connection belongs to, and leaves the log lines alone.
    pub(crate) fn assign_app_id(&mut self, app_id: &str)
        ensures
            final(self)@ == (ClientView { app_id: Some(app_id@), ..old(self)@ }),
    {
        self.app_id = Some(app_id.to_owned());
    }

    /// Whether the connection belongs to the application.
    pub(crate) fn belongs_to(&self, app_id: &str) -> (belongs: bool)
        ensures
            belongs == (self@.app_id == Some(app_id@)),
    {
        match &self.app_id {
            Some(own) => *own == app_id.to_owned(),
            None => false,
        }
    }

    /// Whether the connection belongs to an application.
    pub(crate) fn has_app_id(&self) -> (named: bool)
        ensures
            named == (self@.app_id is Some),
    {
        self.app_id.is_some()
    }

    /// The application that the connection belongs to.
    pub(crate) fn app_id_text(&self) -> (app_id: String)
        requires
            self@.app_id is Some,
        ensures
            app_id@ == self@.app_id->0,
    {
        match &self.app_id {
            Some(app_id) => app_id.clone(),
            None => String::new(),
        }
    }

    /// Leaves the backend, whose socket is to be shut down.
    pub(crate) fn shutdown_backend(&mut self)
        ensures
            final(self)@ == old(self)@.then_do(EffectView::ShutdownBackend),
    {
        self.push_effect(Effect::ShutdownBackend);
    }

    /// The header lines that the request gets on its way to the backend.
    pub fn added_request_header(&self, ends: &Endpoints) -> (text: String)
        ensures
            text@ == request_header(ends@, self@.request_id),
    {
        request_header_text(ends, self.request_id.as_str())
    }

    /// The header line that the response gets on its way to the client.
    pub fn added_response_header(&self) -> (text: String)
        ensures
            text@ == response_header(self@.request_id),
    {
        response_header_text(self.request_id.as_str())
    }

    /// The prefix of a log line.
    pub fn log_context(&self) -> (text: String)
        ensures
            text@ == log_prefix(self@.server_context, self@.request_id, self@.app_id),
    {
        log_prefix_text(self.server_context.as_str(), self.request_id.as_str(), &self.app_id)
    }

    /// The microseconds from the start of the connection to `now`, a reading of the clock in
    /// nanoseconds.
    pub fn failure_time(&self, now: u64) -> (micros: u64)
        requires
            self@.start <= now,
        ensures
            micros == (now - self@.start) / 1000,
    {
        (now - self.start) / 1000
    }

    /// Lets go of the backend, whose socket is connected to `peer`. Returns the application of
    /// the connection, and the address if there was a backend.
    pub fn remove_backend(&mut self, peer: Option<SocketAddr>) -> (removed: (
        Option<String>,
        Option<SocketAddr>,
    ))
        ensures
            optional_text(removed.0) == old(self)@.app_id,
            removed.1 == (if old(self)@.backend is Some {
                peer
            } else {
                None
            }),
            final(self)@ == (ClientView { backend: None, backend_token: None, ..old(self)@ }),
    {
        let address: Option<SocketAddr> = if self.backend.is_some() {
            peer
        } else {
            None
        };
        self.backend = None;
        self.backend_token = None;
        let app_id = match &self.app_id {
            Some(app_id) => Some(app_id.clone()),
            None => None,
        };
        (app_id, address)
    }

    /// The client has hung up.
    pub fn front_hup(&mut self) -> (result: ClientResult)
        ensures
            result == (if old(self)@.backend_token is None {
                ClientResult::CloseClient
            } else {
                ClientResult::Continue
            }),
            final(self)@ == old(self)@,
    {
        if self.backend_token.is_none() {
            ClientResult::CloseClient
        } else {
            ClientResult::Continue
        }
    }

    /// The backend has hung up.
    pub fn back_hup(&mut self) -> (result: ClientResult)
        ensures
            result == (if old(self)@.token is None {
                ClientResult::CloseClient
            } else {
                ClientResult::Continue
            }),
            final(self)@ == old(self)@,
    {
        if self.token.is_none() {
            ClientResult::CloseClient
        } else {
            ClientResult::Continue
        }
    }
}

/// The parts of a connection.
impl<Front, Back> Client<Front, Back> {
    pub fn state(&mut self) -> (state: &mut HttpState)
        ensures
            state@ == old(self)@.state,
            final(self)@ == (ClientView { state: final(state)@, ..old(self)@ }),
    {
        &mut self.state
    }

    /// The state of the exchange, to be read.
    pub fn http_state(&self) -> (state: &HttpState)
        ensures
            state@ == self@.state,
    {
        &self.state
    }

    pub fn set_state(&mut self, state: HttpState)
        ensures
            final(self)@ == (ClientView { state: state@, ..old(self)@ }),
    {
        self.state = state;
    }

    pub fn readiness(&mut self) -> (readiness: &mut Readiness)
        ensures
            readiness@ == old(self)@.readiness,
            final(self)@ == (ClientView { readiness: final(readiness)@, ..old(self)@ }),
    {
        &mut self.readiness
    }

    pub fn status(&self) -> (status: ClientStatus)
        ensures
            status == self@.status,
    {
        self.status
    }

    /// The name of the current exchange.
    pub fn request_id(&self) -> (id: &String)
        ensures
            id@ == self@.request_id,
    {
        &self.request_id
    }

    /// The bytes of this exchange that have gone to the backend.
    pub fn front_buf_position(&self) -> (position: usize)
        ensures
            position == self@.front_buf_position,
    {
        self.front_buf_position
    }

    /// The bytes of this exchange that have gone to the client.
    pub fn back_buf_position(&self) -> (position: usize)
        ensures
            position == self@.back_buf_position,
    {
        self.back_buf_position
    }

    /// The clock reading at which the connection began.
    pub fn start(&self) -> (start: u64)
        ensures
            start == self@.start,
    {
        self.start
    }

    /// The prefix of the connection's log lines as it was last made out.
    pub fn log_ctx(&self) -> (text: &String)
        ensures
            text@ == self@.log_ctx,
    {
        &self.log_ctx
    }

    pub fn front_socket(&self) -> (socket: &Front)
        ensures
            *socket == self@.frontend,
    {
        &self.frontend
    }

    pub fn back_socket(&self) -> (socket: Option<&Back>)
        ensures
            socket == (match self@.backend {
                Some(backend) => Some(&backend),
                None => None,
            }),
    {
        match &self.backend {
            Some(backend) => Some(backend),
            None => None,
        }
    }

    /// The backend's socket, to be read from and written to.
    pub fn back_socket_mut(&mut self) -> (socket: Option<&mut Back>)
        ensures
            match (old(self)@.backend, socket) {
                (Some(backend), Some(socket)) => *socket == backend && final(self)@ == (ClientView {
                    backend: Some(*final(socket)),
                    ..old(self)@
                }),
                (None, None) => final(self)@ == old(self)@,
                _ => false,
            },
    {
        self.backend.as_mut()
    }

    pub fn front_token(&self) -> (token: Option<Token>)
        ensures
            token == self@.token,
    {
        self.token
    }

    pub fn back_token(&self) -> (token: Option<Token>)
        ensures
            token == self@.backend_token,
    {
        self.backend_token
    }

    /// The tokens of both sockets, once both are there.
    pub fn tokens(&self) -> (tokens: Option<(Token, Token)>)
        ensures
            tokens == (match (self@.token, self@.backend_token) {
                (Some(front), Some(back)) => Some((front, back)),
                _ => None,
            }),
    {
        if let Some(front) = self.token {
            if let Some(back) = self.backend_token {
                return Some((front, back));
            }
        }
        None
    }

    /// Closing a connection needs no work of its own.
    pub fn close(&mut self)
        ensures
            final(self)@ == old(self)@,
    {
    }

    /// Hands out the timer of the client's socket, which is then forgotten.
    pub fn front_timeout(&mut self) -> (timeout: Option<Timeout>)
        ensures
            timeout == old(self)@.front_timeout,
            final(self)@ == (ClientView { front_timeout: None, ..old(self)@ }),
    {
        self.front_timeout.take()
    }

    /// Hands out the timer of the backend's socket, which is then forgotten.
    pub fn back_timeout(&mut self) -> (timeout: Option<Timeout>)
        ensures
            timeout == old(self)@.back_timeout,
            final(self)@ == (ClientView { back_timeout: None, ..old(self)@ }),
    {
        self.back_timeout.take()
    }

    pub fn set_front_timeout(&mut self, timeout: Timeout)
        ensures
            final(self)@ == (ClientView { front_timeout: Some(timeout), ..old(self)@ }),
    {
        self.front_timeout = Some(timeout);
    }

    pub fn set_back_timeout(&mut self, timeout: Timeout)
        ensures
            final(self)@ == (ClientView { back_timeout: Some(timeout), ..old(self)@ }),
    {
        self.back_timeout = Some(timeout);
    }

    pub fn set_back_socket(&mut self, socket: Back)
        ensures
            final(self)@ == (ClientView { backend: Some(socket), ..old(self)@ }),
    {
        self.backend = Some(socket);
    }

    pub fn set_front_token(&mut self, token: Token)
        ensures
            final(self)@ == (ClientView { token: Some(token), ..old(self)@ }),
    {
        self.token = Some(token);
    }

    pub fn set_back_token(&mut self, token: Token)
        ensures
            final(self)@ == (ClientView { backend_token: Some(token), ..old(self)@ }),
    {
        self.backend_token = Some(token);
    }

    pub fn set_tokens(&mut self, token: Token, backend: Token)
        ensures
            final(self)@ == (ClientView {
                token: Some(token),
                backend_token: Some(backend),
                ..old(self)@
            }),
    {
        self.token = Some(token);
        self.backend_token = Some(backend);
    }
}

} // verus!
