//! The model of a client's connection: its state, and how each event changes it.

use vstd::prelude::*;

use mio::timer::Timeout;
use mio::Token;

use crate::address::{EndpointsView, IpTextView};
use crate::events::{
    BufferState, ClientResult, EffectView, InputView, Phase, Side, SocketResult, Step,
};
use crate::parser::{Chunk, HttpStateView, RequestState, ResponseState};
use crate::ready::{ReadinessView, ReadyKind};

verus! {

/// Where the bytes come from that a client is sent.
#[derive(Clone, Copy, Debug, PartialEq, Eq, Structural)]
pub enum ClientStatus {
    /// From the backend.
    Normal,
    /// From the proxy itself, which answers in place of a backend.
    DefaultAnswer,
}

/// An IP address as a `Forwarded` header writes it: version 6 goes between quotes.
pub open spec fn forwarded_node(ip: IpTextView) -> Seq<char> {
    match ip {
        IpTextView::V4(text) => text,
        IpTextView::V6(text) => "\""@ + text + "\""@,
    }
}

/// The header line that names a request.
pub open spec fn response_header(request_id: Seq<char>) -> Seq<char> {
    "Request-id: "@ + request_id + "\r\n"@
}

/// The header lines that a request gets on its way to the backend. The line that names the two
/// ends of the client's connection is there when both are known.
pub open spec fn request_header(ends: EndpointsView, request_id: Seq<char>) -> Seq<char> {
    match (ends.peer, ends.local) {
        (Some(peer), Some(local)) => "Forwarded: for="@ + forwarded_node(peer) + ";by="@
            + forwarded_node(local) + "\r\n"@ + response_header(request_id),
        _ => response_header(request_id),
    }
}

/// The prefix of a log line. A connection without an application logs `unknown`.
pub open spec fn log_prefix(
    server_context: Seq<char>,
    request_id: Seq<char>,
    app_id: Option<Seq<char>>,
) -> Seq<char> {
    let app = match app_id {
        Some(app) => app,
        None => "unknown"@,
    };
    server_context + "\t"@ + request_id + "\t"@ + app + "\t"@
}

/// The state of a client's connection.
#[verifier::ext_equal]
pub struct ClientView<Front, Back> {
    pub frontend: Front,
    pub backend: Option<Back>,
    pub token: Option<Token>,
    pub backend_token: Option<Token>,
    pub front_timeout: Option<Timeout>,
    pub back_timeout: Option<Timeout>,
    pub status: ClientStatus,
    pub state: HttpStateView,
    pub front_buf_position: usize,
    pub back_buf_position: usize,
    pub start: u64,
    pub app_id: Option<Seq<char>>,
    pub request_id: Seq<char>,
    pub server_context: Seq<char>,
    pub readiness: ReadinessView,
    pub log_ctx: Seq<char>,
    pub effects: Seq<EffectView>,
    pub phase: Phase,
}

impl<Front, Back> ClientView<Front, Back> {
    /// A new connection.
    pub open spec fn fresh(
        server_context: Seq<char>,
        frontend: Front,
        ends: EndpointsView,
        request_id: Seq<char>,
        start: u64,
    ) -> ClientView<Front, Back> {
        ClientView {
            frontend,
            backend: None,
            token: None,
            backend_token: None,
            front_timeout: None,
            back_timeout: None,
            status: ClientStatus::Normal,
            state: HttpStateView::initial(
                request_header(ends, request_id),
                response_header(request_id),
            ),
            front_buf_position: 0,
            back_buf_position: 0,
            start,
            app_id: None,
            request_id,
            server_context,
            readiness: ReadinessView::none(),
            log_ctx: log_prefix(server_context, request_id, None),
            effects: Seq::empty(),
            phase: Phase::Idle,
        }
    }

    pub open spec fn with_readiness(self, readiness: ReadinessView) -> ClientView<Front, Back> {
        ClientView { readiness, ..self }
    }

    /// Hands one more effect to the owner.
    pub open spec fn then_do(self, effect: EffectView) -> ClientView<Front, Back> {
        ClientView { effects: self.effects.push(effect), ..self }
    }

    /// The proxy answers the client itself, with `answer`.
    pub open spec fn answering(self, answer: Seq<u8>) -> ClientView<Front, Back> {
        ClientView { status: ClientStatus::DefaultAnswer, ..self }.then_do(
            EffectView::Reset(Side::Back),
        ).then_do(EffectView::Write(Side::Back, answer))
    }

    /// The connection is ready for its next exchange, which is called `request_id`. The headers
    /// to be added are made out before the new name is given, so they carry the previous one.
    pub open spec fn renewed(
        self,
        ends: EndpointsView,
        request_id: Seq<char>,
    ) -> ClientView<Front, Back> {
        ClientView {
            state: HttpStateView::initial(
                request_header(ends, self.request_id),
                response_header(self.request_id),
            ),
            front_buf_position: 0,
            back_buf_position: 0,
            request_id,
            log_ctx: log_prefix(self.server_context, request_id, self.app_id),
            ..self
        }.then_do(EffectView::Reset(Side::Front)).then_do(EffectView::Reset(Side::Back))
    }

    /// The client's socket is readable.
    pub open spec fn on_readable(self, front: BufferState) -> (ReadinessView, Step) {
        let r = self.readiness;
        if self.status is DefaultAnswer {
            (
                r.want_front(ReadyKind::Writable).leave_back(ReadyKind::Readable).leave_back(
                    ReadyKind::Writable,
                ),
                Step::Done(ClientResult::Continue),
            )
        } else if front.available_space > 0 {
            (r, Step::Receive(Side::Front))
        } else if self.backend_token is None {
            (
                ReadinessView {
                    front_interest: Set::empty(),
                    back_interest: Set::empty(),
                    ..r
                },
                Step::Done(ClientResult::CloseClient),
            )
        } else {
            (
                r.leave_front(ReadyKind::Readable).want_back(ReadyKind::Writable),
                Step::Done(ClientResult::Continue),
            )
        }
    }

    /// Whether the parser is behind the position at which the next message starts.
    pub open spec fn is_behind(front: BufferState) -> bool {
        front.start_parsing_position > front.parsed_position
    }

    /// How many of the queued bytes lie before the next message.
    pub open spec fn bytes_to_skip(front: BufferState) -> usize {
        let behind = front.start_parsing_position - front.parsed_position;
        if front.input_data_size < behind {
            front.input_data_size
        } else {
            behind as usize
        }
    }

    /// A read from the client's socket has brought `size` bytes, which are in the buffer.
    pub open spec fn on_front_data(
        self,
        size: usize,
        result: SocketResult,
        front: BufferState,
    ) -> (ReadinessView, Step) {
        let r = self.readiness;
        let r = if front.available_space == 0 {
            r.leave_front(ReadyKind::Readable)
        } else {
            r
        };
        let r = if size == 0 || result is WouldBlock {
            r.block_front(ReadyKind::Readable)
        } else {
            r
        };
        if result is Error {
            (ReadinessView::none(), Step::Done(ClientResult::CloseClient))
        } else if !self.state.has_host {
            (r, Step::Parse(Side::Front))
        } else {
            let r = r.want_back(ReadyKind::Writable);
            match self.state.request {
                Some(RequestState::Request) | Some(RequestState::RequestWithBody) => (
                    if front.needs_input {
                        r
                    } else {
                        r.leave_front(ReadyKind::Readable)
                    },
                    Step::Done(ClientResult::Continue),
                ),
                Some(RequestState::RequestWithBodyChunks(Chunk::Ended)) => (
                    r.leave_front(ReadyKind::Readable),
                    Step::Done(ClientResult::Continue),
                ),
                Some(RequestState::RequestWithBodyChunks(Chunk::Error)) => (
                    ReadinessView::none(),
                    Step::Done(ClientResult::CloseClient),
                ),
                Some(RequestState::RequestWithBodyChunks(Chunk::Copying)) => (
                    r,
                    if front.needs_input {
                        Step::Done(ClientResult::Continue)
                    } else {
                        Step::Parse(Side::Front)
                    },
                ),
                _ => (r, Step::Parse(Side::Front)),
            }
        }
    }

    /// The parser has gone over the request and left the state `parsed`.
    pub open spec fn on_request_parsed(self, parsed: HttpStateView) -> (ReadinessView, Step) {
        let r = self.readiness;
        if !self.state.has_host {
            if parsed.front_error {
                (r.leave_front(ReadyKind::Readable), Step::Failed(ClientResult::CloseClient))
            } else if parsed.has_host {
                (r.want_back(ReadyKind::Writable), Step::Done(ClientResult::ConnectBackend))
            } else {
                (r, Step::Done(ClientResult::Continue))
            }
        } else if parsed.front_error {
            (ReadinessView::none(), Step::Failed(ClientResult::CloseClient))
        } else if self.state.request matches Some(RequestState::RequestWithBodyChunks(_)) {
            (
                if parsed.request == Some(RequestState::RequestWithBodyChunks(Chunk::Ended)) {
                    r.leave_front(ReadyKind::Readable)
                } else {
                    r
                },
                Step::Done(ClientResult::Continue),
            )
        } else {
            (
                if parsed.request == Some(RequestState::Request) {
                    r.leave_front(ReadyKind::Readable).want_back(ReadyKind::Writable)
                } else {
                    r.want_back(ReadyKind::Writable)
                },
                Step::Done(ClientResult::Continue),
            )
        }
    }

    /// The client's socket is writable.
    pub open spec fn on_writable(self, back: BufferState) -> (ReadinessView, Step) {
        let r = self.readiness;
        if back.output_data_size > 0 {
            (r, Step::Send(Side::Front))
        } else if self.status is DefaultAnswer {
            self.with_readiness(r.leave_front(ReadyKind::Writable)).on_front_sent(
                SocketResult::Continue,
                back,
            )
        } else {
            (
                r.want_back(ReadyKind::Readable).leave_front(ReadyKind::Writable),
                Step::Done(ClientResult::Continue),
            )
        }
    }

    /// A write to the client's socket has ended with `result`; `back` no longer counts what was
    /// written.
    pub open spec fn on_front_sent(
        self,
        result: SocketResult,
        back: BufferState,
    ) -> (ReadinessView, Step) {
        let r = self.readiness;
        if result is Continue && back.output_data_size > 0 {
            (r, Step::Send(Side::Front))
        } else if self.status is DefaultAnswer {
            if back.available_data == 0 || result is Error {
                (ReadinessView::none(), Step::Done(ClientResult::CloseClient))
            } else {
                (
                    if result is WouldBlock {
                        r.block_front(ReadyKind::Writable)
                    } else {
                        r
                    },
                    Step::Done(ClientResult::Continue),
                )
            }
        } else if result is Error {
            (ReadinessView::none(), Step::Done(ClientResult::CloseClient))
        } else {
            let r = if result is WouldBlock {
                r.block_front(ReadyKind::Writable)
            } else {
                r
            };
            if !back.can_restart_parsing {
                (r.want_back(ReadyKind::Readable), Step::Done(ClientResult::Continue))
            } else {
                match self.state.response {
                    Some(ResponseState::Response)
                    | Some(ResponseState::ResponseWithBody)
                    | Some(ResponseState::ResponseWithBodyChunks(Chunk::Ended)) => {
                        if self.state.front_keep_alive() {
                            (r, Step::Restart)
                        } else {
                            (ReadinessView::none(), Step::Done(ClientResult::CloseBothSuccess))
                        }
                    },
                    Some(ResponseState::ResponseWithBodyChunks(_)) => (
                        r.want_back(ReadyKind::Readable),
                        Step::Done(ClientResult::Continue),
                    ),
                    _ => (ReadinessView::none(), Step::Done(ClientResult::CloseBothFailure)),
                }
            }
        }
    }

    /// The exchange has ended and the client's connection is used again. The backend's is used
    /// again too if the response allows it, and closed otherwise.
    pub open spec fn restarted(
        self,
        ends: EndpointsView,
        request_id: Seq<char>,
    ) -> ClientView<Front, Back> {
        ClientView {
            phase: Phase::Idle,
            readiness: ReadinessView {
                front_interest: set![ReadyKind::Readable, ReadyKind::Hup, ReadyKind::Error],
                back_interest: if self.state.back_keep_alive() {
                    set![ReadyKind::Writable, ReadyKind::Hup, ReadyKind::Error]
                } else {
                    set![ReadyKind::Hup, ReadyKind::Error]
                },
                ..self.readiness
            },
            ..self.renewed(ends, request_id)
        }
    }

    /// The backend's socket is writable.
    pub open spec fn on_back_writable(self, front: BufferState) -> (ReadinessView, Step) {
        let r = self.readiness;
        if self.status is DefaultAnswer {
            (
                r.leave_back(ReadyKind::Writable).want_front(ReadyKind::Writable),
                Step::Done(ClientResult::Continue),
            )
        } else if front.output_data_size == 0 {
            (
                r.want_front(ReadyKind::Readable).leave_back(ReadyKind::Writable),
                Step::Done(ClientResult::Continue),
            )
        } else if self.backend is None {
            (ReadinessView::none(), Step::Done(ClientResult::CloseBothFailure))
        } else {
            (r, Step::Send(Side::Back))
        }
    }

    /// A write to the backend's socket has ended with `result`; `front` no longer counts what
    /// was written.
    pub open spec fn on_back_sent(
        self,
        result: SocketResult,
        front: BufferState,
    ) -> (ReadinessView, Step) {
        let r = self.readiness;
        if result is Error {
            (ReadinessView::none(), Step::Done(ClientResult::CloseBothFailure))
        } else if result is Continue && front.output_data_size > 0 {
            (r, Step::Send(Side::Back))
        } else {
            let r = if result is WouldBlock {
                r.block_back(ReadyKind::Writable)
            } else {
                r
            };
            if !front.can_restart_parsing {
                (
                    r.want_front(ReadyKind::Readable).want_back(ReadyKind::Writable),
                    Step::Done(ClientResult::Continue),
                )
            } else {
                match self.state.request {
                    Some(RequestState::Request)
                    | Some(RequestState::RequestWithBody)
                    | Some(RequestState::RequestWithBodyChunks(Chunk::Ended)) => (
                        r.leave_front(ReadyKind::Readable).want_back(
                            ReadyKind::Readable,
                        ).leave_back(ReadyKind::Writable),
                        Step::Done(ClientResult::Continue),
                    ),
                    Some(RequestState::RequestWithBodyChunks(_)) => (
                        r.want_front(ReadyKind::Readable),
                        Step::Done(ClientResult::Continue),
                    ),
                    _ => (ReadinessView::none(), Step::Done(ClientResult::CloseBothFailure)),
                }
            }
        }
    }

    /// The backend's socket is readable.
    pub open spec fn on_back_readable(self, back: BufferState) -> (ReadinessView, Step) {
        let r = self.readiness;
        if self.status is DefaultAnswer || back.available_space == 0 {
            (r.leave_back(ReadyKind::Readable), Step::Done(ClientResult::Continue))
        } else if self.backend is None {
            (ReadinessView::none(), Step::Done(ClientResult::CloseBothFailure))
        } else {
            (r, Step::Receive(Side::Back))
        }
    }

    /// A read from the backend's socket has brought `size` bytes, which are in the buffer.
    pub open spec fn on_back_data(
        self,
        size: usize,
        result: SocketResult,
        back: BufferState,
    ) -> (ReadinessView, Step) {
        let r = if !(result is Continue) || size == 0 {
            self.readiness.block_back(ReadyKind::Readable)
        } else {
            self.readiness
        };
        if result is Error {
            (ReadinessView::none(), Step::Done(ClientResult::CloseBothFailure))
        } else {
            match self.state.response {
                Some(ResponseState::Response)
                | Some(ResponseState::ResponseWithBodyChunks(Chunk::Ended)) => (
                    r.leave_back(ReadyKind::Readable),
                    Step::Done(ClientResult::Continue),
                ),
                Some(ResponseState::ResponseWithBody) => (
                    if back.needs_input {
                        r.want_front(ReadyKind::Writable)
                    } else {
                        r.want_front(ReadyKind::Writable).leave_back(ReadyKind::Readable)
                    },
                    Step::Done(ClientResult::Continue),
                ),
                Some(ResponseState::ResponseWithBodyChunks(Chunk::Error)) => (
                    ReadinessView::none(),
                    Step::Done(ClientResult::CloseClient),
                ),
                Some(ResponseState::ResponseWithBodyChunks(Chunk::Copying)) => (
                    r,
                    if back.needs_input {
                        Step::Done(ClientResult::Continue)
                    } else {
                        Step::Parse(Side::Back)
                    },
                ),
                _ => (r, Step::Parse(Side::Back)),
            }
        }
    }

    /// The parser has gone over the response and left the state `parsed`.
    pub open spec fn on_response_parsed(self, parsed: HttpStateView) -> (ReadinessView, Step) {
        let r = self.readiness;
        if parsed.back_error {
            (ReadinessView::none(), Step::Failed(ClientResult::CloseBothFailure))
        } else if self.state.response matches Some(ResponseState::ResponseWithBodyChunks(_)) {
            (
                if parsed.response == Some(ResponseState::ResponseWithBodyChunks(Chunk::Ended)) {
                    r.leave_back(ReadyKind::Readable)
                } else {
                    r.want_front(ReadyKind::Writable)
                },
                Step::Done(ClientResult::Continue),
            )
        } else {
            (
                if parsed.response == Some(ResponseState::Response) {
                    r.want_front(ReadyKind::Writable).leave_back(ReadyKind::Readable)
                } else {
                    r.want_front(ReadyKind::Writable)
                },
                Step::Done(ClientResult::Continue),
            )
        }
    }

    /// The phase in which the owner makes the move `step`.
    pub open spec fn phase_of(step: Step) -> Phase {
        match step {
            Step::Receive(Side::Front) => Phase::FrontRead,
            Step::Receive(Side::Back) => Phase::BackRead,
            Step::Send(Side::Front) => Phase::FrontWrite,
            Step::Send(Side::Back) => Phase::BackWrite,
            Step::Parse(Side::Front) => Phase::RequestParse,
            Step::Parse(Side::Back) => Phase::ResponseParse,
            Step::Restart => Phase::Restart,
            _ => Phase::Idle,
        }
    }

    /// The connection after a decision about its readiness and its next move.
    pub open spec fn moved(self, decision: (ReadinessView, Step)) -> (
        ClientView<Front, Back>,
        Step,
    ) {
        (
            ClientView {
                readiness: decision.0,
                phase: ClientView::<Front, Back>::phase_of(decision.1),
                ..self
            },
            decision.1,
        )
    }

    /// The connection when its owner is asked to look at the buffers.
    pub open spec fn looking(self, phase: Phase) -> (ClientView<Front, Back>, Step) {
        (ClientView { phase, ..self }, Step::Look)
    }

    /// The owner may come back with `input`: it is what the phase waits for, the counters can
    /// take it, and no data follows a response that could not be parsed.
    pub open spec fn accepts(self, input: InputView) -> bool {
        match (self.phase, input) {
            (Phase::FrontRead, InputView::Received { .. }) => true,
            (Phase::FrontQueue { .. }, InputView::Buffers { .. }) => true,
            (Phase::FrontSkip { .. }, InputView::Buffers { .. }) => true,
            (Phase::RequestParse, InputView::Parsed(_)) => true,
            (Phase::FrontWrite, InputView::Sent { size, .. }) => self.back_buf_position + size
                <= usize::MAX,
            (Phase::FrontWritten { .. }, InputView::Buffers { .. }) => true,
            (Phase::BackWrite, InputView::Sent { size, .. }) => self.front_buf_position + size
                <= usize::MAX,
            (Phase::BackWritten { .. }, InputView::Buffers { .. }) => true,
            (Phase::BackRead, InputView::Received { .. }) => true,
            (Phase::BackQueue { result, .. }, InputView::Buffers { .. }) => result is Error
                || self.state.response != Some(ResponseState::Error),
            (Phase::ResponseParse, InputView::Parsed(_)) => true,
            _ => false,
        }
    }

    /// The handling of an event goes on with what came of the last move.
    pub open spec fn resumed(self, input: InputView) -> (ClientView<Front, Back>, Step)
        recommends
            self.accepts(input),
    {
        match (self.phase, input) {
            (Phase::FrontRead, InputView::Received { size, result }) => {
                let queued = if size > 0 {
                    self.then_do(EffectView::Fill(Side::Front, size)).then_do(
                        EffectView::SliceInput(Side::Front, size),
                    )
                } else {
                    self
                };
                queued.looking(Phase::FrontQueue { size, result })
            },
            (Phase::FrontQueue { size, result }, InputView::Buffers { front, .. }) => {
                if size > 0 && ClientView::<Front, Back>::is_behind(front) {
                    self.then_do(
                        EffectView::ConsumeParsed(
                            Side::Front,
                            ClientView::<Front, Back>::bytes_to_skip(front),
                        ),
                    ).looking(Phase::FrontSkip { size, result })
                } else {
                    self.moved(self.on_front_data(size, result, front))
                }
            },
            (Phase::FrontSkip { size, result }, InputView::Buffers { front, .. }) => {
                self.moved(self.on_front_data(size, result, front))
            },
            (Phase::RequestParse, InputView::Parsed(state)) => {
                ClientView { state, ..self }.moved(self.on_request_parsed(state))
            },
            (Phase::FrontWrite, InputView::Sent { size, result }) => {
                ClientView {
                    back_buf_position: (self.back_buf_position + size) as usize,
                    ..self
                }.then_do(EffectView::ConsumeOutput(Side::Back, size)).looking(
                    Phase::FrontWritten { result },
                )
            },
            (Phase::FrontWritten { result }, InputView::Buffers { back, .. }) => {
                self.moved(self.on_front_sent(result, back))
            },
            (Phase::BackWrite, InputView::Sent { size, result }) => {
                ClientView {
                    front_buf_position: (self.front_buf_position + size) as usize,
                    ..self
                }.then_do(EffectView::ConsumeOutput(Side::Front, size)).looking(
                    Phase::BackWritten { result },
                )
            },
            (Phase::BackWritten { result }, InputView::Buffers { front, .. }) => {
                self.moved(self.on_back_sent(result, front))
            },
            (Phase::BackRead, InputView::Received { size, result }) => {
                self.then_do(EffectView::Fill(Side::Back, size)).then_do(
                    EffectView::SliceInput(Side::Back, size),
                ).looking(Phase::BackQueue { size, result })
            },
            (Phase::BackQueue { size, result }, InputView::Buffers { back, .. }) => {
                self.moved(self.on_back_data(size, result, back))
            },
            (Phase::ResponseParse, InputView::Parsed(state)) => {
                ClientView { state, ..self }.moved(self.on_response_parsed(state))
            },
            _ => (self, Step::Done(ClientResult::Continue)),
        }
    }
}

} // verus!
