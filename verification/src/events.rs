//! What happens on a connection, and what is to be done next.

use vstd::prelude::*;

use crate::parser::{HttpState, HttpStateView};

verus! {

/// What the owner of a connection does once an event is handled.
#[derive(Clone, Copy, Debug, PartialEq, Eq, Structural)]
pub enum ClientResult {
    /// Wait for the next event.
    Continue,
    /// Close the connection to the client.
    CloseClient,
    /// Close the connection to the backend and keep the one to the client.
    CloseBackend,
    /// Close both connections after a complete exchange.
    CloseBothSuccess,
    /// Close both connections after an error.
    CloseBothFailure,
    /// Find a backend for the request.
    ConnectBackend,
}

/// How a read from or a write to a socket ended.
#[derive(Clone, Copy, Debug, PartialEq, Eq, Structural)]
pub enum SocketResult {
    Continue,
    WouldBlock,
    Error,
}

/// The two sides of a connection. Each has a socket and a buffer for what comes from it.
#[derive(Clone, Copy, Debug, PartialEq, Eq, Structural)]
pub enum Side {
    /// The client.
    Front,
    /// The backend.
    Back,
}

/// The next move of the owner of a connection while an event is handled. The effects that have
/// gathered are carried out before it.
#[derive(Clone, Copy, Debug, PartialEq, Eq, Structural)]
pub enum Step {
    /// The event is handled.
    Done(ClientResult),
    /// The event is handled; a message could not be parsed, and the time since the start of the
    /// connection counts as a failure.
    Failed(ClientResult),
    /// Read from the socket of that side into the free space of its buffer.
    Receive(Side),
    /// Write to the socket of that side the next output of the other side's buffer.
    Send(Side),
    /// Look at the buffers.
    Look,
    /// Run the parser over the buffer of that side.
    Parse(Side),
    /// The exchange has ended and the client's connection stays: start over.
    Restart,
}

/// What a buffer queue reports about itself.
#[derive(Clone, Copy, Debug, PartialEq, Eq, Structural)]
pub struct BufferState {
    /// The bytes that the buffer can still take.
    pub available_space: usize,
    /// The bytes that the buffer holds.
    pub available_data: usize,
    /// The bytes that wait to be parsed.
    pub input_data_size: usize,
    /// The bytes that wait to be written.
    pub output_data_size: usize,
    /// The stream position up to which data has been parsed.
    pub parsed_position: usize,
    /// The stream position at which parsing starts again.
    pub start_parsing_position: usize,
    /// Whether the current message still lacks data.
    pub needs_input: bool,
    /// Whether everything before the next message has been written.
    pub can_restart_parsing: bool,
    /// Whether the queue holds no data at all.
    pub empty: bool,
}

/// What came of the last move.
#[derive(Clone, Debug, PartialEq, Eq)]
pub enum Input {
    /// A read brought `size` bytes.
    Received { size: usize, result: SocketResult },
    /// A write took `size` bytes.
    Sent { size: usize, result: SocketResult },
    /// The buffers as they are now.
    Buffers { front: BufferState, back: BufferState },
    /// The parser left this state.
    Parsed(HttpState),
}

/// What came of a move, in the model.
pub enum InputView {
    Received { size: usize, result: SocketResult },
    Sent { size: usize, result: SocketResult },
    Buffers { front: BufferState, back: BufferState },
    Parsed(HttpStateView),
}

impl View for Input {
    type V = InputView;

    open spec fn view(&self) -> InputView {
        match self {
            Input::Received { size, result } => InputView::Received {
                size: *size,
                result: *result,
            },
            Input::Sent { size, result } => InputView::Sent { size: *size, result: *result },
            Input::Buffers { front, back } => InputView::Buffers { front: *front, back: *back },
            Input::Parsed(state) => InputView::Parsed(state@),
        }
    }
}

/// Where the handling of an event stands: what its owner is doing for it.
#[derive(Clone, Copy, Debug, PartialEq, Eq, Structural)]
pub enum Phase {
    /// No event is being handled.
    Idle,
    /// Reading from the client.
    FrontRead,
    /// Looking at the buffers after a read from the client.
    FrontQueue { size: usize, result: SocketResult },
    /// Looking at them again, after bytes were skipped.
    FrontSkip { size: usize, result: SocketResult },
    /// Parsing the request.
    RequestParse,
    /// Writing to the client.
    FrontWrite,
    /// Looking at the buffers after a write to the client.
    FrontWritten { result: SocketResult },
    /// Starting over on the client's connection.
    Restart,
    /// Writing to the backend.
    BackWrite,
    /// Looking at the buffers after a write to the backend.
    BackWritten { result: SocketResult },
    /// Reading from the backend.
    BackRead,
    /// Looking at the buffers after a read from the backend.
    BackQueue { size: usize, result: SocketResult },
    /// Parsing the response.
    ResponseParse,
}

/// Work on the buffers and on the backend socket that a connection hands to its owner, who
/// carries it out in order.
#[derive(Clone, Debug, PartialEq, Eq)]
pub enum Effect {
    /// Count that many bytes as read into the buffer.
    Fill(Side, usize),
    /// Queue that many bytes of the buffer as input for the parser.
    SliceInput(Side, usize),
    /// Take that many bytes of input as parsed.
    ConsumeParsed(Side, usize),
    /// Take that many bytes of output as written.
    ConsumeOutput(Side, usize),
    /// Empty the buffer.
    Reset(Side),
    /// Put these bytes into the buffer as output.
    Write(Side, Vec<u8>),
    /// Take the backend socket out of the event loop and shut it down.
    ShutdownBackend,
}

/// An effect, in the model.
pub enum EffectView {
    Fill(Side, usize),
    SliceInput(Side, usize),
    ConsumeParsed(Side, usize),
    ConsumeOutput(Side, usize),
    Reset(Side),
    Write(Side, Seq<u8>),
    ShutdownBackend,
}

impl View for Effect {
    type V = EffectView;

    open spec fn view(&self) -> EffectView {
        match self {
            Effect::Fill(side, n) => EffectView::Fill(*side, *n),
            Effect::SliceInput(side, n) => EffectView::SliceInput(*side, *n),
            Effect::ConsumeParsed(side, n) => EffectView::ConsumeParsed(*side, *n),
            Effect::ConsumeOutput(side, n) => EffectView::ConsumeOutput(*side, *n),
            Effect::Reset(side) => EffectView::Reset(*side),
            Effect::Write(side, bytes) => EffectView::Write(*side, bytes@),
            Effect::ShutdownBackend => EffectView::ShutdownBackend,
        }
    }
}

/// The effects of a list, in the model.
pub open spec fn effect_views(effects: Seq<Effect>) -> Seq<EffectView> {
    effects.map_values(|effect: Effect| effect@)
}

} // verus!
