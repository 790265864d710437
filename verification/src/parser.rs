//! What the parser has found out about the exchange on a connection.

use vstd::prelude::*;

verus! {

/// How far a chunked body has come. `Copying` stands for every unfinished chunk.
#[derive(Clone, Copy, Debug, PartialEq, Eq, Structural)]
pub enum Chunk {
    Copying,
    Ended,
    Error,
}

/// How far a request has come. `Parsing` stands for every incomplete head.
#[derive(Clone, Copy, Debug, PartialEq, Eq, Structural)]
pub enum RequestState {
    Parsing,
    Error,
    Request,
    RequestWithBody,
    RequestWithBodyChunks(Chunk),
}

/// How far a response has come. `Parsing` stands for every incomplete head.
#[derive(Clone, Copy, Debug, PartialEq, Eq, Structural)]
pub enum ResponseState {
    Parsing,
    Error,
    Response,
    ResponseWithBody,
    ResponseWithBodyChunks(Chunk),
}

/// The state of one exchange: what the parser reports, and the headers it is to add.
#[derive(Clone, Debug, PartialEq, Eq)]
pub struct HttpState {
    pub request: Option<RequestState>,
    pub response: Option<ResponseState>,
    /// Whether the request has named its host.
    pub has_host: bool,
    /// Whether the request could not be parsed.
    pub front_error: bool,
    /// Whether the response could not be parsed.
    pub back_error: bool,
    /// Whether the request, if there is one, asks to keep the connection.
    pub request_keep_alive: bool,
    /// Whether the response, if there is one, keeps the connection.
    pub response_keep_alive: bool,
    /// The value of the `Host` header.
    pub host: Option<String>,
    /// The URI of the request line.
    pub uri: Option<String>,
    pub added_req_header: String,
    pub added_res_header: String,
}

/// What an `HttpState` says.
#[verifier::ext_equal]
pub struct HttpStateView {
    pub request: Option<RequestState>,
    pub response: Option<ResponseState>,
    pub has_host: bool,
    pub front_error: bool,
    pub back_error: bool,
    pub request_keep_alive: bool,
    pub response_keep_alive: bool,
    pub host: Option<Seq<char>>,
    pub uri: Option<Seq<char>>,
    pub added_req_header: Seq<char>,
    pub added_res_header: Seq<char>,
}

/// The characters of a string that may be missing.
pub open spec fn optional_text(text: Option<String>) -> Option<Seq<char>> {
    match text {
        Some(text) => Some(text@),
        None => None,
    }
}

impl View for HttpState {
    type V = HttpStateView;

    open spec fn view(&self) -> HttpStateView {
        HttpStateView {
            request: self.request,
            response: self.response,
            has_host: self.has_host,
            front_error: self.front_error,
            back_error: self.back_error,
            request_keep_alive: self.request_keep_alive,
            response_keep_alive: self.response_keep_alive,
            host: optional_text(self.host),
            uri: optional_text(self.uri),
            added_req_header: self.added_req_header@,
            added_res_header: self.added_res_header@,
        }
    }
}

impl HttpStateView {
    /// The state before the first byte of an exchange, with the headers that are to be added.
    pub open spec fn initial(req_header: Seq<char>, res_header: Seq<char>) -> HttpStateView {
        HttpStateView {
            request: Some(RequestState::Parsing),
            response: Some(ResponseState::Parsing),
            has_host: false,
            front_error: false,
            back_error: false,
            request_keep_alive: false,
            response_keep_alive: false,
            host: None,
            uri: None,
            added_req_header: req_header,
            added_res_header: res_header,
        }
    }

    /// The whole request has been parsed.
    pub open spec fn request_is_complete(self) -> bool {
        match self.request {
            Some(RequestState::Request) => true,
            Some(RequestState::RequestWithBody) => true,
            Some(RequestState::RequestWithBodyChunks(chunk)) => chunk is Ended,
            _ => false,
        }
    }

    /// The whole response has been parsed.
    pub open spec fn response_is_complete(self) -> bool {
        match self.response {
            Some(ResponseState::Response) => true,
            Some(ResponseState::ResponseWithBody) => true,
            Some(ResponseState::ResponseWithBodyChunks(chunk)) => chunk is Ended,
            _ => false,
        }
    }

    /// The client's side of the connection outlives the exchange.
    pub open spec fn front_keep_alive(self) -> bool {
        self.request is Some && self.request_keep_alive
    }

    /// The backend's side of the connection outlives the exchange.
    pub open spec fn back_keep_alive(self) -> bool {
        self.response is Some && self.response_keep_alive
    }
}

impl HttpState {
    /// The state before the first byte of an exchange.
    pub fn new() -> (state: HttpState)
        ensures
            state@ == HttpStateView::initial(Seq::empty(), Seq::empty()),
    {
        HttpState {
            request: Some(RequestState::Parsing),
            response: Some(ResponseState::Parsing),
            has_host: false,
            front_error: false,
            back_error: false,
            request_keep_alive: false,
            response_keep_alive: false,
            host: None,
            uri: None,
            added_req_header: String::new(),
            added_res_header: String::new(),
        }
    }

    /// Goes back to the state before the first byte.
    pub fn reset(&mut self)
        ensures
            final(self)@ == HttpStateView::initial(Seq::empty(), Seq::empty()),
    {
        *self = HttpState::new();
    }

    /// Whether the client's side of the connection outlives the exchange.
    pub fn front_keep_alive(&self) -> (keep: bool)
        ensures
            keep == self@.front_keep_alive(),
    {
        self.request.is_some() && self.request_keep_alive
    }

    /// Whether the backend's side of the connection outlives the exchange.
    pub fn back_keep_alive(&self) -> (keep: bool)
        ensures
            keep == self@.back_keep_alive(),
    {
        self.response.is_some() && self.response_keep_alive
    }
}

/// What the parser makes of a `Host` header.
#[derive(Clone, Debug, PartialEq, Eq)]
pub enum Authority {
    /// It begins with no host name.
    Invalid,
    /// A host name, the digits of the port if there is one, and what follows them.
    Parsed { hostname: String, port: Option<Vec<u8>>, rest: Vec<u8> },
}

/// What an `Authority` says.
pub enum AuthorityView {
    Invalid,
    Parsed { hostname: Seq<char>, port: Option<Seq<u8>>, rest: Seq<u8> },
}

impl View for Authority {
    type V = AuthorityView;

    open spec fn view(&self) -> AuthorityView {
        match self {
            Authority::Invalid => AuthorityView::Invalid,
            Authority::Parsed { hostname, port, rest } => AuthorityView::Parsed {
                hostname: hostname@,
                port: match port {
                    Some(port) => Some(port@),
                    None => None,
                },
                rest: rest@,
            },
        }
    }
}

} // verus!
