use http_proxy::address::{Endpoints, IpText, SocketAddr};
use http_proxy::client::Client;
use http_proxy::client_view::ClientStatus;
use http_proxy::events::{BufferState, ClientResult, Effect, Input, Side, SocketResult, Step};
use http_proxy::parser::{Chunk, HttpState, RequestState, ResponseState};
use http_proxy::ready::{Readiness, ReadyKind};
use mio::{Ready, Token};

fn no_ends() -> Endpoints {
    Endpoints { peer: None, local: None }
}

fn client() -> Client<u8, u8> {
    let mut client = Client::with_request_id("HTTP", 1, &no_ends(), "first".to_owned(), 1000);
    client.set_tokens(Token(3), Token(4));
    client.set_back_socket(2);
    client
}

/// An empty buffer.
fn buffer() -> BufferState {
    BufferState {
        available_space: 100,
        available_data: 0,
        input_data_size: 0,
        output_data_size: 0,
        parsed_position: 0,
        start_parsing_position: 0,
        needs_input: true,
        can_restart_parsing: false,
        empty: true,
    }
}

fn full() -> BufferState {
    BufferState { available_space: 0, available_data: 100, empty: false, ..buffer() }
}

fn output(size: usize) -> BufferState {
    BufferState { output_data_size: size, available_data: size, empty: size == 0, ..buffer() }
}

fn restartable() -> BufferState {
    BufferState { can_restart_parsing: true, ..buffer() }
}

fn satisfied() -> BufferState {
    BufferState { needs_input: false, ..buffer() }
}

fn request(request: RequestState) -> HttpState {
    let mut state = HttpState::new();
    state.has_host = true;
    state.request = Some(request);
    state
}

fn response(response: ResponseState) -> HttpState {
    let mut state = request(RequestState::Request);
    state.response = Some(response);
    state
}

fn received(size: usize, result: SocketResult) -> Input {
    Input::Received { size, result }
}

fn sent(size: usize, result: SocketResult) -> Input {
    Input::Sent { size, result }
}

fn buffers(front: BufferState, back: BufferState) -> Input {
    Input::Buffers { front, back }
}

/// Every event has come and is waited for.
fn everything() -> Ready {
    Ready::readable() | Ready::writable() | Ready::hup() | Ready::error()
}

fn busy(client: &mut Client<u8, u8>) {
    *client.readiness() = Readiness {
        front_interest: everything(),
        back_interest: everything(),
        front_readiness: everything(),
        back_readiness: everything(),
    };
}

fn without(kind: Ready) -> Ready {
    let mut ready = everything();
    ready.remove(kind);
    ready
}

fn waits_for_nothing(client: &mut Client<u8, u8>) -> bool {
    *client.readiness() == Readiness::new()
}

/// Lets bytes come from the client, up to the decision about them.
fn read_front(client: &mut Client<u8, u8>, size: usize, result: SocketResult, front: BufferState) -> Step {
    assert_eq!(client.readable(buffer(), buffer()), Step::Receive(Side::Front));
    assert_eq!(client.resume(received(size, result)), Step::Look);
    client.take_effects();
    client.resume(buffers(front, buffer()))
}

/// Lets bytes come from the backend, up to the decision about them.
fn read_back(client: &mut Client<u8, u8>, size: usize, result: SocketResult, back: BufferState) -> Step {
    assert_eq!(client.back_readable(buffer(), buffer()), Step::Receive(Side::Back));
    assert_eq!(client.resume(received(size, result)), Step::Look);
    assert_eq!(
        client.take_effects(),
        vec![Effect::Fill(Side::Back, size), Effect::SliceInput(Side::Back, size)]
    );
    client.resume(buffers(buffer(), back))
}

/// Writes bytes to the client, up to the decision about what follows.
fn write_front(client: &mut Client<u8, u8>, size: usize, result: SocketResult, back: BufferState) -> Step {
    assert_eq!(client.writable(buffer(), output(size + 1)), Step::Send(Side::Front));
    assert_eq!(client.resume(sent(size, result)), Step::Look);
    assert_eq!(client.take_effects(), vec![Effect::ConsumeOutput(Side::Back, size)]);
    client.resume(buffers(buffer(), back))
}

/// Writes bytes to the backend, up to the decision about what follows.
fn write_back(client: &mut Client<u8, u8>, size: usize, result: SocketResult, front: BufferState) -> Step {
    assert_eq!(client.back_writable(output(size + 1), buffer()), Step::Send(Side::Back));
    assert_eq!(client.resume(sent(size, result)), Step::Look);
    assert_eq!(client.take_effects(), vec![Effect::ConsumeOutput(Side::Front, size)]);
    client.resume(buffers(front, buffer()))
}

#[test]
fn a_new_client_has_a_random_name_and_a_start() {
    let ends = Endpoints { peer: Some(IpText::V4("1.2.3.4".to_owned())), local: Some(IpText::V6("::1".to_owned())) };
    let mut one: Client<u8, u8> = Client::new("HTTP", 9, &ends).unwrap();
    let two: Client<u8, u8> = Client::new("HTTP", 9, &ends).unwrap();
    assert_ne!(one.request_id(), two.request_id());
    assert!(one.start() > 0);
    let id: Vec<char> = one.request_id().chars().collect();
    assert_eq!(id.len(), 36);
    for (i, c) in id.iter().enumerate() {
        if [8, 13, 18, 23].contains(&i) {
            assert_eq!(*c, '-');
        } else {
            assert!(c.is_ascii_digit() || ('a'..='f').contains(c));
        }
    }
    assert_eq!(id[14], '4');
    assert!(['8', '9', 'a', 'b'].contains(&id[19]));
    let name = one.request_id().clone();
    assert_eq!(
        one.state().added_req_header,
        format!("Forwarded: for=1.2.3.4;by=\"::1\"\r\nRequest-id: {}\r\n", name)
    );
    assert_eq!(one.state().added_res_header, format!("Request-id: {}\r\n", name));
    assert_eq!(one.log_ctx(), &format!("HTTP\t{}\tunknown\t", name));
    assert_eq!(one.status(), ClientStatus::Normal);
    assert!(waits_for_nothing(&mut one));
    assert_eq!(one.take_effects(), vec![]);
}

#[test]
fn added_headers_for_every_kind_of_address() {
    let client = client();
    let v4 = |text: &str| Some(IpText::V4(text.to_owned()));
    let v6 = |text: &str| Some(IpText::V6(text.to_owned()));
    let header = |peer, local| client.added_request_header(&Endpoints { peer, local });
    assert_eq!(header(v4("1.1.1.1"), v4("2.2.2.2")), "Forwarded: for=1.1.1.1;by=2.2.2.2\r\nRequest-id: first\r\n");
    assert_eq!(header(v4("1.1.1.1"), v6("::2")), "Forwarded: for=1.1.1.1;by=\"::2\"\r\nRequest-id: first\r\n");
    assert_eq!(header(v6("::1"), v4("2.2.2.2")), "Forwarded: for=\"::1\";by=2.2.2.2\r\nRequest-id: first\r\n");
    assert_eq!(header(v6("::1"), v6("::2")), "Forwarded: for=\"::1\";by=\"::2\"\r\nRequest-id: first\r\n");
    assert_eq!(header(None, v4("2.2.2.2")), "Request-id: first\r\n");
    assert_eq!(header(v4("1.1.1.1"), None), "Request-id: first\r\n");
    assert_eq!(client.added_response_header(), "Request-id: first\r\n");
}

#[test]
fn the_application_shows_in_the_log_prefix() {
    let mut client = client();
    assert_eq!(client.log_context(), "HTTP\tfirst\tunknown\t");
    client.set_app_id("app_1");
    assert_eq!(client.app_id, Some("app_1".to_owned()));
    assert_eq!(client.log_ctx(), "HTTP\tfirst\tapp_1\t");
    assert_eq!(client.log_context(), "HTTP\tfirst\tapp_1\t");
}

#[test]
fn readiness_is_a_set_of_events() {
    let mut readiness = Readiness::new();
    readiness.want_front(ReadyKind::Readable);
    readiness.want_front(ReadyKind::Hup);
    readiness.want_back(ReadyKind::Writable);
    readiness.want_back(ReadyKind::Error);
    assert_eq!(readiness.front_interest, Ready::readable() | Ready::hup());
    assert_eq!(readiness.back_interest, Ready::writable() | Ready::error());
    readiness.leave_front(ReadyKind::Readable);
    readiness.leave_back(ReadyKind::Readable);
    assert_eq!(readiness.front_interest, Ready::hup());
    assert_eq!(readiness.back_interest, Ready::writable() | Ready::error());
    readiness.front_readiness = everything();
    readiness.back_readiness = everything();
    readiness.block_front(ReadyKind::Writable);
    readiness.block_back(ReadyKind::Readable);
    assert_eq!(readiness.front_readiness, without(Ready::writable()));
    assert_eq!(readiness.back_readiness, without(Ready::readable()));
    readiness.reset();
    assert_eq!(readiness, Readiness::new());
}

#[test]
fn tokens_sockets_and_timers() {
    let mut client: Client<u8, u8> = Client::with_request_id("HTTP", 1, &no_ends(), "first".to_owned(), 1000);
    assert_eq!(client.tokens(), None);
    assert_eq!(client.front_hup(), ClientResult::CloseClient);
    assert_eq!(client.back_hup(), ClientResult::CloseClient);
    client.set_front_token(Token(3));
    assert_eq!(client.tokens(), None);
    assert_eq!(client.front_hup(), ClientResult::CloseClient);
    assert_eq!(client.back_hup(), ClientResult::Continue);
    client.set_back_token(Token(4));
    assert_eq!(client.tokens(), Some((Token(3), Token(4))));
    assert_eq!(client.front_hup(), ClientResult::Continue);
    assert_eq!(client.front_token(), Some(Token(3)));
    assert_eq!(client.back_token(), Some(Token(4)));
    client.set_tokens(Token(5), Token(6));
    assert_eq!(client.tokens(), Some((Token(5), Token(6))));

    assert_eq!(client.front_socket(), &1);
    assert_eq!(client.back_socket(), None);
    assert_eq!(client.back_socket_mut(), None);
    client.set_back_socket(7);
    *client.back_socket_mut().unwrap() = 8;
    assert_eq!(client.back_socket(), Some(&8));
    client.close();
    assert_eq!(client.back_socket(), Some(&8));

    let mut timer = mio::timer::Builder::default().build::<u8>();
    let timeout = timer.set_timeout(std::time::Duration::from_secs(60), 1).unwrap();
    assert!(client.front_timeout().is_none());
    client.set_front_timeout(timeout.clone());
    client.set_back_timeout(timeout.clone());
    assert_eq!(format!("{:?}", client.front_timeout().unwrap()), format!("{:?}", timeout));
    assert!(client.front_timeout().is_none());
    assert_eq!(format!("{:?}", client.back_timeout().unwrap()), format!("{:?}", timeout));
    assert!(client.back_timeout().is_none());
}

#[test]
fn removing_a_backend_names_it() {
    let address = SocketAddr::V4 { ip: 1, port: 2 };
    let mut client = client();
    client.set_app_id("app");
    assert_eq!(client.remove_backend(Some(address)), (Some("app".to_owned()), Some(address)));
    assert_eq!(client.back_socket(), None);
    assert_eq!(client.back_token(), None);
    assert_eq!(client.front_token(), Some(Token(3)));
    assert_eq!(client.remove_backend(Some(address)), (Some("app".to_owned()), None));
}

#[test]
fn the_time_to_a_failure_is_in_microseconds() {
    let client = client();
    assert_eq!(client.start(), 1000);
    assert_eq!(client.failure_time(1000), 0);
    assert_eq!(client.failure_time(1_501_999), 1500);
}

#[test]
fn a_request_is_received_and_parsed() {
    let mut client = client();
    busy(&mut client);
    assert_eq!(client.readable(buffer(), buffer()), Step::Receive(Side::Front));
    assert!(!client.can_resume(&sent(3, SocketResult::Continue)));
    assert!(client.can_resume(&received(3, SocketResult::Continue)));
    assert_eq!(client.resume(received(3, SocketResult::Continue)), Step::Look);
    assert_eq!(
        client.take_effects(),
        vec![Effect::Fill(Side::Front, 3), Effect::SliceInput(Side::Front, 3)]
    );
    assert_eq!(client.resume(buffers(buffer(), buffer())), Step::Parse(Side::Front));
    assert_eq!(client.take_effects(), vec![]);
    assert_eq!(
        client.resume(Input::Parsed(HttpState::new())),
        Step::Done(ClientResult::Continue)
    );
    assert_eq!(read_front(&mut client, 5, SocketResult::Continue, buffer()), Step::Parse(Side::Front));
    client.readiness().back_interest = Ready::empty();
    assert_eq!(
        client.resume(Input::Parsed(request(RequestState::Parsing))),
        Step::Done(ClientResult::ConnectBackend)
    );
    assert_eq!(client.readiness().back_interest, Ready::writable());
    assert!(client.state().has_host);
}

#[test]
fn nothing_received_is_nothing_queued() {
    let mut client = client();
    busy(&mut client);
    let behind = BufferState { start_parsing_position: 9, parsed_position: 2, input_data_size: 3, ..full() };
    assert_eq!(client.readable(buffer(), buffer()), Step::Receive(Side::Front));
    assert_eq!(client.resume(received(0, SocketResult::Continue)), Step::Look);
    assert_eq!(client.take_effects(), vec![]);
    assert_eq!(client.resume(buffers(behind, buffer())), Step::Parse(Side::Front));
    assert_eq!(client.take_effects(), vec![]);
    assert_eq!(client.readiness().front_readiness, without(Ready::readable()));
    assert_eq!(client.readiness().front_interest, without(Ready::readable()));
}

#[test]
fn bytes_before_the_next_message_are_skipped() {
    let skipped = |front: BufferState| {
        let mut client = client();
        assert_eq!(read_front(&mut client, 5, SocketResult::Continue, front), Step::Look);
        let effects = client.take_effects();
        assert_eq!(client.resume(buffers(front, buffer())), Step::Parse(Side::Front));
        assert_eq!(client.take_effects(), vec![]);
        effects
    };
    let behind = |start, input| BufferState {
        start_parsing_position: start,
        parsed_position: 10,
        input_data_size: input,
        ..buffer()
    };
    assert_eq!(skipped(behind(14, 5)), vec![Effect::ConsumeParsed(Side::Front, 4)]);
    assert_eq!(skipped(behind(15, 5)), vec![Effect::ConsumeParsed(Side::Front, 5)]);
    assert_eq!(skipped(behind(40, 5)), vec![Effect::ConsumeParsed(Side::Front, 5)]);
    let mut client = client();
    assert_eq!(read_front(&mut client, 5, SocketResult::Continue, behind(10, 5)), Step::Parse(Side::Front));
}

#[test]
fn a_full_front_buffer_stops_reading() {
    let mut connected = client();
    busy(&mut connected);
    assert_eq!(connected.readable(full(), buffer()), Step::Done(ClientResult::Continue));
    assert_eq!(connected.readiness().front_interest, without(Ready::readable()));
    assert_eq!(connected.readiness().back_interest, everything());

    let mut alone: Client<u8, u8> = Client::with_request_id("HTTP", 1, &no_ends(), "first".to_owned(), 0);
    busy(&mut alone);
    assert_eq!(alone.readable(full(), buffer()), Step::Done(ClientResult::CloseClient));
    assert_eq!(alone.readiness().front_interest, Ready::empty());
    assert_eq!(alone.readiness().back_interest, Ready::empty());
    assert_eq!(alone.readiness().front_readiness, everything());
}

#[test]
fn errors_on_the_client_socket_close_it() {
    let mut reading = client();
    busy(&mut reading);
    let step = read_front(&mut reading, 2, SocketResult::Error, buffer());
    assert_eq!(step, Step::Done(ClientResult::CloseClient));
    assert!(waits_for_nothing(&mut reading));

    let mut writing = client();
    busy(&mut writing);
    let step = write_front(&mut writing, 2, SocketResult::Error, output(1));
    assert_eq!(step, Step::Done(ClientResult::CloseClient));
    assert!(waits_for_nothing(&mut writing));
}

#[test]
fn a_client_socket_that_would_block_is_left_alone() {
    let mut client = client();
    busy(&mut client);
    assert_eq!(read_front(&mut client, 2, SocketResult::WouldBlock, buffer()), Step::Parse(Side::Front));
    assert_eq!(client.readiness().front_readiness, without(Ready::readable()));
    assert_eq!(client.readiness().front_interest, everything());
}

#[test]
fn a_bad_request_closes_the_client() {
    let bad = || {
        let mut state = HttpState::new();
        state.front_error = true;
        state.request = Some(RequestState::Error);
        state
    };
    let mut early = client();
    busy(&mut early);
    assert_eq!(read_front(&mut early, 2, SocketResult::Continue, buffer()), Step::Parse(Side::Front));
    assert_eq!(early.resume(Input::Parsed(bad())), Step::Failed(ClientResult::CloseClient));
    assert_eq!(early.readiness().front_interest, without(Ready::readable()));
    assert_eq!(early.readiness().back_interest, everything());

    for state in [request(RequestState::Parsing), request(RequestState::RequestWithBodyChunks(Chunk::Copying))] {
        let mut late = client();
        late.set_state(state);
        busy(&mut late);
        assert_eq!(read_front(&mut late, 2, SocketResult::Continue, satisfied()), Step::Parse(Side::Front));
        assert_eq!(late.resume(Input::Parsed(bad())), Step::Failed(ClientResult::CloseClient));
        assert!(waits_for_nothing(&mut late));
    }
}

#[test]
fn a_complete_request_head_stops_reading() {
    for state in [RequestState::Request, RequestState::RequestWithBody] {
        let mut client = client();
        client.set_state(request(state));
        busy(&mut client);
        client.readiness().back_interest = Ready::empty();
        let step = read_front(&mut client, 2, SocketResult::Continue, buffer());
        assert_eq!(step, Step::Done(ClientResult::Continue));
        assert_eq!(client.readiness().front_interest, everything());
        assert_eq!(client.readiness().back_interest, Ready::writable());
        let step = read_front(&mut client, 2, SocketResult::Continue, satisfied());
        assert_eq!(step, Step::Done(ClientResult::Continue));
        assert_eq!(client.readiness().front_interest, without(Ready::readable()));
    }
}

#[test]
fn chunks_of_a_request() {
    let chunk = |chunk| request(RequestState::RequestWithBodyChunks(chunk));
    let mut ended = client();
    ended.set_state(chunk(Chunk::Ended));
    busy(&mut ended);
    assert_eq!(read_front(&mut ended, 2, SocketResult::Continue, buffer()), Step::Done(ClientResult::Continue));
    assert_eq!(ended.readiness().front_interest, without(Ready::readable()));

    let mut failed = client();
    failed.set_state(chunk(Chunk::Error));
    busy(&mut failed);
    assert_eq!(read_front(&mut failed, 2, SocketResult::Continue, buffer()), Step::Done(ClientResult::CloseClient));
    assert!(waits_for_nothing(&mut failed));

    let mut copying = client();
    copying.set_state(chunk(Chunk::Copying));
    busy(&mut copying);
    assert_eq!(read_front(&mut copying, 2, SocketResult::Continue, buffer()), Step::Done(ClientResult::Continue));
    assert_eq!(read_front(&mut copying, 2, SocketResult::Continue, satisfied()), Step::Parse(Side::Front));
    assert_eq!(copying.resume(Input::Parsed(chunk(Chunk::Copying))), Step::Done(ClientResult::Continue));
    assert_eq!(copying.readiness().front_interest, everything());
    assert_eq!(read_front(&mut copying, 2, SocketResult::Continue, satisfied()), Step::Parse(Side::Front));
    assert_eq!(copying.resume(Input::Parsed(chunk(Chunk::Ended))), Step::Done(ClientResult::Continue));
    assert_eq!(copying.readiness().front_interest, without(Ready::readable()));
}

#[test]
fn the_rest_of_a_head_after_the_host() {
    let mut client = client();
    client.set_state(request(RequestState::Parsing));
    busy(&mut client);
    client.readiness().back_interest = Ready::empty();
    assert_eq!(read_front(&mut client, 2, SocketResult::Continue, buffer()), Step::Parse(Side::Front));
    let step = client.resume(Input::Parsed(request(RequestState::RequestWithBody)));
    assert_eq!(step, Step::Done(ClientResult::Continue));
    assert_eq!(client.readiness().front_interest, everything());
    assert_eq!(client.readiness().back_interest, Ready::writable());

    client.set_state(request(RequestState::Parsing));
    assert_eq!(read_front(&mut client, 2, SocketResult::Continue, buffer()), Step::Parse(Side::Front));
    let step = client.resume(Input::Parsed(request(RequestState::Request)));
    assert_eq!(step, Step::Done(ClientResult::Continue));
    assert_eq!(client.readiness().front_interest, without(Ready::readable()));
}

#[test]
fn a_request_is_forwarded_to_the_backend() {
    for state in [
        RequestState::Request,
        RequestState::RequestWithBody,
        RequestState::RequestWithBodyChunks(Chunk::Ended),
    ] {
        let mut client = client();
        client.set_state(request(state));
        busy(&mut client);
        client.readiness().back_interest = Ready::writable();
        assert_eq!(write_back(&mut client, 4, SocketResult::Continue, output(6)), Step::Send(Side::Back));
        assert_eq!(client.resume(sent(6, SocketResult::Continue)), Step::Look);
        assert_eq!(client.take_effects(), vec![Effect::ConsumeOutput(Side::Front, 6)]);
        assert_eq!(client.front_buf_position(), 10);
        assert_eq!(client.back_buf_position(), 0);
        let step = client.resume(buffers(restartable(), buffer()));
        assert_eq!(step, Step::Done(ClientResult::Continue));
        assert_eq!(client.readiness().front_interest, without(Ready::readable()));
        assert_eq!(client.readiness().back_interest, Ready::readable());
    }
}

#[test]
fn a_request_that_is_not_written_to_the_end() {
    let mut partial = client();
    partial.set_state(request(RequestState::Request));
    busy(&mut partial);
    partial.readiness().front_interest = Ready::empty();
    partial.readiness().back_interest = Ready::empty();
    let step = write_back(&mut partial, 4, SocketResult::WouldBlock, output(2));
    assert_eq!(step, Step::Done(ClientResult::Continue));
    assert_eq!(partial.readiness().back_readiness, without(Ready::writable()));
    assert_eq!(partial.readiness().front_interest, Ready::readable());
    assert_eq!(partial.readiness().back_interest, Ready::writable());

    let mut chunked = client();
    chunked.set_state(request(RequestState::RequestWithBodyChunks(Chunk::Copying)));
    let step = write_back(&mut chunked, 4, SocketResult::Continue, restartable());
    assert_eq!(step, Step::Done(ClientResult::Continue));
    assert_eq!(chunked.readiness().front_interest, Ready::readable());
    assert_eq!(chunked.readiness().back_interest, Ready::empty());
}

#[test]
fn writing_to_the_backend_fails() {
    let mut error = client();
    busy(&mut error);
    let step = write_back(&mut error, 4, SocketResult::Error, output(2));
    assert_eq!(step, Step::Done(ClientResult::CloseBothFailure));
    assert!(waits_for_nothing(&mut error));

    let mut unparsed = client();
    busy(&mut unparsed);
    let step = write_back(&mut unparsed, 4, SocketResult::Continue, restartable());
    assert_eq!(step, Step::Done(ClientResult::CloseBothFailure));
    assert!(waits_for_nothing(&mut unparsed));

    let mut alone: Client<u8, u8> = Client::with_request_id("HTTP", 1, &no_ends(), "first".to_owned(), 0);
    busy(&mut alone);
    assert_eq!(alone.back_writable(output(3), buffer()), Step::Done(ClientResult::CloseBothFailure));
    assert!(waits_for_nothing(&mut alone));
    busy(&mut alone);
    assert_eq!(alone.back_readable(buffer(), buffer()), Step::Done(ClientResult::CloseBothFailure));
    assert!(waits_for_nothing(&mut alone));
}

#[test]
fn nothing_to_write() {
    let mut front = client();
    front.readiness().front_interest = Ready::writable();
    assert_eq!(front.writable(buffer(), buffer()), Step::Done(ClientResult::Continue));
    assert_eq!(front.readiness().front_interest, Ready::empty());
    assert_eq!(front.readiness().back_interest, Ready::readable());

    let mut back = client();
    back.readiness().back_interest = Ready::writable();
    assert_eq!(back.back_writable(buffer(), buffer()), Step::Done(ClientResult::Continue));
    assert_eq!(back.readiness().front_interest, Ready::readable());
    assert_eq!(back.readiness().back_interest, Ready::empty());
}

#[test]
fn a_response_is_received_and_parsed() {
    let mut client = client();
    client.set_state(response(ResponseState::Parsing));
    busy(&mut client);
    client.readiness().front_interest = Ready::empty();
    assert_eq!(read_back(&mut client, 3, SocketResult::Continue, buffer()), Step::Parse(Side::Back));
    let step = client.resume(Input::Parsed(response(ResponseState::ResponseWithBody)));
    assert_eq!(step, Step::Done(ClientResult::Continue));
    assert_eq!(client.readiness().front_interest, Ready::writable());
    assert_eq!(client.readiness().back_interest, everything());

    assert_eq!(read_back(&mut client, 0, SocketResult::Continue, buffer()), Step::Done(ClientResult::Continue));
    assert_eq!(client.readiness().back_readiness, without(Ready::readable()));
    assert_eq!(client.readiness().back_interest, everything());
    assert_eq!(read_back(&mut client, 3, SocketResult::WouldBlock, satisfied()), Step::Done(ClientResult::Continue));
    assert_eq!(client.readiness().back_interest, without(Ready::readable()));
}

#[test]
fn a_complete_response_stops_reading() {
    let mut parsed = client();
    parsed.set_state(response(ResponseState::Parsing));
    busy(&mut parsed);
    assert_eq!(read_back(&mut parsed, 3, SocketResult::Continue, buffer()), Step::Parse(Side::Back));
    let step = parsed.resume(Input::Parsed(response(ResponseState::Response)));
    assert_eq!(step, Step::Done(ClientResult::Continue));
    assert_eq!(parsed.readiness().back_interest, without(Ready::readable()));

    busy(&mut parsed);
    assert_eq!(read_back(&mut parsed, 3, SocketResult::Continue, buffer()), Step::Done(ClientResult::Continue));
    assert_eq!(parsed.readiness().back_interest, without(Ready::readable()));

    let mut filled = client();
    busy(&mut filled);
    assert_eq!(filled.back_readable(buffer(), full()), Step::Done(ClientResult::Continue));
    assert_eq!(filled.readiness().back_interest, without(Ready::readable()));
}

#[test]
fn chunks_of_a_response() {
    let chunk = |chunk| response(ResponseState::ResponseWithBodyChunks(chunk));
    let mut ended = client();
    ended.set_state(chunk(Chunk::Ended));
    busy(&mut ended);
    assert_eq!(read_back(&mut ended, 2, SocketResult::Continue, buffer()), Step::Done(ClientResult::Continue));
    assert_eq!(ended.readiness().back_interest, without(Ready::readable()));

    let mut failed = client();
    failed.set_state(chunk(Chunk::Error));
    busy(&mut failed);
    assert_eq!(read_back(&mut failed, 2, SocketResult::Continue, buffer()), Step::Done(ClientResult::CloseClient));
    assert!(waits_for_nothing(&mut failed));

    let mut copying = client();
    copying.set_state(chunk(Chunk::Copying));
    busy(&mut copying);
    copying.readiness().front_interest = Ready::empty();
    assert_eq!(read_back(&mut copying, 2, SocketResult::Continue, buffer()), Step::Done(ClientResult::Continue));
    assert_eq!(copying.readiness().front_interest, Ready::empty());
    assert_eq!(read_back(&mut copying, 2, SocketResult::Continue, satisfied()), Step::Parse(Side::Back));
    assert_eq!(copying.resume(Input::Parsed(chunk(Chunk::Copying))), Step::Done(ClientResult::Continue));
    assert_eq!(copying.readiness().front_interest, Ready::writable());
    copying.readiness().front_interest = Ready::empty();
    assert_eq!(read_back(&mut copying, 2, SocketResult::Continue, satisfied()), Step::Parse(Side::Back));
    assert_eq!(copying.resume(Input::Parsed(chunk(Chunk::Ended))), Step::Done(ClientResult::Continue));
    assert_eq!(copying.readiness().front_interest, Ready::empty());
    assert_eq!(copying.readiness().back_interest, without(Ready::readable()));
}

#[test]
fn reading_from_the_backend_fails() {
    let mut error = client();
    error.set_state(response(ResponseState::Error));
    busy(&mut error);
    assert_eq!(error.back_readable(buffer(), buffer()), Step::Receive(Side::Back));
    assert_eq!(error.resume(received(2, SocketResult::Continue)), Step::Look);
    assert!(!error.can_resume(&buffers(buffer(), buffer())));
    error.take_effects();
    let step = read_back(&mut error, 2, SocketResult::Error, buffer());
    assert_eq!(step, Step::Done(ClientResult::CloseBothFailure));
    assert!(waits_for_nothing(&mut error));

    for state in [ResponseState::Parsing, ResponseState::ResponseWithBodyChunks(Chunk::Copying)] {
        let mut bad = client();
        bad.set_state(response(state));
        busy(&mut bad);
        assert_eq!(read_back(&mut bad, 2, SocketResult::Continue, satisfied()), Step::Parse(Side::Back));
        let mut parsed = response(ResponseState::Error);
        parsed.back_error = true;
        assert_eq!(bad.resume(Input::Parsed(parsed)), Step::Failed(ClientResult::CloseBothFailure));
        assert!(waits_for_nothing(&mut bad));
    }
}

#[test]
fn a_response_is_forwarded_in_pieces() {
    let mut client = client();
    client.set_state(response(ResponseState::ResponseWithBody));
    busy(&mut client);
    client.readiness().back_interest = Ready::empty();
    assert_eq!(write_front(&mut client, 4, SocketResult::Continue, output(2)), Step::Send(Side::Front));
    assert_eq!(client.resume(sent(1, SocketResult::WouldBlock)), Step::Look);
    assert_eq!(client.take_effects(), vec![Effect::ConsumeOutput(Side::Back, 1)]);
    assert_eq!(client.back_buf_position(), 5);
    assert_eq!(client.front_buf_position(), 0);
    assert_eq!(client.resume(buffers(buffer(), output(1))), Step::Done(ClientResult::Continue));
    assert_eq!(client.readiness().front_readiness, without(Ready::writable()));
    assert_eq!(client.readiness().back_interest, Ready::readable());
}

#[test]
fn more_chunks_follow() {
    let mut client = client();
    client.set_state(response(ResponseState::ResponseWithBodyChunks(Chunk::Copying)));
    let step = write_front(&mut client, 4, SocketResult::Continue, restartable());
    assert_eq!(step, Step::Done(ClientResult::Continue));
    assert_eq!(client.readiness().back_interest, Ready::readable());
}

#[test]
fn the_end_of_an_exchange_without_keep_alive() {
    for state in [
        ResponseState::Response,
        ResponseState::ResponseWithBody,
        ResponseState::ResponseWithBodyChunks(Chunk::Ended),
    ] {
        let mut client = client();
        let mut http = response(state);
        http.response_keep_alive = true;
        client.set_state(http);
        busy(&mut client);
        let step = write_front(&mut client, 4, SocketResult::Continue, restartable());
        assert_eq!(step, Step::Done(ClientResult::CloseBothSuccess));
        assert!(waits_for_nothing(&mut client));
    }
    let mut missing = client();
    let mut http = response(ResponseState::Response);
    http.request_keep_alive = true;
    http.request = None;
    missing.set_state(http);
    let step = write_front(&mut missing, 4, SocketResult::Continue, restartable());
    assert_eq!(step, Step::Done(ClientResult::CloseBothSuccess));
}

#[test]
fn a_response_that_ends_before_its_head() {
    let mut client = client();
    client.set_state(response(ResponseState::Parsing));
    busy(&mut client);
    let step = write_front(&mut client, 4, SocketResult::Continue, restartable());
    assert_eq!(step, Step::Done(ClientResult::CloseBothFailure));
    assert!(waits_for_nothing(&mut client));
}

#[test]
fn the_connection_is_kept_for_the_next_exchange() {
    let mut client = client();
    client.set_app_id("app");
    let mut http = response(ResponseState::Response);
    http.request_keep_alive = true;
    http.response_keep_alive = true;
    client.set_state(http);
    busy(&mut client);
    assert_eq!(write_front(&mut client, 4, SocketResult::Continue, restartable()), Step::Restart);
    assert_eq!(client.back_buf_position(), 4);
    assert_eq!(client.restart_with(&no_ends(), "second".to_owned()), ClientResult::Continue);
    assert_eq!(client.take_effects(), vec![Effect::Reset(Side::Front), Effect::Reset(Side::Back)]);
    assert_eq!(client.back_buf_position(), 0);
    assert_eq!(client.readiness().front_interest, Ready::readable() | Ready::hup() | Ready::error());
    assert_eq!(client.readiness().back_interest, Ready::writable() | Ready::hup() | Ready::error());
    assert_eq!(client.readiness().front_readiness, everything());
    assert_eq!(client.request_id(), "second");
    assert_eq!(client.log_ctx(), "HTTP\tsecond\tapp\t");
    let mut initial = HttpState::new();
    initial.added_req_header = "Request-id: first\r\n".to_owned();
    initial.added_res_header = "Request-id: first\r\n".to_owned();
    assert_eq!(client.state(), &mut initial);
    assert_eq!(client.tokens(), Some((Token(3), Token(4))));
    assert_eq!(client.back_socket(), Some(&2));

    // the second exchange goes as the first
    assert_eq!(read_front(&mut client, 9, SocketResult::Continue, buffer()), Step::Parse(Side::Front));
    let step = client.resume(Input::Parsed(request(RequestState::Request)));
    assert_eq!(step, Step::Done(ClientResult::ConnectBackend));
    let step = write_back(&mut client, 9, SocketResult::Continue, restartable());
    assert_eq!(step, Step::Done(ClientResult::Continue));
    assert_eq!(read_back(&mut client, 7, SocketResult::Continue, buffer()), Step::Parse(Side::Back));
    let step = client.resume(Input::Parsed(response(ResponseState::Response)));
    assert_eq!(step, Step::Done(ClientResult::Continue));
    let step = write_front(&mut client, 7, SocketResult::Continue, restartable());
    assert_eq!(step, Step::Done(ClientResult::CloseBothSuccess));
    assert_eq!(client.front_buf_position(), 9);
    assert_eq!(client.back_buf_position(), 7);
}

#[test]
fn the_backend_does_not_keep_its_connection() {
    let mut client = client();
    let mut http = response(ResponseState::Response);
    http.request_keep_alive = true;
    client.set_state(http);
    assert_eq!(write_front(&mut client, 4, SocketResult::Continue, restartable()), Step::Restart);
    assert_eq!(client.restart(&no_ends()), ClientResult::CloseBackend);
    assert_eq!(client.readiness().front_interest, Ready::readable() | Ready::hup() | Ready::error());
    assert_eq!(client.readiness().back_interest, Ready::hup() | Ready::error());
    assert_ne!(client.request_id(), "first");
    assert_eq!(client.request_id().len(), 36);
}

#[test]
fn a_reset_keeps_what_the_connection_waits_for() {
    let mut client = client();
    busy(&mut client);
    client.reset_with(&no_ends(), "second".to_owned());
    assert_eq!(client.readiness().front_interest, everything());
    assert_eq!(client.request_id(), "second");
    assert_eq!(client.log_ctx(), "HTTP\tsecond\tunknown\t");
    client.reset(&no_ends());
    assert_eq!(client.request_id().len(), 36);
    assert_eq!(client.state().added_res_header, "Request-id: second\r\n");
}

#[test]
fn a_default_answer_is_all_that_happens() {
    let mut client = client();
    client.set_answer(b"HTTP/1.1 404 Not Found\r\n\r\n");
    assert_eq!(client.status(), ClientStatus::DefaultAnswer);
    assert_eq!(
        client.take_effects(),
        vec![Effect::Reset(Side::Back), Effect::Write(Side::Back, b"HTTP/1.1 404 Not Found\r\n\r\n".to_vec())]
    );
    busy(&mut client);
    client.readiness().front_interest = Ready::empty();
    assert_eq!(client.readable(buffer(), output(26)), Step::Done(ClientResult::Continue));
    assert_eq!(client.readiness().front_interest, Ready::writable());
    assert_eq!(client.readiness().back_interest, Ready::hup() | Ready::error());
    busy(&mut client);
    client.readiness().front_interest = Ready::empty();
    assert_eq!(client.back_writable(output(1), output(26)), Step::Done(ClientResult::Continue));
    assert_eq!(client.readiness().front_interest, Ready::writable());
    assert_eq!(client.readiness().back_interest, without(Ready::writable()));
    busy(&mut client);
    assert_eq!(client.back_readable(output(1), output(26)), Step::Done(ClientResult::Continue));
    assert_eq!(client.readiness().back_interest, without(Ready::readable()));
    assert_eq!(client.take_effects(), vec![]);
}

#[test]
fn a_default_answer_is_written_and_closes_the_client() {
    let mut client = client();
    client.set_answer(b"0123456789");
    client.take_effects();
    busy(&mut client);
    assert_eq!(write_front(&mut client, 4, SocketResult::Continue, output(6)), Step::Send(Side::Front));
    assert_eq!(client.resume(sent(2, SocketResult::WouldBlock)), Step::Look);
    assert_eq!(client.resume(buffers(buffer(), output(4))), Step::Done(ClientResult::Continue));
    assert_eq!(client.readiness().front_readiness, without(Ready::writable()));
    client.take_effects();
    let step = write_front(&mut client, 4, SocketResult::Continue, buffer());
    assert_eq!(step, Step::Done(ClientResult::CloseClient));
    assert!(waits_for_nothing(&mut client));
    assert_eq!(client.back_buf_position(), 10);
    assert_eq!(client.status(), ClientStatus::DefaultAnswer);
}

#[test]
fn a_default_answer_that_cannot_be_written() {
    let mut error = client();
    error.set_answer(b"0123456789");
    error.take_effects();
    busy(&mut error);
    let step = write_front(&mut error, 4, SocketResult::Error, output(6));
    assert_eq!(step, Step::Done(ClientResult::CloseClient));
    assert!(waits_for_nothing(&mut error));

    let mut empty = client();
    empty.set_answer(b"");
    busy(&mut empty);
    assert_eq!(empty.writable(buffer(), buffer()), Step::Done(ClientResult::CloseClient));
    assert!(waits_for_nothing(&mut empty));

    let mut stuck = client();
    stuck.set_answer(b"x");
    busy(&mut stuck);
    let back = BufferState { available_data: 1, ..buffer() };
    assert_eq!(stuck.writable(buffer(), back), Step::Done(ClientResult::Continue));
    assert_eq!(stuck.readiness().front_interest, without(Ready::writable()));
}

#[test]
fn the_counters_cannot_overflow() {
    let mut client = client();
    assert_eq!(client.writable(buffer(), output(9)), Step::Send(Side::Front));
    assert_eq!(client.resume(sent(usize::MAX, SocketResult::Continue)), Step::Look);
    assert_eq!(client.resume(buffers(buffer(), output(9))), Step::Send(Side::Front));
    assert!(client.can_resume(&sent(0, SocketResult::Continue)));
    assert!(!client.can_resume(&sent(1, SocketResult::Continue)));
    assert_eq!(client.back_writable(output(9), buffer()), Step::Send(Side::Back));
    assert!(client.can_resume(&sent(usize::MAX, SocketResult::Continue)));
}
