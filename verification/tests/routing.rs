use http_proxy::address::{Endpoints, SocketAddr};
use http_proxy::backend::{Backend, BackendStatus};
use http_proxy::client::Client;
use http_proxy::client_view::ClientStatus;
use http_proxy::events::{Effect, Side};
use http_proxy::messages::{
    Command, HttpFront, HttpProxyConfiguration, Instance, ProxyOrder, ServerMessage, ServerMessageType,
};
use http_proxy::parser::{Authority, HttpState};
use http_proxy::server::ServerConfiguration;
use http_proxy::server_view::{BackendConnectAction, Candidate, Connect, ConnectionError};
use http_proxy::text::{decimal_text, starts_with};
use mio::Ready;

const NOT_FOUND: &str = "HTTP/1.1 404 Not Found\r\nCache-Control: no-cache\r\nConnection: close\r\n\r\n";
const UNAVAILABLE: &str =
    "HTTP/1.1 503 your application is in deployment\r\nCache-Control: no-cache\r\nConnection: close\r\n\r\n";

fn config() -> HttpProxyConfiguration {
    HttpProxyConfiguration {
        front: SocketAddr::V4 { ip: 0x7f000001, port: 1030 },
        max_connections: 10,
        buffer_size: 12000,
        front_timeout: 50000,
        back_timeout: 60000,
        answer_404: "HTTP/1.1 404 Not Found\r\n\r\n".to_owned(),
        answer_503: "HTTP/1.1 503 your application is in deployment\r\n\r\n".to_owned(),
    }
}

fn front(app_id: &str, hostname: &str, path_begin: &str) -> HttpFront {
    HttpFront { app_id: app_id.to_owned(), hostname: hostname.to_owned(), path_begin: path_begin.to_owned() }
}

fn at(port: u16) -> SocketAddr {
    SocketAddr::V4 { ip: 0x7f000001, port }
}

fn no_ends() -> Endpoints {
    Endpoints { peer: None, local: None }
}

fn client() -> Client<u8, u8> {
    Client::with_request_id("HTTP", 1, &no_ends(), "first".to_owned(), 0)
}

fn asking(host: &str, uri: &str) -> Client<u8, u8> {
    let mut client = client();
    client.set_state(request(host, uri));
    client
}

fn request(host: &str, uri: &str) -> HttpState {
    let mut state = HttpState::new();
    state.has_host = true;
    state.host = Some(host.to_owned());
    state.uri = Some(uri.to_owned());
    state
}

fn authority(hostname: &str, port: Option<&str>, rest: &str) -> Authority {
    Authority::Parsed {
        hostname: hostname.to_owned(),
        port: port.map(|port| port.as_bytes().to_vec()),
        rest: rest.as_bytes().to_vec(),
    }
}

fn command(id: &str, command: Command) -> ProxyOrder {
    ProxyOrder::Command(id.to_owned(), command)
}

fn answer(id: &str, message: ServerMessageType) -> Option<ServerMessage> {
    Some(ServerMessage { id: id.to_owned(), message })
}

fn written(text: &str) -> Vec<Effect> {
    vec![Effect::Reset(Side::Back), Effect::Write(Side::Back, text.as_bytes().to_vec())]
}

#[test]
fn frontend_from_request_test() {
    let app_id1 = "app_1".to_owned();
    let app_id2 = "app_2".to_owned();
    let app_id3 = "app_3".to_owned();
    let uri1 = "/".to_owned();
    let uri2 = "/yolo".to_owned();
    let uri3 = "/yolo/swag".to_owned();

    let mut server_config = ServerConfiguration::new(HttpProxyConfiguration {
        front: SocketAddr::V4 { ip: 0x7f000001, port: 1030 },
        max_connections: 1,
        buffer_size: 12000,
        front_timeout: 50000,
        back_timeout: 50000,
        answer_404: "HTTP/1.1 404 Not Found\r\n\r\n".to_owned(),
        answer_503: "HTTP/1.1 503 your application is in deployment\r\n\r\n".to_owned(),
    });
    server_config.add_http_front(HttpFront { app_id: app_id1, hostname: "lolcatho.st".to_owned(), path_begin: uri1 });
    server_config.add_http_front(HttpFront { app_id: app_id2, hostname: "lolcatho.st".to_owned(), path_begin: uri2 });
    server_config.add_http_front(HttpFront { app_id: app_id3, hostname: "lolcatho.st".to_owned(), path_begin: uri3 });
    server_config.add_http_front(HttpFront { app_id: "app_1".to_owned(), hostname: "other.domain".to_owned(), path_begin: "/test".to_owned() });

    let frontend1 = server_config.frontend_from_request("lolcatho.st", "/");
    let frontend2 = server_config.frontend_from_request("lolcatho.st", "/test");
    let frontend3 = server_config.frontend_from_request("lolcatho.st", "/yolo/test");
    let frontend4 = server_config.frontend_from_request("lolcatho.st", "/yolo/swag");
    let frontend5 = server_config.frontend_from_request("domain", "/");
    assert_eq!(frontend1.unwrap().app_id, "app_1");
    assert_eq!(frontend2.unwrap().app_id, "app_1");
    assert_eq!(frontend3.unwrap().app_id, "app_2");
    assert_eq!(frontend4.unwrap().app_id, "app_3");
    assert_eq!(frontend5, None);
}

#[test]
fn no_front_serves_a_shorter_uri() {
    let mut server = ServerConfiguration::new(config());
    server.add_http_front(front("app", "other.domain", "/test"));
    assert_eq!(server.frontend_from_request("other.domain", "/"), None);
    assert_eq!(server.frontend_from_request("other.domain", "/tes"), None);
    assert_eq!(server.frontend_from_request("other.domain", "/test").unwrap().app_id, "app");
}

#[test]
fn the_first_of_equal_paths_wins() {
    let mut server = ServerConfiguration::new(config());
    server.add_http_front(front("first", "h", "/a"));
    server.add_http_front(front("second", "h", "/a"));
    assert_eq!(server.frontend_from_request("h", "/a/b").unwrap().app_id, "first");
    server.remove_http_front(front("first", "h", "/a"));
    assert_eq!(server.frontend_from_request("h", "/a/b").unwrap().app_id, "second");
}

#[test]
fn the_longest_path_wins_in_any_order() {
    let mut server = ServerConfiguration::new(config());
    server.add_http_front(front("long", "h", "/a/b"));
    server.add_http_front(front("short", "h", "/a"));
    assert_eq!(server.frontend_from_request("h", "/a/b/c").unwrap().app_id, "long");
    assert_eq!(server.frontend_from_request("h", "/a/c").unwrap().app_id, "short");
}

#[test]
fn removing_a_front_undoes_adding_it() {
    let mut server = ServerConfiguration::new(config());
    server.add_http_front(front("kept", "h", "/"));
    server.add_http_front(front("gone", "h", "/a"));
    assert_eq!(server.frontend_from_request("h", "/a").unwrap().app_id, "gone");
    server.remove_http_front(front("gone", "h", "/a"));
    assert_eq!(server.frontend_from_request("h", "/a").unwrap().app_id, "kept");
}

#[test]
fn removing_a_front_takes_out_every_copy_and_nothing_else() {
    let mut server = ServerConfiguration::new(config());
    server.add_http_front(front("a", "h", "/x"));
    server.add_http_front(front("b", "h", "/x"));
    server.add_http_front(front("a", "h", "/x"));
    server.add_http_front(front("a", "other", "/x"));
    server.remove_http_front(front("a", "h", "/x"));
    server.remove_http_front(front("a", "nowhere", "/x"));
    assert_eq!(server.frontend_from_request("h", "/x").unwrap().app_id, "b");
    assert_eq!(server.frontend_from_request("other", "/x").unwrap().app_id, "a");
    server.remove_http_front(front("b", "h", "/x"));
    assert_eq!(server.frontend_from_request("h", "/x"), None);
}

#[test]
fn a_second_removal_changes_nothing() {
    let mut server = ServerConfiguration::new(config());
    server.add_http_front(front("kept", "h", "/"));
    server.add_http_front(front("gone", "h", "/x"));
    server.add_http_front(front("gone", "h", "/x"));
    server.add_instance("app", &at(1));
    server.add_instance("app", &at(2));
    for _ in 0..2 {
        server.remove_http_front(front("gone", "h", "/x"));
        server.remove_instance("app", &at(2));
        assert_eq!(server.frontend_from_request("h", "/x").unwrap().app_id, "kept");
        assert_eq!(server.instances("app"), Some(&vec![Backend::new(at(1))]));
    }
}

#[test]
fn a_longer_uri_finds_a_longer_path() {
    let mut server = ServerConfiguration::new(config());
    server.add_http_front(front("short", "h", "/a"));
    server.add_http_front(front("other", "h", "/b/c"));
    server.add_http_front(front("long", "h", "/a/b"));
    let path = |uri: &str| server.frontend_from_request("h", uri).unwrap().path_begin.clone();
    assert_eq!(path("/a"), "/a");
    assert_eq!(path("/a/"), "/a");
    assert_eq!(path("/a/b"), "/a/b");
    assert_eq!(path("/a/b/c"), "/a/b");
}

#[test]
fn prefixes_are_of_whole_characters() {
    assert!(starts_with("/été", "/é"));
    assert!(!starts_with("/è", "/é"));
    assert!(!starts_with("/", "/é"));
    assert!(starts_with("anything", ""));
    assert!(starts_with("", ""));
}

#[test]
fn numbers_in_decimal() {
    assert_eq!(decimal_text(0), "0");
    assert_eq!(decimal_text(9), "9");
    assert_eq!(decimal_text(10), "10");
    assert_eq!(decimal_text(1025), "1025");
    assert_eq!(decimal_text(65535), "65535");
}

#[test]
fn a_new_configuration_has_its_own_answers_and_timeouts() {
    let server = ServerConfiguration::new(config());
    assert_eq!(server.front_timeout(), 5000);
    assert_eq!(server.back_timeout(), 5000);
    assert_eq!(server.answers().NotFound, NOT_FOUND.as_bytes());
    assert_eq!(server.answers().ServiceUnavailable, UNAVAILABLE.as_bytes());
    assert_eq!(server.address(), at(1030));
    assert_eq!(server.buffer_count(), 20);
    assert_eq!(server.config(), &config());
    assert_eq!(server.instances("app"), None);
}

#[test]
fn orders_are_carried_out_and_answered() {
    let mut server = ServerConfiguration::new(config());
    let instance = Instance { app_id: "app_1".to_owned(), ip_address: "127.0.0.1".to_owned(), port: 1025 };

    let order = command("ID_ABCD", Command::AddHttpFront(front("app_1", "localhost:1024", "/")));
    assert_eq!(order.address_text(), None);
    assert_eq!(server.notify(order, None), answer("ID_ABCD", ServerMessageType::AddedFront));
    assert_eq!(server.frontend_from_request("localhost:1024", "/").unwrap().app_id, "app_1");

    let order = command("ID_EFGH", Command::AddInstance(instance.clone()));
    assert_eq!(order.address_text(), Some("127.0.0.1:1025".to_owned()));
    assert_eq!(server.notify(order, Some(at(1025))), answer("ID_EFGH", ServerMessageType::AddedInstance));
    assert_eq!(server.instances("app_1"), Some(&vec![Backend::new(at(1025))]));

    let order = command("3", Command::RemoveInstance(instance));
    assert_eq!(order.address_text(), Some("127.0.0.1:1025".to_owned()));
    assert_eq!(server.notify(order, Some(at(1025))), answer("3", ServerMessageType::RemovedInstance));
    assert_eq!(server.instances("app_1"), Some(&vec![]));

    let order = command("4", Command::RemoveHttpFront(front("app_1", "localhost:1024", "/")));
    assert_eq!(server.notify(order, None), answer("4", ServerMessageType::RemovedFront));
    assert_eq!(server.frontend_from_request("localhost:1024", "/"), None);

    assert_eq!(server.notify(ProxyOrder::Stop("5".to_owned()), None), answer("5", ServerMessageType::Stopped));
    let unsupported = ServerMessageType::Error("unsupported message".to_owned());
    assert_eq!(server.notify(command("6", Command::Unsupported), None), answer("6", unsupported));
}

#[test]
fn an_order_with_a_bad_address_changes_nothing() {
    let mut server = ServerConfiguration::new(config());
    server.add_instance("app", &at(1));
    let instance = Instance { app_id: "app".to_owned(), ip_address: "::1".to_owned(), port: 80 };
    let order = command("1", Command::AddInstance(instance.clone()));
    assert_eq!(order.address_text(), Some("::1:80".to_owned()));
    let error = ServerMessageType::Error("cannot parse the address".to_owned());
    assert_eq!(server.notify(order, None), answer("1", error.clone()));
    let order = command("2", Command::RemoveInstance(instance));
    assert_eq!(server.notify(order, None), answer("2", error));
    assert_eq!(server.instances("app"), Some(&vec![Backend::new(at(1))]));
}

#[test]
fn new_settings_change_answers_and_timeouts_silently() {
    let mut server = ServerConfiguration::new(config());
    let mut settings = config();
    settings.answer_404 = "nothing hére".to_owned();
    settings.max_connections = 99;
    assert_eq!(server.notify(command("1", Command::HttpProxy(settings)), None), None);
    assert_eq!(server.front_timeout(), 50000);
    assert_eq!(server.back_timeout(), 60000);
    assert_eq!(server.answers().NotFound, "nothing hére".as_bytes());
    assert_eq!(server.answers().ServiceUnavailable, config().answer_503.as_bytes());
    assert_eq!(server.config(), &config());
}

#[test]
fn instances_are_added_and_removed_by_address() {
    let mut server = ServerConfiguration::new(config());
    server.add_instance("app", &at(1));
    server.add_instance("app", &at(2));
    server.add_instance("app", &at(1));
    server.add_instance("other", &at(1));
    server.remove_instance("app", &at(1));
    server.remove_instance("nobody", &at(1));
    assert_eq!(server.instances("app"), Some(&vec![Backend::new(at(2))]));
    assert_eq!(server.instances("other"), Some(&vec![Backend::new(at(1))]));
    assert_eq!(server.instances("nobody"), None);
}

#[test]
fn addresses_differ_in_every_part() {
    let v6 = |scope_id| SocketAddr::V6 { ip: 1, port: 80, flowinfo: 0, scope_id };
    let mut server = ServerConfiguration::new(config());
    server.add_instance("app", &v6(1));
    server.add_instance("app", &v6(2));
    server.remove_instance("app", &v6(2));
    assert_eq!(server.instances("app"), Some(&vec![Backend::new(v6(1))]));
}

#[test]
fn the_number_chooses_among_the_open_instances() {
    let mut server = ServerConfiguration::new(config());
    server.add_instance("app", &at(1));
    server.add_instance("app", &at(2));
    server.add_instance("app", &at(3));
    server.close_backend("app".to_owned(), &at(2));
    let mut client = client();
    assert_eq!(server.choose_backend(&mut client, "app", 0), Ok(Candidate { index: 0, address: at(1) }));
    assert_eq!(server.choose_backend(&mut client, "app", 1), Ok(Candidate { index: 2, address: at(3) }));
    assert_eq!(server.choose_backend(&mut client, "app", 2), Ok(Candidate { index: 0, address: at(1) }));
    assert_eq!(server.choose_backend(&mut client, "app", 7), Ok(Candidate { index: 2, address: at(3) }));
    assert_eq!(client.app_id, Some("app".to_owned()));
    assert_eq!(client.log_ctx(), "HTTP\tfirst\tunknown\t");
    assert_eq!(client.take_effects(), vec![]);
}

#[test]
fn the_random_choice_reaches_every_instance() {
    let mut server = ServerConfiguration::new(config());
    server.add_instance("app", &at(1));
    server.add_instance("app", &at(2));
    let mut seen = [false, false];
    for _ in 0..200 {
        let candidate = server.backend_from_app_id(&mut client(), "app").unwrap();
        assert_eq!(candidate.address, at(candidate.index as u16 + 1));
        seen[candidate.index] = true;
    }
    assert_eq!(seen, [true, true]);
}

#[test]
fn no_instance_is_no_choice() {
    let mut server = ServerConfiguration::new(config());
    let mut unknown = client();
    assert_eq!(server.choose_backend(&mut unknown, "app", 0), Err(ConnectionError::NoBackendAvailable));
    assert_eq!(unknown.status(), ClientStatus::Normal);
    assert_eq!(unknown.app_id, Some("app".to_owned()));
    assert_eq!(unknown.take_effects(), vec![]);

    server.add_instance("app", &at(1));
    server.remove_instance("app", &at(1));
    let mut empty = client();
    assert_eq!(server.backend_from_app_id(&mut empty, "app"), Err(ConnectionError::NoBackendAvailable));
    assert_eq!(empty.status(), ClientStatus::DefaultAnswer);
    assert_eq!(empty.take_effects(), written(UNAVAILABLE));
}

#[test]
fn closed_instances_cannot_be_chosen() {
    let mut server = ServerConfiguration::new(config());
    assert!(server.can_choose("app"));
    server.add_instance("app", &at(1));
    assert!(server.can_choose("app"));
    server.close_backend("app".to_owned(), &at(1));
    assert_eq!(server.instances("app").unwrap()[0].status, BackendStatus::Closed);
    assert!(!server.can_choose("app"));
    server.add_http_front(front("app", "h", "/"));
    assert!(!server.can_connect(&asking("h", "/"), &authority("h", None, "")));
    server.remove_instance("app", &at(1));
    assert!(server.can_choose("app"));
}

#[test]
fn requests_without_a_route() {
    let mut server = ServerConfiguration::new(config());
    server.add_http_front(front("app", "h", "/"));
    let good = authority("h", None, "");

    let mut none = client();
    assert_eq!(server.connect_to_backend(&mut none, &good), Err(ConnectionError::NoHostGiven));
    let mut invalid = asking("h", "/");
    assert_eq!(server.connect_to_backend(&mut invalid, &Authority::Invalid), Err(ConnectionError::ToBeDefined));
    let rest = authority("h", Some("80"), "x");
    assert_eq!(server.connect_to_backend(&mut invalid, &rest), Err(ConnectionError::ToBeDefined));
    let mut lineless = asking("h", "/");
    lineless.state().uri = None;
    assert_eq!(server.connect_to_backend(&mut lineless, &good), Err(ConnectionError::NoRequestLineGiven));
    for client in [&mut none, &mut invalid, &mut lineless] {
        assert_eq!(client.status(), ClientStatus::Normal);
        assert_eq!(client.app_id, None);
        assert_eq!(client.take_effects(), vec![]);
    }
}

#[test]
fn an_unknown_host_is_answered_with_404() {
    let mut server = ServerConfiguration::new(config());
    let mut client = asking("nowhere", "/");
    let result = server.connect_to_backend(&mut client, &authority("nowhere", None, ""));
    assert_eq!(result, Err(ConnectionError::HostNotFound));
    assert_eq!(client.status(), ClientStatus::DefaultAnswer);
    assert_eq!(client.take_effects(), written(NOT_FOUND));
    assert_eq!(client.readiness().front_interest, Ready::writable());
    assert_eq!(client.app_id, None);
}

#[test]
fn an_application_without_instances_is_answered_with_503() {
    let mut server = ServerConfiguration::new(config());
    server.add_http_front(front("app", "h", "/"));
    let mut unknown = asking("h", "/");
    let result = server.connect_to_backend(&mut unknown, &authority("h", None, ""));
    assert_eq!(result, Err(ConnectionError::NoBackendAvailable));
    assert_eq!(unknown.take_effects(), written(UNAVAILABLE));
    assert_eq!(unknown.readiness().front_interest, Ready::writable());
    assert_eq!(unknown.app_id, Some("app".to_owned()));

    server.add_instance("app", &at(1));
    server.remove_instance("app", &at(1));
    let mut empty = asking("h", "/");
    let result = server.connect_to_backend(&mut empty, &authority("h", None, ""));
    assert_eq!(result, Err(ConnectionError::NoBackendAvailable));
    let mut twice = written(UNAVAILABLE);
    twice.extend(written(UNAVAILABLE));
    assert_eq!(empty.take_effects(), twice);
    assert_eq!(empty.status(), ClientStatus::DefaultAnswer);
}

#[test]
fn port_80_is_left_out_of_the_host() {
    let mut server = ServerConfiguration::new(config());
    server.add_http_front(front("plain", "h", "/"));
    server.add_http_front(front("with_port", "h:8080", "/"));
    server.add_http_front(front("with_80", "h:80", "/"));
    let route = |host: &str, port| server.route(&request(host, "/"), &authority("h", port, ""));
    assert_eq!(route("h", None), Ok("plain".to_owned()));
    assert_eq!(route("h:80", Some("80")), Ok("plain".to_owned()));
    assert_eq!(route("h:8080", Some("8080")), Ok("with_port".to_owned()));
    assert_eq!(route("h:81", Some("81")), Err(ConnectionError::HostNotFound));
}

#[test]
fn a_backend_is_opened_reused_and_replaced() {
    let mut server = ServerConfiguration::new(config());
    server.add_http_front(front("one", "h", "/"));
    server.add_http_front(front("two", "h", "/two"));
    server.add_instance("one", &at(1));
    server.add_instance("two", &at(2));
    let host = authority("h", None, "");

    let mut client = asking("h", "/");
    let candidate = Candidate { index: 0, address: at(1) };
    assert!(server.can_connect(&client, &host));
    assert_eq!(server.connect_with(&mut client, &host, 5), Ok(Connect::Open { candidate, replaces: false }));
    assert_eq!(client.take_effects(), vec![]);
    let action = server.backend_connected(&mut client, candidate, false, Some(7));
    assert_eq!(action, Ok(BackendConnectAction::New));
    assert_eq!(client.back_socket(), Some(&7));
    assert_eq!(client.readiness().back_interest, Ready::writable() | Ready::hup() | Ready::error());
    assert_eq!(server.instances("one").unwrap()[0].active_connections, 1);

    assert_eq!(server.connect_to_backend(&mut client, &host), Ok(Connect::Reuse));
    assert_eq!(server.instances("one").unwrap()[0].active_connections, 1);

    client.state().uri = Some("/two".to_owned());
    let candidate = Candidate { index: 0, address: at(2) };
    assert!(server.can_connect(&client, &host));
    assert_eq!(server.connect_to_backend(&mut client, &host), Ok(Connect::Open { candidate, replaces: true }));
    assert_eq!(client.take_effects(), vec![Effect::ShutdownBackend]);
    let action = server.backend_connected(&mut client, candidate, true, Some(8));
    assert_eq!(action, Ok(BackendConnectAction::Replace));
    assert_eq!(client.back_socket(), Some(&8));
    assert_eq!(server.instances("two").unwrap()[0].active_connections, 1);
}

#[test]
fn a_front_and_an_instance_serve() {
    let mut server = ServerConfiguration::new(config());
    server.add_http_front(front("app_1", "localhost:1024", "/"));
    server.add_instance("app_1", &at(1025));
    let mut client = asking("localhost:1024", "/index.html");
    let host = authority("localhost", Some("1024"), "");
    assert!(server.can_connect(&client, &host));
    let candidate = Candidate { index: 0, address: at(1025) };
    assert_eq!(server.connect_to_backend(&mut client, &host), Ok(Connect::Open { candidate, replaces: false }));
    assert_eq!(client.app_id, Some("app_1".to_owned()));
}

#[test]
fn a_kept_connection_keeps_its_backend() {
    let mut server = ServerConfiguration::new(config());
    server.add_http_front(front("app_1", "h", "/"));
    server.add_instance("app_1", &at(1));
    let mut client = asking("h", "/");
    let host = authority("h", None, "");
    let candidate = Candidate { index: 0, address: at(1) };
    assert_eq!(server.connect_to_backend(&mut client, &host), Ok(Connect::Open { candidate, replaces: false }));
    let _ = server.backend_connected(&mut client, candidate, false, Some(7));
    client.reset_with(&no_ends(), "second".to_owned());
    client.set_state(request("h", "/another"));
    assert_eq!(server.connect_to_backend(&mut client, &host), Ok(Connect::Reuse));
    assert_eq!(client.back_socket(), Some(&7));
    assert_eq!(server.instances("app_1").unwrap()[0].active_connections, 1);
}

#[test]
fn a_client_that_changes_its_application_needs_a_backend_to_leave() {
    let mut server = ServerConfiguration::new(config());
    server.add_http_front(front("one", "h", "/"));
    server.add_instance("one", &at(1));
    let mut client = asking("h", "/");
    client.set_app_id("other");
    assert!(!server.can_connect(&client, &authority("h", None, "")));
    client.set_back_socket(3);
    assert!(server.can_connect(&client, &authority("h", None, "")));
}

#[test]
fn a_failed_connection_is_answered_with_503() {
    let mut server = ServerConfiguration::new(config());
    server.add_http_front(front("one", "h", "/"));
    server.add_instance("one", &at(1));
    let mut client = asking("h", "/");
    let candidate = Candidate { index: 0, address: at(1) };
    let result = server.connect_to_backend(&mut client, &authority("h", None, ""));
    assert_eq!(result, Ok(Connect::Open { candidate, replaces: false }));
    let action = server.backend_connected(&mut client, candidate, false, None);
    assert_eq!(action, Err(ConnectionError::NoBackendAvailable));
    assert_eq!(client.status(), ClientStatus::DefaultAnswer);
    assert_eq!(client.take_effects(), written(UNAVAILABLE));
    assert_eq!(client.readiness().front_interest, Ready::writable());
    assert_eq!(server.instances("one").unwrap()[0].active_connections, 0);
}

#[test]
fn an_opened_connection_counts_for_its_instance_alone() {
    let mut server = ServerConfiguration::new(config());
    server.add_instance("one", &at(1));
    server.add_instance("one", &at(2));
    server.add_instance("two", &at(2));
    let mut client = client();
    let candidate = server.choose_backend(&mut client, "one", 1).unwrap();
    assert_eq!(server.backend_opened("one", candidate, Some(7)), Ok(7));
    assert_eq!(server.instances("one").unwrap()[0].active_connections, 0);
    assert_eq!(server.instances("one").unwrap()[1].active_connections, 1);
    assert_eq!(server.instances("two").unwrap()[0].active_connections, 0);
}

#[test]
fn a_connection_that_does_not_open_changes_nothing() {
    let mut server = ServerConfiguration::new(config());
    server.add_instance("one", &at(1));
    let mut client = client();
    let candidate = server.backend_from_app_id(&mut client, "one").unwrap();
    assert_eq!(server.backend_opened::<u8>("one", candidate, None), Err(ConnectionError::NoBackendAvailable));
    assert_eq!(server.instances("one"), Some(&vec![Backend::new(at(1))]));
    assert_eq!(client.status(), ClientStatus::Normal);
    assert_eq!(client.take_effects(), vec![]);
    assert_eq!(client.app_id, Some("one".to_owned()));
}

#[test]
fn closing_gives_the_connection_back() {
    let mut server = ServerConfiguration::new(config());
    server.add_instance("one", &at(1));
    server.add_instance("one", &at(2));
    let mut client = client();
    let candidate = server.choose_backend(&mut client, "one", 1).unwrap();
    let _ = server.backend_connected(&mut client, candidate, false, Some(7));
    assert_eq!(server.instances("one").unwrap()[1].active_connections, 1);
    server.close_backend("one".to_owned(), &at(2));
    assert_eq!(server.instances("one"), Some(&vec![Backend::new(at(1)), Backend::new(at(2))]));
    server.close_backend("one".to_owned(), &at(9));
    server.close_backend("nobody".to_owned(), &at(1));
    assert_eq!(server.instances("one"), Some(&vec![Backend::new(at(1)), Backend::new(at(2))]));
}

#[test]
fn connections_of_an_instance_are_counted() {
    let mut backend = Backend::new(at(1));
    assert!(backend.can_open());
    assert_eq!(backend.inc_connections(), Some(1));
    assert_eq!(backend.inc_connections(), Some(2));
    assert_eq!(backend.dec_connections(), Some(1));
    assert_eq!(backend.dec_connections(), Some(0));
    assert_eq!(backend.dec_connections(), None);
    assert!(!backend.can_open());
    assert_eq!(backend.inc_connections(), None);
    assert_eq!(backend.active_connections, 0);
}

#[test]
fn an_accepted_client_waits_for_its_request() {
    let server = ServerConfiguration::new(config());
    let (mut client, late): (Client<u8, u8>, bool) = server.accept(4, &no_ends()).unwrap();
    assert!(!late);
    assert_eq!(client.frontend, 4);
    assert_eq!(client.readiness().front_interest, Ready::readable());
    assert_eq!(client.readiness().back_interest, Ready::empty());
    assert_eq!(client.log_context(), format!("HTTP\t{}\tunknown\t", client.request_id()));
}
