//! The model of the proxy's configuration: its routes, its instances, and how a request finds one.

use vstd::prelude::*;
use vstd::utf8::encode_utf8;

use crate::address::SocketAddr;
use crate::backend::Backend;
use crate::client_view::ClientView;
use crate::events::EffectView;
use crate::messages::{
    Command, HttpFrontView, HttpProxyConfiguration, ProxyOrder, ServerMessageTypeView,
    ServerMessageView,
};
use crate::parser::{AuthorityView, HttpStateView};
use crate::ready::ReadyKind;

verus! {

/// Why a request found no backend.
#[derive(Clone, Copy, Debug, PartialEq, Eq, Structural)]
pub enum ConnectionError {
    NoHostGiven,
    NoRequestLineGiven,
    HostNotFound,
    NoBackendAvailable,
    /// The `Host` header is malformed.
    ToBeDefined,
}

/// How a client got its backend.
#[derive(Clone, Copy, Debug, PartialEq, Eq, Structural)]
pub enum BackendConnectAction {
    New,
    Reuse,
    Replace,
}

/// An instance that has been chosen for a client: its place among the instances of the
/// application, and its address.
#[derive(Clone, Copy, Debug, PartialEq, Eq, Structural)]
pub struct Candidate {
    pub index: usize,
    pub address: SocketAddr,
}

/// What to do for a client that wants a backend.
#[derive(Clone, Copy, Debug, PartialEq, Eq, Structural)]
pub enum Connect {
    /// The backend that it has is the right one.
    Reuse,
    /// Open a connection to the candidate, in place of the one to another application if
    /// `replaces` says so.
    Open { candidate: Candidate, replaces: bool },
}

/// The answers that the proxy gives by itself.
#[verifier::ext_equal]
pub struct AnswersView {
    pub not_found: Seq<u8>,
    pub service_unavailable: Seq<u8>,
}

/// The state of the configuration.
#[verifier::ext_equal]
pub struct ServerView {
    pub address: SocketAddr,
    /// The instances of each application, in the order in which they were added.
    pub instances: Map<Seq<char>, Seq<Backend>>,
    /// The fronts of each host name, in the order in which they were added.
    pub fronts: Map<Seq<char>, Seq<HttpFrontView>>,
    pub answers: AnswersView,
    pub front_timeout: u64,
    pub back_timeout: u64,
    pub config: HttpProxyConfiguration,
}

/// The front serves requests for `uri`.
pub open spec fn serves(front: HttpFrontView, uri: Seq<char>) -> bool {
    front.path_begin.is_prefix_of(uri)
}

/// Of the fronts that serve `uri`, the one at `i` has the longest path; of several such fronts it
/// is the first.
pub open spec fn is_best(fronts: Seq<HttpFrontView>, uri: Seq<char>, i: int) -> bool {
    &&& 0 <= i < fronts.len()
    &&& serves(fronts[i], uri)
    &&& forall|j: int|
        #![trigger fronts[j]]
        0 <= j < fronts.len() && serves(fronts[j], uri) ==> fronts[j].path_begin.len()
            <= fronts[i].path_begin.len()
    &&& forall|j: int|
        #![trigger fronts[j]]
        0 <= j < i && serves(fronts[j], uri) ==> fronts[j].path_begin.len()
            < fronts[i].path_begin.len()
}

/// Whether a front differs from `front`.
pub open spec fn differs(front: HttpFrontView) -> spec_fn(HttpFrontView) -> bool {
    |f: HttpFrontView| f != front
}

/// Whether an instance is at another address than `address`.
pub open spec fn is_elsewhere(address: SocketAddr) -> spec_fn(Backend) -> bool {
    |b: Backend| b.address != address
}

/// The places of the instances that take connections, in order.
pub open spec fn open_places(backends: Seq<Backend>) -> Seq<int> {
    Seq::new(backends.len(), |i: int| i).filter(|i: int| backends[i].is_open())
}

/// The name under which the fronts of a `Host` header are looked up: without the port if that is
/// 80, and whole otherwise. A malformed header has none.
pub open spec fn host_key(host: Seq<char>, authority: AuthorityView) -> Option<Seq<char>> {
    match authority {
        AuthorityView::Parsed { hostname, port, rest } if rest.len() == 0 => {
            if port == Some(seq!['8' as u8, '0' as u8]) {
                Some(hostname)
            } else {
                Some(host)
            }
        },
        _ => None,
    }
}

/// The answer to the order `id`.
pub open spec fn reply(id: Seq<char>, message: ServerMessageTypeView) -> Option<ServerMessageView> {
    Some(ServerMessageView { id, message })
}

impl<Front, Back> ClientView<Front, Back> {
    /// The request is refused: the proxy answers with `answer` and waits to send it.
    pub open spec fn refused(self, answer: Seq<u8>) -> ClientView<Front, Back> {
        let answering = self.answering(answer);
        answering.with_readiness(answering.readiness.want_front(ReadyKind::Writable))
    }

    /// The backend's socket is connected.
    pub open spec fn connected(self, socket: Back) -> ClientView<Front, Back> {
        ClientView {
            backend: Some(socket),
            readiness: self.readiness.want_back(ReadyKind::Writable).want_back(
                ReadyKind::Hup,
            ).want_back(ReadyKind::Error),
            ..self
        }
    }
}

impl ServerView {
    /// The fronts of each host name are those that name it.
    pub open spec fn fronts_are_filed(self) -> bool {
        forall|host: Seq<char>, i: int|
            #![trigger self.fronts[host][i]]
            self.fronts.contains_key(host) && 0 <= i < self.fronts[host].len()
                ==> self.fronts[host][i].hostname == host
    }

    /// The configuration at the start.
    pub open spec fn fresh(config: HttpProxyConfiguration) -> ServerView {
        ServerView {
            address: config.front,
            instances: Map::empty(),
            fronts: Map::empty(),
            answers: AnswersView {
                not_found: encode_utf8(
                    "HTTP/1.1 404 Not Found\r\nCache-Control: no-cache\r\nConnection: close\r\n\r\n"@,
                ),
                service_unavailable: encode_utf8(
                    "HTTP/1.1 503 your application is in deployment\r\nCache-Control: no-cache\r\nConnection: close\r\n\r\n"@,
                ),
            },
            front_timeout: 5000,
            back_timeout: 5000,
            config,
        }
    }

    /// The fronts of a host name; one that was never named has none.
    pub open spec fn fronts_of(self, host: Seq<char>) -> Seq<HttpFrontView> {
        if self.fronts.contains_key(host) {
            self.fronts[host]
        } else {
            Seq::empty()
        }
    }

    /// The instances of an application; one that was never named has none.
    pub open spec fn instances_of(self, app_id: Seq<char>) -> Seq<Backend> {
        if self.instances.contains_key(app_id) {
            self.instances[app_id]
        } else {
            Seq::empty()
        }
    }

    /// One front more, behind the others of its host name.
    pub open spec fn with_front(self, front: HttpFrontView) -> ServerView {
        ServerView {
            fronts: self.fronts.insert(
                front.hostname,
                self.fronts_of(front.hostname).push(front),
            ),
            ..self
        }
    }

    /// Every front that is equal to `front` is gone.
    pub open spec fn without_front(self, front: HttpFrontView) -> ServerView {
        if self.fronts.contains_key(front.hostname) {
            ServerView {
                fronts: self.fronts.insert(
                    front.hostname,
                    self.fronts[front.hostname].filter(differs(front)),
                ),
                ..self
            }
        } else {
            self
        }
    }

    /// One instance more, behind the others of its application.
    pub open spec fn with_instance(self, app_id: Seq<char>, address: SocketAddr) -> ServerView {
        ServerView {
            instances: self.instances.insert(
                app_id,
                self.instances_of(app_id).push(Backend::fresh(address)),
            ),
            ..self
        }
    }

    /// Every instance of the application at `address` is gone.
    pub open spec fn without_instance(self, app_id: Seq<char>, address: SocketAddr) -> ServerView {
        if self.instances.contains_key(app_id) {
            ServerView {
                instances: self.instances.insert(
                    app_id,
                    self.instances[app_id].filter(is_elsewhere(address)),
                ),
                ..self
            }
        } else {
            self
        }
    }

    /// The instance of the application at place `i` is `backend` from now on.
    pub open spec fn with_backend_at(
        self,
        app_id: Seq<char>,
        i: int,
        backend: Backend,
    ) -> ServerView {
        ServerView {
            instances: self.instances.insert(app_id, self.instances[app_id].update(i, backend)),
            ..self
        }
    }

    /// A connection of the application to `address` has ended: the first instance there has one
    /// less.
    pub open spec fn with_connection_closed(
        self,
        app_id: Seq<char>,
        address: SocketAddr,
    ) -> ServerView {
        let backends = self.instances_of(app_id);
        if exists|i: int| is_first_at(backends, address, i) {
            let i = choose|i: int| is_first_at(backends, address, i);
            self.with_backend_at(app_id, i, backends[i].without_connection())
        } else {
            self
        }
    }

    /// The front that serves `uri` on `host`.
    pub open spec fn front_for(self, host: Seq<char>, uri: Seq<char>) -> Option<HttpFrontView> {
        let fronts = self.fronts_of(host);
        if exists|i: int| is_best(fronts, uri, i) {
            Some(fronts[choose|i: int| is_best(fronts, uri, i)])
        } else {
            None
        }
    }

    /// The application that a request goes to.
    pub open spec fn route(self, state: HttpStateView, authority: AuthorityView) -> Result<
        Seq<char>,
        ConnectionError,
    > {
        match state.host {
            None => Err(ConnectionError::NoHostGiven),
            Some(host) => match host_key(host, authority) {
                None => Err(ConnectionError::ToBeDefined),
                Some(key) => match state.uri {
                    None => Err(ConnectionError::NoRequestLineGiven),
                    Some(uri) => match self.front_for(key, uri) {
                        None => Err(ConnectionError::HostNotFound),
                        Some(front) => Ok(front.app_id),
                    },
                },
            },
        }
    }

    /// An instance of the application can be chosen, or there is none to choose from.
    pub open spec fn can_choose(self, app_id: Seq<char>) -> bool {
        let backends = self.instances_of(app_id);
        backends.len() > 0 ==> exists|i: int|
            0 <= i < backends.len() && #[trigger] backends[i].is_open()
    }

    /// The instance of the application that the number `rnd` chooses: the instances that take
    /// connections are numbered from 0, over and over.
    pub open spec fn candidate(self, app_id: Seq<char>, rnd: usize) -> Candidate {
        let backends = self.instances_of(app_id);
        let places = open_places(backends);
        let i = places[rnd as int % places.len() as int];
        Candidate { index: i as usize, address: backends[i].address }
    }

    /// Chooses an instance of the application for a client, by the number `rnd`.
    pub open spec fn choose_backend<Front, Back>(
        self,
        client: ClientView<Front, Back>,
        app_id: Seq<char>,
        rnd: usize,
    ) -> (ClientView<Front, Back>, Result<Candidate, ConnectionError>) {
        let named = ClientView { app_id: Some(app_id), ..client };
        if !self.instances.contains_key(app_id) {
            (named, Err(ConnectionError::NoBackendAvailable))
        } else if self.instances[app_id].len() == 0 {
            (
                named.answering(self.answers.service_unavailable),
                Err(ConnectionError::NoBackendAvailable),
            )
        } else {
            (named, Ok(self.candidate(app_id, rnd)))
        }
    }

    /// A connection to the candidate was tried. With a socket it is open, and the instance has one
    /// more; without one, nothing has changed.
    pub open spec fn opened<Back>(
        self,
        app_id: Seq<char>,
        candidate: Candidate,
        socket: Option<Back>,
    ) -> (ServerView, Result<Back, ConnectionError>) {
        let i = candidate.index as int;
        match socket {
            Some(socket) => (
                self.with_backend_at(app_id, i, self.instances[app_id][i].with_connection()),
                Ok(socket),
            ),
            None => (self, Err(ConnectionError::NoBackendAvailable)),
        }
    }

    /// A client's request can be sent on its way: a client that changes its application has a
    /// backend to leave, and an instance of the new one can be chosen.
    pub open spec fn can_connect<Front, Back>(
        self,
        client: ClientView<Front, Back>,
        authority: AuthorityView,
    ) -> bool {
        match self.route(client.state, authority) {
            Ok(app_id) => client.app_id == Some(app_id) || (self.can_choose(app_id) && (
            client.app_id is Some ==> client.backend is Some)),
            Err(_) => true,
        }
    }

    /// Sends a client's request on its way, with `rnd` as the number that chooses.
    pub open spec fn connect<Front, Back>(
        self,
        client: ClientView<Front, Back>,
        authority: AuthorityView,
        rnd: usize,
    ) -> (ClientView<Front, Back>, Result<Connect, ConnectionError>) {
        match self.route(client.state, authority) {
            Err(ConnectionError::HostNotFound) => (
                client.refused(self.answers.not_found),
                Err(ConnectionError::HostNotFound),
            ),
            Err(error) => (client, Err(error)),
            Ok(app_id) => if client.app_id == Some(app_id) {
                (client, Ok(Connect::Reuse))
            } else {
                let replaces = client.app_id is Some;
                let leaving = if replaces {
                    client.then_do(EffectView::ShutdownBackend)
                } else {
                    client
                };
                match self.choose_backend(leaving, app_id, rnd) {
                    (named, Ok(candidate)) => (named, Ok(Connect::Open { candidate, replaces })),
                    (named, Err(error)) => (
                        named.refused(self.answers.service_unavailable),
                        Err(error),
                    ),
                }
            },
        }
    }

    /// Carries out an order, and answers it. `address` is the address of the instance that the
    /// order names, if its text is one.
    pub open spec fn notified(self, order: ProxyOrder, address: Option<SocketAddr>) -> (
        ServerView,
        Option<ServerMessageView>,
    ) {
        match order {
            ProxyOrder::Command(id, Command::AddHttpFront(front)) => (
                self.with_front(front@),
                reply(id@, ServerMessageTypeView::AddedFront),
            ),
            ProxyOrder::Command(id, Command::RemoveHttpFront(front)) => (
                self.without_front(front@),
                reply(id@, ServerMessageTypeView::RemovedFront),
            ),
            ProxyOrder::Command(id, Command::AddInstance(instance)) => match address {
                Some(address) => (
                    self.with_instance(instance.app_id@, address),
                    reply(id@, ServerMessageTypeView::AddedInstance),
                ),
                None => (
                    self,
                    reply(id@, ServerMessageTypeView::Error("cannot parse the address"@)),
                ),
            },
            ProxyOrder::Command(id, Command::RemoveInstance(instance)) => match address {
                Some(address) => (
                    self.without_instance(instance.app_id@, address),
                    reply(id@, ServerMessageTypeView::RemovedInstance),
                ),
                None => (
                    self,
                    reply(id@, ServerMessageTypeView::Error("cannot parse the address"@)),
                ),
            },
            ProxyOrder::Command(_, Command::HttpProxy(configuration)) => (
                ServerView {
                    front_timeout: configuration.front_timeout,
                    back_timeout: configuration.back_timeout,
                    answers: AnswersView {
                        not_found: encode_utf8(configuration.answer_404@),
                        service_unavailable: encode_utf8(configuration.answer_503@),
                    },
                    ..self
                },
                None,
            ),
            ProxyOrder::Command(id, Command::Unsupported) => (
                self,
                reply(id@, ServerMessageTypeView::Error("unsupported message"@)),
            ),
            ProxyOrder::Stop(id) => (self, reply(id@, ServerMessageTypeView::Stopped)),
        }
    }
}

/// The instance at place `i` is the first one at `address`.
pub open spec fn is_first_at(backends: Seq<Backend>, address: SocketAddr, i: int) -> bool {
    &&& 0 <= i < backends.len()
    &&& backends[i].address == address
    &&& forall|j: int| 0 <= j < i ==> (#[trigger] backends[j]).address != address
}

} // verus!
