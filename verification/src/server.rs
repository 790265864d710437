//! The proxy's configuration: which application serves a request, and which instance of it.

use vstd::prelude::*;
use vstd::seq_lib::lemma_filter_view_commute;
use vstd::string::*;

use crate::address::{Endpoints, SocketAddr};
use crate::backend::Backend;
use crate::client::Client;
use crate::client_view::ClientView;
use crate::messages::{
    Command, HttpFront, HttpFrontView, HttpProxyConfiguration, ProxyOrder, ServerMessage,
    ServerMessageType,
};
use crate::outside::{is_random_uuid, random_usize};
use crate::parser::{Authority, HttpState};
use crate::ready::ReadyKind;
use crate::server_view::{
    AnswersView, BackendConnectAction, Candidate, Connect, ConnectionError, ServerView,
};
use crate::server_view::{differs, is_best, is_elsewhere, is_first_at, open_places, serves};
use crate::table::Table;
use crate::text::{lemma_longer_prefix, starts_with};

verus! {

/// The answers that the proxy gives by itself.
#[allow(non_snake_case)]
#[derive(Clone, Debug, PartialEq, Eq)]
pub struct DefaultAnswers {
    pub NotFound: Vec<u8>,
    pub ServiceUnavailable: Vec<u8>,
}

impl View for DefaultAnswers {
    type V = AnswersView;

    open spec fn view(&self) -> AnswersView {
        AnswersView {
            not_found: self.NotFound@,
            service_unavailable: self.ServiceUnavailable@,
        }
    }
}

/// The proxy's configuration.
pub struct ServerConfiguration {
    address: SocketAddr,
    instances: Table<Vec<Backend>>,
    fronts: Table<Vec<HttpFront>>,
    answers: DefaultAnswers,
    front_timeout: u64,
    back_timeout: u64,
    config: HttpProxyConfiguration,
}

/// The fronts of a list, in the model.
spec fn front_views(fronts: Seq<HttpFront>) -> Seq<HttpFrontView> {
    fronts.map_values(|front: HttpFront| front@)
}

impl View for ServerConfiguration {
    type V = ServerView;

    closed spec fn view(&self) -> ServerView {
        ServerView {
            address: self.address,
            instances: self.instances@.map_values(|backends: Vec<Backend>| backends@),
            fronts: self.fronts@.map_values(|fronts: Vec<HttpFront>| front_views(fronts@)),
            answers: self.answers@,
            front_timeout: self.front_timeout,
            back_timeout: self.back_timeout,
            config: self.config,
        }
    }
}

/// The place of the front that serves `uri` best.
fn best_front(fronts: &Vec<HttpFront>, uri: &str) -> (best: Option<usize>)
    ensures
        match best {
            Some(i) => is_best(front_views(fronts@), uri@, i as int),
            None => forall|i: int|
                0 <= i < fronts@.len() ==> !serves(#[trigger] front_views(fronts@)[i], uri@),
        },
{
    let ghost views = front_views(fronts@);
    let mut best: Option<usize> = None;
    let mut i: usize = 0;
    while i < fronts.len()
        invariant
            views == front_views(fronts@),
            i <= fronts@.len(),
            match best {
                Some(b) => is_best(views.take(i as int), uri@, b as int),
                None => forall|j: int| 0 <= j < i ==> !serves(#[trigger] views[j], uri@),
            },
        decreases fronts@.len() - i,
    {
        let front = &fronts[i];
        let ghost seen = views.take(i as int);
        let ghost next = views.take(i + 1);
        assert(views[i as int] == front@);
        assert(next =~= seen.push(front@));
        if starts_with(uri, front.path_begin.as_str()) {
            match best {
                None => {
                    best = Some(i);
                    assert(forall|j: int| 0 <= j < i ==> next[j] == views[j]);
                },
                Some(b) => {
                    let ghost path = seen[b as int].path_begin;
                    assert(seen[b as int] == fronts@[b as int]@);
                    proof {
                        lemma_longer_prefix(path, front.path_begin@, uri@);
                    }
                    let longer: bool = front.path_begin.as_str().as_bytes().len()
                        > fronts[b].path_begin.as_str().as_bytes().len();
                    if longer {
                        best = Some(i);
                    }
                },
            }
        }
        i = i + 1;
    }
    assert(views.take(i as int) =~= views);
    best
}

/// Takes out every item that `keep` does not keep. `kept` is what `keep` decides.
fn retain<T, Keep: Fn(&T) -> bool>(
    items: &mut Vec<T>,
    keep: Keep,
    Ghost(kept): Ghost<spec_fn(T) -> bool>,
)
    requires
        forall|item: &T| call_requires(keep, (item,)),
        forall|item: &T, stays: bool|
            call_ensures(keep, (item,), stays) ==> stays == kept(*item),
    ensures
        final(items)@ == old(items)@.filter(kept),
{
    let ghost all = items@;
    let mut i: usize = items.len();
    assert(all.take(i as int) =~= all);
    assert(all.skip(i as int) =~= Seq::empty());
    assert(items@ =~= all.take(i as int) + all.skip(i as int).filter(kept)) by {
        reveal(Seq::filter);
    }
    while i > 0
        invariant
            i <= all.len(),
            i <= items@.len(),
            forall|item: &T| call_requires(keep, (item,)),
            forall|item: &T, stays: bool|
                call_ensures(keep, (item,), stays) ==> stays == kept(*item),
            items@ == all.take(i as int) + all.skip(i as int).filter(kept),
        decreases i,
    {
        let ghost before = items@;
        let ghost rest = all.skip(i as int);
        i = i - 1;
        let ghost item = all[i as int];
        proof {
            assert(all.take(i + 1)[i as int] == item);
            assert(before[i as int] == item);
            assert(all.skip(i as int) =~= seq![item] + rest);
            rest.lemma_filter_prepend(item, kept);
        }
        if keep(&items[i]) {
            assert(before =~= all.take(i as int) + (seq![item] + rest.filter(kept)));
        } else {
            let _ = items.remove(i);
            assert(items@ =~= all.take(i as int) + (Seq::empty() + rest.filter(kept)));
        }
    }
    assert(all.take(0) =~= Seq::empty());
    assert(all.skip(0) =~= all);
    assert(items@ =~= all.filter(kept));
}

/// Takes out every front that is equal to `front`.
fn retain_other_fronts(fronts: &mut Vec<HttpFront>, front: &HttpFront)
    ensures
        front_views(final(fronts)@) == front_views(old(fronts)@).filter(differs(front@)),
{
    let ghost all = fronts@;
    let ghost kept = |f: HttpFront| f@ != front@;
    let keep = |f: &HttpFront| -> (stays: bool)
        ensures
            stays == (f@ != front@),
        {
            !f.same_as(front)
        };
    retain(fronts, keep, Ghost(kept));
    proof {
        lemma_filter_view_commute(all, kept, differs(front@));
        assert(front_views(fronts@) =~= fronts@.map_values(|x: HttpFront| x.view()));
        assert(front_views(all) =~= all.map_values(|x: HttpFront| x.view()));
    }
}

/// Takes out every instance at `address`.
fn retain_other_backends(backends: &mut Vec<Backend>, address: &SocketAddr)
    ensures
        final(backends)@ == old(backends)@.filter(is_elsewhere(*address)),
{
    let keep = |b: &Backend| -> (stays: bool)
        ensures
            stays == (b.address != *address),
        {
            b.address != *address
        };
    retain(backends, keep, Ghost(is_elsewhere(*address)));
}

/// The places of the instances that take connections.
fn open_backends(backends: &Vec<Backend>) -> (places: Vec<usize>)
    ensures
        places@.map_values(|i: usize| i as int) == open_places(backends@),
{
    let ghost all = Seq::new(backends@.len(), |i: int| i);
    let ghost open = |i: int| backends@[i].is_open();
    let mut places: Vec<usize> = Vec::new();
    let mut i: usize = 0;
    assert(places@.map_values(|i: usize| i as int) =~= all.take(0).filter(open)) by {
        reveal(Seq::filter);
    }
    while i < backends.len()
        invariant
            i <= backends@.len(),
            all == Seq::new(backends@.len(), |i: int| i),
            open == (|i: int| backends@[i].is_open()),
            places@.map_values(|i: usize| i as int) == all.take(i as int).filter(open),
        decreases backends@.len() - i,
    {
        let ghost before = places@;
        proof {
            reveal(Seq::filter);
            assert(all.take(i + 1).drop_last() =~= all.take(i as int));
            assert(all.take(i + 1).last() == i);
        }
        if backends[i].can_open() {
            places.push(i);
            assert(places@.map_values(|i: usize| i as int) =~= before.map_values(
                |i: usize| i as int,
            ).push(i as int));
        }
        i = i + 1;
    }
    assert(all.take(i as int) =~= all);
    places
}

/// The place of the first instance at `address`.
fn find_backend(backends: &Vec<Backend>, address: &SocketAddr) -> (place: Option<usize>)
    ensures
        match place {
            Some(i) => is_first_at(backends@, *address, i as int),
            None => forall|i: int|
                0 <= i < backends@.len() ==> (#[trigger] backends@[i]).address != *address,
        },
{
    let mut i: usize = 0;
    while i < backends.len()
        invariant
            i <= backends@.len(),
            forall|j: int| 0 <= j < i ==> (#[trigger] backends@[j]).address != *address,
        decreases backends@.len() - i,
    {
        if backends[i].address == *address {
            return Some(i);
        }
        i = i + 1;
    }
    None
}

impl ServerConfiguration {
    /// What every configuration keeps.
    pub closed spec fn wf(&self) -> bool {
        &&& self.instances.wf()
        &&& self.fronts.wf()
        &&& self@.fronts_are_filed()
    }

    /// A configuration without routes and instances. Its answers and its timeouts do not depend
    /// on `config`.
    pub fn new(config: HttpProxyConfiguration) -> (server: ServerConfiguration)
        ensures
            server.wf(),
            server@ == ServerView::fresh(config),
    {
        let server = ServerConfiguration {
            address: config.front,
            instances: Table::new(),
            fronts: Table::new(),
            answers: DefaultAnswers {
                NotFound:
                    "HTTP/1.1 404 Not Found\r\nCache-Control: no-cache\r\nConnection: close\r\n\r\n".as_bytes_vec(),
                ServiceUnavailable:
                    "HTTP/1.1 503 your application is in deployment\r\nCache-Control: no-cache\r\nConnection: close\r\n\r\n".as_bytes_vec(),
            },
            front_timeout: 5000,
            back_timeout: 5000,
            config,
        };
        assert(server@.instances =~= Map::empty());
        assert(server@.fronts =~= Map::empty());
        server
    }

    /// The front that serves `uri` on `host`.
    pub fn frontend_from_request(&self, host: &str, uri: &str) -> (front: Option<&HttpFront>)
        requires
            self.wf(),
        ensures
            match front {
                Some(front) => self@.front_for(host@, uri@) == Some(front@),
                None => self@.front_for(host@, uri@) is None,
            },
    {
        match self.fronts.get(host) {
            Some(fronts) => {
                assert(self@.fronts_of(host@) == front_views(fronts@));
                match best_front(fronts, uri) {
                    Some(i) => {
                        proof {
                            crate::lists::lemma_best_is_unique(front_views(fronts@), uri@);
                            assert(is_best(front_views(fronts@), uri@, i as int));
                        }
                        Some(&fronts[i])
                    },
                    None => None,
                }
            },
            None => None,
        }
    }
}

/// Changes of the configuration.
impl ServerConfiguration {
    /// Adds a front behind the others of its host name.
    pub fn add_http_front(&mut self, http_front: HttpFront)
        requires
            old(self).wf(),
        ensures
            final(self).wf(),
            final(self)@ == old(self)@.with_front(http_front@),
    {
        let ghost front = http_front@;
        let ghost before = self@;
        match self.fronts.get_mut(http_front.hostname.as_str()) {
            Some(fronts) => {
                proof {
                    assert(front_views(fronts@.push(http_front)) =~= front_views(fronts@).push(
                        http_front@,
                    ));
                }
                fronts.push(http_front);
            },
            None => {
                let hostname = http_front.hostname.clone();
                let mut fronts: Vec<HttpFront> = Vec::new();
                fronts.push(http_front);
                assert(front_views(fronts@) =~= Seq::empty().push(front));
                self.fronts.insert(hostname, fronts);
            },
        }
        assert(self@.fronts =~= before.with_front(front).fronts);
    }

    /// Removes every front that is equal to `front`.
    pub fn remove_http_front(&mut self, front: HttpFront)
        requires
            old(self).wf(),
        ensures
            final(self).wf(),
            final(self)@ == old(self)@.without_front(front@),
    {
        let ghost before = self@;
        match self.fronts.get_mut(front.hostname.as_str()) {
            Some(fronts) => {
                retain_other_fronts(fronts, &front);
            },
            None => {},
        }
        assert(self@.fronts =~= before.without_front(front@).fronts);
        proof {
            crate::lists::lemma_removal_keeps_filing(before, front@);
        }
    }

    /// Adds an instance behind the others of its application.
    pub fn add_instance(&mut self, app_id: &str, instance_address: &SocketAddr)
        requires
            old(self).wf(),
        ensures
            final(self).wf(),
            final(self)@ == old(self)@.with_instance(app_id@, *instance_address),
    {
        let ghost before = self@;
        let backend = Backend::new(*instance_address);
        match self.instances.get_mut(app_id) {
            Some(backends) => {
                backends.push(backend);
            },
            None => {
                let mut backends: Vec<Backend> = Vec::new();
                backends.push(backend);
                assert(backends@ =~= Seq::empty().push(backend));
                self.instances.insert(app_id.to_owned(), backends);
            },
        }
        assert(self@.instances =~= before.with_instance(app_id@, *instance_address).instances);
    }

    /// Removes every instance of the application at `instance_address`.
    pub fn remove_instance(&mut self, app_id: &str, instance_address: &SocketAddr)
        requires
            old(self).wf(),
        ensures
            final(self).wf(),
            final(self)@ == old(self)@.without_instance(app_id@, *instance_address),
    {
        let ghost before = self@;
        match self.instances.get_mut(app_id) {
            Some(backends) => {
                retain_other_backends(backends, instance_address);
            },
            None => {},
        }
        assert(self@.instances =~= before.without_instance(app_id@, *instance_address).instances);
    }

    /// A connection of the application to `addr` has ended.
    pub fn close_backend(&mut self, app_id: String, addr: &SocketAddr)
        requires
            old(self).wf(),
        ensures
            final(self).wf(),
            final(self)@ == old(self)@.with_connection_closed(app_id@, *addr),
    {
        let ghost before = self@;
        match self.instances.get_mut(app_id.as_str()) {
            Some(backends) => {
                let ghost list = backends@;
                assert(before.instances_of(app_id@) == list);
                match find_backend(backends, addr) {
                    Some(i) => {
                        let mut backend = backends[i];
                        let _ = backend.dec_connections();
                        backends.set(i, backend);
                        assert(is_first_at(list, *addr, i as int));
                        assert(backends@ =~= list.update(
                            i as int,
                            list[i as int].without_connection(),
                        ));
                    },
                    None => {},
                }
            },
            None => {},
        }
        assert(self@.instances =~= before.with_connection_closed(app_id@, *addr).instances);
    }

    /// Carries out an order, and returns the answer to it. `address` is what the text of
    /// `message.address_text()` was parsed to.
    pub fn notify(&mut self, message: ProxyOrder, address: Option<SocketAddr>) -> (answer: Option<
        ServerMessage,
    >)
        requires
            old(self).wf(),
        ensures
            final(self).wf(),
            final(self)@ == old(self)@.notified(message, address).0,
            match answer {
                Some(answer) => old(self)@.notified(message, address).1 == Some(answer@),
                None => old(self)@.notified(message, address).1 is None,
            },
    {
        match message {
            ProxyOrder::Command(id, Command::AddHttpFront(front)) => {
                self.add_http_front(front);
                Some(ServerMessage { id, message: ServerMessageType::AddedFront })
            },
            ProxyOrder::Command(id, Command::RemoveHttpFront(front)) => {
                self.remove_http_front(front);
                Some(ServerMessage { id, message: ServerMessageType::RemovedFront })
            },
            ProxyOrder::Command(id, Command::AddInstance(instance)) => {
                match address {
                    Some(address) => {
                        self.add_instance(instance.app_id.as_str(), &address);
                        Some(ServerMessage { id, message: ServerMessageType::AddedInstance })
                    },
                    None => Some(
                        ServerMessage {
                            id,
                            message: ServerMessageType::Error("cannot parse the address".to_owned()),
                        },
                    ),
                }
            },
            ProxyOrder::Command(id, Command::RemoveInstance(instance)) => {
                match address {
                    Some(address) => {
                        self.remove_instance(instance.app_id.as_str(), &address);
                        Some(ServerMessage { id, message: ServerMessageType::RemovedInstance })
                    },
                    None => Some(
                        ServerMessage {
                            id,
                            message: ServerMessageType::Error("cannot parse the address".to_owned()),
                        },
                    ),
                }
            },
            ProxyOrder::Command(_, Command::HttpProxy(configuration)) => {
                self.front_timeout = configuration.front_timeout;
                self.back_timeout = configuration.back_timeout;
                self.answers = DefaultAnswers {
                    NotFound: configuration.answer_404.as_str().as_bytes_vec(),
                    ServiceUnavailable: configuration.answer_503.as_str().as_bytes_vec(),
                };
                None
            },
            ProxyOrder::Stop(id) => Some(
                ServerMessage { id, message: ServerMessageType::Stopped },
            ),
            ProxyOrder::Command(id, Command::Unsupported) => Some(
                ServerMessage {
                    id,
                    message: ServerMessageType::Error("unsupported message".to_owned()),
                },
            ),
        }
    }
}

/// From a request to a backend.
impl ServerConfiguration {
    /// The application that a request goes to. `authority` is what the parser makes of the
    /// request's `Host` header.
    pub fn route(&self, state: &HttpState, authority: &Authority) -> (app_id: Result<
        String,
        ConnectionError,
    >)
        requires
            self.wf(),
        ensures
            match app_id {
                Ok(app_id) => self@.route(state@, authority@) == Ok::<Seq<char>, ConnectionError>(
                    app_id@,
                ),
                Err(error) => self@.route(state@, authority@) == Err::<Seq<char>, ConnectionError>(
                    error,
                ),
            },
    {
        let header: &String = match &state.host {
            Some(host) => host,
            None => {
                return Err(ConnectionError::NoHostGiven);
            },
        };
        let host: &str = match authority {
            Authority::Invalid => {
                return Err(ConnectionError::ToBeDefined);
            },
            Authority::Parsed { hostname, port, rest } => {
                if rest.len() > 0 {
                    return Err(ConnectionError::ToBeDefined);
                }
                let is_80: bool = match port {
                    Some(port) => port.len() == 2 && port[0] == '8' as u8 && port[1] == '0' as u8,
                    None => false,
                };
                proof {
                    assert(is_80 ==> port->0@ =~= seq!['8' as u8, '0' as u8]);
                }
                if is_80 {
                    hostname.as_str()
                } else {
                    header.as_str()
                }
            },
        };
        let uri: &String = match &state.uri {
            Some(uri) => uri,
            None => {
                return Err(ConnectionError::NoRequestLineGiven);
            },
        };
        match self.frontend_from_request(host, uri.as_str()) {
            Some(front) => Ok(front.app_id.clone()),
            None => Err(ConnectionError::HostNotFound),
        }
    }

    /// Whether an instance of the application can be chosen, or there is none to choose from.
    pub fn can_choose(&self, app_id: &str) -> (possible: bool)
        requires
            self.wf(),
        ensures
            possible == self@.can_choose(app_id@),
    {
        match self.instances.get(app_id) {
            Some(backends) => {
                assert(self@.instances_of(app_id@) == backends@);
                let places = open_backends(backends);
                proof {
                    crate::lists::lemma_open_places(backends@);
                }
                backends.len() == 0 || places.len() > 0
            },
            None => true,
        }
    }

    /// Whether a client's request can be sent on its way.
    pub fn can_connect<Front, Back>(
        &self,
        client: &Client<Front, Back>,
        authority: &Authority,
    ) -> (possible: bool)
        requires
            self.wf(),
        ensures
            possible == self@.can_connect(client@, authority@),
    {
        match self.route(client.http_state(), authority) {
            Ok(app_id) => client.belongs_to(app_id.as_str()) || (self.can_choose(app_id.as_str())
                && (!client.has_app_id() || client.back_socket().is_some())),
            Err(_) => true,
        }
    }

    /// Chooses an instance of the application for a client at random.
    pub fn backend_from_app_id<Front, Back>(
        &mut self,
        client: &mut Client<Front, Back>,
        app_id: &str,
    ) -> (chosen: Result<Candidate, ConnectionError>)
        requires
            old(self).wf(),
            old(self)@.can_choose(app_id@),
        ensures
            *final(self) == *old(self),
            exists|rnd: usize|
                (final(client)@, chosen) == #[trigger] old(self)@.choose_backend(
                    old(client)@,
                    app_id@,
                    rnd,
                ),
    {
        let rnd: usize = random_usize();
        self.choose_backend(client, app_id, rnd)
    }

    /// Chooses an instance of the application for a client by the number `rnd`.
    pub fn choose_backend<Front, Back>(
        &self,
        client: &mut Client<Front, Back>,
        app_id: &str,
        rnd: usize,
    ) -> (chosen: Result<Candidate, ConnectionError>)
        requires
            self.wf(),
            self@.can_choose(app_id@),
        ensures
            (final(client)@, chosen) == self@.choose_backend(old(client)@, app_id@, rnd),
    {
        client.assign_app_id(app_id);
        match self.instances.get(app_id) {
            Some(backends) => {
                assert(self@.instances[app_id@] == backends@);
                if backends.len() == 0 {
                    client.set_answer(self.answers.ServiceUnavailable.as_slice());
                    return Err(ConnectionError::NoBackendAvailable);
                }
                let places = open_backends(backends);
                proof {
                    crate::lists::lemma_open_places(backends@);
                }
                let place: usize = places[rnd % places.len()];
                proof {
                    let n = rnd as int % places@.len() as int;
                    assert(open_places(backends@)[n] == places@.map_values(|i: usize| i as int)[n]);
                }
                Ok(Candidate { index: place, address: backends[place].address })
            },
            None => Err(ConnectionError::NoBackendAvailable),
        }
    }

    /// Sends a client's request on its way: chooses an instance at random if a connection has to
    /// be opened, or refuses the request. `authority` is what the parser makes of the request's
    /// `Host` header.
    pub fn connect_to_backend<Front, Back>(
        &mut self,
        client: &mut Client<Front, Back>,
        authority: &Authority,
    ) -> (connect: Result<Connect, ConnectionError>)
        requires
            old(self).wf(),
            old(self)@.can_connect(old(client)@, authority@),
        ensures
            *final(self) == *old(self),
            exists|rnd: usize|
                (final(client)@, connect) == #[trigger] old(self)@.connect(
                    old(client)@,
                    authority@,
                    rnd,
                ),
    {
        let rnd: usize = random_usize();
        self.connect_with(client, authority, rnd)
    }

    /// Sends a client's request on its way, with `rnd` as the number that chooses.
    pub fn connect_with<Front, Back>(
        &self,
        client: &mut Client<Front, Back>,
        authority: &Authority,
        rnd: usize,
    ) -> (connect: Result<Connect, ConnectionError>)
        requires
            self.wf(),
            self@.can_connect(old(client)@, authority@),
        ensures
            (final(client)@, connect) == self@.connect(old(client)@, authority@, rnd),
    {
        let app_id = match self.route(client.http_state(), authority) {
            Ok(app_id) => app_id,
            Err(error) => {
                if error == ConnectionError::HostNotFound {
                    client.set_answer(self.answers.NotFound.as_slice());
                    client.readiness().want_front(ReadyKind::Writable);
                }
                return Err(error);
            },
        };
        if client.belongs_to(app_id.as_str()) {
            return Ok(Connect::Reuse);
        }
        let replaces: bool = client.has_app_id();
        if replaces {
            client.shutdown_backend();
        }
        match self.choose_backend(client, app_id.as_str(), rnd) {
            Ok(candidate) => Ok(Connect::Open { candidate, replaces }),
            Err(error) => {
                client.set_answer(self.answers.ServiceUnavailable.as_slice());
                client.readiness().want_front(ReadyKind::Writable);
                Err(error)
            },
        }
    }

    /// The connection to the candidate is open, with `socket`, and counts for the instance, or it
    /// could not be opened.
    pub fn backend_opened<Back>(
        &mut self,
        app_id: &str,
        candidate: Candidate,
        socket: Option<Back>,
    ) -> (opened: Result<Back, ConnectionError>)
        requires
            old(self).wf(),
            socket is Some ==> {
                &&& candidate.index < old(self)@.instances_of(app_id@).len()
                &&& old(self)@.instances_of(app_id@)[candidate.index as int].active_connections
                    < usize::MAX
            },
        ensures
            final(self).wf(),
            (final(self)@, opened) == old(self)@.opened(app_id@, candidate, socket),
    {
        let ghost before = self@;
        let socket = match socket {
            Some(socket) => socket,
            None => {
                return Err(ConnectionError::NoBackendAvailable);
            },
        };
        match self.instances.get_mut(app_id) {
            Some(backends) => {
                let ghost list = backends@;
                assert(before.instances_of(app_id@) == list);
                let mut backend = backends[candidate.index];
                let _ = backend.inc_connections();
                backends.set(candidate.index, backend);
                assert(backends@ =~= list.update(
                    candidate.index as int,
                    list[candidate.index as int].with_connection(),
                ));
            },
            None => {},
        }
        assert(self@.instances =~= before.with_backend_at(
            app_id@,
            candidate.index as int,
            before.instances[app_id@][candidate.index as int].with_connection(),
        ).instances);
        Ok(socket)
    }

    /// Gives the client the connection to the candidate, which is open, with `socket`, or refuses
    /// the request if it could not be opened.
    pub fn backend_connected<Front, Back>(
        &mut self,
        client: &mut Client<Front, Back>,
        candidate: Candidate,
        replaces: bool,
        socket: Option<Back>,
    ) -> (action: Result<BackendConnectAction, ConnectionError>)
        requires
            old(self).wf(),
            old(client)@.app_id is Some,
            socket is Some ==> {
                let backends = old(self)@.instances_of(old(client)@.app_id->0);
                &&& candidate.index < backends.len()
                &&& backends[candidate.index as int].active_connections < usize::MAX
            },
        ensures
            final(self).wf(),
            final(self)@ == old(self)@.opened(old(client)@.app_id->0, candidate, socket).0,
            match socket {
                Some(socket) => {
                    &&& action == (if replaces {
                        Ok::<BackendConnectAction, ConnectionError>(BackendConnectAction::Replace)
                    } else {
                        Ok::<BackendConnectAction, ConnectionError>(BackendConnectAction::New)
                    })
                    &&& final(client)@ == old(client)@.connected(socket)
                },
                None => {
                    &&& action == Err::<BackendConnectAction, ConnectionError>(
                        ConnectionError::NoBackendAvailable,
                    )
                    &&& final(client)@ == old(client)@.refused(
                        old(self)@.answers.service_unavailable,
                    )
                },
            },
    {
        let app_id = client.app_id_text();
        match self.backend_opened(app_id.as_str(), candidate, socket) {
            Ok(socket) => {
                client.set_back_socket(socket);
                client.readiness().want_back(ReadyKind::Writable);
                client.readiness().want_back(ReadyKind::Hup);
                client.readiness().want_back(ReadyKind::Error);
                if replaces {
                    Ok(BackendConnectAction::Replace)
                } else {
                    Ok(BackendConnectAction::New)
                }
            },
            Err(error) => {
                client.set_answer(self.answers.ServiceUnavailable.as_slice());
                client.readiness().want_front(ReadyKind::Writable);
                Err(error)
            },
        }
    }

    /// A client has connected over `sock`. It waits for its request.
    pub fn accept<Front, Back>(&self, sock: Front, ends: &Endpoints) -> (accepted: Option<
        (Client<Front, Back>, bool),
    >)
        ensures
            accepted matches Some((client, late)) && {
                &&& !late
                &&& exists|request_id: Seq<char>, start: u64|
                    is_random_uuid(request_id) && client@ == ({
                        let fresh = #[trigger] ClientView::<Front, Back>::fresh(
                            "HTTP"@,
                            sock,
                            ends@,
                            request_id,
                            start,
                        );
                        fresh.with_readiness(fresh.readiness.want_front(ReadyKind::Readable))
                    })
            },
    {
        match Client::new("HTTP", sock, ends) {
            Some(client) => {
                let mut client = client;
                let ghost fresh = client@;
                client.readiness().want_front(ReadyKind::Readable);
                client.readiness().leave_back(ReadyKind::Readable);
                client.readiness().leave_back(ReadyKind::Writable);
                assert(client@ =~= fresh.with_readiness(
                    fresh.readiness.want_front(ReadyKind::Readable),
                ));
                Some((client, false))
            },
            None => None,
        }
    }
}

/// The parts of the configuration.
impl ServerConfiguration {
    /// The number of buffers that the connections share: two for each.
    pub fn buffer_count(&self) -> (count: usize)
        requires
            2 * self@.config.max_connections <= usize::MAX,
        ensures
            count == 2 * self@.config.max_connections,
    {
        2 * self.config.max_connections
    }

    /// The settings that the configuration was made with.
    pub fn config(&self) -> (config: &HttpProxyConfiguration)
        ensures
            *config == self@.config,
    {
        &self.config
    }

    /// The address that the proxy listens on.
    pub fn address(&self) -> (address: SocketAddr)
        ensures
            address == self@.address,
    {
        self.address
    }

    /// The answers that the proxy gives by itself.
    pub fn answers(&self) -> (answers: &DefaultAnswers)
        ensures
            answers@ == self@.answers,
    {
        &self.answers
    }

    /// The instances of an application.
    pub fn instances(&self, app_id: &str) -> (instances: Option<&Vec<Backend>>)
        requires
            self.wf(),
        ensures
            match instances {
                Some(instances) => self@.instances.contains_key(app_id@)
                    && self@.instances[app_id@] == instances@,
                None => !self@.instances.contains_key(app_id@),
            },
    {
        self.instances.get(app_id)
    }

    pub fn front_timeout(&self) -> (timeout: u64)
        ensures
            timeout == self@.front_timeout,
    {
        self.front_timeout
    }

    pub fn back_timeout(&self) -> (timeout: u64)
        ensures
            timeout == self@.back_timeout,
    {
        self.back_timeout
    }
}

} // verus!
