//! What holds of the proxy as a whole. Whole events are in `event_laws`.

use vstd::prelude::*;

use crate::address::{EndpointsView, SocketAddr};
use crate::backend::Backend;
use crate::client_view::ClientView;
use crate::events::{
    BufferState, ClientResult, EffectView, InputView, Phase, Side, SocketResult, Step,
};
use crate::lists::{
    lemma_best_exists, lemma_best_is_unique, lemma_filter_again, lemma_filter_keeps_all,
    lemma_open_places,
};
use crate::messages::{Command, HttpFrontView, HttpProxyConfiguration, ProxyOrder};
use crate::parser::{AuthorityView, HttpStateView, RequestState, ResponseState};
use crate::ready::{ReadinessView, ReadyKind};
use crate::server_view::{
    differs, host_key, is_best, is_elsewhere, is_first_at, open_places, serves, Candidate, Connect,
    ConnectionError, ServerView,
};

verus! {

/// A request finds a front exactly if some front of its host serves it.
pub proof fn law_a_front_is_found_if_one_serves(server: ServerView, host: Seq<char>, uri: Seq<char>)
    ensures
        server.front_for(host, uri) is Some <==> exists|i: int|
            0 <= i < server.fronts_of(host).len() && serves(
                #[trigger] server.fronts_of(host)[i],
                uri,
            ),
{
    let fronts = server.fronts_of(host);
    if exists|i: int| 0 <= i < fronts.len() && serves(#[trigger] fronts[i], uri) {
        lemma_best_exists(fronts, uri);
    }
}

/// The front that a request finds serves it, and no front that serves it has a longer path.
pub proof fn law_the_longest_path_wins(
    server: ServerView,
    host: Seq<char>,
    uri: Seq<char>,
    i: int,
)
    requires
        0 <= i < server.fronts_of(host).len(),
        serves(server.fronts_of(host)[i], uri),
    ensures
        server.front_for(host, uri) matches Some(front) && serves(front, uri)
            && server.fronts_of(host).contains(front)
            && server.fronts_of(host)[i].path_begin.len() <= front.path_begin.len(),
{
    lemma_best_exists(server.fronts_of(host), uri);
}

/// The front with the longest path that serves a request is the one that is found; of several
/// such fronts it is the one that was added first.
pub proof fn law_the_first_of_equal_paths_wins(
    server: ServerView,
    host: Seq<char>,
    uri: Seq<char>,
    i: int,
)
    requires
        0 <= i < server.fronts_of(host).len(),
        serves(server.fronts_of(host)[i], uri),
        forall|j: int|
            0 <= j < server.fronts_of(host).len() && serves(
                #[trigger] server.fronts_of(host)[j],
                uri,
            ) ==> {
                &&& server.fronts_of(host)[j].path_begin.len() <= server.fronts_of(
                    host,
                )[i].path_begin.len()
                &&& j < i ==> server.fronts_of(host)[j].path_begin.len() < server.fronts_of(
                    host,
                )[i].path_begin.len()
            },
    ensures
        server.front_for(host, uri) == Some(server.fronts_of(host)[i]),
{
    assert(is_best(server.fronts_of(host), uri, i));
    lemma_best_is_unique(server.fronts_of(host), uri);
}

/// A longer URI finds a front whose path is that of the front found before, or goes on from it.
pub proof fn law_a_longer_uri_finds_a_longer_path(
    server: ServerView,
    host: Seq<char>,
    uri: Seq<char>,
    longer: Seq<char>,
)
    requires
        uri.is_prefix_of(longer),
    ensures
        server.front_for(host, uri) matches Some(front) ==> (server.front_for(
            host,
            longer,
        ) matches Some(next) && front.path_begin.is_prefix_of(next.path_begin)),
{
    let fronts = server.fronts_of(host);
    if exists|i: int| is_best(fronts, uri, i) {
        let i = choose|i: int| is_best(fronts, uri, i);
        let path = fronts[i].path_begin;
        assert(path =~= longer.subrange(0, path.len() as int)) by {
            assert(path =~= uri.subrange(0, path.len() as int));
            assert(uri =~= longer.subrange(0, uri.len() as int));
        }
        assert(serves(fronts[i], longer));
        lemma_best_exists(fronts, longer);
        let j = choose|j: int| is_best(fronts, longer, j);
        let next = fronts[j].path_begin;
        assert(path =~= next.subrange(0, path.len() as int)) by {
            assert(next =~= longer.subrange(0, next.len() as int));
        }
    }
}

/// A `Host` header with port 80 leads where the bare host name leads; with any other port, or
/// without one, the header leads where its whole text does.
pub proof fn law_port_80_is_left_out(
    server: ServerView,
    state: HttpStateView,
    hostname: Seq<char>,
    port: Option<Seq<u8>>,
    bare: HttpStateView,
)
    requires
        state.host is Some,
        bare.host == Some(
            if port == Some(seq!['8' as u8, '0' as u8]) {
                hostname
            } else {
                state.host->0
            },
        ),
        bare.uri == state.uri,
    ensures
        server.route(
            state,
            AuthorityView::Parsed { hostname, port, rest: Seq::empty() },
        ) == server.route(
            bare,
            AuthorityView::Parsed { hostname, port: None, rest: Seq::empty() },
        ),
        state.uri matches Some(uri) ==> server.route(
            state,
            AuthorityView::Parsed { hostname, port, rest: Seq::empty() },
        ) == (match server.front_for(bare.host->0, uri) {
            Some(front) => Ok::<Seq<char>, ConnectionError>(front.app_id),
            None => Err::<Seq<char>, ConnectionError>(ConnectionError::HostNotFound),
        }),
{
}

/// A request is served by a front that names its host.
pub proof fn law_a_front_names_its_host(server: ServerView, host: Seq<char>, uri: Seq<char>)
    requires
        server.fronts_are_filed(),
    ensures
        server.front_for(host, uri) matches Some(front) ==> front.hostname == host,
{
    let fronts = server.fronts_of(host);
    if exists|i: int| is_best(fronts, uri, i) {
        let i = choose|i: int| is_best(fronts, uri, i);
        assert(server.fronts[host][i].hostname == host);
    }
}

/// Adding or removing a front changes nothing for other hosts.
pub proof fn law_fronts_do_not_touch_other_hosts(
    server: ServerView,
    front: HttpFrontView,
    host: Seq<char>,
    uri: Seq<char>,
)
    requires
        host != front.hostname,
    ensures
        server.with_front(front).front_for(host, uri) == server.front_for(host, uri),
        server.without_front(front).front_for(host, uri) == server.front_for(host, uri),
{
    assert(server.with_front(front).fronts_of(host) == server.fronts_of(host));
    assert(server.without_front(front).fronts_of(host) == server.fronts_of(host));
}

/// A front that is added serves the requests that no front before it served with a path at least
/// as long, and no others.
pub proof fn law_an_added_front_serves(server: ServerView, front: HttpFrontView, uri: Seq<char>)
    ensures
        server.with_front(front).front_for(front.hostname, uri) == (if serves(front, uri) && (
        server.front_for(front.hostname, uri) matches Some(other) ==> other.path_begin.len()
            < front.path_begin.len()) {
            Some(front)
        } else {
            server.front_for(front.hostname, uri)
        }),
{
    let before = server.fronts_of(front.hostname);
    let after = before.push(front);
    let n = before.len() as int;
    assert(server.with_front(front).fronts_of(front.hostname) == after);
    lemma_best_is_unique(before, uri);
    lemma_best_is_unique(after, uri);
    if exists|i: int| is_best(before, uri, i) {
        let i = choose|i: int| is_best(before, uri, i);
        assert(after[i] == before[i]);
        assert(after[n] == front);
        if serves(front, uri) && before[i].path_begin.len() < front.path_begin.len() {
            assert forall|j: int|
                #![trigger after[j]]
                0 <= j < after.len() && serves(after[j], uri) implies after[j].path_begin.len()
                <= front.path_begin.len() && (j < n ==> after[j].path_begin.len()
                < front.path_begin.len()) by {
                if j < n {
                    assert(after[j] == before[j]);
                }
            }
            assert(is_best(after, uri, n));
        } else {
            assert forall|j: int|
                #![trigger after[j]]
                0 <= j < after.len() && serves(after[j], uri) implies after[j].path_begin.len()
                <= after[i].path_begin.len() && (j < i ==> after[j].path_begin.len()
                < after[i].path_begin.len()) by {
                if j < n {
                    assert(after[j] == before[j]);
                }
            }
            assert(is_best(after, uri, i));
        }
    } else {
        assert forall|j: int| 0 <= j < n implies !serves(#[trigger] before[j], uri) by {
            if serves(before[j], uri) {
                lemma_best_exists(before, uri);
            }
        }
        assert(after[n] == front);
        if serves(front, uri) {
            assert forall|j: int|
                #![trigger after[j]]
                0 <= j < after.len() && serves(after[j], uri) implies j == n by {
                if j < n {
                    assert(after[j] == before[j]);
                }
            }
            assert(is_best(after, uri, n));
        } else {
            assert forall|j: int| !is_best(after, uri, j) by {
                if is_best(after, uri, j) && j < n {
                    assert(after[j] == before[j]);
                }
            }
        }
    }
}

/// The configuration after a front was added `n` times.
pub open spec fn with_copies(server: ServerView, front: HttpFrontView, n: nat) -> ServerView
    decreases n,
{
    if n == 0 {
        server
    } else {
        with_copies(server, front, (n - 1) as nat).with_front(front)
    }
}

/// The configuration after an instance was added `n` times.
pub open spec fn with_instance_copies(
    server: ServerView,
    app_id: Seq<char>,
    address: SocketAddr,
    n: nat,
) -> ServerView
    decreases n,
{
    if n == 0 {
        server
    } else {
        with_instance_copies(server, app_id, address, (n - 1) as nat).with_instance(app_id, address)
    }
}

/// Copies of a front leave the other fronts of its host name, and all those of other host names.
proof fn lemma_copies_of_a_front(server: ServerView, front: HttpFrontView, n: nat)
    ensures
        with_copies(server, front, n).fronts_of(front.hostname).filter(differs(front))
            == server.fronts_of(front.hostname).filter(differs(front)),
        forall|host: Seq<char>|
            host != front.hostname ==> #[trigger] with_copies(server, front, n).fronts_of(host)
                == server.fronts_of(host),
    decreases n,
{
    if n > 0 {
        let before = with_copies(server, front, (n - 1) as nat);
        lemma_copies_of_a_front(server, front, (n - 1) as nat);
        before.fronts_of(front.hostname).lemma_filter_push(front, differs(front));
        assert forall|host: Seq<char>| host != front.hostname implies #[trigger] with_copies(
            server,
            front,
            n,
        ).fronts_of(host) == server.fronts_of(host) by {
            assert(before.fronts_of(host) == server.fronts_of(host));
        }
    }
}

/// Removing a front that was added, any number of times, and that was not there before, takes
/// every request back to where it went.
pub proof fn law_removing_an_added_front_undoes_it(
    server: ServerView,
    front: HttpFrontView,
    n: nat,
    host: Seq<char>,
    uri: Seq<char>,
)
    requires
        !server.fronts_of(front.hostname).contains(front),
    ensures
        with_copies(server, front, n).without_front(front).fronts_of(host) == server.fronts_of(
            host,
        ),
        with_copies(server, front, n).without_front(front).front_for(host, uri) == server.front_for(
            host,
            uri,
        ),
{
    let added = with_copies(server, front, n);
    let fronts = server.fronts_of(front.hostname);
    lemma_copies_of_a_front(server, front, n);
    assert forall|i: int| 0 <= i < fronts.len() implies differs(front)(#[trigger] fronts[i]) by {
        assert(fronts.contains(fronts[i]));
    }
    lemma_filter_keeps_all(fronts, differs(front));
    if host != front.hostname {
        assert(added.fronts_of(host) == server.fronts_of(host));
    }
    assert(added.without_front(front).fronts_of(host) =~= server.fronts_of(host));
}

/// Removing a front a second time changes nothing.
pub proof fn law_a_front_is_removed_once(server: ServerView, front: HttpFrontView)
    ensures
        server.without_front(front).without_front(front) == server.without_front(front),
{
    let once = server.without_front(front);
    if server.fronts.contains_key(front.hostname) {
        lemma_filter_again(server.fronts[front.hostname], differs(front));
    }
    assert(once.without_front(front).fronts =~= once.fronts);
}

/// A front that was removed serves no request.
pub proof fn law_a_removed_front_serves_nothing(
    server: ServerView,
    front: HttpFrontView,
    host: Seq<char>,
    uri: Seq<char>,
)
    requires
        server.fronts_are_filed(),
    ensures
        server.without_front(front).front_for(host, uri) != Some(front),
{
    let after = server.without_front(front);
    let fronts = after.fronts_of(host);
    if exists|i: int| is_best(fronts, uri, i) {
        let i = choose|i: int| is_best(fronts, uri, i);
        if host == front.hostname {
            server.fronts[host].lemma_filter_pred(differs(front), i);
        } else {
            assert(server.fronts[host][i].hostname == host);
        }
    }
}

/// Adding or removing an instance changes nothing for other applications.
pub proof fn law_instances_do_not_touch_other_applications(
    server: ServerView,
    app_id: Seq<char>,
    address: SocketAddr,
    other: Seq<char>,
)
    requires
        other != app_id,
    ensures
        server.with_instance(app_id, address).instances_of(other) == server.instances_of(other),
        server.without_instance(app_id, address).instances_of(other) == server.instances_of(other),
        server.with_connection_closed(app_id, address).instances_of(other)
            == server.instances_of(other),
{
}

/// Copies of an instance leave the instances of its application at other addresses.
proof fn lemma_copies_of_an_instance(
    server: ServerView,
    app_id: Seq<char>,
    address: SocketAddr,
    n: nat,
)
    ensures
        with_instance_copies(server, app_id, address, n).instances_of(app_id).filter(
            is_elsewhere(address),
        ) == server.instances_of(app_id).filter(is_elsewhere(address)),
    decreases n,
{
    if n > 0 {
        let before = with_instance_copies(server, app_id, address, (n - 1) as nat);
        lemma_copies_of_an_instance(server, app_id, address, (n - 1) as nat);
        before.instances_of(app_id).lemma_filter_push(
            Backend::fresh(address),
            is_elsewhere(address),
        );
    }
}

/// Removing an instance that was added, any number of times, at an address that had none before,
/// undoes it.
pub proof fn law_removing_an_added_instance_undoes_it(
    server: ServerView,
    app_id: Seq<char>,
    address: SocketAddr,
    n: nat,
)
    requires
        forall|i: int|
            0 <= i < server.instances_of(app_id).len() ==> (#[trigger] server.instances_of(
                app_id,
            )[i]).address != address,
    ensures
        with_instance_copies(server, app_id, address, n).without_instance(
            app_id,
            address,
        ).instances_of(app_id) == server.instances_of(app_id),
{
    lemma_copies_of_an_instance(server, app_id, address, n);
    lemma_filter_keeps_all(server.instances_of(app_id), is_elsewhere(address));
}

/// Removing an instance a second time changes nothing.
pub proof fn law_an_instance_is_removed_once(
    server: ServerView,
    app_id: Seq<char>,
    address: SocketAddr,
)
    ensures
        server.without_instance(app_id, address).without_instance(app_id, address)
            == server.without_instance(app_id, address),
{
    let once = server.without_instance(app_id, address);
    if server.instances.contains_key(app_id) {
        lemma_filter_again(server.instances[app_id], is_elsewhere(address));
    }
    assert(once.without_instance(app_id, address).instances =~= once.instances);
}

/// After an address was removed, no connection goes there.
pub proof fn law_a_removed_address_is_never_chosen(
    server: ServerView,
    app_id: Seq<char>,
    address: SocketAddr,
    rnd: usize,
)
    requires
        server.without_instance(app_id, address).can_choose(app_id),
        server.without_instance(app_id, address).instances_of(app_id).len() > 0,
    ensures
        server.without_instance(app_id, address).candidate(app_id, rnd).address != address,
{
    let after = server.without_instance(app_id, address);
    let backends = after.instances_of(app_id);
    let places = open_places(backends);
    lemma_open_places(backends);
    let n = rnd as int % places.len() as int;
    assert(0 <= n < places.len());
    assert(0 <= places[n] < backends.len());
    server.instances[app_id].lemma_filter_pred(is_elsewhere(address), places[n]);
}

/// The instance that is chosen is one of the application's and takes connections.
pub proof fn law_the_candidate_takes_connections(server: ServerView, app_id: Seq<char>, rnd: usize)
    requires
        server.can_choose(app_id),
        0 < server.instances_of(app_id).len() <= usize::MAX,
    ensures
        server.candidate(app_id, rnd).index < server.instances_of(app_id).len(),
        server.instances_of(app_id)[server.candidate(app_id, rnd).index as int].is_open(),
        server.instances_of(app_id)[server.candidate(app_id, rnd).index as int].address
            == server.candidate(app_id, rnd).address,
{
    let backends = server.instances_of(app_id);
    let places = open_places(backends);
    lemma_open_places(backends);
    let n = rnd as int % places.len() as int;
    assert(0 <= n < places.len());
    assert(0 <= places[n] < backends.len());
}

/// Every instance that takes connections is chosen by some number.
pub proof fn law_every_open_instance_can_be_chosen(server: ServerView, app_id: Seq<char>, i: int)
    requires
        0 <= i < server.instances_of(app_id).len() <= usize::MAX,
        server.instances_of(app_id)[i].is_open(),
    ensures
        exists|rnd: usize| (#[trigger] server.candidate(app_id, rnd)).index == i,
{
    let backends = server.instances_of(app_id);
    let places = open_places(backends);
    let all = Seq::new(backends.len(), |i: int| i);
    let open = |i: int| backends[i].is_open();
    assert(places == all.filter(open));
    assert(open(all[i]));
    all.lemma_filter_contains(open, i);
    all.lemma_filter_len(open);
    let n = choose|n: int| 0 <= n < places.len() && places[n] == i;
    let rnd = n as usize;
    assert(n % places.len() as int == n) by (nonlinear_arith)
        requires
            0 <= n < places.len(),
    ;
    assert(server.candidate(app_id, rnd).index == i);
}

/// One connection is tried, to an open instance of the application, and the client is named after
/// the application and otherwise left alone. If the connection opens, that instance alone has one
/// more; if not, the error is the only outcome.
pub proof fn law_one_connection_is_tried<Front, Back>(
    server: ServerView,
    client: ClientView<Front, Back>,
    app_id: Seq<char>,
    rnd: usize,
    socket: Option<Back>,
)
    requires
        server.can_choose(app_id),
        0 < server.instances_of(app_id).len() <= usize::MAX,
    ensures
        server.choose_backend(client, app_id, rnd) matches (named, Ok(candidate)) && {
            let backends = server.instances_of(app_id);
            let i = candidate.index as int;
            &&& named == ClientView { app_id: Some(app_id), ..client }
            &&& 0 <= i < backends.len()
            &&& backends[i].is_open()
            &&& backends[i].address == candidate.address
            &&& match socket {
                Some(socket) => {
                    &&& server.opened(app_id, candidate, Some(socket)).1 == Ok::<
                        Back,
                        ConnectionError,
                    >(socket)
                    &&& server.opened(app_id, candidate, Some(socket)).0 == server.with_backend_at(
                        app_id,
                        i,
                        backends[i].with_connection(),
                    )
                },
                None => server.opened(app_id, candidate, socket) == (
                    server,
                    Err::<Back, ConnectionError>(ConnectionError::NoBackendAvailable),
                ),
            }
        },
{
    law_the_candidate_takes_connections(server, app_id, rnd);
}

/// Opening a connection and closing it again leaves every count as it was. The instance must be
/// the first at its address, for that is the one that gives the connection back.
pub proof fn law_closing_undoes_opening(server: ServerView, app_id: Seq<char>, i: int)
    requires
        server.instances.contains_key(app_id),
        0 <= i < server.instances[app_id].len(),
        is_first_at(server.instances[app_id], server.instances[app_id][i].address, i),
        server.instances[app_id][i].is_open(),
        server.instances[app_id][i].active_connections < usize::MAX,
    ensures
        server.with_backend_at(
            app_id,
            i,
            server.instances[app_id][i].with_connection(),
        ).with_connection_closed(app_id, server.instances[app_id][i].address) == server,
{
    let backend = server.instances[app_id][i];
    let opened = server.with_backend_at(app_id, i, backend.with_connection());
    let backends = opened.instances_of(app_id);
    assert(is_first_at(backends, backend.address, i)) by {
        assert forall|j: int| 0 <= j < i implies (#[trigger] backends[j]).address
            != backend.address by {
            assert(server.instances[app_id][j].address != backend.address);
        }
    }
    let closed = opened.with_connection_closed(app_id, backend.address);
    let j = choose|j: int| is_first_at(backends, backend.address, j);
    assert(j == i) by {
        if j < i {
            assert(backends[j].address != backend.address);
        }
        if i < j {
            assert(backends[i].address != backend.address);
        }
    }
    assert(closed.instances[app_id] =~= server.instances[app_id]);
    assert(closed.instances =~= server.instances);
}

/// A request that no front serves is answered with the 404 answer, and one that no instance can
/// serve with the 503 answer. Other errors leave the client as it was.
pub proof fn law_refused_requests_are_answered<Front, Back>(
    server: ServerView,
    client: ClientView<Front, Back>,
    authority: AuthorityView,
    rnd: usize,
)
    ensures
        ({
            let (after, result) = server.connect(client, authority, rnd);
            match result {
                Err(ConnectionError::HostNotFound) => {
                    &&& after.status is DefaultAnswer
                    &&& after.readiness.front_interest.contains(ReadyKind::Writable)
                    &&& after.effects =~= client.effects + seq![
                        EffectView::Reset(Side::Back),
                        EffectView::Write(Side::Back, server.answers.not_found),
                    ]
                },
                Err(ConnectionError::NoBackendAvailable) => {
                    &&& after.status is DefaultAnswer
                    &&& after.readiness.front_interest.contains(ReadyKind::Writable)
                    &&& after.effects.len() >= 2
                    &&& after.effects[after.effects.len() - 2] == EffectView::Reset(Side::Back)
                    &&& after.effects.last() == EffectView::Write(
                        Side::Back,
                        server.answers.service_unavailable,
                    )
                },
                Err(_) => after == client,
                Ok(_) => after.status == client.status,
            }
        }),
{
}

/// A request for an application that the client does not belong to yet gets a connection to the
/// chosen instance if the application has instances, and none otherwise.
pub proof fn law_a_routed_request_gets_an_instance<Front, Back>(
    server: ServerView,
    client: ClientView<Front, Back>,
    authority: AuthorityView,
    rnd: usize,
    app_id: Seq<char>,
)
    requires
        server.route(client.state, authority) == Ok::<Seq<char>, ConnectionError>(app_id),
        client.app_id != Some(app_id),
    ensures
        server.connect(client, authority, rnd).0.app_id == Some(app_id),
        server.connect(client, authority, rnd).1 == (if server.instances_of(app_id).len() > 0 {
            Ok::<Connect, ConnectionError>(
                Connect::Open {
                    candidate: server.candidate(app_id, rnd),
                    replaces: client.app_id is Some,
                },
            )
        } else {
            Err::<Connect, ConnectionError>(ConnectionError::NoBackendAvailable)
        }),
{
}

/// One front and one instance make a proxy: a new client whose request the front serves is
/// connected to the instance, whatever number is drawn.
pub proof fn law_a_front_and_an_instance_serve<Front, Back>(
    config: HttpProxyConfiguration,
    front: HttpFrontView,
    address: SocketAddr,
    client: ClientView<Front, Back>,
    authority: AuthorityView,
    rnd: usize,
)
    requires
        client.app_id is None,
        client.state.host matches Some(host) && host_key(host, authority) == Some(front.hostname),
        client.state.uri matches Some(uri) && serves(front, uri),
    ensures
        ({
            let server = ServerView::fresh(config).with_front(front).with_instance(
                front.app_id,
                address,
            );
            &&& server.can_connect(client, authority)
            &&& server.connect(client, authority, rnd) == (
                ClientView { app_id: Some(front.app_id), ..client },
                Ok::<Connect, ConnectionError>(
                    Connect::Open {
                        candidate: Candidate { index: 0, address },
                        replaces: false,
                    },
                ),
            )
        }),
{
    let server = ServerView::fresh(config).with_front(front).with_instance(front.app_id, address);
    let fronts = server.fronts_of(front.hostname);
    let uri = client.state.uri->0;
    assert(fronts =~= seq![front]);
    assert(is_best(fronts, uri, 0));
    lemma_best_is_unique(fronts, uri);
    let backends = server.instances_of(front.app_id);
    assert(backends =~= seq![Backend::fresh(address)]);
    assert(backends[0].is_open());
    law_the_candidate_takes_connections(server, front.app_id, rnd);
}

/// A client that got a backend for its request keeps it for the next request to the same place.
pub proof fn law_the_next_request_reuses_the_backend<Front, Back>(
    server: ServerView,
    client: ClientView<Front, Back>,
    authority: AuthorityView,
    rnd: usize,
    socket: Back,
    next: HttpStateView,
    next_rnd: usize,
)
    requires
        server.connect(client, authority, rnd).1 matches Ok(Connect::Open { .. }),
        next.host == client.state.host,
        next.uri == client.state.uri,
    ensures
        ({
            let connected = server.connect(client, authority, rnd).0.connected(socket);
            let asking = ClientView { state: next, ..connected };
            server.connect(asking, authority, next_rnd) == (
                asking,
                Ok::<Connect, ConnectionError>(Connect::Reuse),
            )
        }),
{
}

/// A client that starts over keeps its backend, and its next request to the same application uses
/// it again.
pub proof fn law_a_kept_connection_keeps_its_backend<Front, Back>(
    server: ServerView,
    client: ClientView<Front, Back>,
    ends: EndpointsView,
    request_id: Seq<char>,
    next: HttpStateView,
    authority: AuthorityView,
    rnd: usize,
    app_id: Seq<char>,
)
    requires
        client.app_id == Some(app_id),
        server.route(next, authority) == Ok::<Seq<char>, ConnectionError>(app_id),
    ensures
        ({
            let asking = ClientView { state: next, ..client.restarted(ends, request_id) };
            &&& asking.backend == client.backend
            &&& asking.backend_token == client.backend_token
            &&& server.can_connect(asking, authority)
            &&& server.connect(asking, authority, rnd) == (
                asking,
                Ok::<Connect, ConnectionError>(Connect::Reuse),
            )
        }),
{
}

/// A client leaves its backend exactly when it has one for another application, and the old
/// socket is shut down before anything else.
pub proof fn law_a_replaced_backend_is_shut_down<Front, Back>(
    server: ServerView,
    client: ClientView<Front, Back>,
    authority: AuthorityView,
    rnd: usize,
)
    ensures
        server.connect(client, authority, rnd).1 matches Ok(Connect::Open { replaces, .. }) ==> {
            &&& replaces == (client.app_id is Some)
            &&& server.connect(client, authority, rnd).0.effects == (if replaces {
                client.effects.push(EffectView::ShutdownBackend)
            } else {
                client.effects
            })
        },
{
}

/// Every order but a change of the settings is answered under its own identifier.
pub proof fn law_orders_are_answered(
    server: ServerView,
    order: ProxyOrder,
    address: Option<SocketAddr>,
)
    ensures
        match order {
            ProxyOrder::Command(_, Command::HttpProxy(_)) => server.notified(
                order,
                address,
            ).1 is None,
            ProxyOrder::Command(id, _) => server.notified(order, address).1 matches Some(answer)
                && answer.id == id@,
            ProxyOrder::Stop(id) => server.notified(order, address).1 matches Some(answer)
                && answer.id == id@,
        },
{
}

/// An order that is answered with an error changes nothing.
pub proof fn law_failed_orders_change_nothing(
    server: ServerView,
    order: ProxyOrder,
    address: Option<SocketAddr>,
)
    ensures
        server.notified(order, address).1 matches Some(answer)
            && answer.message is Error ==> server.notified(order, address).0 == server,
{
}

/// A client that the proxy answers itself stays so: no event reads from a socket, runs the parser
/// or writes to the backend, and no input ends it.
pub proof fn law_a_default_answer_is_final<Front, Back>(
    client: ClientView<Front, Back>,
    front: BufferState,
    back: BufferState,
    input: InputView,
)
    requires
        client.status is DefaultAnswer,
    ensures
        client.on_readable(front).1 == Step::Done(ClientResult::Continue),
        client.on_back_readable(back).1 == Step::Done(ClientResult::Continue),
        client.on_back_writable(front).1 == Step::Done(ClientResult::Continue),
        client.on_writable(back).1 is Done || client.on_writable(back).1 == Step::Send(Side::Front),
        client.resumed(input).0.status is DefaultAnswer,
        client.phase is FrontWrite || client.phase is FrontWritten ==> {
            let step = client.resumed(input).1;
            step is Done || step is Look || step == Step::Send(Side::Front)
        },
{
}

/// Once its answer is written, a client that the proxy answers itself is closed.
pub proof fn law_a_written_answer_closes_the_client<Front, Back>(
    client: ClientView<Front, Back>,
    result: SocketResult,
    back: BufferState,
)
    requires
        client.status is DefaultAnswer,
        back.output_data_size == 0,
        back.available_data == 0,
    ensures
        client.on_front_sent(result, back) == (
            ReadinessView::none(),
            Step::Done(ClientResult::CloseClient),
        ),
        client.on_writable(back) == (
            ReadinessView::none(),
            Step::Done(ClientResult::CloseClient),
        ),
{
}

/// No input changes what the proxy answers by, the sockets, their tokens and timers, the
/// application or the name of the exchange.
pub proof fn law_handling_an_event_keeps_the_connection<Front, Back>(
    client: ClientView<Front, Back>,
    input: InputView,
)
    ensures
        client.resumed(input).0 == (ClientView {
            state: client.resumed(input).0.state,
            front_buf_position: client.resumed(input).0.front_buf_position,
            back_buf_position: client.resumed(input).0.back_buf_position,
            readiness: client.resumed(input).0.readiness,
            effects: client.resumed(input).0.effects,
            phase: client.resumed(input).0.phase,
            ..client
        }),
{
}

/// A connection that is to be closed on both sides waits for nothing more.
pub proof fn law_closing_both_sides_waits_for_nothing<Front, Back>(
    client: ClientView<Front, Back>,
    input: InputView,
    front: BufferState,
    back: BufferState,
)
    ensures
        closes_both(client.resumed(input).1) ==> client.resumed(input).0.readiness
            == ReadinessView::none(),
        closes_both(client.on_writable(back).1) ==> client.on_writable(back).0
            == ReadinessView::none(),
        closes_both(client.on_back_writable(front).1) ==> client.on_back_writable(front).0
            == ReadinessView::none(),
        closes_both(client.on_back_readable(back).1) ==> client.on_back_readable(back).0
            == ReadinessView::none(),
        !closes_both(client.on_readable(front).1),
{
}

/// The event ends with both connections closed.
pub open spec fn closes_both(step: Step) -> bool {
    match step {
        Step::Done(result) => result is CloseBothSuccess || result is CloseBothFailure,
        Step::Failed(result) => result is CloseBothSuccess || result is CloseBothFailure,
        _ => false,
    }
}

/// The owner is only asked to read into a buffer that has space, to write what waits to be
/// written, and to use a backend that is there.
pub proof fn law_moves_can_be_made<Front, Back>(
    client: ClientView<Front, Back>,
    front: BufferState,
    back: BufferState,
    result: SocketResult,
)
    ensures
        client.on_readable(front).1 == Step::Receive(Side::Front) ==> front.available_space > 0,
        client.on_writable(back).1 == Step::Send(Side::Front) ==> back.output_data_size > 0,
        client.on_front_sent(result, back).1 == Step::Send(Side::Front) ==> result is Continue
            && back.output_data_size > 0,
        client.on_back_readable(back).1 == Step::Receive(Side::Back) ==> back.available_space > 0
            && client.backend is Some,
        client.on_back_writable(front).1 == Step::Send(Side::Back) ==> front.output_data_size > 0
            && client.backend is Some,
        client.on_back_sent(result, front).1 == Step::Send(Side::Back) ==> result is Continue
            && front.output_data_size > 0,
{
}

/// Whatever the owner is asked to do, it can come back with the outcome: a read or a parse with
/// any, a write as long as the counters can take it, a look unless the backend sends on after a
/// response that could not be parsed.
pub proof fn law_every_move_leads_on<Front, Back>(
    client: ClientView<Front, Back>,
    input: InputView,
    next: InputView,
)
    requires
        client.accepts(input),
    ensures
        ({
            let (after, step) = client.resumed(input);
            match step {
                Step::Receive(_) => next is Received ==> after.accepts(next),
                Step::Send(Side::Front) => next is Sent && after.back_buf_position + next->Sent_size
                    <= usize::MAX ==> after.accepts(next),
                Step::Send(Side::Back) => next is Sent && after.front_buf_position
                    + next->Sent_size <= usize::MAX ==> after.accepts(next),
                Step::Look => next is Buffers && (after.phase is BackQueue
                    ==> after.state.response != Some(ResponseState::Error)) ==> after.accepts(next),
                Step::Parse(_) => next is Parsed ==> after.accepts(next),
                Step::Restart => after.phase is Restart,
                Step::Done(_) => after.phase is Idle,
                Step::Failed(_) => after.phase is Idle,
            }
        }),
{
}

/// The first move of an event leads on in the same way.
pub proof fn law_every_event_can_begin<Front, Back>(
    client: ClientView<Front, Back>,
    decision: (ReadinessView, Step),
    next: InputView,
)
    requires
        !(decision.1 is Look),
    ensures
        ({
            let (after, step) = client.moved(decision);
            match step {
                Step::Receive(_) => next is Received ==> after.accepts(next),
                Step::Send(Side::Front) => next is Sent && after.back_buf_position + next->Sent_size
                    <= usize::MAX ==> after.accepts(next),
                Step::Send(Side::Back) => next is Sent && after.front_buf_position
                    + next->Sent_size <= usize::MAX ==> after.accepts(next),
                Step::Parse(_) => next is Parsed ==> after.accepts(next),
                Step::Restart => after.phase is Restart,
                _ => after.phase is Idle,
            }
        }),
{
}

/// The bytes that a write took are taken out of the buffer and counted, and nothing else counts.
pub proof fn law_written_bytes_are_counted<Front, Back>(
    client: ClientView<Front, Back>,
    input: InputView,
)
    requires
        client.accepts(input),
    ensures
        match (client.phase, input) {
            (Phase::FrontWrite, InputView::Sent { size, .. }) => {
                &&& client.resumed(input).0.back_buf_position == client.back_buf_position + size
                &&& client.resumed(input).0.front_buf_position == client.front_buf_position
                &&& client.resumed(input).0.effects == client.effects.push(
                    EffectView::ConsumeOutput(Side::Back, size),
                )
            },
            (Phase::BackWrite, InputView::Sent { size, .. }) => {
                &&& client.resumed(input).0.front_buf_position == client.front_buf_position + size
                &&& client.resumed(input).0.back_buf_position == client.back_buf_position
                &&& client.resumed(input).0.effects == client.effects.push(
                    EffectView::ConsumeOutput(Side::Front, size),
                )
            },
            _ => {
                &&& client.resumed(input).0.front_buf_position == client.front_buf_position
                &&& client.resumed(input).0.back_buf_position == client.back_buf_position
            },
        },
{
}

/// Work that was handed to the owner stays handed over, in the same order.
pub proof fn law_effects_are_kept<Front, Back>(client: ClientView<Front, Back>, input: InputView)
    ensures
        client.effects.is_prefix_of(client.resumed(input).0.effects),
{
    let before = client.effects;
    let after = client.resumed(input).0.effects;
    assert(before =~= after.subrange(0, before.len() as int));
}

/// When the request is written to the backend to the end, the connection waits for the response
/// and for no more of the request.
pub proof fn law_the_response_follows_the_request<Front, Back>(
    client: ClientView<Front, Back>,
    result: SocketResult,
    front: BufferState,
)
    requires
        !(result is Error),
        front.output_data_size == 0,
        front.can_restart_parsing,
        client.state.request_is_complete(),
    ensures
        client.on_back_sent(result, front).1 == Step::Done(ClientResult::Continue),
        client.on_back_sent(result, front).0.back_interest == client.readiness.back_interest.insert(
            ReadyKind::Readable,
        ).remove(ReadyKind::Writable),
        client.on_back_sent(result, front).0.front_interest
            == client.readiness.front_interest.remove(ReadyKind::Readable),
{
}

/// When the response is written to the client to the end, the connection starts over if the
/// request asks to keep it, and is closed otherwise.
pub proof fn law_the_request_decides_to_keep_the_connection<Front, Back>(
    client: ClientView<Front, Back>,
    result: SocketResult,
    back: BufferState,
)
    requires
        client.status is Normal,
        !(result is Error),
        back.output_data_size == 0,
        back.can_restart_parsing,
        client.state.response_is_complete(),
    ensures
        client.on_front_sent(result, back).1 == (if client.state.front_keep_alive() {
            Step::Restart
        } else {
            Step::Done(ClientResult::CloseBothSuccess)
        }),
{
}

/// A connection that starts over is like a new one, but for its sockets, tokens and timers, its
/// application, its status, what it waits for, and the headers, which carry the previous name.
pub proof fn law_a_restarted_connection_is_as_new<Front, Back>(
    client: ClientView<Front, Back>,
    ends: EndpointsView,
    request_id: Seq<char>,
)
    ensures
        ({
            let fresh = ClientView::<Front, Back>::fresh(
                client.server_context,
                client.frontend,
                ends,
                request_id,
                client.start,
            );
            let named = ClientView::<Front, Back>::fresh(
                client.server_context,
                client.frontend,
                ends,
                client.request_id,
                client.start,
            );
            let after = client.restarted(ends, request_id);
            &&& after.state == named.state
            &&& after.front_buf_position == fresh.front_buf_position
            &&& after.back_buf_position == fresh.back_buf_position
            &&& after.request_id == fresh.request_id
            &&& after.phase == fresh.phase
            &&& after.effects =~= client.effects + seq![
                EffectView::Reset(Side::Front),
                EffectView::Reset(Side::Back),
            ]
            &&& after.readiness.front_interest.contains(ReadyKind::Readable)
            &&& !after.readiness.front_interest.contains(ReadyKind::Writable)
            &&& !after.readiness.back_interest.contains(ReadyKind::Readable)
        }),
{
}

/// The parser only runs over a message that is not complete: never over a request or a response
/// whose end is known.
pub proof fn law_complete_messages_are_not_parsed<Front, Back>(
    client: ClientView<Front, Back>,
    size: usize,
    result: SocketResult,
    front: BufferState,
    back: BufferState,
)
    ensures
        client.on_front_data(size, result, front).1 == Step::Parse(Side::Front) ==> {
            ||| !client.state.has_host
            ||| match client.state.request {
                Some(RequestState::Request) => false,
                Some(RequestState::RequestWithBody) => false,
                Some(RequestState::RequestWithBodyChunks(chunk)) => chunk is Copying,
                _ => true,
            }
        },
        client.on_back_data(size, result, back).1 == Step::Parse(Side::Back) ==> match
            client.state.response {
            Some(ResponseState::Response) => false,
            Some(ResponseState::ResponseWithBody) => false,
            Some(ResponseState::ResponseWithBodyChunks(chunk)) => chunk is Copying,
            _ => true,
        },
{
}

} // verus!
