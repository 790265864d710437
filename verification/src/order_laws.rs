//! What orders do to the routes and the instances, and how a request finds its way by them.

use vstd::prelude::*;
use vstd::utf8::encode_utf8;

use crate::address::SocketAddr;
use crate::backend::{Backend, BackendStatus};
use crate::client_view::{ClientStatus, ClientView};
use crate::events::{EffectView, Side};
use crate::laws::{law_a_front_is_found_if_one_serves, law_an_added_front_serves};
use crate::lists::{lemma_best_exists, lemma_best_is_unique, lemma_open_places};
use crate::messages::{
    Command, HttpFront, HttpFrontView, HttpProxyConfiguration, Instance, ProxyOrder,
    ServerMessageTypeView, ServerMessageView,
};
use crate::parser::{AuthorityView, HttpStateView};
use crate::ready::{ReadinessView, ReadyKind};
use crate::server_view::{
    differs, is_best, is_elsewhere, is_first_at, open_places, Candidate, Connect, ConnectionError,
    ServerView,
};

verus! {

/// The request for `uri` on `host` finds the front at place `i` of the host's list: its path begins
/// the URI, no other such path is longer, and none before it is as long.
pub open spec fn finds(server: ServerView, host: Seq<char>, uri: Seq<char>, i: int) -> bool {
    let fronts = server.fronts[host];
    &&& server.fronts.contains_key(host)
    &&& 0 <= i < fronts.len()
    &&& fronts[i].path_begin.is_prefix_of(uri)
    &&& forall|j: int|
        0 <= j < fronts.len() && (#[trigger] fronts[j]).path_begin.is_prefix_of(uri) ==> if j < i {
            fronts[j].path_begin.len() < fronts[i].path_begin.len()
        } else {
            fronts[j].path_begin.len() <= fronts[i].path_begin.len()
        }
}

/// A request finds the first of the fronts of its host with the longest path that begins its URI,
/// and none exactly if there is no such path.
pub proof fn law_a_request_finds_its_front(server: ServerView, host: Seq<char>, uri: Seq<char>)
    ensures
        forall|i: int| #[trigger]
            finds(server, host, uri, i) ==> server.front_for(host, uri) == Some(
                server.fronts[host][i],
            ),
        server.front_for(host, uri) is Some ==> exists|i: int| finds(server, host, uri, i),
        server.front_for(host, uri) is None <==> !server.fronts.contains_key(host) || forall|i: int|
            0 <= i < server.fronts[host].len() ==> !(
            #[trigger] server.fronts[host][i]).path_begin.is_prefix_of(uri),
{
    let fronts = server.fronts_of(host);
    lemma_best_is_unique(fronts, uri);
    law_a_front_is_found_if_one_serves(server, host, uri);
    assert forall|i: int| #[trigger] finds(server, host, uri, i) implies server.front_for(host, uri)
        == Some(server.fronts[host][i]) by {
        assert(is_best(fronts, uri, i));
    }
    if server.front_for(host, uri) is Some {
        let i = choose|i: int| is_best(fronts, uri, i);
        assert(finds(server, host, uri, i));
    }
}

/// Adding a front puts it behind the fronts that its host name had, and changes nothing else.
pub proof fn law_a_front_is_added_at_the_end(server: ServerView, front: HttpFrontView)
    ensures
        ({
            let after = server.with_front(front);
            let host = front.hostname;
            &&& after.fronts.contains_key(host)
            &&& after.fronts[host].last() == front
            &&& after.fronts[host].drop_last() == (if server.fronts.contains_key(host) {
                server.fronts[host]
            } else {
                Seq::empty()
            })
            &&& after.fronts[host].len() > 0
            &&& after.fronts.remove(host) == server.fronts.remove(host)
            &&& after == ServerView { fronts: after.fronts, ..server }
        }),
{
    let after = server.with_front(front);
    assert(after.fronts[front.hostname].drop_last() =~= server.fronts_of(front.hostname));
    assert(after.fronts.remove(front.hostname) =~= server.fronts.remove(front.hostname));
}

/// Fronts are removed one by one: with one front more at the end of its list, the removal leaves
/// what it left without it, and the front itself exactly if it is another one.
pub proof fn law_fronts_are_removed_one_by_one(
    server: ServerView,
    front: HttpFrontView,
    other: HttpFrontView,
)
    requires
        server.fronts.contains_key(front.hostname),
    ensures
        ({
            let host = front.hostname;
            let longer = ServerView {
                fronts: server.fronts.insert(host, server.fronts[host].push(other)),
                ..server
            };
            longer.without_front(front).fronts[host] == (if other == front {
                server.without_front(front).fronts[host]
            } else {
                server.without_front(front).fronts[host].push(other)
            })
        }),
        server.fronts[front.hostname].len() == 0 ==> server.without_front(
            front,
        ).fronts[front.hostname].len() == 0,
{
    reveal(Seq::filter);
    server.fronts[front.hostname].lemma_filter_push(other, differs(front));
}

/// Removing a front keeps every list, and changes none but that of its host name.
pub proof fn law_a_removal_stays_with_its_host(server: ServerView, front: HttpFrontView)
    ensures
        ({
            let after = server.without_front(front);
            &&& after.fronts.dom() == server.fronts.dom()
            &&& after.fronts.remove(front.hostname) == server.fronts.remove(front.hostname)
            &&& after == ServerView { fronts: after.fronts, ..server }
        }),
{
    let after = server.without_front(front);
    assert(after.fronts.dom() =~= server.fronts.dom());
    assert(after.fronts.remove(front.hostname) =~= server.fronts.remove(front.hostname));
}

/// The front that serves a request best still does when another front is taken out.
proof fn lemma_best_outlives_a_removal(
    fronts: Seq<HttpFrontView>,
    front: HttpFrontView,
    uri: Seq<char>,
    i: int,
)
    requires
        is_best(fronts, uri, i),
        fronts[i] != front,
    ensures
        exists|k: int|
            is_best(fronts.filter(differs(front)), uri, k) && fronts.filter(differs(front))[k]
                == fronts[i],
    decreases fronts.len(),
{
    let n = fronts.len() - 1;
    let rest = fronts.drop_last();
    let last = fronts[n];
    let left = fronts.filter(differs(front));
    let rest_left = rest.filter(differs(front));
    assert(fronts =~= rest.push(last));
    rest.lemma_filter_push(last, differs(front));
    if i == n {
        let k = rest_left.len() as int;
        assert(left[k] == last);
        assert forall|j: int| 0 <= j < k && left[j].path_begin.is_prefix_of(uri) implies (
        #[trigger] left[j]).path_begin.len() < last.path_begin.len() by {
            assert(rest_left.contains(rest_left[j]));
            rest.lemma_filter_contains_rev(differs(front), rest_left[j]);
            let m = choose|m: int| 0 <= m < rest.len() && rest[m] == rest_left[j];
            assert(fronts[m] == rest[m]);
        }
        assert(is_best(left, uri, k));
    } else {
        assert(is_best(rest, uri, i)) by {
            assert forall|j: int| 0 <= j < rest.len() implies rest[j] == fronts[j] by {}
        }
        lemma_best_outlives_a_removal(rest, front, uri, i);
        let k = choose|k: int| is_best(rest_left, uri, k) && rest_left[k] == rest[i];
        assert(left[k] == rest_left[k]);
        assert forall|j: int|
            #![trigger left[j]]
            0 <= j < left.len() && left[j].path_begin.is_prefix_of(uri) implies if j < k {
            left[j].path_begin.len() < left[k].path_begin.len()
        } else {
            left[j].path_begin.len() <= left[k].path_begin.len()
        } by {
            if j < rest_left.len() {
                assert(left[j] == rest_left[j]);
            } else {
                assert(left[j] == fronts[n]);
            }
        }
        assert(is_best(left, uri, k));
    }
}

/// A request that found another front than the one that is removed still finds it, and one that
/// found none still finds none.
pub proof fn law_a_removal_leaves_other_requests_alone(
    server: ServerView,
    front: HttpFrontView,
    host: Seq<char>,
    uri: Seq<char>,
)
    requires
        server.front_for(host, uri) != Some(front),
    ensures
        server.without_front(front).front_for(host, uri) == server.front_for(host, uri),
{
    let after = server.without_front(front);
    let fronts = server.fronts_of(host);
    let left = after.fronts_of(host);
    if host == front.hostname && server.fronts.contains_key(host) {
        lemma_best_is_unique(fronts, uri);
        lemma_best_is_unique(left, uri);
        if exists|i: int| is_best(fronts, uri, i) {
            let i = choose|i: int| is_best(fronts, uri, i);
            lemma_best_outlives_a_removal(fronts, front, uri, i);
        } else {
            if exists|k: int| is_best(left, uri, k) {
                let k = choose|k: int| is_best(left, uri, k);
                assert(left.contains(left[k]));
                fronts.lemma_filter_contains_rev(differs(front), left[k]);
                let m = choose|m: int| 0 <= m < fronts.len() && fronts[m] == left[k];
                lemma_best_exists(fronts, uri);
            }
        }
    } else {
        assert(left == fronts);
    }
}

/// An order to add a front is answered, and the front is there, behind the others of its host. A
/// request finds it if its path begins the URI and no front found before has a path as long; every
/// other request finds what it found before. The instances and the settings stay.
pub proof fn law_an_order_adds_a_front(
    server: ServerView,
    id: String,
    front: HttpFront,
    address: Option<SocketAddr>,
    host: Seq<char>,
    uri: Seq<char>,
)
    ensures
        ({
            let order = ProxyOrder::Command(id, Command::AddHttpFront(front));
            let (after, answer) = server.notified(order, address);
            let own = front@.hostname;
            let before = server.front_for(host, uri);
            &&& answer == Some(
                ServerMessageView { id: id@, message: ServerMessageTypeView::AddedFront },
            )
            &&& after.fronts.contains_key(own)
            &&& after.fronts[own].contains(front@)
            &&& after.fronts[own].len() > 0
            &&& after.fronts[own].last() == front@
            &&& after.fronts[own].drop_last() == (if server.fronts.contains_key(own) {
                server.fronts[own]
            } else {
                Seq::empty()
            })
            &&& after.fronts.remove(own) == server.fronts.remove(own)
            &&& after == ServerView { fronts: after.fronts, ..server }
            &&& after.front_for(host, uri) == (if host == own && front@.path_begin.is_prefix_of(uri)
                && (before is None || before->0.path_begin.len() < front@.path_begin.len()) {
                Some(front@)
            } else {
                before
            })
        }),
{
    law_a_front_is_added_at_the_end(server, front@);
    law_an_added_front_serves(server, front@, uri);
    let after = server.with_front(front@);
    assert(after.fronts[front@.hostname][after.fronts[front@.hostname].len() - 1] == front@);
    if host != front@.hostname {
        assert(after.fronts_of(host) == server.fronts_of(host));
    }
}

/// An order to remove a front is answered, and the front is gone: no copy of it is left, and the
/// requests that found another front find it still. The instances and the settings stay.
pub proof fn law_an_order_removes_a_front(
    server: ServerView,
    id: String,
    front: HttpFront,
    address: Option<SocketAddr>,
    host: Seq<char>,
    uri: Seq<char>,
)
    ensures
        ({
            let order = ProxyOrder::Command(id, Command::RemoveHttpFront(front));
            let (after, answer) = server.notified(order, address);
            let own = front@.hostname;
            &&& answer == Some(
                ServerMessageView { id: id@, message: ServerMessageTypeView::RemovedFront },
            )
            &&& after.fronts.contains_key(own) ==> !after.fronts[own].contains(front@)
            &&& after.fronts.dom() == server.fronts.dom()
            &&& after.fronts.remove(own) == server.fronts.remove(own)
            &&& after.fronts == server.without_front(front@).fronts
            &&& after == ServerView { fronts: after.fronts, ..server }
            &&& server.front_for(host, uri) != Some(front@) ==> after.front_for(host, uri)
                == server.front_for(host, uri)
        }),
{
    law_a_removal_stays_with_its_host(server, front@);
    let after = server.without_front(front@);
    let own = front@.hostname;
    if after.fronts.contains_key(own) {
        let left = after.fronts[own];
        assert forall|i: int| 0 <= i < left.len() implies left[i] != front@ by {
            server.fronts[own].lemma_filter_pred(differs(front@), i);
        }
    }
    if server.front_for(host, uri) != Some(front@) {
        law_a_removal_leaves_other_requests_alone(server, front@, host, uri);
    }
}

/// An order to add an instance whose address could be parsed is answered, and the instance is there,
/// open and without connections, behind the others of its application. Nothing else changes.
pub proof fn law_an_order_adds_an_instance(
    server: ServerView,
    id: String,
    instance: Instance,
    address: SocketAddr,
)
    ensures
        ({
            let order = ProxyOrder::Command(id, Command::AddInstance(instance));
            let (after, answer) = server.notified(order, Some(address));
            let app_id = instance.app_id@;
            &&& answer == Some(
                ServerMessageView { id: id@, message: ServerMessageTypeView::AddedInstance },
            )
            &&& after == server.with_instance(app_id, address)
            &&& after.instances.contains_key(app_id)
            &&& after.instances[app_id].len() > 0
            &&& after.instances[app_id].last().address == address
            &&& after.instances[app_id].last().status is Normal
            &&& after.instances[app_id].last().active_connections == 0
            &&& after.instances[app_id].drop_last() == (if server.instances.contains_key(app_id) {
                server.instances[app_id]
            } else {
                Seq::empty()
            })
            &&& after.instances.remove(app_id) == server.instances.remove(app_id)
            &&& after == ServerView { instances: after.instances, ..server }
        }),
{
    let after = server.with_instance(instance.app_id@, address);
    let app_id = instance.app_id@;
    assert(after.instances[app_id].drop_last() =~= server.instances_of(app_id));
    assert(after.instances.remove(app_id) =~= server.instances.remove(app_id));
}

/// An order to remove an instance whose address could be parsed is answered, and no instance of the
/// application is left there. Nothing else changes.
pub proof fn law_an_order_removes_an_instance(
    server: ServerView,
    id: String,
    instance: Instance,
    address: SocketAddr,
)
    ensures
        ({
            let order = ProxyOrder::Command(id, Command::RemoveInstance(instance));
            let (after, answer) = server.notified(order, Some(address));
            let app_id = instance.app_id@;
            &&& answer == Some(
                ServerMessageView { id: id@, message: ServerMessageTypeView::RemovedInstance },
            )
            &&& after == server.without_instance(app_id, address)
            &&& after.instances.dom() == server.instances.dom()
            &&& after.instances.contains_key(app_id) ==> forall|i: int|
                0 <= i < after.instances[app_id].len() ==> (
                #[trigger] after.instances[app_id][i]).address != address
            &&& after.instances.remove(app_id) == server.instances.remove(app_id)
            &&& after == ServerView { instances: after.instances, ..server }
        }),
{
    let app_id = instance.app_id@;
    let after = server.without_instance(app_id, address);
    assert(after.instances.dom() =~= server.instances.dom());
    assert(after.instances.remove(app_id) =~= server.instances.remove(app_id));
    if after.instances.contains_key(app_id) {
        assert forall|i: int| 0 <= i < after.instances[app_id].len() implies (
        #[trigger] after.instances[app_id][i]).address != address by {
            server.instances[app_id].lemma_filter_pred(is_elsewhere(address), i);
        }
    }
}

/// Instances are removed one by one: with one instance more at the end of its list, the removal
/// leaves what it left without it, and the instance itself, with its count, exactly if it is at
/// another address.
pub proof fn law_instances_are_removed_one_by_one(
    server: ServerView,
    app_id: Seq<char>,
    address: SocketAddr,
    other: Backend,
)
    requires
        server.instances.contains_key(app_id),
    ensures
        ({
            let longer = ServerView {
                instances: server.instances.insert(app_id, server.instances[app_id].push(other)),
                ..server
            };
            longer.without_instance(app_id, address).instances[app_id] == (if other.address
                == address {
                server.without_instance(app_id, address).instances[app_id]
            } else {
                server.without_instance(app_id, address).instances[app_id].push(other)
            })
        }),
        server.instances[app_id].len() == 0 ==> server.without_instance(
            app_id,
            address,
        ).instances[app_id].len() == 0,
{
    reveal(Seq::filter);
    server.instances[app_id].lemma_filter_push(other, is_elsewhere(address));
}

/// An order about an instance whose address could not be parsed, and one that the proxy does not
/// know, is answered with an error under its own identifier and changes nothing. An order to stop
/// is acknowledged and changes nothing either.
pub proof fn law_other_orders_change_nothing(
    server: ServerView,
    id: String,
    instance: Instance,
    address: Option<SocketAddr>,
)
    ensures
        server.notified(ProxyOrder::Command(id, Command::AddInstance(instance)), None) == (
            server,
            Some(
                ServerMessageView {
                    id: id@,
                    message: ServerMessageTypeView::Error("cannot parse the address"@),
                },
            ),
        ),
        server.notified(ProxyOrder::Command(id, Command::RemoveInstance(instance)), None) == (
            server,
            Some(
                ServerMessageView {
                    id: id@,
                    message: ServerMessageTypeView::Error("cannot parse the address"@),
                },
            ),
        ),
        server.notified(ProxyOrder::Command(id, Command::Unsupported), address) == (
            server,
            Some(
                ServerMessageView {
                    id: id@,
                    message: ServerMessageTypeView::Error("unsupported message"@),
                },
            ),
        ),
        server.notified(ProxyOrder::Stop(id), address) == (
            server,
            Some(ServerMessageView { id: id@, message: ServerMessageTypeView::Stopped }),
        ),
{
}

/// New settings change the timeouts and the answers, and nothing else. They are not answered. What
/// the proxy was made with stays, too.
pub proof fn law_new_settings_are_taken_over(
    server: ServerView,
    id: String,
    settings: HttpProxyConfiguration,
    address: Option<SocketAddr>,
)
    ensures
        ({
            let (after, answer) = server.notified(
                ProxyOrder::Command(id, Command::HttpProxy(settings)),
                address,
            );
            &&& answer is None
            &&& after.front_timeout == settings.front_timeout
            &&& after.back_timeout == settings.back_timeout
            &&& after.answers.not_found == encode_utf8(settings.answer_404@)
            &&& after.answers.service_unavailable == encode_utf8(settings.answer_503@)
            &&& after == ServerView {
                front_timeout: after.front_timeout,
                back_timeout: after.back_timeout,
                answers: after.answers,
                ..server
            }
        }),
{
}

/// A new proxy listens where it is told to, routes nothing, has no instances, and keeps its own
/// timeouts and answers whatever its settings say.
pub proof fn law_a_new_proxy(config: HttpProxyConfiguration, host: Seq<char>, app_id: Seq<char>)
    ensures
        ({
            let server = ServerView::fresh(config);
            &&& server.address == config.front
            &&& server.config == config
            &&& !server.fronts.contains_key(host)
            &&& !server.instances.contains_key(app_id)
            &&& server.front_timeout == 5000
            &&& server.back_timeout == 5000
            &&& server.answers.not_found == encode_utf8(
                "HTTP/1.1 404 Not Found\r\nCache-Control: no-cache\r\nConnection: close\r\n\r\n"@,
            )
            &&& server.answers.service_unavailable == encode_utf8(
                "HTTP/1.1 503 your application is in deployment\r\nCache-Control: no-cache\r\nConnection: close\r\n\r\n"@,
            )
        }),
{
}

/// A request goes to the application of the front that its host and its URI find. It is refused
/// for exactly one reason: it names no host, its host is malformed, it has no request line, or no
/// front is found. Port 80 is left out of the host, any other port is part of it.
pub proof fn law_the_way_of_a_request(
    server: ServerView,
    state: HttpStateView,
    authority: AuthorityView,
)
    ensures
        ({
            let way = server.route(state, authority);
            let whole = match authority {
                AuthorityView::Parsed { rest, .. } => rest.len() == 0,
                AuthorityView::Invalid => false,
            };
            let port_80 = match authority {
                AuthorityView::Parsed { port: Some(port), .. } => port.len() == 2 && port[0] == 56
                    && port[1] == 48,
                _ => false,
            };
            let host = if port_80 {
                authority->hostname
            } else {
                state.host->0
            };
            let named = state.host is Some;
            let asked = named && whole && state.uri is Some;
            let found = server.front_for(host, state.uri->0);
            &&& way == Err::<Seq<char>, ConnectionError>(ConnectionError::NoHostGiven) <==> !named
            &&& way == Err::<Seq<char>, ConnectionError>(ConnectionError::ToBeDefined) <==> named
                && !whole
            &&& way == Err::<Seq<char>, ConnectionError>(ConnectionError::NoRequestLineGiven)
                <==> named && whole && state.uri is None
            &&& way == Err::<Seq<char>, ConnectionError>(ConnectionError::HostNotFound) <==> asked
                && found is None
            &&& way is Ok <==> asked && found is Some
            &&& way is Ok ==> way->Ok_0 == found->0.app_id
        }),
{
    assert('8' as u8 == 56u8 && '0' as u8 == 48u8);
    if let AuthorityView::Parsed { port: Some(port), .. } = authority {
        if port.len() == 2 && port[0] == 56 && port[1] == 48 {
            assert(port =~= seq!['8' as u8, '0' as u8]);
        } else {
            assert(port != seq!['8' as u8, '0' as u8]);
        }
    }
}

/// An instance can be chosen for an application exactly if there is none to choose from, or one of
/// them takes connections.
pub proof fn law_when_an_instance_can_be_chosen(server: ServerView, app_id: Seq<char>)
    ensures
        server.can_choose(app_id) <==> {
            ||| !server.instances.contains_key(app_id)
            ||| server.instances[app_id].len() == 0
            ||| exists|i: int|
                0 <= i < server.instances[app_id].len() && (
                #[trigger] server.instances[app_id][i]).status is Normal
        },
{
    if server.instances.contains_key(app_id) {
        let backends = server.instances[app_id];
        if exists|i: int| 0 <= i < backends.len() && (#[trigger] backends[i]).status is Normal {
            let i = choose|i: int| 0 <= i < backends.len() && (#[trigger] backends[i]).status is Normal;
            assert(backends[i].is_open());
        }
    }
}

/// A request can be sent on its way unless its client changes the application and has no backend to
/// leave, or the application has instances and none takes connections.
pub proof fn law_when_a_request_can_be_sent<Front, Back>(
    server: ServerView,
    client: ClientView<Front, Back>,
    authority: AuthorityView,
)
    ensures
        server.can_connect(client, authority) <==> match server.route(client.state, authority) {
            Err(_) => true,
            Ok(app_id) => {
                ||| client.app_id is Some && client.app_id->0 == app_id
                ||| server.can_choose(app_id) && !(client.app_id is Some && client.backend is None)
            },
        },
{
}

/// The number of instances that take connections among the first `n`.
pub open spec fn count_open(backends: Seq<Backend>, n: int) -> int
    decreases n,
{
    if n <= 0 {
        0
    } else {
        count_open(backends, n - 1) + if backends[n - 1].status is Normal {
            1int
        } else {
            0
        }
    }
}

/// The open places among the first `n` are counted by `count_open`, each by those before it.
proof fn lemma_open_places_are_counted(backends: Seq<Backend>, n: int)
    requires
        0 <= n <= backends.len(),
    ensures
        ({
            let all = Seq::new(backends.len(), |i: int| i);
            let open = |i: int| backends[i].is_open();
            let places = all.take(n).filter(open);
            &&& places.len() == count_open(backends, n)
            &&& forall|k: int|
                0 <= k < places.len() ==> 0 <= #[trigger] places[k] < n && count_open(
                    backends,
                    places[k],
                ) == k && backends[places[k]].status is Normal
        }),
    decreases n,
{
    reveal(Seq::filter);
    let all = Seq::new(backends.len(), |i: int| i);
    let open = |i: int| backends[i].is_open();
    if n > 0 {
        lemma_open_places_are_counted(backends, n - 1);
        assert(all.take(n) =~= all.take(n - 1).push(n - 1));
        all.take(n - 1).lemma_filter_push(n - 1, open);
    }
}

/// The number that is drawn picks among the open instances alone, in their order, over and over:
/// as many open instances lie before the chosen one as the number leaves when their count is taken
/// out of it as often as it goes.
pub proof fn law_the_number_picks_among_the_open(server: ServerView, app_id: Seq<char>, rnd: usize)
    requires
        server.instances.contains_key(app_id),
        server.instances[app_id].len() <= usize::MAX,
        exists|i: int|
            0 <= i < server.instances[app_id].len() && (
            #[trigger] server.instances[app_id][i]).status is Normal,
    ensures
        ({
            let backends = server.instances[app_id];
            let chosen = server.candidate(app_id, rnd);
            &&& chosen.index < backends.len()
            &&& backends[chosen.index as int].status is Normal
            &&& backends[chosen.index as int].address == chosen.address
            &&& count_open(backends, backends.len() as int) > 0
            &&& count_open(backends, chosen.index as int) == rnd as int % count_open(
                backends,
                backends.len() as int,
            )
        }),
{
    let backends = server.instances[app_id];
    let n = backends.len() as int;
    let all = Seq::new(backends.len(), |i: int| i);
    let places = open_places(backends);
    let i = choose|i: int| 0 <= i < backends.len() && (#[trigger] backends[i]).status is Normal;
    assert(backends[i].is_open());
    lemma_open_places(backends);
    lemma_open_places_are_counted(backends, n);
    assert(all.take(n) =~= all);
    assert(places == all.filter(|i: int| backends[i].is_open()));
    let k = rnd as int % places.len() as int;
    assert(0 <= k < places.len());
    assert(0 <= places[k] < n);
}

/// Choosing names the client after the application. It finds nothing exactly if the application has
/// no instances; one that had some is then answered with the 503 answer. Nothing else changes.
pub proof fn law_choosing_an_instance<Front, Back>(
    server: ServerView,
    client: ClientView<Front, Back>,
    app_id: Seq<char>,
    rnd: usize,
)
    ensures
        ({
            let (after, chosen) = server.choose_backend(client, app_id, rnd);
            let known = server.instances.contains_key(app_id);
            let some = known && server.instances[app_id].len() > 0;
            let emptied = known && !some;
            &&& after.app_id == Some(app_id)
            &&& chosen == (if some {
                Ok::<Candidate, ConnectionError>(server.candidate(app_id, rnd))
            } else {
                Err::<Candidate, ConnectionError>(ConnectionError::NoBackendAvailable)
            })
            &&& after.status is DefaultAnswer <==> emptied || client.status is DefaultAnswer
            &&& after.effects =~= client.effects + (if emptied {
                seq![
                    EffectView::Reset(Side::Back),
                    EffectView::Write(Side::Back, server.answers.service_unavailable),
                ]
            } else {
                Seq::empty()
            })
            &&& after == ClientView {
                app_id: after.app_id,
                status: after.status,
                effects: after.effects,
                ..client
            }
        }),
{
}

/// A request on its way: one without a front is answered with the 404 answer, one for the client's
/// own application uses the backend again, and any other leaves the old backend, if there is one,
/// and opens a connection to the chosen instance, or is answered with the 503 answer if there is
/// none. An answer is to be written at once. A request that is refused for other reasons leaves
/// the client alone. Nothing else of the client changes.
pub proof fn law_a_request_on_its_way<Front, Back>(
    server: ServerView,
    client: ClientView<Front, Back>,
    authority: AuthorityView,
    rnd: usize,
)
    ensures
        ({
            let (after, result) = server.connect(client, authority, rnd);
            let way = server.route(client.state, authority);
            let app_id = way->Ok_0;
            let own = way is Ok && client.app_id == Some(app_id);
            let moves = way is Ok && !own;
            let leaves = moves && client.app_id is Some;
            let known = moves && server.instances.contains_key(app_id);
            let some = known && server.instances[app_id].len() > 0;
            let lost = way == Err::<Seq<char>, ConnectionError>(ConnectionError::HostNotFound);
            let answered = lost || (moves && !some);
            let not_found = seq![
                EffectView::Reset(Side::Back),
                EffectView::Write(Side::Back, server.answers.not_found),
            ];
            let unavailable = seq![
                EffectView::Reset(Side::Back),
                EffectView::Write(Side::Back, server.answers.service_unavailable),
            ];
            &&& way is Err ==> result is Err && result->Err_0 == way->Err_0
            &&& own ==> result == Ok::<Connect, ConnectionError>(Connect::Reuse)
            &&& some ==> result == Ok::<Connect, ConnectionError>(
                Connect::Open { candidate: server.candidate(app_id, rnd), replaces: leaves },
            )
            &&& moves && !some ==> result == Err::<Connect, ConnectionError>(
                ConnectionError::NoBackendAvailable,
            )
            &&& after.app_id == (if moves {
                Some(app_id)
            } else {
                client.app_id
            })
            &&& after.status is DefaultAnswer <==> answered || client.status is DefaultAnswer
            &&& forall|kind: ReadyKind| #[trigger]
                after.readiness.front_interest.contains(kind)
                    <==> client.readiness.front_interest.contains(kind) || (kind is Writable
                    && answered)
            &&& after.effects =~= client.effects + (if leaves {
                seq![EffectView::ShutdownBackend]
            } else {
                Seq::empty()
            }) + (if known && !some {
                unavailable
            } else {
                Seq::empty()
            }) + (if lost {
                not_found
            } else if answered {
                unavailable
            } else {
                Seq::empty()
            })
            &&& after == ClientView {
                app_id: after.app_id,
                status: after.status,
                effects: after.effects,
                readiness: ReadinessView {
                    front_interest: after.readiness.front_interest,
                    ..client.readiness
                },
                ..client
            }
        }),
{
}

/// A connected backend is the client's, which waits to write to it and to hear of its end. Nothing
/// else changes.
pub proof fn law_a_connected_client<Front, Back>(client: ClientView<Front, Back>, socket: Back)
    ensures
        ({
            let after = client.connected(socket);
            &&& after.backend == Some(socket)
            &&& forall|kind: ReadyKind| #[trigger]
                after.readiness.back_interest.contains(kind) <==> (kind is Readable
                    ==> client.readiness.back_interest.contains(kind))
            &&& after == ClientView {
                backend: after.backend,
                readiness: ReadinessView {
                    back_interest: after.readiness.back_interest,
                    ..client.readiness
                },
                ..client
            }
        }),
{
}

/// A client that is answered by the proxy loses what it was to be sent and gets the answer instead.
/// When its request is refused it also waits to be written to. Nothing else changes.
pub proof fn law_an_answered_client<Front, Back>(client: ClientView<Front, Back>, answer: Seq<u8>)
    ensures
        client.answering(answer).status is DefaultAnswer,
        client.answering(answer).effects =~= client.effects + seq![
            EffectView::Reset(Side::Back),
            EffectView::Write(Side::Back, answer),
        ],
        client.answering(answer) == (ClientView {
            status: ClientStatus::DefaultAnswer,
            effects: client.answering(answer).effects,
            ..client
        }),
        client.refused(answer) == (ClientView {
            readiness: client.refused(answer).readiness,
            ..client.answering(answer)
        }),
        client.refused(answer).readiness == (ReadinessView {
            front_interest: client.refused(answer).readiness.front_interest,
            ..client.readiness
        }),
        forall|kind: ReadyKind| #[trigger]
            client.refused(answer).readiness.front_interest.contains(kind)
                <==> client.readiness.front_interest.contains(kind) || kind is Writable,
{
}

/// A connection that opens counts for the instance that it goes to and for no other; one that does
/// not open counts nowhere. A closed instance counts nothing.
pub proof fn law_an_opened_connection_is_counted<Back>(
    server: ServerView,
    app_id: Seq<char>,
    candidate: Candidate,
    socket: Option<Back>,
)
    requires
        server.instances.contains_key(app_id),
        candidate.index < server.instances[app_id].len(),
        server.instances[app_id][candidate.index as int].active_connections < usize::MAX,
    ensures
        ({
            let (after, opened) = server.opened(app_id, candidate, socket);
            let i = candidate.index as int;
            let before = server.instances[app_id];
            let now = after.instances[app_id];
            &&& opened == (match socket {
                Some(socket) => Ok::<Back, ConnectionError>(socket),
                None => Err::<Back, ConnectionError>(ConnectionError::NoBackendAvailable),
            })
            &&& now.len() == before.len()
            &&& now[i].address == before[i].address
            &&& now[i].status == before[i].status
            &&& now[i].active_connections - before[i].active_connections == (if socket is Some
                && before[i].status is Normal {
                1int
            } else {
                0
            })
            &&& forall|j: int| 0 <= j < now.len() && j != i ==> now[j] == before[j]
            &&& after.instances.dom() == server.instances.dom()
            &&& after.instances.remove(app_id) == server.instances.remove(app_id)
            &&& after == ServerView { instances: after.instances, ..server }
        }),
{
    let after = server.opened(app_id, candidate, socket).0;
    assert(after.instances.dom() =~= server.instances.dom());
    assert(after.instances.remove(app_id) =~= server.instances.remove(app_id));
}

/// A connection that has ended is given back by the first instance of the application at its
/// address, and by no other. An instance that has none to give back is closed; a closed one keeps
/// its count.
pub proof fn law_a_closed_connection_is_given_back(
    server: ServerView,
    app_id: Seq<char>,
    address: SocketAddr,
    i: int,
)
    requires
        server.instances.contains_key(app_id),
        0 <= i < server.instances[app_id].len(),
        server.instances[app_id][i].address == address,
        forall|j: int| 0 <= j < i ==> (#[trigger] server.instances[app_id][j]).address != address,
    ensures
        ({
            let after = server.with_connection_closed(app_id, address);
            let before = server.instances[app_id];
            let now = after.instances[app_id];
            &&& now.len() == before.len()
            &&& now[i].address == address
            &&& now[i].active_connections == (if before[i].status is Normal
                && before[i].active_connections > 0 {
                before[i].active_connections - 1
            } else {
                before[i].active_connections as int
            })
            &&& now[i].status is Normal <==> before[i].status is Normal
                && before[i].active_connections > 0
            &&& forall|j: int| 0 <= j < now.len() && j != i ==> now[j] == before[j]
            &&& after.instances.dom() == server.instances.dom()
            &&& after.instances.remove(app_id) == server.instances.remove(app_id)
            &&& after == ServerView { instances: after.instances, ..server }
        }),
{
    let after = server.with_connection_closed(app_id, address);
    let backends = server.instances[app_id];
    assert(is_first_at(backends, address, i));
    let j = choose|j: int| is_first_at(backends, address, j);
    assert(j == i) by {
        if j < i {
            assert(backends[j].address != address);
        }
        if i < j {
            assert(backends[i].address != address);
        }
    }
    assert(after.instances.dom() =~= server.instances.dom());
    assert(after.instances.remove(app_id) =~= server.instances.remove(app_id));
}

/// A connection to an address where the application has no instance is given back by none.
pub proof fn law_a_foreign_connection_is_not_given_back(
    server: ServerView,
    app_id: Seq<char>,
    address: SocketAddr,
)
    requires
        server.instances.contains_key(app_id) ==> forall|i: int|
            0 <= i < server.instances[app_id].len() ==> (
            #[trigger] server.instances[app_id][i]).address != address,
    ensures
        server.with_connection_closed(app_id, address) == server,
{
}

/// An instance that was just added is open and has no connections. A connection more and a
/// connection less change its count by one, as long as it is open, and neither moves it; it closes
/// exactly when it gives back a connection that it does not have.
pub proof fn law_an_instance_counts(backend: Backend, address: SocketAddr)
    ensures
        Backend::fresh(address) == (Backend {
            address,
            status: BackendStatus::Normal,
            active_connections: 0,
        }),
        backend.is_open() <==> backend.status is Normal,
        backend.with_connection().address == backend.address,
        backend.with_connection().status == backend.status,
        backend.active_connections < usize::MAX ==> backend.with_connection().active_connections
            - backend.active_connections == (if backend.status is Normal {
            1int
        } else {
            0
        }),
        backend.without_connection().address == backend.address,
        backend.without_connection().status is Closed <==> backend.status is Closed
            || backend.active_connections == 0,
        backend.active_connections - backend.without_connection().active_connections == (
        if backend.status is Normal && backend.active_connections > 0 {
            1int
        } else {
            0
        }),
{
}

} // verus!
