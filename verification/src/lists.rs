//! Lists of fronts and of instances.

use vstd::prelude::*;

use crate::backend::Backend;
use crate::messages::HttpFrontView;
use crate::server_view::{differs, is_best, open_places, serves, ServerView};

verus! {

/// At most one front serves a request best.
pub proof fn lemma_best_is_unique(fronts: Seq<HttpFrontView>, uri: Seq<char>)
    ensures
        forall|i: int, j: int| is_best(fronts, uri, i) && is_best(fronts, uri, j) ==> i == j,
{
}

/// Filtering a list whose items all stay changes nothing.
pub proof fn lemma_filter_keeps_all<A>(items: Seq<A>, keep: spec_fn(A) -> bool)
    requires
        forall|i: int| 0 <= i < items.len() ==> keep(#[trigger] items[i]),
    ensures
        items.filter(keep) == items,
    decreases items.len(),
{
    reveal(Seq::filter);
    if items.len() > 0 {
        let rest = items.drop_last();
        assert forall|i: int| 0 <= i < rest.len() implies keep(#[trigger] rest[i]) by {
            assert(rest[i] == items[i]);
        }
        lemma_filter_keeps_all(rest, keep);
        assert(keep(items[items.len() - 1]));
        assert(rest.push(items.last()) =~= items);
    }
}

/// Filtering a list a second time changes nothing.
pub proof fn lemma_filter_again<A>(items: Seq<A>, keep: spec_fn(A) -> bool)
    ensures
        items.filter(keep).filter(keep) == items.filter(keep),
{
    let kept = items.filter(keep);
    assert forall|i: int| 0 <= i < kept.len() implies keep(#[trigger] kept[i]) by {
        items.lemma_filter_pred(keep, i);
    }
    lemma_filter_keeps_all(kept, keep);
}

/// Removing a front leaves every front under its host name.
pub proof fn lemma_removal_keeps_filing(server: ServerView, front: HttpFrontView)
    requires
        server.fronts_are_filed(),
    ensures
        server.without_front(front).fronts_are_filed(),
{
    let after = server.without_front(front);
    if server.fronts.contains_key(front.hostname) {
        let before = server.fronts[front.hostname];
        assert forall|host: Seq<char>, i: int|
            #![trigger after.fronts[host][i]]
            after.fronts.contains_key(host) && 0 <= i < after.fronts[host].len() implies
            after.fronts[host][i].hostname == host by {
            if host == front.hostname {
                let left = before.filter(differs(front));
                assert(left.contains(left[i]));
                before.lemma_filter_contains_rev(differs(front), left[i]);
                let j = choose|j: int| 0 <= j < before.len() && before[j] == left[i];
                assert(server.fronts[host][j].hostname == host);
            } else {
                assert(server.fronts[host][i].hostname == host);
            }
        }
    }
}

/// Each of the open places is the place of an instance that takes connections, and there is one
/// if any instance does.
pub proof fn lemma_open_places(backends: Seq<Backend>)
    ensures
        forall|n: int|
            0 <= n < open_places(backends).len() ==> 0 <= #[trigger] open_places(backends)[n]
                < backends.len() && backends[open_places(backends)[n]].is_open(),
        open_places(backends).len() > 0 <==> exists|i: int|
            0 <= i < backends.len() && #[trigger] backends[i].is_open(),
{
    let all = Seq::new(backends.len(), |i: int| i);
    let open = |i: int| backends[i].is_open();
    let places = open_places(backends);
    assert forall|n: int| 0 <= n < places.len() implies 0 <= #[trigger] places[n] < backends.len()
        && backends[places[n]].is_open() by {
        assert(places.contains(places[n]));
        all.lemma_filter_contains_rev(open, places[n]);
        all.lemma_filter_pred(open, n);
    }
    if exists|i: int| 0 <= i < backends.len() && #[trigger] backends[i].is_open() {
        let i = choose|i: int| 0 <= i < backends.len() && #[trigger] backends[i].is_open();
        assert(open(all[i]));
        all.lemma_filter_contains(open, i);
    }
    if places.len() > 0 {
        assert(backends[places[0]].is_open());
    }
}

/// If a front serves a request, one serves it best.
pub proof fn lemma_best_exists(fronts: Seq<HttpFrontView>, uri: Seq<char>)
    requires
        exists|i: int| 0 <= i < fronts.len() && serves(#[trigger] fronts[i], uri),
    ensures
        exists|i: int| is_best(fronts, uri, i),
    decreases fronts.len(),
{
    let rest = fronts.drop_last();
    let n = fronts.len() - 1;
    if exists|i: int| 0 <= i < rest.len() && serves(#[trigger] rest[i], uri) {
        lemma_best_exists(rest, uri);
        let i = choose|i: int| is_best(rest, uri, i);
        assert(fronts[i] == rest[i]);
        if serves(fronts[n], uri) && rest[i].path_begin.len() < fronts[n].path_begin.len() {
            assert forall|j: int|
                #![trigger fronts[j]]
                0 <= j < n && serves(fronts[j], uri) implies fronts[j].path_begin.len()
                < fronts[n].path_begin.len() by {
                assert(fronts[j] == rest[j]);
            }
            assert(is_best(fronts, uri, n));
        } else {
            assert forall|j: int|
                #![trigger fronts[j]]
                0 <= j < fronts.len() && serves(fronts[j], uri) implies fronts[j].path_begin.len()
                <= fronts[i].path_begin.len() && (j < i ==> fronts[j].path_begin.len()
                < fronts[i].path_begin.len()) by {
                if j < n {
                    assert(fronts[j] == rest[j]);
                }
            }
            assert(is_best(fronts, uri, i));
        }
    } else {
        let i = choose|i: int| 0 <= i < fronts.len() && serves(#[trigger] fronts[i], uri);
        if i < n {
            assert(rest[i] == fronts[i]);
        }
        assert forall|j: int|
            #![trigger fronts[j]]
            0 <= j < fronts.len() && serves(fronts[j], uri) implies j == n by {
            if j < n {
                assert(rest[j] == fronts[j]);
            }
        }
        assert(is_best(fronts, uri, n));
    }
}

} // verus!
