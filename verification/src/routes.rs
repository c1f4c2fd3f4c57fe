//! Routing centrality: which nodes, not yet peers, show up most often
//! as relays on routes from the local node to the rest of the network.
//!
//! The library names the destinations to probe and ranks the relays of
//! the routes that the caller found; finding a route is the caller's
//! part.

use crate::cmd::GetRoute;
use crate::graph::{edges_at, AliasedIds, End, PeerIds};
use crate::metrics::FeePpm;
use crate::nodefees::edge_rates;
use crate::order::{
    arranged, lemma_sort_order, ranks_under, sort_order, sorted_by, sorted_copy, Rank, Ranked,
    SortKey,
};
use crate::ratio::Ratio;
use crate::seqs::{
    capped, count_picked, distinct, picked, projected, total, Duplicate, Pick,
};
use crate::store::Store;
use crate::text::{chars_of, distinct_strings, holds_text, string_eq, views};
use vstd::prelude::*;
use vstd::string::*;

verus! {

/// A relay shows up in the ranking if it stands on more routes than
/// this.
pub const MIN_APPEARANCES: usize = 2;

/// A node is probed if it has at least so many outgoing edges.
pub const MIN_CHANNELS: usize = 2;

/// A relay with its place in the routes and its fees.
#[derive(Debug, Clone)]
pub struct RouteEntry {
    pub node_id: String,
    pub alias: String,
    /// On how many hops of the routes the node stands as a relay.
    pub appearances: usize,
    /// How many edges start at the node.
    pub channel_count: u64,
    /// The sum of the fee rates of these edges, in ppm.
    pub fee_sum: u64,
    /// How many different fee rates these edges have.
    pub fee_variety: usize,
}

impl Duplicate for RouteEntry {
    fn duplicate(&self) -> (r: RouteEntry) {
        RouteEntry {
            node_id: self.node_id.clone(),
            alias: self.alias.clone(),
            appearances: self.appearances,
            channel_count: self.channel_count,
            fee_sum: self.fee_sum,
            fee_variety: self.fee_variety,
        }
    }
}

impl RouteEntry {
    /// The mean fee rate of the node's edges.
    pub fn avg_fee(&self) -> (r: Option<Ratio>)
        ensures
            r is Some <==> self.channel_count > 0,
            r matches Some(q) ==> q.num == self.fee_sum && q.den == self.channel_count,
    {
        if self.channel_count == 0 {
            None
        } else {
            Some(Ratio { num: self.fee_sum as u128, den: self.channel_count as u128 })
        }
    }

    /// How many different fee rates the node uses per edge.
    pub fn fee_diversity(&self) -> (r: Ratio)
        ensures
            r.wf(),
            self.channel_count == 0 ==> r.num == 0,
            self.channel_count > 0 ==> r.num == self.fee_variety && r.den == self.channel_count,
    {
        if self.channel_count == 0 {
            Ratio { num: 0, den: 1 }
        } else {
            Ratio { num: self.fee_variety as u128, den: self.channel_count as u128 }
        }
    }

    /// What the entry says.
    pub open spec fn say(&self) -> Relay {
        Relay {
            node_id: self.node_id@,
            alias: self.alias@,
            appearances: self.appearances as nat,
            channel_count: self.channel_count,
            fee_sum: self.fee_sum,
            fee_variety: self.fee_variety as nat,
        }
    }
}

/// What an entry of the ranking says.
pub struct Relay {
    pub node_id: Seq<char>,
    pub alias: Seq<char>,
    pub appearances: nat,
    pub channel_count: u64,
    pub fee_sum: u64,
    pub fee_variety: nat,
}

/// What each of the entries says.
pub open spec fn said(entries: Seq<RouteEntry>) -> Seq<Relay> {
    Seq::new(entries.len(), |i: int| entries[i].say())
}

/// The relays among the first `upto` hops of a route: the ids of the
/// hops that are no peers, in the order of the route.
pub open spec fn relays_of(route: GetRoute, peers: Seq<Seq<char>>, upto: int) -> Seq<Seq<char>>
    decreases upto,
{
    if upto <= 0 {
        Seq::empty()
    } else {
        let id = route.route@[upto - 1].id@;
        if peers.contains(id) {
            relays_of(route, peers, upto - 1)
        } else {
            relays_of(route, peers, upto - 1).push(id)
        }
    }
}

/// The relays of a route: those among all its hops but the last,
/// which is the destination.
pub open spec fn relays_on(route: Option<GetRoute>, peers: Seq<Seq<char>>) -> Seq<Seq<char>> {
    match route {
        Some(r) => relays_of(r, peers, r.route@.len() - 1),
        None => Seq::empty(),
    }
}

/// The relays of all routes, route by route.
pub open spec fn relay_ids(routes: Seq<Option<GetRoute>>, peers: Seq<Seq<char>>) -> Seq<Seq<char>>
    decreases routes.len(),
{
    if routes.len() == 0 {
        Seq::empty()
    } else {
        relay_ids(routes.drop_last(), peers) + relays_on(routes.last(), peers)
    }
}

/// The number of hops of all routes that were found.
pub open spec fn hops_total(routes: Seq<Option<GetRoute>>) -> nat
    decreases routes.len(),
{
    if routes.len() == 0 {
        0
    } else {
        hops_total(routes.drop_last()) + match routes.last() {
            Some(r) => r.route@.len(),
            None => 0,
        }
    }
}

/// How many routes were found.
pub open spec fn routes_found(routes: Seq<Option<GetRoute>>) -> nat
    decreases routes.len(),
{
    if routes.len() == 0 {
        0
    } else {
        routes_found(routes.drop_last()) + match routes.last() {
            Some(r) => 1nat,
            None => 0nat,
        }
    }
}

/// Selects the strings with the characters of a given one.
pub struct Same {
    pub text: String,
}

impl Pick<String> for Same {
    open spec fn picks(&self, item: &String) -> bool {
        item@ == self.text@
    }

    fn accepts(&self, item: &String) -> (r: bool) {
        string_eq(item, &self.text)
    }
}

/// How often `id` occurs among `all`.
pub open spec fn times(all: Seq<Seq<char>>, id: Seq<char>) -> nat
    decreases all.len(),
{
    if all.len() == 0 {
        0
    } else {
        times(all.drop_last(), id) + if all.last() == id {
            1nat
        } else {
            0nat
        }
    }
}

/// What a `Same` selection counts is `times` of its text.
pub proof fn lemma_same(all: Seq<String>, sel: Same)
    ensures
        picked(all, sel).len() == times(views(all), sel.text@),
    decreases all.len(),
{
    reveal(Seq::filter);
    if all.len() > 0 {
        lemma_same(all.drop_last(), sel);
        assert(views(all).drop_last() =~= views(all.drop_last()));
    }
}

/// The entry of the relay `id`, if it stands on more than
/// `MIN_APPEARANCES` hops and has an outgoing edge.
pub open spec fn relay_entry(store: &Store, all: Seq<Seq<char>>, id: Seq<char>) -> Option<Relay> {
    let out = edges_at(store.edges(), id, End::Source, None);
    if times(all, id) > MIN_APPEARANCES && out.len() > 0 {
        Some(
            Relay {
                node_id: id,
                alias: store.display_name(id),
                appearances: times(all, id),
                channel_count: capped(out.len()),
                fee_sum: capped(total(out, FeePpm)),
                fee_variety: distinct(edge_rates(out)).len(),
            },
        )
    } else {
        None
    }
}

/// The entries of the relays `ids`, in their order.
pub open spec fn entries_of(store: &Store, all: Seq<Seq<char>>, ids: Seq<Seq<char>>) -> Seq<Relay> {
    ids.filter_map(|id: Seq<char>| relay_entry(store, all, id))
}

/// The entries of the relays `ids`, in their order, where `all` holds
/// the relays of all routes, hop by hop.
pub fn relay_entries(store: &Store, all: &Vec<String>, ids: &Vec<String>) -> (r: Vec<RouteEntry>)
    ensures
        said(r@) == entries_of(store, views(all@), views(ids@)),
{
    let mut out: Vec<RouteEntry> = Vec::new();
    let mut i: usize = 0;
    proof {
        assert(views(ids@).take(0) =~= Seq::<Seq<char>>::empty());
        assert(said(out@) =~= entries_of(store, views(all@), views(ids@).take(0)));
    }
    while i < ids.len()
        invariant
            i <= ids.len(),
            said(out@) == entries_of(store, views(all@), views(ids@).take(i as int)),
        decreases ids.len() - i,
    {
        let item = &ids[i];
        let ghost before = said(out@);
        proof {
            let next = views(ids@).take(i + 1);
            assert(next.drop_last() =~= views(ids@).take(i as int));
            assert(next.last() == item@);
        }
        let sel = Same { text: item.clone() };
        proof {
            lemma_same(all@, sel);
        }
        let appearances = count_picked(all, &sel);
        if appearances > MIN_APPEARANCES {
            let fee = store.node_fee(item.as_str());
            if fee.count > 0 {
                let alias = store.get_node_alias(item.as_str());
                let entry = RouteEntry {
                    node_id: item.clone(),
                    alias,
                    appearances,
                    channel_count: fee.count,
                    fee_sum: fee.fee_sum,
                    fee_variety: fee.fee_rates.len(),
                };
                out.push(entry);
                proof {
                    assert(said(out@) =~= before + seq![entry.say()]);
                }
            }
        }
        i += 1;
    }
    proof {
        assert(views(ids@).take(i as int) =~= views(ids@));
    }
    out
}

/// Ranks relays by their appearances, most first, and by their id
/// where they appear equally often.
pub struct ByAppearances;

impl Ranked<RouteEntry> for ByAppearances {
    open spec fn rank_of(&self, item: &RouteEntry) -> Rank {
        Rank { number: -(item.appearances as int), text: item.node_id@ }
    }

    fn key(&self, item: &RouteEntry) -> (r: SortKey) {
        SortKey { number: -(item.appearances as i128), text: chars_of(item.node_id.as_str()) }
    }
}

/// The ranks of relays by appearances and id.
pub open spec fn relay_ranks(relays: Seq<Relay>) -> Seq<Rank> {
    Seq::new(relays.len(), |i: int| Rank { number: -(relays[i].appearances as int), text: relays[i].node_id })
}

/// Selects the node ids with at least `MIN_CHANNELS` outgoing edges.
pub struct WorthProbing<'a> {
    pub store: &'a Store,
}

/// Whether the node has at least `MIN_CHANNELS` outgoing edges.
pub open spec fn is_worth_probing(store: &Store, id: Seq<char>) -> bool {
    edges_at(store.edges(), id, End::Source, None).len() >= MIN_CHANNELS
}

/// The ids of the nodes that have an alias, each once, in the order of
/// the nodes document.
pub open spec fn scanned_ids(store: &Store) -> Seq<Seq<char>> {
    distinct(views(projected(store.nodes.nodes@, AliasedIds)))
}

/// The nodes to find a route to.
pub open spec fn probe_targets(store: &Store) -> Seq<Seq<char>> {
    scanned_ids(store).filter(|id: Seq<char>| is_worth_probing(store, id))
}

impl<'a> Pick<String> for WorthProbing<'a> {
    open spec fn picks(&self, item: &String) -> bool {
        is_worth_probing(self.store, item@)
    }

    fn accepts(&self, item: &String) -> (r: bool) {
        let sel = crate::graph::EdgeSelection::at(item.as_str(), End::Source);
        proof {
            crate::graph::lemma_edge_selection(self.store.edges(), sel);
        }
        count_picked(&self.store.channels.channels, &sel) >= MIN_CHANNELS
    }
}

/// The outcome of a scan of routes.
#[derive(Debug, Clone)]
pub struct RoutesReport {
    /// The relays that stand on more than `MIN_APPEARANCES` hops, most
    /// appearances first.
    pub entries: Vec<RouteEntry>,
    /// How many nodes have an alias.
    pub scanned_nodes: usize,
    /// How many routes were found.
    pub evaluated_routes: usize,
    /// How many relays the ranking holds.
    pub candidate_nodes: usize,
    /// Mean number of hops of the routes found; 0 where none was.
    pub average_hops: Ratio,
}

/// The peers of the store, as the scan knows them: the ids of the
/// peers that have a channel, each once.
pub open spec fn known_peers(store: &Store) -> Seq<Seq<char>> {
    distinct(views(projected(store.peers.peers@, PeerIds)))
}

/// The ranking of the relays of the given routes: for each relay that
/// stands on more than `MIN_APPEARANCES` hops and has an outgoing edge
/// one entry, most appearances first, relays with equally many by id.
pub open spec fn ranking(store: &Store, routes: Seq<Option<GetRoute>>) -> Seq<Relay> {
    let all = relay_ids(routes, known_peers(store));
    let entries = entries_of(store, all, distinct(all));
    arranged(entries, sort_order(relay_ranks(entries)))
}

/// The ids of the hops of all routes that are relays, route by route.
pub fn collect_relays(routes: &Vec<Option<GetRoute>>, peers: &Vec<String>) -> (r: Vec<String>)
    ensures
        views(r@) == relay_ids(routes@, views(peers@)),
{
    let mut out: Vec<String> = Vec::new();
    let mut i: usize = 0;
    proof {
        assert(routes@.take(0) =~= Seq::<Option<GetRoute>>::empty());
        assert(views(out@) =~= relay_ids(routes@.take(0), views(peers@)));
    }
    while i < routes.len()
        invariant
            i <= routes.len(),
            views(out@) == relay_ids(routes@.take(i as int), views(peers@)),
        decreases routes.len() - i,
    {
        let ghost done = views(out@);
        proof {
            let next = routes@.take(i + 1);
            assert(next.drop_last() =~= routes@.take(i as int));
            assert(next.last() == routes@[i as int]);
        }
        match &routes[i] {
            Some(route) => {
                let hops = &route.route;
                let upto: usize = if hops.len() == 0 {
                    0
                } else {
                    hops.len() - 1
                };
                let mut j: usize = 0;
                proof {
                    assert(views(out@) =~= done + relays_of(*route, views(peers@), 0));
                }
                while j < upto
                    invariant
                        j <= upto,
                        upto < hops@.len() || upto == 0,
                        hops@ == route.route@,
                        views(out@) == done + relays_of(*route, views(peers@), j as int),
                    decreases upto - j,
                {
                    let ghost inner = views(out@);
                    if !holds_text(peers, &hops[j].id) {
                        out.push(hops[j].id.clone());
                        proof {
                            assert(views(out@) =~= inner.push(hops@[j as int].id@));
                        }
                    }
                    proof {
                        assert(views(out@) =~= done + relays_of(*route, views(peers@), j + 1));
                    }
                    j += 1;
                }
                proof {
                    if hops@.len() == 0 {
                        assert(relays_of(*route, views(peers@), -1) =~= relays_of(
                            *route,
                            views(peers@),
                            0,
                        ));
                    }
                }
            },
            None => {
                proof {
                    assert(views(out@) =~= done + Seq::<Seq<char>>::empty());
                }
            },
        }
        i += 1;
    }
    proof {
        assert(routes@.take(i as int) =~= routes@);
    }
    out
}

/// What sorted entries say is what the entries say, in the order of
/// their appearances and ids.
pub proof fn lemma_sorted_said(entries: Seq<RouteEntry>)
    requires
        entries.len() <= usize::MAX,
    ensures
        said(sorted_by(entries, ByAppearances)) == arranged(
            said(entries),
            sort_order(relay_ranks(said(entries))),
        ),
{
    assert(ranks_under(entries, ByAppearances) =~= relay_ranks(said(entries)));
    lemma_sort_order(ranks_under(entries, ByAppearances));
    assert(said(sorted_by(entries, ByAppearances)) =~= arranged(
        said(entries),
        sort_order(relay_ranks(said(entries))),
    ));
}

/// The nodes to find a route to: those with an alias and at least
/// `MIN_CHANNELS` outgoing edges, each once, in the order of the nodes
/// document.
pub fn route_targets(store: &Store) -> (r: Vec<String>)
    ensures
        views(r@) == probe_targets(store),
{
    let ids = store.node_ids_with_aliases();
    let sel = WorthProbing { store };
    proof {
        crate::text::lemma_views_filter(
            ids@,
            crate::seqs::picker(sel),
            |id: Seq<char>| is_worth_probing(store, id),
        );
    }
    select_strings(&ids, &sel)
}

/// Ranks the relays of the routes that were found. `routes` holds, for
/// each destination that was probed, the route found or none.
pub fn run_routes(store: &Store, routes: &Vec<Option<GetRoute>>) -> (r: RoutesReport)
    ensures
        said(r.entries@) == ranking(store, routes@),
        forall|i: int, j: int|
            #![trigger r.entries@[i], r.entries@[j]]
            0 <= i < j < r.entries@.len() ==> r.entries@[i].appearances
                >= r.entries@[j].appearances,
        r.candidate_nodes == r.entries@.len(),
        r.evaluated_routes == routes_found(routes@),
        r.scanned_nodes == scanned_ids(store).len(),
        r.average_hops.wf(),
        routes_found(routes@) == 0 ==> r.average_hops.num == 0,
        routes_found(routes@) > 0 ==> r.average_hops.num == hops_total(routes@)
            && r.average_hops.den == routes_found(routes@),
{
    let peers = store.peers_ids();
    let scanned = store.node_ids_with_aliases();
    let all = collect_relays(routes, &peers);
    let ids = distinct_strings(&all);
    let entries = relay_entries(store, &all, &ids);
    let sorted = sorted_copy(&entries, &ByAppearances);
    proof {
        lemma_sorted_said(entries@);
        crate::order::lemma_sorted_by(entries@, ByAppearances);
        assert forall|i: int, j: int|
            #![trigger sorted@[i], sorted@[j]]
            0 <= i < j < sorted@.len() implies sorted@[i].appearances
            >= sorted@[j].appearances by {
            assert(ByAppearances.rank_of(&sorted@[i]).le(&ByAppearances.rank_of(&sorted@[j])));
        }
    }
    let mut found: usize = 0;
    let mut hops: u128 = 0;
    let mut i: usize = 0;
    proof {
        assert(routes@.take(0) =~= Seq::<Option<GetRoute>>::empty());
    }
    while i < routes.len()
        invariant
            i <= routes.len(),
            found == routes_found(routes@.take(i as int)),
            found <= i,
            hops == hops_total(routes@.take(i as int)),
            hops <= i * usize::MAX,
        decreases routes.len() - i,
    {
        proof {
            let next = routes@.take(i + 1);
            assert(next.drop_last() =~= routes@.take(i as int));
            assert(next.last() == routes@[i as int]);
        }
        let len: usize = match &routes[i] {
            Some(route) => {
                found += 1;
                route.route.len()
            },
            None => 0,
        };
        assert(hops + len <= (i + 1) * usize::MAX) by (nonlinear_arith)
            requires
                hops <= i * usize::MAX,
                len <= usize::MAX,
        ;
        assert((i + 1) * usize::MAX <= 0xffff_ffff_ffff_ffff * 0xffff_ffff_ffff_ffff)
            by (nonlinear_arith)
            requires
                i + 1 <= 0xffff_ffff_ffff_ffff,
                usize::MAX <= 0xffff_ffff_ffff_ffff,
        ;
        hops = hops + len as u128;
        i += 1;
    }
    proof {
        assert(routes@.take(i as int) =~= routes@);
    }
    let average_hops = if found == 0 {
        Ratio { num: 0, den: 1 }
    } else {
        Ratio { num: hops, den: found as u128 }
    };
    let candidate_nodes = sorted.len();
    RoutesReport {
        entries: sorted,
        scanned_nodes: scanned.len(),
        evaluated_routes: found,
        candidate_nodes,
        average_hops,
    }
}

/// Ranking twice on an unchanged store and the same routes gives the
/// same relays in the same order.
pub proof fn lemma_ranking_repeatable(
    store: &Store,
    routes: Seq<Option<GetRoute>>,
    first: Seq<RouteEntry>,
    second: Seq<RouteEntry>,
)
    requires
        said(first) == ranking(store, routes),
        said(second) == ranking(store, routes),
    ensures
        first.len() == second.len(),
        forall|i: int| 0 <= i < first.len() ==> (#[trigger] first[i]).say() == second[i].say(),
{
    assert(said(first).len() == first.len());
    assert(said(second).len() == second.len());
    assert forall|i: int| 0 <= i < first.len() implies (#[trigger] first[i]).say()
        == second[i].say() by {
        assert(said(first)[i] == first[i].say());
        assert(said(second)[i] == second[i].say());
    }
}

/// Copies of the strings that `p` selects, in their order.
pub fn select_strings<P: Pick<String>>(items: &Vec<String>, p: &P) -> (r: Vec<String>)
    ensures
        r@ == picked(items@, *p),
{
    let mut out: Vec<String> = Vec::new();
    let mut i: usize = 0;
    proof {
        reveal(Seq::filter);
        assert(items@.take(0) =~= Seq::<String>::empty());
    }
    while i < items.len()
        invariant
            i <= items.len(),
            out@ == picked(items@.take(i as int), *p),
        decreases items.len() - i,
    {
        proof {
            crate::seqs::lemma_picked_step(items@, *p, i as int);
        }
        if p.accepts(&items[i]) {
            out.push(items[i].clone());
        }
        i += 1;
    }
    proof {
        assert(items@.take(i as int) =~= items@);
    }
    out
}

} // verus!
