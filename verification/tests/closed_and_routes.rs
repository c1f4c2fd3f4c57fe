use lightdash::cmd::{
    Channel, ClosedChannel, GetInfo, GetRoute, ListChannels, ListClosedChannels, ListForwards,
    ListFunds, ListNodes, ListPeerChannels, ListPeers, Node, Peer, PeerChannelBalance, RouteNode,
};
use lightdash::datastore::ListDatastore;
use lightdash::htlc::{run_htlc, set_channel_htlc_max};
use lightdash::ratio::Ratio;
use lightdash::routes::{route_targets, run_routes};
use lightdash::store::Store;

const ME: &str = "02me";

fn closed(scid: Option<&str>, peer: Option<&str>, cause: &str) -> ClosedChannel {
    ClosedChannel {
        peer_id: peer.map(|p| p.to_string()),
        channel_id: "id".to_string(),
        short_channel_id: scid.map(|s| s.to_string()),
        alias: None,
        opener: "local".to_string(),
        closer: Some("remote".to_string()),
        private: Some(false),
        channel_type: None,
        total_local_commitments: Some(1),
        total_remote_commitments: Some(1),
        total_htlcs_sent: Some(0),
        funding_txid: "tx".to_string(),
        funding_outnum: 0,
        leased: Some(false),
        total_msat: 1_000,
        final_to_us_msat: 500,
        min_to_us_msat: 0,
        max_to_us_msat: 1_000,
        last_commitment_txid: None,
        last_commitment_fee_msat: None,
        close_cause: cause.to_string(),
    }
}

fn edge(scid: &str, source: &str, destination: &str, ppm: u64) -> Channel {
    Channel {
        source: source.to_string(),
        destination: destination.to_string(),
        short_channel_id: scid.to_string(),
        amount_msat: 1_000_000_000,
        active: true,
        last_update: 0,
        base_fee_millisatoshi: 0,
        fee_per_millionth: ppm,
        delay: 34,
        htlc_minimum_msat: 0,
        htlc_maximum_msat: 0,
        features: String::new(),
    }
}

fn node(id: &str, alias: Option<&str>) -> Node {
    Node { nodeid: id.to_string(), alias: alias.map(|a| a.to_string()), last_timestamp: None }
}

fn peer(id: &str) -> Peer {
    Peer {
        id: id.to_string(),
        connected: true,
        num_channels: 1,
        features: String::new(),
        channels: vec![],
    }
}

fn store(
    channels: Vec<Channel>,
    peers: Vec<Peer>,
    nodes: Vec<Node>,
    closedchannels: Vec<ClosedChannel>,
) -> Store {
    Store::new(
        GetInfo { id: ME.to_string(), blockheight: 900_000 },
        ListChannels { channels },
        ListPeers { peers },
        ListFunds { channels: vec![], outputs: vec![] },
        ListForwards { forwards: vec![] },
        ListNodes { nodes },
        ListClosedChannels { closedchannels },
        &ListDatastore { datastore: vec![] },
        &ListDatastore { datastore: vec![] },
        1_700_000_000,
    )
}

fn route(ids: &[&str]) -> Option<GetRoute> {
    Some(GetRoute {
        route: ids
            .iter()
            .map(|id| RouteNode {
                id: id.to_string(),
                channel: "1x1x1".to_string(),
                direction: 0,
                amount_msat: 1_000,
                delay: 10,
                style: "tlv".to_string(),
            })
            .collect(),
    })
}

#[test]
fn closed_channel_is_enriched_with_alias_and_opening_block() {
    let s = store(
        vec![],
        vec![],
        vec![node("02P", Some("Acme"))],
        vec![closed(Some("123456x789x0"), Some("02P"), "remote")],
    );
    let info = s.get_closed_channels_info();
    assert_eq!(info.len(), 1);
    assert_eq!(info[0].opening_block, Some(123_456));
    assert_eq!(info[0].alias, "Acme");
    assert_eq!(info[0].channel.short_channel_id_display(), "123456x789x0");
    assert_eq!(info[0].channel.block_born(), Some(123_456));
    assert_eq!(info[0].position, 0);
}

#[test]
fn closed_channels_are_sorted_by_the_id_that_is_shown() {
    let s = store(
        vec![],
        vec![],
        vec![node("02P", Some("Acme"))],
        vec![
            closed(Some("900x1x1"), Some("02P"), "remote"),
            closed(None, None, "local"),
            closed(Some("123456x789x0"), Some("02Q"), "remote"),
            closed(Some("123456x789x0"), Some("02P"), "onchain"),
        ],
    );
    let info = s.get_closed_channels_info();
    let shown: Vec<(String, String, usize)> = info
        .iter()
        .map(|i| (i.channel.short_channel_id_display(), i.alias.clone(), i.position))
        .collect();
    let unknown = closed(None, None, "local").short_channel_id_display();
    let mut expected = vec![
        ("123456x789x0".to_string(), "02Q".to_string(), 2),
        ("123456x789x0".to_string(), "Acme".to_string(), 3),
        ("900x1x1".to_string(), "Acme".to_string(), 0),
    ];
    let nameless = (unknown.clone(), "Unknown Peer".to_string(), 1);
    let at = expected.iter().position(|e| e.0 > unknown).unwrap_or(expected.len());
    expected.insert(at, nameless);
    assert_eq!(shown, expected);
    assert_eq!(info.iter().find(|i| i.position == 1).and_then(|i| i.opening_block), None);
    assert_eq!(s.closed_channels_len(), 4);
}

fn graph() -> Store {
    store(
        vec![
            edge("1x1x1", "hub", "a", 100),
            edge("2x1x1", "hub", "b", 100),
            edge("3x1x1", "hub", "c", 300),
            edge("4x1x1", "relay", "a", 50),
            edge("5x1x1", "relay", "b", 70),
            edge("6x1x1", "friend", "a", 1),
            edge("7x1x1", "friend", "b", 1),
            edge("8x1x1", "leaf", "hub", 9),
        ],
        vec![peer("friend")],
        vec![
            node("hub", Some("Hub")),
            node("relay", None),
            node("friend", Some("Friend")),
            node("leaf", Some("Leaf")),
            node("ghost", Some("Ghost")),
        ],
        vec![],
    )
}

#[test]
fn routes_are_probed_to_aliased_nodes_with_two_edges() {
    assert_eq!(route_targets(&graph()), vec!["hub", "friend"]);
}

#[test]
fn relays_are_ranked_by_their_appearances() {
    let s = graph();
    let routes = vec![
        route(&["friend", "hub", "relay", "x"]),
        None,
        route(&["hub", "relay", "y"]),
        route(&["relay", "hub", "z"]),
        route(&["relay", "ghost", "hub"]),
        route(&["ghost", "ghost", "ghost", "w"]),
        route(&["hub"]),
    ];
    let report = run_routes(&s, &routes);
    assert_eq!(report.scanned_nodes, 4);
    assert_eq!(report.evaluated_routes, 6);
    assert_eq!(report.average_hops, Ratio { num: 18, den: 6 });
    assert_eq!(report.candidate_nodes, 2);
    let shown: Vec<(String, String, usize, u64, u64, usize)> = report
        .entries
        .iter()
        .map(|e| {
            (e.node_id.clone(), e.alias.clone(), e.appearances, e.channel_count, e.fee_sum, e.fee_variety)
        })
        .collect();
    assert_eq!(
        shown,
        vec![
            ("relay".to_string(), "relay".to_string(), 4, 2, 120, 2),
            ("hub".to_string(), "Hub".to_string(), 3, 3, 500, 2),
        ]
    );
    assert_eq!(report.entries[0].avg_fee(), Some(Ratio { num: 120, den: 2 }));
    assert_eq!(report.entries[1].fee_diversity(), Ratio { num: 2, den: 3 });
}

#[test]
fn relays_that_appear_equally_often_are_ranked_by_id() {
    let s = graph();
    let routes = vec![
        route(&["relay", "hub", "x"]),
        route(&["relay", "hub", "x"]),
        route(&["hub", "relay", "x"]),
    ];
    let ids: Vec<String> = run_routes(&s, &routes).entries.into_iter().map(|e| e.node_id).collect();
    assert_eq!(ids, vec!["hub", "relay"]);
}

#[test]
fn ranking_twice_gives_the_same_ranking() {
    let s = graph();
    let routes = vec![
        route(&["relay", "hub", "x"]),
        route(&["relay", "hub", "x"]),
        route(&["hub", "relay", "x"]),
        route(&["hub", "relay", "hub", "x"]),
    ];
    let say = |s: &Store| -> Vec<(String, usize)> {
        run_routes(s, &routes).entries.into_iter().map(|e| (e.node_id, e.appearances)).collect()
    };
    assert_eq!(say(&s), say(&s));
    assert_eq!(say(&s), vec![("hub".to_string(), 5), ("relay".to_string(), 4)]);
}

#[test]
fn without_routes_there_is_no_ranking() {
    let report = run_routes(&graph(), &vec![None, None]);
    assert!(report.entries.is_empty());
    assert_eq!(report.evaluated_routes, 0);
    assert_eq!(report.average_hops.num, 0);
    assert!(report.average_hops.den > 0);
}

fn balance(state: &str, scid: Option<&str>, to_us: u64, max_out: u64) -> PeerChannelBalance {
    PeerChannelBalance {
        state: state.to_string(),
        short_channel_id: scid.map(|s| s.to_string()),
        to_us_msat: to_us,
        maximum_htlc_out_msat: max_out,
    }
}

#[test]
fn htlc_limits_follow_our_funds() {
    let channels = ListPeerChannels {
        channels: vec![
            balance("CHANNELD_NORMAL", Some("1x1x1"), 1_000, 5_000),
            balance("CHANNELD_NORMAL", Some("2x1x1"), 5_000, 5_000),
            balance("CHANNELD_NORMAL", Some("3x1x1"), 0, 5_000),
            balance("CHANNELD_NORMAL", None, 1_000, 5_000),
            balance("ONCHAIN", Some("5x1x1"), 1_000, 5_000),
            balance("CHANNELD_NORMAL", Some("6x1x1"), 1, 2),
        ],
    };
    let out = run_htlc(&channels);
    let shown: Vec<(String, u64, u64, u64)> = out
        .iter()
        .map(|h| (h.short_channel_id.clone(), h.to_us_msat, h.current_msat, h.htlc_max_msat))
        .collect();
    assert_eq!(
        shown,
        vec![("1x1x1".to_string(), 1_000, 5_000, 512), ("6x1x1".to_string(), 1, 2, 1)]
    );
    assert_eq!(set_channel_htlc_max("1x1x1", 512), vec!["setchannel", "-k", "1x1x1", "htlcmax=512"]);
}
