use lightdash::cmd::{
    Channel, ClosedChannel, Forward, ForwardStatus, Fund, GetInfo, ListChannels,
    ListClosedChannels, ListForwards, ListFunds, ListNodes, ListPeers, Node, Peer,
};
use lightdash::common::{Direction, Rebalance};
use lightdash::dashboard::{channel_flow, run_dashboard, scids_asking, ChannelFlow};
use lightdash::datastore::{DatastoreResponse, ListDatastore};
use lightdash::nodefees::generate_ppm_ranges;
use lightdash::pages::{
    amount_label, axis_mark, bar_height, bar_share, channels_by_balance, close_causes,
    failures_by_out_channel, largest_amount, largest_count, liquidity, FailureCounts, Liquidity,
};
use lightdash::ratio::Ratio;
use lightdash::store::Store;

const NOW: i64 = 1_700_000_000;
const DAY: i64 = 86_400;
const ME: &str = "02me";

fn fund(scid: &str, peer: &str, our: u64, total: u64) -> Fund {
    Fund {
        peer_id: peer.to_string(),
        connected: true,
        state: "CHANNELD_NORMAL".to_string(),
        channel_id: format!("id-{scid}"),
        short_channel_id: Some(scid.to_string()),
        our_amount_msat: our,
        amount_msat: total,
        funding_txid: "tx".to_string(),
        funding_output: 0,
    }
}

fn edge(scid: &str, source: &str, destination: &str, base: u64, ppm: u64, updated: u64) -> Channel {
    Channel {
        source: source.to_string(),
        destination: destination.to_string(),
        short_channel_id: scid.to_string(),
        amount_msat: 2_000_000,
        active: true,
        last_update: updated,
        base_fee_millisatoshi: base,
        fee_per_millionth: ppm,
        delay: 34,
        htlc_minimum_msat: 0,
        htlc_maximum_msat: 0,
        features: String::new(),
    }
}

fn settled(in_channel: &str, out_channel: &str, fee_msat: u64, resolved: i64) -> Forward {
    Forward {
        in_channel: in_channel.to_string(),
        out_channel: Some(out_channel.to_string()),
        fee_msat: Some(fee_msat),
        in_msat: 1_000_000 + fee_msat,
        out_msat: Some(1_000_000),
        status: "settled".to_string(),
        received_time: resolved - 1,
        resolved_time: Some(resolved),
        failreason: None,
        failcode: None,
    }
}

fn failed(out_channel: &str, status: &str, reason: &str, received: i64) -> Forward {
    Forward {
        in_channel: "in".to_string(),
        out_channel: Some(out_channel.to_string()),
        fee_msat: None,
        in_msat: 1_000_000,
        out_msat: None,
        status: status.to_string(),
        received_time: received,
        resolved_time: None,
        failreason: Some(reason.to_string()),
        failcode: None,
    }
}

fn closed(cause: &str) -> ClosedChannel {
    ClosedChannel {
        peer_id: None,
        channel_id: "id".to_string(),
        short_channel_id: None,
        alias: None,
        opener: "local".to_string(),
        closer: None,
        private: None,
        channel_type: None,
        total_local_commitments: None,
        total_remote_commitments: None,
        total_htlcs_sent: None,
        funding_txid: "tx".to_string(),
        funding_outnum: 0,
        leased: None,
        total_msat: 0,
        final_to_us_msat: 0,
        min_to_us_msat: 0,
        max_to_us_msat: 0,
        last_commitment_txid: None,
        last_commitment_fee_msat: None,
        close_cause: cause.to_string(),
    }
}

fn note(peer: &str, text: &str) -> DatastoreResponse {
    DatastoreResponse {
        key: vec!["lightdash".to_string(), "peer_note".to_string(), peer.to_string()],
        generation: None,
        hex: None,
        string: Some(text.to_string()),
    }
}

fn node_store() -> Store {
    Store::new(
        GetInfo { id: ME.to_string(), blockheight: 900_000 },
        ListChannels {
            channels: vec![
                edge("800000x1x0", ME, "02p1", 0, 1_000, 0),
                edge("800000x1x0", "02p1", ME, 1_000, 20, (NOW - 3 * DAY) as u64),
                edge("810000x2x1", ME, "02p2", 0, 150, 0),
                edge("810000x2x1", "02p2", ME, 0, 5, (NOW - 200 * DAY) as u64),
                edge("820000x3x0", ME, "02p3", 0, 200, 0),
                edge("1x1x1", "02p2", "02p3", 0, 7, 0),
            ],
        },
        ListPeers {
            peers: vec![Peer {
                id: "02p1".to_string(),
                connected: true,
                num_channels: 1,
                features: String::new(),
                channels: vec![],
            }],
        },
        ListFunds {
            channels: vec![
                fund("800000x1x0", "02p1", 200_000_000, 1_000_000_000),
                fund("810000x2x1", "02p2", 900_000_000, 1_000_000_000),
                fund("820000x3x0", "02p3", 500_000_000, 1_000_000_000),
                Fund { state: "ONCHAIN".to_string(), ..fund("830000x3x0", "02p4", 1, 2) },
            ],
            outputs: vec![],
        },
        ListForwards {
            forwards: vec![
                settled("810000x2x1", "800000x1x0", 9_000, NOW - 5),
                settled("810000x2x1", "800000x1x0", 4_000, NOW - 20 * DAY),
                settled("800000x1x0", "810000x2x1", 3_000, NOW - 30 * DAY),
                settled("800000x1x0", "810000x2x1", 2_000, NOW - 30 * DAY - 1),
                settled("810000x2x1", "800000x1x0", 1_000, NOW - 500 * DAY),
                failed("800000x1x0", "failed", "WIRE_FEE_INSUFFICIENT", NOW - 10),
            ],
        },
        ListNodes {
            nodes: vec![
                Node { nodeid: "02p1".into(), alias: Some("Zed".into()), last_timestamp: Some((NOW - 2 * DAY) as u64) },
                Node { nodeid: "02p2".into(), alias: Some("Acme".into()), last_timestamp: None },
                Node { nodeid: "02p1".into(), alias: None, last_timestamp: Some(5) },
            ],
        },
        ListClosedChannels { closedchannels: vec![] },
        &ListDatastore { datastore: vec![note("02p3", "keep")] },
        &ListDatastore { datastore: vec![] },
        NOW,
    )
}

#[test]
fn flow_through_a_channel() {
    let s = node_store();
    let flow = s.channel_flow("800000x1x0");
    assert_eq!(
        flow,
        ChannelFlow {
            forwards_in: 2,
            forwards_out: 3,
            forwards_in_last_month: 1,
            forwards_out_last_month: 2,
            fee_sat_out: 14,
            fee_sat_in: 5,
            last_resolved_in: Some(NOW - 30 * DAY),
            last_resolved_out: Some(NOW - 5),
        }
    );
    assert_eq!(flow, channel_flow(&s.settled_forwards(), NOW, "800000x1x0"));
    assert_eq!(flow.is_sink(), Ratio { num: 3, den: 5 });
    assert_eq!(flow.is_sink_last_month(), Ratio { num: 2, den: 3 });
    assert_eq!(flow.forwards_in + flow.forwards_out, s.get_channel_total_forwards("800000x1x0"));
    assert_eq!(flow.fee_sat_out, s.get_channel_total_fees("800000x1x0"));
    // 19 sat over 100000 blocks, in msat per block
    assert_eq!(flow.gain_per_block(900_000, 800_000), 0);
    assert_eq!(flow.gain_per_block(800_010, 800_000), 1_900);
    assert_eq!(flow.gain_per_block(800_000, 800_000), 19_000);
    assert_eq!(flow.gain_per_block(0, 800_000), 19_000);
    let idle = s.channel_flow("820000x3x0");
    assert_eq!(idle.last_resolved_in, None);
    assert_eq!(idle.last_resolved_out, None);
    assert_eq!(idle.forwards_in + idle.forwards_out, 0);
    let r = idle.is_sink();
    assert_eq!(r.num * 2, r.den);
}

#[test]
fn overview_of_the_own_channels() {
    let s = node_store();
    let report = run_dashboard(&s);
    assert_eq!(report.forwards, 6);
    assert_eq!(report.settled, 5);
    assert_eq!(report.settled_last_year, 4);
    assert_eq!(report.settled_last_month, 2);
    assert_eq!(report.settled_last_week, 1);
    assert!(report.zero_base_fees);
    assert_eq!(report.channels.len(), 3);
    let classes: Vec<Rebalance> = report.channels.iter().map(|c| c.rebalance).collect();
    assert_eq!(classes, vec![Rebalance::PullIn, Rebalance::PushOut, Rebalance::Nothing]);
    let names: Vec<&str> = report.channels.iter().map(|c| c.alias_or_id.as_str()).collect();
    assert_eq!(names, vec!["Zed", "Acme", "02p3"]);
    let born: Vec<u64> = report.channels.iter().map(|c| c.block_born).collect();
    assert_eq!(born, vec![800_000, 810_000, 820_000]);
    assert_eq!(report.channels[0].is_sink, Ratio { num: 3, den: 5 });
    assert_eq!(report.channels[0].is_sink_last_month, Ratio { num: 2, den: 3 });
    assert_eq!(report.channels[1].is_sink_last_month, Ratio { num: 1, den: 3 });
    assert_eq!(report.channels[2].is_sink_last_month, Ratio { num: 1, den: 2 });
    assert_eq!(report.pull_in, vec!["800000x1x0"]);
    assert_eq!(report.push_out, vec!["810000x2x1"]);
    assert_eq!(report.rows.len(), 3);
    let percs: Vec<u64> = report.rows.iter().map(|r| r.perc).collect();
    assert_eq!(percs, vec![20, 90, 50]);
    assert_eq!(report.order, vec![0, 2, 1]);
    assert_eq!(report.rows[0].scid, "800000x1x0");
    assert_eq!(report.rows[0].flow, s.channel_flow("800000x1x0"));
    assert_eq!(report.rows[0].gain, 0);
    assert_eq!(report.rows[0].peer_seen, " 2d");
    assert_eq!(report.rows[0].edge_updated, " 3d");
    assert_eq!(report.rows[1].peer_seen, "99+");
    assert_eq!(report.rows[1].edge_updated, "99+");
    assert_eq!(report.rows[2].edge_updated, "99+");
    let pull = report.rows[0].job.as_ref().expect("a job");
    assert_eq!(pull.direction, Direction::Pull);
    assert_eq!(pull.candidates, vec!["810000x2x1"]);
    let push = report.rows[1].job.as_ref().expect("a job");
    assert_eq!(push.direction, Direction::Push);
    assert_eq!(push.candidates, vec!["800000x1x0"]);
    assert!(report.rows[2].job.is_none());
    assert_eq!(scids_asking(&report.channels, Rebalance::Nothing), vec!["820000x3x0"]);
    let alone = s.channel_meta(&s.normal_channels()[1]);
    assert_eq!(alone.rebalance, Rebalance::PushOut);
    assert_eq!(alone.is_sink, Ratio { num: 2, den: 5 });
    assert_eq!(alone.is_sink_last_month, report.channels[1].is_sink_last_month);
    assert_eq!(alone.alias_or_id, "Acme");
    assert_eq!(alone.block_born, 810_000);
    assert!(alone.is_valid());
}

#[test]
fn a_base_fee_or_a_missing_edge_is_noticed() {
    let mut s = node_store();
    s.channels.channels[0].base_fee_millisatoshi = 1;
    assert!(!s.all_zero_base_fees());
    let mut t = node_store();
    t.channels.channels.remove(4);
    assert!(!t.all_zero_base_fees());
    let mut none = node_store();
    none.funds.channels.clear();
    assert!(none.all_zero_base_fees());
}

#[test]
fn the_peer_behind_a_channel() {
    let s = node_store();
    let known = s.channel_peer("800000x1x0");
    assert_eq!(known.shown, "Zed");
    assert_eq!(known.node_id.as_deref(), Some("02p1"));
    let unknown = s.channel_peer("1x1x1");
    assert_eq!(unknown.shown, "1x1x1");
    assert_eq!(unknown.node_id, None);
    assert!(s.is_peer("02p1"));
    assert!(!s.is_peer("02p2"));
    assert_eq!(s.peer_seen_at("02p1"), (NOW - 2 * DAY) as u64);
    assert_eq!(s.peer_seen_at("02p2"), 0);
    assert_eq!(s.peer_seen_at("nobody"), 0);
    assert_eq!(s.edge_updated_at("800000x1x0", "02p1"), (NOW - 3 * DAY) as u64);
    assert_eq!(s.edge_updated_at("800000x1x0", "02p9"), 0);
}

#[test]
fn liquidity_of_the_channels() {
    let s = node_store();
    let l = liquidity(&s.normal_channels());
    assert_eq!(l, Liquidity { ours: 1_600_000, theirs: 1_400_000 });
    assert_eq!(l.our_share(), Ratio { num: 1_600_000, den: 3_000_000 });
    assert_eq!(liquidity(&vec![]).our_share(), Ratio { num: 0, den: 1 });
    let over = liquidity(&vec![fund("a", "p", 5_000, 3_000)]);
    assert_eq!(over, Liquidity { ours: 5, theirs: 0 });
}

#[test]
fn channels_in_the_order_of_their_balance() {
    let s = node_store();
    let scids: Vec<String> =
        channels_by_balance(&s.normal_channels()).iter().map(|f| f.short_channel_id()).collect();
    assert_eq!(scids, vec!["800000x1x0", "820000x3x0", "810000x2x1"]);
    let close = vec![
        fund("b", "p", 1_000_001, 3_000_000),
        fund("a", "p", 1, 3),
        fund("c", "p", 333_333, 1_000_000),
    ];
    let scids: Vec<String> = channels_by_balance(&close).iter().map(|f| f.short_channel_id()).collect();
    assert_eq!(scids, vec!["c", "a", "b"]);
}

#[test]
fn mature_inactive_channels_earn_least() {
    let mut s = node_store();
    let all = s.normal_channels();
    // 800000x1x0 and 810000x2x1 forwarded within 60 days, the peer of 820000x3x0 has a note
    assert!(s.mature_inactive_channels(&all).is_empty());
    s.now = NOW + 100 * DAY;
    let quiet: Vec<String> =
        s.mature_inactive_channels(&all).iter().map(|f| f.short_channel_id()).collect();
    // 14 sat in 694 days against 5 sat in 625 days
    assert_eq!(quiet, vec!["800000x1x0", "810000x2x1"]);
    s.info.blockheight = 800_000 + 364 * 144 + 143;
    assert!(s.mature_inactive_channels(&all).is_empty());
    s.info.blockheight = 800_000 + 365 * 144;
    let old: Vec<String> =
        s.mature_inactive_channels(&all).iter().map(|f| f.short_channel_id()).collect();
    assert_eq!(old, vec!["800000x1x0"]);
}

#[test]
fn nodes_are_listed_by_name() {
    let s = node_store();
    let listed: Vec<(String, Option<String>)> =
        s.listed_nodes(3).into_iter().map(|n| (n.nodeid, n.alias)).collect();
    assert_eq!(listed, vec![("02p2".to_string(), Some("Acme".to_string()))]);
    let names: Vec<String> =
        s.listed_nodes(2).iter().map(|n| s.get_node_alias(&n.nodeid)).collect();
    assert_eq!(names, vec!["Acme", "Zed", "Zed"]);
    let fees: Vec<u64> = s.node_channels(ME).iter().map(|c| c.fee_per_millionth).collect();
    assert_eq!(fees, vec![150, 200, 1_000]);
    let fees: Vec<u64> = s.node_channels("02p2").iter().map(|c| c.fee_per_millionth).collect();
    assert_eq!(fees, vec![5, 7]);
    assert!(s.node_channels("nobody").is_empty());
}

#[test]
fn fee_distribution_by_band() {
    let s = node_store();
    let ranges = generate_ppm_ranges();
    let labels: Vec<&str> = ranges.iter().map(|r| r.label.as_str()).collect();
    assert_eq!(
        labels,
        vec![
            "0-1 ppm", "2-3 ppm", "4-5 ppm", "6-7 ppm", "8-10 ppm", "11-30 ppm", "31-50 ppm",
            "51-70 ppm", "71-100 ppm", "101-300 ppm", "301-500 ppm", "501-700 ppm",
            "701-1000 ppm", "1001-3000 ppm", "3001-5000 ppm",
        ]
    );
    let dist = s.get_peer_fee_distribution("02p2");
    assert_eq!(dist.labels, labels);
    // edges that end at the peer: ours at 150 ppm
    assert_eq!(dist.outgoing_amounts, vec![0, 0, 0, 0, 0, 0, 0, 0, 0, 2_000, 0, 0, 0, 0, 0]);
    // edges that start at the peer: at 5 and at 7 ppm
    assert_eq!(dist.incoming_amounts, vec![0, 0, 2_000, 2_000, 0, 0, 0, 0, 0, 0, 0, 0, 0, 0, 0]);
    assert_eq!(largest_amount(&dist.outgoing_amounts, &dist.incoming_amounts), 2_000);
    let fee = s.node_fee(ME);
    assert_eq!((fee.count, fee.fee_sum), (3, 1_350));
    assert_eq!(fee.fee_rates.len(), 3);
    assert_eq!(fee.avg_fee(), Some(Ratio { num: 1_350, den: 3 }));
    assert_eq!(fee.fee_diversity(), Ratio { num: 3, den: 3 });
    let per_node = s.chan_meta_per_node();
    let nodes: Vec<&str> = per_node.iter().map(|n| n.node.as_str()).collect();
    assert_eq!(nodes, vec![ME, "02p1", "02p2"]);
    assert_eq!(per_node[2].fee.count, 2);
    assert_eq!(per_node[2].fee.fee_sum, 12);
}

#[test]
fn figures_of_the_bar_charts() {
    assert_eq!(largest_amount(&vec![], &vec![]), 1);
    assert_eq!(largest_amount(&vec![0], &vec![]), 0);
    assert_eq!(largest_amount(&vec![3, 9], &vec![4]), 9);
    assert_eq!(largest_amount(&vec![3], &vec![4, 11, 2]), 11);
    assert_eq!(largest_amount(&vec![], &vec![u64::MAX, 0]), u64::MAX);
    assert_eq!(bar_height(0, 10), 0);
    assert_eq!(bar_height(10, 10), 120);
    assert_eq!(bar_height(1, 3), 40);
    assert_eq!(bar_height(2, 7), 34);
    assert_eq!(bar_height(0, 0), 0);
    assert_eq!(bar_height(u64::MAX, u64::MAX), 120);
    assert_eq!(axis_mark(1_000, 0), 0);
    assert_eq!(axis_mark(1_000, 1), 250);
    assert_eq!(axis_mark(1_001, 3), 750);
    assert_eq!(axis_mark(u64::MAX, 4), u64::MAX);
    assert_eq!(amount_label(0), "0");
    assert_eq!(amount_label(999), "999");
    assert_eq!(amount_label(1_000), "1K");
    assert_eq!(amount_label(999_999), "999K");
    assert_eq!(amount_label(1_000_000), "1M");
    assert_eq!(amount_label(12_345_678), "12M");
    assert_eq!(largest_count(&vec![]), 0);
    assert_eq!(largest_count(&vec![0, 0]), 0);
    assert_eq!(largest_count(&vec![3, 7, 5]), 7);
    assert_eq!(bar_share(3, 7), Ratio { num: 3, den: 7 });
    assert_eq!(bar_share(0, 0), Ratio { num: 0, den: 1 });
}

#[test]
fn causes_of_closing_by_frequency() {
    let counts = close_causes(&vec![
        closed("local"),
        closed("remote"),
        closed("onchain"),
        closed("remote"),
        closed("onchain"),
        closed("remote"),
        closed("unknown"),
    ]);
    let shown: Vec<(&str, usize)> = counts.iter().map(|c| (c.cause.as_str(), c.count)).collect();
    assert_eq!(shown, vec![("remote", 3), ("onchain", 2), ("local", 1), ("unknown", 1)]);
    assert!(close_causes(&vec![]).is_empty());
}

#[test]
fn failures_by_the_channel_they_went_out_on() {
    let temp = "WIRE_TEMPORARY_CHANNEL_FAILURE";
    let forwards = vec![
        failed("b", "failed", "x", NOW - 10),
        failed("a", "failed", "x", NOW - 2 * DAY),
        failed("b", "failed", "x", NOW - 8 * DAY),
        failed("b", "local_failed", temp, NOW - 10),
        failed("c", "failed", "x", NOW - 31 * DAY),
        failed("a", "failed", "x", NOW - 29 * DAY),
        Forward { out_channel: None, ..failed("d", "failed", "x", NOW - 10) },
        failed("e", "local_failed", "WIRE_UNKNOWN_NEXT_PEER", NOW - 10),
        settled("in", "b", 1_000, NOW - 10),
    ];
    let by_channel = failures_by_out_channel(&forwards, NOW, ForwardStatus::Failed);
    let shown: Vec<(&str, FailureCounts)> =
        by_channel.iter().map(|c| (c.channel_id.as_str(), c.counts)).collect();
    assert_eq!(
        shown,
        vec![
            ("b", FailureCounts { day: 1, week: 1, month: 2 }),
            ("a", FailureCounts { day: 0, week: 1, month: 2 }),
        ]
    );
    let mut s = node_store();
    s.forwards.forwards = forwards;
    let remote = s.failed_forwards_by_out_channel();
    assert_eq!(remote.len(), 2);
    let local = s.local_failed_temp_channel_failure_by_out_channel();
    let shown: Vec<(&str, FailureCounts)> =
        local.iter().map(|c| (c.channel_id.as_str(), c.counts)).collect();
    assert_eq!(shown, vec![("b", FailureCounts { day: 1, week: 1, month: 1 })]);
}
