use lightdash::cmd::{
    fee_ppm, Channel, ClosedChannel, Forward, Fund, GetInfo, ListChannels, ListClosedChannels,
    ListForwards, ListFunds, ListNodes, ListPeers, Node, Output, Peer, SettledForward, Side,
};
use lightdash::datastore::{DatastoreResponse, ListDatastore};
use lightdash::ratio::Ratio;
use lightdash::store::{apy_percent, Months, Selection, Store};
use lightdash::time::Window;

const NOW: i64 = 1_700_000_000;
const DAY: i64 = 86_400;
const ME: &str = "02aaaaaaaaaaaaaaaaaaaaaaaaaaaaaaaaaaaaaaaaaaaaaaaaaaaaaaaaaaaaaaaa";

fn fund(scid: Option<&str>, peer: &str, state: &str, our: u64, total: u64) -> Fund {
    Fund {
        peer_id: peer.to_string(),
        connected: true,
        state: state.to_string(),
        channel_id: format!("id-{}", scid.unwrap_or("none")),
        short_channel_id: scid.map(|s| s.to_string()),
        our_amount_msat: our,
        amount_msat: total,
        funding_txid: "tx".to_string(),
        funding_output: 0,
    }
}

fn edge(scid: &str, source: &str, destination: &str, base: u64, ppm: u64) -> Channel {
    Channel {
        source: source.to_string(),
        destination: destination.to_string(),
        short_channel_id: scid.to_string(),
        amount_msat: 1_000_000_000,
        active: true,
        last_update: 0,
        base_fee_millisatoshi: base,
        fee_per_millionth: ppm,
        delay: 34,
        htlc_minimum_msat: 0,
        htlc_maximum_msat: 0,
        features: String::new(),
    }
}

fn settled(in_channel: &str, out_channel: &str, fee_msat: u64, resolved: i64) -> Forward {
    Forward {
        in_channel: in_channel.to_string(),
        out_channel: Some(out_channel.to_string()),
        fee_msat: Some(fee_msat),
        in_msat: 1_000_000 + fee_msat,
        out_msat: Some(1_000_000),
        status: "settled".to_string(),
        received_time: resolved - 1,
        resolved_time: Some(resolved),
        failreason: None,
        failcode: None,
    }
}

fn failed(in_channel: &str, out_channel: &str, status: &str, received: i64) -> Forward {
    Forward {
        in_channel: in_channel.to_string(),
        out_channel: Some(out_channel.to_string()),
        fee_msat: None,
        in_msat: 1_000_000,
        out_msat: None,
        status: status.to_string(),
        received_time: received,
        resolved_time: None,
        failreason: Some("WIRE_TEMPORARY_CHANNEL_FAILURE".to_string()),
        failcode: Some(4103),
    }
}

fn node(id: &str, alias: Option<&str>) -> Node {
    Node { nodeid: id.to_string(), alias: alias.map(|a| a.to_string()), last_timestamp: None }
}

fn entry(key: &[&str], string: Option<&str>) -> DatastoreResponse {
    DatastoreResponse {
        key: key.iter().map(|k| k.to_string()).collect(),
        generation: Some(0),
        hex: None,
        string: string.map(|s| s.to_string()),
    }
}

fn store(
    blockheight: u64,
    channels: Vec<Channel>,
    funds: Vec<Fund>,
    forwards: Vec<Forward>,
    nodes: Vec<Node>,
) -> Store {
    Store::new(
        GetInfo { id: ME.to_string(), blockheight },
        ListChannels { channels },
        ListPeers { peers: vec![] },
        ListFunds { channels: funds, outputs: vec![] },
        ListForwards { forwards },
        ListNodes { nodes },
        ListClosedChannels { closedchannels: vec![] },
        &ListDatastore { datastore: vec![] },
        &ListDatastore { datastore: vec![] },
        NOW,
    )
}

fn busy_store() -> Store {
    store(
        900_000,
        vec![],
        vec![
            fund(Some("800000x1x0"), "02p1", "CHANNELD_NORMAL", 400_000_000, 1_000_000_000),
            fund(Some("810000x2x1"), "02p2", "CHANNELD_NORMAL", 600_000_000, 1_000_000_000),
            fund(Some("820000x3x0"), "02p3", "CHANNELD_AWAITING_LOCKIN", 1, 2),
        ],
        vec![
            settled("800000x1x0", "810000x2x1", 5_000, NOW - 2 * DAY),
            failed("800000x1x0", "810000x2x1", "failed", NOW - 3600),
            settled("810000x2x1", "800000x1x0", 7_000, NOW - 10),
            settled("800000x1x0", "810000x2x1", 11_000, NOW - 40 * DAY),
            failed("810000x2x1", "800000x1x0", "local_failed", NOW - 2 * DAY),
            settled("800000x1x0", "810000x2x1", 13_999, NOW - 400 * DAY),
        ],
        vec![],
    )
}

#[test]
fn balance_ratio_lies_between_zero_and_one() {
    for (our, total) in [(0u64, 1u64), (1, 1), (5, 10), (11, 10), (u64::MAX, 1), (0, 0), (7, 0)] {
        let r = fund(None, "p", "CHANNELD_NORMAL", our, total).balance_ratio();
        assert!(r.den > 0);
        assert!(r.num <= r.den, "{our}/{total} gave {}/{}", r.num, r.den);
    }
    let half = fund(None, "p", "CHANNELD_NORMAL", 5, 10).balance_ratio();
    assert_eq!((half.num, half.den), (5, 10));
    let over = fund(None, "p", "CHANNELD_NORMAL", 11, 10).balance_ratio();
    assert_eq!((over.num, over.den), (10, 10));
}

#[test]
fn perc_is_the_balance_in_whole_percent() {
    assert_eq!(fund(None, "p", "s", 1, 3).perc(), 33);
    assert_eq!(fund(None, "p", "s", 2, 3).perc(), 66);
    assert_eq!(fund(None, "p", "s", 3, 3).perc(), 100);
    assert_eq!(fund(None, "p", "s", 4, 3).perc(), 100);
    assert_eq!(fund(None, "p", "s", 0, 3).perc(), 0);
}

#[test]
fn block_born_is_the_first_part_of_the_short_channel_id() {
    assert_eq!(fund(Some("123456x789x0"), "p", "s", 0, 1).block_born(), Some(123_456));
    assert_eq!(fund(Some("x789x0"), "p", "s", 0, 1).block_born(), None);
    assert_eq!(fund(Some("12a456x789x0"), "p", "s", 0, 1).block_born(), None);
    assert_eq!(fund(Some("123456"), "p", "s", 0, 1).block_born(), Some(123_456));
    assert_eq!(fund(None, "p", "s", 0, 1).block_born(), None);
    assert_eq!(fund(None, "p", "s", 0, 1).short_channel_id(), "");
    assert_eq!(fund(Some("1x2x3"), "p", "s", 0, 1).short_channel_id(), "1x2x3");
}

#[test]
fn fee_ppm_of_a_forward_without_outgoing_amount_is_zero() {
    assert_eq!(fee_ppm(1_000, 0), 0);
    assert_eq!(fee_ppm(0, 0), 0);
    assert_eq!(fee_ppm(1_000, 1_000_000), 1_000);
    assert_eq!(fee_ppm(1, 3), 333_333);
    assert_eq!(fee_ppm(u64::MAX, 1), u64::MAX);
    let f = Forward { out_msat: Some(0), ..settled("a", "b", 5_000, 10) };
    let s = SettledForward::try_from(&f).expect("a settled forward");
    assert_eq!(s.fee_ppm, 0);
}

#[test]
fn settled_view_needs_every_optional_field() {
    let whole = settled("a", "b", 5_999, 100);
    let s = SettledForward::try_from(&whole).expect("a settled forward");
    assert_eq!(s.in_channel, "a");
    assert_eq!(s.out_channel, "b");
    assert_eq!(s.fee_sat, 5);
    assert_eq!(s.out_sat, 1_000);
    assert_eq!(s.fee_ppm, 5_999);
    assert_eq!(s.resolved_time, 100);
    assert_eq!(s.received_time, 99);
    assert!(SettledForward::try_from(&Forward { fee_msat: None, ..whole.clone() }).is_err());
    assert!(SettledForward::try_from(&Forward { out_msat: None, ..whole.clone() }).is_err());
    assert!(SettledForward::try_from(&Forward { out_channel: None, ..whole.clone() }).is_err());
    assert!(SettledForward::try_from(&Forward { resolved_time: None, ..whole.clone() }).is_err());
}

#[test]
fn only_forwards_that_settled_count_as_settled() {
    let whole = settled("a", "b", 5_999, 100);
    let s = store(
        0,
        vec![],
        vec![],
        vec![
            Forward { status: "failed".into(), ..whole.clone() },
            Forward { fee_msat: None, ..whole.clone() },
            whole.clone(),
            Forward { status: "offered".into(), ..whole },
        ],
        vec![],
    );
    assert_eq!(s.settled_forwards().len(), 1);
    assert_eq!(s.forwards_len(), 4);
}

#[test]
fn a_time_outside_the_calendar_drops_the_forward() {
    let far = Forward { resolved_time: Some(i64::MAX), ..settled("a", "b", 1, 100) };
    assert!(SettledForward::try_from(&far).is_err());
    let early = Forward { received_time: i64::MIN, ..settled("a", "b", 1, 100) };
    assert!(SettledForward::try_from(&early).is_err());
    let s = store(0, vec![], vec![], vec![far, settled("a", "b", 1, 100)], vec![]);
    assert_eq!(s.settled_forwards().len(), 1);
}

#[test]
fn normal_channels_are_those_in_the_normal_state() {
    let s = busy_store();
    let normal = s.normal_channels();
    assert_eq!(normal.len(), 2);
    assert_eq!(normal[0].short_channel_id.as_deref(), Some("800000x1x0"));
    assert_eq!(normal[1].short_channel_id.as_deref(), Some("810000x2x1"));
}

#[test]
fn settled_forwards_come_latest_first() {
    let s = busy_store();
    let all = s.settled_forwards();
    let times: Vec<i64> = all.iter().map(|f| f.resolved_time).collect();
    assert_eq!(times, vec![NOW - 10, NOW - 2 * DAY, NOW - 40 * DAY, NOW - 400 * DAY]);
    assert_eq!(s.forwards_len(), 6);
}

#[test]
fn forwards_resolved_at_the_same_time_keep_their_order() {
    let s = store(
        0,
        vec![],
        vec![],
        vec![settled("a", "x", 1_000, 50), settled("b", "x", 2_000, 50), settled("c", "x", 3_000, 60)],
        vec![],
    );
    let ins: Vec<String> = s.settled_forwards().into_iter().map(|f| f.in_channel).collect();
    assert_eq!(ins, vec!["c", "a", "b"]);
}

#[test]
fn windows_count_whole_days_and_hours() {
    let s = busy_store();
    assert_eq!(s.filter_settled_forwards_by_hours(1).len(), 1);
    assert_eq!(s.filter_settled_forwards_by_hours(48).len(), 2);
    assert_eq!(s.filter_settled_forwards_by_days(1).len(), 1);
    assert_eq!(s.filter_settled_forwards_by_days(2).len(), 2);
    assert_eq!(s.filter_settled_forwards_by_days(40).len(), 3);
    assert_eq!(s.filter_settled_forwards_by_days(365).len(), 3);
    assert_eq!(s.filter_settled_forwards_by_days(400).len(), 4);
    assert_eq!(s.filter_forwards_by_hours(24).len(), 2);
}

#[test]
fn a_day_that_has_begun_still_counts() {
    // 2 days and 23 hours ago is within 2 whole days
    let s = store(0, vec![], vec![], vec![settled("a", "b", 1, NOW - 3 * DAY + 3600)], vec![]);
    assert_eq!(s.filter_settled_forwards_by_days(2).len(), 1);
    assert_eq!(s.filter_settled_forwards_by_days(1).len(), 0);
}

#[test]
fn forwards_on_a_channel_are_those_in_and_those_out() {
    let s = busy_store();
    for scid in ["800000x1x0", "810000x2x1", "820000x3x0", ""] {
        for window in [Window::Ever, Window::Days(30), Window::Hours(1), Window::Seconds(0)] {
            let either = s.settled_count(&Selection::on(NOW, scid, Side::Either, window));
            let came = s.settled_count(&Selection::on(NOW, scid, Side::Incoming, window));
            let went = s.settled_count(&Selection::on(NOW, scid, Side::Outgoing, window));
            assert_eq!(either, came + went);
        }
    }
    assert_eq!(s.get_channel_forwards("800000x1x0").len(), 4);
    assert_eq!(s.get_channel_total_forwards("800000x1x0"), 4);
    assert_eq!(s.settled_count(&Selection::on(NOW, "800000x1x0", Side::Incoming, Window::Ever)), 3);
    assert_eq!(s.settled_count(&Selection::on(NOW, "800000x1x0", Side::Outgoing, Window::Ever)), 1);
}

#[test]
fn a_forward_that_loops_on_a_channel_counts_once() {
    let s = store(0, vec![], vec![], vec![settled("a", "a", 1_000, NOW)], vec![]);
    assert_eq!(s.get_channel_total_forwards("a"), 1);
    assert_eq!(s.settled_count(&Selection::on(NOW, "a", Side::Incoming, Window::Ever)), 1);
    assert_eq!(s.settled_count(&Selection::on(NOW, "a", Side::Outgoing, Window::Ever)), 1);
}

#[test]
fn fees_of_all_forwards_are_the_fees_of_the_channels() {
    let s = busy_store();
    let all: u64 = s.settled_forwards().iter().map(|f| f.fee_sat).sum();
    assert_eq!(all, 5 + 7 + 11 + 13);
    let by_channel: u64 = ["800000x1x0", "810000x2x1", "820000x3x0"]
        .iter()
        .map(|scid| s.get_channel_total_fees(scid))
        .sum();
    assert_eq!(by_channel, all);
    assert_eq!(s.get_channel_total_fees("800000x1x0"), 7);
    assert_eq!(s.get_channel_total_fees("810000x2x1"), 29);
    assert_eq!(s.get_channel_total_fees("820000x3x0"), 0);
}

#[test]
fn failed_forwards_of_a_channel_by_kind() {
    let s = busy_store();
    assert_eq!(s.get_channel_failed_forwards("800000x1x0").len(), 1);
    assert_eq!(s.get_channel_local_failed_forwards("800000x1x0").len(), 1);
    assert_eq!(s.get_channel_failed_forwards("820000x3x0").len(), 0);
}

#[test]
fn forward_statistics_by_window() {
    let s = busy_store();
    let stats = s.get_forward_statistics();
    assert_eq!((stats.day.settled, stats.day.failed, stats.day.local_failed, stats.day.all), (1, 1, 0, 2));
    assert_eq!((stats.week.settled, stats.week.failed, stats.week.local_failed, stats.week.all), (2, 1, 1, 4));
    assert_eq!((stats.month.settled, stats.month.all), (2, 4));
    assert_eq!((stats.day.days, stats.week.days, stats.month.days), (1, 7, 30));
    assert_eq!(stats.day.success_ratio(), Ratio { num: 100, den: 2 });
    assert_eq!(stats.week.per_day(2), Ratio { num: 2, den: 7 });
    let empty = store(0, vec![], vec![], vec![], vec![]).get_forward_statistics();
    assert_eq!(empty.day.success_ratio(), Ratio { num: 0, den: 1 });
    assert_eq!(empty.day.all, 0);
}

#[test]
fn weekday_counts_have_seven_buckets_that_sum_to_the_settled_forwards() {
    let s = busy_store();
    let counts = s.forwards_by_weekday();
    assert_eq!(counts.len(), 7);
    assert_eq!(counts.iter().sum::<usize>(), s.settled_forwards().len());
}

#[test]
fn weekday_buckets_start_on_sunday() {
    // 1970-01-01 was a Thursday, 1970-01-04 a Sunday
    let s = store(
        0,
        vec![],
        vec![],
        vec![
            settled("a", "b", 1, 0),
            settled("a", "b", 1, 3 * DAY),
            settled("a", "b", 1, 3 * DAY + 5),
            settled("a", "b", 1, 4 * DAY - 1),
            settled("a", "b", 1, 4 * DAY),
            settled("a", "b", 1, 9 * DAY),
            settled("a", "b", 1, -1),
        ],
        vec![],
    );
    assert_eq!(s.forwards_by_weekday(), vec![3, 1, 0, 1, 1, 0, 1]);
}

#[test]
fn yield_over_empty_forwards_is_zero() {
    let s = store(
        900_000,
        vec![],
        vec![fund(Some("800000x1x0"), "02p1", "CHANNELD_NORMAL", 10_000_000_000, 20_000_000_000)],
        vec![],
        vec![],
    );
    let apy = s.get_apy_data();
    assert_eq!(apy.total_funds, 10_000_000);
    assert_eq!(
        (apy.fees_1_month, apy.fees_3_months, apy.fees_6_months, apy.fees_12_months),
        (0, 0, 0, 0)
    );
    for r in [apy.apy_1_month, apy.apy_3_months, apy.apy_6_months, apy.apy_12_months] {
        assert_eq!(r.num, 0);
        assert!(r.den > 0);
    }
    assert_eq!(apy.transacted_last_month, 0);
}

#[test]
fn yield_without_funds_is_zero() {
    let s = store(0, vec![], vec![], vec![settled("a", "b", 5_000_000, NOW - 10)], vec![]);
    let apy = s.get_apy_data();
    assert_eq!(apy.total_funds, 0);
    assert_eq!(apy.fees_1_month, 5_000);
    assert_eq!(apy.apy_1_month, Ratio { num: 0, den: 1 });
    assert_eq!(apy.apy_12_months, Ratio { num: 0, den: 1 });
    let one = Months::new(1).expect("one month");
    assert_eq!(s.calculate_apy_percent(one), Ratio { num: 0, den: 1 });
}

#[test]
fn zero_months_are_no_months() {
    assert!(Months::new(0).is_none());
    assert_eq!(Months::new(3).map(|m| m.get()), Some(3));
    assert_eq!(Months::at_least_one(0).get(), 1);
    assert_eq!(Months::at_least_one(12).get(), 12);
}

#[test]
fn yield_is_fees_times_twelve_hundred_over_months_and_funds() {
    let three = Months::new(3).expect("three months");
    // 300 sat in 3 months on 1_000_000 sat: 0.12 percent a year
    let r = apy_percent(300, 1_000_000, three);
    assert_eq!(r, Ratio { num: 360_000, den: 3_000_000 });
    let s = busy_store();
    let apy = s.get_apy_data();
    assert_eq!(apy.total_funds, 1_000_000);
    assert_eq!(apy.fees_1_month, 12);
    assert_eq!(apy.fees_3_months, 23);
    assert_eq!(apy.fees_12_months, 23);
    assert_eq!(apy.apy_1_month, Ratio { num: 12 * 1200, den: 1_000_000 });
    assert_eq!(apy.apy_3_months, Ratio { num: 23 * 1200, den: 3_000_000 });
    assert_eq!(apy.transacted_last_month, 2_000);
    assert_eq!(s.fees_earned_last_months(Months::at_least_one(14)), 36);
}

#[test]
fn funds_count_the_normal_channels_in_whole_sat() {
    let s = store(
        0,
        vec![],
        vec![
            fund(Some("1x1x1"), "p", "CHANNELD_NORMAL", 1_999, 5_000),
            fund(Some("2x1x1"), "p", "CHANNELD_NORMAL", 2_001, 5_000),
            fund(Some("3x1x1"), "p", "ONCHAIN", 9_000_000, 9_000_000),
        ],
        vec![],
        vec![],
    );
    assert_eq!(s.total_channel_funds_sats(), 3);
}

#[test]
fn onchain_balance_sums_the_outputs() {
    let mut s = store(0, vec![], vec![], vec![], vec![]);
    s.funds.outputs = vec![
        Output { amount_msat: 1_500, scriptpubkey: "a".into() },
        Output { amount_msat: 2_500, scriptpubkey: "b".into() },
    ];
    assert_eq!(s.onchain_balance_msat(), 4_000);
    s.funds.outputs.push(Output { amount_msat: u64::MAX, scriptpubkey: "c".into() });
    assert_eq!(s.onchain_balance_msat(), u64::MAX);
}

#[test]
fn channel_age_counts_144_blocks_a_day() {
    let s = busy_store();
    assert_eq!(s.get_channel_age_days("800000x1x0"), Some(694));
    assert_eq!(s.get_channel_age_days("810000x2x1"), Some(625));
    // not in the normal state
    assert_eq!(s.get_channel_age_days("820000x3x0"), None);
    assert_eq!(s.get_channel_age_days("999999x1x1"), None);
    assert_eq!(
        s.get_channel_sats_per_day("810000x2x1"),
        Some(Ratio { num: 29, den: 625 })
    );
    assert_eq!(s.get_channel_sats_per_day("999999x1x1"), None);
}

#[test]
fn a_channel_younger_than_a_day_earns_nothing_per_day() {
    let s = store(
        800_100,
        vec![],
        vec![
            fund(Some("800000x1x0"), "p", "CHANNELD_NORMAL", 1, 2),
            fund(Some("900000x1x0"), "p", "CHANNELD_NORMAL", 1, 2),
        ],
        vec![settled("a", "800000x1x0", 9_000, NOW)],
        vec![],
    );
    assert_eq!(s.get_channel_age_days("800000x1x0"), Some(0));
    assert_eq!(s.get_channel_age_days("900000x1x0"), Some(0));
    assert_eq!(s.get_channel_sats_per_day("800000x1x0").map(|r| r.num), Some(0));
}

#[test]
fn aliases_and_shortened_ids() {
    let long = "03bbbbbbbbccccccccccccccccccccccccccccccccccccccccccccccccdddddddd";
    assert_eq!(long.len(), 66);
    let s = store(
        0,
        vec![],
        vec![],
        vec![],
        vec![node("02p1", Some("Acme")), node("02p2", None), node("02p1", Some("Acme2"))],
    );
    assert_eq!(s.get_node_alias("02p1"), "Acme2");
    assert_eq!(s.get_node_alias("02p2"), "02p2");
    assert_eq!(s.get_node_alias(long), "03bbbbbb...dddddddd");
    assert_eq!(s.get_node_alias(""), "");
    assert_eq!(s.node_ids_with_aliases(), vec!["02p1"]);
    assert_eq!(s.nodes_len(), 3);
}

#[test]
fn edges_are_found_by_channel_and_source() {
    let s = store(
        0,
        vec![
            edge("1x1x1", ME, "02p1", 0, 100),
            edge("1x1x1", "02p1", ME, 1000, 200),
            edge("2x2x2", ME, "02p2", 0, 300),
        ],
        vec![],
        vec![],
        vec![node(ME, Some("me")), node("02p1", None), node("02zz", None)],
    );
    assert_eq!(s.get_channel("1x1x1", ME).map(|c| c.fee_per_millionth), Some(100));
    assert_eq!(s.get_channel("1x1x1", "02p1").map(|c| c.fee_per_millionth), Some(200));
    assert!(s.get_channel("1x1x1", "02p2").is_none());
    assert!(s.get_channel("3x3x3", ME).is_none());
    assert_eq!(s.channels_len(), 3);
    assert_eq!(s.node_total_channels(ME), 3);
    assert_eq!(s.node_total_channels("02p2"), 1);
    assert_eq!(s.node_total_channels("02zz"), 0);
    assert_eq!(s.nodes_with_channels_len(), 2);
}

#[test]
fn peers_with_channels_are_listed_once() {
    let mut s = store(0, vec![], vec![], vec![], vec![]);
    let peer = |id: &str, n: u64| Peer {
        id: id.to_string(),
        connected: true,
        num_channels: n,
        features: String::new(),
        channels: vec![],
    };
    s.peers.peers = vec![peer("a", 1), peer("b", 0), peer("c", 2), peer("a", 3)];
    assert_eq!(s.peers_ids(), vec!["a", "c"]);
    assert_eq!(s.peers_len(), 4);
}

#[test]
fn notes_and_fee_times_come_from_the_datastore() {
    let notes = ListDatastore {
        datastore: vec![
            entry(&["lightdash", "peer_note", "02p1"], Some("keep")),
            entry(&["lightdash", "peer_note", "02p2"], None),
            entry(&["other", "peer_note", "02p3"], Some("x")),
            entry(&["lightdash", "peer_note"], Some("x")),
            entry(&["lightdash", "peer_note", "02p1"], Some("keep open")),
        ],
    };
    let times = ListDatastore {
        datastore: vec![
            entry(&["lightdash", "last_setchannel", "1x1x1"], Some("1700000000")),
            entry(&["lightdash", "last_setchannel", "2x2x2"], Some("soon")),
            entry(&["lightdash", "last_setchannel", "3x3x3"], Some("-5")),
            entry(&["lightdash", "last_setchannel", "4x4x4"], Some("")),
            entry(&["lightdash", "last_run"], Some("1700000000")),
        ],
    };
    let s = Store::new(
        GetInfo { id: ME.to_string(), blockheight: 1 },
        ListChannels { channels: vec![] },
        ListPeers { peers: vec![] },
        ListFunds { channels: vec![], outputs: vec![] },
        ListForwards { forwards: vec![] },
        ListNodes { nodes: vec![] },
        ListClosedChannels { closedchannels: Vec::<ClosedChannel>::new() },
        &notes,
        &times,
        NOW,
    );
    assert_eq!(s.now, NOW);
    assert_eq!(s.get_peer_note("02p1").map(|n| n.as_str()), Some("keep open"));
    assert_eq!(s.get_peer_note("02p2"), None);
    assert_eq!(s.get_peer_note("02p3"), None);
    assert_eq!(s.get_setchannel_timestamp("1x1x1"), Some(1_700_000_000));
    assert_eq!(s.get_setchannel_timestamp("2x2x2"), None);
    assert_eq!(s.get_setchannel_timestamp("3x3x3"), Some(-5));
    assert_eq!(s.get_setchannel_timestamp("4x4x4"), None);
    assert_eq!(s.closed_channels_len(), 0);
}

#[test]
fn network_fee_statistics_leave_out_base_fees_and_outliers() {
    let s = store(
        0,
        vec![
            edge("1x1x1", ME, "a", 0, 10),
            edge("2x1x1", "a", ME, 0, 30),
            edge("3x1x1", "b", ME, 1, 1_000),
            edge("4x1x1", "b", ME, 0, 10_001),
            edge("5x1x1", ME, "c", 0, 300),
            edge("6x1x1", "c", ME, 0, 10_000),
        ],
        vec![],
        vec![],
        vec![],
    );
    let net = s.network_channel_fees();
    assert_eq!(net.count, 4);
    assert_eq!(net.mean, Ratio { num: 10_340, den: 4 });
    assert_eq!(net.median, Ratio { num: 330, den: 2 });
    let own = s.node_channel_fees();
    assert_eq!(own.count, 2);
    assert_eq!(own.mean, Ratio { num: 310, den: 2 });
    assert_eq!(own.median, Ratio { num: 310, den: 2 });
    let three = store(
        0,
        vec![edge("1x1x1", ME, "a", 0, 50), edge("2x1x1", ME, "a", 0, 7), edge("3x1x1", ME, "a", 0, 9)],
        vec![],
        vec![],
        vec![],
    )
    .network_channel_fees();
    assert_eq!(three.median, Ratio { num: 9, den: 1 });
    let none = store(0, vec![], vec![], vec![], vec![]).network_channel_fees();
    assert_eq!((none.count, none.mean.num, none.median.num), (0, 0, 0));
}
