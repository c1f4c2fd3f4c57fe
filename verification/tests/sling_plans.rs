use lightdash::cmd::{
    Channel, Forward, Fund, GetInfo, ListChannels, ListClosedChannels, ListForwards, ListFunds,
    ListNodes, ListPeers,
};
use lightdash::common::{
    calc_slingjobs, candidates_to_json, classify, cut_days, format_duration, is_sink, percent,
    ChannelMeta, Direction, Rebalance,
};
use lightdash::datastore::ListDatastore;
use lightdash::ratio::Ratio;
use lightdash::sling::{compute_candidates, max_ppm, run_sling, AMOUNT, SOURCE_PPM_MAX};
use lightdash::store::Store;

const NOW: i64 = 1_700_000_000;
const ME: &str = "02me";

fn fund(scid: &str, our: u64, total: u64) -> Fund {
    Fund {
        peer_id: format!("peer-{scid}"),
        connected: true,
        state: "CHANNELD_NORMAL".to_string(),
        channel_id: format!("id-{scid}"),
        short_channel_id: Some(scid.to_string()),
        our_amount_msat: our,
        amount_msat: total,
        funding_txid: "tx".to_string(),
        funding_output: 0,
    }
}

fn our_edge(scid: &str, ppm: u64) -> Channel {
    Channel {
        source: ME.to_string(),
        destination: format!("peer-{scid}"),
        short_channel_id: scid.to_string(),
        amount_msat: 1_000_000_000,
        active: true,
        last_update: 0,
        base_fee_millisatoshi: 0,
        fee_per_millionth: ppm,
        delay: 34,
        htlc_minimum_msat: 0,
        htlc_maximum_msat: 0,
        features: String::new(),
    }
}

fn settled(in_channel: &str, out_channel: &str) -> Forward {
    Forward {
        in_channel: in_channel.to_string(),
        out_channel: Some(out_channel.to_string()),
        fee_msat: Some(1_000),
        in_msat: 1_001_000,
        out_msat: Some(1_000_000),
        status: "settled".to_string(),
        received_time: NOW - 100,
        resolved_time: Some(NOW - 99),
        failreason: None,
        failcode: None,
    }
}

fn store(channels: Vec<Channel>, funds: Vec<Fund>, forwards: Vec<Forward>) -> Store {
    Store::new(
        GetInfo { id: ME.to_string(), blockheight: 900_000 },
        ListChannels { channels },
        ListPeers { peers: vec![] },
        ListFunds { channels: funds, outputs: vec![] },
        ListForwards { forwards },
        ListNodes { nodes: vec![] },
        ListClosedChannels { closedchannels: vec![] },
        &ListDatastore { datastore: vec![] },
        &ListDatastore { datastore: vec![] },
        NOW,
    )
}

fn mixed_inventory() -> Store {
    store(
        vec![our_edge("700000x1x0", 1000), our_edge("710000x1x0", 150), our_edge("720000x1x0", 200)],
        vec![
            fund("700000x1x0", 50, 1000),
            fund("710000x1x0", 900, 1000),
            fund("720000x1x0", 500, 1000),
        ],
        vec![
            settled("700000x1x0", "710000x1x0"),
            settled("700000x1x0", "720000x1x0"),
            settled("710000x1x0", "700000x1x0"),
            settled("720000x1x0", "700000x1x0"),
            settled("700000x1x0", "720000x1x0"),
            settled("710000x1x0", "720000x1x0"),
        ],
    )
}

#[test]
fn mixed_inventory_pulls_into_the_empty_channel_from_the_full_cheap_one() {
    let s = mixed_inventory();
    assert_eq!((SOURCE_PPM_MAX, AMOUNT), (300, 100_000));
    assert_eq!(compute_candidates(&s, &s.normal_channels()), vec!["710000x1x0"]);
    assert_eq!(s.get_channel_total_forwards("700000x1x0"), 5);
    let plan = run_sling(&s);
    assert_eq!(plan.len(), 1);
    assert_eq!(plan[0].scid, "700000x1x0");
    assert_eq!(plan[0].candidates, "[\"710000x1x0\"]");
    assert_eq!(plan[0].maxppm, 38);
    assert_eq!(plan[0].amount, 100_000);
    assert_eq!(
        plan[0].args(),
        vec![
            "sling-once",
            "-k",
            "scid=700000x1x0",
            "direction=pull",
            "candidates=[\"710000x1x0\"]",
            "maxppm=38",
            "amount=100000",
            "onceamount=100000",
        ]
    );
}

#[test]
fn planning_twice_gives_the_same_plan() {
    let s = mixed_inventory();
    let first: Vec<Vec<String>> = run_sling(&s).iter().map(|p| p.args()).collect();
    let second: Vec<Vec<String>> = run_sling(&s).iter().map(|p| p.args()).collect();
    assert_eq!(first, second);
}

#[test]
fn plans_come_in_the_order_of_their_channels() {
    let s = store(
        vec![
            our_edge("9x1x0", 500),
            our_edge("10x1x0", 400),
            our_edge("8x1x0", 100),
            our_edge("7x1x0", 600),
        ],
        vec![fund("9x1x0", 0, 10), fund("10x1x0", 0, 10), fund("8x1x0", 10, 10), fund("7x1x0", 0, 10)],
        vec![],
    );
    let scids: Vec<String> = run_sling(&s).into_iter().map(|p| p.scid).collect();
    assert_eq!(scids, vec!["10x1x0", "7x1x0", "9x1x0"]);
}

#[test]
fn without_candidates_nothing_is_planned() {
    let s = store(
        vec![our_edge("1x1x0", 1000), our_edge("2x1x0", 300)],
        vec![fund("1x1x0", 0, 1000), fund("2x1x0", 1000, 1000)],
        vec![],
    );
    assert!(compute_candidates(&s, &s.normal_channels()).is_empty());
    assert!(run_sling(&s).is_empty());
}

#[test]
fn candidates_are_cheap_and_more_than_seven_tenths_full() {
    let s = store(
        vec![our_edge("1x1x0", 299), our_edge("2x1x0", 299), our_edge("3x1x0", 300), our_edge("4x1x0", 0)],
        vec![
            fund("1x1x0", 700, 1000),
            fund("2x1x0", 701, 1000),
            fund("3x1x0", 1000, 1000),
            fund("4x1x0", 1000, 1000),
            fund("5x1x0", 1000, 1000),
        ],
        vec![],
    );
    assert_eq!(compute_candidates(&s, &s.normal_channels()), vec!["2x1x0", "4x1x0"]);
}

#[test]
fn targets_hold_less_than_a_tenth_and_have_our_edge() {
    let s = store(
        vec![our_edge("1x1x0", 1000), our_edge("2x1x0", 1000), our_edge("9x1x0", 0)],
        vec![
            fund("1x1x0", 99, 1000),
            fund("2x1x0", 100, 1000),
            fund("3x1x0", 0, 1000),
            fund("9x1x0", 1000, 1000),
        ],
        vec![],
    );
    let plan = run_sling(&s);
    assert_eq!(plan.len(), 1);
    assert_eq!(plan[0].scid, "1x1x0");
    // a channel without forwards: (1000 - 300) / (20 + 3)
    assert_eq!(plan[0].maxppm, 30);
}

#[test]
fn maxppm_is_never_negative() {
    assert_eq!(max_ppm(1000, 5), 38);
    assert_eq!(max_ppm(1000, 0), 30);
    assert_eq!(max_ppm(1000, 20), 233);
    assert_eq!(max_ppm(1000, 1_000_000), 233);
    assert_eq!(max_ppm(300, 5), 0);
    assert_eq!(max_ppm(299, 5), 0);
    assert_eq!(max_ppm(0, 0), 0);
    assert_eq!(max_ppm(u64::MAX, usize::MAX), (u64::MAX - 300) / 3);
}

#[test]
fn sink_ratio_without_forwards_is_one_half() {
    let r = is_sink(0, 0);
    assert_eq!(r.num * 2, r.den);
    assert_eq!(is_sink(1, 3), Ratio { num: 3, den: 4 });
    assert_eq!(is_sink(4, 0), Ratio { num: 0, den: 4 });
    assert_eq!(is_sink(0, 4), Ratio { num: 4, den: 4 });
    let big = is_sink(usize::MAX, usize::MAX);
    assert_eq!(big.num * 2, big.den);
}

#[test]
fn classification_by_balance_and_sink_ratio() {
    let half = Ratio { num: 1, den: 2 };
    let source = Ratio { num: 1, den: 3 };
    let sink = Ratio { num: 2, den: 3 };
    assert_eq!(classify(&fund("a", 29, 100), &half), Rebalance::PullIn);
    assert_eq!(classify(&fund("a", 29, 100), &sink), Rebalance::PullIn);
    assert_eq!(classify(&fund("a", 29, 100), &source), Rebalance::Nothing);
    assert_eq!(classify(&fund("a", 30, 100), &sink), Rebalance::Nothing);
    assert_eq!(classify(&fund("a", 71, 100), &half), Rebalance::PushOut);
    assert_eq!(classify(&fund("a", 71, 100), &source), Rebalance::PushOut);
    assert_eq!(classify(&fund("a", 71, 100), &sink), Rebalance::Nothing);
    assert_eq!(classify(&fund("a", 70, 100), &source), Rebalance::Nothing);
    assert_eq!(classify(&fund("a", 50, 100), &half), Rebalance::Nothing);
    let huge = Ratio { num: u128::MAX, den: u128::MAX };
    assert_eq!(classify(&fund("a", 0, 100), &huge), Rebalance::PullIn);
    assert_eq!(classify(&fund("a", 100, 100), &huge), Rebalance::Nothing);
}

fn meta(rebalance: Rebalance) -> ChannelMeta {
    ChannelMeta {
        fund: fund("1x1x1", 1, 2),
        is_sink: Ratio { num: 1, den: 3 },
        is_sink_last_month: Ratio { num: 5, den: 8 },
        rebalance,
        alias_or_id: "Acme".to_string(),
        block_born: 1,
    }
}

#[test]
fn sling_jobs_pull_from_the_full_and_push_to_the_empty() {
    let pull_in = vec!["1x1x1".to_string(), "2x2x2".to_string()];
    let push_out = vec!["3x3x3".to_string()];
    assert!(calc_slingjobs("1x1x1", &meta(Rebalance::Nothing), &pull_in, &push_out).is_none());
    let pull = calc_slingjobs("1x1x1", &meta(Rebalance::PullIn), &pull_in, &push_out)
        .expect("a job");
    assert_eq!(pull.scid, "1x1x1");
    assert_eq!(pull.direction, Direction::Pull);
    assert_eq!(pull.candidates, push_out);
    assert_eq!(pull.target_tenths, 3);
    assert_eq!(pull.amount, 50_000);
    assert_eq!(pull.maxppm, 10);
    let push = calc_slingjobs("3x3x3", &meta(Rebalance::PushOut), &pull_in, &push_out)
        .expect("a job");
    assert_eq!(push.direction, Direction::Push);
    assert_eq!(push.candidates, pull_in);
    assert_eq!(push.target_tenths, 7);
    let args = push.args();
    assert_eq!(args[0], "sling-job");
    assert!(args.contains(&"candidates=[\"1x1x1\",\"2x2x2\"]".to_string()), "{args:?}");
}

#[test]
fn candidates_as_json() {
    assert_eq!(candidates_to_json(&vec![]), "[]");
    assert_eq!(candidates_to_json(&vec!["1x2x3".to_string()]), "[\"1x2x3\"]");
    assert_eq!(
        candidates_to_json(&vec!["1x2x3".to_string(), "4x5x6".to_string()]),
        "[\"1x2x3\",\"4x5x6\"]"
    );
}

#[test]
fn percentages_are_rounded_to_the_nearest() {
    assert_eq!(percent(&Ratio { num: 1, den: 3 }), 33);
    assert_eq!(percent(&Ratio { num: 2, den: 3 }), 67);
    assert_eq!(percent(&Ratio { num: 1, den: 2 }), 50);
    assert_eq!(percent(&Ratio { num: 0, den: 7 }), 0);
    assert_eq!(percent(&Ratio { num: 7, den: 7 }), 100);
    let m = meta(Rebalance::Nothing);
    assert!(m.is_valid());
    assert_eq!(m.is_sink_perc(), "33%");
    assert_eq!(m.is_sink_last_month_perc(), "62%");
    assert_eq!(m.alias_or_id(), "Acme");
    let broken = ChannelMeta { is_sink: Ratio { num: 1, den: 0 }, ..meta(Rebalance::Nothing) };
    assert!(!broken.is_valid());
}

#[test]
fn days_are_cut_to_three_characters() {
    assert_eq!(cut_days(0), " 0d");
    assert_eq!(cut_days(9), " 9d");
    assert_eq!(cut_days(10), "10d");
    assert_eq!(cut_days(99), "99d");
    assert_eq!(cut_days(100), "99+");
    assert_eq!(cut_days(i64::MAX), "99+");
    assert_eq!(cut_days(-1), "-1d");
}

#[test]
fn durations_in_words() {
    let texts: Vec<String> =
        [0i64, 59, 60, 3_599, 3_600, 86_399, 86_400, 90_061, -5].iter().map(|s| format_duration(*s)).collect();
    println!("{texts:?}");
    assert_eq!(format_duration(59), "59s");
    assert_eq!(format_duration(60), "1m 0s");
    assert_eq!(format_duration(3_600), "1h 0m 0s");
    assert_eq!(format_duration(90_061), "1d 1h 1m");
}
