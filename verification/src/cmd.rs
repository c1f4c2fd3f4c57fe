//! The node's documents as the library holds them, and what is read
//! off a single record: a channel's balance, the block that a short
//! channel id names, the settled view of a forward.

use crate::ratio::Ratio;
use crate::seqs::Duplicate;
use crate::text::{chars_of, parse_u64_chars, parse_u64_spec, str_eq};
use crate::time::{is_representable, timestamp_representable};
use vstd::prelude::*;
use vstd::string::*;

verus! {

/// Identity of the local node.
#[derive(Debug, Clone)]
pub struct GetInfo {
    pub id: String,
    pub blockheight: u64,
}

/// The gossip graph: one entry per direction of each channel.
#[derive(Debug, Clone)]
pub struct ListChannels {
    pub channels: Vec<Channel>,
}

/// Settings of a rebalancing job.
#[derive(Debug, Clone)]
pub struct JobSetting {
    pub amount_msat: u64,
    pub maxppm: u64,
    pub outppm: u64,
    pub sat_direction: String,
}

/// The peers of the local node.
#[derive(Debug, Clone)]
pub struct ListPeers {
    pub peers: Vec<Peer>,
}

/// A peer and its channels with the local node.
#[derive(Debug, Clone)]
pub struct Peer {
    pub id: String,
    pub connected: bool,
    pub num_channels: u64,
    pub features: String,
    pub channels: Vec<PeerChannel>,
}

/// State of one channel with a peer.
#[derive(Debug, Clone)]
pub struct PeerChannel {
    pub state: String,
    pub short_channel_id: Option<String>,
    pub direction: Option<u64>,
    pub channel_id: Option<String>,
    pub funding_txid: Option<String>,
}

/// One direction of a channel in the gossip graph.
#[derive(Debug, Clone)]
pub struct Channel {
    pub source: String,
    pub destination: String,
    pub short_channel_id: String,
    pub amount_msat: u64,
    pub active: bool,
    pub last_update: u64,
    pub base_fee_millisatoshi: u64,
    pub fee_per_millionth: u64,
    pub delay: u64,
    pub htlc_minimum_msat: u64,
    pub htlc_maximum_msat: u64,
    pub features: String,
}

/// The nodes of the gossip graph.
#[derive(Debug, Clone)]
pub struct ListNodes {
    pub nodes: Vec<Node>,
}

/// A node of the gossip graph.
#[derive(Debug, Clone)]
pub struct Node {
    pub nodeid: String,
    pub alias: Option<String>,
    pub last_timestamp: Option<u64>,
}

/// The local node's funds: its channels and its on-chain outputs.
#[derive(Debug, Clone)]
pub struct ListFunds {
    pub channels: Vec<Fund>,
    pub outputs: Vec<Output>,
}

/// The local view of one of the node's own channels.
#[derive(Debug, Clone)]
pub struct Fund {
    pub peer_id: String,
    pub connected: bool,
    pub state: String,
    pub channel_id: String,
    pub short_channel_id: Option<String>,
    pub our_amount_msat: u64,
    pub amount_msat: u64,
    pub funding_txid: String,
    pub funding_output: u32,
}

/// An on-chain output of the local node.
#[derive(Debug, Clone)]
pub struct Output {
    pub amount_msat: u64,
    pub scriptpubkey: String,
}

/// The history of forwards.
#[derive(Debug, Clone)]
pub struct ListForwards {
    pub forwards: Vec<Forward>,
}

/// The channels that were closed.
#[derive(Debug, Clone)]
pub struct ListClosedChannels {
    pub closedchannels: Vec<ClosedChannel>,
}

/// The record of a closed channel.
#[derive(Debug, Clone)]
pub struct ClosedChannel {
    pub peer_id: Option<String>,
    pub channel_id: String,
    pub short_channel_id: Option<String>,
    pub alias: Option<ChannelAlias>,
    pub opener: String,
    pub closer: Option<String>,
    pub private: Option<bool>,
    pub channel_type: Option<ChannelType>,
    pub total_local_commitments: Option<u64>,
    pub total_remote_commitments: Option<u64>,
    pub total_htlcs_sent: Option<u64>,
    pub funding_txid: String,
    pub funding_outnum: u32,
    pub leased: Option<bool>,
    pub total_msat: u64,
    pub final_to_us_msat: u64,
    pub min_to_us_msat: u64,
    pub max_to_us_msat: u64,
    pub last_commitment_txid: Option<String>,
    pub last_commitment_fee_msat: Option<u64>,
    pub close_cause: String,
}

/// The local alias of a channel.
#[derive(Debug, Clone)]
pub struct ChannelAlias {
    pub local_alias: String,
}

/// The feature bits of a channel type, and their names.
#[derive(Debug, Clone)]
pub struct ChannelType {
    pub bits: Vec<u32>,
    pub names: Vec<String>,
}

/// A forward as the node reports it. Times are whole seconds.
#[derive(Debug, Clone)]
pub struct Forward {
    pub in_channel: String,
    pub out_channel: Option<String>,
    pub fee_msat: Option<u64>,
    pub in_msat: u64,
    pub out_msat: Option<u64>,
    pub status: String,
    pub received_time: i64,
    pub resolved_time: Option<i64>,
    pub failreason: Option<String>,
    pub failcode: Option<u32>,
}

/// How a forward ended.
#[derive(Debug, Clone, Copy, PartialEq, Eq, Structural)]
pub enum ForwardStatus {
    Settled,
    Failed,
    LocalFailed,
    Other,
}

/// On which side of a forward a channel is looked for.
#[derive(Debug, Clone, Copy, PartialEq, Eq, Structural)]
pub enum Side {
    Incoming,
    Outgoing,
    Either,
}

/// A forward that completed and collected a fee.
#[derive(Debug, Clone)]
pub struct SettledForward {
    pub in_channel: String,
    pub out_channel: String,
    pub fee_sat: u64,
    pub out_sat: u64,
    pub fee_ppm: u64,
    pub resolved_time: i64,
    pub received_time: i64,
}

/// One hop of a route.
#[derive(Debug, Clone)]
pub struct RouteNode {
    pub id: String,
    pub channel: String,
    pub direction: u8,
    pub amount_msat: u64,
    pub delay: u64,
    pub style: String,
}

/// A route to a destination, hop by hop.
#[derive(Debug, Clone)]
pub struct GetRoute {
    pub route: Vec<RouteNode>,
}

/// The channels of the local node as `listpeerchannels` reports them.
#[derive(Debug, Clone)]
pub struct ListPeerChannels {
    pub channels: Vec<PeerChannelBalance>,
}

/// State and outgoing limits of one of the node's channels.
#[derive(Debug, Clone)]
pub struct PeerChannelBalance {
    pub state: String,
    pub short_channel_id: Option<String>,
    pub to_us_msat: u64,
    pub maximum_htlc_out_msat: u64,
}

// ---------------------------------------------------------------------
// Short channel ids
// ---------------------------------------------------------------------

/// The state of a channel that is open and usable.
pub open spec fn normal_state() -> Seq<char> {
    "CHANNELD_NORMAL"@
}

/// The characters of an optional string, empty where there is none.
pub open spec fn text_or_empty(s: Option<String>) -> Seq<char> {
    match s {
        Some(t) => t@,
        None => Seq::empty(),
    }
}

/// Where the first segment of a short channel id ends: the position of
/// the first `x`, or the length where there is none.
pub open spec fn segment_end(s: Seq<char>) -> int
    decreases s.len(),
{
    if s.len() == 0 || s[0] == 'x' {
        0
    } else {
        1 + segment_end(s.drop_first())
    }
}

/// The block height that a short channel id `<block>x<tx>x<output>`
/// names: its first segment read as a decimal number.
pub open spec fn scid_block(s: Seq<char>) -> Option<u64> {
    parse_u64_spec(s.take(segment_end(s)))
}

/// The first segment ends within the id, holds no `x`, and an `x`
/// follows it unless the id ends there.
pub proof fn lemma_segment_end_bounds(s: Seq<char>)
    ensures
        0 <= segment_end(s) <= s.len(),
        forall|i: int| 0 <= i < segment_end(s) ==> s[i] != 'x',
        segment_end(s) < s.len() ==> s[segment_end(s)] == 'x',
    decreases s.len(),
{
    if s.len() == 0 || s[0] == 'x' {
    } else {
        let t = s.drop_first();
        lemma_segment_end_bounds(t);
        assert forall|i: int| 0 <= i < segment_end(s) implies s[i] != 'x' by {
            if i > 0 {
                assert(s[i] == t[i - 1]);
            }
        }
    }
}

/// `segment_end` is the first position that holds an `x`.
pub proof fn lemma_segment_end_is(s: Seq<char>, k: int)
    requires
        0 <= k <= s.len(),
        forall|i: int| 0 <= i < k ==> s[i] != 'x',
        k < s.len() ==> s[k] == 'x',
    ensures
        segment_end(s) == k,
    decreases s.len(),
{
    if s.len() == 0 || s[0] == 'x' {
    } else {
        let t = s.drop_first();
        assert forall|i: int| 0 <= i < k - 1 implies t[i] != 'x' by {
            assert(t[i] == s[i + 1]);
        }
        lemma_segment_end_is(t, k - 1);
    }
}

/// The block height that the short channel id `scid` names.
pub fn block_of_scid(scid: &str) -> (r: Option<u64>)
    ensures
        r == scid_block(scid@),
{
    let v = chars_of(scid);
    let mut head: Vec<char> = Vec::new();
    let mut i: usize = 0;
    while i < v.len() && v[i] != 'x'
        invariant
            i <= v.len(),
            head@ == v@.take(i as int),
            forall|k: int| 0 <= k < i ==> v@[k] != 'x',
        decreases v.len() - i,
    {
        head.push(v[i]);
        i += 1;
    }
    proof {
        lemma_segment_end_is(v@, i as int);
    }
    parse_u64_chars(&head)
}

// ---------------------------------------------------------------------
// Own channels
// ---------------------------------------------------------------------

impl Fund {
    /// Whether the channel is open and usable.
    pub open spec fn is_normal(&self) -> bool {
        self.state@ == normal_state()
    }

    /// The short channel id, empty while the channel has none.
    pub open spec fn scid(&self) -> Seq<char> {
        text_or_empty(self.short_channel_id)
    }

    /// Numerator of the balance ratio: our funds, capped at the capacity.
    pub open spec fn balance_num(&self) -> nat {
        if self.amount_msat == 0 {
            1
        } else if self.our_amount_msat > self.amount_msat {
            self.amount_msat as nat
        } else {
            self.our_amount_msat as nat
        }
    }

    /// Denominator of the balance ratio: the capacity.
    pub open spec fn balance_den(&self) -> nat {
        if self.amount_msat == 0 {
            1
        } else {
            self.amount_msat as nat
        }
    }

    /// Whether the balance ratio is below `n / d`.
    pub open spec fn balance_below(&self, n: nat, d: nat) -> bool {
        self.balance_num() * d < n * self.balance_den()
    }

    /// Whether the balance ratio is above `n / d`.
    pub open spec fn balance_above(&self, n: nat, d: nat) -> bool {
        self.balance_num() * d > n * self.balance_den()
    }

    /// Whether the channel is open and usable.
    pub fn has_normal_state(&self) -> (r: bool)
        ensures
            r == self.is_normal(),
    {
        str_eq(self.state.as_str(), "CHANNELD_NORMAL")
    }

    /// How full of our funds the channel is: our funds over the
    /// capacity, held between 0 and 1. A channel without capacity
    /// counts as full.
    pub fn balance_ratio(&self) -> (r: Ratio)
        ensures
            r.num == self.balance_num(),
            r.den == self.balance_den(),
            r.is_fraction(),
    {
        if self.amount_msat == 0 {
            Ratio { num: 1, den: 1 }
        } else if self.our_amount_msat > self.amount_msat {
            Ratio { num: self.amount_msat as u128, den: self.amount_msat as u128 }
        } else {
            Ratio { num: self.our_amount_msat as u128, den: self.amount_msat as u128 }
        }
    }

    /// Whether the balance ratio is below `n / d`.
    pub fn is_balance_below(&self, n: u32, d: u32) -> (r: bool)
        ensures
            r == self.balance_below(n as nat, d as nat),
    {
        let b = self.balance_ratio();
        proof {
            lemma_product_fits(b.num, d as u128);
            lemma_product_fits(b.den, n as u128);
        }
        b.num * (d as u128) < (n as u128) * b.den
    }

    /// Whether the balance ratio is above `n / d`.
    pub fn is_balance_above(&self, n: u32, d: u32) -> (r: bool)
        ensures
            r == self.balance_above(n as nat, d as nat),
    {
        let b = self.balance_ratio();
        proof {
            lemma_product_fits(b.num, d as u128);
            lemma_product_fits(b.den, n as u128);
        }
        b.num * (d as u128) > (n as u128) * b.den
    }

    /// The balance ratio in whole percent, rounded down.
    pub fn perc(&self) -> (r: u64)
        ensures
            r == (self.balance_num() * 100) / self.balance_den(),
            r <= 100,
    {
        let b = self.balance_ratio();
        proof {
            lemma_product_fits(b.num, 100);
        }
        let p: u128 = (b.num * 100) / b.den;
        let ghost n = b.num as int;
        let ghost d = b.den as int;
        assert((n * 100) / d <= 100) by (nonlinear_arith)
            requires
                0 <= n <= d,
                d > 0,
        ;
        p as u64
    }

    /// The short channel id, empty while the channel has none.
    pub fn short_channel_id(&self) -> (r: String)
        ensures
            r@ == self.scid(),
    {
        match &self.short_channel_id {
            Some(s) => s.clone(),
            None => String::new(),
        }
    }

    /// The block in which the channel was funded, read off its short
    /// channel id.
    pub fn block_born(&self) -> (r: Option<u64>)
        ensures
            r == match self.short_channel_id {
                Some(s) => scid_block(s@),
                None => None,
            },
    {
        match &self.short_channel_id {
            Some(s) => block_of_scid(s.as_str()),
            None => None,
        }
    }
}

/// The product of two numbers below 2^64 fits in 128 bits.
pub proof fn lemma_product_fits(a: u128, b: u128)
    requires
        a <= u64::MAX,
        b <= u64::MAX,
    ensures
        a * b <= u128::MAX,
{
    assert(a * b <= 0xffff_ffff_ffff_ffff * 0xffff_ffff_ffff_ffff) by (nonlinear_arith)
        requires
            a <= 0xffff_ffff_ffff_ffff,
            b <= 0xffff_ffff_ffff_ffff,
    ;
}

// ---------------------------------------------------------------------
// Closed channels
// ---------------------------------------------------------------------

/// What stands for the short channel id of a closed channel without one.
pub open spec fn no_scid_text() -> Seq<char> {
    "N/A"@
}

impl ClosedChannel {
    /// The short channel id as it is shown and sorted by.
    pub open spec fn display_scid(&self) -> Seq<char> {
        match self.short_channel_id {
            Some(s) => s@,
            None => no_scid_text(),
        }
    }

    /// The block in which the channel was opened, read off its short
    /// channel id.
    pub fn block_born(&self) -> (r: Option<u64>)
        ensures
            r == match self.short_channel_id {
                Some(s) => scid_block(s@),
                None => None,
            },
    {
        match &self.short_channel_id {
            Some(s) => block_of_scid(s.as_str()),
            None => None,
        }
    }

    /// The short channel id, or `N/A` where the channel has none.
    pub fn short_channel_id_display(&self) -> (r: String)
        ensures
            r@ == self.display_scid(),
    {
        match &self.short_channel_id {
            Some(s) => s.clone(),
            None => String::from_str("N/A"),
        }
    }
}

// ---------------------------------------------------------------------
// Forwards
// ---------------------------------------------------------------------

/// The fee of a forward in parts per million of the amount sent on:
/// `fee_msat * 1_000_000 / out_msat`, rounded down, 0 where nothing
/// was sent on, and the largest `u64` where it would exceed it.
pub open spec fn fee_ppm_of(fee_msat: u64, out_msat: u64) -> u64 {
    if out_msat == 0 {
        0
    } else if fee_msat * 1_000_000 / (out_msat as int) > u64::MAX {
        u64::MAX
    } else {
        (fee_msat * 1_000_000 / (out_msat as int)) as u64
    }
}

/// The fee of a forward in parts per million of the amount sent on.
pub fn fee_ppm(fee_msat: u64, out_msat: u64) -> (r: u64)
    ensures
        r == fee_ppm_of(fee_msat, out_msat),
{
    if out_msat == 0 {
        0
    } else {
        let q: u128 = (fee_msat as u128 * 1_000_000) / (out_msat as u128);
        if q > u64::MAX as u128 {
            u64::MAX
        } else {
            q as u64
        }
    }
}

impl Forward {
    /// How the forward ended, by its `status`.
    pub open spec fn kind(&self) -> ForwardStatus {
        if self.status@ == "settled"@ {
            ForwardStatus::Settled
        } else if self.status@ == "failed"@ {
            ForwardStatus::Failed
        } else if self.status@ == "local_failed"@ {
            ForwardStatus::LocalFailed
        } else {
            ForwardStatus::Other
        }
    }

    /// Whether `scid` is the channel the forward came in on or the one
    /// it went out on; a forward without an outgoing channel counts as
    /// going out on the empty id.
    pub open spec fn touches(&self, scid: Seq<char>) -> bool {
        self.in_channel@ == scid || self.goes_out_on(scid)
    }

    /// Whether the forward went out on `scid`; a forward without an
    /// outgoing channel counts as going out on the empty id.
    pub open spec fn goes_out_on(&self, scid: Seq<char>) -> bool {
        text_or_empty(self.out_channel) == scid
    }

    /// Whether the forward has all that a settled forward holds, apart
    /// from the question whether its times stand for an instant.
    pub open spec fn complete(&self) -> bool {
        self.fee_msat is Some && self.out_msat is Some && self.out_channel is Some
            && self.resolved_time is Some
    }

    /// Whether both times of a complete forward stand for an instant.
    pub open spec fn times_representable(&self) -> bool {
        self.resolved_time matches Some(t) && timestamp_representable(t)
            && timestamp_representable(self.received_time)
    }

    /// The settled view of the forward, where it is complete.
    pub open spec fn settled_view(&self) -> SettledForward
        recommends
            self.complete(),
    {
        SettledForward {
            in_channel: self.in_channel,
            out_channel: self.out_channel->0,
            fee_sat: self.fee_msat->0 / 1000,
            out_sat: self.out_msat->0 / 1000,
            fee_ppm: fee_ppm_of(self.fee_msat->0, self.out_msat->0),
            resolved_time: self.resolved_time->0,
            received_time: self.received_time,
        }
    }

    /// The settled forward that this forward projects to, if any.
    pub open spec fn settled(&self) -> Option<SettledForward> {
        if self.complete() && self.times_representable() {
            Some(self.settled_view())
        } else {
            None
        }
    }

    /// How the forward ended, by its `status`.
    pub fn status_kind(&self) -> (r: ForwardStatus)
        ensures
            r == self.kind(),
    {
        if str_eq(self.status.as_str(), "settled") {
            ForwardStatus::Settled
        } else if str_eq(self.status.as_str(), "failed") {
            ForwardStatus::Failed
        } else if str_eq(self.status.as_str(), "local_failed") {
            ForwardStatus::LocalFailed
        } else {
            ForwardStatus::Other
        }
    }

    /// Whether `scid` is the channel the forward came in on or the one
    /// it went out on.
    pub fn is_on_channel(&self, scid: &str) -> (r: bool)
        ensures
            r == self.touches(scid@),
    {
        str_eq(self.in_channel.as_str(), scid) || self.is_outgoing_on(scid)
    }

    /// Whether the forward went out on `scid`; a forward without an
    /// outgoing channel counts as going out on the empty id.
    pub fn is_outgoing_on(&self, scid: &str) -> (r: bool)
        ensures
            r == self.goes_out_on(scid@),
    {
        match &self.out_channel {
            Some(o) => str_eq(o.as_str(), scid),
            None => {
                proof {
                    reveal_strlit("");
                    assert(""@ =~= Seq::<char>::empty());
                }
                str_eq("", scid)
            },
        }
    }
}

/// A copy of an optional string.
pub fn copy_text(s: &Option<String>) -> (r: Option<String>)
    ensures
        r == *s,
{
    match s {
        Some(t) => Some(t.clone()),
        None => None,
    }
}

impl SettledForward {
    /// Whether `scid` is the channel the forward came in on or the one
    /// it went out on.
    pub open spec fn touches(&self, scid: Seq<char>) -> bool {
        self.in_channel@ == scid || self.out_channel@ == scid
    }

    /// The settled view of `value`, given whether its times stand for
    /// an instant: `Ok` exactly for a complete forward whose times do.
    pub fn project(value: &Forward, times_ok: bool) -> (r: Result<SettledForward, ()>)
        ensures
            r is Ok <==> value.complete() && times_ok,
            r matches Ok(s) ==> s == value.settled_view(),
    {
        let fee_msat = match value.fee_msat {
            Some(v) => v,
            None => {
                return Err(());
            },
        };
        let out_msat = match value.out_msat {
            Some(v) => v,
            None => {
                return Err(());
            },
        };
        let out_channel = match &value.out_channel {
            Some(v) => v.clone(),
            None => {
                return Err(());
            },
        };
        let resolved_time = match value.resolved_time {
            Some(v) => v,
            None => {
                return Err(());
            },
        };
        if !times_ok {
            return Err(());
        }
        Ok(
            SettledForward {
                in_channel: value.in_channel.clone(),
                out_channel,
                fee_sat: fee_msat / 1000,
                out_sat: out_msat / 1000,
                fee_ppm: fee_ppm(fee_msat, out_msat),
                resolved_time,
                received_time: value.received_time,
            },
        )
    }

    /// The settled view of `value`: `Ok` exactly where the forward has
    /// its fee, its outgoing amount and channel and its resolution
    /// time, and both its times stand for an instant.
    pub fn try_from(value: &Forward) -> (r: Result<SettledForward, ()>)
        ensures
            r is Ok <==> value.settled() is Some,
            r matches Ok(s) ==> value.settled() == Some(s),
    {
        let times_ok = match value.resolved_time {
            Some(t) => is_representable(t) && is_representable(value.received_time),
            None => false,
        };
        SettledForward::project(value, times_ok)
    }

    /// Whether `scid` is the channel the forward came in on or the one
    /// it went out on.
    pub fn is_on_channel(&self, scid: &str) -> (r: bool)
        ensures
            r == self.touches(scid@),
    {
        str_eq(self.in_channel.as_str(), scid) || str_eq(self.out_channel.as_str(), scid)
    }
}

impl Duplicate for Forward {
    fn duplicate(&self) -> (r: Forward) {
        Forward {
            in_channel: self.in_channel.clone(),
            out_channel: copy_text(&self.out_channel),
            fee_msat: self.fee_msat,
            in_msat: self.in_msat,
            out_msat: self.out_msat,
            status: self.status.clone(),
            received_time: self.received_time,
            resolved_time: self.resolved_time,
            failreason: copy_text(&self.failreason),
            failcode: self.failcode,
        }
    }
}

impl Duplicate for SettledForward {
    fn duplicate(&self) -> (r: SettledForward) {
        SettledForward {
            in_channel: self.in_channel.clone(),
            out_channel: self.out_channel.clone(),
            fee_sat: self.fee_sat,
            out_sat: self.out_sat,
            fee_ppm: self.fee_ppm,
            resolved_time: self.resolved_time,
            received_time: self.received_time,
        }
    }
}

impl Duplicate for Fund {
    fn duplicate(&self) -> (r: Fund) {
        Fund {
            peer_id: self.peer_id.clone(),
            connected: self.connected,
            state: self.state.clone(),
            channel_id: self.channel_id.clone(),
            short_channel_id: copy_text(&self.short_channel_id),
            our_amount_msat: self.our_amount_msat,
            amount_msat: self.amount_msat,
            funding_txid: self.funding_txid.clone(),
            funding_output: self.funding_output,
        }
    }
}

impl Duplicate for Node {
    fn duplicate(&self) -> (r: Node) {
        Node {
            nodeid: self.nodeid.clone(),
            alias: copy_text(&self.alias),
            last_timestamp: self.last_timestamp,
        }
    }
}

impl Duplicate for Channel {
    fn duplicate(&self) -> (r: Channel) {
        Channel {
            source: self.source.clone(),
            destination: self.destination.clone(),
            short_channel_id: self.short_channel_id.clone(),
            amount_msat: self.amount_msat,
            active: self.active,
            last_update: self.last_update,
            base_fee_millisatoshi: self.base_fee_millisatoshi,
            fee_per_millionth: self.fee_per_millionth,
            delay: self.delay,
            htlc_minimum_msat: self.htlc_minimum_msat,
            htlc_maximum_msat: self.htlc_maximum_msat,
            features: self.features.clone(),
        }
    }
}

} // verus!
