//! The snapshot store: the node's documents of one invocation, the time
//! at which they were taken, and the queries over them.
//!
//! The store is a plain record. Every query is a function of its
//! fields alone, so two queries on an unchanged store agree.

use crate::cmd::{
    lemma_product_fits, Forward, ForwardStatus, Fund, GetInfo, ListChannels, ListClosedChannels,
    ListForwards, ListFunds, ListNodes, ListPeers, Output, SettledForward, Side,
};
use crate::datastore::{ListDatastore, PeerNote, PeerNotes, SetchannelTime, SetchannelTimes};
use crate::order::{sorted_by, sorted_copy, Rank, Ranked, SortKey};
use crate::ratio::Ratio;
use crate::seqs::{
    capped, count_picked, lemma_filter_same, picked, picker, project_all, projected, select,
    total, total_picked, Measure, Pick, Project,
};
use crate::text::{owned, str_eq};
use crate::time::Window;
use vstd::prelude::*;
use vstd::string::*;

verus! {

/// Store containing all data fetched from the Lightning node.
#[derive(Debug, Clone)]
pub struct Store {
    pub info: GetInfo,
    pub channels: ListChannels,
    pub peers: ListPeers,
    pub funds: ListFunds,
    pub forwards: ListForwards,
    pub nodes: ListNodes,
    pub closed_channels: ListClosedChannels,
    /// Notes on peers, in the order of the datastore; the last note on
    /// a peer is the one that counts.
    pub peer_notes: Vec<PeerNote>,
    /// Times of the last fee change per channel, in the order of the
    /// datastore; the last entry of a channel is the one that counts.
    pub setchannel_timestamps: Vec<SetchannelTime>,
    /// When the snapshot was taken.
    pub now: i64,
}

// ---------------------------------------------------------------------
// Criteria
// ---------------------------------------------------------------------

/// Which settled forwards a query is about: those in a window, and
/// where a channel is given, those on that channel.
pub struct Scope {
    pub now: i64,
    pub channel: Option<Seq<char>>,
    pub side: Side,
    pub window: Window,
}

impl Scope {
    /// Whether the scope covers the forward `f`.
    pub open spec fn admits(&self, f: &SettledForward) -> bool {
        &&& self.window.admits(self.now, f.resolved_time)
        &&& match self.channel {
            None => true,
            Some(scid) => match self.side {
                Side::Incoming => f.in_channel@ == scid,
                Side::Outgoing => f.out_channel@ == scid,
                Side::Either => f.touches(scid),
            },
        }
    }

    /// The forwards of the whole history.
    pub open spec fn all(now: i64) -> Scope {
        Scope { now, channel: None, side: Side::Either, window: Window::Ever }
    }

    /// The forwards in a window.
    pub open spec fn during(now: i64, window: Window) -> Scope {
        Scope { now, channel: None, side: Side::Either, window }
    }

    /// The forwards of a channel on a side, in a window.
    pub open spec fn on(now: i64, scid: Seq<char>, side: Side, window: Window) -> Scope {
        Scope { now, channel: Some(scid), side, window }
    }
}

/// The settled forwards that a scope covers, in their order.
pub open spec fn within(s: Seq<SettledForward>, scope: Scope) -> Seq<SettledForward> {
    s.filter(|f: SettledForward| scope.admits(&f))
}

/// A scope as the program holds it.
pub struct Selection {
    pub now: i64,
    pub channel: Option<String>,
    pub side: Side,
    pub window: Window,
}

impl Selection {
    /// The scope that the selection stands for.
    pub open spec fn scope(&self) -> Scope {
        Scope {
            now: self.now,
            channel: match self.channel {
                Some(s) => Some(s@),
                None => None,
            },
            side: self.side,
            window: self.window,
        }
    }

    /// The selection of the forwards in a window.
    pub fn during(now: i64, window: Window) -> (r: Selection)
        ensures
            r.scope() == Scope::during(now, window),
    {
        Selection { now, channel: None, side: Side::Either, window }
    }

    /// The selection of the forwards of a channel on a side, in a window.
    pub fn on(now: i64, scid: &str, side: Side, window: Window) -> (r: Selection)
        ensures
            r.scope() == Scope::on(now, scid@, side, window),
    {
        Selection { now, channel: Some(owned(scid)), side, window }
    }
}

impl Pick<SettledForward> for Selection {
    open spec fn picks(&self, item: &SettledForward) -> bool {
        self.scope().admits(item)
    }

    fn accepts(&self, item: &SettledForward) -> (r: bool) {
        if !self.window.holds(self.now, item.resolved_time) {
            return false;
        }
        match &self.channel {
            None => true,
            Some(scid) => match self.side {
                Side::Incoming => str_eq(item.in_channel.as_str(), scid.as_str()),
                Side::Outgoing => str_eq(item.out_channel.as_str(), scid.as_str()),
                Side::Either => item.is_on_channel(scid.as_str()),
            },
        }
    }
}

/// What a selection picks is what its scope covers.
pub proof fn lemma_selection_scope(s: Seq<SettledForward>, sel: Selection)
    ensures
        picked(s, sel) == within(s, sel.scope()),
{
    let scope = sel.scope();
    lemma_filter_same(s, picker(sel), |f: SettledForward| scope.admits(&f));
}

/// Which forwards of the history a query is about: those received in a
/// window and, where given, those on a channel and those that ended in
/// a certain way.
pub struct ForwardScope {
    pub now: i64,
    pub channel: Option<Seq<char>>,
    pub side: Side,
    pub window: Window,
    pub kind: Option<ForwardStatus>,
}

impl ForwardScope {
    /// Whether the scope covers the forward `f`.
    pub open spec fn admits(&self, f: &Forward) -> bool {
        &&& self.window.admits(self.now, f.received_time)
        &&& match self.channel {
            None => true,
            Some(scid) => match self.side {
                Side::Incoming => f.in_channel@ == scid,
                Side::Outgoing => f.goes_out_on(scid),
                Side::Either => f.touches(scid),
            },
        }
        &&& match self.kind {
            None => true,
            Some(k) => f.kind() == k,
        }
    }

    /// The forwards received in a window.
    pub open spec fn during(now: i64, window: Window) -> ForwardScope {
        ForwardScope { now, channel: None, side: Side::Either, window, kind: None }
    }

    /// The forwards received in a window that ended as `kind`.
    pub open spec fn ended(now: i64, window: Window, kind: ForwardStatus) -> ForwardScope {
        ForwardScope { now, channel: None, side: Side::Either, window, kind: Some(kind) }
    }

    /// The forwards that went out on a channel.
    pub open spec fn outgoing(now: i64, scid: Seq<char>) -> ForwardScope {
        ForwardScope {
            now,
            channel: Some(scid),
            side: Side::Outgoing,
            window: Window::Ever,
            kind: None,
        }
    }

    /// The forwards that went out on a channel and ended as `kind`.
    pub open spec fn outgoing_ended(now: i64, scid: Seq<char>, kind: ForwardStatus) -> ForwardScope {
        ForwardScope {
            now,
            channel: Some(scid),
            side: Side::Outgoing,
            window: Window::Ever,
            kind: Some(kind),
        }
    }

    /// The forwards on a channel, either side, that ended as `kind`.
    pub open spec fn on_ended(now: i64, scid: Seq<char>, kind: ForwardStatus) -> ForwardScope {
        ForwardScope {
            now,
            channel: Some(scid),
            side: Side::Either,
            window: Window::Ever,
            kind: Some(kind),
        }
    }
}

/// The forwards that a scope covers, in their order.
pub open spec fn forwards_within(s: Seq<Forward>, scope: ForwardScope) -> Seq<Forward> {
    s.filter(|f: Forward| scope.admits(&f))
}

/// A forward scope as the program holds it.
pub struct ForwardSelection {
    pub now: i64,
    pub channel: Option<String>,
    pub side: Side,
    pub window: Window,
    pub kind: Option<ForwardStatus>,
}

impl ForwardSelection {
    /// The scope that the selection stands for.
    pub open spec fn scope(&self) -> ForwardScope {
        ForwardScope {
            now: self.now,
            channel: match self.channel {
                Some(s) => Some(s@),
                None => None,
            },
            side: self.side,
            window: self.window,
            kind: self.kind,
        }
    }

    /// The selection with the given parts.
    pub fn new(
        now: i64,
        channel: Option<&str>,
        side: Side,
        window: Window,
        kind: Option<ForwardStatus>,
    ) -> (r: ForwardSelection)
        ensures
            r.scope() == (ForwardScope {
                now,
                channel: match channel {
                    Some(s) => Some(s@),
                    None => None,
                },
                side,
                window,
                kind,
            }),
    {
        let channel = match channel {
            Some(s) => Some(owned(s)),
            None => None,
        };
        ForwardSelection { now, channel, side, window, kind }
    }
}

impl Pick<Forward> for ForwardSelection {
    open spec fn picks(&self, item: &Forward) -> bool {
        self.scope().admits(item)
    }

    fn accepts(&self, item: &Forward) -> (r: bool) {
        if !self.window.holds(self.now, item.received_time) {
            return false;
        }
        let on_channel = match &self.channel {
            None => true,
            Some(scid) => match self.side {
                Side::Incoming => str_eq(item.in_channel.as_str(), scid.as_str()),
                Side::Outgoing => item.is_outgoing_on(scid.as_str()),
                Side::Either => item.is_on_channel(scid.as_str()),
            },
        };
        if !on_channel {
            return false;
        }
        match self.kind {
            None => true,
            Some(k) => item.status_kind() == k,
        }
    }
}

/// What a forward selection picks is what its scope covers.
pub proof fn lemma_forward_selection_scope(s: Seq<Forward>, sel: ForwardSelection)
    ensures
        picked(s, sel) == forwards_within(s, sel.scope()),
{
    let scope = sel.scope();
    lemma_filter_same(s, picker(sel), |f: Forward| scope.admits(&f));
}

/// Copies of the forwards that `sel` selects, in their order.
pub fn forwards_selected(forwards: &Vec<Forward>, sel: &ForwardSelection) -> (r: Vec<Forward>)
    ensures
        r@ == forwards_within(forwards@, sel.scope()),
{
    proof {
        lemma_forward_selection_scope(forwards@, *sel);
    }
    select(forwards, sel)
}

/// How many forwards `sel` selects.
pub fn forwards_count(forwards: &Vec<Forward>, sel: &ForwardSelection) -> (r: usize)
    ensures
        r == forwards_within(forwards@, sel.scope()).len(),
{
    proof {
        lemma_forward_selection_scope(forwards@, *sel);
    }
    count_picked(forwards, sel)
}

/// How the forwards received in a window ended.
#[derive(Debug, Clone, Copy, PartialEq, Eq, Structural)]
pub struct WindowStatistics {
    pub settled: usize,
    pub failed: usize,
    pub local_failed: usize,
    pub all: usize,
    /// The length of the window in days.
    pub days: u32,
}

impl WindowStatistics {
    /// The share of settled forwards among all, in percent; 0 where
    /// there is no forward.
    pub fn success_ratio(&self) -> (r: Ratio)
        ensures
            r.wf(),
            self.all == 0 ==> r.num == 0 && r.den == 1,
            self.all > 0 ==> r.num == self.settled * 100 && r.den == self.all,
    {
        if self.all == 0 {
            Ratio { num: 0, den: 1 }
        } else {
            Ratio { num: self.settled as u128 * 100, den: self.all as u128 }
        }
    }

    /// `count` forwards spread over the days of the window; a window
    /// without days counts as one day.
    pub fn per_day(&self, count: usize) -> (r: Ratio)
        ensures
            r.num == count,
            self.days > 0 ==> r.den == self.days,
            self.days == 0 ==> r.den == 1,
            r.wf(),
    {
        if self.days == 0 {
            Ratio { num: count as u128, den: 1 }
        } else {
            Ratio { num: count as u128, den: self.days as u128 }
        }
    }
}

/// How the forwards of the last day, week and month ended.
#[derive(Debug, Clone, Copy, PartialEq, Eq, Structural)]
pub struct ForwardStatistics {
    pub day: WindowStatistics,
    pub week: WindowStatistics,
    pub month: WindowStatistics,
}

/// Selects the own channels that are open and usable.
pub struct NormalOnly;

impl Pick<Fund> for NormalOnly {
    open spec fn picks(&self, item: &Fund) -> bool {
        item.is_normal()
    }

    fn accepts(&self, item: &Fund) -> (r: bool) {
        item.has_normal_state()
    }
}

/// Turns the forwards that settled into settled forwards, and drops
/// the others and those that lack a field or a valid time.
pub struct SettledOnly;

impl Project<Forward, SettledForward> for SettledOnly {
    open spec fn image(&self, item: &Forward) -> Option<SettledForward> {
        if item.kind() == ForwardStatus::Settled {
            item.settled()
        } else {
            None
        }
    }

    fn apply(&self, item: &Forward) -> (r: Option<SettledForward>) {
        match item.status_kind() {
            ForwardStatus::Settled => match SettledForward::try_from(item) {
                Ok(s) => Some(s),
                Err(_) => None,
            },
            _ => None,
        }
    }
}

/// Ranks settled forwards by the time they resolved, latest first.
pub struct NewestFirst;

impl Ranked<SettledForward> for NewestFirst {
    open spec fn rank_of(&self, item: &SettledForward) -> Rank {
        Rank { number: -(item.resolved_time as int), text: Seq::empty() }
    }

    fn key(&self, item: &SettledForward) -> (r: SortKey) {
        SortKey::of_number(-(item.resolved_time as i128))
    }
}

/// The fee of a settled forward, in sat.
pub struct FeeSat;

/// The amount that a settled forward sent on, in sat.
pub struct OutSat;

/// Our funds in an own channel, in whole sat.
pub struct OurSat;

/// The amount of an on-chain output, in msat.
pub struct OutputMsat;

impl Measure<SettledForward> for FeeSat {
    open spec fn amount(&self, item: &SettledForward) -> nat {
        item.fee_sat as nat
    }

    fn read(&self, item: &SettledForward) -> (r: u64) {
        item.fee_sat
    }
}

impl Measure<SettledForward> for OutSat {
    open spec fn amount(&self, item: &SettledForward) -> nat {
        item.out_sat as nat
    }

    fn read(&self, item: &SettledForward) -> (r: u64) {
        item.out_sat
    }
}

impl Measure<Fund> for OurSat {
    open spec fn amount(&self, item: &Fund) -> nat {
        (item.our_amount_msat / 1000) as nat
    }

    fn read(&self, item: &Fund) -> (r: u64) {
        item.our_amount_msat / 1000
    }
}

impl Measure<Output> for OutputMsat {
    open spec fn amount(&self, item: &Output) -> nat {
        item.amount_msat as nat
    }

    fn read(&self, item: &Output) -> (r: u64) {
        item.amount_msat
    }
}

/// The sum of the fees of the forwards, in sat.
pub open spec fn fee_sum(s: Seq<SettledForward>) -> nat {
    total(s, FeeSat)
}

/// The sum of the amounts that the forwards sent on, in sat.
pub open spec fn out_sum(s: Seq<SettledForward>) -> nat {
    total(s, OutSat)
}

/// A number of months, at least one.
#[derive(Debug, Clone, Copy)]
pub struct Months {
    count: u32,
}

impl Months {
    #[verifier::type_invariant]
    spec fn positive(self) -> bool {
        self.count >= 1
    }

    /// The number of months.
    pub closed spec fn number(self) -> nat {
        self.count as nat
    }

    /// `count` months; there is no such value for 0.
    pub fn new(count: u32) -> (r: Option<Months>)
        ensures
            r is Some <==> count >= 1,
            r matches Some(m) ==> m.number() == count,
    {
        if count >= 1 {
            Some(Months { count })
        } else {
            None
        }
    }

    /// The number of months.
    pub fn get(&self) -> (r: u32)
        ensures
            r == self.number(),
            r >= 1,
    {
        proof {
            use_type_invariant(self);
        }
        self.count
    }

    /// So many months, and one month for 0.
    pub fn at_least_one(count: u32) -> (r: Months)
        ensures
            r.number() == if count >= 1 {
                count
            } else {
                1
            },
    {
        if count >= 1 {
            Months { count }
        } else {
            Months { count: 1 }
        }
    }
}

/// The window of so many months of 30 days.
pub open spec fn months_window(months: nat) -> Window {
    Window::Days((months * 30) as i64)
}

/// APY calculation data.
#[derive(Debug, Clone, Copy)]
pub struct ApyData {
    pub fees_1_month: u64,
    pub fees_3_months: u64,
    pub fees_6_months: u64,
    pub fees_12_months: u64,
    pub total_funds: u64,
    pub apy_1_month: Ratio,
    pub apy_3_months: Ratio,
    pub apy_6_months: Ratio,
    pub apy_12_months: Ratio,
    pub transacted_last_month: u64,
}

/// The yearly yield in percent that `fees` earned in `months` months on
/// `funds` extrapolate to: `fees * 100 * 12 / (months * funds)`, and 0
/// without funds.
pub open spec fn apy_of(fees: u64, funds: u64, months: nat) -> Ratio {
    if funds == 0 {
        Ratio { num: 0, den: 1 }
    } else {
        Ratio { num: (fees * 1200) as u128, den: (months * funds) as u128 }
    }
}

/// The yearly yield in percent that `fees` earned in `months` months on
/// `funds` extrapolate to.
pub fn apy_percent(fees: u64, funds: u64, months: Months) -> (r: Ratio)
    ensures
        r == apy_of(fees, funds, months.number()),
        r.wf(),
        funds == 0 ==> r.num == 0,
{
    if funds == 0 {
        Ratio { num: 0, den: 1 }
    } else {
        let m = months.get();
        proof {
            lemma_product_fits(m as u128, funds as u128);
        }
        let den: u128 = m as u128 * funds as u128;
        assert(den > 0) by (nonlinear_arith)
            requires
                den == m as u128 * funds as u128,
                m >= 1,
                funds >= 1,
        ;
        Ratio { num: fees as u128 * 1200, den }
    }
}

impl Store {
    // -----------------------------------------------------------------
    // What the queries return
    // -----------------------------------------------------------------
    /// The own channels that are open and usable, in the order of the
    /// funds document.
    pub open spec fn normal(&self) -> Seq<Fund> {
        picked(self.funds.channels@, NormalOnly)
    }

    /// The settled forwards, latest resolution first; forwards that
    /// resolved at the same time keep the order of the history.
    pub open spec fn settled(&self) -> Seq<SettledForward> {
        sorted_by(projected(self.forwards.forwards@, SettledOnly), NewestFirst)
    }

    /// The settled forwards that a scope covers.
    pub open spec fn settled_within(&self, scope: Scope) -> Seq<SettledForward> {
        within(self.settled(), scope)
    }

    /// The fees earned in the last `months` months of 30 days, in sat.
    pub open spec fn fees_earned(&self, months: nat) -> nat {
        fee_sum(self.settled_within(Scope::during(self.now, months_window(months))))
    }

    /// Our funds in the usable channels, in sat.
    pub open spec fn channel_funds(&self) -> nat {
        total(self.normal(), OurSat)
    }

    // -----------------------------------------------------------------
    // Construction
    // -----------------------------------------------------------------
    /// The store of the given documents, taken at `now`. The peer notes
    /// and the times of the last fee changes are read off the datastore
    /// entries given for them.
    pub fn new(
        info: GetInfo,
        channels: ListChannels,
        peers: ListPeers,
        funds: ListFunds,
        forwards: ListForwards,
        nodes: ListNodes,
        closed_channels: ListClosedChannels,
        peer_notes: &ListDatastore,
        setchannel_times: &ListDatastore,
        now: i64,
    ) -> (r: Store)
        ensures
            r.info == info,
            r.channels == channels,
            r.peers == peers,
            r.funds == funds,
            r.forwards == forwards,
            r.nodes == nodes,
            r.closed_channels == closed_channels,
            r.peer_notes@ == projected(peer_notes.datastore@, PeerNotes),
            r.setchannel_timestamps@ == projected(setchannel_times.datastore@, SetchannelTimes),
            r.now == now,
    {
        let notes = project_all(&peer_notes.datastore, &PeerNotes);
        let times = project_all(&setchannel_times.datastore, &SetchannelTimes);
        Store {
            info,
            channels,
            peers,
            funds,
            forwards,
            nodes,
            closed_channels,
            peer_notes: notes,
            setchannel_timestamps: times,
            now,
        }
    }

    // -----------------------------------------------------------------
    // Own channels and settled forwards
    // -----------------------------------------------------------------
    /// Get normal channels (channels in CHANNELD_NORMAL state).
    pub fn normal_channels(&self) -> (r: Vec<Fund>)
        ensures
            r@ == self.normal(),
    {
        select(&self.funds.channels, &NormalOnly)
    }

    /// Get settled forwards by most recent first.
    pub fn settled_forwards(&self) -> (r: Vec<SettledForward>)
        ensures
            r@ == self.settled(),
    {
        let unsorted = project_all(&self.forwards.forwards, &SettledOnly);
        sorted_copy(&unsorted, &NewestFirst)
    }

    /// The settled forwards that `sel` selects.
    pub fn settled_selected(&self, sel: &Selection) -> (r: Vec<SettledForward>)
        ensures
            r@ == self.settled_within(sel.scope()),
    {
        let all = self.settled_forwards();
        proof {
            lemma_selection_scope(all@, *sel);
        }
        select(&all, sel)
    }

    /// How many settled forwards `sel` selects.
    pub fn settled_count(&self, sel: &Selection) -> (r: usize)
        ensures
            r == self.settled_within(sel.scope()).len(),
    {
        let all = self.settled_forwards();
        proof {
            lemma_selection_scope(all@, *sel);
        }
        count_picked(&all, sel)
    }

    /// The fees of the settled forwards that `sel` selects, in sat,
    /// held to what 64 bits can hold.
    pub fn settled_fees(&self, sel: &Selection) -> (r: u64)
        ensures
            r == capped(fee_sum(self.settled_within(sel.scope()))),
    {
        let all = self.settled_forwards();
        proof {
            lemma_selection_scope(all@, *sel);
        }
        total_picked(&all, sel, &FeeSat)
    }

    /// Filter settled forwards to only include those resolved within
    /// the last N hours.
    pub fn filter_settled_forwards_by_hours(&self, hours: i64) -> (r: Vec<SettledForward>)
        ensures
            r@ == self.settled_within(Scope::during(self.now, Window::Hours(hours))),
    {
        self.settled_selected(&Selection::during(self.now, Window::Hours(hours)))
    }

    /// Filter settled forwards to only include those resolved within
    /// the last N days.
    pub fn filter_settled_forwards_by_days(&self, days: i64) -> (r: Vec<SettledForward>)
        ensures
            r@ == self.settled_within(Scope::during(self.now, Window::Days(days))),
    {
        self.settled_selected(&Selection::during(self.now, Window::Days(days)))
    }

    /// Get all settled forwards for a specific channel (both inbound
    /// and outbound).
    pub fn get_channel_forwards(&self, short_channel_id: &str) -> (r: Vec<SettledForward>)
        ensures
            r@ == self.settled_within(
                Scope::on(self.now, short_channel_id@, Side::Either, Window::Ever),
            ),
    {
        self.settled_selected(
            &Selection::on(self.now, short_channel_id, Side::Either, Window::Ever),
        )
    }

    /// Get total number of forwards for a specific channel (both
    /// inbound and outbound).
    pub fn get_channel_total_forwards(&self, short_channel_id: &str) -> (r: usize)
        ensures
            r == self.settled_within(
                Scope::on(self.now, short_channel_id@, Side::Either, Window::Ever),
            ).len(),
    {
        self.settled_count(&Selection::on(self.now, short_channel_id, Side::Either, Window::Ever))
    }

    /// Get total fees earned for a specific channel (from outbound
    /// forwards), in sat.
    pub fn get_channel_total_fees(&self, short_channel_id: &str) -> (r: u64)
        ensures
            r == capped(
                fee_sum(
                    self.settled_within(
                        Scope::on(self.now, short_channel_id@, Side::Outgoing, Window::Ever),
                    ),
                ),
            ),
    {
        self.settled_fees(
            &Selection::on(self.now, short_channel_id, Side::Outgoing, Window::Ever),
        )
    }

    // -----------------------------------------------------------------
    // The history of forwards
    // -----------------------------------------------------------------
    /// The forwards of the history that a scope covers.
    pub open spec fn history_within(&self, scope: ForwardScope) -> Seq<Forward> {
        forwards_within(self.forwards.forwards@, scope)
    }

    /// The forwards received within the last N hours, settled or not.
    pub fn filter_forwards_by_hours(&self, hours: i64) -> (r: Vec<Forward>)
        ensures
            r@ == self.history_within(ForwardScope::during(self.now, Window::Hours(hours))),
    {
        let sel = ForwardSelection::new(self.now, None, Side::Either, Window::Hours(hours), None);
        forwards_selected(&self.forwards.forwards, &sel)
    }

    /// The forwards on a channel, incoming or outgoing, that failed
    /// further along the route.
    pub fn get_channel_failed_forwards(&self, short_channel_id: &str) -> (r: Vec<Forward>)
        ensures
            r@ == self.history_within(
                ForwardScope::on_ended(self.now, short_channel_id@, ForwardStatus::Failed),
            ),
    {
        let sel = ForwardSelection::new(
            self.now,
            Some(short_channel_id),
            Side::Either,
            Window::Ever,
            Some(ForwardStatus::Failed),
        );
        forwards_selected(&self.forwards.forwards, &sel)
    }

    /// The forwards on a channel, incoming or outgoing, that failed at
    /// the local node.
    pub fn get_channel_local_failed_forwards(&self, short_channel_id: &str) -> (r: Vec<Forward>)
        ensures
            r@ == self.history_within(
                ForwardScope::on_ended(self.now, short_channel_id@, ForwardStatus::LocalFailed),
            ),
    {
        let sel = ForwardSelection::new(
            self.now,
            Some(short_channel_id),
            Side::Either,
            Window::Ever,
            Some(ForwardStatus::LocalFailed),
        );
        forwards_selected(&self.forwards.forwards, &sel)
    }

    /// How many forwards received in a window ended as `kind`.
    pub open spec fn ended_count(&self, window: Window, kind: ForwardStatus) -> nat {
        self.history_within(ForwardScope::ended(self.now, window, kind)).len()
    }

    /// How the forwards received in `window` ended; `days` is the
    /// length of the window in days.
    pub fn window_statistics(&self, window: Window, days: u32) -> (r: WindowStatistics)
        ensures
            r.settled == self.ended_count(window, ForwardStatus::Settled),
            r.failed == self.ended_count(window, ForwardStatus::Failed),
            r.local_failed == self.ended_count(window, ForwardStatus::LocalFailed),
            r.all == self.history_within(ForwardScope::during(self.now, window)).len(),
            r.days == days,
    {
        let f = &self.forwards.forwards;
        let settled = forwards_count(
            f,
            &ForwardSelection::new(
                self.now,
                None,
                Side::Either,
                window,
                Some(ForwardStatus::Settled),
            ),
        );
        let failed = forwards_count(
            f,
            &ForwardSelection::new(self.now, None, Side::Either, window, Some(ForwardStatus::Failed)),
        );
        let local_failed = forwards_count(
            f,
            &ForwardSelection::new(
                self.now,
                None,
                Side::Either,
                window,
                Some(ForwardStatus::LocalFailed),
            ),
        );
        let all = forwards_count(
            f,
            &ForwardSelection::new(self.now, None, Side::Either, window, None),
        );
        WindowStatistics { settled, failed, local_failed, all, days }
    }

    /// How the forwards received in the last 24 hours, 7 days and 30
    /// days ended.
    pub fn get_forward_statistics(&self) -> (r: ForwardStatistics)
        ensures
            r.day == self.window_statistics_of(Window::Hours(24), 1),
            r.week == self.window_statistics_of(Window::Days(7), 7),
            r.month == self.window_statistics_of(Window::Days(30), 30),
    {
        ForwardStatistics {
            day: self.window_statistics(Window::Hours(24), 1),
            week: self.window_statistics(Window::Days(7), 7),
            month: self.window_statistics(Window::Days(30), 30),
        }
    }

    /// The statistics of a window.
    pub open spec fn window_statistics_of(&self, window: Window, days: u32) -> WindowStatistics {
        WindowStatistics {
            settled: self.ended_count(window, ForwardStatus::Settled) as usize,
            failed: self.ended_count(window, ForwardStatus::Failed) as usize,
            local_failed: self.ended_count(window, ForwardStatus::LocalFailed) as usize,
            all: self.history_within(ForwardScope::during(self.now, window)).len() as usize,
            days,
        }
    }

    // -----------------------------------------------------------------
    // Yield
    // -----------------------------------------------------------------
    /// Get fees earned in sats for the last N months from settled
    /// forwards; a month counts as 30 days.
    pub fn fees_earned_last_months(&self, months: Months) -> (r: u64)
        ensures
            r == capped(self.fees_earned(months.number())),
    {
        let days: i64 = months.get() as i64 * 30;
        self.settled_fees(&Selection::during(self.now, Window::Days(days)))
    }

    /// Get total channel funds in sats.
    pub fn total_channel_funds_sats(&self) -> (r: u64)
        ensures
            r == capped(self.channel_funds()),
    {
        total_picked(&self.funds.channels, &NormalOnly, &OurSat)
    }

    /// Get total onchain balance in msat.
    pub fn onchain_balance_msat(&self) -> (r: u64)
        ensures
            r == capped(total(self.funds.outputs@, OutputMsat)),
    {
        let all = Everything;
        proof {
            lemma_everything(self.funds.outputs@);
        }
        total_picked(&self.funds.outputs, &all, &OutputMsat)
    }

    /// Calculate projected yearly APY percentage for given time period.
    pub fn calculate_apy_percent(&self, months: Months) -> (r: Ratio)
        ensures
            r == apy_of(
                capped(self.fees_earned(months.number())),
                capped(self.channel_funds()),
                months.number(),
            ),
            r.wf(),
            self.channel_funds() == 0 ==> r.num == 0,
    {
        let fees_earned = self.fees_earned_last_months(months);
        let total_funds = self.total_channel_funds_sats();
        apy_percent(fees_earned, total_funds, months)
    }

    /// Get total amount transacted in sats for the last month.
    pub fn transacted_last_month_sats(&self) -> (r: u64)
        ensures
            r == capped(out_sum(self.settled_within(Scope::during(self.now, Window::Days(30))))),
    {
        let all = self.settled_forwards();
        let sel = Selection::during(self.now, Window::Days(30));
        proof {
            lemma_selection_scope(all@, sel);
        }
        total_picked(&all, &sel, &OutSat)
    }
}

/// Selects every record.
pub struct Everything;

impl<T> Pick<T> for Everything {
    open spec fn picks(&self, item: &T) -> bool {
        true
    }

    fn accepts(&self, item: &T) -> (r: bool) {
        true
    }
}

/// Selecting everything leaves the records as they are.
pub proof fn lemma_everything<T>(items: Seq<T>)
    ensures
        picked(items, Everything) == items,
    decreases items.len(),
{
    reveal(Seq::filter);
    if items.len() > 0 {
        lemma_everything(items.drop_last());
        assert(items.drop_last().push(items.last()) =~= items);
    }
}

} // verus!
