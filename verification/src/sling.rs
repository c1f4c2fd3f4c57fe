//! Rebalance planner: searches the empty channels and plans to pull
//! sats into them from the candidates, the channels that are nearly
//! full and cheap.

use crate::cmd::{Fund, Side};
use crate::common::{candidates_to_json, json_list};
use crate::order::{
    arranged, lemma_sort_order, ranks_under, sort_order, sorted_by, sorted_copy, Rank, Ranked,
    SortKey,
};
use crate::seqs::{project_all, projected, Duplicate, Project};
use crate::store::{Scope, Store};
use crate::text::{chars_of, concat, decimal, decimal_u64, lex_le, views};
use crate::time::Window;
use vstd::prelude::*;
use vstd::string::*;

verus! {

/// A candidate charges less than this, in ppm.
pub const SOURCE_PPM_MAX: u64 = 300;

/// Amount of one rebalancing, in sat.
pub const AMOUNT: u64 = 100000;

/// A channel with fewer settled forwards than this counts as new.
pub const ESTABLISHED_FORWARDS: u64 = 20;

/// The share of its own fee rate, above that of a candidate, that an
/// established channel pays at most: one in so many.
pub const FEE_SHARE: u64 = 3;

/// A `sling-once` pull for one channel.
#[derive(Debug, Clone)]
pub struct SlingOnce {
    pub scid: String,
    /// The channels to pull from, as a JSON array of their ids.
    pub candidates: String,
    pub maxppm: u64,
    /// The amount to move, in sat.
    pub amount: u64,
}

/// What a pull says: its channel, its candidates as a JSON array, its
/// cost limit and its amount.
pub struct Pull {
    pub scid: Seq<char>,
    pub candidates: Seq<char>,
    pub maxppm: u64,
    pub amount: u64,
}

impl SlingOnce {
    /// What the pull says.
    pub open spec fn say(&self) -> Pull {
        Pull {
            scid: self.scid@,
            candidates: self.candidates@,
            maxppm: self.maxppm,
            amount: self.amount,
        }
    }
}

/// What each of the pulls says.
pub open spec fn said(pulls: Seq<SlingOnce>) -> Seq<Pull> {
    Seq::new(pulls.len(), |i: int| pulls[i].say())
}

impl Duplicate for SlingOnce {
    fn duplicate(&self) -> (r: SlingOnce) {
        SlingOnce {
            scid: self.scid.clone(),
            candidates: self.candidates.clone(),
            maxppm: self.maxppm,
            amount: self.amount,
        }
    }
}

/// The most that a pull into a channel may cost, in ppm: what the
/// channel charges above a candidate's rate, divided by a factor that
/// is larger for a channel with few forwards; 0 for a channel that
/// charges less than a candidate.
pub open spec fn max_ppm_for(my_ppm: u64, forwards: nat) -> nat {
    let factor = (if forwards >= ESTABLISHED_FORWARDS {
        0
    } else {
        ESTABLISHED_FORWARDS - forwards
    }) + FEE_SHARE;
    if my_ppm >= SOURCE_PPM_MAX {
        ((my_ppm - SOURCE_PPM_MAX) / factor) as nat
    } else {
        0
    }
}

/// The most that a pull into a channel may cost, in ppm.
pub fn max_ppm(my_ppm: u64, forwards: usize) -> (r: u64)
    ensures
        r == max_ppm_for(my_ppm, forwards as nat),
{
    let known: u64 = if forwards >= 20 {
        20
    } else {
        forwards as u64
    };
    let factor: u64 = (ESTABLISHED_FORWARDS - known) + FEE_SHARE;
    if my_ppm >= SOURCE_PPM_MAX {
        (my_ppm - SOURCE_PPM_MAX) / factor
    } else {
        0
    }
}

/// Picks the candidates among the own channels: those whose edge from
/// the local node charges less than `SOURCE_PPM_MAX` and that hold
/// more than 7/10 of their capacity on our side.
pub struct Candidates<'a> {
    pub store: &'a Store,
}

impl<'a> Project<Fund, String> for Candidates<'a> {
    open spec fn image(&self, item: &Fund) -> Option<String> {
        match item.short_channel_id {
            Some(s) => match self.store.edge(s@, self.store.info.id@) {
                Some(e) => if e.fee_per_millionth < SOURCE_PPM_MAX && item.balance_above(7, 10) {
                    Some(s)
                } else {
                    None
                },
                None => None,
            },
            None => None,
        }
    }

    fn apply(&self, item: &Fund) -> (r: Option<String>) {
        match &item.short_channel_id {
            Some(s) => match self.store.get_channel(s.as_str(), self.store.info.id.as_str()) {
                Some(e) => if e.fee_per_millionth < SOURCE_PPM_MAX && item.is_balance_above(7, 10) {
                    Some(s.clone())
                } else {
                    None
                },
                None => None,
            },
            None => None,
        }
    }
}

/// Picks the channels to pull into, those that hold less than 1/10 of
/// their capacity on our side and have an edge from the local node,
/// and plans the pull for each.
pub struct PullTargets<'a> {
    pub store: &'a Store,
    /// The candidates, as a JSON array of their ids.
    pub candidates: String,
}

/// The pull into the channel `item`, if it is one to pull into, with
/// the given candidates.
pub open spec fn pull_into(store: &Store, candidates: Seq<char>, item: &Fund) -> Option<Pull> {
    match item.short_channel_id {
        Some(s) => match store.edge(s@, store.info.id@) {
            Some(e) => if item.balance_below(1, 10) {
                Some(
                    Pull {
                        scid: s@,
                        candidates,
                        maxppm: max_ppm_for(
                            e.fee_per_millionth,
                            store.settled_within(
                                Scope::on(store.now, s@, Side::Either, Window::Ever),
                            ).len(),
                        ) as u64,
                        amount: AMOUNT,
                    },
                )
            } else {
                None
            },
            None => None,
        },
        None => None,
    }
}

impl<'a> Project<Fund, SlingOnce> for PullTargets<'a> {
    open spec fn image(&self, item: &Fund) -> Option<SlingOnce> {
        match item.short_channel_id {
            Some(s) => match self.store.edge(s@, self.store.info.id@) {
                Some(e) => if item.balance_below(1, 10) {
                    Some(
                        SlingOnce {
                            scid: s,
                            candidates: self.candidates,
                            maxppm: max_ppm_for(
                                e.fee_per_millionth,
                                self.store.settled_within(
                                    Scope::on(self.store.now, s@, Side::Either, Window::Ever),
                                ).len(),
                            ) as u64,
                            amount: AMOUNT,
                        },
                    )
                } else {
                    None
                },
                None => None,
            },
            None => None,
        }
    }

    fn apply(&self, item: &Fund) -> (r: Option<SlingOnce>) {
        match &item.short_channel_id {
            Some(s) => match self.store.get_channel(s.as_str(), self.store.info.id.as_str()) {
                Some(e) => if item.is_balance_below(1, 10) {
                    let forwards = self.store.get_channel_total_forwards(s.as_str());
                    Some(
                        SlingOnce {
                            scid: s.clone(),
                            candidates: self.candidates.clone(),
                            maxppm: max_ppm(e.fee_per_millionth, forwards),
                            amount: AMOUNT,
                        },
                    )
                } else {
                    None
                },
                None => None,
            },
            None => None,
        }
    }
}

/// Ranks pulls by the short channel id of their channel.
pub struct ByScid;

impl Ranked<SlingOnce> for ByScid {
    open spec fn rank_of(&self, item: &SlingOnce) -> Rank {
        Rank { number: 0, text: item.scid@ }
    }

    fn key(&self, item: &SlingOnce) -> (r: SortKey) {
        SortKey::of_text(chars_of(item.scid.as_str()))
    }
}

/// Computes candidates for sling rebalancing.
///
/// Sling's `outppm` parameter filters candidates by ppm but not by
/// balance, so the list of candidates is computed here and handed to
/// sling: the channels with a fee rate under `SOURCE_PPM_MAX` and more
/// than 7/10 of their capacity on our side.
pub fn compute_candidates(store: &Store, channels: &Vec<Fund>) -> (r: Vec<String>)
    ensures
        r@ == projected(channels@, Candidates { store }),
{
    project_all(channels, &Candidates { store })
}

/// The ranks of pulls by the short channel id of their channel.
pub open spec fn scid_ranks(pulls: Seq<Pull>) -> Seq<Rank> {
    Seq::new(pulls.len(), |i: int| Rank { number: 0, text: pulls[i].scid })
}

/// The pulls into the channels of `funds`, in their order.
pub open spec fn pulls_into(store: &Store, candidates: Seq<char>, funds: Seq<Fund>) -> Seq<Pull> {
    funds.filter_map(|f: Fund| pull_into(store, candidates, &f))
}

/// The plan of the store: nothing without candidates; else one pull
/// for each usable channel that holds less than 1/10 on our side,
/// ordered by short channel id.
pub open spec fn sling_plan(store: &Store) -> Seq<Pull> {
    let candidates = projected(store.normal(), Candidates { store });
    if candidates.len() == 0 {
        Seq::empty()
    } else {
        let pulls = pulls_into(store, json_list(views(candidates)), store.normal());
        arranged(pulls, sort_order(scid_ranks(pulls)))
    }
}

/// What the planned pulls say is what `pulls_into` gives.
pub proof fn lemma_targets_said(targets: PullTargets, funds: Seq<Fund>)
    ensures
        said(projected(funds, targets)) == pulls_into(targets.store, targets.candidates@, funds),
    decreases funds.len(),
{
    let store = targets.store;
    let c = targets.candidates@;
    if funds.len() == 0 {
        assert(said(projected(funds, targets)) =~= pulls_into(store, c, funds));
    } else {
        let rest = funds.drop_last();
        lemma_targets_said(targets, rest);
        assert(said(projected(funds, targets)) =~= pulls_into(store, c, funds));
    }
}

/// What sorted pulls say is what the pulls say, in the order of their
/// channels.
pub proof fn lemma_sorted_said(pulls: Seq<SlingOnce>)
    requires
        pulls.len() <= usize::MAX,
    ensures
        said(sorted_by(pulls, ByScid)) == arranged(said(pulls), sort_order(scid_ranks(said(pulls)))),
{
    assert(ranks_under(pulls, ByScid) =~= scid_ranks(said(pulls)));
    lemma_sort_order(ranks_under(pulls, ByScid));
    assert(said(sorted_by(pulls, ByScid)) =~= arranged(
        said(pulls),
        sort_order(scid_ranks(said(pulls))),
    ));
}

/// We search empty channels and plan to pull sats into them from a
/// list of candidates that are nearly full and cheap.
pub fn run_sling(store: &Store) -> (r: Vec<SlingOnce>)
    ensures
        said(r@) == sling_plan(store),
        forall|i: int, j: int|
            #![trigger r@[i], r@[j]]
            0 <= i < j < r@.len() ==> lex_le(r@[i].scid@, r@[j].scid@),
{
    let channels = store.normal_channels();
    let candidates = compute_candidates(store, &channels);
    if candidates.len() == 0 {
        let none: Vec<SlingOnce> = Vec::new();
        proof {
            assert(said(none@) =~= sling_plan(store));
        }
        return none;
    }
    let targets = PullTargets { store, candidates: candidates_to_json(&candidates) };
    let pulls = project_all(&channels, &targets);
    let sorted = sorted_copy(&pulls, &ByScid);
    proof {
        lemma_targets_said(targets, channels@);
        lemma_sorted_said(pulls@);
        crate::order::lemma_sorted_by(pulls@, ByScid);
        assert forall|i: int, j: int|
            #![trigger sorted@[i], sorted@[j]]
            0 <= i < j < sorted@.len() implies lex_le(sorted@[i].scid@, sorted@[j].scid@) by {
            assert(ByScid.rank_of(&sorted@[i]).le(&ByScid.rank_of(&sorted@[j])));
        }
    }
    sorted
}

/// Planning twice on an unchanged store plans the same pulls in the
/// same order, and hands the same arguments to the command line.
pub proof fn lemma_plan_repeatable(store: &Store, first: Seq<SlingOnce>, second: Seq<SlingOnce>)
    requires
        said(first) == sling_plan(store),
        said(second) == sling_plan(store),
    ensures
        first.len() == second.len(),
        forall|i: int|
            0 <= i < first.len() ==> (#[trigger] first[i]).say() == second[i].say()
                && first[i].arguments() == second[i].arguments(),
{
    assert(said(first).len() == first.len());
    assert(said(second).len() == second.len());
    assert forall|i: int| 0 <= i < first.len() implies (#[trigger] first[i]).say()
        == second[i].say() && first[i].arguments() == second[i].arguments() by {
        assert(said(first)[i] == first[i].say());
        assert(said(second)[i] == second[i].say());
    }
}

impl SlingOnce {
    /// The arguments of the command.
    pub open spec fn arguments(&self) -> Seq<Seq<char>> {
        seq![
            "sling-once"@,
            "-k"@,
            "scid="@ + self.scid@,
            "direction=pull"@,
            "candidates="@ + self.candidates@,
            "maxppm="@ + decimal(self.maxppm as nat),
            "amount="@ + decimal(self.amount as nat),
            "onceamount="@ + decimal(self.amount as nat),
        ]
    }

    /// The arguments of the command, to hand to the node's command
    /// line one by one.
    pub fn args(&self) -> (r: Vec<String>)
        ensures
            views(r@) == self.arguments(),
    {
        let mut out: Vec<String> = Vec::new();
        out.push(String::from_str("sling-once"));
        out.push(String::from_str("-k"));
        out.push(concat("scid=", self.scid.as_str()));
        out.push(String::from_str("direction=pull"));
        out.push(concat("candidates=", self.candidates.as_str()));
        out.push(concat("maxppm=", decimal_u64(self.maxppm).as_str()));
        out.push(concat("amount=", decimal_u64(self.amount).as_str()));
        out.push(concat("onceamount=", decimal_u64(self.amount).as_str()));
        proof {
            assert(views(out@) =~= self.arguments());
        }
        out
    }
}

} // verus!
