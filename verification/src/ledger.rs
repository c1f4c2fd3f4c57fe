//! How the forwards and the fees of the channels add up.

use crate::cmd::{SettledForward, Side};
use crate::seqs::{distinct, lemma_distinct, lemma_filter_split, lemma_total_kept};
use crate::store::{fee_sum, within, FeeSat, Scope, Store};
use crate::time::Window;
use vstd::prelude::*;

verus! {

/// Whether the forward came in and went out on the same channel `scid`.
pub open spec fn loops_on(f: SettledForward, scid: Seq<char>) -> bool {
    f.in_channel@ == scid && f.out_channel@ == scid
}

/// In every window, the settled forwards on a channel are as many as
/// those that came in on it and those that went out on it together,
/// as long as no forward of the window did both.
pub proof fn lemma_forwards_in_and_out(store: &Store, scid: Seq<char>, window: Window)
    requires
        forall|i: int|
            0 <= i < store.settled().len() && window.admits(
                store.now,
                (#[trigger] store.settled()[i]).resolved_time,
            ) ==> !loops_on(store.settled()[i], scid),
    ensures
        store.settled_within(Scope::on(store.now, scid, Side::Either, window)).len()
            == store.settled_within(Scope::on(store.now, scid, Side::Incoming, window)).len()
            + store.settled_within(Scope::on(store.now, scid, Side::Outgoing, window)).len(),
{
    let s = store.settled();
    let either = Scope::on(store.now, scid, Side::Either, window);
    let came = Scope::on(store.now, scid, Side::Incoming, window);
    let went = Scope::on(store.now, scid, Side::Outgoing, window);
    assert forall|i: int| 0 <= i < s.len() implies (either.admits(&#[trigger] s[i]) == (
    came.admits(&s[i]) || went.admits(&s[i]))) && !(came.admits(&s[i]) && went.admits(&s[i])) by {
        if window.admits(store.now, s[i].resolved_time) {
            assert(!loops_on(s[i], scid));
        }
    }
    lemma_filter_split(
        s,
        FeeSat,
        |f: SettledForward| came.admits(&f),
        |f: SettledForward| went.admits(&f),
        |f: SettledForward| either.admits(&f),
    );
}

/// The short channel ids of the own channels, in the order of the
/// funds document.
pub open spec fn own_scids(store: &Store) -> Seq<Seq<char>> {
    Seq::new(store.funds.channels@.len(), |i: int| store.funds.channels@[i].scid())
}

/// The fees of the forwards of `s` that went out on the channels
/// `ids`, channel by channel, in sat.
pub open spec fn fees_by_channel(s: Seq<SettledForward>, now: i64, ids: Seq<Seq<char>>) -> nat
    decreases ids.len(),
{
    if ids.len() == 0 {
        0
    } else {
        fees_by_channel(s, now, ids.drop_last()) + fee_sum(
            within(s, Scope::on(now, ids.last(), Side::Outgoing, Window::Ever)),
        )
    }
}

/// Whether the forward went out on one of the channels `ids`.
pub open spec fn went_out_among(f: SettledForward, ids: Seq<Seq<char>>) -> bool {
    ids.contains(f.out_channel@)
}

/// The fees of distinct channels, channel by channel, are the fees of
/// the forwards that went out on one of them.
proof fn lemma_fees_by_channel(s: Seq<SettledForward>, now: i64, ids: Seq<Seq<char>>)
    requires
        ids.no_duplicates(),
    ensures
        fees_by_channel(s, now, ids) == fee_sum(
            s.filter(|f: SettledForward| went_out_among(f, ids)),
        ),
    decreases ids.len(),
{
    if ids.len() == 0 {
        reveal(Seq::filter);
        assert forall|i: int| 0 <= i < s.len() implies !went_out_among(#[trigger] s[i], ids) by {}
        lemma_none_kept(s, ids);
    } else {
        let rest = ids.drop_last();
        let id = ids.last();
        let went = Scope::on(now, id, Side::Outgoing, Window::Ever);
        lemma_fees_by_channel(s, now, rest);
        assert forall|i: int| 0 <= i < s.len() implies (went_out_among(#[trigger] s[i], ids) == (
        went_out_among(s[i], rest) || went.admits(&s[i]))) && !(went_out_among(s[i], rest)
            && went.admits(&s[i])) by {
            let k = s[i].out_channel@;
            if rest.contains(k) {
                let j = choose|j: int| 0 <= j < rest.len() && rest[j] == k;
                assert(ids[j] == k);
                assert(ids[ids.len() - 1] == id);
                assert(k != id);
            }
            if k == id {
                assert(ids[ids.len() - 1] == k);
            }
            if ids.contains(k) && k != id {
                let j = choose|j: int| 0 <= j < ids.len() && ids[j] == k;
                assert(rest[j] == k);
            }
        }
        lemma_filter_split(
            s,
            FeeSat,
            |f: SettledForward| went_out_among(f, rest),
            |f: SettledForward| went.admits(&f),
            |f: SettledForward| went_out_among(f, ids),
        );
    }
}

/// No forward went out on one of no channels.
proof fn lemma_none_kept(s: Seq<SettledForward>, ids: Seq<Seq<char>>)
    requires
        ids.len() == 0,
    ensures
        s.filter(|f: SettledForward| went_out_among(f, ids)).len() == 0,
    decreases s.len(),
{
    reveal(Seq::filter);
    if s.len() > 0 {
        lemma_none_kept(s.drop_last(), ids);
    }
}

/// The fees of all settled forwards are the fees of the own channels,
/// channel by channel, as long as every forward that earned a fee went
/// out on an own channel. Channels without forwards add nothing.
pub proof fn lemma_fees_add_up(store: &Store)
    requires
        forall|i: int|
            0 <= i < store.settled().len() && (#[trigger] store.settled()[i]).fee_sat > 0
                ==> own_scids(store).contains(store.settled()[i].out_channel@),
    ensures
        fee_sum(store.settled()) == fees_by_channel(
            store.settled(),
            store.now,
            distinct(own_scids(store)),
        ),
{
    let s = store.settled();
    let ids = distinct(own_scids(store));
    lemma_distinct(own_scids(store));
    lemma_fees_by_channel(s, store.now, ids);
    lemma_total_kept(s, FeeSat, |f: SettledForward| went_out_among(f, ids));
}

} // verus!
