//! Closed channels with what the store knows about their peers.

use crate::cmd::{scid_block, ClosedChannel};
use crate::order::{
    arranged, lemma_sort_order, ranks_under, sort_order, sorted_copy, Rank, Ranked, SortKey,
};
use crate::seqs::Duplicate;
use crate::store::Store;
use crate::text::chars_of;
use vstd::prelude::*;
use vstd::string::*;

verus! {

/// Data structure for closed channel with enriched information.
#[derive(Debug, Clone)]
pub struct ClosedChannelInfo<'a> {
    /// Where the record stands in the document of closed channels.
    pub position: usize,
    pub channel: &'a ClosedChannel,
    /// How the peer is shown.
    pub alias: String,
    /// The block in which the channel was opened.
    pub opening_block: Option<u64>,
}

impl<'a> Duplicate for ClosedChannelInfo<'a> {
    fn duplicate(&self) -> (r: ClosedChannelInfo<'a>) {
        ClosedChannelInfo {
            position: self.position,
            channel: self.channel,
            alias: self.alias.clone(),
            opening_block: self.opening_block,
        }
    }
}

/// What the record of a closed channel says.
pub struct Closed {
    pub position: int,
    /// The short channel id as it is shown and sorted by.
    pub scid: Seq<char>,
    pub alias: Seq<char>,
    pub opening_block: Option<u64>,
}

/// How the peer of a closed channel is shown where the record names
/// none.
pub open spec fn unknown_peer() -> Seq<char> {
    "Unknown Peer"@
}

impl<'a> ClosedChannelInfo<'a> {
    /// What the record says.
    pub open spec fn say(&self) -> Closed {
        Closed {
            position: self.position as int,
            scid: self.channel.display_scid(),
            alias: self.alias@,
            opening_block: self.opening_block,
        }
    }
}

/// What each of the records says.
pub open spec fn said(infos: Seq<ClosedChannelInfo>) -> Seq<Closed> {
    Seq::new(infos.len(), |i: int| infos[i].say())
}

/// Ranks closed channels by their short channel id as it is shown.
pub struct ByDisplayScid;

impl<'a> Ranked<ClosedChannelInfo<'a>> for ByDisplayScid {
    open spec fn rank_of(&self, item: &ClosedChannelInfo<'a>) -> Rank {
        Rank { number: 0, text: item.channel.display_scid() }
    }

    fn key(&self, item: &ClosedChannelInfo<'a>) -> (r: SortKey) {
        let shown = item.channel.short_channel_id_display();
        SortKey::of_text(chars_of(shown.as_str()))
    }
}

/// The ranks of closed channels by their short channel id.
pub open spec fn display_ranks(records: Seq<Closed>) -> Seq<Rank> {
    Seq::new(records.len(), |i: int| Rank { number: 0, text: records[i].scid })
}

impl Store {
    /// What the store knows about the closed channel at `position`.
    pub open spec fn closed_record(&self, position: int) -> Closed {
        let c = self.closed_channels.closedchannels@[position];
        Closed {
            position,
            scid: c.display_scid(),
            alias: match c.peer_id {
                Some(p) => self.display_name(p@),
                None => unknown_peer(),
            },
            opening_block: match c.short_channel_id {
                Some(s) => scid_block(s@),
                None => None,
            },
        }
    }

    /// What the store knows about each closed channel, in the order of
    /// the document.
    pub open spec fn closed_records(&self) -> Seq<Closed> {
        Seq::new(
            self.closed_channels.closedchannels@.len(),
            |i: int| self.closed_record(i),
        )
    }

    /// The closed channels in the order of their short channel id as it
    /// is shown; channels with the same id keep their order.
    pub open spec fn closed_sorted(&self) -> Seq<Closed> {
        arranged(self.closed_records(), sort_order(display_ranks(self.closed_records())))
    }

    /// Get closed channels with enriched information (alias), sorted
    /// by short channel id.
    pub fn get_closed_channels_info(&self) -> (r: Vec<ClosedChannelInfo<'_>>)
        ensures
            said(r@) == self.closed_sorted(),
            forall|k: int|
                0 <= k < r@.len() ==> (#[trigger] r@[k]).position
                    < self.closed_channels.closedchannels@.len() && *r@[k].channel
                    == self.closed_channels.closedchannels@[r@[k].position as int],
    {
        let closed = &self.closed_channels.closedchannels;
        let mut infos: Vec<ClosedChannelInfo<'_>> = Vec::new();
        let mut i: usize = 0;
        while i < closed.len()
            invariant
                i <= closed.len(),
                closed@ == self.closed_channels.closedchannels@,
                infos@.len() == i,
                forall|k: int| 0 <= k < i ==> (#[trigger] infos@[k]).say() == self.closed_record(k),
                forall|k: int|
                    0 <= k < i ==> (#[trigger] infos@[k]).position == k && *infos@[k].channel
                        == closed@[k],
            decreases closed.len() - i,
        {
            let channel = &closed[i];
            let alias = match &channel.peer_id {
                Some(peer_id) => self.get_node_alias(peer_id.as_str()),
                None => String::from_str("Unknown Peer"),
            };
            let opening_block = channel.block_born();
            infos.push(ClosedChannelInfo { position: i, channel, alias, opening_block });
            i += 1;
        }
        let sorted = sorted_copy(&infos, &ByDisplayScid);
        proof {
            assert(said(infos@) =~= self.closed_records());
            assert(ranks_under(infos@, ByDisplayScid) =~= display_ranks(said(infos@)));
            lemma_sort_order(ranks_under(infos@, ByDisplayScid));
            assert(said(sorted@) =~= self.closed_sorted());
        }
        sorted
    }
}

} // verus!
