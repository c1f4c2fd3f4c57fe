//! Reduce the largest outgoing HTLC of a channel where our funds are
//! lower than it. This avoids local failures when forwarding HTLCs.

use crate::cmd::{normal_state, ListPeerChannels, PeerChannelBalance};
use crate::fees::{largest_power_of_two_leq, pow2_floor};
use crate::seqs::{project_all, projected, Project};
use crate::text::{concat, decimal, decimal_u64, owned, str_eq, views};
use vstd::prelude::*;
use vstd::string::*;

verus! {

/// A new largest outgoing HTLC for a channel.
#[derive(Debug, Clone)]
pub struct HtlcMax {
    pub short_channel_id: String,
    /// Our funds in the channel, in msat.
    pub to_us_msat: u64,
    /// The limit that the channel has now, in msat.
    pub current_msat: u64,
    /// The limit to set, in msat.
    pub htlc_max_msat: u64,
}

/// The limit to set on a channel that holds `to_us_msat` of ours: the
/// largest power of two within our funds, and at least 1.
pub open spec fn htlc_max_for(to_us_msat: u64) -> nat {
    if pow2_floor(to_us_msat as nat) >= 1 {
        pow2_floor(to_us_msat as nat)
    } else {
        1
    }
}

/// Picks the channels whose limit is adjusted: usable ones with a
/// short channel id that hold funds of ours, but less than their
/// largest outgoing HTLC.
pub struct NeedsAdjustment;

impl Project<PeerChannelBalance, HtlcMax> for NeedsAdjustment {
    open spec fn image(&self, item: &PeerChannelBalance) -> Option<HtlcMax> {
        if item.state@ == normal_state() && item.short_channel_id is Some && item.to_us_msat != 0
            && item.to_us_msat < item.maximum_htlc_out_msat {
            Some(
                HtlcMax {
                    short_channel_id: item.short_channel_id->0,
                    to_us_msat: item.to_us_msat,
                    current_msat: item.maximum_htlc_out_msat,
                    htlc_max_msat: htlc_max_for(item.to_us_msat) as u64,
                },
            )
        } else {
            None
        }
    }

    fn apply(&self, item: &PeerChannelBalance) -> (r: Option<HtlcMax>) {
        if !str_eq(item.state.as_str(), "CHANNELD_NORMAL") {
            return None;
        }
        let scid = match &item.short_channel_id {
            Some(s) => s.clone(),
            None => {
                return None;
            },
        };
        if item.to_us_msat == 0 || item.to_us_msat >= item.maximum_htlc_out_msat {
            return None;
        }
        let floor = largest_power_of_two_leq(item.to_us_msat);
        let htlc_max_msat = if floor >= 1 {
            floor
        } else {
            1
        };
        Some(
            HtlcMax {
                short_channel_id: scid,
                to_us_msat: item.to_us_msat,
                current_msat: item.maximum_htlc_out_msat,
                htlc_max_msat,
            },
        )
    }
}

/// The adjustments of the largest outgoing HTLC that the channels
/// need, in the order of the channels.
pub fn run_htlc(channels: &ListPeerChannels) -> (r: Vec<HtlcMax>)
    ensures
        r@ == projected(channels.channels@, NeedsAdjustment),
{
    project_all(&channels.channels, &NeedsAdjustment)
}

/// The arguments of the command that sets the largest outgoing HTLC
/// of a channel.
pub open spec fn htlc_max_args(scid: Seq<char>, htlc_max: u64) -> Seq<Seq<char>> {
    seq!["setchannel"@, "-k"@, scid, "htlcmax="@ + decimal(htlc_max as nat)]
}

/// The arguments of the command that sets the largest outgoing HTLC
/// of a channel.
pub fn set_channel_htlc_max(short_channel_id: &str, htlc_max: u64) -> (r: Vec<String>)
    ensures
        views(r@) == htlc_max_args(short_channel_id@, htlc_max),
{
    let mut out: Vec<String> = Vec::new();
    out.push(String::from_str("setchannel"));
    out.push(String::from_str("-k"));
    out.push(owned(short_channel_id));
    out.push(concat("htlcmax=", decimal_u64(htlc_max).as_str()));
    proof {
        assert(views(out@) =~= htlc_max_args(short_channel_id@, htlc_max));
    }
    out
}

} // verus!
