//! The LightningNetwork.Plus swap listing: the records of its API and
//! the addresses to ask.

use crate::text::concat;
use vstd::prelude::*;
use vstd::string::*;

verus! {

/// Swap status filter for API queries.
#[derive(Debug, Clone, Copy, PartialEq, Eq, Structural)]
pub enum SwapStatus {
    Pending,
    Opening,
    Completed,
}

/// The address under which the API answers.
pub open spec fn api_base() -> Seq<char> {
    "https://lightningnetwork.plus/api/2"@
}

impl SwapStatus {
    /// The status as the API names it.
    pub open spec fn name(&self) -> Seq<char> {
        match self {
            SwapStatus::Pending => "pending"@,
            SwapStatus::Opening => "opening"@,
            SwapStatus::Completed => "completed"@,
        }
    }

    /// The status as the API names it.
    pub fn as_str(&self) -> (r: &'static str)
        ensures
            r@ == self.name(),
    {
        match self {
            SwapStatus::Pending => "pending",
            SwapStatus::Opening => "opening",
            SwapStatus::Completed => "completed",
        }
    }
}

/// The address that lists the swaps, all of them or those of one
/// status.
pub open spec fn swaps_address(status: Option<SwapStatus>) -> Seq<char> {
    match status {
        Some(s) => api_base() + "/get_swaps/status="@ + s.name(),
        None => api_base() + "/get_swaps"@,
    }
}

/// The address that lists the swaps.
pub fn swaps_url(status: Option<SwapStatus>) -> (r: String)
    ensures
        r@ == swaps_address(status),
{
    match status {
        Some(s) => {
            let mut out = concat("https://lightningnetwork.plus/api/2", "/get_swaps/status=");
            out.append(s.as_str());
            out
        },
        None => concat("https://lightningnetwork.plus/api/2", "/get_swaps"),
    }
}

/// The address that hands out the message to sign.
pub fn message_url() -> (r: String)
    ensures
        r@ == api_base() + "/get_message"@,
{
    concat("https://lightningnetwork.plus/api/2", "/get_message")
}

/// What authenticates the node to the API: the message that the API
/// handed out and the node's signature of it.
#[derive(Debug, Clone)]
pub struct LnPlusClient {
    message: String,
    signature: String,
}

impl LnPlusClient {
    /// The message that was signed.
    pub closed spec fn signed_message(&self) -> Seq<char> {
        self.message@
    }

    /// The signature of the message.
    pub closed spec fn proof_of_identity(&self) -> Seq<char> {
        self.signature@
    }

    /// A client that holds a message and the node's signature of it.
    pub fn new(message: String, signature: String) -> (r: LnPlusClient)
        ensures
            r.signed_message() == message@,
            r.proof_of_identity() == signature@,
    {
        LnPlusClient { message, signature }
    }

    /// The message that was signed.
    pub fn message(&self) -> (r: &String)
        ensures
            r@ == self.signed_message(),
    {
        &self.message
    }

    /// The signature of the message.
    pub fn signature(&self) -> (r: &String)
        ensures
            r@ == self.proof_of_identity(),
    {
        &self.signature
    }
}

/// A liquidity swap.
#[derive(Debug, Clone)]
pub struct Swap {
    pub id: u64,
    pub web_url: String,
    pub image_url: Option<String>,
    pub created_by_pubkey: Option<String>,
    pub created_at: String,
    pub updated_at: String,
    pub starts: Option<String>,
    pub ends: Option<String>,
    pub status: String,
    pub humanized_status: Option<String>,
    pub capacity_sats: u64,
    pub duration_months: u64,
    pub participant_max_count: u64,
    pub rating_received: Option<String>,
    pub rating_given: Option<String>,
    pub participant_applied_count: u64,
    pub participant_waiting_for_count: u64,
    pub participant_min_capacity_sats: Option<u64>,
    pub participant_min_channels_count: Option<u64>,
    pub clearnet_connection_allowed: Option<bool>,
    pub tor_connection_allowed: Option<bool>,
    pub description: Option<String>,
    pub prime: Option<bool>,
    pub pro: Option<bool>,
    pub private: Option<bool>,
    pub platform: Option<String>,
    pub comments_count: Option<u64>,
    pub participants: Vec<Participant>,
}

/// A participant in a swap.
#[derive(Debug, Clone)]
pub struct Participant {
    pub pubkey: String,
    pub alias: Option<String>,
    pub lnplus_rank_number: Option<u64>,
    pub lnplus_rank_name: Option<String>,
    pub contribution_status: Option<String>,
    pub channel_open_status: Option<String>,
    pub channel_point_to: Option<String>,
    pub channel_point_from: Option<String>,
}

} // verus!
