//! Queries of the store on the gossip graph: edges, nodes, aliases and
//! the entries that the datastore holds on them.

use crate::cmd::{Channel, Node, Peer};
use crate::datastore::{PeerNote, SetchannelTime};
use crate::seqs::{
    count_picked, distinct, last_position, picked, project_all, projected, Pick, Project,
};
use crate::store::Store;
use crate::text::{chars_of, distinct_strings, owned, str_eq, string_of, views};
use vstd::prelude::*;
use vstd::string::*;

verus! {

/// At which end of an edge a node is looked for.
#[derive(Debug, Clone, Copy, PartialEq, Eq, Structural)]
pub enum End {
    Source,
    Destination,
    Either,
}

/// Selects the edges that have a node at an end and, where a channel
/// is given, belong to that channel.
pub struct EdgeSelection {
    pub node: String,
    pub end: End,
    pub channel: Option<String>,
}

/// Whether the edge `c` has `node` at the end `end` and belongs to the
/// channel `scid`, where one is given.
pub open spec fn edge_matches(c: &Channel, node: Seq<char>, end: End, scid: Option<Seq<char>>) -> bool {
    &&& match end {
        End::Source => c.source@ == node,
        End::Destination => c.destination@ == node,
        End::Either => c.source@ == node || c.destination@ == node,
    }
    &&& match scid {
        Some(s) => c.short_channel_id@ == s,
        None => true,
    }
}

impl EdgeSelection {
    /// The channel that the selection asks for, if any.
    pub open spec fn scid(&self) -> Option<Seq<char>> {
        match self.channel {
            Some(s) => Some(s@),
            None => None,
        }
    }

    /// The selection of the edges with `node` at `end`.
    pub fn at(node: &str, end: End) -> (r: EdgeSelection)
        ensures
            r.node@ == node@,
            r.end == end,
            r.scid() == None::<Seq<char>>,
    {
        EdgeSelection { node: owned(node), end, channel: None }
    }

    /// The selection of the edge of `scid` that starts at `source`.
    pub fn directed(scid: &str, source: &str) -> (r: EdgeSelection)
        ensures
            r.node@ == source@,
            r.end == End::Source,
            r.scid() == Some(scid@),
    {
        EdgeSelection { node: owned(source), end: End::Source, channel: Some(owned(scid)) }
    }
}

impl Pick<Channel> for EdgeSelection {
    open spec fn picks(&self, item: &Channel) -> bool {
        edge_matches(item, self.node@, self.end, self.scid())
    }

    fn accepts(&self, item: &Channel) -> (r: bool) {
        let at_end = match self.end {
            End::Source => str_eq(item.source.as_str(), self.node.as_str()),
            End::Destination => str_eq(item.destination.as_str(), self.node.as_str()),
            End::Either => str_eq(item.source.as_str(), self.node.as_str()) || str_eq(
                item.destination.as_str(),
                self.node.as_str(),
            ),
        };
        if !at_end {
            return false;
        }
        match &self.channel {
            Some(s) => str_eq(item.short_channel_id.as_str(), s.as_str()),
            None => true,
        }
    }
}

/// The edges that have `node` at `end` and belong to `scid`, where one
/// is given.
pub open spec fn edges_at(edges: Seq<Channel>, node: Seq<char>, end: End, scid: Option<Seq<char>>) -> Seq<
    Channel,
> {
    edges.filter(|c: Channel| edge_matches(&c, node, end, scid))
}

/// What an edge selection picks is `edges_at` of its parts.
pub proof fn lemma_edge_selection(edges: Seq<Channel>, sel: EdgeSelection)
    ensures
        picked(edges, sel) == edges_at(edges, sel.node@, sel.end, sel.scid()),
{
    let node = sel.node@;
    let end = sel.end;
    let scid = sel.scid();
    crate::seqs::lemma_filter_same(
        edges,
        crate::seqs::picker(sel),
        |c: Channel| edge_matches(&c, node, end, scid),
    );
}

/// Selects the nodes that some edge starts or ends at.
pub struct WithChannels<'a> {
    pub edges: &'a Vec<Channel>,
}

impl<'a> Pick<Node> for WithChannels<'a> {
    open spec fn picks(&self, item: &Node) -> bool {
        edges_at(self.edges@, item.nodeid@, End::Either, None).len() > 0
    }

    fn accepts(&self, item: &Node) -> (r: bool) {
        let sel = EdgeSelection::at(item.nodeid.as_str(), End::Either);
        proof {
            lemma_edge_selection(self.edges@, sel);
        }
        count_picked(self.edges, &sel) > 0
    }
}

/// Selects the nodes with a given id that have an alias.
pub struct AliasOf {
    pub id: String,
}

impl Pick<Node> for AliasOf {
    open spec fn picks(&self, item: &Node) -> bool {
        item.nodeid@ == self.id@ && item.alias is Some
    }

    fn accepts(&self, item: &Node) -> (r: bool) {
        str_eq(item.nodeid.as_str(), self.id.as_str()) && item.alias.is_some()
    }
}

/// Selects the notes on a peer.
pub struct NoteOn {
    pub peer: String,
}

impl Pick<PeerNote> for NoteOn {
    open spec fn picks(&self, item: &PeerNote) -> bool {
        item.peer_id@ == self.peer@
    }

    fn accepts(&self, item: &PeerNote) -> (r: bool) {
        str_eq(item.peer_id.as_str(), self.peer.as_str())
    }
}

/// Selects the fee-change times of a channel.
pub struct TimeOf {
    pub scid: String,
}

impl Pick<SetchannelTime> for TimeOf {
    open spec fn picks(&self, item: &SetchannelTime) -> bool {
        item.short_channel_id@ == self.scid@
    }

    fn accepts(&self, item: &SetchannelTime) -> (r: bool) {
        str_eq(item.short_channel_id.as_str(), self.scid.as_str())
    }
}

/// Whether the node has the id `id` and an alias.
pub open spec fn has_alias(n: &Node, id: Seq<char>) -> bool {
    n.nodeid@ == id && n.alias is Some
}

/// Whether the note is on the peer `peer`.
pub open spec fn is_note_on(n: &PeerNote, peer: Seq<char>) -> bool {
    n.peer_id@ == peer
}

/// Whether the entry is of the channel `scid`.
pub open spec fn is_time_of(t: &SetchannelTime, scid: Seq<char>) -> bool {
    t.short_channel_id@ == scid
}

/// The nodes with the id `id` that have an alias.
pub open spec fn aliased(nodes: Seq<Node>, id: Seq<char>) -> Seq<Node> {
    nodes.filter(|n: Node| has_alias(&n, id))
}

/// The notes on the peer `peer`.
pub open spec fn notes_on(notes: Seq<PeerNote>, peer: Seq<char>) -> Seq<PeerNote> {
    notes.filter(|n: PeerNote| is_note_on(&n, peer))
}

/// The fee-change times of the channel `scid`.
pub open spec fn times_of(times: Seq<SetchannelTime>, scid: Seq<char>) -> Seq<SetchannelTime> {
    times.filter(|t: SetchannelTime| is_time_of(&t, scid))
}

/// What an alias selection picks is `aliased` of its id.
pub proof fn lemma_alias_selection(nodes: Seq<Node>, sel: AliasOf)
    ensures
        picked(nodes, sel) == aliased(nodes, sel.id@),
{
    let id = sel.id@;
    crate::seqs::lemma_filter_same(
        nodes,
        crate::seqs::picker(sel),
        |n: Node| has_alias(&n, id),
    );
}

/// What a note selection picks is `notes_on` of its peer.
pub proof fn lemma_note_selection(notes: Seq<PeerNote>, sel: NoteOn)
    ensures
        picked(notes, sel) == notes_on(notes, sel.peer@),
{
    let peer = sel.peer@;
    crate::seqs::lemma_filter_same(
        notes,
        crate::seqs::picker(sel),
        |n: PeerNote| is_note_on(&n, peer),
    );
}

/// What a time selection picks is `times_of` of its channel.
pub proof fn lemma_time_selection(times: Seq<SetchannelTime>, sel: TimeOf)
    ensures
        picked(times, sel) == times_of(times, sel.scid@),
{
    let scid = sel.scid@;
    crate::seqs::lemma_filter_same(
        times,
        crate::seqs::picker(sel),
        |t: SetchannelTime| is_time_of(&t, scid),
    );
}

/// The ids of the nodes that have an alias.
pub struct AliasedIds;

impl Project<Node, String> for AliasedIds {
    open spec fn image(&self, item: &Node) -> Option<String> {
        if item.alias is Some {
            Some(item.nodeid)
        } else {
            None
        }
    }

    fn apply(&self, item: &Node) -> (r: Option<String>) {
        if item.alias.is_some() {
            Some(item.nodeid.clone())
        } else {
            None
        }
    }
}

/// The ids of the peers that have a channel.
pub struct PeerIds;

impl Project<Peer, String> for PeerIds {
    open spec fn image(&self, item: &Peer) -> Option<String> {
        if item.num_channels > 0 {
            Some(item.id)
        } else {
            None
        }
    }

    fn apply(&self, item: &Peer) -> (r: Option<String>) {
        if item.num_channels > 0 {
            Some(item.id.clone())
        } else {
            None
        }
    }
}

/// What stands between the two halves of a shortened node id.
pub open spec fn ellipsis() -> Seq<char> {
    "..."@
}

/// A node id as it is shown where the node has no alias: an id of 66
/// characters shortened to its first and last 8, any other as it is.
pub open spec fn short_id(id: Seq<char>) -> Seq<char> {
    if id.len() == 66 {
        id.take(8) + ellipsis() + id.skip(58)
    } else {
        id
    }
}

/// A node id as it is shown where the node has no alias.
pub fn shorten_id(id: &str) -> (r: String)
    ensures
        r@ == short_id(id@),
{
    let v = chars_of(id);
    if v.len() == 66 {
        let mut head: Vec<char> = Vec::new();
        let mut i: usize = 0;
        while i < 8
            invariant
                i <= 8,
                v@.len() == 66,
                head@ == v@.take(i as int),
            decreases 8 - i,
        {
            head.push(v[i]);
            i += 1;
        }
        let mut tail: Vec<char> = Vec::new();
        let mut j: usize = 58;
        while j < 66
            invariant
                58 <= j <= 66,
                v@.len() == 66,
                tail@ == v@.subrange(58, j as int),
            decreases 66 - j,
        {
            tail.push(v[j]);
            j += 1;
        }
        proof {
            assert(tail@ =~= v@.skip(58));
        }
        let mut out = string_of(&head);
        out.append("...");
        let t = string_of(&tail);
        out.append(t.as_str());
        out
    } else {
        owned(id)
    }
}

impl Store {
    /// The edges of the gossip graph.
    pub open spec fn edges(&self) -> Seq<Channel> {
        self.channels.channels@
    }

    /// The edge of the channel `scid` that starts at `source`: the last
    /// such entry of the gossip document.
    pub open spec fn edge(&self, scid: Seq<char>, source: Seq<char>) -> Option<Channel> {
        let found = edges_at(self.edges(), source, End::Source, Some(scid));
        if found.len() == 0 {
            None
        } else {
            Some(found.last())
        }
    }

    /// The alias of a node: that of the last entry of the nodes
    /// document with this id and an alias, if there is one.
    pub open spec fn alias(&self, id: Seq<char>) -> Option<Seq<char>> {
        let found = aliased(self.nodes.nodes@, id);
        if found.len() == 0 {
            None
        } else {
            Some(found.last().alias->0@)
        }
    }

    /// How a node is shown: by its alias, or by its shortened id.
    pub open spec fn display_name(&self, id: Seq<char>) -> Seq<char> {
        match self.alias(id) {
            Some(a) => a,
            None => short_id(id),
        }
    }

    /// The number of edges of the gossip graph.
    pub fn channels_len(&self) -> (r: usize)
        ensures
            r == self.edges().len(),
    {
        self.channels.channels.len()
    }

    /// The edges of the gossip graph.
    pub fn channels(&self) -> (r: &Vec<Channel>)
        ensures
            r@ == self.edges(),
    {
        &self.channels.channels
    }

    /// The number of peers.
    pub fn peers_len(&self) -> (r: usize)
        ensures
            r == self.peers.peers@.len(),
    {
        self.peers.peers.len()
    }

    /// The peers.
    pub fn peers(&self) -> (r: &Vec<Peer>)
        ensures
            r@ == self.peers.peers@,
    {
        &self.peers.peers
    }

    /// The number of forwards in the history, settled or not.
    pub fn forwards_len(&self) -> (r: usize)
        ensures
            r == self.forwards.forwards@.len(),
    {
        self.forwards.forwards.len()
    }

    /// The number of nodes of the gossip graph.
    pub fn nodes_len(&self) -> (r: usize)
        ensures
            r == self.nodes.nodes@.len(),
    {
        self.nodes.nodes.len()
    }

    /// The nodes of the gossip graph.
    pub fn nodes(&self) -> (r: &Vec<Node>)
        ensures
            r@ == self.nodes.nodes@,
    {
        &self.nodes.nodes
    }

    /// The number of closed channels.
    pub fn closed_channels_len(&self) -> (r: usize)
        ensures
            r == self.closed_channels.closedchannels@.len(),
    {
        self.closed_channels.closedchannels.len()
    }

    /// How many nodes have an edge that starts or ends at them.
    pub fn nodes_with_channels_len(&self) -> (r: usize)
        ensures
            r == picked(self.nodes.nodes@, WithChannels { edges: &self.channels.channels }).len(),
    {
        count_picked(&self.nodes.nodes, &WithChannels { edges: &self.channels.channels })
    }

    /// How many edges start or end at a node.
    pub fn node_total_channels(&self, nodeid: &str) -> (r: usize)
        ensures
            r == edges_at(self.edges(), nodeid@, End::Either, None).len(),
    {
        let sel = EdgeSelection::at(nodeid, End::Either);
        proof {
            lemma_edge_selection(self.edges(), sel);
        }
        count_picked(&self.channels.channels, &sel)
    }

    /// Get a channel by short_channel_id and source.
    pub fn get_channel(&self, short_channel_id: &str, source: &str) -> (r: Option<&Channel>)
        ensures
            r is Some <==> self.edge(short_channel_id@, source@) is Some,
            r matches Some(c) ==> self.edge(short_channel_id@, source@) == Some(*c),
    {
        let sel = EdgeSelection::directed(short_channel_id, source);
        proof {
            lemma_edge_selection(self.edges(), sel);
        }
        match last_position(&self.channels.channels, &sel) {
            Some(i) => Some(&self.channels.channels[i]),
            None => None,
        }
    }

    /// Get the alias for a node ID, or format the ID if no alias exists.
    pub fn get_node_alias(&self, node_id: &str) -> (r: String)
        ensures
            r@ == self.display_name(node_id@),
    {
        let sel = AliasOf { id: owned(node_id) };
        proof {
            lemma_alias_selection(self.nodes.nodes@, sel);
        }
        match last_position(&self.nodes.nodes, &sel) {
            Some(i) => match &self.nodes.nodes[i].alias {
                Some(a) => a.clone(),
                None => shorten_id(node_id),
            },
            None => shorten_id(node_id),
        }
    }

    /// Get node IDs that have aliases, each once, in the order of the
    /// nodes document.
    pub fn node_ids_with_aliases(&self) -> (r: Vec<String>)
        ensures
            views(r@) == distinct(views(projected(self.nodes.nodes@, AliasedIds))),
    {
        let ids = project_all(&self.nodes.nodes, &AliasedIds);
        distinct_strings(&ids)
    }

    /// Get the IDs of the peers that have channels, each once, in the
    /// order of the peers document.
    pub fn peers_ids(&self) -> (r: Vec<String>)
        ensures
            views(r@) == distinct(views(projected(self.peers.peers@, PeerIds))),
    {
        let ids = project_all(&self.peers.peers, &PeerIds);
        distinct_strings(&ids)
    }

    /// The note on a peer: the last one that the datastore holds on it.
    pub open spec fn note_on(&self, peer: Seq<char>) -> Option<String> {
        let found = notes_on(self.peer_notes@, peer);
        if found.len() == 0 {
            None
        } else {
            Some(found.last().note)
        }
    }

    /// When the fees of a channel were last set: the last entry that
    /// the datastore holds on it.
    pub open spec fn fees_set_at(&self, scid: Seq<char>) -> Option<i64> {
        let found = times_of(self.setchannel_timestamps@, scid);
        if found.len() == 0 {
            None
        } else {
            Some(found.last().timestamp)
        }
    }

    /// Get peer note from datastore if it exists.
    pub fn get_peer_note(&self, peer_id: &str) -> (r: Option<&String>)
        ensures
            r is Some <==> self.note_on(peer_id@) is Some,
            r matches Some(n) ==> self.note_on(peer_id@) == Some(*n),
    {
        let sel = NoteOn { peer: owned(peer_id) };
        proof {
            lemma_note_selection(self.peer_notes@, sel);
        }
        match last_position(&self.peer_notes, &sel) {
            Some(i) => Some(&self.peer_notes[i].note),
            None => None,
        }
    }

    /// Get setchannel timestamp from datastore if it exists.
    pub fn get_setchannel_timestamp(&self, short_channel_id: &str) -> (r: Option<i64>)
        ensures
            r == self.fees_set_at(short_channel_id@),
    {
        let sel = TimeOf { scid: owned(short_channel_id) };
        proof {
            lemma_time_selection(self.setchannel_timestamps@, sel);
        }
        match last_position(&self.setchannel_timestamps, &sel) {
            Some(i) => Some(self.setchannel_timestamps[i].timestamp),
            None => None,
        }
    }
}

} // verus!
