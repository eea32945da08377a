//! The nodes and channels of a simulated network, and what happened on it.

use vstd::prelude::*;

use crate::sim::state::{CommState, CommStateType};
use crate::time::Instant;

verus! {

/// How many LEDs a node has.
pub const LEDS_PER_NODE: usize = 100;

/// How long a byte occupies a channel that carries a million bits per second.
pub const NANOS_PER_BYTE: u64 = 8_000;

/// What is going on on a channel.
#[derive(Clone, Copy, PartialEq, Eq, Structural, Debug)]
pub struct ChannelState {
    /// How many messages are on their way.
    pub counter: usize,
    /// Whether messages have collided since the channel was last free.
    pub conflict: bool,
}

#[derive(Clone, Copy, PartialEq, Eq, Structural, Debug)]
pub struct Color {
    pub r: u8,
    pub g: u8,
    pub b: u8,
}

/// What a node is like at some point.
#[derive(Debug)]
pub struct NodeState {
    pub colors: Vec<Color>,
    pub comm_state: CommState,
}

/// What a `NodeState` holds.
pub struct NodeModel {
    pub colors: Seq<Color>,
    pub comm_state: CommState,
}

impl View for NodeState {
    type V = NodeModel;

    open spec fn view(&self) -> NodeModel {
        NodeModel { colors: self.colors@, comm_state: self.comm_state }
    }
}

/// What the network is like at some point.
#[derive(Debug)]
pub struct NetworkSnapshot {
    pub timestamp: Instant,
    pub channels: Vec<ChannelState>,
    pub nodes: Vec<NodeState>,
}

/// What a `NetworkSnapshot` holds.
pub struct SnapshotModel {
    pub timestamp: Instant,
    pub channels: Seq<ChannelState>,
    pub nodes: Seq<NodeModel>,
}

/// What some node states hold.
pub open spec fn node_models(nodes: Seq<NodeState>) -> Seq<NodeModel> {
    Seq::new(nodes.len(), |i: int| nodes[i]@)
}

impl View for NetworkSnapshot {
    type V = SnapshotModel;

    open spec fn view(&self) -> SnapshotModel {
        SnapshotModel {
            timestamp: self.timestamp,
            channels: self.channels@,
            nodes: node_models(self.nodes@),
        }
    }
}

/// What some snapshots hold.
pub open spec fn snapshot_models(snapshots: Seq<NetworkSnapshot>) -> Seq<SnapshotModel> {
    Seq::new(snapshots.len(), |i: int| snapshots[i]@)
}

/// A node and the channels to its neighbours.
#[derive(Debug)]
pub struct NodeInfo {
    pub name: String,
    pub north: Option<usize>,
    pub south: Option<usize>,
    pub east: Option<usize>,
    pub west: Option<usize>,
}

/// What a `NodeInfo` holds.
pub struct NodeInfoModel {
    pub name: Seq<char>,
    pub north: Option<usize>,
    pub south: Option<usize>,
    pub east: Option<usize>,
    pub west: Option<usize>,
}

impl View for NodeInfo {
    type V = NodeInfoModel;

    open spec fn view(&self) -> NodeInfoModel {
        NodeInfoModel {
            name: self.name@,
            north: self.north,
            south: self.south,
            east: self.east,
            west: self.west,
        }
    }
}

/// What some node infos hold.
pub open spec fn node_info_models(nodes: Seq<NodeInfo>) -> Seq<NodeInfoModel> {
    Seq::new(nodes.len(), |i: int| nodes[i]@)
}

/// A channel and who listens to it.
#[derive(Debug)]
pub struct Channel {
    name: String,
    receivers: Vec<usize>,
}

/// What a `Channel` holds.
pub struct ChannelModel {
    pub name: Seq<char>,
    /// The numbers of the receivers.
    pub receivers: Seq<usize>,
}

impl View for Channel {
    type V = ChannelModel;

    closed spec fn view(&self) -> ChannelModel {
        ChannelModel { name: self.name@, receivers: self.receivers@ }
    }
}

/// A simulated network.
pub struct Network {
    pub nodes: Vec<NodeInfo>,
    pub channels: Vec<Channel>,
    /// What the network was like after each change, the first first.
    pub history: Vec<NetworkSnapshot>,
    /// How many receivers have been made.
    pub receiver_count: usize,
}

/// What a `Network` holds.
pub struct NetworkModel {
    pub nodes: Seq<NodeInfoModel>,
    pub channels: Seq<ChannelModel>,
    /// What the network was like after each change, the first first.
    pub history: Seq<SnapshotModel>,
    /// How many receivers have been made.
    pub receiver_count: usize,
}

impl View for Network {
    type V = NetworkModel;

    open spec fn view(&self) -> NetworkModel {
        NetworkModel {
            nodes: node_info_models(self.nodes@),
            channels: Seq::new(self.channels@.len(), |i: int| self.channels@[i]@),
            history: snapshot_models(self.history@),
            receiver_count: self.receiver_count,
        }
    }
}

impl ChannelState {
    /// The channel when one more message is on its way: it collides with any
    /// that is there.
    pub open spec fn begun(self) -> ChannelState {
        ChannelState {
            counter: (self.counter + 1) as usize,
            conflict: self.conflict || self.counter >= 1,
        }
    }

    /// The channel when a message is over. With the last one a collision is, too.
    pub open spec fn ended(self) -> ChannelState {
        ChannelState {
            counter: (self.counter - 1) as usize,
            conflict: self.conflict && self.counter != 1,
        }
    }

    /// A channel on which nothing is going on.
    pub open spec fn free() -> ChannelState {
        ChannelState { counter: 0, conflict: false }
    }
}

impl NodeModel {
    /// A node to begin with: dark, and with nothing to say.
    pub open spec fn initial() -> NodeModel {
        NodeModel {
            colors: Seq::new(LEDS_PER_NODE as nat, |i: int| Color { r: 0, g: 0, b: 0 }),
            comm_state: CommState { seq_num: 0, type_: CommStateType::Nop },
        }
    }
}

impl NetworkModel {
    /// What the network is like now.
    pub open spec fn now(self) -> SnapshotModel {
        self.history.last()
    }

    /// The network with one more snapshot.
    pub open spec fn recorded(self, snapshot: SnapshotModel) -> NetworkModel {
        NetworkModel { history: self.history.push(snapshot), ..self }
    }

    /// The network with another state of a channel.
    pub open spec fn with_channel(
        self,
        channel_id: usize,
        state: ChannelState,
        timestamp: Instant,
    ) -> NetworkModel {
        self.recorded(
            SnapshotModel {
                timestamp,
                channels: self.now().channels.update(channel_id as int, state),
                nodes: self.now().nodes,
            },
        )
    }

    /// The network with another state of a node.
    pub open spec fn with_comm_state(
        self,
        node_id: usize,
        comm_state: CommState,
        timestamp: Instant,
    ) -> NetworkModel {
        let node = self.now().nodes[node_id as int];
        self.recorded(
            SnapshotModel {
                timestamp,
                channels: self.now().channels,
                nodes: self.now().nodes.update(node_id as int, NodeModel { comm_state, ..node }),
            },
        )
    }

    /// The network with one more channel.
    pub open spec fn with_new_channel(self, name: Seq<char>) -> NetworkModel {
        NetworkModel {
            channels: self.channels.push(ChannelModel { name, receivers: Seq::empty() }),
            ..self
        }
    }

    /// The network with one more node.
    pub open spec fn with_new_node(self, node: NodeInfoModel) -> NetworkModel {
        NetworkModel { nodes: self.nodes.push(node), ..self }
    }

    /// The network when nothing has happened on it.
    pub open spec fn initialized(self, timestamp: Instant) -> NetworkModel {
        self.recorded(
            SnapshotModel {
                timestamp,
                channels: Seq::new(self.channels.len(), |i: int| ChannelState::free()),
                nodes: Seq::new(self.nodes.len(), |i: int| NodeModel::initial()),
            },
        )
    }

    /// The network with one more receiver for a channel.
    pub open spec fn with_receiver(self, channel_id: usize) -> NetworkModel {
        let channel = self.channels[channel_id as int];
        NetworkModel {
            channels: self.channels.update(
                channel_id as int,
                ChannelModel { receivers: channel.receivers.push(self.receiver_count), ..channel },
            ),
            receiver_count: (self.receiver_count + 1) as usize,
            ..self
        }
    }

    /// Whether no receiver stands twice, and those to come are new.
    pub open spec fn receivers_are_distinct(self) -> bool {
        &&& forall|c: int, i: int|
            0 <= c < self.channels.len() && 0 <= i < self.channels[c].receivers.len() ==> (
            #[trigger] self.channels[c].receivers[i]) < self.receiver_count
        &&& forall|c: int, i: int, d: int, j: int|
            0 <= c < self.channels.len() && 0 <= i < self.channels[c].receivers.len() && 0 <= d
                < self.channels.len() && 0 <= j < self.channels[d].receivers.len() && (
            #[trigger] self.channels[c].receivers[i]) == (#[trigger] self.channels[d].receivers[j])
                ==> c == d && i == j
    }

    /// The receivers that a message on a channel reaches if it is over now.
    pub open spec fn delivered(self, channel_id: usize) -> Seq<usize> {
        if self.now().channels[channel_id as int].conflict {
            Seq::empty()
        } else {
            self.channels[channel_id as int].receivers
        }
    }

    /// Whether there is a channel with a number, and something is known of it.
    pub open spec fn has_channel(self, channel_id: usize) -> bool {
        &&& self.history.len() > 0
        &&& channel_id < self.channels.len()
        &&& channel_id < self.now().channels.len()
    }
}

impl NodeState {
    /// A node to begin with.
    pub fn new() -> (state: NodeState)
        ensures
            state@ == NodeModel::initial(),
    {
        let mut colors: Vec<Color> = Vec::new();
        let mut i: usize = 0;
        while i < LEDS_PER_NODE
            invariant
                i <= LEDS_PER_NODE,
                colors@ == Seq::new(i as nat, |i: int| Color { r: 0, g: 0, b: 0 }),
            decreases LEDS_PER_NODE - i,
        {
            colors.push(Color { r: 0, g: 0, b: 0 });
            i = i + 1;
            assert(colors@ =~= Seq::new(i as nat, |i: int| Color { r: 0, g: 0, b: 0 }));
        }
        NodeState { colors, comm_state: CommState { seq_num: 0, type_: CommStateType::Nop } }
    }
}

impl Clone for NodeState {
    fn clone(&self) -> (copy: NodeState)
        ensures
            copy@ == self@,
    {
        let mut colors: Vec<Color> = Vec::new();
        let mut i: usize = 0;
        while i < self.colors.len()
            invariant
                i <= self.colors@.len(),
                colors@ == self.colors@.take(i as int),
            decreases self.colors@.len() - i,
        {
            colors.push(self.colors[i]);
            i = i + 1;
            assert(colors@ =~= self.colors@.take(i as int));
        }
        assert(colors@ =~= self.colors@);
        NodeState { colors, comm_state: self.comm_state }
    }
}

fn copy_channels(channels: &Vec<ChannelState>) -> (copy: Vec<ChannelState>)
    ensures
        copy@ == channels@,
{
    let mut copy: Vec<ChannelState> = Vec::new();
    let mut i: usize = 0;
    while i < channels.len()
        invariant
            i <= channels@.len(),
            copy@ == channels@.take(i as int),
        decreases channels@.len() - i,
    {
        copy.push(channels[i]);
        i = i + 1;
        assert(copy@ =~= channels@.take(i as int));
    }
    assert(copy@ =~= channels@);
    copy
}

fn copy_nodes(nodes: &Vec<NodeState>) -> (copy: Vec<NodeState>)
    ensures
        copy@.len() == nodes@.len(),
        node_models(copy@) == node_models(nodes@),
{
    let mut copy: Vec<NodeState> = Vec::new();
    let mut i: usize = 0;
    while i < nodes.len()
        invariant
            i <= nodes@.len(),
            copy@.len() == i,
            forall|j: int| 0 <= j < i ==> (#[trigger] copy@[j])@ == nodes@[j]@,
        decreases nodes@.len() - i,
    {
        copy.push(nodes[i].clone());
        i = i + 1;
    }
    assert(node_models(copy@) =~= node_models(nodes@));
    copy
}

impl Clone for NetworkSnapshot {
    fn clone(&self) -> (copy: NetworkSnapshot)
        ensures
            copy@ == self@,
    {
        NetworkSnapshot {
            timestamp: self.timestamp,
            channels: copy_channels(&self.channels),
            nodes: copy_nodes(&self.nodes),
        }
    }
}

impl NetworkSnapshot {
    /// The channels on which something is going on.
    pub fn busy_channels(&self) -> (busy: Vec<usize>)
        ensures
            forall|i: int|
                0 <= i < busy@.len() ==> (#[trigger] busy@[i]) < self@.channels.len() && (
                self@.channels[busy@[i] as int].counter > 0
                    || self@.channels[busy@[i] as int].conflict),
            forall|c: int|
                0 <= c < self@.channels.len() && ((#[trigger] self@.channels[c]).counter > 0
                    || self@.channels[c].conflict) ==> busy@.contains(c as usize),
            forall|i: int, j: int| 0 <= i < j < busy@.len() ==> busy@[i] < busy@[j],
    {
        let mut busy: Vec<usize> = Vec::new();
        let mut c: usize = 0;
        while c < self.channels.len()
            invariant
                c <= self.channels@.len(),
                forall|i: int|
                    0 <= i < busy@.len() ==> (#[trigger] busy@[i]) < c && (
                    self.channels@[busy@[i] as int].counter > 0
                        || self.channels@[busy@[i] as int].conflict),
                forall|d: int|
                    0 <= d < c && ((#[trigger] self.channels@[d]).counter > 0
                        || self.channels@[d].conflict) ==> busy@.contains(d as usize),
                forall|i: int, j: int| 0 <= i < j < busy@.len() ==> busy@[i] < busy@[j],
            decreases self.channels@.len() - c,
        {
            let ghost before = busy@;
            if self.channels[c].counter > 0 || self.channels[c].conflict {
                busy.push(c);
                proof {
                    assert forall|d: int|
                        0 <= d < c + 1 && ((#[trigger] self.channels@[d]).counter > 0
                            || self.channels@[d].conflict) implies busy@.contains(d as usize) by {
                        if d < c {
                            let k = choose|k: int| 0 <= k < before.len() && before[k] == d as usize;
                            assert(before.contains(d as usize));
                            assert(busy@[k] == d as usize);
                        } else {
                            assert(busy@[before.len() as int] == d as usize);
                        }
                    }
                }
            }
            c = c + 1;
        }
        busy
    }
}

impl Clone for NodeInfo {
    fn clone(&self) -> (copy: NodeInfo)
        ensures
            copy@ == self@,
    {
        NodeInfo {
            name: self.name.clone(),
            north: self.north,
            south: self.south,
            east: self.east,
            west: self.west,
        }
    }
}

impl NodeInfoModel {
    /// The channels to the north, south, east and west.
    pub open spec fn links(self) -> Seq<Option<usize>> {
        seq![self.north, self.south, self.east, self.west]
    }
}

/// The channels that exist.
pub open spec fn present(links: Seq<Option<usize>>) -> Seq<usize>
    decreases links.len(),
{
    if links.len() == 0 {
        Seq::empty()
    } else {
        match links.last() {
            Some(channel_id) => present(links.drop_last()).push(channel_id),
            None => present(links.drop_last()),
        }
    }
}

/// What goes out over the channels that exist, one message for each direction.
pub open spec fn addressed(links: Seq<Option<usize>>, messages: Seq<Seq<u8>>) -> Seq<
    (usize, Seq<u8>),
>
    decreases links.len(),
{
    if links.len() == 0 {
        Seq::empty()
    } else {
        match links.last() {
            Some(channel_id) => addressed(links.drop_last(), messages).push(
                (channel_id, messages[links.len() - 1]),
            ),
            None => addressed(links.drop_last(), messages),
        }
    }
}

impl NodeInfo {
    fn links(&self) -> (links: [Option<usize>; 4])
        ensures
            links@ == self@.links(),
    {
        let links = [self.north, self.south, self.east, self.west];
        assert(links@ =~= self@.links());
        links
    }

    /// The channels over which a message to all neighbours goes.
    pub fn send_all(&self) -> (channel_ids: Vec<usize>)
        ensures
            channel_ids@ == present(self@.links()),
    {
        let links = self.links();
        let mut channel_ids: Vec<usize> = Vec::new();
        let mut i: usize = 0;
        assert(links@.take(0) =~= Seq::<Option<usize>>::empty());
        while i < 4
            invariant
                i <= 4,
                links@.len() == 4,
                channel_ids@ == present(links@.take(i as int)),
            decreases 4 - i,
        {
            assert(links@.take(i + 1).drop_last() =~= links@.take(i as int));
            if let Some(channel_id) = links[i] {
                channel_ids.push(channel_id);
            }
            i = i + 1;
        }
        assert(links@.take(4) =~= links@);
        channel_ids
    }

    /// The channels over which messages to the north, south, east and west go,
    /// each with its message.
    pub fn send_directional(&self, messages: [Vec<u8>; 4]) -> (sends: Vec<(usize, Vec<u8>)>)
        ensures
            ({
                let expected = addressed(
                    self@.links(),
                    Seq::new(4, |i: int| messages@[i]@),
                );
                &&& sends@.len() == expected.len()
                &&& forall|i: int|
                    0 <= i < sends@.len() ==> ((#[trigger] sends@[i]).0, sends@[i].1@)
                        == expected[i]
            }),
    {
        let links = self.links();
        let ghost contents = Seq::new(4, |i: int| messages@[i]@);
        let mut sends: Vec<(usize, Vec<u8>)> = Vec::new();
        let mut i: usize = 0;
        assert(links@.take(0) =~= Seq::<Option<usize>>::empty());
        while i < 4
            invariant
                i <= 4,
                links@.len() == 4,
                messages@.len() == 4,
                contents == Seq::new(4, |i: int| messages@[i]@),
                sends@.len() == addressed(links@.take(i as int), contents).len(),
                forall|j: int|
                    0 <= j < sends@.len() ==> ((#[trigger] sends@[j]).0, sends@[j].1@) == addressed(
                        links@.take(i as int),
                        contents,
                    )[j],
            decreases 4 - i,
        {
            assert(links@.take(i + 1).drop_last() =~= links@.take(i as int));
            if let Some(channel_id) = links[i] {
                let mut message: Vec<u8> = Vec::new();
                message.extend_from_slice(messages[i].as_slice());
                assert(message@ =~= contents[i as int]);
                sends.push((channel_id, message));
            }
            i = i + 1;
        }
        assert(links@.take(4) =~= links@);
        sends
    }
}

/// How long a message occupies a channel, in nanoseconds.
pub open spec fn message_time(len: int) -> int {
    len * NANOS_PER_BYTE
}

/// How long a message occupies a channel, in nanoseconds.
pub fn message_nanos(len: usize) -> (nanos: u64)
    requires
        len * NANOS_PER_BYTE <= u64::MAX,
    ensures
        nanos == message_time(len as int),
        nanos == len * NANOS_PER_BYTE,
        nanos == 8_000 * len,
{
    len as u64 * NANOS_PER_BYTE
}

impl Network {
    /// A network without nodes.
    pub fn new() -> (network: Network)
        ensures
            network@ == (NetworkModel {
                nodes: Seq::empty(),
                channels: Seq::empty(),
                history: Seq::empty(),
                receiver_count: 0,
            }),
    {
        let network = Network {
            nodes: Vec::new(),
            channels: Vec::new(),
            history: Vec::new(),
            receiver_count: 0,
        };
        assert(network@.nodes =~= Seq::<NodeInfoModel>::empty());
        assert(network@.channels =~= Seq::<ChannelModel>::empty());
        assert(network@.history =~= Seq::<SnapshotModel>::empty());
        network
    }

    /// What is going on on the channels now.
    pub fn current_channel_state(&self) -> (channels: &[ChannelState])
        requires
            self@.history.len() > 0,
        ensures
            channels@ == self@.now().channels,
    {
        self.history[self.history.len() - 1].channels.as_slice()
    }

    /// What the nodes are like now.
    pub fn current_node_state(&self) -> (nodes: &[NodeState])
        requires
            self@.history.len() > 0,
        ensures
            node_models(nodes@) == self@.now().nodes,
    {
        self.history[self.history.len() - 1].nodes.as_slice()
    }

    /// Create initial snapshot with all nodes and channels in default state
    pub fn initialize_state(&mut self, timestamp: Instant)
        ensures
            final(self)@ == old(self)@.initialized(timestamp),
            final(self)@ == old(self)@.recorded(
                SnapshotModel {
                    timestamp,
                    channels: Seq::new(old(self)@.channels.len(), |i: int| ChannelState::free()),
                    nodes: Seq::new(old(self)@.nodes.len(), |i: int| NodeModel::initial()),
                },
            ),
    {
        let mut channels: Vec<ChannelState> = Vec::new();
        while channels.len() < self.channels.len()
            invariant
                channels@.len() <= self.channels@.len(),
                channels@ == Seq::new(channels@.len(), |i: int| ChannelState::free()),
                self@ == old(self)@,
            decreases self.channels@.len() - channels@.len(),
        {
            channels.push(ChannelState { counter: 0, conflict: false });
            assert(channels@ =~= Seq::new(channels@.len(), |i: int| ChannelState::free()));
        }
        let mut nodes: Vec<NodeState> = Vec::new();
        while nodes.len() < self.nodes.len()
            invariant
                nodes@.len() <= self.nodes@.len(),
                node_models(nodes@) == Seq::new(nodes@.len(), |i: int| NodeModel::initial()),
                self@ == old(self)@,
            decreases self.nodes@.len() - nodes@.len(),
        {
            let ghost before = nodes@;
            nodes.push(NodeState::new());
            proof {
                assert(node_models(nodes@) =~= node_models(before).push(NodeModel::initial()));
                assert(node_models(nodes@) =~= Seq::new(
                    nodes@.len(),
                    |i: int| NodeModel::initial(),
                ));
            }
        }
        self.record(NetworkSnapshot { timestamp, channels, nodes });
    }

    fn record(&mut self, snapshot: NetworkSnapshot)
        ensures
            final(self)@ == old(self)@.recorded(snapshot@),
    {
        self.history.push(snapshot);
        assert(self@.history =~= old(self)@.history.push(snapshot@));
        assert(self@.nodes =~= old(self)@.nodes);
        assert(self@.channels =~= old(self)@.channels);
    }

    fn set_channel(&mut self, channel_id: usize, state: ChannelState, timestamp: Instant)
        requires
            old(self)@.has_channel(channel_id),
        ensures
            final(self)@ == old(self)@.with_channel(channel_id, state, timestamp),
    {
        let last = &self.history[self.history.len() - 1];
        let mut channels = copy_channels(&last.channels);
        let nodes = copy_nodes(&last.nodes);
        channels[channel_id] = state;
        self.record(NetworkSnapshot { timestamp, channels, nodes });
    }

    /// Gives a node another state.
    pub fn set_comm_state(&mut self, node_id: usize, comm_state: CommState, timestamp: Instant)
        requires
            old(self)@.history.len() > 0,
            node_id < old(self)@.now().nodes.len(),
        ensures
            final(self)@ == old(self)@.with_comm_state(node_id, comm_state, timestamp),
    {
        let last = &self.history[self.history.len() - 1];
        let channels = copy_channels(&last.channels);
        let mut nodes = copy_nodes(&last.nodes);
        let ghost before = nodes@;
        let mut node = nodes[node_id].clone();
        node.comm_state = comm_state;
        nodes[node_id] = node;
        assert(node_models(nodes@) =~= node_models(before).update(node_id as int, node@));
        self.record(NetworkSnapshot { timestamp, channels, nodes });
    }

    /// What the network was like after each change.
    pub fn get_history(&self) -> (history: &[NetworkSnapshot])
        ensures
            snapshot_models(history@) == self@.history,
    {
        self.history.as_slice()
    }

    /// How many changes there were.
    pub fn history_size(&self) -> (size: usize)
        ensures
            size == self@.history.len(),
    {
        self.history.len()
    }

    /// Adds a channel and returns its number.
    pub fn add_channel(&mut self, name: String) -> (id: usize)
        ensures
            id == old(self)@.channels.len(),
            final(self)@ == old(self)@.with_new_channel(name@),
            final(self)@ == (NetworkModel {
                channels: old(self)@.channels.push(
                    ChannelModel { name: name@, receivers: Seq::empty() },
                ),
                ..old(self)@
            }),
    {
        let id: usize = self.channels.len();
        let channel = Channel { name, receivers: Vec::new() };
        assert(channel@.receivers =~= Seq::<usize>::empty());
        self.channels.push(channel);
        assert(self@.channels =~= old(self)@.channels.push(
            ChannelModel { name: name@, receivers: Seq::empty() },
        ));
        assert(self@.nodes =~= old(self)@.nodes);
        id
    }

    /// Adds a node and returns its number.
    pub fn add_node(
        &mut self,
        name: String,
        north: Option<usize>,
        south: Option<usize>,
        east: Option<usize>,
        west: Option<usize>,
    ) -> (id: usize)
        ensures
            id == old(self)@.nodes.len(),
            final(self)@ == old(self)@.with_new_node(
                NodeInfoModel { name: name@, north, south, east, west },
            ),
            final(self)@ == (NetworkModel {
                nodes: old(self)@.nodes.push(
                    NodeInfoModel { name: name@, north, south, east, west },
                ),
                ..old(self)@
            }),
    {
        let id: usize = self.nodes.len();
        self.nodes.push(NodeInfo { name, north, south, east, west });
        assert(self@.nodes =~= old(self)@.nodes.push(
            NodeInfoModel { name: name@, north, south, east, west },
        ));
        assert(self@.channels =~= old(self)@.channels);
        id
    }

    /// The name of a channel.
    pub fn channel_name(&self, channel_id: usize) -> (name: &String)
        requires
            channel_id < self@.channels.len(),
        ensures
            name@ == self@.channels[channel_id as int].name,
    {
        &self.channels[channel_id].name
    }

    /// Makes a receiver for a channel and returns its number.
    pub fn create_receiver(&mut self, channel_id: usize) -> (receiver: usize)
        requires
            channel_id < old(self)@.channels.len(),
            old(self)@.receiver_count < usize::MAX,
        ensures
            receiver == old(self)@.receiver_count,
            final(self)@ == old(self)@.with_receiver(channel_id),
    {
        let receiver: usize = self.receiver_count;
        self.channels[channel_id].receivers.push(receiver);
        self.receiver_count = receiver + 1;
        assert(self@.nodes =~= old(self)@.nodes);
        proof {
            let channel = old(self)@.channels[channel_id as int];
            assert(self@.channels =~= old(self)@.channels.update(
                channel_id as int,
                ChannelModel { receivers: channel.receivers.push(receiver), ..channel },
            ));
        }
        receiver
    }

    /// Puts a message on a channel.
    pub fn begin_transmission(&mut self, channel_id: usize, timestamp: Instant)
        requires
            old(self)@.has_channel(channel_id),
            old(self)@.now().channels[channel_id as int].counter < usize::MAX,
        ensures
            final(self)@ == old(self)@.with_channel(
                channel_id,
                old(self)@.now().channels[channel_id as int].begun(),
                timestamp,
            ),
    {
        // If counter >= 1, set conflict flag, then increment counter
        let mut state = self.current_channel_state()[channel_id];
        if state.counter >= 1 {
            state.conflict = true;
        }
        state.counter = state.counter + 1;
        self.set_channel(channel_id, state, timestamp);
    }

    /// Takes a message off a channel.
    pub fn decrement_channel_counter(&mut self, channel_id: usize, timestamp: Instant)
        requires
            old(self)@.has_channel(channel_id),
            old(self)@.now().channels[channel_id as int].counter > 0,
        ensures
            final(self)@ == old(self)@.with_channel(
                channel_id,
                old(self)@.now().channels[channel_id as int].ended(),
                timestamp,
            ),
    {
        let mut state = self.current_channel_state()[channel_id];
        state.counter = state.counter - 1;
        if state.counter == 0 {
            state.conflict = false;
        }
        self.set_channel(channel_id, state, timestamp);
    }

    /// The receivers that a message on a channel reaches when it is over: all
    /// of them, or none if it collided with another one.
    pub fn deliveries(&self, channel_id: usize) -> (receivers: Vec<usize>)
        requires
            self@.has_channel(channel_id),
        ensures
            receivers@ == self@.delivered(channel_id),
    {
        let mut receivers: Vec<usize> = Vec::new();
        if !self.current_channel_state()[channel_id].conflict {
            receivers.extend_from_slice(self.channels[channel_id].receivers.as_slice());
            assert(receivers@ =~= self@.channels[channel_id as int].receivers);
        }
        receivers
    }
}

impl ChannelState {
    /// What holds of every channel: without messages there is no collision.
    pub open spec fn inv(self) -> bool {
        self.counter == 0 ==> !self.conflict
    }
}

/// However messages come and go, a channel without messages is free.
pub proof fn law_free_channel_has_no_conflict(s: ChannelState)
    requires
        s.inv(),
    ensures
        s.counter < usize::MAX ==> s.begun().inv(),
        s.counter > 0 ==> s.ended().inv(),
        s.counter == 0 ==> s == ChannelState::free(),
{
}

/// A message that is alone on a channel does not collide, and leaves the
/// channel as it was.
pub proof fn law_lone_message_gets_through()
    ensures
        !ChannelState::free().begun().conflict,
        ChannelState::free().begun().ended() == ChannelState::free(),
{
}

/// Of messages that overlap none gets through: the collision lasts until the
/// last of them is over, and then the channel is free.
pub proof fn law_overlapping_messages_are_lost(s: ChannelState)
    requires
        s.inv(),
        1 <= s.counter < usize::MAX,
    ensures
        s.begun().conflict,
        s.begun().ended().conflict <==> s.counter >= 1,
        s.conflict && s.counter >= 2 ==> s.ended().conflict,
        s.counter == 1 ==> s.ended() == ChannelState::free(),
{
}

/// A change on one channel leaves the other channels and all nodes alone, and
/// what was recorded before stays.
pub proof fn law_history_is_kept(
    m: NetworkModel,
    channel_id: usize,
    other: int,
    state: ChannelState,
    timestamp: Instant,
    i: int,
)
    requires
        m.has_channel(channel_id),
        0 <= other < m.now().channels.len(),
        other != channel_id,
        0 <= i < m.history.len(),
    ensures
        m.with_channel(channel_id, state, timestamp).history.len() == m.history.len() + 1,
        m.with_channel(channel_id, state, timestamp).history[i] == m.history[i],
        m.with_channel(channel_id, state, timestamp).now().nodes == m.now().nodes,
        m.with_channel(channel_id, state, timestamp).now().channels[other]
            == m.now().channels[other],
        m.with_channel(channel_id, state, timestamp).now().channels[channel_id as int] == state,
{
}

/// Directional messages go over the same channels, and in the same order, as a
/// message to all neighbours.
pub proof fn law_messages_reach_every_neighbour(
    links: Seq<Option<usize>>,
    messages: Seq<Seq<u8>>,
)
    ensures
        addressed(links, messages).len() == present(links).len(),
        forall|i: int|
            0 <= i < present(links).len() ==> (#[trigger] addressed(links, messages)[i]).0
                == present(links)[i],
    decreases links.len(),
{
    if links.len() > 0 {
        law_messages_reach_every_neighbour(links.drop_last(), messages);
    }
}

/// A new receiver is a new one: none listens twice.
pub proof fn law_receivers_stay_distinct(m: NetworkModel, channel_id: usize)
    requires
        m.receivers_are_distinct(),
        channel_id < m.channels.len(),
        m.receiver_count < usize::MAX,
    ensures
        m.with_receiver(channel_id).receivers_are_distinct(),
{
    let after = m.with_receiver(channel_id);
    assert forall|c: int, i: int|
        0 <= c < after.channels.len() && 0 <= i < after.channels[c].receivers.len() implies (
    #[trigger] after.channels[c].receivers[i]) < after.receiver_count by {
        if i < m.channels[c].receivers.len() {
            assert(after.channels[c].receivers[i] == m.channels[c].receivers[i]);
        }
    }
    assert forall|c: int, i: int, d: int, j: int|
        0 <= c < after.channels.len() && 0 <= i < after.channels[c].receivers.len() && 0 <= d
            < after.channels.len() && 0 <= j < after.channels[d].receivers.len() && (
        #[trigger] after.channels[c].receivers[i]) == (
        #[trigger] after.channels[d].receivers[j]) implies c == d && i == j by {
        if i < m.channels[c].receivers.len() {
            assert(after.channels[c].receivers[i] == m.channels[c].receivers[i]);
        }
        if j < m.channels[d].receivers.len() {
            assert(after.channels[d].receivers[j] == m.channels[d].receivers[j]);
        }
    }
}

/// Something that happens on a channel.
pub enum ChannelEvent {
    /// A message is put on it.
    Begin,
    /// A message is taken off it.
    End,
}

/// Something that happens in a network, and when.
pub enum NetworkEvent {
    Channel { channel_id: usize, event: ChannelEvent, timestamp: Instant },
    Node { node_id: usize, comm_state: CommState, timestamp: Instant },
}

/// How many messages some events put on a channel.
pub open spec fn begin_count(events: Seq<ChannelEvent>) -> int
    decreases events.len(),
{
    if events.len() == 0 {
        0
    } else {
        begin_count(events.drop_last()) + if events.last() is Begin {
            1int
        } else {
            0
        }
    }
}

/// How many messages some events take off a channel.
pub open spec fn end_count(events: Seq<ChannelEvent>) -> int {
    events.len() - begin_count(events)
}

/// What of some events concerns a channel.
pub open spec fn on_channel(events: Seq<NetworkEvent>, channel_id: usize) -> Seq<ChannelEvent>
    decreases events.len(),
{
    if events.len() == 0 {
        Seq::empty()
    } else {
        let earlier = on_channel(events.drop_last(), channel_id);
        match events.last() {
            NetworkEvent::Channel { channel_id: id, event, .. } => if id == channel_id {
                earlier.push(event)
            } else {
                earlier
            },
            NetworkEvent::Node { .. } => earlier,
        }
    }
}

impl ChannelState {
    /// The channel after some events.
    pub open spec fn ran(self, events: Seq<ChannelEvent>) -> ChannelState
        decreases events.len(),
    {
        if events.len() == 0 {
            self
        } else {
            let before = self.ran(events.drop_last());
            match events.last() {
                ChannelEvent::Begin => before.begun(),
                ChannelEvent::End => before.ended(),
            }
        }
    }

    /// Whether some events can happen while a message that was put on the
    /// channel in this state is on its way: others begin and end, and none ends
    /// that did not begin.
    pub open spec fn admits(self, events: Seq<ChannelEvent>) -> bool {
        &&& self.counter + 1 + events.len() <= usize::MAX
        &&& forall|i: int|
            0 <= i <= events.len() ==> end_count(#[trigger] events.take(i)) <= self.counter
                + begin_count(events.take(i))
    }
}

impl NetworkModel {
    /// Whether some events happen on channels and nodes that exist.
    pub open spec fn admits(self, events: Seq<NetworkEvent>) -> bool {
        forall|i: int|
            0 <= i < events.len() ==> match #[trigger] events[i] {
                NetworkEvent::Channel { channel_id, .. } => channel_id < self.now().channels.len(),
                NetworkEvent::Node { node_id, .. } => node_id < self.now().nodes.len(),
            }
    }

    /// The network after some events.
    pub open spec fn ran(self, events: Seq<NetworkEvent>) -> NetworkModel
        decreases events.len(),
    {
        if events.len() == 0 {
            self
        } else {
            let before = self.ran(events.drop_last());
            match events.last() {
                NetworkEvent::Channel { channel_id, event, timestamp } => before.with_channel(
                    channel_id,
                    match event {
                        ChannelEvent::Begin => before.now().channels[channel_id as int].begun(),
                        ChannelEvent::End => before.now().channels[channel_id as int].ended(),
                    },
                    timestamp,
                ),
                NetworkEvent::Node { node_id, comm_state, timestamp } => before.with_comm_state(
                    node_id,
                    comm_state,
                    timestamp,
                ),
            }
        }
    }
}

proof fn lemma_channel_ran(s: ChannelState, events: Seq<ChannelEvent>)
    requires
        s.inv(),
        s.admits(events),
    ensures
        0 <= begin_count(events) <= events.len(),
        ({
            let end = s.begun().ran(events);
            &&& end.counter == s.counter + 1 + begin_count(events) - end_count(events)
            &&& end.counter >= 1
            &&& end.conflict <==> s.counter >= 1 || begin_count(events) >= 1
        }),
    decreases events.len(),
{
    assert(events.take(events.len() as int) =~= events);
    if events.len() > 0 {
        let earlier = events.drop_last();
        assert forall|i: int| 0 <= i <= earlier.len() implies end_count(#[trigger] earlier.take(i))
            <= s.counter + begin_count(earlier.take(i)) by {
            assert(earlier.take(i) =~= events.take(i));
        }
        lemma_channel_ran(s, earlier);
    }
}

proof fn lemma_network_ran(m: NetworkModel, events: Seq<NetworkEvent>, channel_id: usize)
    requires
        m.has_channel(channel_id),
        m.admits(events),
    ensures
        m.ran(events).channels == m.channels,
        m.ran(events).history.len() > 0,
        m.ran(events).now().channels.len() == m.now().channels.len(),
        m.ran(events).now().channels[channel_id as int] == m.now().channels[channel_id as int].ran(
            on_channel(events, channel_id),
        ),
    decreases events.len(),
{
    if events.len() > 0 {
        assert forall|i: int| 0 <= i < events.drop_last().len() implies match
            #[trigger] events.drop_last()[i] {
            NetworkEvent::Channel { channel_id, .. } => channel_id < m.now().channels.len(),
            NetworkEvent::Node { node_id, .. } => node_id < m.now().nodes.len(),
        } by {
            assert(events.drop_last()[i] == events[i]);
        }
        lemma_network_ran(m, events.drop_last(), channel_id);
        let earlier = on_channel(events.drop_last(), channel_id);
        match events[events.len() - 1] {
            NetworkEvent::Channel { channel_id: id, event, .. } => {
                if id == channel_id {
                    assert(earlier.push(event).drop_last() =~= earlier);
                }
            },
            NetworkEvent::Node { .. } => {},
        }
    } else {
        assert(on_channel(events, channel_id) =~= Seq::<ChannelEvent>::empty());
    }
}

/// Whatever else happens in the network, a message gets through exactly if no
/// other was on its channel when it began and none began before it is over:
/// it then reaches each receiver of the channel. In between, what is counted on
/// the channel are this message and the others that are on their way, so a
/// collision is never seen on a channel without messages, and the end of the
/// message takes back what its beginning added.
pub proof fn law_message_gets_through_alone(
    m: NetworkModel,
    channel_id: usize,
    timestamp: Instant,
    events: Seq<NetworkEvent>,
)
    requires
        m.has_channel(channel_id),
        m.admits(events),
        m.now().channels[channel_id as int].inv(),
        m.now().channels[channel_id as int].admits(on_channel(events, channel_id)),
    ensures
        ({
            let before = m.now().channels[channel_id as int];
            let others = on_channel(events, channel_id);
            let end = m.with_channel(channel_id, before.begun(), timestamp).ran(events);
            let state = end.now().channels[channel_id as int];
            let alone = before.counter == 0 && begin_count(others) == 0;
            &&& alone ==> end.delivered(channel_id) == m.channels[channel_id as int].receivers
            &&& !alone ==> end.delivered(channel_id) == Seq::<usize>::empty()
            &&& state.counter == before.counter + 1 + begin_count(others) - end_count(others)
            &&& state.counter >= 1
            &&& state.ended().counter == before.counter + begin_count(others) - end_count(others)
            &&& state.ended().inv()
        }),
{
    let before = m.now().channels[channel_id as int];
    let begun = m.with_channel(channel_id, before.begun(), timestamp);
    lemma_network_ran(begun, events, channel_id);
    lemma_channel_ran(before, on_channel(events, channel_id));
}

/// A message that begins is counted, and collides exactly with others that are
/// there. One that ends is no longer counted, and with the last one a collision
/// is over.
pub proof fn law_channel_counts_its_messages(s: ChannelState)
    ensures
        s.counter < usize::MAX ==> s.begun().counter == s.counter + 1,
        s.begun().conflict <==> s.conflict || s.counter >= 1,
        s.counter > 0 ==> s.ended().counter == s.counter - 1,
        s.counter > 1 ==> s.ended().conflict == s.conflict,
        s.counter == 1 ==> !s.ended().conflict,
        ChannelState::free().counter == 0,
        !ChannelState::free().conflict,
{
}

/// A message that is over reaches every receiver of its channel, or none where
/// there was a collision.
pub proof fn law_collision_reaches_nobody(m: NetworkModel, channel_id: usize)
    ensures
        m.now().channels[channel_id as int].conflict ==> m.delivered(channel_id) == Seq::<
            usize,
        >::empty(),
        !m.now().channels[channel_id as int].conflict ==> m.delivered(channel_id)
            == m.channels[channel_id as int].receivers,
{
}

/// Every change is recorded behind those before it, with its time. A change of a
/// node's state leaves its colors, the other nodes and all channels alone.
pub proof fn law_node_changes_alone(
    m: NetworkModel,
    node_id: usize,
    other: int,
    comm_state: CommState,
    timestamp: Instant,
)
    requires
        m.history.len() > 0,
        node_id < m.now().nodes.len(),
        0 <= other < m.now().nodes.len(),
        other != node_id,
    ensures
        ({
            let after = m.with_comm_state(node_id, comm_state, timestamp);
            &&& after.history.drop_last() == m.history
            &&& after.now().timestamp == timestamp
            &&& after.now().channels == m.now().channels
            &&& after.now().nodes.len() == m.now().nodes.len()
            &&& after.now().nodes[other] == m.now().nodes[other]
            &&& after.now().nodes[node_id as int].comm_state == comm_state
            &&& after.now().nodes[node_id as int].colors == m.now().nodes[node_id as int].colors
            &&& after.nodes == m.nodes
            &&& after.channels == m.channels
            &&& after.receiver_count == m.receiver_count
        }),
{
    assert(m.with_comm_state(node_id, comm_state, timestamp).history.drop_last() =~= m.history);
}

/// A change on a channel is recorded with its time, and nothing but the state of
/// the channel changes.
pub proof fn law_channel_changes_alone(
    m: NetworkModel,
    channel_id: usize,
    other: int,
    state: ChannelState,
    timestamp: Instant,
)
    requires
        m.history.len() > 0,
        channel_id < m.now().channels.len(),
        0 <= other < m.now().channels.len(),
        other != channel_id,
    ensures
        ({
            let after = m.with_channel(channel_id, state, timestamp);
            &&& after.history.drop_last() == m.history
            &&& after.now().timestamp == timestamp
            &&& after.now().nodes == m.now().nodes
            &&& after.now().channels.len() == m.now().channels.len()
            &&& after.now().channels[other] == m.now().channels[other]
            &&& after.now().channels[channel_id as int] == state
            &&& after.nodes == m.nodes
            &&& after.channels == m.channels
            &&& after.receiver_count == m.receiver_count
        }),
{
    assert(m.with_channel(channel_id, state, timestamp).history.drop_last() =~= m.history);
}

/// A receiver is added behind those that a channel has, under a number of its own.
pub proof fn law_receiver_is_added(m: NetworkModel, channel_id: usize, other: int)
    requires
        channel_id < m.channels.len(),
        0 <= other < m.channels.len(),
        other != channel_id,
        m.receiver_count < usize::MAX,
    ensures
        ({
            let after = m.with_receiver(channel_id);
            &&& after.channels[channel_id as int].receivers
                == m.channels[channel_id as int].receivers + seq![m.receiver_count]
            &&& after.channels[channel_id as int].name == m.channels[channel_id as int].name
            &&& after.channels[other] == m.channels[other]
            &&& after.receiver_count == m.receiver_count + 1
            &&& after.nodes == m.nodes
            &&& after.history == m.history
        }),
{
    assert(m.with_receiver(channel_id).channels[channel_id as int].receivers
        =~= m.channels[channel_id as int].receivers + seq![m.receiver_count]);
}

/// A node begins dark, with a hundred LEDs and nothing to say.
pub proof fn law_nodes_begin_dark(i: int)
    requires
        0 <= i < 100,
    ensures
        NodeModel::initial().colors.len() == 100,
        NodeModel::initial().colors[i] == (Color { r: 0, g: 0, b: 0 }),
        NodeModel::initial().comm_state.seq_num == 0,
        NANOS_PER_BYTE == 8_000,
{
}

/// A message to all neighbours goes over every channel that there is, and over no
/// other, and of messages for the four directions each goes over the channel of
/// its own.
pub proof fn law_every_direction_gets_its_message(
    links: Seq<Option<usize>>,
    messages: Seq<Seq<u8>>,
    d: int,
)
    requires
        0 <= d < links.len(),
    ensures
        links[d] is Some ==> present(links).contains(links[d]->0),
        links[d] is Some ==> addressed(links, messages).contains((links[d]->0, messages[d])),
        forall|i: int|
            0 <= i < addressed(links, messages).len() ==> exists|e: int|
                0 <= e < links.len() && #[trigger] links[e] == Some(
                    (#[trigger] addressed(links, messages)[i]).0,
                ) && messages[e] == addressed(links, messages)[i].1,
    decreases links.len(),
{
    let last = links.len() - 1;
    let earlier = links.drop_last();
    let before = addressed(earlier, messages);
    let all = addressed(links, messages);
    if d < last {
        law_every_direction_gets_its_message(earlier, messages, d);
        assert(earlier[d] == links[d]);
        if links[d] is Some {
            let k = choose|k: int| 0 <= k < present(earlier).len() && present(earlier)[k]
                == links[d]->0;
            assert(present(links)[k] == links[d]->0);
            let j = choose|j: int| 0 <= j < before.len() && before[j] == (links[d]->0, messages[d]);
            assert(all[j] == (links[d]->0, messages[d]));
        }
    } else {
        if last > 0 {
            law_every_direction_gets_its_message(earlier, messages, 0);
        } else {
            assert(before =~= Seq::<(usize, Seq<u8>)>::empty());
        }
        if links[d] is Some {
            assert(present(links)[present(links).len() - 1] == links[d]->0);
            assert(all[all.len() - 1] == (links[d]->0, messages[d]));
        }
    }
    assert forall|i: int| 0 <= i < all.len() implies exists|e: int|
        0 <= e < links.len() && #[trigger] links[e] == Some((#[trigger] all[i]).0) && messages[e]
            == all[i].1 by {
        if i < before.len() {
            assert(all[i] == before[i]);
            let e = choose|e: int|
                0 <= e < earlier.len() && #[trigger] earlier[e] == Some(before[i].0) && messages[e]
                    == before[i].1;
            assert(links[e] == earlier[e]);
        } else {
            assert(links[last] == Some(all[i].0));
        }
    }
}

/// Two messages one behind the other take as long as one that is as long as both,
/// and a byte takes eight microseconds.
pub proof fn law_messages_take_time(a: int, b: int)
    ensures
        message_time(a + b) == message_time(a) + message_time(b),
        message_time(1) == 8_000,
{
    assert((a + b) * NANOS_PER_BYTE == a * NANOS_PER_BYTE + b * NANOS_PER_BYTE)
        by (nonlinear_arith);
}

/// Channels and nodes are added behind those that are there, which stay as they
/// are, and a network begins with all channels free and all nodes dark.
pub proof fn law_network_grows(
    m: NetworkModel,
    name: Seq<char>,
    node: NodeInfoModel,
    timestamp: Instant,
    c: int,
    n: int,
)
    requires
        0 <= c < m.channels.len(),
        0 <= n < m.nodes.len(),
    ensures
        m.with_new_channel(name).channels.drop_last() == m.channels,
        m.with_new_channel(name).channels.last().name == name,
        m.with_new_channel(name).channels.last().receivers == Seq::<usize>::empty(),
        m.with_new_channel(name).nodes == m.nodes,
        m.with_new_channel(name).history == m.history,
        m.with_new_node(node).nodes.drop_last() == m.nodes,
        m.with_new_node(node).nodes.last() == node,
        m.with_new_node(node).channels == m.channels,
        m.with_new_node(node).history == m.history,
        m.initialized(timestamp).history.drop_last() == m.history,
        m.initialized(timestamp).now().timestamp == timestamp,
        m.initialized(timestamp).now().channels.len() == m.channels.len(),
        m.initialized(timestamp).now().channels[c].counter == 0,
        !m.initialized(timestamp).now().channels[c].conflict,
        m.initialized(timestamp).now().nodes.len() == m.nodes.len(),
        m.initialized(timestamp).now().nodes[n] == NodeModel::initial(),
        m.initialized(timestamp).nodes == m.nodes,
        m.initialized(timestamp).channels == m.channels,
{
    assert(m.with_new_channel(name).channels.drop_last() =~= m.channels);
    assert(m.with_new_node(node).nodes.drop_last() =~= m.nodes);
    assert(m.initialized(timestamp).history.drop_last() =~= m.history);
}

/// The directions of a node are north, south, east and west, in this order.
pub proof fn law_directions_stand_in_order(node: NodeInfoModel)
    ensures
        node.links().len() == 4,
        node.links()[0] == node.north,
        node.links()[1] == node.south,
        node.links()[2] == node.east,
        node.links()[3] == node.west,
{
}

} // verus!
