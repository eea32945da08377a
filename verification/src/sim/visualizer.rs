//! What a viewer of a recorded network shows.

use vstd::prelude::*;

use crate::sim::grid::{grid, grid_node, horizontal_id, vertical_id};
use crate::sim::network::{
    snapshot_models, ChannelState, Color, NetworkSnapshot, NodeInfo, NodeInfoModel, SnapshotModel,
};
use crate::time::Instant;

verus! {

/// How many LEDs of a node are shown.
pub const MAX_LEDS: usize = 20;

/// What is shown.
pub struct VisualizerData {
    pub snapshots: Vec<NetworkSnapshot>,
    pub nodes: Vec<NodeInfo>,
    pub grid_rows: usize,
    pub grid_cols: usize,
}

/// What a `VisualizerData` holds.
pub struct DataModel {
    pub snapshots: Seq<SnapshotModel>,
    pub nodes: Seq<NodeInfoModel>,
    pub grid_rows: usize,
    pub grid_cols: usize,
}

impl View for VisualizerData {
    type V = DataModel;

    open spec fn view(&self) -> DataModel {
        DataModel {
            snapshots: snapshot_models(self.snapshots@),
            nodes: Seq::new(self.nodes@.len(), |i: int| self.nodes@[i]@),
            grid_rows: self.grid_rows,
            grid_cols: self.grid_cols,
        }
    }
}

/// A channel as a line from one node to another, each given by row and column.
#[derive(Clone, Copy, PartialEq, Eq, Debug)]
pub struct ChannelEdge {
    pub channel_id: usize,
    pub start: (usize, usize),
    pub end: (usize, usize),
}

/// A viewer.
pub struct Visualizer {
    data: VisualizerData,
    current_snapshot_index: usize,
}

/// What a `Visualizer` holds.
pub struct VisualizerModel {
    pub data: DataModel,
    pub current: usize,
}

impl View for Visualizer {
    type V = VisualizerModel;

    closed spec fn view(&self) -> VisualizerModel {
        VisualizerModel { data: self.data@, current: self.current_snapshot_index }
    }
}

impl VisualizerModel {
    /// What holds of every viewer: the snapshot that is shown exists, if there
    /// are any.
    pub open spec fn inv(self) -> bool {
        self.data.snapshots.len() > 0 ==> self.current < self.data.snapshots.len()
    }

    /// The viewer that shows another snapshot.
    pub open spec fn at(self, index: int) -> VisualizerModel {
        VisualizerModel { current: index as usize, ..self }
    }

    /// The viewer one snapshot back, or where it is at the first one.
    pub open spec fn back(self) -> VisualizerModel {
        if self.current > 0 {
            self.at(self.current - 1)
        } else {
            self
        }
    }

    /// The viewer one snapshot on, or where it is at the last one.
    pub open spec fn on(self) -> VisualizerModel {
        if self.current < self.data.snapshots.len() - 1 {
            self.at(self.current + 1)
        } else {
            self
        }
    }

    /// The viewer at a snapshot, or at the last one where there are not that many.
    pub open spec fn selected(self, index: int) -> VisualizerModel {
        if index < self.data.snapshots.len() {
            self.at(index)
        } else if self.data.snapshots.len() == 0 {
            self.at(0)
        } else {
            self.at(self.data.snapshots.len() - 1)
        }
    }

    /// How long after the first snapshot one was taken, in nanoseconds.
    pub open spec fn time_of(self, index: int) -> int {
        let first = self.data.snapshots[0].timestamp.nanos;
        let nanos = self.data.snapshots[index].timestamp.nanos;
        if self.data.snapshots.len() == 0 || nanos < first {
            0
        } else {
            nanos - first
        }
    }

    /// The row of a node.
    pub open spec fn row(self, idx: int) -> int {
        idx / self.data.grid_cols as int
    }

    /// The column of a node.
    pub open spec fn col(self, idx: int) -> int {
        idx % self.data.grid_cols as int
    }

    /// The lines that begin at a node: to the east, then to the south, where
    /// there is a channel and the grid goes on.
    pub open spec fn edges_at(self, idx: int) -> Seq<ChannelEdge> {
        let (row, col) = (self.row(idx), self.col(idx));
        let start = (row as usize, col as usize);
        let east = match self.data.nodes[idx].east {
            Some(channel_id) => if col + 1 < self.data.grid_cols {
                seq![ChannelEdge { channel_id, start, end: (row as usize, (col + 1) as usize) }]
            } else {
                Seq::empty()
            },
            None => Seq::empty(),
        };
        let south = match self.data.nodes[idx].south {
            Some(channel_id) => if row + 1 < self.data.grid_rows {
                seq![ChannelEdge { channel_id, start, end: ((row + 1) as usize, col as usize) }]
            } else {
                Seq::empty()
            },
            None => Seq::empty(),
        };
        east + south
    }

    /// The lines that begin at the first `n` nodes.
    pub open spec fn edges(self, n: int) -> Seq<ChannelEdge>
        decreases n,
    {
        if n <= 0 {
            Seq::empty()
        } else {
            self.edges(n - 1) + self.edges_at(n - 1)
        }
    }

    /// The color of an LED. One that a node lacks is dark.
    pub open spec fn led_color(self, node_idx: int, led_idx: int) -> Color {
        let colors = self.data.snapshots[self.current as int].nodes[node_idx].colors;
        if led_idx < colors.len() {
            colors[led_idx]
        } else {
            Color { r: 0, g: 0, b: 0 }
        }
    }
}

/// The color of a channel: red for a collision, yellow for a message, gray otherwise.
pub open spec fn color_of_channel(state: ChannelState) -> Color {
    if state.conflict {
        Color { r: 255, g: 0, b: 0 }
    } else if state.counter > 0 {
        Color { r: 255, g: 255, b: 0 }
    } else {
        Color { r: 100, g: 100, b: 100 }
    }
}

/// The color of a channel.
pub fn channel_color(state: &ChannelState) -> (color: Color)
    ensures
        color == color_of_channel(*state),
{
    if state.conflict {
        Color { r: 255, g: 0, b: 0 }
    } else if state.counter > 0 {
        Color { r: 255, g: 255, b: 0 }
    } else {
        Color { r: 100, g: 100, b: 100 }
    }
}

impl Visualizer {
    /// A viewer that shows the first snapshot.
    pub fn new(data: VisualizerData) -> (visualizer: Visualizer)
        ensures
            visualizer@ == (VisualizerModel { data: data@, current: 0 }),
            visualizer@.inv(),
    {
        Visualizer { data, current_snapshot_index: 0 }
    }

    /// The number of snapshots.
    pub fn snapshot_count(&self) -> (count: usize)
        ensures
            count == self@.data.snapshots.len(),
    {
        self.data.snapshots.len()
    }

    /// The number of nodes.
    pub fn node_count(&self) -> (count: usize)
        ensures
            count == self@.data.nodes.len(),
    {
        self.data.nodes.len()
    }

    /// The rows and columns of the grid.
    pub fn grid_size(&self) -> (size: (usize, usize))
        ensures
            size == (self@.data.grid_rows, self@.data.grid_cols),
    {
        (self.data.grid_rows, self.data.grid_cols)
    }

    /// The number of the snapshot that is shown.
    pub fn current_snapshot_index(&self) -> (index: usize)
        ensures
            index == self@.current,
    {
        self.current_snapshot_index
    }

    /// How long after the first snapshot one was taken, in nanoseconds.
    pub fn get_snapshot_time(&self, index: usize) -> (nanos: u128)
        requires
            self@.data.snapshots.len() > 0 ==> index < self@.data.snapshots.len(),
        ensures
            nanos == self@.time_of(index as int),
            nanos == if self@.data.snapshots.len() == 0
                || self@.data.snapshots[index as int].timestamp.nanos
                < self@.data.snapshots[0].timestamp.nanos {
                0
            } else {
                self@.data.snapshots[index as int].timestamp.nanos
                    - self@.data.snapshots[0].timestamp.nanos
            },
    {
        if self.data.snapshots.len() == 0 {
            return 0;
        }
        let start: u128 = self.data.snapshots[0].timestamp.nanos;
        let current: u128 = self.data.snapshots[index].timestamp.nanos;
        if current < start {
            0
        } else {
            current - start
        }
    }

    /// Goes back by one snapshot, unless the first one is shown. Tells whether
    /// that was so.
    pub fn previous(&mut self) -> (moved: bool)
        requires
            old(self)@.inv(),
        ensures
            final(self)@.inv(),
            final(self)@ == old(self)@.back(),
            moved == (old(self)@.current > 0),
            final(self)@ == if moved {
                old(self)@.at(old(self)@.current - 1)
            } else {
                old(self)@
            },
    {
        if self.current_snapshot_index > 0 {
            self.current_snapshot_index = self.current_snapshot_index - 1;
            true
        } else {
            false
        }
    }

    /// Goes on by one snapshot, unless the last one is shown. Tells whether
    /// that was so.
    pub fn next(&mut self) -> (moved: bool)
        requires
            old(self)@.inv(),
            old(self)@.data.snapshots.len() > 0,
        ensures
            final(self)@.inv(),
            final(self)@ == old(self)@.on(),
            moved == (old(self)@.current < old(self)@.data.snapshots.len() - 1),
            final(self)@ == if moved {
                old(self)@.at(old(self)@.current + 1)
            } else {
                old(self)@
            },
    {
        if self.current_snapshot_index < self.data.snapshots.len() - 1 {
            self.current_snapshot_index = self.current_snapshot_index + 1;
            true
        } else {
            false
        }
    }

    /// The number of the last snapshot that can be shown.
    pub fn last_index(&self) -> (index: usize)
        ensures
            index == if self@.data.snapshots.len() == 0 {
                0
            } else {
                self@.data.snapshots.len() - 1
            },
    {
        if self.data.snapshots.len() == 0 {
            0
        } else {
            self.data.snapshots.len() - 1
        }
    }

    /// Shows a snapshot, or the last one where there are not that many.
    pub fn select(&mut self, index: usize)
        requires
            old(self)@.inv(),
        ensures
            final(self)@.inv(),
            final(self)@ == old(self)@.selected(index as int),
            final(self)@ == if index < old(self)@.data.snapshots.len() {
                old(self)@.at(index as int)
            } else if old(self)@.data.snapshots.len() == 0 {
                old(self)@.at(0)
            } else {
                old(self)@.at(old(self)@.data.snapshots.len() - 1)
            },
    {
        let last: usize = self.last_index();
        if index < last {
            self.current_snapshot_index = index;
        } else {
            self.current_snapshot_index = last;
        }
    }

    /// The row and column of a node.
    pub fn node_idx_to_grid_pos(&self, idx: usize) -> (pos: (usize, usize))
        requires
            self@.data.grid_cols > 0,
        ensures
            pos == (self@.row(idx as int) as usize, self@.col(idx as int) as usize),
            pos.0 == self@.row(idx as int),
            pos.1 == self@.col(idx as int),
    {
        proof {
            let cols = self@.data.grid_cols as int;
            assert(0 <= idx as int / cols <= idx && 0 <= idx as int % cols < cols)
                by (nonlinear_arith)
                requires
                    cols > 0,
                    idx >= 0,
            ;
        }
        let row: usize = idx / self.data.grid_cols;
        let col: usize = idx % self.data.grid_cols;
        (row, col)
    }

    /// The lines for all channels.
    pub fn channel_edges(&self) -> (edges: Vec<ChannelEdge>)
        requires
            self@.data.grid_cols > 0,
        ensures
            edges@ == self@.edges(self@.data.nodes.len() as int),
    {
        let mut edges: Vec<ChannelEdge> = Vec::new();
        let mut node_idx: usize = 0;
        while node_idx < self.data.nodes.len()
            invariant
                node_idx <= self.data.nodes@.len(),
                self@.data.grid_cols > 0,
                edges@ == self@.edges(node_idx as int),
            decreases self.data.nodes@.len() - node_idx,
        {
            let (row, col) = self.node_idx_to_grid_pos(node_idx);
            let node_info = &self.data.nodes[node_idx];
            let ghost before = edges@;
            // East channel
            if let Some(channel_id) = node_info.east {
                if col < self.data.grid_cols - 1 {
                    edges.push(
                        ChannelEdge { channel_id, start: (row, col), end: (row, col + 1) },
                    );
                }
            }
            // South channel
            if let Some(channel_id) = node_info.south {
                if self.data.grid_rows > 0 && row < self.data.grid_rows - 1 {
                    edges.push(
                        ChannelEdge { channel_id, start: (row, col), end: (row + 1, col) },
                    );
                }
            }
            assert(edges@ =~= before + self@.edges_at(node_idx as int));
            node_idx = node_idx + 1;
        }
        edges
    }

    /// Whether the current snapshot has a node with a number.
    pub fn shows_node(&self, node_idx: usize) -> (shows: bool)
        requires
            self@.inv(),
        ensures
            shows == (self@.data.snapshots.len() > 0 && node_idx
                < self@.data.snapshots[self@.current as int].nodes.len()),
    {
        self.data.snapshots.len() > 0 && node_idx
            < self.data.snapshots[self.current_snapshot_index].nodes.len()
    }

    /// Whether the current snapshot has a channel with a number.
    pub fn shows_channel(&self, channel_id: usize) -> (shows: bool)
        requires
            self@.inv(),
        ensures
            shows == (self@.data.snapshots.len() > 0 && channel_id
                < self@.data.snapshots[self@.current as int].channels.len()),
    {
        self.data.snapshots.len() > 0 && channel_id
            < self.data.snapshots[self.current_snapshot_index].channels.len()
    }

    /// The colors of the LEDs of a node.
    pub fn led_colors(&self, node_idx: usize) -> (colors: Vec<Color>)
        requires
            self@.inv(),
            self@.data.snapshots.len() > 0,
            node_idx < self@.data.snapshots[self@.current as int].nodes.len(),
        ensures
            colors@ == Seq::new(
                MAX_LEDS as nat,
                |i: int| self@.led_color(node_idx as int, i),
            ),
    {
        let node_state = &self.data.snapshots[self.current_snapshot_index].nodes[node_idx];
        let mut colors: Vec<Color> = Vec::new();
        let mut led_idx: usize = 0;
        while led_idx < MAX_LEDS
            invariant
                led_idx <= MAX_LEDS,
                node_state@ == self@.data.snapshots[self@.current as int].nodes[node_idx as int],
                colors@ == Seq::new(
                    led_idx as nat,
                    |i: int| self@.led_color(node_idx as int, i),
                ),
            decreases MAX_LEDS - led_idx,
        {
            if led_idx < node_state.colors.len() {
                colors.push(node_state.colors[led_idx]);
            } else {
                colors.push(Color { r: 0, g: 0, b: 0 });
            }
            led_idx = led_idx + 1;
            assert(colors@ =~= Seq::new(
                led_idx as nat,
                |i: int| self@.led_color(node_idx as int, i),
            ));
        }
        colors
    }

    /// The color of the line for a channel.
    pub fn edge_color(&self, channel_id: usize) -> (color: Color)
        requires
            self@.inv(),
            self@.data.snapshots.len() > 0,
            channel_id < self@.data.snapshots[self@.current as int].channels.len(),
        ensures
            color == color_of_channel(
                self@.data.snapshots[self@.current as int].channels[channel_id as int],
            ),
    {
        channel_color(&self.data.snapshots[self.current_snapshot_index].channels[channel_id])
    }
}

/// Going back undoes going on, and the other way round.
pub proof fn law_going_back_undoes_going_on(m: VisualizerModel)
    requires
        m.inv(),
        m.data.snapshots.len() <= usize::MAX,
    ensures
        m.current < m.data.snapshots.len() - 1 ==> m.at(m.current + 1).inv() && m.at(
            m.current + 1,
        ).at(m.at(m.current + 1).current - 1) == m,
        m.current > 0 ==> m.at(m.current - 1).inv() && m.at(m.current - 1).at(
            m.at(m.current - 1).current + 1,
        ) == m,
{
}

/// A node stands where it was put when the grid was numbered row by row.
pub proof fn law_position_tells_the_node(m: VisualizerModel, row: int, col: int)
    requires
        m.data.grid_cols > 0,
        0 <= row,
        0 <= col < m.data.grid_cols,
    ensures
        m.row(row * m.data.grid_cols + col) == row,
        m.col(row * m.data.grid_cols + col) == col,
{
    vstd::arithmetic::div_mod::lemma_fundamental_div_mod_converse(
        row * m.data.grid_cols + col,
        m.data.grid_cols as int,
        row,
        col,
    );
}

proof fn lemma_edges_are_kept(m: VisualizerModel, n: int, idx: int, i: int)
    requires
        0 <= idx < n,
        0 <= i < m.edges_at(idx).len(),
    ensures
        m.edges(n).contains(m.edges_at(idx)[i]),
    decreases n,
{
    let edge = m.edges_at(idx)[i];
    let before = m.edges(n - 1);
    assert(m.edges(n) == before + m.edges_at(n - 1));
    if idx == n - 1 {
        assert(m.edges(n)[before.len() + i] == edge);
    } else {
        lemma_edges_are_kept(m, n - 1, idx, i);
        let k = choose|k: int| 0 <= k < before.len() && before[k] == edge;
        assert(m.edges(n)[k] == edge);
    }
}

/// On a grid every channel is drawn as a line between the nodes that it joins.
pub proof fn law_every_channel_is_drawn(
    m: VisualizerModel,
    name: Seq<char>,
    timestamp: Instant,
    r: int,
    c: int,
)
    requires
        m.data.nodes == grid(
            name,
            m.data.grid_rows as int,
            m.data.grid_cols as int,
            timestamp,
        ).nodes,
        0 <= r < m.data.grid_rows,
        0 <= c < m.data.grid_cols,
    ensures
        r + 1 < m.data.grid_rows ==> m.edges(m.data.nodes.len() as int).contains(
            ChannelEdge {
                channel_id: vertical_id(m.data.grid_cols as int, r, c) as usize,
                start: (r as usize, c as usize),
                end: ((r + 1) as usize, c as usize),
            },
        ),
        c + 1 < m.data.grid_cols ==> m.edges(m.data.nodes.len() as int).contains(
            ChannelEdge {
                channel_id: horizontal_id(
                    m.data.grid_rows as int,
                    m.data.grid_cols as int,
                    r,
                    c,
                ) as usize,
                start: (r as usize, c as usize),
                end: (r as usize, (c + 1) as usize),
            },
        ),
{
    let (rows, cols) = (m.data.grid_rows as int, m.data.grid_cols as int);
    let n = m.data.nodes.len() as int;
    let idx = r * cols + c;
    law_position_tells_the_node(m, r, c);
    assert(0 <= idx < rows * cols && 0 <= rows * cols) by (nonlinear_arith)
        requires
            idx == r * cols + c,
            0 <= r < rows,
            0 <= c < cols,
    ;
    assert(m.data.nodes[idx] == grid_node(name, rows, cols, r, c));
    let edges = m.edges_at(idx);
    if c + 1 < cols {
        lemma_edges_are_kept(m, n, idx, 0);
        assert(edges[0].end == (r as usize, (c + 1) as usize));
        if r + 1 < rows {
            lemma_edges_are_kept(m, n, idx, 1);
            assert(edges[1].end == ((r + 1) as usize, c as usize));
        }
    } else if r + 1 < rows {
        lemma_edges_are_kept(m, n, idx, 0);
        assert(edges[0].end == ((r + 1) as usize, c as usize));
    }
}

/// A collision is red, a message yellow, and a free channel gray.
pub proof fn law_colors_tell_what_happens(state: ChannelState)
    ensures
        state.conflict ==> color_of_channel(state) == (Color { r: 255, g: 0, b: 0 }),
        !state.conflict && state.counter > 0 ==> color_of_channel(state) == (Color {
            r: 255,
            g: 255,
            b: 0,
        }),
        !state.conflict && state.counter == 0 ==> color_of_channel(state) == (Color {
            r: 100,
            g: 100,
            b: 100,
        }),
{
}

/// The LEDs of a node are shown as they are in the snapshot, and dark where the
/// node has none. Choosing a snapshot changes nothing but which one is shown.
pub proof fn law_snapshot_is_shown(m: VisualizerModel, node_idx: int, led_idx: int, index: usize)
    requires
        m.inv(),
        m.data.snapshots.len() > 0,
        0 <= node_idx < m.data.snapshots[m.current as int].nodes.len(),
        0 <= led_idx,
    ensures
        ({
            let colors = m.data.snapshots[m.current as int].nodes[node_idx].colors;
            &&& led_idx < colors.len() ==> m.led_color(node_idx, led_idx) == colors[led_idx]
            &&& led_idx >= colors.len() ==> m.led_color(node_idx, led_idx) == (Color {
                r: 0,
                g: 0,
                b: 0,
            })
        }),
        m.at(index as int).current == index,
        m.at(index as int).data == m.data,
        m.inv() <==> m.current < m.data.snapshots.len(),
        MAX_LEDS == 20,
{
}

/// Every line that is drawn goes from a node to the next one to the east or to
/// the south, and stands for the channel that the node has there.
pub proof fn law_lines_join_neighbours(m: VisualizerModel, idx: int, i: int)
    requires
        0 <= idx < m.data.nodes.len() <= usize::MAX,
        m.data.grid_cols > 0,
        0 <= i < m.edges_at(idx).len(),
    ensures
        ({
            let edge = m.edges_at(idx)[i];
            let (row, col) = (idx / m.data.grid_cols as int, idx % m.data.grid_cols as int);
            &&& edge.start.0 == row && edge.start.1 == col
            &&& (edge.end.0 == row && edge.end.1 == col + 1 && col + 1 < m.data.grid_cols
                && m.data.nodes[idx].east == Some(edge.channel_id)) || (edge.end.0 == row + 1
                && edge.end.1 == col && row + 1 < m.data.grid_rows && m.data.nodes[idx].south
                == Some(edge.channel_id))
        }),
{
    let cols = m.data.grid_cols as int;
    assert(0 <= idx / cols <= idx && 0 <= idx % cols < cols) by (nonlinear_arith)
        requires
            cols > 0,
            idx >= 0,
    ;
}

/// No line is left out: each channel to the east and to the south of a node is
/// drawn where the grid goes on.
pub proof fn law_no_line_is_left_out(m: VisualizerModel, idx: int)
    requires
        0 <= idx < m.data.nodes.len() <= usize::MAX,
        m.data.grid_cols > 0,
    ensures
        ({
            let (row, col) = (idx / m.data.grid_cols as int, idx % m.data.grid_cols as int);
            let edges = m.edges(m.data.nodes.len() as int);
            &&& m.data.nodes[idx].east is Some && col + 1 < m.data.grid_cols ==> edges.contains(
                ChannelEdge {
                    channel_id: m.data.nodes[idx].east->0,
                    start: (row as usize, col as usize),
                    end: (row as usize, (col + 1) as usize),
                },
            )
            &&& m.data.nodes[idx].south is Some && row + 1 < m.data.grid_rows ==> edges.contains(
                ChannelEdge {
                    channel_id: m.data.nodes[idx].south->0,
                    start: (row as usize, col as usize),
                    end: ((row + 1) as usize, col as usize),
                },
            )
        }),
{
    let n = m.data.nodes.len() as int;
    let (row, col) = (idx / m.data.grid_cols as int, idx % m.data.grid_cols as int);
    let at = m.edges_at(idx);
    if m.data.nodes[idx].east is Some && col + 1 < m.data.grid_cols {
        lemma_edges_are_kept(m, n, idx, 0);
        assert(at[0].end == (row as usize, (col + 1) as usize));
    }
    if m.data.nodes[idx].south is Some && row + 1 < m.data.grid_rows {
        let last = at.len() - 1;
        lemma_edges_are_kept(m, n, idx, last);
        assert(at[last].end == ((row + 1) as usize, col as usize));
    }
}

/// A viewer moves by one snapshot at a time, stops at the first and the last, and
/// finds its way to any of them. What it shows stays the same.
pub proof fn law_viewer_gets_everywhere(m: VisualizerModel, index: usize)
    requires
        m.inv(),
        0 < m.data.snapshots.len() <= usize::MAX,
    ensures
        m.current > 0 ==> m.back().current == m.current - 1,
        m.current == 0 ==> m.back() == m,
        m.current + 1 < m.data.snapshots.len() ==> m.on().current == m.current + 1,
        m.current + 1 == m.data.snapshots.len() ==> m.on() == m,
        index < m.data.snapshots.len() ==> m.selected(index as int).current == index,
        index >= m.data.snapshots.len() ==> m.selected(index as int).current
            == m.data.snapshots.len() - 1,
        m.back().data == m.data,
        m.on().data == m.data,
        m.selected(index as int).data == m.data,
        m.back().inv(),
        m.on().inv(),
        m.selected(index as int).inv(),
{
}

/// The first snapshot is at zero, and what lies between two that follow it in
/// time is the difference of their times.
pub proof fn law_times_are_counted_from_the_first(m: VisualizerModel, i: int, j: int)
    requires
        0 <= i < m.data.snapshots.len(),
        0 <= j < m.data.snapshots.len(),
        m.data.snapshots[0].timestamp.nanos <= m.data.snapshots[i].timestamp.nanos,
        m.data.snapshots[0].timestamp.nanos <= m.data.snapshots[j].timestamp.nanos,
    ensures
        m.time_of(0) == 0,
        m.time_of(j) - m.time_of(i) == m.data.snapshots[j].timestamp.nanos
            - m.data.snapshots[i].timestamp.nanos,
{
}

} // verus!
