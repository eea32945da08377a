//! A network whose nodes form a grid.

use vstd::arithmetic::div_mod::lemma_fundamental_div_mod_converse;
use vstd::prelude::*;

use crate::sim::network::{
    ChannelModel, ChannelState, Network, NetworkModel, NodeInfoModel, NodeModel, SnapshotModel,
};
use crate::text::{decimal, digits, law_number_reads_back, number};
use crate::time::Instant;

verus! {

/// A number as it stands in a name.
pub open spec fn num(n: int) -> Seq<char> {
    digits(n as nat, 10)
}

/// The number of the channel from row `r` to the next one, in column `c`.
pub open spec fn vertical_id(cols: int, r: int, c: int) -> int {
    r * cols + c
}

/// The number of the channel from column `c` to the next one, in row `r`.
pub open spec fn horizontal_id(rows: int, cols: int, r: int, c: int) -> int {
    (rows - 1) * cols + r * (cols - 1) + c
}

/// The number of channels of a grid.
pub open spec fn grid_channels(rows: int, cols: int) -> int {
    (rows - 1) * cols + rows * (cols - 1)
}

/// The name of a vertical channel.
pub open spec fn vertical_name(name: Seq<char>, r: int, c: int) -> Seq<char> {
    name + " r"@ + num(r) + "-"@ + num(r + 1) + " c"@ + num(c)
}

/// The name of a horizontal channel.
pub open spec fn horizontal_name(name: Seq<char>, r: int, c: int) -> Seq<char> {
    name + " r"@ + num(r) + " c"@ + num(c) + "-"@ + num(c + 1)
}

/// The name of a node.
pub open spec fn node_name(name: Seq<char>, r: int, c: int) -> Seq<char> {
    name + " r"@ + num(r) + " c"@ + num(c)
}

/// The node in row `r` and column `c` of a grid.
pub open spec fn grid_node(name: Seq<char>, rows: int, cols: int, r: int, c: int) -> NodeInfoModel {
    NodeInfoModel {
        name: node_name(name, r, c),
        north: if r > 0 {
            Some(vertical_id(cols, r - 1, c) as usize)
        } else {
            None
        },
        south: if r < rows - 1 {
            Some(vertical_id(cols, r, c) as usize)
        } else {
            None
        },
        east: if c < cols - 1 {
            Some(horizontal_id(rows, cols, r, c) as usize)
        } else {
            None
        },
        west: if c > 0 {
            Some(horizontal_id(rows, cols, r, c - 1) as usize)
        } else {
            None
        },
    }
}

/// The channel with number `i`: the vertical ones come first, row by row.
pub open spec fn grid_channel(name: Seq<char>, rows: int, cols: int, i: int) -> ChannelModel {
    let first_horizontal = (rows - 1) * cols;
    ChannelModel {
        name: if i < first_horizontal {
            vertical_name(name, i / cols, i % cols)
        } else {
            horizontal_name(
                name,
                (i - first_horizontal) / (cols - 1),
                (i - first_horizontal) % (cols - 1),
            )
        },
        receivers: Seq::empty(),
    }
}

/// A grid on which nothing has happened yet. The nodes are numbered row by row.
pub open spec fn grid(name: Seq<char>, rows: int, cols: int, timestamp: Instant) -> NetworkModel {
    NetworkModel {
        nodes: Seq::new(
            (rows * cols) as nat,
            |i: int| grid_node(name, rows, cols, i / cols, i % cols),
        ),
        channels: Seq::new(
            grid_channels(rows, cols) as nat,
            |i: int| grid_channel(name, rows, cols, i),
        ),
        history: seq![
            SnapshotModel {
                timestamp,
                channels: Seq::new(
                    grid_channels(rows, cols) as nat,
                    |i: int| ChannelState::free(),
                ),
                nodes: Seq::new((rows * cols) as nat, |i: int| NodeModel::initial()),
            },
        ],
        receiver_count: 0,
    }
}

fn make_vertical_name(name: &str, r: usize, c: usize) -> (text: String)
    requires
        r < usize::MAX,
    ensures
        text@ == vertical_name(name@, r as int, c as int),
{
    let mut text = name.to_owned();
    text.append(" r");
    text.append(decimal(r).as_str());
    text.append("-");
    text.append(decimal(r + 1).as_str());
    text.append(" c");
    text.append(decimal(c).as_str());
    text
}

fn make_horizontal_name(name: &str, r: usize, c: usize) -> (text: String)
    requires
        c < usize::MAX,
    ensures
        text@ == horizontal_name(name@, r as int, c as int),
{
    let mut text = name.to_owned();
    text.append(" r");
    text.append(decimal(r).as_str());
    text.append(" c");
    text.append(decimal(c).as_str());
    text.append("-");
    text.append(decimal(c + 1).as_str());
    text
}

fn make_node_name(name: &str, r: usize, c: usize) -> (text: String)
    ensures
        text@ == node_name(name@, r as int, c as int),
{
    let mut text = name.to_owned();
    text.append(" r");
    text.append(decimal(r).as_str());
    text.append(" c");
    text.append(decimal(c).as_str());
    text
}

/// The place of a cell in a table that is numbered row by row.
proof fn lemma_cell(rows: int, cols: int, r: int, c: int)
    requires
        0 <= r < rows,
        0 <= c < cols,
    ensures
        0 <= r * cols + c < rows * cols,
        r * cols + c < (r + 1) * cols,
        (r + 1) * cols == r * cols + cols,
        (r * cols + c) / cols == r,
        (r * cols + c) % cols == c,
{
    assert(0 <= r * cols) by (nonlinear_arith)
        requires
            0 <= r,
            0 <= c < cols,
    ;
    assert((r + 1) * cols == r * cols + cols) by (nonlinear_arith);
    assert((r + 1) * cols <= rows * cols) by (nonlinear_arith)
        requires
            r + 1 <= rows,
            0 < cols,
    ;
    lemma_fundamental_div_mod_converse(r * cols + c, cols, r, c);
}

fn add_vertical_channels(network: &mut Network, name: &str, rows: usize, cols: usize)
    requires
        rows >= 1,
        cols >= 1,
        rows * cols <= usize::MAX,
        old(network)@.channels.len() == 0,
    ensures
        final(network)@ == (NetworkModel {
            channels: Seq::new(
                ((rows - 1) * cols) as nat,
                |i: int| grid_channel(name@, rows as int, cols as int, i),
            ),
            ..old(network)@
        }),
{
    let ghost expected = |i: int| grid_channel(name@, rows as int, cols as int, i);
    let mut r: usize = 0;
    assert(network@.channels =~= Seq::new(0, expected));
    while r < rows - 1
        invariant
            r <= rows - 1,
            cols >= 1,
            expected == (|i: int| grid_channel(name@, rows as int, cols as int, i)),
            network@ == (NetworkModel {
                channels: Seq::new((r * cols) as nat, expected),
                ..old(network)@
            }),
        decreases rows - r,
    {
        let mut c: usize = 0;
        while c < cols
            invariant
                r < rows - 1,
                c <= cols,
                cols >= 1,
                expected == (|i: int| grid_channel(name@, rows as int, cols as int, i)),
                network@ == (NetworkModel {
                    channels: Seq::new((r * cols + c) as nat, expected),
                    ..old(network)@
                }),
            decreases cols - c,
        {
            proof {
                lemma_cell(rows - 1, cols as int, r as int, c as int);
            }
            let ghost before = network@;
            let channel_id: usize = network.add_channel(make_vertical_name(name, r, c));
            c = c + 1;
            proof {
                assert(r * cols + c == (r * cols + (c - 1)) + 1);
                assert(network@.channels =~= Seq::new((r * cols + c) as nat, expected));
            }
        }
        proof {
            assert((r + 1) * cols == r * cols + cols) by (nonlinear_arith);
        }
        r = r + 1;
    }
}

fn add_horizontal_channels(network: &mut Network, name: &str, rows: usize, cols: usize)
    requires
        rows >= 1,
        cols >= 1,
        2 * (rows * cols) <= usize::MAX,
        old(network)@.channels == Seq::new(
            ((rows - 1) * cols) as nat,
            |i: int| grid_channel(name@, rows as int, cols as int, i),
        ),
    ensures
        final(network)@ == (NetworkModel {
            channels: Seq::new(
                grid_channels(rows as int, cols as int) as nat,
                |i: int| grid_channel(name@, rows as int, cols as int, i),
            ),
            ..old(network)@
        }),
{
    let ghost expected = |i: int| grid_channel(name@, rows as int, cols as int, i);
    let ghost first = (rows - 1) * cols;
    let mut r: usize = 0;
    assert(0 <= first) by (nonlinear_arith)
        requires
            rows >= 1,
            cols >= 1,
            first == (rows - 1) * cols,
    ;
    assert(0 * (cols - 1) == 0) by (nonlinear_arith);
    while r < rows
        invariant
            r <= rows,
            cols >= 1,
            first == (rows - 1) * cols,
            0 <= first,
            expected == (|i: int| grid_channel(name@, rows as int, cols as int, i)),
            network@ == (NetworkModel {
                channels: Seq::new((first + r * (cols - 1)) as nat, expected),
                ..old(network)@
            }),
        decreases rows - r,
    {
        let mut c: usize = 0;
        while c < cols - 1
            invariant
                r < rows,
                c <= cols - 1,
                cols >= 1,
                first == (rows - 1) * cols,
                0 <= first,
                expected == (|i: int| grid_channel(name@, rows as int, cols as int, i)),
                network@ == (NetworkModel {
                    channels: Seq::new((first + r * (cols - 1) + c) as nat, expected),
                    ..old(network)@
                }),
            decreases cols - c,
        {
            proof {
                lemma_cell(rows as int, cols - 1, r as int, c as int);
            }
            let channel_id: usize = network.add_channel(make_horizontal_name(name, r, c));
            c = c + 1;
            proof {
                assert(network@.channels =~= Seq::new(
                    (first + r * (cols - 1) + c) as nat,
                    expected,
                ));
            }
        }
        proof {
            assert((r + 1) * (cols - 1) == r * (cols - 1) + (cols - 1)) by (nonlinear_arith);
        }
        r = r + 1;
    }
}

/// The number of the channel from row `r` to the next one, in column `c`.
fn vertical_channel(rows: usize, cols: usize, r: usize, c: usize) -> (id: usize)
    requires
        r < rows,
        c < cols,
        rows * cols <= usize::MAX,
    ensures
        id == vertical_id(cols as int, r as int, c as int),
{
    proof {
        lemma_cell(rows as int, cols as int, r as int, c as int);
        assert(0 <= r * cols) by (nonlinear_arith)
            requires
                0 <= r,
                0 <= cols,
        ;
    }
    r * cols + c
}

/// The number of the channel from column `c` to the next one, in row `r`.
fn horizontal_channel(rows: usize, cols: usize, r: usize, c: usize) -> (id: usize)
    requires
        r < rows,
        c < cols - 1,
        2 * (rows * cols) <= usize::MAX,
    ensures
        id == horizontal_id(rows as int, cols as int, r as int, c as int),
{
    proof {
        lemma_cell(rows as int, cols - 1, r as int, c as int);
        assert(rows * (cols - 1) <= rows * cols && 0 <= (rows - 1) * cols <= rows * cols && 0 <= r * (
        cols - 1)) by (nonlinear_arith)
            requires
                0 <= r < rows,
                1 <= cols,
        ;
    }
    (rows - 1) * cols + r * (cols - 1) + c
}

fn add_nodes(network: &mut Network, name: &str, rows: usize, cols: usize)
    requires
        rows >= 1,
        cols >= 1,
        2 * (rows * cols) <= usize::MAX,
        old(network)@.nodes.len() == 0,
    ensures
        final(network)@ == (NetworkModel {
            nodes: Seq::new(
                (rows * cols) as nat,
                |i: int| grid_node(name@, rows as int, cols as int, i / cols as int, i % cols as int),
            ),
            ..old(network)@
        }),
{
    let ghost expected = |i: int|
        grid_node(name@, rows as int, cols as int, i / cols as int, i % cols as int);
    let mut row: usize = 0;
    assert(network@.nodes =~= Seq::new(0, expected));
    while row < rows
        invariant
            row <= rows,
            cols >= 1,
            2 * (rows * cols) <= usize::MAX,
            expected == (|i: int|
                grid_node(
                    name@,
                    rows as int,
                    cols as int,
                    i / cols as int,
                    i % cols as int,
                )),
            network@ == (NetworkModel {
                nodes: Seq::new((row * cols) as nat, expected),
                ..old(network)@
            }),
        decreases rows - row,
    {
        let mut col: usize = 0;
        while col < cols
            invariant
                row < rows,
                col <= cols,
                cols >= 1,
                2 * (rows * cols) <= usize::MAX,
                expected == (|i: int|
                    grid_node(
                        name@,
                        rows as int,
                        cols as int,
                        i / cols as int,
                        i % cols as int,
                    )),
                network@ == (NetworkModel {
                    nodes: Seq::new((row * cols + col) as nat, expected),
                    ..old(network)@
                }),
            decreases cols - col,
        {
            proof {
                lemma_cell(rows as int, cols as int, row as int, col as int);
            }
            let north: Option<usize> = if row > 0 {
                Some(vertical_channel(rows, cols, row - 1, col))
            } else {
                None
            };
            let south: Option<usize> = if row < rows - 1 {
                Some(vertical_channel(rows, cols, row, col))
            } else {
                None
            };
            let west: Option<usize> = if col > 0 {
                Some(horizontal_channel(rows, cols, row, col - 1))
            } else {
                None
            };
            let east: Option<usize> = if col < cols - 1 {
                Some(horizontal_channel(rows, cols, row, col))
            } else {
                None
            };
            let node_id: usize = network.add_node(
                make_node_name(name, row, col),
                north,
                south,
                east,
                west,
            );
            col = col + 1;
            proof {
                assert(network@.nodes =~= Seq::new((row * cols + col) as nat, expected));
            }
        }
        proof {
            assert((row + 1) * cols == row * cols + cols) by (nonlinear_arith);
        }
        row = row + 1;
    }
}

/// Makes a grid of `rows` rows and `cols` columns.
pub fn create_grid(name: &str, rows: usize, cols: usize, timestamp: Instant) -> (network: Network)
    requires
        rows >= 1,
        cols >= 1,
        2 * (rows * cols) <= usize::MAX,
    ensures
        network@ == grid(name@, rows as int, cols as int, timestamp),
{
    let mut network = Network::new();
    // Create vertical channels (north-south connections)
    add_vertical_channels(&mut network, name, rows, cols);
    // Create horizontal channels (east-west connections)
    add_horizontal_channels(&mut network, name, rows, cols);
    // Create nodes
    add_nodes(&mut network, name, rows, cols);
    // Initialize state after topology is complete
    network.initialize_state(timestamp);
    proof {
        assert(0 <= rows * cols && 0 <= (rows - 1) * cols && 0 <= rows * (cols - 1))
            by (nonlinear_arith)
            requires
                rows >= 1,
                cols >= 1,
        ;
        let expected = grid(name@, rows as int, cols as int, timestamp);
        assert(network@.history =~= expected.history);
    }
    network
}

/// Neighbours share a channel: what is south of a node has that node to its
/// north, and what is east of it has it to its west.
pub proof fn law_neighbours_share_a_channel(name: Seq<char>, rows: int, cols: int, r: int, c: int)
    requires
        0 <= r < rows,
        0 <= c < cols,
    ensures
        r + 1 < rows ==> grid_node(name, rows, cols, r, c).south is Some && grid_node(
            name,
            rows,
            cols,
            r,
            c,
        ).south == grid_node(name, rows, cols, r + 1, c).north,
        c + 1 < cols ==> grid_node(name, rows, cols, r, c).east is Some && grid_node(
            name,
            rows,
            cols,
            r,
            c,
        ).east == grid_node(name, rows, cols, r, c + 1).west,
        r == 0 ==> grid_node(name, rows, cols, r, c).north is None,
        r + 1 == rows ==> grid_node(name, rows, cols, r, c).south is None,
        c == 0 ==> grid_node(name, rows, cols, r, c).west is None,
        c + 1 == cols ==> grid_node(name, rows, cols, r, c).east is None,
{
}

/// Every channel of a grid exists, and no two pairs of neighbours share one.
pub proof fn law_channels_are_not_shared(
    rows: int,
    cols: int,
    r: int,
    c: int,
    other_r: int,
    other_c: int,
)
    requires
        0 <= r < rows,
        0 <= c < cols,
        0 <= other_r < rows,
        0 <= other_c < cols,
    ensures
        r < rows - 1 ==> 0 <= vertical_id(cols, r, c) < (rows - 1) * cols,
        c < cols - 1 ==> (rows - 1) * cols <= horizontal_id(rows, cols, r, c) < grid_channels(
            rows,
            cols,
        ),
        vertical_id(cols, r, c) == vertical_id(cols, other_r, other_c) ==> r == other_r && c
            == other_c,
        c < cols - 1 && other_c < cols - 1 && horizontal_id(rows, cols, r, c) == horizontal_id(
            rows,
            cols,
            other_r,
            other_c,
        ) ==> r == other_r && c == other_c,
{
    if r < rows - 1 {
        lemma_cell(rows - 1, cols, r, c);
    }
    if c < cols - 1 {
        lemma_cell(rows, cols - 1, r, c);
    }
    if other_c < cols - 1 {
        lemma_cell(rows, cols - 1, other_r, other_c);
    }
    lemma_cell(rows, cols, r, c);
    lemma_cell(rows, cols, other_r, other_c);
}

/// A grid has a node for each of its cells, row by row, named after its place,
/// and a free channel between any two that stand next to each other.
pub proof fn law_grid_is_filled(
    name: Seq<char>,
    rows: int,
    cols: int,
    timestamp: Instant,
    r: int,
    c: int,
    i: int,
)
    requires
        0 <= r < rows,
        0 <= c < cols,
        0 <= i < (rows - 1) * cols + rows * (cols - 1),
    ensures
        ({
            let g = grid(name, rows, cols, timestamp);
            &&& g.nodes.len() == rows * cols
            &&& g.nodes[r * cols + c] == grid_node(name, rows, cols, r, c)
            &&& g.nodes[r * cols + c].name == name + " r"@ + num(r) + " c"@ + num(c)
            &&& g.channels.len() == (rows - 1) * cols + rows * (cols - 1)
            &&& g.channels[i].receivers == Seq::<usize>::empty()
            &&& g.history.len() == 1
            &&& g.now().timestamp == timestamp
            &&& g.now().channels.len() == g.channels.len()
            &&& g.now().channels[i].counter == 0
            &&& !g.now().channels[i].conflict
            &&& g.now().nodes.len() == g.nodes.len()
            &&& g.now().nodes[r * cols + c] == NodeModel::initial()
            &&& g.receiver_count == 0
        }),
{
    lemma_cell(rows, cols, r, c);
    assert(0 <= (rows - 1) * cols + rows * (cols - 1)) by (nonlinear_arith)
        requires
            rows >= 1,
            cols >= 1,
    ;
}

/// The channels are numbered row by row, those to the south before those to the
/// east, and named after the two cells that they join.
pub proof fn law_channels_are_numbered(
    name: Seq<char>,
    rows: int,
    cols: int,
    timestamp: Instant,
    r: int,
    c: int,
)
    requires
        0 <= r < rows,
        0 <= c < cols,
        2 * (rows * cols) <= usize::MAX,
    ensures
        r + 1 < rows ==> grid_node(name, rows, cols, r, c).south is Some && grid_node(
            name,
            rows,
            cols,
            r,
            c,
        ).south->0 == r * cols + c && grid(name, rows, cols, timestamp).channels[r * cols + c].name
            == name + " r"@ + num(r) + "-"@ + num(r + 1) + " c"@ + num(c),
        c + 1 < cols ==> grid_node(name, rows, cols, r, c).east is Some && grid_node(
            name,
            rows,
            cols,
            r,
            c,
        ).east->0 == (rows - 1) * cols + r * (cols - 1) + c && grid(
            name,
            rows,
            cols,
            timestamp,
        ).channels[(rows - 1) * cols + r * (cols - 1) + c].name == name + " r"@ + num(r) + " c"@
            + num(c) + "-"@ + num(c + 1),
{
    lemma_cell(rows, cols, r, c);
    assert(0 <= (rows - 1) * cols <= rows * cols && 0 <= rows * (cols - 1) <= rows * cols)
        by (nonlinear_arith)
        requires
            rows >= 1,
            cols >= 1,
    ;
    if r + 1 < rows {
        lemma_cell(rows - 1, cols, r, c);
    }
    if c + 1 < cols {
        lemma_cell(rows, cols - 1, r, c);
    }
}

/// The numbers in names read back as the numbers.
pub proof fn law_names_hold_the_numbers(n: int)
    requires
        n >= 0,
    ensures
        number(num(n), 10) == n,
{
    law_number_reads_back(n as nat, 10);
}

} // verus!
