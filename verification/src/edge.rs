//! The quincunx lattice: node geometry, the user-toggled connection graph,
//! and the per-tile cut classifier.
//!
//! Nodes sit on an offset lattice with half the horizontal density of the
//! tile grid; odd rows are shifted right by one tile width.  Connections
//! are unordered pairs of adjacent nodes, stored order-independently.  Each
//! tile's bottom and top cut is read off from the presence of two candidate
//! connections chosen by the tile's row and column parity.

use vstd::arithmetic::div_mod::{
    lemma_div_is_ordered, lemma_div_is_ordered_by_denominator, lemma_fundamental_div_mod_converse,
};
use vstd::prelude::*;

use crate::celtic::{Cut, Offset, Tile};

verus! {

/// An undirected connection between two lattice nodes, stored as the pair
/// of reduced node coordinates in the order the caller gave them.
#[derive(Clone, Copy, Debug, PartialEq, Eq, Structural)]
pub struct Connection {
    pub ax: i32,
    pub ay: i32,
    pub bx: i32,
    pub by: i32,
}

impl Connection {
    /// The same connection with its two endpoints swapped.
    pub open spec fn spec_reversed(self) -> Connection {
        Connection { ax: self.bx, ay: self.by, bx: self.ax, by: self.ay }
    }

    /// The same connection with its two endpoints swapped.
    pub fn reversed(&self) -> (r: Connection)
        ensures
            r == self.spec_reversed(),
    {
        Connection { ax: self.bx, ay: self.by, bx: self.ax, by: self.ay }
    }
}

/// Whether two stored endpoint pairs denote the same undirected connection.
pub open spec fn same_connection(a: Connection, b: Connection) -> bool {
    b == a || b == a.spec_reversed()
}

/// Whether a stored pair joins the two given nodes, in either order.
pub open spec fn connection_matches(e: Connection, ax: int, ay: int, bx: int, by: int) -> bool {
    (e.ax == ax && e.ay == ay && e.bx == bx && e.by == by) || (e.ax == bx && e.ay == by && e.bx
        == ax && e.by == ay)
}

/// What a toggle did to the connection it was aimed at.
#[derive(Clone, Copy, Debug, PartialEq, Eq, Structural)]
pub enum ConnectionState {
    Added,
    Removed,
}

/// Top-left pixel of a tile: plain scaling by the tile size.
pub open spec fn spec_tile_loc(ts: int, x: int, y: int) -> (int, int) {
    (x * ts, y * ts)
}

/// Screen position of a lattice node: nodes have twice the tile pitch
/// horizontally, and odd rows are shifted right by one tile width.
pub open spec fn spec_node_loc(ts: int, x: int, y: int) -> (int, int) {
    if y % 2 == 0 {
        (2 * x * ts, y * ts)
    } else {
        (ts + 2 * x * ts, y * ts)
    }
}

/// The node a screen point rounds to: the row index is the point's y in
/// tile units rounded to the nearest integer (ties upward), and the column
/// is the x in double-tile units, corrected for the row's offset, rounded
/// the same way.
pub open spec fn spec_nearest_node(ts: int, px: int, py: int) -> (int, int) {
    let ny = (2 * py + ts) / (2 * ts);
    let nx = if ny % 2 == 0 {
        (px + ts) / (2 * ts)
    } else {
        px / (2 * ts)
    };
    (nx, ny)
}

/// The connection a click selects: from the nearest node, the second
/// endpoint is horizontal (same row, next column) when the x remainder is
/// at least the y remainder, vertical (two rows away) otherwise, stepping
/// in the direction of the remainder's sign and clamping at zero.  This is
/// a nearest-edge heuristic by design, not an exact hit test.
pub open spec fn spec_nearest_edge(ts: int, px: int, py: int) -> ((int, int), (int, int)) {
    let n = spec_nearest_node(ts, px, py);
    let nx = n.0;
    let ny = n.1;
    let off = if ny % 2 == 0 {
        0
    } else {
        ts
    };
    let xd = px - off - 2 * ts * nx;
    let yd2 = 2 * (py - ts * ny);
    if xd >= yd2 {
        let x2 = if xd >= 0 {
            nx + 1
        } else if nx >= 1 {
            nx - 1
        } else {
            0
        };
        ((nx, ny), (x2, ny))
    } else {
        let y2 = if yd2 >= 0 {
            ny + 2
        } else if ny >= 2 {
            ny - 2
        } else {
            0
        };
        ((nx, ny), (nx, y2))
    }
}

/// The connection a click selects, as a stored pair.
pub open spec fn spec_click_connection(ts: int, px: int, py: int) -> Connection {
    let e = spec_nearest_edge(ts, px, py);
    Connection { ax: e.0.0 as i32, ay: e.0.1 as i32, bx: e.1.0 as i32, by: e.1.1 as i32 }
}

/// The tile grid over the lattice, together with the set of active
/// connections.  Tiles are never stored: they are reclassified from the
/// connection set on every query.
pub struct TileMatrix {
    pub width: u16,
    pub height: u16,
    pub tile_size: u16,
    pub edges: Vec<Connection>,
}

/// Whether a screen point lies inside the rendered extent of the grid.
pub open spec fn spec_click_in_grid(m: TileMatrix, px: int, py: int) -> bool {
    px < (m.width as int) * (m.tile_size as int) && py < (m.height as int) * (m.tile_size as int)
}

/// How one toggle changes the graph: the aimed-at connection's membership
/// flips, every other connection is untouched, and the grid dimensions are
/// kept.
pub open spec fn toggle_rel(pre: TileMatrix, post: TileMatrix, c: Connection) -> bool {
    &&& post.width == pre.width
    &&& post.height == pre.height
    &&& post.tile_size == pre.tile_size
    &&& post.spec_connected(c) == !pre.spec_connected(c)
    &&& forall|d: Connection|
        !same_connection(c, d) ==> post.spec_connected(d) == pre.spec_connected(d)
}

impl TileMatrix {
    /// A positive tile size, a screen extent that stays well inside pixel
    /// arithmetic range, and no connection stored twice (in either order).
    pub open spec fn wf(self) -> bool {
        &&& 1 <= self.tile_size
        &&& (self.width as int) * (self.tile_size as int) < 0x4000_0000
        &&& (self.height as int) * (self.tile_size as int) < 0x4000_0000
        &&& forall|i: int, j: int|
            0 <= i < j < self.edges@.len() ==> !same_connection(
                #[trigger] self.edges@[i],
                #[trigger] self.edges@[j],
            )
    }

    /// Whether the two given nodes are joined, in either order.
    pub open spec fn spec_connected_at(self, ax: int, ay: int, bx: int, by: int) -> bool {
        exists|k: int|
            0 <= k < self.edges@.len() && connection_matches(#[trigger] self.edges@[k], ax, ay, bx, by)
    }

    /// Whether the given connection is present, in either order.
    pub open spec fn spec_connected(self, c: Connection) -> bool {
        self.spec_connected_at(c.ax as int, c.ay as int, c.bx as int, c.by as int)
    }

    /// An empty graph over a `width` by `height` tile grid.
    pub fn new(width: u16, height: u16, tile_size: u16) -> (r: TileMatrix)
        requires
            1 <= tile_size,
            (width as int) * (tile_size as int) < 0x4000_0000,
            (height as int) * (tile_size as int) < 0x4000_0000,
        ensures
            r.wf(),
            r.width == width,
            r.height == height,
            r.tile_size == tile_size,
            r.edges@.len() == 0,
    {
        TileMatrix { width, height, tile_size, edges: Vec::new() }
    }

    /// A pixel spacing suited to the tile size, for drawing node markers
    /// and connection lines.
    pub fn spacing(&self) -> (r: u16)
        ensures
            r == self.tile_size / 10,
    {
        self.tile_size / 10
    }

    /// Number of stored connections.
    pub fn edge_count(&self) -> (r: usize)
        ensures
            r == self.edges@.len(),
    {
        self.edges.len()
    }

    /// The stored connection at the given index.
    pub fn edge_at(&self, i: usize) -> (r: Connection)
        requires
            i < self.edges@.len(),
        ensures
            r == self.edges@[i as int],
    {
        self.edges[i]
    }

    /// Top-left pixel of a tile.
    pub fn loc_for_tile(&self, x: u16, y: u16) -> (r: (u32, u32))
        requires
            (x as int) * (self.tile_size as int) <= u32::MAX,
            (y as int) * (self.tile_size as int) <= u32::MAX,
        ensures
            (r.0 as int, r.1 as int) == spec_tile_loc(self.tile_size as int, x as int, y as int),
    {
        ((x as u32) * (self.tile_size as u32), (y as u32) * (self.tile_size as u32))
    }

    /// Screen position of a lattice node, with the quincunx row offset.
    pub fn loc_for_node(&self, x: u16, y: u16) -> (r: (u32, u32))
        requires
            (2 * (x as int) + 1) * (self.tile_size as int) <= u32::MAX,
            (y as int) * (self.tile_size as int) <= u32::MAX,
        ensures
            (r.0 as int, r.1 as int) == spec_node_loc(self.tile_size as int, x as int, y as int),
    {
        proof {
            assert(2 * (x as int) * (self.tile_size as int) + (self.tile_size as int) == (2 * (
            x as int) + 1) * (self.tile_size as int)) by (nonlinear_arith);
        }
        let ts = self.tile_size as u32;
        let px = if y % 2 == 0 {
            2 * (x as u32) * ts
        } else {
            ts + 2 * (x as u32) * ts
        };
        (px, (y as u32) * ts)
    }

    /// The tile under a screen point: plain integer division.
    pub fn tile_pos_for_click(&self, px: u32, py: u32) -> (r: (u32, u32))
        requires
            1 <= self.tile_size,
        ensures
            r.0 == px as int / self.tile_size as int,
            r.1 == py as int / self.tile_size as int,
    {
        (px / (self.tile_size as u32), py / (self.tile_size as u32))
    }

    /// The lattice node nearest to a screen point.
    pub fn nearest_node_to_click(&self, px: u32, py: u32) -> (r: (i32, i32))
        requires
            1 <= self.tile_size,
            px < 0x4000_0000,
            py < 0x4000_0000,
        ensures
            (r.0 as int, r.1 as int) == spec_nearest_node(
                self.tile_size as int,
                px as int,
                py as int,
            ),
            0 <= r.0 <= 0x2000_8000,
            0 <= r.1 <= 0x4000_8000,
    {
        let ts = self.tile_size as u64;
        let ynum = 2 * (py as u64) + ts;
        let ny = ynum / (2 * ts);
        proof {
            lemma_div_is_ordered_by_denominator(ynum as int, 2, 2 * ts as int);
            lemma_div_is_ordered(ynum as int, 0x8001_0000, 2);
        }
        let nx = if ny % 2 == 0 {
            let xnum = (px as u64) + ts;
            proof {
                lemma_div_is_ordered_by_denominator(xnum as int, 2, 2 * ts as int);
                lemma_div_is_ordered(xnum as int, 0x4001_0000, 2);
            }
            xnum / (2 * ts)
        } else {
            proof {
                lemma_div_is_ordered_by_denominator(px as int, 2, 2 * ts as int);
                lemma_div_is_ordered(px as int, 0x4000_0000, 2);
            }
            (px as u64) / (2 * ts)
        };
        (nx as i32, ny as i32)
    }

    /// The connection nearest to a screen point, per the documented
    /// remainder-comparison heuristic.
    pub fn nearest_edge_to_click(&self, px: u32, py: u32) -> (r: Connection)
        requires
            1 <= self.tile_size,
            px < 0x4000_0000,
            py < 0x4000_0000,
        ensures
            r == spec_click_connection(self.tile_size as int, px as int, py as int),
    {
        let n = self.nearest_node_to_click(px, py);
        let x1 = n.0;
        let y1 = n.1;
        let ts = self.tile_size as i64;
        let off: i64 = if y1 % 2 == 0 {
            0
        } else {
            ts
        };
        proof {
            assert(0 <= 2 * (ts as int) * (x1 as int) <= 0x1_0000_0000_0000int)
                by (nonlinear_arith)
                requires 1 <= ts <= 0x1_0000, 0 <= x1 <= 0x2000_8000;
            assert(0 <= (ts as int) * (y1 as int) <= 0x1_0000_0000_0000int)
                by (nonlinear_arith)
                requires 1 <= ts <= 0x1_0000, 0 <= y1 <= 0x4000_8000;
        }
        let xd: i64 = (px as i64) - off - 2 * ts * (x1 as i64);
        let yd2: i64 = 2 * ((py as i64) - ts * (y1 as i64));
        if xd >= yd2 {
            let x2: i32 = if xd >= 0 {
                x1 + 1
            } else if x1 >= 1 {
                x1 - 1
            } else {
                0
            };
            Connection { ax: x1, ay: y1, bx: x2, by: y1 }
        } else {
            let y2: i32 = if yd2 >= 0 {
                y1 + 2
            } else if y1 >= 2 {
                y1 - 2
            } else {
                0
            };
            Connection { ax: x1, ay: y1, bx: x1, by: y2 }
        }
    }

    /// Index of a stored pair denoting the given connection, if any.
    fn find_connection(&self, c: Connection) -> (r: Option<usize>)
        ensures
            match r {
                Some(i) => i < self.edges@.len() && same_connection(self.edges@[i as int], c),
                None => !self.spec_connected(c),
            },
    {
        let n = self.edges.len();
        let mut i: usize = 0;
        while i < n
            invariant
                n == self.edges@.len(),
                i <= n,
                forall|k: int|
                    0 <= k < i ==> !connection_matches(
                        #[trigger] self.edges@[k],
                        c.ax as int,
                        c.ay as int,
                        c.bx as int,
                        c.by as int,
                    ),
            decreases n - i,
        {
            let e = self.edges[i];
            if (e.ax == c.ax && e.ay == c.ay && e.bx == c.bx && e.by == c.by) || (e.ax == c.bx
                && e.ay == c.by && e.bx == c.ax && e.by == c.ay) {
                return Some(i);
            }
            i += 1;
        }
        None
    }

    /// Order-independent membership test.
    pub fn contains(&self, c: Connection) -> (r: bool)
        ensures
            r == self.spec_connected(c),
    {
        match self.find_connection(c) {
            Some(i) => {
                proof {
                    assert(connection_matches(
                        self.edges@[i as int],
                        c.ax as int,
                        c.ay as int,
                        c.bx as int,
                        c.by as int,
                    ));
                }
                true
            },
            None => false,
        }
    }

    /// Order-independent membership test on bare node coordinates.
    pub fn contains_nodes(&self, ax: i32, ay: i32, bx: i32, by: i32) -> (r: bool)
        ensures
            r == self.spec_connected_at(ax as int, ay as int, bx as int, by as int),
    {
        self.contains(Connection { ax, ay, bx, by })
    }

    /// Toggle a connection: remove it if present (in either order), insert
    /// it otherwise.  Any lattice-adjacent pair is accepted, including
    /// coordinates outside the visible grid; the graph does no bounds
    /// checking.
    pub fn toggle(&mut self, c: Connection) -> (r: ConnectionState)
        requires
            old(self).wf(),
        ensures
            final(self).wf(),
            toggle_rel(*old(self), *final(self), c),
            (r is Removed) <==> old(self).spec_connected(c),
            (r is Added) <==> !old(self).spec_connected(c),
    {
        let found = self.find_connection(c);
        match found {
            Some(i) => {
                let ghost olde = self.edges@;
                self.edges.remove(i);
                proof {
                    olde.remove_ensures(i as int);
                    self.lemma_after_remove(*old(self), olde, i as int, c);
                }
                ConnectionState::Removed
            },
            None => {
                let ghost olde = self.edges@;
                self.edges.push(c);
                proof {
                    self.lemma_after_push(*old(self), olde, c);
                }
                ConnectionState::Added
            },
        }
    }

    /// After removing the one stored pair that denotes `c`, the graph no
    /// longer connects `c` and every other connection is untouched.
    proof fn lemma_after_remove(self, pre: TileMatrix, olde: Seq<Connection>, i: int, c: Connection)
        requires
            pre.wf(),
            olde == pre.edges@,
            0 <= i < olde.len(),
            same_connection(olde[i], c),
            self.edges@ == olde.remove(i),
            self.width == pre.width,
            self.height == pre.height,
            self.tile_size == pre.tile_size,
        ensures
            self.wf(),
            toggle_rel(pre, self, c),
            pre.spec_connected(c),
    {
        olde.remove_ensures(i);
        let newe = self.edges@;
        // well-formedness: surviving pairs keep their pairwise distinctness
        assert forall|p: int, q: int|
            0 <= p < q < newe.len() implies !same_connection(#[trigger] newe[p], #[trigger] newe[q]) by {
            let p0 = if p < i {
                p
            } else {
                p + 1
            };
            let q0 = if q < i {
                q
            } else {
                q + 1
            };
            assert(newe[p] == olde[p0]);
            assert(newe[q] == olde[q0]);
        }
        // the pair at i witnesses the old connectivity of c
        assert(connection_matches(olde[i], c.ax as int, c.ay as int, c.bx as int, c.by as int));
        // c is no longer connected: a surviving witness would have stood
        // beside the removed pair in the old graph, against wf
        assert forall|k: int| 0 <= k < newe.len() implies !connection_matches(
            #[trigger] newe[k],
            c.ax as int,
            c.ay as int,
            c.bx as int,
            c.by as int,
        ) by {
            let k0 = if k < i {
                k
            } else {
                k + 1
            };
            assert(newe[k] == olde[k0]);
            if connection_matches(olde[k0], c.ax as int, c.ay as int, c.bx as int, c.by as int) {
                assert(same_connection(olde[k0], c));
                assert(same_connection(olde[i], olde[k0]) || same_connection(olde[k0], olde[i]));
            }
        }
        // every connection other than c keeps its membership
        assert forall|d: Connection| !same_connection(c, d) implies self.spec_connected(d)
            == pre.spec_connected(d) by {
            if self.spec_connected(d) {
                let k = choose|k: int|
                    0 <= k < newe.len() && connection_matches(
                        #[trigger] newe[k],
                        d.ax as int,
                        d.ay as int,
                        d.bx as int,
                        d.by as int,
                    );
                let k0 = if k < i {
                    k
                } else {
                    k + 1
                };
                assert(newe[k] == olde[k0]);
                assert(connection_matches(olde[k0], d.ax as int, d.ay as int, d.bx as int, d.by as int));
            }
            if pre.spec_connected(d) {
                let k0 = choose|k0: int|
                    0 <= k0 < olde.len() && connection_matches(
                        #[trigger] olde[k0],
                        d.ax as int,
                        d.ay as int,
                        d.bx as int,
                        d.by as int,
                    );
                // the witness is not the removed pair, else c and d would
                // denote the same connection
                assert(k0 != i);
                let k = if k0 < i {
                    k0
                } else {
                    k0 - 1
                };
                assert(newe[k] == olde[k0]);
            }
        }
    }

    /// After appending a pair for a connection that was absent, the graph
    /// connects it and every other connection is untouched.
    proof fn lemma_after_push(self, pre: TileMatrix, olde: Seq<Connection>, c: Connection)
        requires
            pre.wf(),
            olde == pre.edges@,
            !pre.spec_connected(c),
            self.edges@ == olde.push(c),
            self.width == pre.width,
            self.height == pre.height,
            self.tile_size == pre.tile_size,
        ensures
            self.wf(),
            toggle_rel(pre, self, c),
    {
        let newe = self.edges@;
        let n = olde.len() as int;
        assert(newe[n] == c);
        // well-formedness: the new pair clashes with no stored pair, since
        // c was not connected
        assert forall|p: int, q: int|
            0 <= p < q < newe.len() implies !same_connection(#[trigger] newe[p], #[trigger] newe[q]) by {
            if q < n {
                assert(newe[p] == olde[p]);
                assert(newe[q] == olde[q]);
            } else {
                assert(newe[p] == olde[p]);
                assert(newe[q] == c);
                if same_connection(olde[p], c) {
                    assert(connection_matches(
                        olde[p],
                        c.ax as int,
                        c.ay as int,
                        c.bx as int,
                        c.by as int,
                    ));
                }
            }
        }
        // c is now connected, witnessed by the appended pair
        assert(connection_matches(newe[n], c.ax as int, c.ay as int, c.bx as int, c.by as int));
        // every connection other than c keeps its membership
        assert forall|d: Connection| !same_connection(c, d) implies self.spec_connected(d)
            == pre.spec_connected(d) by {
            if self.spec_connected(d) {
                let k = choose|k: int|
                    0 <= k < newe.len() && connection_matches(
                        #[trigger] newe[k],
                        d.ax as int,
                        d.ay as int,
                        d.bx as int,
                        d.by as int,
                    );
                // the witness is not the appended pair, else c and d would
                // denote the same connection
                assert(k != n);
                assert(newe[k] == olde[k]);
            }
            if pre.spec_connected(d) {
                let k = choose|k: int|
                    0 <= k < olde.len() && connection_matches(
                        #[trigger] olde[k],
                        d.ax as int,
                        d.ay as int,
                        d.bx as int,
                        d.by as int,
                    );
                assert(newe[k] == olde[k]);
            }
        }
    }

    /// Toggle the connection nearest to a click, ignoring clicks outside
    /// the rendered grid: those leave the graph exactly as it was.
    pub fn flip_edge(&mut self, px: u32, py: u32) -> (r: Option<ConnectionState>)
        requires
            old(self).wf(),
        ensures
            final(self).wf(),
            spec_click_in_grid(*old(self), px as int, py as int) ==> {
                let c = spec_click_connection(old(self).tile_size as int, px as int, py as int);
                &&& toggle_rel(*old(self), *final(self), c)
                &&& (r == Some(ConnectionState::Removed) <==> old(self).spec_connected(c))
                &&& (r == Some(ConnectionState::Added) <==> !old(self).spec_connected(c))
            },
            !spec_click_in_grid(*old(self), px as int, py as int) ==> r is None && *final(self)
                == *old(self),
    {
        let w = (self.width as u64) * (self.tile_size as u64);
        let h = (self.height as u64) * (self.tile_size as u64);
        if (px as u64) < w && (py as u64) < h {
            let c = self.nearest_edge_to_click(px, py);
            let st = self.toggle(c);
            Some(st)
        } else {
            None
        }
    }

    /// The cut across one half of a tile: of the two candidate connections
    /// for that half under the tile's parity pair, both present makes a
    /// cross, only the vertical candidate a vertical cut, only the
    /// horizontal one a horizontal cut, neither an open half.
    pub open spec fn spec_cut(self, x: int, y: int, is_bottom: bool) -> Cut {
        let nx = (x + 1) / 2;
        let ny = y;
        let re = y % 2 == 0;
        let ce = x % 2 == 0;
        let vh = if is_bottom {
            if re && ce {
                (
                    self.spec_connected_at(nx, ny, nx, ny + 2),
                    self.spec_connected_at(nx - 1, ny + 1, nx, ny + 1),
                )
            } else if !re && ce {
                (
                    self.spec_connected_at(nx, ny, nx, ny + 2),
                    self.spec_connected_at(nx, ny + 1, nx + 1, ny + 1),
                )
            } else if !re && !ce {
                (
                    self.spec_connected_at(nx - 1, ny, nx - 1, ny + 2),
                    self.spec_connected_at(nx - 1, ny + 1, nx, ny + 1),
                )
            } else {
                (
                    self.spec_connected_at(nx, ny, nx, ny + 2),
                    self.spec_connected_at(nx - 1, ny + 1, nx, ny + 1),
                )
            }
        } else {
            if re && ce {
                (
                    self.spec_connected_at(nx, ny - 1, nx, ny + 1),
                    self.spec_connected_at(nx, ny, nx + 1, ny),
                )
            } else if !re && !ce {
                (
                    self.spec_connected_at(nx, ny - 1, nx, ny + 1),
                    self.spec_connected_at(nx - 1, ny, nx, ny),
                )
            } else if re && !ce {
                (
                    self.spec_connected_at(nx - 1, ny - 1, nx - 1, ny + 1),
                    self.spec_connected_at(nx - 1, ny, nx, ny),
                )
            } else {
                (
                    self.spec_connected_at(nx, ny - 1, nx, ny + 1),
                    self.spec_connected_at(nx - 1, ny, nx, ny),
                )
            }
        };
        if vh.0 && vh.1 {
            Cut::Cross
        } else if vh.0 {
            Cut::Vertical
        } else if vh.1 {
            Cut::Horizontal
        } else {
            Cut::Open
        }
    }

    /// Read one cut of the tile at `(x, y)` from the connection set.
    fn cut_for_tile(&self, x: u16, y: u16, row_offset: Offset, col_offset: Offset, is_bottom: bool) -> (r: Cut)
        requires
            (row_offset is Even) <==> y as int % 2 == 0,
            (col_offset is Even) <==> x as int % 2 == 0,
        ensures
            r == self.spec_cut(x as int, y as int, is_bottom),
    {
        let n_x: i32 = ((x as i32) + 1) / 2;
        let n_y: i32 = y as i32;
        let vert: bool;
        let hori: bool;
        match (is_bottom, row_offset, col_offset) {
            (true, Offset::Even, Offset::Even) => {
                vert = self.contains_nodes(n_x, n_y, n_x, n_y + 2);
                hori = self.contains_nodes(n_x - 1, n_y + 1, n_x, n_y + 1);
            },
            (true, Offset::Odd, Offset::Even) => {
                vert = self.contains_nodes(n_x, n_y, n_x, n_y + 2);
                hori = self.contains_nodes(n_x, n_y + 1, n_x + 1, n_y + 1);
            },
            (true, Offset::Odd, Offset::Odd) => {
                vert = self.contains_nodes(n_x - 1, n_y, n_x - 1, n_y + 2);
                hori = self.contains_nodes(n_x - 1, n_y + 1, n_x, n_y + 1);
            },
            (true, Offset::Even, Offset::Odd) => {
                vert = self.contains_nodes(n_x, n_y, n_x, n_y + 2);
                hori = self.contains_nodes(n_x - 1, n_y + 1, n_x, n_y + 1);
            },
            (false, Offset::Even, Offset::Even) => {
                vert = self.contains_nodes(n_x, n_y - 1, n_x, n_y + 1);
                hori = self.contains_nodes(n_x, n_y, n_x + 1, n_y);
            },
            (false, Offset::Odd, Offset::Odd) => {
                vert = self.contains_nodes(n_x, n_y - 1, n_x, n_y + 1);
                hori = self.contains_nodes(n_x - 1, n_y, n_x, n_y);
            },
            (false, Offset::Even, Offset::Odd) => {
                vert = self.contains_nodes(n_x - 1, n_y - 1, n_x - 1, n_y + 1);
                hori = self.contains_nodes(n_x - 1, n_y, n_x, n_y);
            },
            (false, Offset::Odd, Offset::Even) => {
                vert = self.contains_nodes(n_x, n_y - 1, n_x, n_y + 1);
                hori = self.contains_nodes(n_x - 1, n_y, n_x, n_y);
            },
        }
        if vert && hori {
            Cut::Cross
        } else if vert {
            Cut::Vertical
        } else if hori {
            Cut::Horizontal
        } else {
            Cut::Open
        }
    }

    /// A tile's full classification, read fresh from the connection set.
    pub open spec fn spec_tile_for_pos(self, x: int, y: int) -> Tile {
        Tile {
            bottom_cut: self.spec_cut(x, y, true),
            top_cut: self.spec_cut(x, y, false),
            row_offset: if y % 2 == 1 {
                Offset::Odd
            } else {
                Offset::Even
            },
            col_offset: if x % 2 == 1 {
                Offset::Odd
            } else {
                Offset::Even
            },
        }
    }

    /// Classify the tile at `(x, y)`: total for every coordinate and every
    /// state of the graph.
    pub fn tile_for_pos(&self, x: u16, y: u16) -> (r: Tile)
        ensures
            r == self.spec_tile_for_pos(x as int, y as int),
    {
        let row_offset = if y % 2 == 1 {
            Offset::Odd
        } else {
            Offset::Even
        };
        let col_offset = if x % 2 == 1 {
            Offset::Odd
        } else {
            Offset::Even
        };
        Tile {
            bottom_cut: self.cut_for_tile(x, y, row_offset, col_offset, true),
            top_cut: self.cut_for_tile(x, y, row_offset, col_offset, false),
            row_offset,
            col_offset,
        }
    }
}

/// Classifier totality: every tile coordinate, whatever connections are
/// present, classifies to one of the four defined cuts for each half and
/// to one of the two parities for each axis.
pub proof fn lemma_classifier_total(m: TileMatrix, x: int, y: int)
    ensures
        ({
            let t = m.spec_tile_for_pos(x, y);
            &&& (t.bottom_cut is Open || t.bottom_cut is Horizontal || t.bottom_cut is Vertical
                || t.bottom_cut is Cross)
            &&& (t.top_cut is Open || t.top_cut is Horizontal || t.top_cut is Vertical
                || t.top_cut is Cross)
            &&& (t.row_offset is Even || t.row_offset is Odd)
            &&& (t.col_offset is Even || t.col_offset is Odd)
        }),
{
}

/// Geometry round trip: every node's screen position maps back to exactly
/// that node.
pub proof fn lemma_node_round_trip(ts: int, x: int, y: int)
    requires
        1 <= ts,
        0 <= x,
        0 <= y,
    ensures
        spec_nearest_node(ts, spec_node_loc(ts, x, y).0, spec_node_loc(ts, x, y).1) == (x, y),
{
    let px = spec_node_loc(ts, x, y).0;
    let py = spec_node_loc(ts, x, y).1;
    assert(2 * py + ts == y * (2 * ts) + ts) by (nonlinear_arith)
        requires py == y * ts;
    lemma_fundamental_div_mod_converse(2 * py + ts, 2 * ts, y, ts);
    if y % 2 == 0 {
        assert(px + ts == x * (2 * ts) + ts) by (nonlinear_arith)
            requires px == 2 * x * ts;
        lemma_fundamental_div_mod_converse(px + ts, 2 * ts, x, ts);
    } else {
        assert(px == x * (2 * ts) + ts) by (nonlinear_arith)
            requires px == ts + 2 * x * ts;
        lemma_fundamental_div_mod_converse(px, 2 * ts, x, ts);
    }
}

/// Connectivity is order-independent: a connection and its reversal are
/// either both present or both absent.
pub proof fn lemma_connected_symmetric(m: TileMatrix, c: Connection)
    ensures
        m.spec_connected(c) == m.spec_connected(c.spec_reversed()),
{
    let r = c.spec_reversed();
    if m.spec_connected(c) {
        let k = choose|k: int|
            0 <= k < m.edges@.len() && connection_matches(
                #[trigger] m.edges@[k],
                c.ax as int,
                c.ay as int,
                c.bx as int,
                c.by as int,
            );
        assert(connection_matches(m.edges@[k], r.ax as int, r.ay as int, r.bx as int, r.by as int));
    }
    if m.spec_connected(r) {
        let k = choose|k: int|
            0 <= k < m.edges@.len() && connection_matches(
                #[trigger] m.edges@[k],
                r.ax as int,
                r.ay as int,
                r.bx as int,
                r.by as int,
            );
        assert(connection_matches(m.edges@[k], c.ax as int, c.ay as int, c.bx as int, c.by as int));
    }
}

/// Connection symmetry and toggle round trip: after one toggle the
/// connection reads the same in both endpoint orders and its membership
/// has flipped; a second toggle restores every connection's membership.
pub proof fn lemma_toggle_round_trip(
    g0: TileMatrix,
    g1: TileMatrix,
    g2: TileMatrix,
    c: Connection,
)
    requires
        toggle_rel(g0, g1, c),
        toggle_rel(g1, g2, c),
    ensures
        g1.spec_connected(c) == g1.spec_connected(c.spec_reversed()),
        g1.spec_connected(c) == !g0.spec_connected(c),
        forall|d: Connection| g2.spec_connected(d) == g0.spec_connected(d),
{
    lemma_connected_symmetric(g1, c);
    assert forall|d: Connection| g2.spec_connected(d) == g0.spec_connected(d) by {
        if same_connection(c, d) {
            lemma_connected_symmetric(g0, c);
            lemma_connected_symmetric(g1, c);
            lemma_connected_symmetric(g2, c);
            assert(d == c || d == c.spec_reversed());
        }
    }
}

} // verus!
