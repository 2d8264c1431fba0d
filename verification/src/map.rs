use rand::rngs::ThreadRng;
use vstd::prelude::*;

use crate::random::{gen_range, gen_ratio, shuffle, thread_rng};

verus! {

#[derive(Debug, Clone, Copy, PartialEq, Eq, Structural)]
pub enum Tile {
    Ground,
    Forest,
    Stone,
    Berry,
    Enemy,
    Ruin,
}

/// A rectangular grid of tiles, stored row by row.
#[derive(Debug, Clone)]
pub struct ExplorationMap {
    pub width: i32,
    pub height: i32,
    pub tiles: Vec<Tile>,
}

/// Tiles that movement cannot enter: stones, enemies and ruins.
pub open spec fn blocks(t: Tile) -> bool {
    t == Tile::Stone || t == Tile::Enemy || t == Tile::Ruin
}

/// Tiles that a gathering card collects.
pub open spec fn gatherable(t: Tile) -> bool {
    t == Tile::Forest || t == Tile::Stone || t == Tile::Berry
}

impl ExplorationMap {
    /// The grid holds exactly `width * height` tiles, and every position's index fits in `i32`.
    pub open spec fn wf(&self) -> bool {
        &&& 0 <= self.width
        &&& 0 <= self.height
        &&& self.width * self.height <= i32::MAX
        &&& self.tiles.len() == self.width * self.height
    }

    pub open spec fn in_bounds(&self, x: int, y: int) -> bool {
        0 <= x < self.width && 0 <= y < self.height
    }

    pub open spec fn idx(&self, x: int, y: int) -> int {
        y * self.width + x
    }

    /// The tile at a position.
    pub open spec fn tile(&self, x: int, y: int) -> Tile {
        self.tiles@[self.idx(x, y)]
    }

    /// A position that movement may enter.
    pub open spec fn passable(&self, x: int, y: int) -> bool {
        self.in_bounds(x, y) && !blocks(self.tile(x, y))
    }

    /// The index of a position in the row-by-row tile list.
    pub fn index(&self, x: i32, y: i32) -> (i: usize)
        requires
            self.wf(),
            self.in_bounds(x as int, y as int),
        ensures
            i == self.idx(x as int, y as int),
            i < self.tiles.len(),
    {
        proof {
            lemma_index_in_range(self.width as int, self.height as int, x as int, y as int);
        }
        (y * self.width + x) as usize
    }

    /// The tile at a position.
    pub fn tile_at(&self, x: i32, y: i32) -> (t: Tile)
        requires
            self.wf(),
            self.in_bounds(x as int, y as int),
        ensures
            t == self.tile(x as int, y as int),
    {
        let i = self.index(x, y);
        self.tiles[i]
    }

    pub(crate) fn set_tile(&mut self, x: i32, y: i32, tile: Tile)
        requires
            old(self).wf(),
            old(self).in_bounds(x as int, y as int),
        ensures
            final(self).wf(),
            final(self).width == old(self).width,
            final(self).height == old(self).height,
            final(self).tiles@ == old(self).tiles@.update(old(self).idx(x as int, y as int), tile),
    {
        let i = self.index(x, y);
        self.tiles.set(i, tile);
    }

    /// Whether movement cannot enter the tile at a position.
    pub fn is_blocking(&self, x: i32, y: i32) -> (b: bool)
        requires
            self.wf(),
            self.in_bounds(x as int, y as int),
        ensures
            b == blocks(self.tile(x as int, y as int)),
    {
        let t = self.tile_at(x, y);
        t == Tile::Stone || t == Tile::Enemy || t == Tile::Ruin
    }
}

/// Positions inside a `width` by `height` grid have distinct indices below `width * height`.
pub proof fn lemma_index_in_range(width: int, height: int, x: int, y: int)
    requires
        0 <= x < width,
        0 <= y < height,
    ensures
        0 <= y * width + x < width * height,
{
    assert(0 <= y * width + x < width * height) by (nonlinear_arith)
        requires
            0 <= x < width,
            0 <= y < height,
    ;
}

/// Different in-bounds positions have different indices.
pub proof fn lemma_index_injective(width: int, x1: int, y1: int, x2: int, y2: int)
    requires
        0 <= x1 < width,
        0 <= x2 < width,
        0 <= y1,
        0 <= y2,
        y1 * width + x1 == y2 * width + x2,
    ensures
        x1 == x2 && y1 == y2,
{
    if y1 < y2 {
        assert((y2 - y1) * width >= width) by (nonlinear_arith)
            requires
                y2 - y1 >= 1,
                width > 0,
        ;
        assert(y2 * width == y1 * width + (y2 - y1) * width) by (nonlinear_arith);
    } else if y2 < y1 {
        assert((y1 - y2) * width >= width) by (nonlinear_arith)
            requires
                y1 - y2 >= 1,
                width > 0,
        ;
        assert(y1 * width == y2 * width + (y1 - y2) * width) by (nonlinear_arith);
    }
}

/// Two grid positions share an edge.
pub open spec fn adjacent(a: (int, int), b: (int, int)) -> bool {
    (a.0 == b.0 && (a.1 == b.1 + 1 || a.1 + 1 == b.1)) || (a.1 == b.1 && (a.0 == b.0 + 1 || a.0 + 1
        == b.0))
}

/// Some cell of `cells` shares an edge with `c`.
pub open spec fn touches_any(cells: Seq<(i32, i32)>, c: (int, int)) -> bool
    decreases cells.len(),
{
    if cells.len() == 0 {
        false
    } else {
        touches_any(cells.drop_last(), c) || adjacent(
            (cells.last().0 as int, cells.last().1 as int),
            c,
        )
    }
}

pub proof fn lemma_touches_any_witness(cells: Seq<(i32, i32)>, c: (int, int))
    requires
        touches_any(cells, c),
    ensures
        exists|j: int|
            0 <= j < cells.len() && #[trigger] adjacent((cells[j].0 as int, cells[j].1 as int), c),
    decreases cells.len(),
{
    if touches_any(cells.drop_last(), c) {
        lemma_touches_any_witness(cells.drop_last(), c);
        let j = choose|j: int|
            0 <= j < cells.drop_last().len() && #[trigger] adjacent(
                (cells.drop_last()[j].0 as int, cells.drop_last()[j].1 as int),
                c,
            );
        assert(cells[j] == cells.drop_last()[j]);
    } else {
        assert(adjacent((cells[cells.len() - 1].0 as int, cells[cells.len() - 1].1 as int), c));
    }
}

pub proof fn lemma_touches_any_of_member(cells: Seq<(i32, i32)>, j: int, c: (int, int))
    requires
        0 <= j < cells.len(),
        adjacent((cells[j].0 as int, cells[j].1 as int), c),
    ensures
        touches_any(cells, c),
    decreases cells.len(),
{
    if j < cells.len() - 1 {
        assert(cells.drop_last()[j] == cells[j]);
        lemma_touches_any_of_member(cells.drop_last(), j, c);
    }
}

pub proof fn lemma_touches_any_take(cells: Seq<(i32, i32)>, i: int, c: (int, int))
    requires
        0 <= i < cells.len(),
    ensures
        touches_any(cells.take(i + 1), c) == (touches_any(cells.take(i), c) || adjacent(
            (cells[i].0 as int, cells[i].1 as int),
            c,
        )),
{
    assert(cells.take(i + 1).drop_last() =~= cells.take(i));
}

impl ExplorationMap {
    /// `c` can be reached from `s` in at most `k` edge steps, every step entering a passable
    /// position (the start itself may be anything).
    pub open spec fn reach(&self, s: (int, int), c: (int, int), k: nat) -> bool
        decreases k,
    {
        if k == 0 {
            c == s
        } else {
            self.reach(s, c, (k - 1) as nat) || (self.passable(c.0, c.1) && (self.reach(
                s,
                (c.0 + 1, c.1),
                (k - 1) as nat,
            ) || self.reach(s, (c.0 - 1, c.1), (k - 1) as nat) || self.reach(
                s,
                (c.0, c.1 + 1),
                (k - 1) as nat,
            ) || self.reach(s, (c.0, c.1 - 1), (k - 1) as nat)))
        }
    }

    /// A position first reached in exactly `k` steps.
    pub open spec fn reach_exactly(&self, s: (int, int), c: (int, int), k: nat) -> bool {
        self.reach(s, c, k) && (k == 0 || !self.reach(s, c, (k - 1) as nat))
    }

    pub proof fn lemma_reach_mono(&self, s: (int, int), c: (int, int), k: nat, m: nat)
        requires
            k <= m,
            self.reach(s, c, k),
        ensures
            self.reach(s, c, m),
        decreases m - k,
    {
        if k < m {
            self.lemma_reach_mono(s, c, k, (m - 1) as nat);
        }
    }

    pub proof fn lemma_reach_start_or_passable(&self, s: (int, int), c: (int, int), k: nat)
        requires
            self.reach(s, c, k),
        ensures
            c == s || self.passable(c.0, c.1),
        decreases k,
    {
        if k > 0 && self.reach(s, c, (k - 1) as nat) {
            self.lemma_reach_start_or_passable(s, c, (k - 1) as nat);
        }
    }

    /// Once a step adds nothing, no later step adds anything.
    pub proof fn lemma_reach_stable(&self, s: (int, int), c: (int, int), k: nat, m: nat)
        requires
            k <= m,
            forall|d: (int, int)| #[trigger] self.reach(s, d, k + 1) == self.reach(s, d, k),
        ensures
            self.reach(s, c, m) == self.reach(s, c, k),
        decreases m - k,
    {
        if k < m {
            let p = (m - 1) as nat;
            self.lemma_reach_stable(s, c, k, p);
            self.lemma_reach_stable(s, (c.0 + 1, c.1), k, p);
            self.lemma_reach_stable(s, (c.0 - 1, c.1), k, p);
            self.lemma_reach_stable(s, (c.0, c.1 + 1), k, p);
            self.lemma_reach_stable(s, (c.0, c.1 - 1), k, p);
            assert(self.reach(s, c, k + 1) == self.reach(s, c, k));
        }
    }

    /// Marks a position as visited and queues it, if it is inside the map, passable and not
    /// yet visited.
    fn visit(&self, visited: &mut Vec<bool>, next: &mut Vec<(i32, i32)>, x: i32, y: i32)
        requires
            self.wf(),
            old(visited).len() == self.tiles.len(),
        ensures
            final(visited).len() == old(visited).len(),
            forall|a: int, b: int|
                self.in_bounds(a, b) ==> #[trigger] final(visited)@[self.idx(a, b)] == (
                old(visited)@[self.idx(a, b)] || (a == x && b == y && self.passable(a, b))),
            final(next)@ == if self.passable(x as int, y as int) && !old(visited)@[self.idx(
                x as int,
                y as int,
            )] {
                old(next)@.push((x, y))
            } else {
                old(next)@
            },
    {
        if x < 0 || y < 0 || x >= self.width || y >= self.height {
            return ;
        }
        let i = self.index(x, y);
        if visited[i] || self.is_blocking(x, y) {
            return ;
        }
        visited.set(i, true);
        next.push((x, y));
        proof {
            assert forall|a: int, b: int| self.in_bounds(a, b) implies #[trigger] visited@[self.idx(a, b)] == (
            old(visited)@[self.idx(a, b)] || (a == x && b == y && self.passable(a, b))) by {
                lemma_index_in_range(self.width as int, self.height as int, a, b);
                if self.idx(a, b) == i {
                    lemma_index_injective(self.width as int, a, b, x as int, y as int);
                }
            }
        }
    }

    /// Visits the four edge neighbours of `(cx, cy)`.
    fn expand(&self, visited: &mut Vec<bool>, next: &mut Vec<(i32, i32)>, cx: i32, cy: i32)
        requires
            self.wf(),
            self.in_bounds(cx as int, cy as int),
            old(visited).len() == self.tiles.len(),
        ensures
            final(visited).len() == old(visited).len(),
            forall|a: int, b: int|
                self.in_bounds(a, b) ==> #[trigger] final(visited)@[self.idx(a, b)] == (
                old(visited)@[self.idx(a, b)] || (self.passable(a, b) && adjacent(
                    (cx as int, cy as int),
                    (a, b),
                ))),
            old(next).len() <= final(next).len(),
            forall|j: int| 0 <= j < old(next).len() ==> #[trigger] final(next)@[j] == old(next)@[j],
            forall|j: int|
                old(next).len() <= j < final(next).len() ==> self.passable(
                    #[trigger] final(next)@[j].0 as int,
                    final(next)@[j].1 as int,
                ) && !old(visited)@[self.idx(final(next)@[j].0 as int, final(next)@[j].1 as int)]
                    && adjacent(
                    (cx as int, cy as int),
                    (final(next)@[j].0 as int, final(next)@[j].1 as int),
                ),
            forall|a: int, b: int|
                self.passable(a, b) && !old(visited)@[self.idx(a, b)] && #[trigger] adjacent(
                    (cx as int, cy as int),
                    (a, b),
                ) ==> final(next)@.contains((a as i32, b as i32)),
    {
        let ghost v0 = visited@;
        let ghost n0 = next@;
        self.visit(visited, next, cx + 1, cy);
        let ghost v1 = visited@;
        let ghost n1 = next@;
        self.visit(visited, next, cx - 1, cy);
        let ghost v2 = visited@;
        let ghost n2 = next@;
        self.visit(visited, next, cx, cy + 1);
        let ghost v3 = visited@;
        let ghost n3 = next@;
        self.visit(visited, next, cx, cy - 1);
        proof {
            let v4 = visited@;
            let n4 = next@;
            assert forall|j: int| 0 <= j < n0.len() implies #[trigger] n4[j] == n0[j] by {
                assert(n1[j] == n0[j]);
                assert(n2[j] == n1[j]);
                assert(n3[j] == n2[j]);
            }
            assert forall|j: int| n0.len() <= j < n4.len() implies self.passable(
                #[trigger] n4[j].0 as int,
                n4[j].1 as int,
            ) && !v0[self.idx(n4[j].0 as int, n4[j].1 as int)] && adjacent(
                (cx as int, cy as int),
                (n4[j].0 as int, n4[j].1 as int),
            ) by {
                let p = n4[j];
                let (a, b) = (p.0 as int, p.1 as int);
                if j < n1.len() {
                    assert(n4[j] == n1[j]);
                    assert(p == ((cx + 1) as i32, cy));
                } else if j < n2.len() {
                    assert(n4[j] == n2[j]);
                    assert(p == ((cx - 1) as i32, cy));
                    assert(!v1[self.idx(a, b)]);
                } else if j < n3.len() {
                    assert(n4[j] == n3[j]);
                    assert(p == (cx, (cy + 1) as i32));
                    assert(!v2[self.idx(a, b)]);
                    assert(!v1[self.idx(a, b)]);
                } else {
                    assert(p == (cx, (cy - 1) as i32));
                    assert(!v3[self.idx(a, b)]);
                    assert(!v2[self.idx(a, b)]);
                    assert(!v1[self.idx(a, b)]);
                }
            }
            assert forall|a: int, b: int|
                self.passable(a, b) && !v0[self.idx(a, b)] && #[trigger] adjacent(
                    (cx as int, cy as int),
                    (a, b),
                ) implies n4.contains((a as i32, b as i32)) by {
                let p = (a as i32, b as i32);
                if a == cx + 1 && b == cy {
                    assert(n1[n1.len() - 1] == p);
                    assert(n4[n1.len() - 1] == n1[n1.len() - 1]) by {
                        assert(n2[n1.len() - 1] == n1[n1.len() - 1]);
                        assert(n3[n1.len() - 1] == n2[n1.len() - 1]);
                    }
                } else if a == cx - 1 && b == cy {
                    assert(!v1[self.idx(a, b)]);
                    assert(n2[n2.len() - 1] == p);
                    assert(n4[n2.len() - 1] == n2[n2.len() - 1]) by {
                        assert(n3[n2.len() - 1] == n2[n2.len() - 1]);
                    }
                } else if a == cx && b == cy + 1 {
                    assert(!v1[self.idx(a, b)]);
                    assert(!v2[self.idx(a, b)]);
                    assert(n3[n3.len() - 1] == p);
                    assert(n4[n3.len() - 1] == n3[n3.len() - 1]);
                } else {
                    assert(!v1[self.idx(a, b)]);
                    assert(!v2[self.idx(a, b)]);
                    assert(!v3[self.idx(a, b)]);
                    assert(n4[n4.len() - 1] == p);
                }
            }
        }
    }

    /// A position first reached in `k + 1` steps has a neighbour first reached in `k` steps.
    pub proof fn lemma_new_cell_neighbor(&self, s: (int, int), k: nat, c: (int, int))
        requires
            self.in_bounds(s.0, s.1),
            self.reach(s, c, k + 1),
            !self.reach(s, c, k),
        ensures
            self.passable(c.0, c.1),
            exists|nb: (int, int)|
                adjacent(nb, c) && self.in_bounds(nb.0, nb.1) && #[trigger] self.reach_exactly(
                    s,
                    nb,
                    k,
                ),
    {
        let nbs = seq![(c.0 + 1, c.1), (c.0 - 1, c.1), (c.0, c.1 + 1), (c.0, c.1 - 1)];
        let j = choose|j: int| 0 <= j < 4 && self.reach(s, #[trigger] nbs[j], k);
        let nb = nbs[j];
        if k > 0 {
            if self.reach(s, nb, (k - 1) as nat) {
                assert(self.reach(s, c, k));
            }
        }
        self.lemma_reach_start_or_passable(s, nb, k);
        assert(adjacent(nb, c));
        assert(self.reach_exactly(s, nb, k));
    }

    /// One breadth-first round: the cells reached in `k + 1` steps are those reached in `k`
    /// steps plus the passable cells touching the frontier of cells first reached in `k`.
    pub proof fn lemma_frontier_step(
        &self,
        s: (int, int),
        f: Seq<(i32, i32)>,
        k: nat,
        a: int,
        b: int,
    )
        requires
            self.in_bounds(s.0, s.1),
            self.in_bounds(a, b),
            forall|j: int|
                0 <= j < f.len() ==> self.in_bounds(#[trigger] f[j].0 as int, f[j].1 as int)
                    && self.reach_exactly(s, (f[j].0 as int, f[j].1 as int), k),
            forall|x: int, y: int|
                self.in_bounds(x, y) && #[trigger] self.reach_exactly(s, (x, y), k)
                    ==> f.contains((x as i32, y as i32)),
        ensures
            (self.reach(s, (a, b), k) || (self.passable(a, b) && touches_any(f, (a, b))))
                == self.reach(s, (a, b), k + 1),
            (self.passable(a, b) && !self.reach(s, (a, b), k) && touches_any(f, (a, b)))
                == self.reach_exactly(s, (a, b), k + 1),
    {
        let c = (a, b);
        if self.passable(a, b) && touches_any(f, c) {
            lemma_touches_any_witness(f, c);
            let j = choose|j: int|
                0 <= j < f.len() && #[trigger] adjacent((f[j].0 as int, f[j].1 as int), c);
            let nb = (f[j].0 as int, f[j].1 as int);
            assert(self.reach(s, nb, k));
            assert(self.reach(s, c, k + 1));
        }
        if self.reach(s, c, k + 1) && !self.reach(s, c, k) {
            self.lemma_new_cell_neighbor(s, k, c);
            let nb = choose|nb: (int, int)|
                adjacent(nb, c) && self.in_bounds(nb.0, nb.1) && #[trigger] self.reach_exactly(
                    s,
                    nb,
                    k,
                );
            assert(f.contains((nb.0 as i32, nb.1 as i32)));
            let j = choose|j: int| 0 <= j < f.len() && f[j] == (nb.0 as i32, nb.1 as i32);
            lemma_touches_any_of_member(f, j, c);
        }
    }

    /// Whether the target differs from the start and can be reached from it in at most
    /// `range` steps through passable positions, searched breadth first.
    pub fn within_steps(&self, sx: i32, sy: i32, tx: i32, ty: i32, range: i32) -> (b: bool)
        requires
            self.wf(),
            self.in_bounds(sx as int, sy as int),
            self.in_bounds(tx as int, ty as int),
        ensures
            b == ((tx != sx || ty != sy) && self.reach(
                (sx as int, sy as int),
                (tx as int, ty as int),
                if range > 0 { range as nat } else { 0 },
            )),
    {
        let ghost s = (sx as int, sy as int);
        let n = self.tiles.len();
        let mut visited: Vec<bool> = vec![false; n];
        let si = self.index(sx, sy);
        visited.set(si, true);
        let mut frontier: Vec<(i32, i32)> = Vec::new();
        frontier.push((sx, sy));
        let mut k: i32 = 0;
        proof {
            assert forall|a: int, b: int| self.in_bounds(a, b) implies #[trigger] visited@[self.idx(a, b)]
                == self.reach(s, (a, b), 0) by {
                lemma_index_in_range(self.width as int, self.height as int, a, b);
                if self.idx(a, b) == si {
                    lemma_index_injective(self.width as int, a, b, sx as int, sy as int);
                }
            }
            assert forall|a: int, b: int|
                self.in_bounds(a, b) && #[trigger] self.reach_exactly(s, (a, b), 0) implies frontier@.contains(
                (a as i32, b as i32),
            ) by {
                assert(frontier@[0] == (sx, sy));
            }
        }
        while k < range && frontier.len() > 0
            invariant
                self.wf(),
                self.in_bounds(sx as int, sy as int),
                s == (sx as int, sy as int),
                0 <= k,
                k <= range || k == 0,
                k == 0 ==> frontier.len() > 0,
                visited.len() == self.tiles.len(),
                forall|a: int, b: int|
                    self.in_bounds(a, b) ==> #[trigger] visited@[self.idx(a, b)] == self.reach(
                        s,
                        (a, b),
                        k as nat,
                    ),
                forall|j: int|
                    0 <= j < frontier.len() ==> self.in_bounds(
                        #[trigger] frontier@[j].0 as int,
                        frontier@[j].1 as int,
                    ) && self.reach_exactly(
                        s,
                        (frontier@[j].0 as int, frontier@[j].1 as int),
                        k as nat,
                    ),
                forall|a: int, b: int|
                    self.in_bounds(a, b) && #[trigger] self.reach_exactly(s, (a, b), k as nat)
                        ==> frontier@.contains((a as i32, b as i32)),
            decreases range - k,
        {
            let mut next: Vec<(i32, i32)> = Vec::new();
            let mut i: usize = 0;
            while i < frontier.len()
                invariant
                    self.wf(),
                    0 <= k < range,
                    i <= frontier.len(),
                    visited.len() == self.tiles.len(),
                    forall|a: int, b: int|
                        self.in_bounds(a, b) ==> #[trigger] visited@[self.idx(a, b)] == (self.reach(
                            s,
                            (a, b),
                            k as nat,
                        ) || (self.passable(a, b) && touches_any(frontier@.take(i as int), (a, b)))),
                    forall|j: int|
                        0 <= j < next.len() ==> self.passable(
                            #[trigger] next@[j].0 as int,
                            next@[j].1 as int,
                        ) && !self.reach(s, (next@[j].0 as int, next@[j].1 as int), k as nat)
                            && touches_any(
                            frontier@.take(i as int),
                            (next@[j].0 as int, next@[j].1 as int),
                        ),
                    forall|a: int, b: int|
                        self.passable(a, b) && !self.reach(s, (a, b), k as nat)
                            && #[trigger] touches_any(frontier@.take(i as int), (a, b))
                            ==> next@.contains((a as i32, b as i32)),
                    forall|j: int|
                        0 <= j < frontier.len() ==> self.in_bounds(
                            #[trigger] frontier@[j].0 as int,
                            frontier@[j].1 as int,
                        ),
                decreases frontier.len() - i,
            {
                let (cx, cy) = frontier[i];
                let ghost before_v = visited@;
                let ghost before_n = next@;
                self.expand(&mut visited, &mut next, cx, cy);
                proof {
                    let f = frontier@;
                    assert forall|a: int, b: int| self.in_bounds(a, b) implies #[trigger] visited@[self.idx(a, b)]
                        == (self.reach(s, (a, b), k as nat) || (self.passable(a, b)
                        && touches_any(f.take(i + 1), (a, b)))) by {
                        lemma_touches_any_take(f, i as int, (a, b));
                    }
                    assert forall|j: int| 0 <= j < next.len() implies self.passable(
                        #[trigger] next@[j].0 as int,
                        next@[j].1 as int,
                    ) && !self.reach(s, (next@[j].0 as int, next@[j].1 as int), k as nat)
                        && touches_any(f.take(i + 1), (next@[j].0 as int, next@[j].1 as int)) by {
                        lemma_touches_any_take(f, i as int, (next@[j].0 as int, next@[j].1 as int));
                        if j < before_n.len() {
                            assert(next@[j] == before_n[j]);
                        }
                    }
                    assert forall|a: int, b: int|
                        self.passable(a, b) && !self.reach(s, (a, b), k as nat)
                            && #[trigger] touches_any(f.take(i + 1), (a, b)) implies next@.contains(
                        (a as i32, b as i32),
                    ) by {
                        lemma_touches_any_take(f, i as int, (a, b));
                        if touches_any(f.take(i as int), (a, b)) {
                            assert(before_n.contains((a as i32, b as i32)));
                            let w = choose|w: int|
                                0 <= w < before_n.len() && before_n[w] == (a as i32, b as i32);
                            assert(next@[w] == before_n[w]);
                        } else {
                            assert(adjacent((cx as int, cy as int), (a, b)));
                        }
                    }
                }
                i = i + 1;
            }
            proof {
                let f = frontier@;
                assert(f.take(f.len() as int) =~= f);
                let k1 = (k + 1) as nat;
                assert forall|a: int, b: int| self.in_bounds(a, b) implies #[trigger] visited@[self.idx(a, b)]
                    == self.reach(s, (a, b), k1) by {
                    self.lemma_frontier_step(s, f, k as nat, a, b);
                }
                assert forall|j: int| 0 <= j < next.len() implies self.in_bounds(
                    #[trigger] next@[j].0 as int,
                    next@[j].1 as int,
                ) && self.reach_exactly(s, (next@[j].0 as int, next@[j].1 as int), k1) by {
                    let a = next@[j].0 as int;
                    let b = next@[j].1 as int;
                    self.lemma_frontier_step(s, f, k as nat, a, b);
                }
                assert forall|a: int, b: int|
                    self.in_bounds(a, b) && #[trigger] self.reach_exactly(s, (a, b), k1) implies next@.contains(
                    (a as i32, b as i32),
                ) by {
                    self.lemma_frontier_step(s, f, k as nat, a, b);
                }
            }
            frontier = next;
            k = k + 1;
        }
        let ghost kk: nat = if range > 0 { range as nat } else { 0 };
        proof {
            if k < range {
                // The frontier ran empty: nothing new can be reached any more.
                assert forall|d: (int, int)| #[trigger] self.reach(s, d, (k + 1) as nat) == self.reach(
                    s,
                    d,
                    k as nat,
                ) by {
                    if self.reach(s, d, (k + 1) as nat) && !self.reach(s, d, k as nat) {
                        self.lemma_new_cell_neighbor(s, k as nat, d);
                        let nb = choose|nb: (int, int)|
                            adjacent(nb, d) && self.in_bounds(nb.0, nb.1)
                                && #[trigger] self.reach_exactly(s, nb, k as nat);
                        assert(frontier@.contains((nb.0 as i32, nb.1 as i32)));
                    }
                }
                self.lemma_reach_stable(s, (tx as int, ty as int), k as nat, kk);
            } else {
                assert(k as nat == kk);
            }
        }
        let ti = self.index(tx, ty);
        (tx != sx || ty != sy) && visited[ti]
    }
}

/// `new` differs from `old` only at positions that now hold `t`.
pub open spec fn only_adds(old: Seq<Tile>, new: Seq<Tile>, t: Tile) -> bool {
    &&& new.len() == old.len()
    &&& forall|i: int| 0 <= i < new.len() ==> #[trigger] new[i] == old[i] || new[i] == t
}

/// At most `n` positions differ between `old` and `new`: some list of at most `n`
/// positions holds every one that changed.
pub open spec fn changed_at_most(old: Seq<Tile>, new: Seq<Tile>, n: int) -> bool {
    exists|log: Seq<int>|
        log.len() <= n && forall|i: int| 0 <= i < new.len() && #[trigger] new[i] != old[i] ==> log.contains(i)
}

/// Each of `cells` lies on map `m` and holds `t` there.
pub open spec fn all_hold(m: ExplorationMap, cells: Seq<(int, int)>, t: Tile) -> bool {
    forall|k: int| 0 <= k < cells.len() ==> m.in_bounds((#[trigger] cells[k]).0, cells[k].1) && m.tile(cells[k].0, cells[k].1) == t
}

/// Setting one position changes at most one position.
pub proof fn lemma_changed_one(a: Seq<Tile>, i: int, t: Tile)
    requires
        0 <= i < a.len(),
    ensures
        changed_at_most(a, a.update(i, t), 1),
{
    let l = seq![i];
    let b = a.update(i, t);
    assert forall|j: int| 0 <= j < b.len() && #[trigger] b[j] != a[j] implies l.contains(j) by {
        assert(j == i);
        assert(l[0] == i);
    }
    assert(l.len() <= 1);
}

/// Each of `cells` lies on map `m` within three tiles of `(px, py)` along each axis and
/// holds a berry bush or a forest there.
pub open spec fn all_near(m: ExplorationMap, cells: Seq<(int, int)>, px: int, py: int) -> bool {
    forall|k: int|
        0 <= k < cells.len() ==> m.in_bounds((#[trigger] cells[k]).0, cells[k].1) && (m.tile(cells[k].0, cells[k].1) == Tile::Berry
            || m.tile(cells[k].0, cells[k].1) == Tile::Forest) && px - 3 <= cells[k].0 <= px + 3 && py - 3 <= cells[k].1 <= py + 3
}

/// Changes of at most `n` and then at most `m` positions change at most `n + m` positions.
pub proof fn lemma_changed_compose(a: Seq<Tile>, b: Seq<Tile>, c: Seq<Tile>, n: int, m: int)
    requires
        a.len() == b.len(),
        b.len() == c.len(),
        changed_at_most(a, b, n),
        changed_at_most(b, c, m),
    ensures
        changed_at_most(a, c, n + m),
{
    let l1 = choose|log: Seq<int>| log.len() <= n && forall|i: int| 0 <= i < b.len() && #[trigger] b[i] != a[i] ==> log.contains(i);
    let l2 = choose|log: Seq<int>| log.len() <= m && forall|i: int| 0 <= i < c.len() && #[trigger] c[i] != b[i] ==> log.contains(i);
    let l = l1 + l2;
    assert forall|i: int| 0 <= i < c.len() && #[trigger] c[i] != a[i] implies l.contains(i) by {
        if b[i] != a[i] {
            assert(l1.contains(i));
            let k = choose|k: int| 0 <= k < l1.len() && l1[k] == i;
            assert(l[k] == i);
        } else {
            assert(l2.contains(i));
            let k = choose|k: int| 0 <= k < l2.len() && l2[k] == i;
            assert(l[l1.len() + k] == i);
        }
    }
}

/// A change of nothing changes at most `n >= 0` positions.
pub proof fn lemma_changed_none(a: Seq<Tile>, n: int)
    requires
        n >= 0,
    ensures
        changed_at_most(a, a, n),
{
    let l = Seq::<int>::empty();
    assert(l.len() <= n && forall|i: int| 0 <= i < a.len() && #[trigger] a[i] != a[i] ==> l.contains(i));
}

/// More room for changes is still room enough.
pub proof fn lemma_changed_more(a: Seq<Tile>, b: Seq<Tile>, n: int, m: int)
    requires
        changed_at_most(a, b, n),
        n <= m,
    ensures
        changed_at_most(a, b, m),
{
    let l = choose|log: Seq<int>| log.len() <= n && forall|i: int| 0 <= i < b.len() && #[trigger] b[i] != a[i] ==> log.contains(i);
    assert(l.len() <= m);
}

/// Some cell of `cells` shares an edge with position `p`.
pub open spec fn next_to_cells(cells: Seq<(int, int)>, p: (i32, i32)) -> bool {
    exists|j: int| 0 <= j < cells.len() && adjacent(cells[j], (p.0 as int, p.1 as int))
}

/// Cell `k` of `cells` shares an edge with an earlier cell.
pub open spec fn grows_from_earlier(cells: Seq<(int, int)>, k: int) -> bool {
    exists|j: int| 0 <= j < k && adjacent(cells[j], cells[k])
}

/// `cells` lie on a `w`-wide, `h`-high map whose tiles are `tiles`, each holds `t`, and each
/// after the first shares an edge with an earlier one.
pub open spec fn cells_grown(w: int, h: int, tiles: Seq<Tile>, t: Tile, cells: Seq<(int, int)>) -> bool {
    &&& forall|k: int|
        0 <= k < cells.len() ==> 0 <= (#[trigger] cells[k]).0 < w && 0 <= cells[k].1 < h && tiles[cells[k].1 * w + cells[k].0] == t
    &&& forall|k: int| 0 < k < cells.len() ==> #[trigger] grows_from_earlier(cells, k)
}

/// A record of a cluster of `t` grown on a `w`-wide, `h`-high map from tiles `before` to
/// tiles `after`: `cells` lists the positions set to `t`, in order; each lies on the map and
/// holds `t` afterwards, each after the first shares an edge with an earlier one, and every
/// tile that changed is one of them.
pub open spec fn cluster_growth(w: int, h: int, before: Seq<Tile>, after: Seq<Tile>, t: Tile, cells: Seq<(int, int)>) -> bool {
    &&& cells_grown(w, h, after, t, cells)
    &&& forall|i: int|
        0 <= i < after.len() && #[trigger] after[i] != before[i] ==> exists|k: int|
            0 <= k < cells.len() && cells[k].1 * w + cells[k].0 == i
}

/// `path` walks from `path[0]` to its last position by steps between positions that share
/// an edge, over positions of a `w`-wide, `h`-high map whose tiles `tiles` hold `t`.
pub open spec fn walk_of(w: int, h: int, tiles: Seq<Tile>, t: Tile, path: Seq<(int, int)>) -> bool {
    &&& path.len() >= 1
    &&& forall|k: int| 0 <= k < path.len() ==> 0 <= (#[trigger] path[k]).0 < w && 0 <= path[k].1 < h && tiles[path[k].1 * w + path[k].0] == t
    &&& forall|k: int| 0 < k < path.len() ==> adjacent(path[k - 1], #[trigger] path[k])
}

/// A grown cluster is connected: every position it set is joined to the first one by a walk
/// over tiles of the cluster's kind.
pub proof fn lemma_cluster_connected(w: int, h: int, before: Seq<Tile>, after: Seq<Tile>, t: Tile, cells: Seq<(int, int)>, k: int)
    requires
        cluster_growth(w, h, before, after, t, cells),
        0 <= k < cells.len(),
    ensures
        exists|path: Seq<(int, int)>|
            #[trigger] walk_of(w, h, after, t, path) && path[0] == cells[0] && path[path.len() - 1] == cells[k],
    decreases k,
{
    assert(0 <= cells[k].0 < w);
    if k == 0 {
        let path = seq![cells[0]];
        assert(walk_of(w, h, after, t, path));
    } else {
        assert(grows_from_earlier(cells, k));
        let j = choose|j: int| 0 <= j < k && adjacent(cells[j], cells[k]);
        lemma_cluster_connected(w, h, before, after, t, cells, j);
        let p = choose|path: Seq<(int, int)>|
            #[trigger] walk_of(w, h, after, t, path) && path[0] == cells[0] && path[path.len() - 1] == cells[j];
        let q = p.push(cells[k]);
        assert forall|i: int| 0 <= i < q.len() implies 0 <= (#[trigger] q[i]).0 < w && 0 <= q[i].1 < h && after[q[i].1 * w
            + q[i].0] == t by {
            if i < p.len() {
                assert(q[i] == p[i]);
            }
        }
        assert forall|i: int| 0 < i < q.len() implies adjacent(q[i - 1], #[trigger] q[i]) by {
            if i < p.len() {
                assert(q[i] == p[i] && q[i - 1] == p[i - 1]);
            }
        }
        assert(walk_of(w, h, after, t, q) && q[0] == cells[0] && q[q.len() - 1] == cells[k]);
    }
}

/// A cluster that set two or more positions spread from its first one: a neighbour of the
/// first position lies on the map and holds the cluster's kind.
pub proof fn lemma_cluster_spreads(w: int, h: int, before: Seq<Tile>, after: Seq<Tile>, t: Tile, cells: Seq<(int, int)>)
    requires
        cluster_growth(w, h, before, after, t, cells),
        cells.len() >= 2,
    ensures
        exists|n: (int, int)|
            #[trigger] adjacent(cells[0], n) && 0 <= n.0 < w && 0 <= n.1 < h && after[n.1 * w + n.0] == t,
{
    assert(grows_from_earlier(cells, 1));
    assert(0 <= cells[1].0 < w);
    assert(adjacent(cells[0], cells[1]));
}

/// Of the four neighbours of a position on a map at least two tiles wide and high, in any
/// order, the first three include one on the map.
pub proof fn lemma_three_neighbours_reach_the_map(w: int, h: int, x: int, y: int, s: Seq<(i32, i32)>, orig: Seq<(i32, i32)>)
    requires
        2 <= w,
        2 <= h,
        0 <= x < w,
        0 <= y < h,
        orig.len() == 4,
        orig[0] == ((x + 1) as i32, y as i32),
        orig[1] == ((x - 1) as i32, y as i32),
        orig[2] == (x as i32, (y + 1) as i32),
        orig[3] == (x as i32, (y - 1) as i32),
        x + 1 <= i32::MAX,
        y + 1 <= i32::MAX,
        s.len() == 4,
        s.to_multiset() == orig.to_multiset(),
    ensures
        exists|k: int| 0 <= k < 3 && 0 <= (#[trigger] s[k]).0 < w && 0 <= s[k].1 < h,
{
    broadcast use vstd::seq_lib::group_to_multiset_ensures;

    assert(orig.no_duplicates());
    orig.lemma_multiset_has_no_duplicates();
    assert forall|v: (i32, i32)| s.to_multiset().contains(v) implies s.to_multiset().count(v) == 1 by {}
    s.lemma_multiset_has_no_duplicates_conv();
    assert(s.contains(s[0]) && s.contains(s[1]) && s.contains(s[2]));
    assert(s.to_multiset().count(s[0]) > 0 && s.to_multiset().count(s[1]) > 0 && s.to_multiset().count(s[2]) > 0);
    assert(orig.to_multiset().count(s[0]) > 0 && orig.to_multiset().count(s[1]) > 0 && orig.to_multiset().count(s[2]) > 0);
    assert(orig.contains(s[0]) && orig.contains(s[1]) && orig.contains(s[2]));
    if !(0 <= s[0].0 < w && 0 <= s[0].1 < h) && !(0 <= s[1].0 < w && 0 <= s[1].1 < h) {
        assert(0 <= s[2].0 < w && 0 <= s[2].1 < h);
    }
}

/// How many cells a cluster grown with room for `least` of them sets at the least on a
/// `w`-wide, `h`-high map: `least` when the map is at least two tiles wide and high, else
/// at most one.
pub open spec fn least_cells(w: int, h: int, least: int) -> int {
    if w >= 2 && h >= 2 { least } else if least >= 1 { 1 } else { least }
}

/// From tiles `before` to tiles `after` of a `w`-wide, `h`-high map a cluster of `t` grew
/// (see `cluster_growth`), setting at most `c` and at least `least_cells(w, h, least)`
/// positions.
pub open spec fn cluster_grown(w: int, h: int, before: Seq<Tile>, after: Seq<Tile>, t: Tile, c: int, least: int) -> bool {
    exists|cells: Seq<(int, int)>|
        least_cells(w, h, least) <= cells.len() <= c && #[trigger] cluster_growth(w, h, before, after, t, cells)
}

/// A cluster that grew within `c` cells and reached `least` also grew within more and reached
/// fewer.
pub proof fn lemma_cluster_grown_weaken(
    w: int,
    h: int,
    before: Seq<Tile>,
    after: Seq<Tile>,
    t: Tile,
    c: int,
    least: int,
    c2: int,
    least2: int,
)
    requires
        cluster_grown(w, h, before, after, t, c, least),
        c <= c2,
        least2 <= least,
    ensures
        cluster_grown(w, h, before, after, t, c2, least2),
{
    let cells = choose|cells: Seq<(int, int)>|
        least_cells(w, h, least) <= cells.len() <= c && #[trigger] cluster_growth(w, h, before, after, t, cells);
    assert(least_cells(w, h, least2) <= cells.len() <= c2 && cluster_growth(w, h, before, after, t, cells));
}

/// Step `k` of a record of clusters of `t` on a `w`-wide, `h`-high map: cluster `k` adds
/// nothing but `t`, changes at most `c` tiles, and grew as `cluster_grown` says, setting at
/// least `least_cells(w, h, least)` positions.
pub open spec fn cluster_step(maps: Seq<Seq<Tile>>, k: int, t: Tile, c: int, w: int, h: int, least: int) -> bool {
    &&& only_adds(maps[k], maps[k + 1], t)
    &&& changed_at_most(maps[k], maps[k + 1], c)
    &&& cluster_grown(w, h, maps[k], maps[k + 1], t, c, least)
}

/// A record of clusters of `t` grown one after another from tiles `m` to tiles `f` of a
/// `w`-wide, `h`-high map: `maps` holds the tiles before the first cluster and after each
/// one.
pub open spec fn cluster_trace(m: Seq<Tile>, f: Seq<Tile>, t: Tile, c: int, w: int, h: int, least: int, maps: Seq<Seq<Tile>>) -> bool {
    &&& maps.len() >= 1
    &&& maps[0] == m
    &&& maps[maps.len() - 1] == f
    &&& forall|k: int| 0 <= k < maps.len() - 1 ==> #[trigger] cluster_step(maps, k, t, c, w, h, least)
}

/// No clusters yet.
pub proof fn lemma_trace_start(m: Seq<Tile>, t: Tile, c: int, w: int, h: int, least: int)
    ensures
        cluster_trace(m, m, t, c, w, h, least, seq![m]),
{
}

/// One more cluster extends the record.
pub proof fn lemma_trace_push(
    m: Seq<Tile>,
    f: Seq<Tile>,
    t: Tile,
    c: int,
    w: int,
    h: int,
    least: int,
    maps: Seq<Seq<Tile>>,
    next: Seq<Tile>,
)
    requires
        cluster_trace(m, f, t, c, w, h, least, maps),
        only_adds(f, next, t),
        changed_at_most(f, next, c),
        cluster_grown(w, h, f, next, t, c, least),
    ensures
        cluster_trace(m, next, t, c, w, h, least, maps.push(next)),
{
    let grown = maps.push(next);
    assert forall|k: int| 0 <= k < grown.len() - 1 implies #[trigger] cluster_step(grown, k, t, c, w, h, least) by {
        if k < maps.len() - 1 {
            assert(cluster_step(maps, k, t, c, w, h, least));
            assert(grown[k] == maps[k] && grown[k + 1] == maps[k + 1]);
        } else {
            assert(grown[k] == f && grown[k + 1] == next);
        }
    }
}

/// `f` is map `m` after a seeding step that grows clusters (or single tiles) of `t` one after
/// another: from `lo` to `hi` of them, each adding nothing but `t` and changing at most `c`
/// tiles and setting at least `least_cells` positions (each after the first next to an
/// earlier one), with a position of each holding `t` in `f`; at most `n` tiles change in
/// all.
pub open spec fn clusters_seeded(m: ExplorationMap, f: ExplorationMap, t: Tile, lo: int, hi: int, c: int, least: int, n: int) -> bool {
    &&& f.wf()
    &&& f.width == m.width
    &&& f.height == m.height
    &&& only_adds(m.tiles@, f.tiles@, t)
    &&& exists|starts: Seq<(int, int)>, maps: Seq<Seq<Tile>>|
        lo <= starts.len() <= hi && maps.len() == starts.len() + 1 && #[trigger] all_hold(f, starts, t)
            && #[trigger] cluster_trace(m.tiles@, f.tiles@, t, c, m.width as int, m.height as int, least, maps)
    &&& changed_at_most(m.tiles@, f.tiles@, n)
}

/// `f` is map `m` after the resources near the player `(px, py)` are seeded: two to four
/// berry or forest cluster starts within three tiles of the player, nothing but berries
/// and forest added, at most 20 tiles changed.
pub open spec fn near_player_seeded(m: ExplorationMap, f: ExplorationMap, px: int, py: int) -> bool {
    &&& f.wf()
    &&& f.width == m.width
    &&& f.height == m.height
    &&& forall|i: int|
        0 <= i < f.tiles.len() ==> #[trigger] f.tiles@[i] == m.tiles@[i] || f.tiles@[i] == Tile::Berry || f.tiles@[i] == Tile::Forest
    &&& exists|starts: Seq<(int, int)>| 2 <= starts.len() <= 4 && #[trigger] all_near(f, starts, px, py)
    &&& changed_at_most(m.tiles@, f.tiles@, 20)
}

/// `f` is map `m` after the enemies are seeded: nothing but enemies added, at most 14
/// tiles changed.
pub open spec fn enemies_seeded(m: ExplorationMap, f: ExplorationMap) -> bool {
    &&& f.wf()
    &&& f.width == m.width
    &&& f.height == m.height
    &&& only_adds(m.tiles@, f.tiles@, Tile::Enemy)
    &&& changed_at_most(m.tiles@, f.tiles@, 14)
}

/// The tiles of map `m` with a ruin on the 2x2 square whose top-left corner is `(rx, ry)`.
pub open spec fn with_ruin(m: ExplorationMap, rx: int, ry: int) -> Seq<Tile> {
    m.tiles@.update(m.idx(rx, ry), Tile::Ruin).update(m.idx(rx + 1, ry), Tile::Ruin).update(m.idx(rx, ry + 1), Tile::Ruin).update(
        m.idx(rx + 1, ry + 1),
        Tile::Ruin,
    )
}

/// `f` is map `m` after a ruin site may have been seeded: either nothing changed, or a
/// ruin covers a 2x2 square inside the map.
pub open spec fn ruin_seeded(m: ExplorationMap, f: ExplorationMap) -> bool {
    &&& f.wf()
    &&& f.width == m.width
    &&& f.height == m.height
    &&& f.tiles@ == m.tiles@ || exists|rx: int, ry: int|
        0 <= rx && rx + 1 < m.width && 0 <= ry && ry + 1 < m.height && #[trigger] with_ruin(m, rx, ry) == f.tiles@
}

/// A record of how `map` was generated, `steps` holding the map after each step: an
/// all-ground `width` by `height` map; resources near the player `(px, py)`; two to four
/// large forests of at most 30 tiles each; eight to fourteen lone trees or groups of at
/// most 4; twelve to twenty-two stones; five to eight berry clusters of at most 6 bushes
/// each; at most fourteen enemies; possibly one ruin site inside the map; and the player's
/// tile set back to ground.
pub open spec fn generation_trace(width: int, height: int, px: int, py: int, steps: Seq<ExplorationMap>, map: ExplorationMap) -> bool {
    &&& steps.len() == 8
    &&& steps[0].wf()
    &&& steps[0].width == width
    &&& steps[0].height == height
    &&& forall|i: int| 0 <= i < steps[0].tiles.len() ==> #[trigger] steps[0].tiles@[i] == Tile::Ground
    &&& near_player_seeded(steps[0], steps[1], px, py)
    &&& clusters_seeded(steps[1], steps[2], Tile::Forest, 2, 4, 30, 2, 120)
    &&& clusters_seeded(steps[2], steps[3], Tile::Forest, 8, 14, 4, 1, 56)
    &&& clusters_seeded(steps[3], steps[4], Tile::Stone, 12, 22, 1, 1, 22)
    &&& clusters_seeded(steps[4], steps[5], Tile::Berry, 5, 8, 6, 2, 48)
    &&& enemies_seeded(steps[5], steps[6])
    &&& ruin_seeded(steps[6], steps[7])
    &&& map.width == width
    &&& map.height == height
    &&& map.tiles@ == steps[7].tiles@.update(steps[7].idx(px, py), Tile::Ground)
}

/// `map` is a `width` by `height` map generated around the player at `(px, py)` (see
/// `generation_trace`).
pub open spec fn generated(width: int, height: int, px: int, py: int, map: ExplorationMap) -> bool {
    exists|steps: Seq<ExplorationMap>| #[trigger] generation_trace(width, height, px, py, steps, map)
}

impl ExplorationMap {
    /// Every ruin tile lies in the 2x2 square whose top-left corner is `(rx, ry)`.
    pub open spec fn ruins_within(&self, rx: int, ry: int) -> bool {
        forall|x: int, y: int|
            self.in_bounds(x, y) && #[trigger] self.tile(x, y) == Tile::Ruin ==> rx <= x <= rx + 1
                && ry <= y <= ry + 1
    }

    /// The map holds at most one ruin site: no ruin, or ruins only on one 2x2 square inside
    /// the map.
    pub open spec fn at_most_one_ruin_site(&self) -> bool {
        ||| forall|x: int, y: int| self.in_bounds(x, y) ==> #[trigger] self.tile(x, y) != Tile::Ruin
        ||| exists|rx: int, ry: int|
            0 <= rx && rx + 1 < self.width && 0 <= ry && ry + 1 < self.height && #[trigger] self.ruins_within(rx, ry)
    }

    /// A freshly generated `width` by `height` map: resources near the player, forests,
    /// lone trees, stones, berry bushes, enemies and possibly one ruin site; the player's
    /// own tile is left as ground.
    pub(crate) fn random(width: i32, height: i32, player_x: i32, player_y: i32) -> (map: ExplorationMap)
        requires
            0 < width,
            0 < height,
            width * height <= i32::MAX,
            width + height <= i32::MAX,
            0 <= player_x < width,
            0 <= player_y < height,
        ensures
            map.wf(),
            map.width == width,
            map.height == height,
            map.tile(player_x as int, player_y as int) == Tile::Ground,
            map.at_most_one_ruin_site(),
            generated(width as int, height as int, player_x as int, player_y as int, map),
    {
        let mut rng = thread_rng();
        let n = (width * height) as usize;
        let mut map = ExplorationMap { width, height, tiles: vec![Tile::Ground; n] };
        let ghost s0 = map;
        map.seed_near_player_resources(&mut rng, player_x, player_y);
        let ghost t0 = map.tiles@;
        let ghost s1 = map;
        map.seed_large_forests(&mut rng);
        let ghost t1 = map.tiles@;
        let ghost s2 = map;
        map.seed_lone_trees(&mut rng);
        let ghost t2 = map.tiles@;
        let ghost s3 = map;
        map.seed_stones(&mut rng);
        let ghost t3 = map.tiles@;
        let ghost s4 = map;
        map.seed_berry_clusters(&mut rng);
        let ghost t4 = map.tiles@;
        let ghost s5 = map;
        map.seed_enemies(&mut rng, player_x, player_y);
        let ghost t5 = map.tiles@;
        let ghost s6 = map;
        proof {
            assert forall|i: int| 0 <= i < t5.len() implies #[trigger] t5[i] != Tile::Ruin by {
                assert(t5[i] == t4[i] || t5[i] == Tile::Enemy);
                assert(t4[i] == t3[i] || t4[i] == Tile::Berry);
                assert(t3[i] == t2[i] || t3[i] == Tile::Stone);
                assert(t2[i] == t1[i] || t2[i] == Tile::Forest);
                assert(t1[i] == t0[i] || t1[i] == Tile::Forest);
            }
        }
        map.seed_ruin(&mut rng, player_x, player_y);
        let ghost t6 = map;
        map.set_tile(player_x, player_y, Tile::Ground);
        proof {
            let steps = seq![s0, s1, s2, s3, s4, s5, s6, t6];
            assert(near_player_seeded(s0, s1, player_x as int, player_y as int));
            assert(clusters_seeded(s1, s2, Tile::Forest, 2, 4, 30, 2, 120));
            assert(clusters_seeded(s2, s3, Tile::Forest, 8, 14, 4, 1, 56));
            assert(clusters_seeded(s3, s4, Tile::Stone, 12, 22, 1, 1, 22));
            assert(clusters_seeded(s4, s5, Tile::Berry, 5, 8, 6, 2, 48));
            assert(generation_trace(width as int, height as int, player_x as int, player_y as int, steps, map));
        }
        proof {
            let w = width as int;
            let h = height as int;
            lemma_index_in_range(w, h, player_x as int, player_y as int);
            if t6.tiles@ == t5 {
                assert forall|x: int, y: int| map.in_bounds(x, y) implies #[trigger] map.tile(x, y) != Tile::Ruin by {
                    lemma_index_in_range(w, h, x, y);
                }
            } else {
                let (rx, ry) = choose|rx: int, ry: int|
                    0 <= rx && rx + 1 < s6.width && 0 <= ry && ry + 1 < s6.height && #[trigger] with_ruin(s6, rx, ry) == t6.tiles@;
                lemma_index_in_range(w, h, rx, ry);
                lemma_index_in_range(w, h, rx + 1, ry);
                lemma_index_in_range(w, h, rx, ry + 1);
                lemma_index_in_range(w, h, rx + 1, ry + 1);
                assert forall|x: int, y: int|
                    map.in_bounds(x, y) && #[trigger] map.tile(x, y) == Tile::Ruin implies rx <= x <= rx + 1 && ry <= y <= ry + 1 by {
                    lemma_index_in_range(w, h, x, y);
                    let i = map.idx(x, y);
                    assert(t6.tiles@[i] == Tile::Ruin);
                    if i == map.idx(rx, ry) {
                        lemma_index_injective(w, x, y, rx, ry);
                    } else if i == map.idx(rx + 1, ry) {
                        lemma_index_injective(w, x, y, rx + 1, ry);
                    } else if i == map.idx(rx, ry + 1) {
                        lemma_index_injective(w, x, y, rx, ry + 1);
                    } else if i == map.idx(rx + 1, ry + 1) {
                        lemma_index_injective(w, x, y, rx + 1, ry + 1);
                    } else {
                        assert(t5[i] != Tile::Ruin);
                    }
                }
                assert(map.ruins_within(rx, ry));
            }
        }
        map
    }

    /// Two to four small berry or forest clusters within three tiles of the player.
    fn seed_near_player_resources(&mut self, rng: &mut ThreadRng, player_x: i32, player_y: i32)
        requires
            old(self).wf(),
            0 < old(self).width,
            0 < old(self).height,
            old(self).width + old(self).height <= i32::MAX,
            0 <= player_x < old(self).width,
            0 <= player_y < old(self).height,
        ensures
            final(self).wf(),
            final(self).width == old(self).width,
            final(self).height == old(self).height,
            final(self).tiles.len() == old(self).tiles.len(),
            forall|i: int|
                0 <= i < final(self).tiles.len() ==> #[trigger] final(self).tiles@[i] == old(self).tiles@[i] || final(self).tiles@[i] == Tile::Berry || final(self).tiles@[i]
                    == Tile::Forest,
            exists|starts: Seq<(int, int)>| 2 <= starts.len() <= 4 && #[trigger] all_near(*final(self), starts, player_x as int, player_y as int),
            changed_at_most(old(self).tiles@, final(self).tiles@, 20),
    {
        let count = gen_range(rng, 2, 5);
        let ghost mut starts: Seq<(int, int)> = Seq::empty();
        proof {
            lemma_changed_none(self.tiles@, 0);
        }
        let mut done: i32 = 0;
        while done < count
            invariant
                self.wf(),
                self.width == old(self).width,
                self.height == old(self).height,
                0 < self.width,
                0 < self.height,
                self.width + self.height <= i32::MAX,
                0 <= player_x < self.width,
                0 <= player_y < self.height,
                forall|i: int|
                    0 <= i < self.tiles.len() ==> #[trigger] self.tiles@[i] == old(self).tiles@[i]
                        || self.tiles@[i] == Tile::Berry || self.tiles@[i] == Tile::Forest,
                2 <= count < 5,
                0 <= done <= count,
                self.tiles.len() == old(self).tiles.len(),
                starts.len() == done as int,
                all_near(*self, starts, player_x as int, player_y as int),
                changed_at_most(old(self).tiles@, self.tiles@, done * 5),
            decreases count - done,
        {
            let x = clamp_i64(player_x as i64 + gen_range(rng, -3, 4) as i64, 0, (self.width - 1) as i64) as i32;
            let y = clamp_i64(player_y as i64 + gen_range(rng, -3, 4) as i64, 0, (self.height - 1) as i64) as i32;
            let tile = if gen_ratio(rng, 55, 100) {
                Tile::Berry
            } else {
                Tile::Forest
            };
            let size = if tile == Tile::Berry {
                gen_range(rng, 2, 6)
            } else {
                gen_range(rng, 1, 5)
            };
            let ghost before = self.tiles@;
            self.seed_cluster_from(rng, tile, size, x, y);
            proof {
                assert forall|i: int| 0 <= i < self.tiles.len() implies #[trigger] self.tiles@[i]
                    == old(self).tiles@[i] || self.tiles@[i] == Tile::Berry || self.tiles@[i]
                    == Tile::Forest by {
                    assert(self.tiles@[i] == before[i] || self.tiles@[i] == tile);
                }
                let grown = starts.push((x as int, y as int));
                assert forall|k: int| 0 <= k < grown.len() implies self.in_bounds((#[trigger] grown[k]).0, grown[k].1) && (self.tile(
                    grown[k].0,
                    grown[k].1,
                ) == Tile::Berry || self.tile(grown[k].0, grown[k].1) == Tile::Forest) && player_x - 3 <= grown[k].0 <= player_x + 3
                    && player_y - 3 <= grown[k].1 <= player_y + 3 by {
                    if k < starts.len() {
                        assert(grown[k] == starts[k]);
                        let i = self.idx(starts[k].0, starts[k].1);
                        lemma_index_in_range(self.width as int, self.height as int, starts[k].0, starts[k].1);
                        assert(self.tiles@[i] == before[i] || self.tiles@[i] == tile);
                    }
                }
                lemma_changed_compose(old(self).tiles@, before, self.tiles@, done * 5, size as int);
                lemma_changed_more(old(self).tiles@, self.tiles@, done * 5 + size, (done + 1) * 5);
                starts = grown;
            }
            done = done + 1;
        }
        proof {
            assert(all_near(*self, starts, player_x as int, player_y as int));
        }
    }

    /// Two to four large forests of 15 to 30 tiles.
    fn seed_large_forests(&mut self, rng: &mut ThreadRng)
        requires
            old(self).wf(),
            0 < old(self).width,
            0 < old(self).height,
        ensures
            final(self).wf(),
            final(self).width == old(self).width,
            final(self).height == old(self).height,
            clusters_seeded(*old(self), *final(self), Tile::Forest, 2, 4, 30, 2, 120),
    {
        let cluster_count = gen_range(rng, 2, 5);
        let ghost mut starts: Seq<(int, int)> = Seq::empty();
        let ghost mut maps: Seq<Seq<Tile>> = seq![self.tiles@];
        proof {
            lemma_trace_start(self.tiles@, Tile::Forest, 30, self.width as int, self.height as int, 2);
            lemma_changed_none(self.tiles@, 0);
        }
        let mut done: i32 = 0;
        while done < cluster_count
            invariant
                self.wf(),
                self.width == old(self).width,
                self.height == old(self).height,
                0 < self.width,
                0 < self.height,
                only_adds(old(self).tiles@, self.tiles@, Tile::Forest),
                2 <= cluster_count < 5,
                0 <= done <= cluster_count,
                starts.len() == done as int,
                maps.len() == done + 1,
                cluster_trace(old(self).tiles@, self.tiles@, Tile::Forest, 30, self.width as int, self.height as int, 2, maps),
                all_hold(*self, starts, Tile::Forest),
                changed_at_most(old(self).tiles@, self.tiles@, done * 30),
            decreases cluster_count - done,
        {
            let size = gen_range(rng, 15, 31);
            let ghost before = self.tiles@;
            self.seed_cluster(rng, Tile::Forest, size);
            proof {
                assert forall|i: int| 0 <= i < self.tiles.len() implies #[trigger] self.tiles@[i]
                    == old(self).tiles@[i] || self.tiles@[i] == Tile::Forest by {
                    assert(self.tiles@[i] == before[i] || self.tiles@[i] == Tile::Forest);
                }
            }
            proof {
                let (x, y) = choose|x: int, y: int| self.in_bounds(x, y) && #[trigger] self.tile(x, y) == Tile::Forest;
                let grown = starts.push((x, y));
                assert forall|k: int| 0 <= k < grown.len() implies self.in_bounds((#[trigger] grown[k]).0, grown[k].1)
                    && self.tile(grown[k].0, grown[k].1) == Tile::Forest by {
                    if k < starts.len() {
                        assert(grown[k] == starts[k]);
                        let i = self.idx(starts[k].0, starts[k].1);
                        lemma_index_in_range(self.width as int, self.height as int, starts[k].0, starts[k].1);
                        assert(self.tiles@[i] == before[i] || self.tiles@[i] == Tile::Forest);
                    }
                }
                lemma_changed_compose(old(self).tiles@, before, self.tiles@, done * 30, size as int);
                lemma_changed_more(old(self).tiles@, self.tiles@, done * 30 + size, (done + 1) * 30);
                lemma_changed_more(before, self.tiles@, size as int, 30);
                lemma_cluster_grown_weaken(
                    self.width as int,
                    self.height as int,
                    before,
                    self.tiles@,
                    Tile::Forest,
                    size as int,
                    2,
                    30,
                    2,
                );
                lemma_trace_push(old(self).tiles@, before, Tile::Forest, 30, self.width as int, self.height as int, 2, maps, self.tiles@);
                maps = maps.push(self.tiles@);
                starts = grown;
            }
            done = done + 1;
        }
        proof {
            assert(all_hold(*self, starts, Tile::Forest) && cluster_trace(old(self).tiles@, self.tiles@, Tile::Forest, 30, self.width as int, self.height as int, 2, maps));
        }
    }

    /// Eight to fourteen lone trees; about one in five grows into a group of two to four.
    fn seed_lone_trees(&mut self, rng: &mut ThreadRng)
        requires
            old(self).wf(),
            0 < old(self).width,
            0 < old(self).height,
        ensures
            final(self).wf(),
            final(self).width == old(self).width,
            final(self).height == old(self).height,
            clusters_seeded(*old(self), *final(self), Tile::Forest, 8, 14, 4, 1, 56),
    {
        let cluster_count = gen_range(rng, 8, 15);
        let ghost mut starts: Seq<(int, int)> = Seq::empty();
        let ghost mut maps: Seq<Seq<Tile>> = seq![self.tiles@];
        proof {
            lemma_trace_start(self.tiles@, Tile::Forest, 4, self.width as int, self.height as int, 1);
            lemma_changed_none(self.tiles@, 0);
        }
        let mut done: i32 = 0;
        while done < cluster_count
            invariant
                self.wf(),
                self.width == old(self).width,
                self.height == old(self).height,
                0 < self.width,
                0 < self.height,
                only_adds(old(self).tiles@, self.tiles@, Tile::Forest),
                8 <= cluster_count < 15,
                0 <= done <= cluster_count,
                starts.len() == done as int,
                maps.len() == done + 1,
                cluster_trace(old(self).tiles@, self.tiles@, Tile::Forest, 4, self.width as int, self.height as int, 1, maps),
                all_hold(*self, starts, Tile::Forest),
                changed_at_most(old(self).tiles@, self.tiles@, done * 4),
            decreases cluster_count - done,
        {
            let size = if gen_ratio(rng, 78, 100) {
                1
            } else {
                gen_range(rng, 2, 5)
            };
            let ghost before = self.tiles@;
            self.seed_cluster(rng, Tile::Forest, size);
            proof {
                assert forall|i: int| 0 <= i < self.tiles.len() implies #[trigger] self.tiles@[i]
                    == old(self).tiles@[i] || self.tiles@[i] == Tile::Forest by {
                    assert(self.tiles@[i] == before[i] || self.tiles@[i] == Tile::Forest);
                }
            }
            proof {
                let (x, y) = choose|x: int, y: int| self.in_bounds(x, y) && #[trigger] self.tile(x, y) == Tile::Forest;
                let grown = starts.push((x, y));
                assert forall|k: int| 0 <= k < grown.len() implies self.in_bounds((#[trigger] grown[k]).0, grown[k].1)
                    && self.tile(grown[k].0, grown[k].1) == Tile::Forest by {
                    if k < starts.len() {
                        assert(grown[k] == starts[k]);
                        let i = self.idx(starts[k].0, starts[k].1);
                        lemma_index_in_range(self.width as int, self.height as int, starts[k].0, starts[k].1);
                        assert(self.tiles@[i] == before[i] || self.tiles@[i] == Tile::Forest);
                    }
                }
                lemma_changed_compose(old(self).tiles@, before, self.tiles@, done * 4, size as int);
                lemma_changed_more(old(self).tiles@, self.tiles@, done * 4 + size, (done + 1) * 4);
                lemma_changed_more(before, self.tiles@, size as int, 4);
                lemma_cluster_grown_weaken(
                    self.width as int,
                    self.height as int,
                    before,
                    self.tiles@,
                    Tile::Forest,
                    size as int,
                    if size >= 2 { 2 } else { 1 },
                    4,
                    1,
                );
                lemma_trace_push(old(self).tiles@, before, Tile::Forest, 4, self.width as int, self.height as int, 1, maps, self.tiles@);
                maps = maps.push(self.tiles@);
                starts = grown;
            }
            done = done + 1;
        }
        proof {
            assert(all_hold(*self, starts, Tile::Forest) && cluster_trace(old(self).tiles@, self.tiles@, Tile::Forest, 4, self.width as int, self.height as int, 1, maps));
        }
    }

    /// Twelve to twenty-two stone piles at random positions.
    fn seed_stones(&mut self, rng: &mut ThreadRng)
        requires
            old(self).wf(),
            0 < old(self).width,
            0 < old(self).height,
        ensures
            final(self).wf(),
            final(self).width == old(self).width,
            final(self).height == old(self).height,
            clusters_seeded(*old(self), *final(self), Tile::Stone, 12, 22, 1, 1, 22),
    {
        let count = gen_range(rng, 12, 23);
        let ghost mut cells: Seq<(int, int)> = Seq::empty();
        let ghost mut maps: Seq<Seq<Tile>> = seq![self.tiles@];
        proof {
            lemma_trace_start(self.tiles@, Tile::Stone, 1, self.width as int, self.height as int, 1);
            lemma_changed_none(self.tiles@, 0);
        }
        let mut done: i32 = 0;
        while done < count
            invariant
                self.wf(),
                self.width == old(self).width,
                self.height == old(self).height,
                0 < self.width,
                0 < self.height,
                only_adds(old(self).tiles@, self.tiles@, Tile::Stone),
                12 <= count < 23,
                0 <= done <= count,
                cells.len() == done as int,
                maps.len() == done + 1,
                cluster_trace(old(self).tiles@, self.tiles@, Tile::Stone, 1, self.width as int, self.height as int, 1, maps),
                all_hold(*self, cells, Tile::Stone),
                changed_at_most(old(self).tiles@, self.tiles@, done as int),
            decreases count - done,
        {
            let x = gen_range(rng, 0, self.width);
            let y = gen_range(rng, 0, self.height);
            let ghost before = self.tiles@;
            self.set_tile(x, y, Tile::Stone);
            proof {
                assert forall|i: int| 0 <= i < self.tiles.len() implies #[trigger] self.tiles@[i]
                    == old(self).tiles@[i] || self.tiles@[i] == Tile::Stone by {
                    lemma_index_in_range(self.width as int, self.height as int, x as int, y as int);
                    assert(self.tiles@[i] == before[i] || self.tiles@[i] == Tile::Stone);
                }
                let placed = cells.push((x as int, y as int));
                lemma_index_in_range(self.width as int, self.height as int, x as int, y as int);
                assert forall|k: int| 0 <= k < placed.len() implies self.in_bounds((#[trigger] placed[k]).0, placed[k].1)
                    && self.tile(placed[k].0, placed[k].1) == Tile::Stone by {
                    if k < cells.len() {
                        assert(placed[k] == cells[k]);
                        lemma_index_in_range(self.width as int, self.height as int, cells[k].0, cells[k].1);
                    }
                }
                lemma_changed_one(before, self.idx(x as int, y as int), Tile::Stone);
                lemma_changed_compose(old(self).tiles@, before, self.tiles@, done as int, 1);
                assert(cluster_growth(
                    self.width as int,
                    self.height as int,
                    before,
                    self.tiles@,
                    Tile::Stone,
                    seq![(x as int, y as int)],
                )) by {
                    let one = seq![(x as int, y as int)];
                    assert(one[0] == (x as int, y as int));
                }
                lemma_trace_push(old(self).tiles@, before, Tile::Stone, 1, self.width as int, self.height as int, 1, maps, self.tiles@);
                maps = maps.push(self.tiles@);
                cells = placed;
            }
            done = done + 1;
        }
        proof {
            assert(all_hold(*self, cells, Tile::Stone) && cluster_trace(old(self).tiles@, self.tiles@, Tile::Stone, 1, self.width as int, self.height as int, 1, maps));
        }
    }

    /// Five to eight berry clusters of two to six bushes.
    fn seed_berry_clusters(&mut self, rng: &mut ThreadRng)
        requires
            old(self).wf(),
            0 < old(self).width,
            0 < old(self).height,
        ensures
            final(self).wf(),
            final(self).width == old(self).width,
            final(self).height == old(self).height,
            clusters_seeded(*old(self), *final(self), Tile::Berry, 5, 8, 6, 2, 48),
    {
        let cluster_count = gen_range(rng, 5, 9);
        let ghost mut starts: Seq<(int, int)> = Seq::empty();
        let ghost mut maps: Seq<Seq<Tile>> = seq![self.tiles@];
        proof {
            lemma_trace_start(self.tiles@, Tile::Berry, 6, self.width as int, self.height as int, 2);
            lemma_changed_none(self.tiles@, 0);
        }
        let mut done: i32 = 0;
        while done < cluster_count
            invariant
                self.wf(),
                self.width == old(self).width,
                self.height == old(self).height,
                0 < self.width,
                0 < self.height,
                only_adds(old(self).tiles@, self.tiles@, Tile::Berry),
                5 <= cluster_count < 9,
                0 <= done <= cluster_count,
                starts.len() == done as int,
                maps.len() == done + 1,
                cluster_trace(old(self).tiles@, self.tiles@, Tile::Berry, 6, self.width as int, self.height as int, 2, maps),
                all_hold(*self, starts, Tile::Berry),
                changed_at_most(old(self).tiles@, self.tiles@, done * 6),
            decreases cluster_count - done,
        {
            let size = gen_range(rng, 2, 7);
            let ghost before = self.tiles@;
            self.seed_cluster(rng, Tile::Berry, size);
            proof {
                assert forall|i: int| 0 <= i < self.tiles.len() implies #[trigger] self.tiles@[i]
                    == old(self).tiles@[i] || self.tiles@[i] == Tile::Berry by {
                    assert(self.tiles@[i] == before[i] || self.tiles@[i] == Tile::Berry);
                }
            }
            proof {
                let (x, y) = choose|x: int, y: int| self.in_bounds(x, y) && #[trigger] self.tile(x, y) == Tile::Berry;
                let grown = starts.push((x, y));
                assert forall|k: int| 0 <= k < grown.len() implies self.in_bounds((#[trigger] grown[k]).0, grown[k].1)
                    && self.tile(grown[k].0, grown[k].1) == Tile::Berry by {
                    if k < starts.len() {
                        assert(grown[k] == starts[k]);
                        let i = self.idx(starts[k].0, starts[k].1);
                        lemma_index_in_range(self.width as int, self.height as int, starts[k].0, starts[k].1);
                        assert(self.tiles@[i] == before[i] || self.tiles@[i] == Tile::Berry);
                    }
                }
                lemma_changed_compose(old(self).tiles@, before, self.tiles@, done * 6, size as int);
                lemma_changed_more(old(self).tiles@, self.tiles@, done * 6 + size, (done + 1) * 6);
                lemma_changed_more(before, self.tiles@, size as int, 6);
                lemma_cluster_grown_weaken(
                    self.width as int,
                    self.height as int,
                    before,
                    self.tiles@,
                    Tile::Berry,
                    size as int,
                    2,
                    6,
                    2,
                );
                lemma_trace_push(old(self).tiles@, before, Tile::Berry, 6, self.width as int, self.height as int, 2, maps, self.tiles@);
                maps = maps.push(self.tiles@);
                starts = grown;
            }
            done = done + 1;
        }
        proof {
            assert(all_hold(*self, starts, Tile::Berry) && cluster_trace(old(self).tiles@, self.tiles@, Tile::Berry, 6, self.width as int, self.height as int, 2, maps));
        }
    }

    /// Eight to fourteen attempts to place an enemy; an attempt at distance `d` from the
    /// player succeeds with chance `0.42 * d / (width + height)`, kept within 2% and 32%
    /// (see `enemy_chance`).
    fn seed_enemies(&mut self, rng: &mut ThreadRng, player_x: i32, player_y: i32)
        requires
            old(self).wf(),
            0 < old(self).width,
            0 < old(self).height,
            old(self).width + old(self).height <= i32::MAX,
            0 <= player_x < old(self).width,
            0 <= player_y < old(self).height,
        ensures
            final(self).wf(),
            final(self).width == old(self).width,
            final(self).height == old(self).height,
            only_adds(old(self).tiles@, final(self).tiles@, Tile::Enemy),
            changed_at_most(old(self).tiles@, final(self).tiles@, 14),
    {
        let attempts = gen_range(rng, 8, 15);
        proof {
            lemma_changed_none(self.tiles@, 0);
        }
        let mut done: i32 = 0;
        while done < attempts
            invariant
                self.wf(),
                self.width == old(self).width,
                self.height == old(self).height,
                0 < self.width,
                0 < self.height,
                self.width + self.height <= i32::MAX,
                0 <= player_x < self.width,
                0 <= player_y < self.height,
                only_adds(old(self).tiles@, self.tiles@, Tile::Enemy),
                8 <= attempts < 15,
                0 <= done <= attempts,
                changed_at_most(old(self).tiles@, self.tiles@, done as int),
            decreases attempts - done,
        {
            let x = gen_range(rng, 0, self.width);
            let y = gen_range(rng, 0, self.height);
            let distance = abs_i32(player_x - x) + abs_i32(player_y - y);
            let span = (self.width + self.height) as u32;
            let (numerator, denominator) = enemy_chance(distance as u32, span);
            if gen_ratio(rng, numerator, denominator) {
                let ghost before = self.tiles@;
                self.set_tile(x, y, Tile::Enemy);
                proof {
                    assert forall|i: int| 0 <= i < self.tiles.len() implies #[trigger] self.tiles@[i]
                        == old(self).tiles@[i] || self.tiles@[i] == Tile::Enemy by {
                        lemma_index_in_range(self.width as int, self.height as int, x as int, y as int);
                        assert(self.tiles@[i] == before[i] || self.tiles@[i] == Tile::Enemy);
                    }
                    lemma_index_in_range(self.width as int, self.height as int, x as int, y as int);
                    lemma_changed_one(before, self.idx(x as int, y as int), Tile::Enemy);
                    lemma_changed_compose(old(self).tiles@, before, self.tiles@, done as int, 1);
                }
            } else {
                proof {
                    lemma_changed_more(old(self).tiles@, self.tiles@, done as int, done + 1);
                }
            }
            done = done + 1;
        }
    }

    /// With chance 28%, a 2x2 ruin at the farthest of up to 30 random candidate corners
    /// (the search stops early at distance 18 or more).
    fn seed_ruin(&mut self, rng: &mut ThreadRng, player_x: i32, player_y: i32)
        requires
            old(self).wf(),
            0 < old(self).width,
            0 < old(self).height,
            old(self).width + old(self).height <= i32::MAX,
            0 <= player_x < old(self).width,
            0 <= player_y < old(self).height,
        ensures
            final(self).wf(),
            final(self).width == old(self).width,
            final(self).height == old(self).height,
            ruin_seeded(*old(self), *final(self)),
    {
        if !gen_ratio(rng, 28, 100) || self.width < 2 || self.height < 2 {
            return ;
        }
        let mut best: Option<(i32, i32)> = None;
        let mut best_distance: i32 = -1;
        let mut tries: i32 = 0;
        while tries < 30
            invariant
                2 <= self.width,
                2 <= self.height,
                self.width + self.height <= i32::MAX,
                0 <= player_x < self.width,
                0 <= player_y < self.height,
                best matches Some(p) ==> 0 <= p.0 < self.width - 1 && 0 <= p.1 < self.height - 1,
            decreases 30 - tries,
        {
            let candidate_x = gen_range(rng, 0, self.width - 1);
            let candidate_y = gen_range(rng, 0, self.height - 1);
            let distance = abs_i32(player_x - candidate_x) + abs_i32(player_y - candidate_y);
            if distance > best_distance {
                best = Some((candidate_x, candidate_y));
                best_distance = distance;
            }
            if distance >= 18 {
                break ;
            }
            tries = tries + 1;
        }
        let (x, y) = match best {
            Some(p) => p,
            None => {
                return ;
            },
        };
        let ghost m0 = *self;
        self.set_tile(x, y, Tile::Ruin);
        self.set_tile(x + 1, y, Tile::Ruin);
        self.set_tile(x, y + 1, Tile::Ruin);
        self.set_tile(x + 1, y + 1, Tile::Ruin);
        proof {
            assert(with_ruin(m0, x as int, y as int) == self.tiles@);
        }
    }

    /// A cluster of up to `target_size` tiles grown from a random position.
    fn seed_cluster(&mut self, rng: &mut ThreadRng, tile: Tile, target_size: i32)
        requires
            old(self).wf(),
            0 < old(self).width,
            0 < old(self).height,
        ensures
            final(self).wf(),
            final(self).width == old(self).width,
            final(self).height == old(self).height,
            only_adds(old(self).tiles@, final(self).tiles@, tile),
            changed_at_most(old(self).tiles@, final(self).tiles@, if target_size > 0 { target_size as int } else { 0 }),
            target_size > 0 ==> exists|x: int, y: int| final(self).in_bounds(x, y) && #[trigger] final(self).tile(x, y) == tile,
            target_size > 0 ==> cluster_grown(
                old(self).width as int,
                old(self).height as int,
                old(self).tiles@,
                final(self).tiles@,
                tile,
                target_size as int,
                if target_size >= 2 { 2 } else { 1 },
            ),
    {
        let start_x = gen_range(rng, 0, self.width);
        let start_y = gen_range(rng, 0, self.height);
        self.seed_cluster_from(rng, tile, target_size, start_x, start_y);
        proof {
            if target_size > 0 {
                assert(self.in_bounds(start_x as int, start_y as int) && self.tile(start_x as int, start_y as int) == tile);
                let w = self.width as int;
                let h = self.height as int;
                let cells = choose|cells: Seq<(int, int)>|
                    cells.len() <= (if target_size > 0 { target_size as int } else { 0 }) && (cells.len() > 0 ==> cells[0] == (
                    start_x as int,
                    start_y as int,
                )) && (target_size > 0 && old(self).in_bounds(start_x as int, start_y as int) ==> cells.len() >= 1) && (old(self).width
                    >= 2 && old(self).height >= 2 && target_size >= 2 && old(self).in_bounds(start_x as int, start_y as int)
                    ==> cells.len() >= 2) && #[trigger] cluster_growth(w, h, old(self).tiles@, self.tiles@, tile, cells);
                assert(least_cells(w, h, if target_size >= 2 { 2 } else { 1 }) <= cells.len() <= target_size);
            }
        }
    }

    /// Grows a cluster of `tile` from a start position: positions are taken from a stack,
    /// and each placed tile pushes three of its four neighbours in random order, until
    /// `target_size` tiles were placed or the stack runs empty.
    fn seed_cluster_from(
        &mut self,
        rng: &mut ThreadRng,
        tile: Tile,
        target_size: i32,
        start_x: i32,
        start_y: i32,
    )
        requires
            old(self).wf(),
        ensures
            final(self).wf(),
            final(self).width == old(self).width,
            final(self).height == old(self).height,
            only_adds(old(self).tiles@, final(self).tiles@, tile),
            changed_at_most(old(self).tiles@, final(self).tiles@, if target_size > 0 { target_size as int } else { 0 }),
            target_size > 0 && old(self).in_bounds(start_x as int, start_y as int) ==> final(self).tile(start_x as int, start_y as int) == tile,
            exists|cells: Seq<(int, int)>|
                cells.len() <= (if target_size > 0 { target_size as int } else { 0 }) && (cells.len() > 0 ==> cells[0] == (
                start_x as int,
                start_y as int,
            )) && (target_size > 0 && old(self).in_bounds(start_x as int, start_y as int) ==> cells.len() >= 1) && (old(self).width
                >= 2 && old(self).height >= 2 && target_size >= 2 && old(self).in_bounds(start_x as int, start_y as int)
                ==> cells.len() >= 2) && #[trigger] cluster_growth(
                old(self).width as int,
                old(self).height as int,
                old(self).tiles@,
                final(self).tiles@,
                tile,
                cells,
            ),
    {
        let mut frontier: Vec<(i32, i32)> = Vec::new();
        frontier.push((start_x, start_y));
        let mut placed: i32 = 0;
        let ghost mut log: Seq<int> = Seq::empty();
        let ghost mut cells: Seq<(int, int)> = Seq::empty();
        let ghost start_in = target_size > 0 && self.in_bounds(start_x as int, start_y as int);
        let ghost big = self.width >= 2 && self.height >= 2 && target_size >= 2 && self.in_bounds(start_x as int, start_y as int);
        let ghost w = self.width as int;
        let ghost h = self.height as int;
        while placed < target_size
            invariant
                self.wf(),
                self.width == old(self).width,
                self.height == old(self).height,
                w == self.width,
                h == self.height,
                0 <= placed <= target_size || (placed == 0 && target_size <= 0),
                only_adds(old(self).tiles@, self.tiles@, tile),
                log.len() == placed,
                cells.len() == placed,
                forall|k: int| 0 <= k < cells.len() ==> log[k] == (#[trigger] cells[k]).1 * w + cells[k].0,
                cells_grown(w, h, self.tiles@, tile, cells),
                cells.len() > 0 ==> cells[0] == (start_x as int, start_y as int),
                cells.len() == 0 ==> frontier@ == seq![(start_x, start_y)] || frontier@.len() == 0,
                cells.len() > 0 ==> forall|k: int| 0 <= k < frontier@.len() ==> #[trigger] next_to_cells(cells, frontier@[k]),
                big == (w >= 2 && h >= 2 && target_size >= 2 && 0 <= start_x < w && 0 <= start_y < h),
                big && cells.len() == 1 ==> exists|k: int|
                    0 <= k < frontier@.len() && 0 <= (#[trigger] frontier@[k]).0 < w && 0 <= frontier@[k].1 < h,
                forall|i: int| 0 <= i < self.tiles@.len() && #[trigger] self.tiles@[i] != old(self).tiles@[i] ==> log.contains(i),
                start_in == (target_size > 0 && self.in_bounds(start_x as int, start_y as int)),
                start_in ==> (placed > 0 && self.tile(start_x as int, start_y as int) == tile) || (
                placed == 0 && frontier@ == seq![(start_x, start_y)]),
            ensures
                start_in ==> self.tile(start_x as int, start_y as int) == tile,
                log.len() <= (if target_size > 0 { target_size as int } else { 0 }),
                forall|i: int| 0 <= i < self.tiles@.len() && #[trigger] self.tiles@[i] != old(self).tiles@[i] ==> log.contains(i),
                cells.len() == log.len(),
                forall|k: int| 0 <= k < cells.len() ==> log[k] == (#[trigger] cells[k]).1 * w + cells[k].0,
                cells_grown(w, h, self.tiles@, tile, cells),
                cells.len() > 0 ==> cells[0] == (start_x as int, start_y as int),
                big ==> cells.len() >= 2,
                start_in ==> cells.len() >= 1,
            decreases target_size - placed, frontier.len(),
        {
            let ghost f0 = frontier@;
            let ghost c0 = cells;
            let Some((x, y)) = frontier.pop() else {
                break ;
            };
            if x < 0 || y < 0 || x >= self.width || y >= self.height {
                proof {
                    assert forall|k: int| 0 <= k < frontier@.len() implies #[trigger] next_to_cells(cells, frontier@[k]) || cells.len()
                        == 0 by {
                        if cells.len() > 0 {
                            assert(frontier@[k] == f0[k]);
                            assert(next_to_cells(cells, f0[k]));
                        }
                    }
                    if big && cells.len() == 1 {
                        let k = choose|k: int| 0 <= k < f0.len() && 0 <= (#[trigger] f0[k]).0 < w && 0 <= f0[k].1 < h;
                        assert(k < f0.len() - 1);
                        assert(frontier@[k] == f0[k]);
                    }
                    if cells.len() == 0 {
                        assert(frontier@.len() == 0);
                    }
                }
                continue ;
            }
            let ghost before = self.tiles@;
            self.set_tile(x, y, tile);
            proof {
                lemma_index_in_range(self.width as int, self.height as int, x as int, y as int);
                let at = self.idx(x as int, y as int);
                assert forall|i: int| 0 <= i < self.tiles@.len() && #[trigger] self.tiles@[i] != old(self).tiles@[i] implies log.push(
                    at,
                ).contains(i) by {
                    if i != at {
                        assert(before[i] == self.tiles@[i]);
                        assert(log.contains(i));
                        let k = choose|k: int| 0 <= k < log.len() && log[k] == i;
                        assert(log.push(at)[k] == i);
                    } else {
                        assert(log.push(at)[log.len() as int] == at);
                    }
                }
                let grown = cells.push((x as int, y as int));
                assert forall|k: int| 0 <= k < grown.len() implies 0 <= (#[trigger] grown[k]).0 < w && 0 <= grown[k].1 < h
                    && self.tiles@[grown[k].1 * w + grown[k].0] == tile by {
                    if k < cells.len() {
                        assert(grown[k] == cells[k]);
                        lemma_index_in_range(w, h, cells[k].0, cells[k].1);
                    }
                }
                assert forall|k: int| 0 < k < grown.len() implies #[trigger] grows_from_earlier(grown, k) by {
                    if k < cells.len() {
                        assert(grows_from_earlier(cells, k));
                        let j = choose|j: int| 0 <= j < k && adjacent(cells[j], cells[k]);
                        assert(grown[j] == cells[j] && grown[k] == cells[k]);
                    } else {
                        assert(next_to_cells(cells, f0[f0.len() - 1]));
                        let j = choose|j: int| 0 <= j < cells.len() && adjacent(cells[j], (x as int, y as int));
                        assert(grown[j] == cells[j]);
                    }
                }
                assert forall|k: int| 0 <= k < grown.len() implies log.push(at)[k] == (#[trigger] grown[k]).1 * w + grown[k].0 by {
                    if k < cells.len() {
                        assert(grown[k] == cells[k]);
                    }
                }
                log = log.push(at);
                cells = grown;
                if start_in {
                    lemma_index_in_range(
                        self.width as int,
                        self.height as int,
                        start_x as int,
                        start_y as int,
                    );
                }
            }
            placed = placed + 1;
            let mut neighbors: Vec<(i32, i32)> = Vec::new();
            neighbors.push((x + 1, y));
            neighbors.push((x - 1, y));
            neighbors.push((x, y + 1));
            neighbors.push((x, y - 1));
            let ghost orig = neighbors@;
            let ghost f1 = frontier@;
            shuffle(&mut neighbors, rng);
            frontier.push(neighbors[0]);
            frontier.push(neighbors[1]);
            frontier.push(neighbors[2]);
            proof {
                let last = cells.len() - 1;
                assert(cells[last] == (x as int, y as int));
                assert forall|v: (i32, i32)| orig.contains(v) implies adjacent(cells[last], (v.0 as int, v.1 as int)) by {}
                assert forall|k: int| 0 <= k < 3 implies #[trigger] next_to_cells(cells, neighbors@[k]) by {
                    assert(neighbors@.to_multiset().count(neighbors@[k]) > 0) by {
                        broadcast use vstd::seq_lib::group_to_multiset_ensures;
                        assert(neighbors@.contains(neighbors@[k]));
                    }
                    assert(orig.contains(neighbors@[k])) by {
                        broadcast use vstd::seq_lib::group_to_multiset_ensures;
                        assert(orig.to_multiset().count(neighbors@[k]) > 0);
                    }
                    assert(adjacent(cells[last], (neighbors@[k].0 as int, neighbors@[k].1 as int)));
                }
                assert forall|k: int| 0 <= k < frontier@.len() implies #[trigger] next_to_cells(cells, frontier@[k]) by {
                    if k < f1.len() {
                        assert(frontier@[k] == f1[k]);
                        if cells.len() > 1 {
                            assert(f1[k] == f0[k]);
                            assert(next_to_cells(c0, f0[k]));
                            let j = choose|j: int| 0 <= j < c0.len() && adjacent(c0[j], (f0[k].0 as int, f0[k].1 as int));
                            assert(cells[j] == c0[j]);
                        } else {
                            assert(f1.len() == 0);
                        }
                    } else {
                        assert(frontier@[k] == neighbors@[k - f1.len()]);
                    }
                }
                if big && cells.len() == 1 {
                    lemma_three_neighbours_reach_the_map(w, h, x as int, y as int, neighbors@, orig);
                    let k = choose|k: int| 0 <= k < 3 && 0 <= (#[trigger] neighbors@[k]).0 < w && 0 <= neighbors@[k].1 < h;
                    assert(frontier@[f1.len() + k] == neighbors@[k]);
                }
            }
        }
        proof {
            let n = if target_size > 0 { target_size as int } else { 0 };
            assert forall|i: int|
                0 <= i < self.tiles@.len() && #[trigger] self.tiles@[i] != old(self).tiles@[i] implies exists|k: int|
                    0 <= k < cells.len() && cells[k].1 * w + cells[k].0 == i by {
                assert(log.contains(i));
                let k = choose|k: int| 0 <= k < log.len() && log[k] == i;
                assert(cells[k].1 * w + cells[k].0 == i);
            }
            assert(cluster_growth(w, h, old(self).tiles@, self.tiles@, tile, cells));
        }
    }
}

fn clamp_i64(v: i64, lo: i64, hi: i64) -> (r: i64)
    requires
        lo <= hi,
    ensures
        r == if v < lo { lo } else if v > hi { hi } else { v },
{
    if v < lo {
        lo
    } else if v > hi {
        hi
    } else {
        v
    }
}

fn clamp_u64(v: u64, lo: u64, hi: u64) -> (r: u64)
    requires
        lo <= hi,
    ensures
        r == if v < lo { lo } else if v > hi { hi } else { v },
        lo <= r <= hi,
{
    if v < lo {
        lo
    } else if v > hi {
        hi
    } else {
        v
    }
}

/// The chance of placing an enemy `distance` steps from the player on a map whose sides
/// add up to `span`, as a ratio for `gen_ratio`: `0.42 * distance / span`, kept within 2%
/// and 32%. When `100 * span` does not fit in `u32`, both terms are divided by
/// `span / 1_000_000 + 1`, rounding down.
fn enemy_chance(distance: u32, span: u32) -> (r: (u32, u32))
    requires
        0 < span,
    ensures
        0 < r.1,
        r.0 <= r.1,
        span <= 42_949_672 ==> r == ((if 42 * distance < 2 * span { 2 * span } else if 42 * distance > 32 * span {
            32 * span
        } else {
            42 * distance
        }) as u32, (100 * span) as u32),
        span > 42_949_672 ==> ({
            let q = span / 1_000_000 + 1;
            let n = if 42 * distance < 2 * span { 2 * span } else if 42 * distance > 32 * span {
                32 * span
            } else {
                42 * distance
            };
            r == ((n / q) as u32, ((100 * span) / q) as u32)
        }),
{
    let s = span as u64;
    let n = clamp_u64((distance as u64) * 42, 2 * s, 32 * s);
    let den = 100 * s;
    if span <= 42_949_672 {
        (n as u32, den as u32)
    } else {
        let q = s / 1_000_000 + 1;
        proof {
            assert(den / q < 100_000_000) by (nonlinear_arith)
                requires
                    q == s / 1_000_000 + 1,
                    den == 100 * s,
                    s > 0,
            {
                assert(s < q * 1_000_000);
                assert(den < q * 100_000_000);
                assert(den / q * q <= den);
            }
            assert(n / q <= den / q) by (nonlinear_arith)
                requires
                    n <= den,
                    q > 0,
            ;
            assert(den / q > 0) by (nonlinear_arith)
                requires
                    q == s / 1_000_000 + 1,
                    den == 100 * s,
                    s > 42_949_672,
            {
                assert(q <= s);
                assert(den >= q);
            }
        }
        ((n / q) as u32, (den / q) as u32)
    }
}

pub fn abs_i32(v: i32) -> (r: i32)
    requires
        v > i32::MIN,
    ensures
        r == if v < 0 { -v } else { v as int },
{
    if v < 0 {
        -v
    } else {
        v
    }
}

/// Manhattan distance between two positions.
pub open spec fn manhattan(a: (int, int), b: (int, int)) -> int {
    (if a.0 >= b.0 { a.0 - b.0 } else { b.0 - a.0 }) + (if a.1 >= b.1 { a.1 - b.1 } else { b.1 - a.1 })
}

impl ExplorationMap {
    /// A position reachable in at most `k` steps lies within Manhattan distance `k` of the
    /// start: a movement card of range `k` never carries the player farther.
    pub proof fn lemma_reach_within_distance(&self, s: (int, int), c: (int, int), k: nat)
        requires
            self.reach(s, c, k),
        ensures
            manhattan(c, s) <= k,
        decreases k,
    {
        if k > 0 {
            let p = (k - 1) as nat;
            if self.reach(s, c, p) {
                self.lemma_reach_within_distance(s, c, p);
            } else if self.reach(s, (c.0 + 1, c.1), p) {
                self.lemma_reach_within_distance(s, (c.0 + 1, c.1), p);
            } else if self.reach(s, (c.0 - 1, c.1), p) {
                self.lemma_reach_within_distance(s, (c.0 - 1, c.1), p);
            } else if self.reach(s, (c.0, c.1 + 1), p) {
                self.lemma_reach_within_distance(s, (c.0, c.1 + 1), p);
            } else {
                self.lemma_reach_within_distance(s, (c.0, c.1 - 1), p);
            }
        }
    }
}

} // verus!
