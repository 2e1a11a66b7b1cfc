use vstd::prelude::*;
use vstd::pervasive::VecAdditionalExecFns;
use vstd::arithmetic::div_mod::lemma_fundamental_div_mod;
use vstd::arithmetic::div_mod::lemma_fundamental_div_mod_converse_div;
use vstd::arithmetic::div_mod::lemma_fundamental_div_mod_converse_mod;
use vstd::arithmetic::div_mod::lemma_mod_bound;
use vstd::arithmetic::div_mod::lemma_multiply_divide_lt;
use vstd::set_lib::lemma_int_range;
use vstd::set_lib::lemma_len_subset;
use vstd::set_lib::set_int_range;

use vstd::set::axiom_set_insert_finite;
use vstd::set::axiom_set_insert_len;

use crate::board::BoardModel;
use crate::board::BOARD_CAPACITY;
use crate::board::GameBoard;
use crate::board::filled;
use crate::board::lemma_size_bound;
use crate::board::mine_ind;
use crate::board::neighbor_mine_count;

verus! {

/// Whether `i` names a cell of the grid.
pub open spec fn in_grid(m: BoardModel, i: int) -> bool {
    0 <= i < m.size()
}

/// Whether two distinct grid cells touch, diagonals included: their columns
/// and their rows each differ by at most one.
pub open spec fn cells_adjacent(m: BoardModel, i: int, j: int) -> bool {
    &&& in_grid(m, i)
    &&& in_grid(m, j)
    &&& i != j
    &&& -1 <= i % m.width - j % m.width <= 1
    &&& -1 <= i / m.width - j / m.width <= 1
}

/// Whether the flood fill may expand through cell `i`: it exists, holds no
/// mine, and touches no mine.
pub open spec fn expandable(m: BoardModel, i: int) -> bool {
    in_grid(m, i) && !m.mines[i] && m.adj[i] == 0u8
}

/// A zero-count path of length at most `n` from `s` to `j`: both are
/// expandable and each step moves to an adjacent expandable cell.
pub open spec fn zc_n(m: BoardModel, s: int, j: int, n: nat) -> bool
    decreases n,
{
    expandable(m, s) && (j == s || (n > 0 && expandable(m, j) && exists|k: int|
        cells_adjacent(m, k, j) && zc_n(m, s, k, (n - 1) as nat)))
}

/// Whether `j` lies in the connected zero-count region of `s`.
pub open spec fn zero_connected(m: BoardModel, s: int, j: int) -> bool {
    exists|n: nat| zc_n(m, s, j, n)
}

/// The cells a flood fill seeded at `s` uncovers beyond `s` itself: the
/// connected zero-count region of `s` together with its one-cell border —
/// every neighbor of that region, mines included.
pub open spec fn flood_reaches(m: BoardModel, s: int, j: int) -> bool {
    zero_connected(m, s, j) || exists|k: int|
        #[trigger] zero_connected(m, s, k) && cells_adjacent(m, k, j)
}

/// The board after a flood-fill reveal at `clicked`: the clicked cell and
/// everything the flood reaches become uncovered, nothing else changes.
pub open spec fn uncover_step(m: BoardModel, clicked: int) -> BoardModel {
    BoardModel {
        unc: Seq::new(
            BOARD_CAPACITY as nat,
            |j: int| m.unc[j] || j == clicked || flood_reaches(m, clicked, j),
        ),
        ..m
    }
}

/// The board with every mine uncovered and nothing else changed.
pub open spec fn bombs_revealed(m: BoardModel) -> BoardModel {
    BoardModel {
        unc: Seq::new(
            BOARD_CAPACITY as nat,
            |j: int| m.unc[j] || (in_grid(m, j) && m.mines[j]),
        ),
        ..m
    }
}

/// The board after one primary click on `index`: out-of-range indices do
/// nothing; otherwise the flood fill runs, and a direct hit on a mine in
/// addition ends the game as lost and lays every mine open.
pub open spec fn reveal_step(m: BoardModel, index: int) -> BoardModel {
    if !in_grid(m, index) {
        m
    } else {
        let flooded = uncover_step(m, index);
        if m.mines[index] {
            bombs_revealed(BoardModel { game_over: true, win: false, ..flooded })
        } else {
            flooded
        }
    }
}

/// Everything of the board but the covering state agrees with `m0`.
pub open spec fn same_terrain(m: BoardModel, m0: BoardModel) -> bool {
    &&& m.width == m0.width
    &&& m.height == m0.height
    &&& m.crab_ratio == m0.crab_ratio
    &&& m.tile_size == m0.tile_size
    &&& m.px_left == m0.px_left
    &&& m.px_top == m0.px_top
    &&& m.game_over == m0.game_over
    &&& m.win == m0.win
    &&& m.mines == m0.mines
    &&& m.adj == m0.adj
    &&& m.marks == m0.marks
}

/// The bookkeeping the flood fill carries: the work list holds distinct
/// expandable cells of the clicked cell's zero-count region, and the visited
/// marks are exactly the work-list membership.
pub open spec fn queue_visited_ok(
    m0: BoardModel,
    clicked: int,
    queue: Seq<usize>,
    visited: Seq<bool>,
) -> bool {
    &&& visited.len() == BOARD_CAPACITY
    &&& forall|q: int|
        0 <= q < queue.len() ==> expandable(m0, #[trigger] queue[q] as int) && zero_connected(
            m0,
            clicked,
            queue[q] as int,
        )
    &&& forall|q1: int, q2: int| 0 <= q1 < q2 < queue.len() ==> queue[q1] != queue[q2]
    &&& forall|j: int| 0 <= j < BOARD_CAPACITY ==> (visited[j] <==> queue.contains(j as usize))
}

/// An expandable cell starts its own zero-count region.
pub proof fn lemma_zc_self(m: BoardModel, s: int)
    requires
        expandable(m, s),
    ensures
        zero_connected(m, s, s),
{
    assert(zc_n(m, s, s, 0));
}

/// The zero-count region grows across adjacency: an expandable neighbor of a
/// region cell lies in the region.
pub proof fn lemma_zc_extend(m: BoardModel, s: int, k: int, j: int)
    requires
        zero_connected(m, s, k),
        cells_adjacent(m, k, j),
        expandable(m, j),
    ensures
        zero_connected(m, s, j),
{
    let n = choose|n: nat| zc_n(m, s, k, n);
    assert(cells_adjacent(m, k, j) && zc_n(m, s, k, n));
    assert(zc_n(m, s, j, n + 1));
}

/// A work list of distinct cells of the fixed capacity cannot outgrow it:
/// the visited marks admit each cell to the flood fill's work list at most
/// once, so the whole reveal expands at most one list entry per board cell.
pub proof fn lemma_queue_len_bound(
    m0: BoardModel,
    clicked: int,
    queue: Seq<usize>,
    visited: Seq<bool>,
)
    requires
        m0.wf(),
        queue_visited_ok(m0, clicked, queue, visited),
    ensures
        queue.len() <= BOARD_CAPACITY,
{
    lemma_size_bound(m0);
    let qi = queue.map_values(|v: usize| v as int);
    assert(qi.no_duplicates());
    qi.unique_seq_to_set();
    assert forall|a: int| qi.to_set().contains(a) implies set_int_range(
        0,
        BOARD_CAPACITY as int,
    ).contains(a) by {
        let q = choose|q: int| 0 <= q < qi.len() && qi[q] == a;
        assert(expandable(m0, queue[q] as int));
    }
    lemma_int_range(0, BOARD_CAPACITY as int);
    lemma_len_subset(qi.to_set(), set_int_range(0, BOARD_CAPACITY as int));
}

/// An adjacent pair of cells decomposes into coordinates: the neighbor's
/// column and row each lie within one of the cell's own, inside the grid,
/// and not both equal.
pub proof fn lemma_adjacent_cases(m: BoardModel, i: int, j: int)
    requires
        m.wf(),
        cells_adjacent(m, i, j),
    ensures
        j == m.width * (j / m.width) + j % m.width,
        i == m.width * (i / m.width) + i % m.width,
        0 <= j % m.width < m.width,
        0 <= j / m.width < m.height,
        0 <= i % m.width < m.width,
        0 <= i / m.width < m.height,
        !(j % m.width == i % m.width && j / m.width == i / m.width),
{
    let w = m.width;
    lemma_size_bound(m);
    lemma_fundamental_div_mod(j, w);
    lemma_fundamental_div_mod(i, w);
    lemma_mod_bound(j, w);
    lemma_mod_bound(i, w);
    assert(j < w * m.height) by (nonlinear_arith)
        requires
            j < m.width * m.height,
            w == m.width,
    ;
    assert(i < w * m.height) by (nonlinear_arith)
        requires
            i < m.width * m.height,
            w == m.width,
    ;
    lemma_multiply_divide_lt(j, w, m.height);
    lemma_multiply_divide_lt(i, w, m.height);
    assert(0 <= j / w) by (nonlinear_arith)
        requires
            0 <= j,
            0 < w,
    ;
    assert(0 <= i / w) by (nonlinear_arith)
        requires
            0 <= i,
            0 < w,
    ;
}

/// Every cell of the clicked cell's zero-count region ends up on the work
/// list once the list is closed under expansion.
pub proof fn lemma_flood_complete(
    m0: BoardModel,
    clicked: int,
    queue: Seq<usize>,
    visited: Seq<bool>,
    j: int,
    n: nat,
)
    requires
        m0.wf(),
        queue_visited_ok(m0, clicked, queue, visited),
        expandable(m0, clicked) ==> 0 <= clicked < BOARD_CAPACITY && visited[clicked],
        forall|q: int, x: int|
            0 <= q < queue.len() && #[trigger] cells_adjacent(m0, queue[q] as int, x)
                && expandable(m0, x) ==> visited[x],
        zc_n(m0, clicked, j, n),
    ensures
        0 <= j < BOARD_CAPACITY,
        visited[j],
    decreases n,
{
    lemma_size_bound(m0);
    if j == clicked {
    } else {
        let k = choose|k: int| cells_adjacent(m0, k, j) && zc_n(m0, clicked, k, (n - 1) as nat);
        lemma_flood_complete(m0, clicked, queue, visited, k, (n - 1) as nat);
        assert(queue.contains(k as usize));
        let q = choose|q: int| 0 <= q < queue.len() && queue[q] == k as usize;
        assert(cells_adjacent(m0, queue[q] as int, j) && expandable(m0, j));
    }
}

/// The set of grid cells that touch `i` and hold a mine.
pub open spec fn mine_neighbors(m: BoardModel, i: int) -> Set<int> {
    Set::new(|j: int| cells_adjacent(m, i, j) && m.mines[j])
}

/// One neighbor slot of cell `i`: where the offset stays inside the grid,
/// the cell there is a well-formed adjacent cell with the expected column
/// and row.
proof fn lemma_neighbor_candidate(m: BoardModel, i: int, dx: int, dy: int)
    requires
        m.wf(),
        in_grid(m, i),
        -1 <= dx <= 1,
        -1 <= dy <= 1,
        !(dx == 0 && dy == 0),
        0 <= i % m.width + dx < m.width,
        0 <= i / m.width + dy < m.height,
    ensures
        ({
            let j = m.width * (i / m.width + dy) + (i % m.width + dx);
            &&& in_grid(m, j)
            &&& j % m.width == i % m.width + dx
            &&& j / m.width == i / m.width + dy
            &&& j != i
            &&& cells_adjacent(m, i, j)
        }),
{
    lemma_size_bound(m);
    let w = m.width;
    let h = m.height;
    let x = i % w;
    let y = i / w;
    let j = w * (y + dy) + (x + dx);
    lemma_mod_bound(i, w);
    lemma_fundamental_div_mod(i, w);
    assert(i < w * h) by (nonlinear_arith)
        requires
            i < m.width * m.height,
            w == m.width,
            h == m.height,
    ;
    lemma_multiply_divide_lt(i, w, h);
    assert(0 <= i / w) by (nonlinear_arith)
        requires
            0 <= i,
            0 < w,
    ;
    lemma_fundamental_div_mod_converse_mod(j, w, y + dy, x + dx);
    lemma_fundamental_div_mod_converse_div(j, w, y + dy, x + dx);
    assert(0 <= j && j < w * h) by (nonlinear_arith)
        requires
            j == w * (y + dy) + (x + dx),
            0 <= y + dy <= h - 1,
            0 <= x + dx <= w - 1,
            1 <= w,
    ;
    assert(j < m.size()) by (nonlinear_arith)
        requires
            j < w * h,
            w == m.width,
            h == m.height,
    ;
}

/// The stored neighbor sum counts a set: it equals the exact cardinality of
/// the set of mined cells in the bounded Moore neighborhood of `i`.
#[verifier::rlimit(100)]
#[verifier::spinoff_prover]
pub proof fn lemma_count_is_mine_neighbor_card(m: BoardModel, i: int)
    requires
        m.wf(),
        in_grid(m, i),
    ensures
        mine_neighbors(m, i).finite(),
        mine_neighbors(m, i).len() == neighbor_mine_count(m.mines, m.width, m.height, i),
{
    broadcast use vstd::set::group_set_axioms;

    lemma_size_bound(m);
    let w = m.width;
    let h = m.height;
    let x = i % w;
    let y = i / w;
    lemma_mod_bound(i, w);
    lemma_fundamental_div_mod(i, w);
    assert(i < w * h) by (nonlinear_arith)
        requires
            i < m.width * m.height,
            w == m.width,
            h == m.height,
    ;
    lemma_multiply_divide_lt(i, w, h);
    assert(0 <= i / w) by (nonlinear_arith)
        requires
            0 <= i,
            0 < w,
    ;
    assert(w * (y - 1) == (y - 1) * w) by (nonlinear_arith);
    assert(w * y == y * w) by (nonlinear_arith);
    assert(w * (y + 1) == (y + 1) * w) by (nonlinear_arith);
    let c1 = 0 <= x - 1 && 0 <= y - 1;
    let c2 = 0 <= y - 1;
    let c3 = x + 1 < w && 0 <= y - 1;
    let c4 = x + 1 < w;
    let c5 = x + 1 < w && y + 1 < h;
    let c6 = y + 1 < h;
    let c7 = 0 <= x - 1 && y + 1 < h;
    let c8 = 0 <= x - 1;
    let j1 = w * (y - 1) + (x - 1);
    let j2 = w * (y - 1) + x;
    let j3 = w * (y - 1) + (x + 1);
    let j4 = w * y + (x + 1);
    let j5 = w * (y + 1) + (x + 1);
    let j6 = w * (y + 1) + x;
    let j7 = w * (y + 1) + (x - 1);
    let j8 = w * y + (x - 1);
    if c1 {
        lemma_neighbor_candidate(m, i, -1, -1);
    }
    if c2 {
        lemma_neighbor_candidate(m, i, 0, -1);
    }
    if c3 {
        lemma_neighbor_candidate(m, i, 1, -1);
    }
    if c4 {
        lemma_neighbor_candidate(m, i, 1, 0);
    }
    if c5 {
        lemma_neighbor_candidate(m, i, 1, 1);
    }
    if c6 {
        lemma_neighbor_candidate(m, i, 0, 1);
    }
    if c7 {
        lemma_neighbor_candidate(m, i, -1, 1);
    }
    if c8 {
        lemma_neighbor_candidate(m, i, -1, 0);
    }
    let s0 = Set::<int>::empty();
    let s1 = if c1 && m.mines[j1] { s0.insert(j1) } else { s0 };
    let s2 = if c2 && m.mines[j2] { s1.insert(j2) } else { s1 };
    let s3 = if c3 && m.mines[j3] { s2.insert(j3) } else { s2 };
    let s4 = if c4 && m.mines[j4] { s3.insert(j4) } else { s3 };
    let s5 = if c5 && m.mines[j5] { s4.insert(j5) } else { s4 };
    let s6 = if c6 && m.mines[j6] { s5.insert(j6) } else { s5 };
    let s7 = if c7 && m.mines[j7] { s6.insert(j7) } else { s6 };
    let s8 = if c8 && m.mines[j8] { s7.insert(j8) } else { s7 };
    assert(s8.finite() && s8.len() == neighbor_mine_count(m.mines, w, h, i)) by {
        assert(s0.len() == 0);
        if c1 && m.mines[j1] {
            axiom_set_insert_finite(s0, j1);
            axiom_set_insert_len(s0, j1);
        }
        if c2 && m.mines[j2] {
            axiom_set_insert_finite(s1, j2);
            axiom_set_insert_len(s1, j2);
        }
        if c3 && m.mines[j3] {
            axiom_set_insert_finite(s2, j3);
            axiom_set_insert_len(s2, j3);
        }
        if c4 && m.mines[j4] {
            axiom_set_insert_finite(s3, j4);
            axiom_set_insert_len(s3, j4);
        }
        if c5 && m.mines[j5] {
            axiom_set_insert_finite(s4, j5);
            axiom_set_insert_len(s4, j5);
        }
        if c6 && m.mines[j6] {
            axiom_set_insert_finite(s5, j6);
            axiom_set_insert_len(s5, j6);
        }
        if c7 && m.mines[j7] {
            axiom_set_insert_finite(s6, j7);
            axiom_set_insert_len(s6, j7);
        }
        if c8 && m.mines[j8] {
            axiom_set_insert_finite(s7, j8);
            axiom_set_insert_len(s7, j8);
        }
        assert(s1.len() == mine_ind(m.mines, w, h, x - 1, y - 1));
        assert(s2.len() == s1.len() + mine_ind(m.mines, w, h, x, y - 1));
        assert(s3.len() == s2.len() + mine_ind(m.mines, w, h, x + 1, y - 1));
        assert(s4.len() == s3.len() + mine_ind(m.mines, w, h, x + 1, y));
        assert(s5.len() == s4.len() + mine_ind(m.mines, w, h, x + 1, y + 1));
        assert(s6.len() == s5.len() + mine_ind(m.mines, w, h, x, y + 1));
        assert(s7.len() == s6.len() + mine_ind(m.mines, w, h, x - 1, y + 1));
        assert(s8.len() == s7.len() + mine_ind(m.mines, w, h, x - 1, y));
    }
    assert forall|j: int| mine_neighbors(m, i).contains(j) implies s8.contains(j) by {
        lemma_adjacent_cases(m, i, j);
    }
    assert forall|j: int| s8.contains(j) implies mine_neighbors(m, i).contains(j) by {}
    assert(s8 =~= mine_neighbors(m, i));
}

/// On a board whose stored counts are the neighbor sums — as every
/// generated or laid-out board ensures — each cell's count is the exact
/// cardinality of its set of mined Moore neighbors.
pub proof fn lemma_counts_match_neighbor_sets(m: BoardModel)
    requires
        m.wf(),
        forall|i: int|
            0 <= i < m.size() ==> #[trigger] m.adj[i] as int == neighbor_mine_count(
                m.mines,
                m.width,
                m.height,
                i,
            ),
    ensures
        forall|i: int|
            0 <= i < m.size() ==> m.adj[i] as int == #[trigger] mine_neighbors(m, i).len(),
{
    assert forall|i: int|
        0 <= i < m.size() implies m.adj[i] as int == #[trigger] mine_neighbors(m, i).len() by {
        lemma_count_is_mine_neighbor_card(m, i);
    }
}

/// The size classes of the bounded Moore neighborhood: a count never
/// exceeds eight, a cell on the board's edge counts over at most five
/// neighbors, and a corner cell over at most three.
pub proof fn lemma_neighbor_count_bounds(m: BoardModel, i: int)
    requires
        m.wf(),
        in_grid(m, i),
    ensures
        0 <= neighbor_mine_count(m.mines, m.width, m.height, i) <= 8,
        ({
            let x = i % m.width;
            let y = i / m.width;
            let on_column_edge = x == 0 || x == m.width - 1;
            let on_row_edge = y == 0 || y == m.height - 1;
            &&& (on_column_edge || on_row_edge ==> neighbor_mine_count(
                m.mines,
                m.width,
                m.height,
                i,
            ) <= 5)
            &&& (on_column_edge && on_row_edge ==> neighbor_mine_count(
                m.mines,
                m.width,
                m.height,
                i,
            ) <= 3)
        }),
{
    lemma_size_bound(m);
    let w = m.width;
    let h = m.height;
    lemma_mod_bound(i, w);
    assert(i < w * h) by (nonlinear_arith)
        requires
            i < m.width * m.height,
            w == m.width,
            h == m.height,
    ;
    lemma_multiply_divide_lt(i, w, h);
    assert(0 <= i / w) by (nonlinear_arith)
        requires
            0 <= i,
            0 < w,
    ;
}

/// A direct hit on a mine ends the game: the loss flags are set and every
/// mine lies open afterwards.
pub proof fn lemma_loss_trigger(m: BoardModel, index: int)
    requires
        m.wf(),
        in_grid(m, index),
        m.mines[index],
    ensures
        reveal_step(m, index).game_over,
        !reveal_step(m, index).win,
        forall|j: int| in_grid(m, j) && m.mines[j] ==> reveal_step(m, index).unc[j],
{
    lemma_size_bound(m);
}

impl GameBoard {
    /// Uncover one visited neighbor unconditionally, and put it on the work
    /// list if it is an unvisited expandable cell.
    fn flood_visit(
        &mut self,
        nb: usize,
        queue: &mut Vec<usize>,
        visited: &mut Vec<bool>,
        Ghost(m0): Ghost<BoardModel>,
        Ghost(clicked): Ghost<int>,
        Ghost(cur): Ghost<int>,
    )
        requires
            old(self).wf(),
            m0.wf(),
            same_terrain(old(self)@, m0),
            nb < old(self)@.size(),
            queue_visited_ok(m0, clicked, old(queue)@, old(visited)@),
            zero_connected(m0, clicked, cur),
            cells_adjacent(m0, cur, nb as int),
        ensures
            final(self).wf(),
            same_terrain(final(self)@, m0),
            final(self).is_uncovered@ == old(self).is_uncovered@.update(nb as int, true),
            queue_visited_ok(m0, clicked, final(queue)@, final(visited)@),
            ({
                let expand = expandable(m0, nb as int) && !old(visited)@[nb as int];
                if expand {
                    final(queue)@ == old(queue)@.push(nb) && final(visited)@ == old(
                        visited,
                    )@.update(nb as int, true)
                } else {
                    final(queue)@ == old(queue)@ && final(visited)@ == old(visited)@
                }
            }),
    {
        proof {
            lemma_size_bound(m0);
        }
        self.is_uncovered.set(nb, true);
        if !self.is_crab[nb] && self.adjacency[nb] == 0 && !visited[nb] {
            visited.set(nb, true);
            queue.push(nb);
            proof {
                lemma_zc_extend(m0, clicked, cur, nb as int);
                assert(queue@[queue@.len() - 1] == nb);
                assert forall|j: int| 0 <= j < BOARD_CAPACITY implies (visited@[j]
                    <==> queue@.contains(j as usize)) by {
                    if j == nb as int {
                        assert(queue@[queue@.len() - 1] == j as usize);
                    } else {
                        if queue@.contains(j as usize) {
                            let q = choose|q: int|
                                0 <= q < queue@.len() && queue@[q] == j as usize;
                            assert(q < queue@.len() - 1);
                            assert(old(queue)@.contains(j as usize));
                        }
                        if old(queue)@.contains(j as usize) {
                            let q = choose|q: int|
                                0 <= q < old(queue)@.len() && old(queue)@[q] == j as usize;
                            assert(queue@[q] == j as usize);
                        }
                    }
                }
            }
        }
    }

    /// The eight neighbor slots of cell `i`, bounded at the grid edges: a
    /// direction that leaves the grid yields `i` itself in its slot, so that
    /// every other entry is exactly an adjacent cell and every adjacent cell
    /// fills some slot.
    #[verifier::rlimit(100)]
    #[verifier::spinoff_prover]
    fn neighbor_slots(&self, i: usize) -> (r: Vec<usize>)
        requires
            self.wf(),
            i < self@.size(),
        ensures
            r@.len() == 8,
            forall|k: int|
                0 <= k < 8 ==> #[trigger] r@[k] as int == i as int || cells_adjacent(
                    self@,
                    i as int,
                    r@[k] as int,
                ),
            forall|j: int|
                cells_adjacent(self@, i as int, j) ==> exists|k: int|
                    0 <= k < 8 && #[trigger] r@[k] as int == j,
    {
        proof {
            lemma_size_bound(self@);
        }
        let ghost m: BoardModel = self@;
        let (ix, iy) = self.index_to_coordinates(i);
        let right_bounds = self.width - 1;
        let bottom_bounds = self.height - 1;
        let mut r: Vec<usize> = Vec::new();
        let nw = if ix > 0 && iy > 0 {
            self.coordinates_to_index(ix - 1, iy - 1)
        } else {
            i
        };
        r.push(nw);
        let n = if iy > 0 {
            self.coordinates_to_index(ix, iy - 1)
        } else {
            i
        };
        r.push(n);
        let ne = if ix < right_bounds && iy > 0 {
            self.coordinates_to_index(ix + 1, iy - 1)
        } else {
            i
        };
        r.push(ne);
        let e = if ix < right_bounds {
            self.coordinates_to_index(ix + 1, iy)
        } else {
            i
        };
        r.push(e);
        let se = if ix < right_bounds && iy < bottom_bounds {
            self.coordinates_to_index(ix + 1, iy + 1)
        } else {
            i
        };
        r.push(se);
        let s = if iy < bottom_bounds {
            self.coordinates_to_index(ix, iy + 1)
        } else {
            i
        };
        r.push(s);
        let sw = if ix > 0 && iy < bottom_bounds {
            self.coordinates_to_index(ix - 1, iy + 1)
        } else {
            i
        };
        r.push(sw);
        let w = if ix > 0 {
            self.coordinates_to_index(ix - 1, iy)
        } else {
            i
        };
        r.push(w);
        proof {
            assert(r@.len() == 8);
            assert(r@[0] == nw && r@[1] == n && r@[2] == ne && r@[3] == e && r@[4] == se && r@[5]
                == s && r@[6] == sw && r@[7] == w);
            assert(m.width * (iy as int - 1) == (iy as int - 1) * m.width) by (nonlinear_arith);
            assert(m.width * (iy as int) == (iy as int) * m.width) by (nonlinear_arith);
            assert(m.width * (iy as int + 1) == (iy as int + 1) * m.width) by (nonlinear_arith);
            assert forall|j: int| cells_adjacent(m, i as int, j) implies exists|k: int|
                0 <= k < 8 && #[trigger] r@[k] as int == j by {
                lemma_adjacent_cases(m, i as int, j);
                let wd = m.width;
                let xj = j % wd;
                let yj = j / wd;
                assert(ix as int == i as int % wd && iy as int == i as int / wd);
                assert(j == wd * yj + xj);
                if yj == iy as int - 1 && xj == ix as int - 1 {
                    assert(r@[0] as int == j);
                } else if yj == iy as int - 1 && xj == ix as int {
                    assert(r@[1] as int == j);
                } else if yj == iy as int - 1 && xj == ix as int + 1 {
                    assert(r@[2] as int == j);
                } else if yj == iy as int && xj == ix as int + 1 {
                    assert(r@[3] as int == j);
                } else if yj == iy as int + 1 && xj == ix as int + 1 {
                    assert(r@[4] as int == j);
                } else if yj == iy as int + 1 && xj == ix as int {
                    assert(r@[5] as int == j);
                } else if yj == iy as int + 1 && xj == ix as int - 1 {
                    assert(r@[6] as int == j);
                } else {
                    assert(yj == iy as int && xj == ix as int - 1);
                    assert(r@[7] as int == j);
                }
            }
        }
        r
    }

    /// Process one work-list cell: uncover each of its up-to-eight
    /// neighbors, and append the unvisited expandable ones to the work list.
    fn expand_cell(
        &mut self,
        i: usize,
        queue: &mut Vec<usize>,
        visited: &mut Vec<bool>,
        Ghost(m0): Ghost<BoardModel>,
        Ghost(clicked): Ghost<int>,
    )
        requires
            old(self).wf(),
            m0.wf(),
            same_terrain(old(self)@, m0),
            queue_visited_ok(m0, clicked, old(queue)@, old(visited)@),
            expandable(m0, i as int),
            zero_connected(m0, clicked, i as int),
            old(self).is_uncovered@[i as int],
        ensures
            final(self).wf(),
            same_terrain(final(self)@, m0),
            queue_visited_ok(m0, clicked, final(queue)@, final(visited)@),
            forall|j: int|
                0 <= j < BOARD_CAPACITY && old(self).is_uncovered@[j] ==> final(self).is_uncovered@[j],
            forall|j: int|
                0 <= j < BOARD_CAPACITY && !old(self).is_uncovered@[j] && final(self).is_uncovered@[j] ==> cells_adjacent(m0, i as int, j),
            forall|j: int|
                0 <= j < BOARD_CAPACITY && cells_adjacent(m0, i as int, j) ==> final(self).is_uncovered@[j],
            forall|j: int| 0 <= j < BOARD_CAPACITY && old(visited)@[j] ==> final(visited)@[j],
            forall|j: int|
                0 <= j < BOARD_CAPACITY && !old(visited)@[j] && final(visited)@[j]
                    ==> cells_adjacent(m0, i as int, j) && expandable(m0, j),
            forall|j: int|
                0 <= j < BOARD_CAPACITY && cells_adjacent(m0, i as int, j) && expandable(m0, j)
                    ==> final(visited)@[j],
            final(queue)@.len() >= old(queue)@.len(),
            forall|q: int| 0 <= q < old(queue)@.len() ==> final(queue)@[q] == old(queue)@[q],
    {
        proof {
            lemma_size_bound(m0);
        }
        let ghost pre_unc: Seq<bool> = self.is_uncovered@;
        let ghost pre_v: Seq<bool> = visited@;
        let ghost pre_q: Seq<usize> = queue@;
        let nbs = self.neighbor_slots(i);
        let mut k: usize = 0;
        while k < 8
            invariant
                self.wf(),
                m0.wf(),
                same_terrain(self@, m0),
                k <= 8,
                i < m0.size(),
                m0.size() <= BOARD_CAPACITY,
                expandable(m0, i as int),
                zero_connected(m0, clicked, i as int),
                queue_visited_ok(m0, clicked, queue@, visited@),
                nbs@.len() == 8,
                forall|t: int|
                    0 <= t < 8 ==> #[trigger] nbs@[t] as int == i as int || cells_adjacent(
                        m0,
                        i as int,
                        nbs@[t] as int,
                    ),
                pre_unc.len() == BOARD_CAPACITY,
                pre_v.len() == BOARD_CAPACITY,
                forall|j: int| 0 <= j < BOARD_CAPACITY && pre_unc[j] ==> self.is_uncovered@[j],
                forall|j: int|
                    0 <= j < BOARD_CAPACITY && !pre_unc[j] && self.is_uncovered@[j]
                        ==> cells_adjacent(m0, i as int, j),
                forall|t: int|
                    0 <= t < k && #[trigger] nbs@[t] as int != i as int
                        ==> self.is_uncovered@[nbs@[t] as int],
                forall|j: int| 0 <= j < BOARD_CAPACITY && pre_v[j] ==> visited@[j],
                forall|j: int|
                    0 <= j < BOARD_CAPACITY && !pre_v[j] && visited@[j] ==> cells_adjacent(
                        m0,
                        i as int,
                        j,
                    ) && expandable(m0, j),
                forall|t: int|
                    0 <= t < k && #[trigger] nbs@[t] as int != i as int && expandable(
                        m0,
                        nbs@[t] as int,
                    ) ==> visited@[nbs@[t] as int],
                queue@.len() >= pre_q.len(),
                forall|q: int| 0 <= q < pre_q.len() ==> queue@[q] == pre_q[q],
            decreases 8 - k,
        {
            let nb = nbs[k];
            if nb != i {
                proof {
                    assert(cells_adjacent(m0, i as int, nbs@[k as int] as int));
                }
                self.flood_visit(nb, queue, visited, Ghost(m0), Ghost(clicked), Ghost(i as int));
            }
            k += 1;
        }
        proof {
            assert forall|j: int|
                0 <= j < BOARD_CAPACITY && cells_adjacent(m0, i as int, j) implies
                self.is_uncovered@[j] by {
                assert(cells_adjacent(old(self)@, i as int, j));
                let t = choose|t: int| 0 <= t < 8 && #[trigger] nbs@[t] as int == j;
                assert(nbs@[t] as int != i as int);
            }
            assert forall|j: int|
                0 <= j < BOARD_CAPACITY && cells_adjacent(m0, i as int, j) && expandable(m0, j)
                implies visited@[j] by {
                assert(cells_adjacent(old(self)@, i as int, j));
                let t = choose|t: int| 0 <= t < 8 && #[trigger] nbs@[t] as int == j;
                assert(nbs@[t] as int != i as int);
            }
        }
    }

    /// The breadth-first flood fill: uncover the clicked cell, and when it
    /// is an expandable zero-count cell, spread across its connected
    /// zero-count region, uncovering every neighbor on the way — mines
    /// included — while only expandable cells join the work list.  The
    /// result uncovers exactly the clicked cell, the region, and the
    /// region's one-cell border.
    #[verifier::rlimit(100)]
    #[verifier::spinoff_prover]
    pub fn uncover_tiles(&mut self, clicked_index: usize)
        requires
            old(self).wf(),
            clicked_index < old(self)@.size(),
        ensures
            final(self).wf(),
            final(self)@ =~= uncover_step(old(self)@, clicked_index as int),
    {
        proof {
            lemma_size_bound(self@);
        }
        let ghost m0: BoardModel = self@;
        let ghost munc: Seq<bool> = m0.unc;
        let ghost clicked: int = clicked_index as int;
        let mut visited: Vec<bool> = filled(BOARD_CAPACITY, false);
        let mut queue: Vec<usize> = Vec::new();
        self.is_uncovered.set(clicked_index, true);
        if !self.is_crab[clicked_index] && self.adjacency[clicked_index] == 0 {
            visited.set(clicked_index, true);
            queue.push(clicked_index);
            proof {
                lemma_zc_self(m0, clicked);
                assert(queue@[0] == clicked_index);
                assert forall|j: int| 0 <= j < BOARD_CAPACITY implies (visited@[j]
                    <==> queue@.contains(j as usize)) by {
                    if j == clicked {
                        assert(queue@[0] == j as usize);
                    } else if queue@.contains(j as usize) {
                        let q = choose|q: int| 0 <= q < queue@.len() && queue@[q] == j as usize;
                        assert(q == 0);
                    }
                }
            }
        } else {
            proof {
                assert forall|j: int| 0 <= j < BOARD_CAPACITY implies (visited@[j]
                    <==> queue@.contains(j as usize)) by {
                    if queue@.contains(j as usize) {
                        let q = choose|q: int| 0 <= q < queue@.len() && queue@[q] == j as usize;
                    }
                }
            }
        }
        let mut head: usize = 0;
        while head < queue.len()
            invariant
                self.wf(),
                m0.wf(),
                same_terrain(self@, m0),
                m0.size() <= BOARD_CAPACITY,
                0 <= clicked < m0.size(),
                head <= queue@.len(),
                queue@.len() <= BOARD_CAPACITY,
                queue_visited_ok(m0, clicked, queue@, visited@),
                expandable(m0, clicked) ==> visited@[clicked],
                munc == m0.unc,
                munc.len() == BOARD_CAPACITY,
                forall|q: int|
                    0 <= q < queue@.len() ==> self.is_uncovered@[#[trigger] queue@[q] as int],
                forall|j: int|
                    0 <= j < BOARD_CAPACITY && (munc[j] || j == clicked)
                        ==> self.is_uncovered@[j],
                forall|q: int, j: int|
                    0 <= q < head && #[trigger] cells_adjacent(m0, queue@[q] as int, j)
                        ==> self.is_uncovered@[j],
                forall|j: int|
                    0 <= j < BOARD_CAPACITY && self.is_uncovered@[j] && !munc[j] && j != clicked
                        ==> flood_reaches(m0, clicked, j),
                forall|q: int, j: int|
                    0 <= q < head && #[trigger] cells_adjacent(m0, queue@[q] as int, j)
                        && expandable(m0, j) ==> visited@[j],
            decreases BOARD_CAPACITY - head,
        {
            let ghost head0: int = head as int;
            let ghost pre_unc: Seq<bool> = self.is_uncovered@;
            let ghost pre_q: Seq<usize> = queue@;
            let ghost pre_v: Seq<bool> = visited@;
            let i = queue[head];
            proof {
                assert(i == queue@[head0]);
                assert(expandable(m0, queue@[head0] as int) && zero_connected(
                    m0,
                    clicked,
                    queue@[head0] as int,
                ));
                assert(self.is_uncovered@[queue@[head0] as int]);
                assert(expandable(m0, i as int));
                assert(zero_connected(m0, clicked, i as int));
                lemma_size_bound(m0);
            }
            self.expand_cell(i, &mut queue, &mut visited, Ghost(m0), Ghost(clicked));
            head += 1;
            proof {
                lemma_queue_len_bound(m0, clicked, queue@, visited@);
                assert forall|q: int|
                    0 <= q < queue@.len() implies self.is_uncovered@[#[trigger] queue@[q] as int] by {
                    let v = queue@[q] as int;
                    if q < pre_q.len() {
                        assert(queue@[q] == pre_q[q]);
                        assert(pre_unc[v]);
                    } else {
                        assert(visited@[v]);
                        if pre_v[v] {
                            assert(pre_q.contains(v as usize));
                            let t = choose|t: int| 0 <= t < pre_q.len() && pre_q[t] == v as usize;
                            assert(pre_unc[v]);
                        } else {
                            assert(cells_adjacent(m0, i as int, v));
                        }
                    }
                }
                assert forall|q: int, j: int|
                    0 <= q < head && #[trigger] cells_adjacent(m0, queue@[q] as int, j) implies
                    self.is_uncovered@[j] by {
                    if q < head0 {
                        assert(queue@[q] == pre_q[q]);
                        assert(cells_adjacent(m0, pre_q[q] as int, j));
                        assert(pre_unc[j]);
                    } else {
                        assert(queue@[q] == pre_q[head0]);
                        assert(cells_adjacent(m0, i as int, j));
                    }
                }
                assert forall|j: int|
                    0 <= j < BOARD_CAPACITY && self.is_uncovered@[j] && !munc[j] && j != clicked
                    implies flood_reaches(m0, clicked, j) by {
                    if pre_unc[j] {
                        assert(flood_reaches(m0, clicked, j));
                    } else {
                        assert(cells_adjacent(m0, i as int, j));
                        assert(zero_connected(m0, clicked, i as int) && cells_adjacent(
                            m0,
                            i as int,
                            j,
                        ));
                        assert(flood_reaches(m0, clicked, j));
                    }
                }
                assert forall|q: int, j: int|
                    0 <= q < head && #[trigger] cells_adjacent(m0, queue@[q] as int, j)
                        && expandable(m0, j) implies visited@[j] by {
                    if q < head0 {
                        assert(queue@[q] == pre_q[q]);
                        assert(cells_adjacent(m0, pre_q[q] as int, j));
                        assert(pre_v[j]);
                    } else {
                        assert(queue@[q] == pre_q[head0]);
                        assert(cells_adjacent(m0, i as int, j));
                    }
                }
            }
        }
        proof {
            let qf = queue@;
            let vf = visited@;
            let hf = head as int;
            assert forall|j: int|
                0 <= j < BOARD_CAPACITY && flood_reaches(m0, clicked, j) implies
                self.is_uncovered@[j] by {
                if zero_connected(m0, clicked, j) && j != clicked {
                    let n = choose|n: nat| zc_n(m0, clicked, j, n);
                    assert(zc_n(m0, clicked, j, n));
                    let k = choose|k: int|
                        cells_adjacent(m0, k, j) && zc_n(m0, clicked, k, (n - 1) as nat);
                    lemma_flood_complete(m0, clicked, qf, vf, k, (n - 1) as nat);
                    assert(qf.contains(k as usize));
                    let q = choose|q: int| 0 <= q < qf.len() && qf[q] == k as usize;
                    assert(0 <= q < hf && cells_adjacent(m0, qf[q] as int, j));
                } else if !zero_connected(m0, clicked, j) {
                    let k = choose|k: int|
                        #[trigger] zero_connected(m0, clicked, k) && cells_adjacent(m0, k, j);
                    let n = choose|n: nat| zc_n(m0, clicked, k, n);
                    lemma_flood_complete(m0, clicked, qf, vf, k, n);
                    assert(qf.contains(k as usize));
                    let q = choose|q: int| 0 <= q < qf.len() && qf[q] == k as usize;
                    assert(0 <= q < hf && cells_adjacent(m0, qf[q] as int, j));
                }
            }
            assert forall|j: int| 0 <= j < BOARD_CAPACITY implies self.is_uncovered@[j]
                == uncover_step(m0, clicked).unc[j] by {
                assert(munc[j] == m0.unc[j]);
                if munc[j] || j == clicked {
                    assert(self.is_uncovered@[j]);
                }
                if flood_reaches(m0, clicked, j) {
                    assert(self.is_uncovered@[j]);
                }
                if self.is_uncovered@[j] && !munc[j] && j != clicked {
                    assert(flood_reaches(m0, clicked, j));
                }
            }
            assert(self.is_uncovered@ =~= uncover_step(m0, clicked).unc);
            assert(self@ =~= uncover_step(m0, clicked));
        }
    }

    /// Uncover every mine on the board; nothing else changes.
    pub fn reveal_bombs(&mut self)
        requires
            old(self).wf(),
        ensures
            final(self).wf(),
            final(self)@ =~= bombs_revealed(old(self)@),
    {
        proof {
            lemma_size_bound(self@);
        }
        let ghost m0: BoardModel = self@;
        let ghost munc: Seq<bool> = m0.unc;
        let ghost mmines: Seq<bool> = m0.mines;
        let size: usize = (self.width as usize) * (self.height as usize);
        let mut i: usize = 0;
        while i < size
            invariant
                self.wf(),
                same_terrain(self@, m0),
                munc == m0.unc,
                mmines == m0.mines,
                i <= size,
                size == m0.size(),
                size <= BOARD_CAPACITY,
                forall|j: int|
                    0 <= j < BOARD_CAPACITY ==> self.is_uncovered@[j] == (munc[j] || (j < i && 0
                        <= j < size && mmines[j])),
            decreases size - i,
        {
            if self.is_crab[i] {
                self.is_uncovered.set(i, true);
            }
            i += 1;
        }
        proof {
            assert(self@ =~= bombs_revealed(m0));
        }
    }

    /// One primary click on `index`: a no-op out of range; otherwise the
    /// clicked cell is uncovered together with its flood fill, and a direct
    /// hit on a mine in addition ends the game as lost and lays every mine
    /// open.
    pub fn reveal_tile(&mut self, index: usize)
        requires
            old(self).wf(),
        ensures
            final(self).wf(),
            final(self)@ =~= reveal_step(old(self)@, index as int),
    {
        proof {
            lemma_size_bound(self@);
        }
        let size: usize = (self.width as usize) * (self.height as usize);
        if index >= size {
            return ;
        }
        let ghost m0: BoardModel = self@;
        self.uncover_tiles(index);
        if self.is_crab[index] {
            self.game_over = true;
            self.win = false;
            proof {
                assert(self@ =~= BoardModel {
                    game_over: true,
                    win: false,
                    ..uncover_step(m0, index as int)
                });
            }
            self.reveal_bombs();
        }
        proof {
            assert(self@ =~= reveal_step(m0, index as int));
        }
    }
}

} // verus!