//! Reachability pruning: which nodes a heart reaches through a chain of
//! neighbouring node cells.

use crate::board::{lemma_layout_keeps_wf, lemma_within_in_range, Board};
use crate::hex::{hex_all_neighbors, offset_of, HexPos};
use crate::node::{CyberState, StateView};
use vstd::prelude::*;

verus! {

/// Whether `b` is the neighbour of `a` in direction `d`.
pub open spec fn is_step(a: HexPos, d: int, b: HexPos) -> bool {
    b.x == a.x + offset_of(d).0 && b.y == a.y + offset_of(d).1
}

/// Whether `a` and `b` share an edge.
pub open spec fn touches(a: HexPos, b: HexPos) -> bool {
    exists|d: int| 0 <= d < 6 && #[trigger] is_step(a, d, b)
}

/// How many entries of `flags` are `false`.
pub open spec fn count_false(flags: Seq<bool>) -> nat
    decreases flags.len(),
{
    if flags.len() == 0 {
        0
    } else {
        count_false(flags.drop_last()) + if flags.last() {
            0nat
        } else {
            1nat
        }
    }
}

/// Raising one flag lowers the count of lowered flags by one.
pub proof fn lemma_count_false_update(flags: Seq<bool>, j: int)
    requires
        0 <= j < flags.len(),
        !flags[j],
    ensures
        count_false(flags.update(j, true)) + 1 == count_false(flags),
    decreases flags.len(),
{
    let raised = flags.update(j, true);
    if j == flags.len() - 1 {
        assert(raised.drop_last() =~= flags.drop_last());
    } else {
        lemma_count_false_update(flags.drop_last(), j);
        assert(raised.drop_last() =~= flags.drop_last().update(j, true));
    }
}

impl Board {
    /// Whether the `k`-th cell of `path` may follow the one before it: the
    /// two share an edge and the `k`-th holds a node.
    pub open spec fn walk_step(&self, path: Seq<HexPos>, k: int) -> bool {
        touches(path[k - 1], path[k]) && self.node_on(path[k]).is_some()
    }

    /// Whether `path` is a walk of a heart: it starts on the cell of one of
    /// `hearts` and goes on from neighbour to neighbour over cells that
    /// hold nodes.
    pub open spec fn is_walk(&self, hearts: Seq<HexPos>, path: Seq<HexPos>) -> bool {
        &&& path.len() >= 1
        &&& hearts.contains(path[0])
        &&& forall|k: int| 1 <= k < path.len() ==> #[trigger] self.walk_step(path, k)
    }

    /// Whether some walk of a heart ends on `cell`.
    pub open spec fn walkable(&self, hearts: Seq<HexPos>, cell: HexPos) -> bool {
        exists|path: Seq<HexPos>| #[trigger] self.is_walk(hearts, path) && path.last() == cell
    }

    /// Whether a heart reaches node `i`: some walk of at least one step
    /// ends on a cell that holds `i`.
    pub open spec fn reachable(&self, hearts: Seq<HexPos>, i: int) -> bool {
        exists|path: Seq<HexPos>|
            #[trigger] self.is_walk(hearts, path) && path.len() >= 2 && self.node_on(path.last())
                == Some(i as usize)
    }

    /// Whether every node next to `cell` is flagged.
    pub open spec fn expanded(&self, flags: Seq<bool>, cell: HexPos) -> bool {
        forall|d: int|
            0 <= d < 6 ==> (#[trigger] self.node_on(cell.step(d)) matches Some(j) ==> flags[j as int])
    }

    /// Whether the search has nothing left to do for `cell`: it waits on
    /// the stack, or is the cell at hand, or every node next to it is
    /// flagged.
    pub open spec fn settled(
        &self,
        flags: Seq<bool>,
        stack: Seq<HexPos>,
        at_hand: Option<HexPos>,
        cell: HexPos,
    ) -> bool {
        stack.contains(cell) || at_hand == Some(cell) || self.expanded(flags, cell)
    }

    /// The invariant of the search from the hearts.
    pub open spec fn search_inv(
        &self,
        hearts: Seq<HexPos>,
        flags: Seq<bool>,
        stack: Seq<HexPos>,
        at_hand: Option<HexPos>,
    ) -> bool {
        &&& flags.len() == self.nodes.len()
        &&& forall|k: int|
            0 <= k < stack.len() ==> (#[trigger] stack[k]).in_range() && self.walkable(
                hearts,
                stack[k],
            )
        &&& forall|j: int| 0 <= j < flags.len() && #[trigger] flags[j] ==> self.reachable(hearts, j)
        &&& forall|j: int|
            0 <= j < flags.len() && #[trigger] flags[j] ==> self.settled(
                flags,
                stack,
                at_hand,
                self.nodes[j].pos,
            )
        &&& forall|h: int|
            0 <= h < hearts.len() && (#[trigger] hearts[h]).in_range() ==> self.settled(
                flags,
                stack,
                at_hand,
                hearts[h],
            )
    }

    /// Marks the nodes that some heart reaches.
    fn flag_reachable(&self, hearts: &Vec<HexPos>) -> (flags: Vec<bool>)
        requires
            self.wf(),
        ensures
            flags.len() == self.nodes.len(),
            forall|i: int| 0 <= i < flags.len() ==> #[trigger] flags[i] == self.reachable(hearts@, i),
    {
        let mut flags: Vec<bool> = Vec::new();
        let mut i: usize = 0;
        while i < self.nodes.len()
            invariant
                i <= self.nodes.len(),
                flags.len() == i,
                forall|k: int| 0 <= k < i ==> !#[trigger] flags[k],
            decreases self.nodes.len() - i,
        {
            flags.push(false);
            i += 1;
        }
        let mut stack: Vec<HexPos> = Vec::new();
        let mut h: usize = 0;
        while h < hearts.len()
            invariant
                h <= hearts.len(),
                self.wf(),
                flags.len() == self.nodes.len(),
                forall|k: int| 0 <= k < flags.len() ==> !#[trigger] flags[k],
                forall|k: int|
                    0 <= k < stack.len() ==> (#[trigger] stack[k]).in_range() && self.walkable(
                        hearts@,
                        stack[k],
                    ),
                forall|k: int|
                    0 <= k < h && (#[trigger] hearts[k]).in_range() ==> stack@.contains(hearts[k]),
            decreases hearts.len() - h,
        {
            let heart = hearts[h];
            if heart.is_in_range() {
                proof {
                    let path = seq![heart];
                    assert(hearts@[h as int] == heart);
                    assert(self.is_walk(hearts@, path));
                    assert(path.last() == heart);
                    let ghost_before = stack@;
                    assert forall|k: int|
                        0 <= k < h && (#[trigger] hearts[k]).in_range() implies ghost_before.push(
                        heart,
                    ).contains(hearts[k]) by {
                        let w = choose|w: int|
                            0 <= w < ghost_before.len() && ghost_before[w] == hearts[k];
                        assert(ghost_before.push(heart)[w] == hearts[k]);
                    }
                    assert(ghost_before.push(heart)[ghost_before.len() as int] == heart);
                }
                stack.push(heart);
            }
            h += 1;
        }
        assert(self.search_inv(hearts@, flags@, stack@, None));
        while stack.len() > 0
            invariant
                self.wf(),
                self.search_inv(hearts@, flags@, stack@, None),
            decreases 2 * count_false(flags@) + stack.len(),
        {
            let ghost stack_before = stack@;
            let cell = stack.pop().unwrap();
            proof {
                assert(stack_before[stack_before.len() - 1] == cell);
                assert forall|c: HexPos| stack_before.contains(c) implies stack@.contains(c) || c
                    == cell by {
                    let w = choose|w: int| 0 <= w < stack_before.len() && stack_before[w] == c;
                    if w < stack@.len() {
                        assert(stack@[w] == c);
                    }
                }
                assert(self.search_inv(hearts@, flags@, stack@, Some(cell)));
            }
            let around = hex_all_neighbors(cell);
            let ghost measure = 2 * count_false(flags@) + stack.len();
            let mut d: usize = 0;
            while d < 6
                invariant
                    d <= 6,
                    self.wf(),
                    cell.in_range(),
                    self.walkable(hearts@, cell),
                    forall|k: int| 0 <= k < 6 ==> #[trigger] around[k] == cell.step(k),
                    self.search_inv(hearts@, flags@, stack@, Some(cell)),
                    forall|k: int|
                        0 <= k < d ==> (#[trigger] self.node_on(cell.step(k)) matches Some(j)
                            ==> flags[j as int]),
                    2 * count_false(flags@) + stack.len() <= measure,
                decreases 6 - d,
            {
                let next = around[d];
                assert(next == cell.step(d as int));
                match self.node_at(next) {
                    Some(j) => {
                        if !flags[j] {
                            proof {
                                self.lemma_walk_on(hearts@, cell, d as int, j as int);
                                lemma_count_false_update(flags@, j as int);
                                lemma_within_in_range(self.radius(), next);
                            }
                            let ghost flags_before = flags@;
                            let ghost stack_mid = stack@;
                            flags[j] = true;
                            stack.push(next);
                            proof {
                                assert(flags@ == flags_before.update(j as int, true));
                                assert(stack@[stack_mid.len() as int] == next);
                                assert forall|c: HexPos| stack_mid.contains(c) implies stack@.contains(
                                    c,
                                ) by {
                                    let w = choose|w: int|
                                        0 <= w < stack_mid.len() && stack_mid[w] == c;
                                    assert(stack@[w] == c);
                                }
                                assert forall|c: HexPos|
                                    self.settled(
                                        flags_before,
                                        stack_mid,
                                        Some(cell),
                                        c,
                                    ) implies self.settled(flags@, stack@, Some(cell), c) by {
                                    if self.expanded(flags_before, c) {
                                        assert forall|k: int| 0 <= k < 6 implies (
                                        #[trigger] self.node_on(c.step(k)) matches Some(q)
                                            ==> flags@[q as int]) by {
                                            if let Some(q) = self.node_on(c.step(k)) {
                                                assert(flags_before[q as int]);
                                            }
                                        }
                                    }
                                }
                                assert(self.nodes[j as int].pos == next);
                                assert forall|q: int|
                                    0 <= q < flags@.len() && #[trigger] flags@[q] implies self.settled(
                                    flags@,
                                    stack@,
                                    Some(cell),
                                    self.nodes[q].pos,
                                ) by {
                                    if q != j {
                                        assert(flags_before[q]);
                                    }
                                }
                                assert forall|q: int|
                                    0 <= q < flags@.len() && #[trigger] flags@[q] implies self.reachable(
                                    hearts@,
                                    q,
                                ) by {
                                    if q != j {
                                        assert(flags_before[q]);
                                    }
                                }
                                assert forall|k: int| 0 <= k < stack@.len() implies (
                                #[trigger] stack@[k]).in_range() && self.walkable(
                                    hearts@,
                                    stack@[k],
                                ) by {
                                    if k < stack_mid.len() {
                                        assert(stack@[k] == stack_mid[k]);
                                    }
                                }
                                assert forall|k: int| 0 <= k < d + 1 implies (
                                #[trigger] self.node_on(cell.step(k)) matches Some(q)
                                    ==> flags@[q as int]) by {
                                    if k < d {
                                        if let Some(q) = self.node_on(cell.step(k)) {
                                            assert(flags_before[q as int]);
                                        }
                                    }
                                }
                            }
                        }
                    },
                    None => {},
                }
                d += 1;
            }
            proof {
                assert(self.expanded(flags@, cell));
                assert forall|c: HexPos|
                    self.settled(flags@, stack@, Some(cell), c) implies self.settled(
                    flags@,
                    stack@,
                    None,
                    c,
                ) by {}
            }
        }
        proof {
            assert forall|i: int| 0 <= i < flags.len() implies #[trigger] flags[i] == self.reachable(
                hearts@,
                i,
            ) by {
                if self.reachable(hearts@, i) {
                    let path = choose|path: Seq<HexPos>|
                        #[trigger] self.is_walk(hearts@, path) && path.len() >= 2 && self.node_on(
                            path.last(),
                        ) == Some(i as usize);
                    self.lemma_walk_flagged(hearts@, flags@, path, path.len() - 1);
                }
            }
        }
        flags
    }

    /// A walk that ends on `cell` goes on to the node `j` that stands next
    /// to `cell` in direction `d`.
    proof fn lemma_walk_on(&self, hearts: Seq<HexPos>, cell: HexPos, d: int, j: int)
        requires
            self.wf(),
            cell.in_range(),
            self.walkable(hearts, cell),
            0 <= d < 6,
            self.node_on(cell.step(d)) == Some(j as usize),
        ensures
            self.reachable(hearts, j),
            self.walkable(hearts, cell.step(d)),
    {
        let path = choose|path: Seq<HexPos>| #[trigger]
            self.is_walk(hearts, path) && path.last() == cell;
        let next = cell.step(d);
        let longer = path.push(next);
        assert(is_step(cell, d, next));
        assert(touches(cell, next));
        assert forall|k: int| 1 <= k < longer.len() implies #[trigger] self.walk_step(
            longer,
            k,
        ) by {
            if k < path.len() {
                assert(self.walk_step(path, k));
                assert(longer[k] == path[k]);
                assert(longer[k - 1] == path[k - 1]);
            } else {
                assert(longer[k - 1] == cell);
                assert(longer[k] == next);
            }
        }
        assert(longer[0] == path[0]);
        assert(self.is_walk(hearts, longer));
        assert(longer.last() == next);
    }

    /// Once the search is over, the node on every cell of a walk but the
    /// first is flagged.
    proof fn lemma_walk_flagged(
        &self,
        hearts: Seq<HexPos>,
        flags: Seq<bool>,
        path: Seq<HexPos>,
        k: int,
    )
        requires
            self.wf(),
            self.search_inv(hearts, flags, Seq::empty(), None),
            self.is_walk(hearts, path),
            1 <= k < path.len(),
        ensures
            self.node_on(path[k]) matches Some(j) && flags[j as int],
        decreases k,
    {
        assert(self.walk_step(path, k));
        let d = choose|d: int| 0 <= d < 6 && #[trigger] is_step(path[k - 1], d, path[k]);
        let from = path[k - 1];
        lemma_within_in_range(self.radius(), path[k]);
        assert(self.on_board(path[k]));
        assert(from.step(d) == path[k]);
        assert(from.in_range());
        if k == 1 {
            let h = choose|h: int| 0 <= h < hearts.len() && hearts[h] == from;
            assert(hearts[h].in_range());
            assert(self.settled(flags, Seq::empty(), None, hearts[h]));
            assert(self.expanded(flags, from));
        } else {
            self.lemma_walk_flagged(hearts, flags, path, k - 1);
            let j = self.node_on(from)->Some_0;
            assert(self.on_board(from));
            assert(self.nodes[j as int].pos == from);
            assert(self.settled(flags, Seq::empty(), None, self.nodes[j as int].pos));
            assert(self.expanded(flags, from));
        }
        assert(self.node_on(from.step(d)) matches Some(j) ==> flags[j as int]);
    }

    /// Whether `self` is what pruning with the given hearts makes of
    /// `before`: a node that no heart reaches is disabled, a node that
    /// was disabled and is reached is idle, and nothing else changed.
    pub open spec fn pruned(&self, before: &Board, hearts: Seq<HexPos>) -> bool {
        &&& self.same_layout(before)
        &&& forall|i: int|
            0 <= i < before.nodes.len() ==> #[trigger] self.state(i) == (if !before.reachable(
                hearts,
                i,
            ) {
                StateView::Disabled
            } else if before.state(i) == StateView::Disabled {
                StateView::Idle
            } else {
                before.state(i)
            }) && self.nodes[i].charge == before.nodes[i].charge
    }

    /// Recomputes which nodes take part. A node that some heart reaches is
    /// set to `Idle` if it was disabled and left alone otherwise; every
    /// other node is disabled, whatever it held.
    pub fn disable_disconnected(&mut self, hearts: &Vec<HexPos>)
        requires
            old(self).wf(),
        ensures
            final(self).wf(),
            final(self).pruned(old(self), hearts@),
    {
        let flags = self.flag_reachable(hearts);
        let mut i: usize = 0;
        while i < self.nodes.len()
            invariant
                i <= self.nodes.len(),
                flags.len() == self.nodes.len(),
                self.same_layout(old(self)),
                forall|k: int|
                    0 <= k < flags.len() ==> #[trigger] flags[k] == old(self).reachable(hearts@, k),
                forall|k: int|
                    0 <= k < self.nodes.len() ==> (#[trigger] self.nodes[k]).charge == old(self).nodes[k].charge,
                forall|k: int|
                    0 <= k < i ==> #[trigger] self.state(k) == if !old(self).reachable(hearts@, k) {
                        StateView::Disabled
                    } else if old(self).state(k) == StateView::Disabled {
                        StateView::Idle
                    } else {
                        old(self).state(k)
                    },
                forall|k: int|
                    i <= k < self.nodes.len() ==> #[trigger] self.state(k) == old(self).state(k),
            decreases self.nodes.len() - i,
        {
            let ghost before = *self;
            if !flags[i] {
                self.nodes[i].state = CyberState::Disabled;
            } else if self.nodes[i].state.is_disabled() {
                self.nodes[i].state = CyberState::Idle;
            }
            proof {
                assert forall|k: int| 0 <= k < self.nodes.len() && k != i implies #[trigger] self.state(
                    k,
                ) == before.state(k) by {
                    assert(self.nodes[k] == before.nodes[k]);
                }
                assert(before.state(i as int) == old(self).state(i as int));
            }
            i += 1;
        }
        proof {
            lemma_layout_keeps_wf(old(self), self);
        }
    }
}

} // verus!
