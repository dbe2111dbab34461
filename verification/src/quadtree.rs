//! A complete quadtree stored as a flat arena.
//!
//! Every tree has `depth` levels, level 0 being the single root.  The nodes
//! sit in one flat array under the canonical numbering in which the children
//! of the node at position `i` are at positions `4*i + 1 .. 4*i + 4`; the
//! nodes of level `l` occupy positions `full_size(l) .. full_size(l + 1)`,
//! and within a level the node at `(row, col)` sits at
//! `full_size(l) + (row << l) + col`.  The same numbering orders the offset
//! tables of the on-disk formats.

use vstd::prelude::*;
use vstd::arithmetic::power::pow;
use vstd::arithmetic::power2::pow2;

verus! {

/// Number of nodes in a complete quadtree with `depth` levels:
/// one root, each further level four times the previous one.
pub open spec fn spec_full_size(depth: nat) -> nat
    decreases depth,
{
    if depth == 0 {
        0
    } else {
        4 * spec_full_size((depth - 1) as nat) + 1
    }
}

pub proof fn lemma_full_size_monotone(d1: nat, d2: nat)
    requires
        d1 <= d2,
    ensures
        spec_full_size(d1) <= spec_full_size(d2),
    decreases d2,
{
    if d1 < d2 {
        lemma_full_size_monotone(d1, (d2 - 1) as nat);
    }
}

/// The node count of a complete quadtree in closed form:
/// `full_size(d) == (4^d - 1) / 3`.
pub proof fn lemma_full_size_closed_form(d: nat)
    ensures
        3 * spec_full_size(d) + 1 == pow(4, d),
        spec_full_size(d) == (pow(4, d) - 1) / 3,
    decreases d,
{
    reveal(pow);
    if d > 0 {
        lemma_full_size_closed_form((d - 1) as nat);
    }
    vstd::arithmetic::div_mod::lemma_div_multiples_vanish(spec_full_size(d) as int, 3);
}

/// Largest depth whose node count fits in `u32`.
pub const MAX_TREE_DEPTH: u32 = 15;

pub proof fn lemma_full_size_fits_u32(d: nat)
    requires
        d <= MAX_TREE_DEPTH + 1,
    ensures
        spec_full_size(d) <= 0x5555_5555,
{
    reveal_with_fuel(spec_full_size, 17);
    lemma_full_size_monotone(d, 16);
    assert(spec_full_size(16) == 0x5555_5555);
}

/// Node count of a complete quadtree with `depth` levels.
pub fn full_size(depth: u32) -> (r: u32)
    requires
        depth <= MAX_TREE_DEPTH,
    ensures
        r == spec_full_size(depth as nat),
{
    let mut r: u32 = 0;
    let mut i: u32 = 0;
    while i < depth
        invariant
            i <= depth <= MAX_TREE_DEPTH,
            r == spec_full_size(i as nat),
        decreases depth - i,
    {
        proof {
            lemma_full_size_fits_u32((i + 1) as nat);
        }
        r = 4 * r + 1;
        i = i + 1;
    }
    r
}

/// Flat position of the node at `(row, col)` of level `level`.
pub open spec fn spec_node_index(level: nat, row: nat, col: nat) -> nat {
    spec_full_size(level) + row * pow2(level) + col
}

/// A whole level sits between the node counts of the trees it closes:
/// `full_size(l) + 4^l == full_size(l + 1)`.
pub proof fn lemma_level_extent(level: nat)
    ensures
        spec_full_size(level) + pow(4, level) == spec_full_size((level + 1) as nat),
        pow(4, level) == pow2(level) * pow2(level),
{
    lemma_full_size_closed_form(level);
    lemma_full_size_closed_form((level + 1) as nat);
    vstd::arithmetic::power::lemma_pow_positive(2, level);
    vstd::arithmetic::power::lemma_pow_distributes(2, 2, level);
    assert(pow(4, level) == pow(2, level) * pow(2, level));
    assert(pow2(level) * pow2(level) == pow(2, level) * pow(2, level));
    assert(pow(4, (level + 1) as nat) == 4 * pow(4, level)) by {
        reveal(pow);
    }
}

/// Flat position of the node at `(row, col)` of level `level`.
pub fn node_index(level: u32, row: u32, col: u32) -> (r: u32)
    requires
        level <= MAX_TREE_DEPTH,
        row < pow2(level as nat),
        col < pow2(level as nat),
    ensures
        r == spec_node_index(level as nat, row as nat, col as nat),
        spec_full_size(level as nat) <= r < spec_full_size((level + 1) as nat),
{
    proof {
        lemma_level_extent(level as nat);
        lemma_full_size_fits_u32((level + 1) as nat);
        vstd::arithmetic::power2::lemma_pow2_pos(level as nat);
        let p = pow2(level as nat) as int;
        assert((row as int) * p + p <= p * p) by (nonlinear_arith)
            requires
                (row as int) < p,
                0 < p,
        ;
        vstd::bits::lemma_u32_shl_is_mul(row, level);
    }
    full_size(level) + (row << level) + col
}

/// Level of the node at flat position `i`: the root is at level 0, and the
/// parent of the node at `i > 0` sits at `(i - 1) / 4`.
pub open spec fn level_of(i: nat) -> nat
    decreases i,
{
    if i == 0 {
        0
    } else {
        1 + level_of(((i - 1) / 4) as nat)
    }
}

/// Row of the node at flat position `i` within its level.
pub open spec fn row_of(i: nat) -> nat {
    ((i - spec_full_size(level_of(i))) as nat) / pow2(level_of(i))
}

/// Column of the node at flat position `i` within its level.
pub open spec fn col_of(i: nat) -> nat {
    ((i - spec_full_size(level_of(i))) as nat) % pow2(level_of(i))
}

/// Every flat position lies in the extent of its own level.
pub proof fn lemma_level_of_bounds(i: nat)
    ensures
        spec_full_size(level_of(i)) <= i < spec_full_size((level_of(i) + 1) as nat),
    decreases i,
{
    if i > 0 {
        let p = ((i - 1) / 4) as nat;
        lemma_level_of_bounds(p);
        vstd::arithmetic::div_mod::lemma_fundamental_div_mod(i as int - 1, 4);
    }
}

/// Level extents do not overlap: a position inside the extent of level `l`
/// is at level `l`.
pub proof fn lemma_level_of_range(l: nat, i: nat)
    requires
        spec_full_size(l) <= i < spec_full_size((l + 1) as nat),
    ensures
        level_of(i) == l,
{
    lemma_level_of_bounds(i);
    let lo = level_of(i);
    if lo < l {
        lemma_full_size_monotone((lo + 1) as nat, l);
    }
    if lo > l {
        lemma_full_size_monotone((l + 1) as nat, lo);
    }
}

/// `node_index` maps `(level, row, col)` into the extent of its level, and
/// `level_of` / `row_of` / `col_of` invert it there.
pub proof fn lemma_node_index_inverse(level: nat, row: nat, col: nat)
    requires
        row < pow2(level),
        col < pow2(level),
    ensures
        spec_full_size(level) <= spec_node_index(level, row, col)
            < spec_full_size((level + 1) as nat),
        level_of(spec_node_index(level, row, col)) == level,
        row_of(spec_node_index(level, row, col)) == row,
        col_of(spec_node_index(level, row, col)) == col,
{
    lemma_level_extent(level);
    vstd::arithmetic::power2::lemma_pow2_pos(level);
    let p = pow2(level) as int;
    assert((row as int) * p + p <= p * p) by (nonlinear_arith)
        requires
            (row as int) < p,
            0 < p,
    ;
    let i = spec_node_index(level, row, col);
    lemma_level_of_range(level, i);
    vstd::arithmetic::div_mod::lemma_fundamental_div_mod_converse(
        (i - spec_full_size(level)) as int,
        p,
        row as int,
        col as int,
    );
}

/// Every flat position is `node_index` of its own level, row and column:
/// together with `lemma_node_index_inverse` this makes `node_index` a
/// bijection between the `(row, col)` grid of each level and the extent
/// `full_size(level) .. full_size(level + 1)`.
pub proof fn lemma_node_index_onto(i: nat)
    ensures
        row_of(i) < pow2(level_of(i)),
        col_of(i) < pow2(level_of(i)),
        spec_node_index(level_of(i), row_of(i), col_of(i)) == i,
{
    lemma_level_of_bounds(i);
    let l = level_of(i);
    lemma_level_extent(l);
    vstd::arithmetic::power2::lemma_pow2_pos(l);
    let p = pow2(l) as int;
    let k = (i - spec_full_size(l)) as int;
    vstd::arithmetic::div_mod::lemma_fundamental_div_mod(k, p);
    assert(k / p < p) by (nonlinear_arith)
        requires
            0 <= k < p * p,
            0 < p,
    ;
}

/// Two distinct `(level, row, col)` triples never share a flat position.
pub proof fn lemma_node_index_injective(
    l1: nat, r1: nat, c1: nat, l2: nat, r2: nat, c2: nat,
)
    requires
        r1 < pow2(l1),
        c1 < pow2(l1),
        r2 < pow2(l2),
        c2 < pow2(l2),
        spec_node_index(l1, r1, c1) == spec_node_index(l2, r2, c2),
    ensures
        l1 == l2,
        r1 == r2,
        c1 == c2,
{
    lemma_node_index_inverse(l1, r1, c1);
    lemma_node_index_inverse(l2, r2, c2);
}

/// The slice of a flat node array holding level `l`.
pub open spec fn level_slice<T>(s: Seq<T>, l: nat) -> Seq<T> {
    s.subrange(spec_full_size(l) as int, spec_full_size((l + 1) as nat) as int)
}

/// The level slices of the first `d` levels, in order.
pub open spec fn levels_concat<T>(s: Seq<T>, d: nat) -> Seq<T>
    decreases d,
{
    if d == 0 {
        Seq::empty()
    } else {
        levels_concat(s, (d - 1) as nat) + level_slice(s, (d - 1) as nat)
    }
}

/// Concatenating the level slices of all `d` levels, in level order,
/// recovers the flat node array exactly.
pub proof fn lemma_levels_partition<T>(s: Seq<T>, d: nat)
    requires
        spec_full_size(d) <= s.len(),
    ensures
        levels_concat(s, d) == s.take(spec_full_size(d) as int),
        spec_full_size(d) == s.len() ==> levels_concat(s, d) == s,
    decreases d,
{
    if d == 0 {
        assert(levels_concat(s, d) =~= s.take(spec_full_size(d) as int));
    } else {
        lemma_full_size_monotone((d - 1) as nat, d);
        lemma_levels_partition(s, (d - 1) as nat);
        assert(levels_concat(s, d) =~= s.take(spec_full_size(d) as int));
    }
    if spec_full_size(d) == s.len() {
        assert(s.take(spec_full_size(d) as int) =~= s);
    }
}

/// The level slices of a complete tree, concatenated in level order,
/// recover its node array — and hence the list it was built from —
/// exactly: `items_at_level` over all the levels partitions the tree.
pub proof fn lemma_tree_levels_partition<T>(t: &QuadTree<T>)
    requires
        t.wf(),
    ensures
        levels_concat(t@, t.spec_depth() as nat) == t@,
{
    lemma_levels_partition(t@, t.spec_depth() as nat);
}

/// A complete quadtree: a flat arena of `full_size(depth)` node values in
/// the canonical numbering, the root first.
#[derive(Debug)]
pub struct QuadTree<T> {
    nodes: Vec<T>,
    depth: u32,
}

impl<T> View for QuadTree<T> {
    type V = Seq<T>;

    closed spec fn view(&self) -> Seq<T> {
        self.nodes@
    }
}

impl<T> QuadTree<T> {
    pub closed spec fn spec_depth(&self) -> u32 {
        self.depth
    }

    pub open spec fn wf(&self) -> bool {
        &&& 1 <= self.spec_depth() <= MAX_TREE_DEPTH
        &&& self@.len() == spec_full_size(self.spec_depth() as nat)
    }

    /// Builds the complete tree over a flat list of exactly
    /// `full_size(depth)` node values, given in the canonical numbering.
    pub fn build_complete_tree(elements: Vec<T>, depth: u32) -> (r: Self)
        requires
            1 <= depth <= MAX_TREE_DEPTH,
            elements@.len() == spec_full_size(depth as nat),
        ensures
            r@ == elements@,
            r.spec_depth() == depth,
            r.wf(),
    {
        QuadTree { nodes: elements, depth }
    }

    /// Number of levels of the tree.
    pub fn depth(&self) -> (r: u32)
        ensures
            r == self.spec_depth(),
    {
        self.depth
    }

    /// The node values of level `level`, left to right: the slice
    /// `full_size(level) .. full_size(level + 1)` of the flat arena.
    pub fn items_at_level(&self, level: u32) -> (r: Vec<&T>)
        requires
            self.wf(),
            level < self.spec_depth(),
        ensures
            r@.len() == pow(4, level as nat),
            r@.len() == spec_full_size((level + 1) as nat) - spec_full_size(level as nat),
            forall|j: int|
                0 <= j < r@.len() ==> r@[j] == self@[spec_full_size(level as nat) + j],
    {
        proof {
            lemma_full_size_monotone((level + 1) as nat, self.spec_depth() as nat);
            lemma_level_extent(level as nat);
        }
        let start = full_size(level);
        let end = full_size(level + 1);
        let mut items: Vec<&T> = Vec::new();
        let mut i = start;
        while i < end
            invariant
                start <= i <= end,
                start == spec_full_size(level as nat),
                end == spec_full_size((level + 1) as nat),
                end <= self@.len(),
                items@.len() == i - start,
                forall|j: int|
                    0 <= j < items@.len() ==> items@[j] == self@[start + j],
            decreases end - i,
        {
            items.push(&self.nodes[i as usize]);
            i = i + 1;
        }
        items
    }

    /// An exclusive view of every node value of the tree, as the flat
    /// arena itself, parents before children.
    pub fn mut_view(&mut self) -> (r: &mut Vec<T>)
        ensures
            (*r)@ == old(self)@,
            final(self)@ == (*final(r))@,
            final(self).spec_depth() == old(self).spec_depth(),
    {
        &mut self.nodes
    }
}

} // verus!
