//! Packed symmetric cost storage with triangular indexing.

use vstd::math::abs;
use vstd::prelude::*;

use crate::errors::MatrixError;

verus! {

/// Storage slot of the unordered pair `(a, b)` in a packed lower-triangular
/// matrix: with `i` the larger and `j` the smaller index, the slot is
/// `i * (i + 1) / 2 + j`.
pub open spec fn tri_index(a: int, b: int) -> int {
    if a >= b {
        a * (a + 1) / 2 + b
    } else {
        b * (b + 1) / 2 + a
    }
}

/// The triangular index treats `(a, b)` and `(b, a)` as the same pair.
pub proof fn lemma_tri_index_symmetric(a: int, b: int)
    ensures
        tri_index(a, b) == tri_index(b, a),
{
}

/// For a canonical pair (`0 <= j <= i`), the triangular index lies between
/// the start of row `i` and the end of row `i`.
proof fn lemma_tri_index_row_range(i: int, j: int)
    requires
        0 <= j <= i,
    ensures
        i * (i + 1) / 2 <= tri_index(i, j) <= i * (i + 1) / 2 + i,
        tri_index(i, j) == i * (i + 1) / 2 + j,
        0 <= tri_index(i, j),
{
    assert(i * (i + 1) >= 0) by (nonlinear_arith)
        requires
            i >= 0,
    ;
}

/// Rows of the packed storage do not overlap: row `i + 1` starts right after
/// row `i` ends.
proof fn lemma_tri_row_step(i: int)
    requires
        0 <= i,
    ensures
        i * (i + 1) / 2 + i + 1 == (i + 1) * (i + 2) / 2,
{
    assert((i + 1) * (i + 2) == i * (i + 1) + 2 * (i + 1)) by (nonlinear_arith);
}

/// Row starts grow with the row index.
proof fn lemma_tri_row_start_monotonic(i1: int, i2: int)
    requires
        0 <= i1 <= i2,
    ensures
        i1 * (i1 + 1) / 2 <= i2 * (i2 + 1) / 2,
    decreases i2 - i1,
{
    if i1 < i2 {
        lemma_tri_row_start_monotonic(i1, i2 - 1);
        lemma_tri_row_step(i2 - 1);
    }
}

/// Distinct unordered pairs in canonical form map to distinct storage slots.
pub proof fn lemma_tri_index_injective(i1: int, j1: int, i2: int, j2: int)
    requires
        0 <= j1 <= i1,
        0 <= j2 <= i2,
        !(i1 == i2 && j1 == j2),
    ensures
        tri_index(i1, j1) != tri_index(i2, j2),
{
    lemma_tri_index_row_range(i1, j1);
    lemma_tri_index_row_range(i2, j2);
    if i1 < i2 {
        lemma_tri_row_step(i1);
        lemma_tri_row_start_monotonic(i1 + 1, i2);
    } else if i2 < i1 {
        lemma_tri_row_step(i2);
        lemma_tri_row_start_monotonic(i2 + 1, i1);
    }
}

/// Two pairs of indices that do not name the same unordered pair map to
/// distinct storage slots, whatever the order within each pair.
pub proof fn lemma_tri_index_distinct_pairs(a1: int, b1: int, a2: int, b2: int)
    requires
        0 <= a1,
        0 <= b1,
        0 <= a2,
        0 <= b2,
        !(a1 == a2 && b1 == b2),
        !(a1 == b2 && b1 == a2),
    ensures
        tri_index(a1, b1) != tri_index(a2, b2),
{
    let i1 = if a1 >= b1 { a1 } else { b1 };
    let j1 = if a1 >= b1 { b1 } else { a1 };
    let i2 = if a2 >= b2 { a2 } else { b2 };
    let j2 = if a2 >= b2 { b2 } else { a2 };
    lemma_tri_index_injective(i1, j1, i2, j2);
}

/// Every slot of a pair of indices below `n` lies inside the packed storage
/// of an `n`-node matrix.
pub proof fn lemma_tri_index_in_storage(a: int, b: int, n: int)
    requires
        0 <= a < n,
        0 <= b < n,
    ensures
        0 <= tri_index(a, b) < n * (n + 1) / 2,
{
    let i = if a >= b { a } else { b };
    let j = if a >= b { b } else { a };
    lemma_tri_index_row_range(i, j);
    lemma_tri_row_step(i);
    lemma_tri_row_start_monotonic(i + 1, n);
}

/// If the lower distance matrix values are not provided but a sequence of
/// nodes, then the node type needs to implement this trait: a symmetric
/// pairwise-distance capability.
pub trait Distance: Sized {
    /// Mathematical pairwise cost between two nodes.
    spec fn dist_spec(self, other: Self) -> u32;

    /// Executable pairwise cost; agrees with [`Self::dist_spec`].
    fn calc_shortest_dist(&self, other: &Self) -> (r: u32)
        ensures
            r == self.dist_spec(*other),
    ;
}

/// A point on the integer plane whose pairwise cost is the Manhattan
/// distance, saturated at `u32::MAX`.
#[derive(Clone, Copy, Debug, PartialEq, Eq, Structural)]
pub struct Node(pub i32, pub i32);

/// Manhattan distance between two integer-plane points.
pub open spec fn manhattan(a: Node, b: Node) -> int {
    abs(a.0 - b.0) + abs(a.1 - b.1) as int
}

impl Distance for Node {
    open spec fn dist_spec(self, other: Self) -> u32 {
        if manhattan(self, other) <= u32::MAX {
            manhattan(self, other) as u32
        } else {
            u32::MAX
        }
    }

    fn calc_shortest_dist(&self, other: &Self) -> (r: u32) {
        let dx_wide: i64 = self.0 as i64 - other.0 as i64;
        let dx: u64 = if dx_wide < 0 {
            (-dx_wide) as u64
        } else {
            dx_wide as u64
        };
        let dy_wide: i64 = self.1 as i64 - other.1 as i64;
        let dy: u64 = if dy_wide < 0 {
            (-dy_wide) as u64
        } else {
            dy_wide as u64
        };
        let sum: u64 = dx + dy;
        if sum > u32::MAX as u64 {
            u32::MAX
        } else {
            sum as u32
        }
    }
}

/// Symmetric cost matrix between `num_nodes` nodes, stored only for the lower
/// triangle including the diagonal.
#[derive(Debug)]
pub struct LowerDistanceMatrix {
    pub num_nodes: u32,
    pub values: Vec<u32>,
}

impl LowerDistanceMatrix {
    /// The packed storage holds exactly one slot per unordered pair,
    /// diagonal included.
    pub open spec fn wf(self) -> bool {
        self.values@.len() == self.num_nodes * (self.num_nodes + 1) / 2
    }

    /// Stored cost of the unordered pair `(a, b)`.
    pub open spec fn spec_dist(self, a: int, b: int) -> u32 {
        self.values@[tri_index(a, b)]
    }

    /// Constructs a matrix from caller-supplied packed values, without
    /// validating their number; see [`Self::try_new`] for the checked
    /// constructor.
    #[must_use]
    pub fn new(num_points: u32, values: Vec<u32>) -> (r: Self)
        ensures
            r.num_nodes == num_points,
            r.values@ == values@,
    {
        Self { num_nodes: num_points, values }
    }

    /// Constructs a matrix from packed values, failing fast when their number
    /// does not match the triangular storage size for `num_points` nodes.
    pub fn try_new(num_points: u32, values: Vec<u32>) -> (r: Result<Self, MatrixError>)
        ensures
            values@.len() == num_points * (num_points + 1) / 2 ==> (r matches Ok(m)
                && m.num_nodes == num_points && m.values@ == values@ && m.wf()),
            values@.len() != num_points * (num_points + 1) / 2 ==> (r matches Err(e)
                && e == MatrixError::WrongLength),
    {
        let n = num_points as u64;
        proof {
            assert(n * (n + 1) <= 0xffff_ffffu64 * 0x1_0000_0000u64) by (nonlinear_arith)
                requires
                    0 <= n <= 0xffff_ffffu64,
            ;
        }
        let expected: u64 = n * (n + 1) / 2;
        if values.len() as u64 == expected {
            Ok(Self { num_nodes: num_points, values })
        } else {
            Err(MatrixError::WrongLength)
        }
    }

    /// Storage slot of the unordered pair, canonicalized so that the larger
    /// index selects the row.
    #[must_use]
    pub fn get_node(from_node: usize, to_node: usize) -> (r: usize)
        requires
            tri_index(from_node as int, to_node as int) <= usize::MAX,
        ensures
            r == tri_index(from_node as int, to_node as int),
    {
        let (i, j): (usize, usize) = if from_node >= to_node {
            (from_node, to_node)
        } else {
            (to_node, from_node)
        };
        proof {
            lemma_tri_index_row_range(i as int, j as int);
            if i >= 2 {
                assert(i as int * (i as int + 1) >= 2 * (i as int + 1)) by (nonlinear_arith)
                    requires
                        i as int >= 2,
                ;
            }
        }
        let row_start: usize = if i % 2 == 0 {
            proof {
                let q = i as int / 2;
                assert(i as int * (i as int + 1) == 2 * (q * (i as int + 1))) by (nonlinear_arith)
                    requires
                        i as int == 2 * q,
                ;
            }
            (i / 2) * (i + 1)
        } else {
            proof {
                let q = (i as int + 1) / 2;
                assert(i as int * (i as int + 1) == 2 * (i as int * q)) by (nonlinear_arith)
                    requires
                        i as int + 1 == 2 * q,
                ;
            }
            i * ((i + 1) / 2)
        };
        row_start + j
    }

    /// Returns the stored cost for the unordered pair `(from_node, to_node)`;
    /// lookup order does not matter.
    #[must_use]
    pub fn dist(&self, from_node: usize, to_node: usize) -> (r: u32)
        requires
            self.wf(),
            from_node < self.num_nodes,
            to_node < self.num_nodes,
        ensures
            r == self.spec_dist(from_node as int, to_node as int),
            r == self.spec_dist(to_node as int, from_node as int),
    {
        let storage = self.values.len();
        proof {
            lemma_tri_index_in_storage(from_node as int, to_node as int, self.num_nodes as int);
            assert(tri_index(from_node as int, to_node as int) < storage);
        }
        let idx = Self::get_node(from_node, to_node);
        self.values[idx]
    }

    /// Checked lookup: succeeds exactly when the pair's slot lies inside the
    /// packed storage, so both an out-of-range node index and a malformed
    /// matrix surface as a typed failure instead of a panic.
    pub fn try_dist(&self, from_node: usize, to_node: usize) -> (r: Result<u32, MatrixError>)
        ensures
            (from_node < self.num_nodes && to_node < self.num_nodes
                && tri_index(from_node as int, to_node as int) < self.values@.len()) ==> (
                r matches Ok(d) && d == self.spec_dist(from_node as int, to_node as int)),
            !(from_node < self.num_nodes && to_node < self.num_nodes
                && tri_index(from_node as int, to_node as int) < self.values@.len()) ==> (
                r matches Err(e) && e == MatrixError::OutOfRange),
    {
        if !(from_node < self.num_nodes as usize && to_node < self.num_nodes as usize) {
            return Err(MatrixError::OutOfRange);
        }
        let (i, j): (u64, u64) = if from_node >= to_node {
            (from_node as u64, to_node as u64)
        } else {
            (to_node as u64, from_node as u64)
        };
        proof {
            assert(i * (i + 1) <= 0xffff_fffeu64 * 0xffff_ffffu64) by (nonlinear_arith)
                requires
                    0 <= i <= 0xffff_fffeu64,
            ;
            lemma_tri_index_row_range(i as int, j as int);
        }
        let slot: u64 = i * (i + 1) / 2 + j;
        if slot < self.values.len() as u64 {
            let idx = slot as usize;
            Ok(self.values[idx])
        } else {
            Err(MatrixError::OutOfRange)
        }
    }

    /// Returns a mutable handle to the slot of the unordered pair, enabling
    /// in-place cost edits after construction.
    #[must_use]
    pub fn dist_mut(&mut self, from_node: usize, to_node: usize) -> (r: &mut u32)
        requires
            old(self).wf(),
            from_node < old(self).num_nodes,
            to_node < old(self).num_nodes,
        ensures
            *r == old(self).spec_dist(from_node as int, to_node as int),
            final(self).num_nodes == old(self).num_nodes,
            final(self).values@ == old(self).values@.update(
                tri_index(from_node as int, to_node as int),
                *final(r),
            ),
    {
        let storage = self.values.len();
        proof {
            lemma_tri_index_in_storage(from_node as int, to_node as int, self.num_nodes as int);
            assert(tri_index(from_node as int, to_node as int) < storage);
        }
        let idx = Self::get_node(from_node, to_node);
        &mut self.values[idx]
    }

    /// Derives a matrix from domain objects: each triangular slot holds the
    /// pairwise cost of its unordered pair, computed once per pair.
    pub fn from_nodes<T: Distance>(nodes: &[T]) -> (r: Self)
        requires
            nodes@.len() <= u32::MAX,
            nodes@.len() * (nodes@.len() + 1) / 2 <= usize::MAX,
        ensures
            r.num_nodes == nodes@.len(),
            r.wf(),
            forall|a: int, b: int|
                0 <= b <= a < nodes@.len() ==> r.values@[#[trigger] tri_index(a, b)]
                    == nodes@[a].dist_spec(nodes@[b]),
    {
        let n = nodes.len();
        let mut values: Vec<u32> = Vec::new();
        let mut i: usize = 0;
        while i < n
            invariant
                n == nodes@.len(),
                n * (n + 1) / 2 <= usize::MAX,
                i <= n,
                values@.len() == i * (i + 1) / 2,
                forall|a: int, b: int|
                    0 <= b <= a < i ==> values@[#[trigger] tri_index(a, b)] == nodes@[a].dist_spec(
                        nodes@[b]),
            decreases n - i,
        {
            proof {
                lemma_tri_row_step(i as int);
                lemma_tri_row_start_monotonic(i as int + 1, n as int);
            }
            let mut j: usize = 0;
            while j <= i
                invariant
                    n == nodes@.len(),
                    i < n,
                    j <= i + 1,
                    i * (i + 1) / 2 + i + 1 <= n * (n + 1) / 2 <= usize::MAX,
                    values@.len() == i * (i + 1) / 2 + j,
                    forall|a: int, b: int|
                        0 <= b <= a < i ==> values@[#[trigger] tri_index(a, b)] == nodes@[
                            a].dist_spec(nodes@[b]),
                    forall|b: int|
                        0 <= b < j ==> values@[#[trigger] tri_index(i as int, b)] == nodes@[
                            i as int].dist_spec(nodes@[b]),
                decreases i + 1 - j,
            {
                let d = nodes[i].calc_shortest_dist(&nodes[j]);
                values.push(d);
                proof {
                    assert forall|a: int, b: int| 0 <= b <= a < i implies values@[#[trigger]
                        tri_index(a, b)] == nodes@[a].dist_spec(nodes@[b]) by {
                        lemma_tri_index_in_storage(a, b, i as int);
                    }
                    assert forall|b: int| 0 <= b < j + 1 implies values@[#[trigger] tri_index(
                        i as int, b)] == nodes@[i as int].dist_spec(nodes@[b]) by {
                        lemma_tri_index_row_range(i as int, b);
                    }
                }
                j = j + 1;
            }
            i = i + 1;
        }
        Self { num_nodes: n as u32, values }
    }
}

/// The stored cost of a pair never depends on the order of its two indices.
pub proof fn lemma_dist_symmetric(m: LowerDistanceMatrix, a: int, b: int)
    ensures
        m.spec_dist(a, b) == m.spec_dist(b, a),
{
    lemma_tri_index_symmetric(a, b);
}

} // verus!
