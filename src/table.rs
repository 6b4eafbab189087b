//! A transposition table: a store of search results, sized in megabytes.

use vstd::prelude::*;

verus! {

/// The bytes in a megabyte.
pub const MB_SIZE: usize = 1024 * 1024;

/// The bytes of a cluster of entries: one cache line.
pub const CLUSTER_SIZE: usize = 64;

/// The entries in a cluster.
pub const ENTRY_COUNT: usize = 16;

/// The clusters in a megabyte.
pub const CLUSTERS_PER_MB: usize = 16384;

/// One entry of the table: a move and a value.
#[derive(Copy, Clone, Debug, PartialEq, Eq, Structural)]
pub struct Entry {
    /// The packed move.
    pub mv: u16,
    /// The value of the move.
    pub val: i16,
}

/// A cache line of entries.
pub type Cluster = [Entry; 16];

/// Whether every entry of `c` is zero.
pub open spec fn zeroed(c: Cluster) -> bool {
    forall|i: int| 0 <= i < 16 ==> #[trigger] c@[i] == (Entry { mv: 0, val: 0 })
}

/// Whether `x` is a power of two.
pub open spec fn is_pow2(x: nat) -> bool
    decreases x,
{
    if x <= 1 {
        x == 1
    } else {
        x % 2 == 0 && is_pow2(x / 2)
    }
}

/// Whether `p` is the smallest power of two that is at least `n`.
pub open spec fn least_pow2_at_least(n: nat, p: nat) -> bool {
    is_pow2(p) && p >= n && (p == 1 || p / 2 < n)
}

/// Returns the smallest power of two that is at least `n`.
pub fn next_power_of_two(n: usize) -> (r: usize)
    requires
        n <= usize::MAX / 2 + 1,
    ensures
        is_pow2(r as nat),
        r >= n,
        r == 1 || r / 2 < n,
{
    let mut r: usize = 1;
    while r < n
        invariant
            is_pow2(r as nat),
            r == 1 || r / 2 < n,
            1 <= r,
            n <= usize::MAX / 2 + 1,
        decreases usize::MAX - r,
    {
        assert(r * 2 > r);
        assert((r * 2) / 2 == r);
        assert(((r * 2) as nat) % 2 == 0);
        r = r * 2;
    }
    r
}

/// A transposition table.
pub struct Table {
    clusters: Vec<Cluster>,
}

impl Table {
    /// The clusters of the table.
    pub closed spec fn spec_clusters(&self) -> Seq<Cluster> {
        self.clusters@
    }

    /// Returns a table of exactly `size_mb` megabytes if `exact`, else of
    /// `size_mb` rounded up to the next power of two; every entry is zero.
    pub fn new(size_mb: usize, exact: bool) -> (r: Table)
        requires
            exact ==> size_mb <= usize::MAX / MB_SIZE,
            !exact ==> size_mb < usize::MAX / MB_SIZE / 2,
        ensures
            r.spec_clusters().len() % CLUSTERS_PER_MB as nat == 0,
            exact ==> r.spec_clusters().len() == size_mb * CLUSTERS_PER_MB,
            !exact ==> least_pow2_at_least(
                size_mb as nat,
                r.spec_clusters().len() / CLUSTERS_PER_MB as nat,
            ),
            forall|i: int| 0 <= i < r.spec_clusters().len() ==> zeroed(#[trigger] r.spec_clusters()[i]),
    {
        let mut t = Table { clusters: Vec::new() };
        if exact {
            t.resize_exact(size_mb);
        } else {
            t.resize(size_mb);
        }
        t
    }

    /// Returns the number of entries in `self`.
    pub fn size(&self) -> (r: usize)
        requires
            self.spec_clusters().len() * ENTRY_COUNT <= usize::MAX,
        ensures
            r == self.spec_clusters().len() * ENTRY_COUNT,
    {
        self.clusters.len() * ENTRY_COUNT
    }

    /// Returns the size of `self` in whole megabytes.
    pub fn size_mb(&self) -> (r: usize)
        ensures
            r == self.spec_clusters().len() / CLUSTERS_PER_MB as nat,
    {
        self.clusters.len() / CLUSTERS_PER_MB
    }

    /// Resizes `self` to `size_mb` megabytes rounded up to a power of two;
    /// the entries of the clusters that stay are kept, new ones are zero.
    pub fn resize(&mut self, size_mb: usize)
        requires
            size_mb < usize::MAX / MB_SIZE / 2,
        ensures
            final(self).spec_clusters().len() % CLUSTERS_PER_MB as nat == 0,
            least_pow2_at_least(
                size_mb as nat,
                final(self).spec_clusters().len() / CLUSTERS_PER_MB as nat,
            ),
            forall|i: int|
                0 <= i < final(self).spec_clusters().len() ==> if i < old(self).spec_clusters().len() {
                    #[trigger] final(self).spec_clusters()[i] == old(self).spec_clusters()[i]
                } else {
                    zeroed(final(self).spec_clusters()[i])
                },
    {
        let n = next_power_of_two(size_mb);
        proof {
            let m = usize::MAX / MB_SIZE;
            assert(m >= 1);
            if n != 1 {
                assert(n < 2 * size_mb);
                assert(2 * (m / 2) <= m);
            }
        }
        self.resize_exact(n);
    }

    /// Resizes `self` to exactly `size_mb` megabytes; the entries of the
    /// clusters that stay are kept, new ones are zero.
    pub fn resize_exact(&mut self, size_mb: usize)
        requires
            size_mb <= usize::MAX / MB_SIZE,
        ensures
            final(self).spec_clusters().len() == size_mb * CLUSTERS_PER_MB,
            forall|i: int|
                0 <= i < final(self).spec_clusters().len() ==> if i < old(self).spec_clusters().len() {
                    #[trigger] final(self).spec_clusters()[i] == old(self).spec_clusters()[i]
                } else {
                    zeroed(final(self).spec_clusters()[i])
                },
    {
        proof {
            assert(size_mb * 1048576 <= usize::MAX) by (nonlinear_arith)
                requires
                    size_mb <= usize::MAX / 1048576,
            ;
        }
        let prod = size_mb * MB_SIZE;
        let new = prod / CLUSTER_SIZE;
        proof {
            let (p, n, m) = (prod as int, new as int, size_mb as int);
            assert(n == m * 16384) by (nonlinear_arith)
                requires
                    p == m * 1048576,
                    n == p / 64,
            ;
        }
        let old_len = self.clusters.len();
        if new == old_len {
            return;
        }
        if new < old_len {
            self.clusters.truncate(new);
        } else {
            let zero = [Entry { mv: 0, val: 0 }; 16];
            let mut i = old_len;
            while i < new
                invariant
                    old_len <= i <= new,
                    self.clusters@.len() == i,
                    forall|j: int|
                        0 <= j < i ==> if j < old_len {
                            #[trigger] self.clusters@[j] == old(self).clusters@[j]
                        } else {
                            zeroed(self.clusters@[j])
                        },
                    old_len == old(self).clusters@.len(),
                    zeroed(zero),
                decreases new - i,
            {
                self.clusters.push(zero);
                i = i + 1;
            }
        }
    }

    /// Sets every entry of `self` to zero.
    pub fn clear(&mut self)
        ensures
            final(self).spec_clusters().len() == old(self).spec_clusters().len(),
            forall|i: int|
                0 <= i < final(self).spec_clusters().len() ==> zeroed(
                    #[trigger] final(self).spec_clusters()[i],
                ),
    {
        let zero = [Entry { mv: 0, val: 0 }; 16];
        let n = self.clusters.len();
        let mut i: usize = 0;
        while i < n
            invariant
                n == self.clusters@.len(),
                n == old(self).clusters@.len(),
                i <= n,
                forall|j: int| 0 <= j < i ==> zeroed(#[trigger] self.clusters@[j]),
                zeroed(zero),
            decreases n - i,
        {
            self.clusters.set(i, zero);
            i = i + 1;
        }
    }
}

} // verus!
