use vstd::prelude::*;

verus! {

/// The number of leaves under one field of depth `from - 1`: the product of
/// the value counts of the depths `from`, `from + 1`, ... (1 below the last
/// depth).
pub open spec fn leaves_below(counts: Seq<usize>, from: int) -> nat
    decreases counts.len() - from,
{
    if from < 0 || from >= counts.len() {
        1
    } else {
        counts[from] as nat * leaves_below(counts, from + 1)
    }
}

/// The offset of field `index` of depth `depth` from the start of the node
/// that holds it, counted in leaves.
pub open spec fn field_offset(counts: Seq<usize>, depth: int, index: int) -> int {
    index * leaves_below(counts, depth + 1)
}

/// `path` picks one value at every depth.
pub open spec fn valid_path(counts: Seq<usize>, path: Seq<usize>) -> bool {
    &&& path.len() == counts.len()
    &&& forall|d: int| 0 <= d < counts.len() ==> #[trigger] path[d] < counts[d]
}

/// The sum of the offsets that `path` passes from depth `from` on.
pub open spec fn offset_sum(counts: Seq<usize>, path: Seq<usize>, from: int) -> int
    decreases counts.len() - from,
{
    if from < 0 || from >= counts.len() {
        0
    } else {
        field_offset(counts, from, path[from] as int) + offset_sum(counts, path, from + 1)
    }
}

/// The leaf that `path` leads to: the sum of the offsets of its fields, in
/// depth order.
pub open spec fn leaf_index(counts: Seq<usize>, path: Seq<usize>) -> int {
    offset_sum(counts, path, 0)
}

/// Every depth has at least one value.
pub open spec fn all_positive(counts: Seq<usize>) -> bool {
    forall|d: int| 0 <= d < counts.len() ==> #[trigger] counts[d] > 0
}

/// The first depth at or after `from` that has no value.
pub open spec fn first_empty(counts: Seq<usize>, from: int) -> Option<int>
    decreases counts.len() - from,
{
    if from < 0 || from >= counts.len() {
        None
    } else if counts[from] == 0 {
        Some(from)
    } else {
        first_empty(counts, from + 1)
    }
}

/// Why a label hierarchy has no layout.
#[derive(Clone, Copy, PartialEq, Eq, Structural, Debug)]
pub enum LayoutViolation {
    /// The metric has no label, so there is no field to lay out.
    NoLabels,
    /// The label at this depth has no value: a node without fields.
    NoValues { depth: usize },
    /// The number of leaves does not fit the machine's word.
    TooManyLeaves,
}

/// What is wrong with a hierarchy of these value counts, if anything.
pub open spec fn layout_violation(counts: Seq<usize>) -> Option<LayoutViolation> {
    if counts.len() == 0 {
        Some(LayoutViolation::NoLabels)
    } else {
        match first_empty(counts, 0) {
            Some(d) => Some(LayoutViolation::NoValues { depth: d as usize }),
            None => if leaves_below(counts, 0) > usize::MAX {
                Some(LayoutViolation::TooManyLeaves)
            } else {
                None
            },
        }
    }
}

/// No depth from `from` on is empty exactly if `first_empty` finds none.
pub proof fn lemma_first_empty(counts: Seq<usize>, from: int)
    requires
        0 <= from <= counts.len(),
    ensures
        match first_empty(counts, from) {
            Some(d) => from <= d < counts.len() && counts[d] == 0 && forall|j: int|
                from <= j < d ==> #[trigger] counts[j] > 0,
            None => forall|j: int| from <= j < counts.len() ==> #[trigger] counts[j] > 0,
        },
    decreases counts.len() - from,
{
    if from < counts.len() && counts[from] != 0 {
        lemma_first_empty(counts, from + 1);
    }
}

/// With a value at every depth, a deeper node holds no more leaves than a
/// shallower one, and every node holds at least one.
pub proof fn lemma_leaves_monotone(counts: Seq<usize>, shallow: int, deep: int)
    requires
        all_positive(counts),
        0 <= shallow <= deep <= counts.len(),
    ensures
        1 <= leaves_below(counts, deep) <= leaves_below(counts, shallow),
    decreases counts.len() - shallow,
{
    if shallow < counts.len() {
        let next = if shallow < deep {
            deep
        } else {
            shallow + 1
        };
        lemma_leaves_monotone(counts, shallow + 1, next);
        let c = counts[shallow] as nat;
        let rest = leaves_below(counts, shallow + 1);
        assert(c * rest >= rest) by (nonlinear_arith)
            requires
                c >= 1,
                rest >= 1,
        ;
    }
}

/// Different fields of a node lie at different offsets.
pub proof fn lemma_field_offsets_distinct(counts: Seq<usize>, depth: int, i: int, j: int)
    requires
        all_positive(counts),
        0 <= depth < counts.len(),
        0 <= i < j,
    ensures
        field_offset(counts, depth, i) < field_offset(counts, depth, j),
{
    lemma_leaves_monotone(counts, 0, depth + 1);
    let s = leaves_below(counts, depth + 1) as int;
    assert(i * s < j * s) by (nonlinear_arith)
        requires
            0 <= i < j,
            s >= 1,
    ;
}

/// The offsets that a valid path passes from depth `from` on stay inside
/// the node of that depth.
pub proof fn lemma_offset_sum_bound(counts: Seq<usize>, path: Seq<usize>, from: int)
    requires
        valid_path(counts, path),
        0 <= from <= counts.len(),
    ensures
        0 <= offset_sum(counts, path, from) < leaves_below(counts, from),
    decreases counts.len() - from,
{
    if from < counts.len() {
        lemma_offset_sum_bound(counts, path, from + 1);
        let p = path[from] as int;
        let c = counts[from] as int;
        let s = leaves_below(counts, from + 1) as int;
        let r = offset_sum(counts, path, from + 1);
        assert(p * s + r < c * s && p * s >= 0) by (nonlinear_arith)
            requires
                0 <= p < c,
                0 <= r < s,
        ;
    }
}

/// A valid path leads to a leaf of the tree.
pub proof fn lemma_leaf_in_range(counts: Seq<usize>, path: Seq<usize>)
    requires
        valid_path(counts, path),
    ensures
        0 <= leaf_index(counts, path) < leaves_below(counts, 0),
{
    lemma_offset_sum_bound(counts, path, 0);
}

/// Two valid paths whose offsets from depth `from` on add up alike agree
/// from that depth on.
pub proof fn lemma_offset_sum_injective(
    counts: Seq<usize>,
    p: Seq<usize>,
    q: Seq<usize>,
    from: int,
)
    requires
        valid_path(counts, p),
        valid_path(counts, q),
        0 <= from <= counts.len(),
        offset_sum(counts, p, from) == offset_sum(counts, q, from),
    ensures
        forall|d: int| from <= d < counts.len() ==> p[d] == q[d],
    decreases counts.len() - from,
{
    if from < counts.len() {
        lemma_offset_sum_bound(counts, p, from + 1);
        lemma_offset_sum_bound(counts, q, from + 1);
        let a = p[from] as int;
        let b = q[from] as int;
        let s = leaves_below(counts, from + 1) as int;
        let r1 = offset_sum(counts, p, from + 1);
        let r2 = offset_sum(counts, q, from + 1);
        assert(a == b) by (nonlinear_arith)
            requires
                a * s + r1 == b * s + r2,
                0 <= r1 < s,
                0 <= r2 < s,
                0 <= a,
                0 <= b,
        ;
        lemma_offset_sum_injective(counts, p, q, from + 1);
    }
}

/// Different label paths never share a leaf: two valid paths that lead to
/// the same leaf are the same path.
pub proof fn lemma_leaf_index_injective(counts: Seq<usize>, p: Seq<usize>, q: Seq<usize>)
    requires
        valid_path(counts, p),
        valid_path(counts, q),
        leaf_index(counts, p) == leaf_index(counts, q),
    ensures
        p == q,
{
    lemma_offset_sum_injective(counts, p, q, 0);
    assert(p =~= q);
}

/// The offset chain of a path: the offset of the field that the path picks
/// at each depth, in depth order.
pub open spec fn chain_of(counts: Seq<usize>, path: Seq<usize>) -> Seq<usize> {
    Seq::new(counts.len(), |d: int| field_offset(counts, d, path[d] as int) as usize)
}

/// The sum of the offsets of a chain from place `from` on.
pub open spec fn chain_sum(chain: Seq<usize>, from: int) -> int
    decreases chain.len() - from,
{
    if from < 0 || from >= chain.len() {
        0
    } else {
        chain[from] + chain_sum(chain, from + 1)
    }
}

/// Every offset of the chain of a valid path lies within the tree, and so
/// do the sums of the offsets from any depth on: they add up to what the
/// path passes.
pub proof fn lemma_chain_sum(counts: Seq<usize>, path: Seq<usize>, from: int)
    requires
        valid_path(counts, path),
        all_positive(counts),
        leaves_below(counts, 0) <= usize::MAX,
        0 <= from <= counts.len(),
    ensures
        chain_sum(chain_of(counts, path), from) == offset_sum(counts, path, from),
        forall|d: int|
            from <= d < counts.len() ==> #[trigger] chain_of(counts, path)[d] == field_offset(
                counts,
                d,
                path[d] as int,
            ),
    decreases counts.len() - from,
{
    if from < counts.len() {
        lemma_chain_sum(counts, path, from + 1);
        lemma_offset_sum_bound(counts, path, from);
        lemma_offset_sum_bound(counts, path, from + 1);
        lemma_leaves_monotone(counts, 0, from);
        assert(offset_sum(counts, path, from) == field_offset(counts, from, path[from] as int)
            + offset_sum(counts, path, from + 1));
        let p = path[from] as int;
        let s = leaves_below(counts, from + 1) as int;
        assert(0 <= p * s) by (nonlinear_arith)
            requires
                0 <= p,
                0 <= s,
        ;
    }
}

/// The offsets of the fields of a label hierarchy, computed from the number
/// of values at each depth. Offsets count leaves: the leaves of the tree
/// are numbered in depth-first order, and the field `index` of depth `depth`
/// lies `field_offset` leaves behind the start of its node.
#[derive(Debug)]
pub struct OffsetTable {
    counts: Vec<usize>,
    strides: Vec<usize>,
    total: usize,
}

impl View for OffsetTable {
    type V = Seq<usize>;

    /// The number of values at each depth.
    closed spec fn view(&self) -> Seq<usize> {
        self.counts@
    }
}

impl OffsetTable {
    #[verifier::type_invariant]
    spec fn well_formed(self) -> bool {
        &&& 0 < self.counts@.len()
        &&& all_positive(self.counts@)
        &&& self.strides@.len() == self.counts@.len()
        &&& forall|d: int|
            0 <= d < self.counts@.len() ==> #[trigger] self.strides@[d] == leaves_below(
                self.counts@,
                d + 1,
            )
        &&& self.total == leaves_below(self.counts@, 0)
    }

    /// The table of a hierarchy with `counts[d]` values at depth `d`.
    pub fn new(counts: Vec<usize>) -> (r: Result<OffsetTable, LayoutViolation>)
        ensures
            match layout_violation(counts@) {
                Some(v) => r == Err::<OffsetTable, LayoutViolation>(v),
                None => r matches Ok(t) && t@ == counts@,
            },
    {
        let n = counts.len();
        if n == 0 {
            return Err(LayoutViolation::NoLabels);
        }
        let mut strides: Vec<usize> = Vec::new();
        let mut k: usize = 0;
        while k < n
            invariant
                k <= n,
                0 < n,
                n == counts.len(),
                strides.len() == k,
                first_empty(counts@, 0) == first_empty(counts@, k as int),
                forall|j: int| 0 <= j < k ==> #[trigger] counts[j] > 0,
            decreases n - k,
        {
            if counts[k] == 0 {
                return Err(LayoutViolation::NoValues { depth: k });
            }
            strides.push(1);
            k += 1;
        }
        assert(all_positive(counts@));
        let mut acc: usize = 1;
        let mut d: usize = n;
        while d > 0
            invariant
                d <= n,
                0 < n,
                n == counts.len(),
                strides.len() == n,
                all_positive(counts@),
                first_empty(counts@, 0) is None,
                acc == leaves_below(counts@, d as int),
                forall|j: int|
                    d <= j < n ==> #[trigger] strides[j] == leaves_below(counts@, j + 1),
            decreases d,
        {
            d -= 1;
            strides.set(d, acc);
            match counts[d].checked_mul(acc) {
                None => {
                    proof {
                        lemma_leaves_monotone(counts@, 0, d as int);
                    }
                    return Err(LayoutViolation::TooManyLeaves);
                },
                Some(v) => {
                    acc = v;
                },
            }
        }
        Ok(OffsetTable { counts, strides, total: acc })
    }

    /// The number of label depths.
    pub fn depth(&self) -> (r: usize)
        ensures
            r == self@.len(),
            0 < r,
    {
        proof {
            use_type_invariant(self);
        }
        self.counts.len()
    }

    /// The number of values at `depth`, if there is such a depth.
    pub fn count(&self, depth: usize) -> (r: Option<usize>)
        ensures
            match r {
                Some(count) => depth < self@.len() && count == self@[depth as int] && count > 0,
                None => depth >= self@.len(),
            },
    {
        proof {
            use_type_invariant(self);
        }
        if depth < self.counts.len() {
            Some(self.counts[depth])
        } else {
            None
        }
    }

    /// The number of leaves of the whole tree.
    pub fn leaves(&self) -> (r: usize)
        ensures
            r == leaves_below(self@, 0),
    {
        proof {
            use_type_invariant(self);
        }
        self.total
    }

    /// The offset of field `index` of depth `depth`.
    pub(crate) fn offset_at(&self, depth: usize, index: usize) -> (r: usize)
        requires
            depth < self@.len(),
            index < self@[depth as int],
        ensures
            r == field_offset(self@, depth as int, index as int),
    {
        proof {
            use_type_invariant(self);
        }
        let stride = self.strides[depth];
        proof {
            lemma_leaves_monotone(self.counts@, 0, depth as int);
            lemma_leaves_monotone(self.counts@, 0, depth + 1);
            let c = self.counts@[depth as int] as int;
            let s = stride as int;
            let i = index as int;
            assert(leaves_below(self.counts@, depth as int) == c * s);
            assert(0 <= i * s < c * s) by (nonlinear_arith)
                requires
                    0 <= i < c,
                    s >= 1,
            ;
        }
        index * stride
    }

    /// The offset of field `index` of depth `depth`, if there is such a
    /// field.
    pub fn offset(&self, depth: usize, index: usize) -> (r: Option<usize>)
        ensures
            match r {
                Some(o) => depth < self@.len() && index < self@[depth as int] && o
                    == field_offset(self@, depth as int, index as int),
                None => !(depth < self@.len() && index < self@[depth as int]),
            },
    {
        proof {
            use_type_invariant(self);
        }
        if depth >= self.counts.len() {
            return None;
        }
        if index >= self.counts[depth] {
            return None;
        }
        Some(self.offset_at(depth, index))
    }

    /// The offset chain of `path`, if `path` picks one value at every depth.
    pub fn offset_chain(&self, path: &Vec<usize>) -> (r: Option<Vec<usize>>)
        ensures
            match r {
                Some(chain) => valid_path(self@, path@) && chain@ == chain_of(self@, path@)
                    && chain_sum(chain@, 0) == leaf_index(self@, path@),
                None => !valid_path(self@, path@),
            },
    {
        proof {
            use_type_invariant(self);
        }
        let n = self.counts.len();
        if path.len() != n {
            return None;
        }
        let mut chain: Vec<usize> = Vec::new();
        let mut d: usize = 0;
        while d < n
            invariant
                d <= n,
                n == self@.len(),
                path.len() == n,
                chain.len() == d,
                forall|j: int| 0 <= j < d ==> #[trigger] path[j] < self@[j],
                forall|j: int|
                    0 <= j < d ==> #[trigger] chain[j] == field_offset(self@, j, path[j] as int),
            decreases n - d,
        {
            match self.offset(d, path[d]) {
                None => {
                    return None;
                },
                Some(offset) => {
                    chain.push(offset);
                },
            }
            d += 1;
        }
        proof {
            lemma_chain_sum(self@, path@, 0);
            assert(chain@ =~= chain_of(self@, path@));
        }
        Some(chain)
    }

    /// The leaf that `path` leads to, if `path` picks one value at every
    /// depth.
    pub fn resolve(&self, path: &Vec<usize>) -> (r: Option<usize>)
        ensures
            match r {
                Some(leaf) => valid_path(self@, path@) && leaf == leaf_index(self@, path@) && leaf
                    < leaves_below(self@, 0),
                None => !valid_path(self@, path@),
            },
    {
        proof {
            use_type_invariant(self);
        }
        let n = self.counts.len();
        if path.len() != n {
            return None;
        }
        let mut d: usize = n;
        let mut sum: usize = 0;
        while d > 0
            invariant
                d <= n,
                n == self.counts.len(),
                path.len() == n,
                self.strides@.len() == n,
                all_positive(self.counts@),
                self.total == leaves_below(self.counts@, 0),
                forall|j: int|
                    0 <= j < n ==> #[trigger] self.strides@[j] == leaves_below(self.counts@, j + 1),
                forall|j: int| d <= j < n ==> #[trigger] path[j] < self.counts[j],
                sum == offset_sum(self.counts@, path@, d as int),
                0 <= sum < leaves_below(self.counts@, d as int),
            decreases d,
        {
            d -= 1;
            if path[d] >= self.counts[d] {
                return None;
            }
            proof {
                lemma_leaves_monotone(self.counts@, 0, d as int);
                lemma_leaves_monotone(self.counts@, 0, d + 1);
                let p = path[d as int] as int;
                let c = self.counts@[d as int] as int;
                let s = self.strides@[d as int] as int;
                let r = sum as int;
                assert(leaves_below(self.counts@, d as int) == c * s);
                assert(0 <= p * s && p * s + r < c * s) by (nonlinear_arith)
                    requires
                        0 <= p < c,
                        0 <= r < s,
                ;
            }
            sum = path[d] * self.strides[d] + sum;
        }
        Some(sum)
    }
}

} // verus!
