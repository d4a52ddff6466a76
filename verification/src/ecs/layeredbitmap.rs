// A hierarchical bitset used for fast joins: `layer0` holds one bit per
// index, `layer1` one bit per group of `LAYER_FACTOR` consecutive indices.
use vstd::prelude::*;
use crate::ecs::bits::{
    word_bit, seq_bit, lemma_zero_word_has_no_bits, lemma_set_bit, lemma_clear_bit,
    lemma_masked_bit, lemma_or_nonzero, lemma_and_bit,
};

verus! {

/// Bits in one machine word.
pub const USIZE_BITS: usize = 64;

/// Number of consecutive indices that share one bit of `layer1`.
pub const LAYER_FACTOR: usize = 4;

/// Number of indices covered by one word of `layer1`.
pub const LAYER1: usize = USIZE_BITS * LAYER_FACTOR;

proof fn lemma_same_word(a: int, c: int, b: int)
    requires
        0 <= a <= c <= b,
        a / 64 == b / 64,
    ensures
        c / 64 == a / 64,
{
    assert(c / 64 >= a / 64) by (nonlinear_arith)
        requires
            0 <= a <= c,
    ;
    assert(c / 64 <= b / 64) by (nonlinear_arith)
        requires
            0 <= c <= b,
    ;
}

/// An index in word `i` sits at bit `j - 64 * i` of that word.
proof fn lemma_word_position(j: int, i: int)
    requires
        0 <= i,
        64 * i <= j < 64 * i + 64,
    ensures
        j / 64 == i,
        j % 64 == j - 64 * i,
{
}

/// Every index of the group of `index` lies between its first and last index.
proof fn lemma_group_bounds(j: int, index: int)
    requires
        0 <= index,
        j / 4 == index / 4,
    ensures
        index - index % 4 <= j <= index - index % 4 + 3,
{
}

/// Every index between the first and last index of the group of `index`
/// belongs to that group.
proof fn lemma_in_group(j: int, index: int)
    requires
        0 <= index,
        index - index % 4 <= j <= index - index % 4 + 3,
    ensures
        j / 4 == index / 4,
{
}

/// Index `i` is bit `i % 64` of word `i / 64` of `layer0`. The mark of group
/// `g` (indices `4 * g .. 4 * g + 4`) is bit `g % 64` of word `g / 64` of
/// `layer1`: shift amounts are taken modulo the word width, and the scans
/// that look for other members of a group stop at the edges of the group.
pub struct LayeredBitMap {
    pub layer1: Vec<u64>,
    pub layer0: Vec<u64>,
}

impl LayeredBitMap {
    /// Index `i` is present: its bit in `layer0` is set.
    pub open spec fn has(&self, i: int) -> bool {
        seq_bit(self.layer0@, i)
    }

    /// Group `g` (indices `4 * g .. 4 * g + 4`) is marked in `layer1`.
    pub open spec fn marked(&self, g: int) -> bool {
        seq_bit(self.layer1@, g)
    }

    /// `layer1` has exactly one word for every `LAYER_FACTOR` words of `layer0`
    /// (rounded up).
    pub open spec fn wf(&self) -> bool {
        self.layer1.len() == (self.layer0.len() + 3) / 4
    }

    /// Some index of group `g` is present.
    pub open spec fn group_present(&self, g: int) -> bool {
        exists|i: int| #![trigger self.has(i)] i / 4 == g && self.has(i)
    }

    /// `layer1` summarises `layer0`: a group is marked exactly when one of its
    /// indices is present.
    pub open spec fn summarized(&self) -> bool {
        forall|g: int| #[trigger] self.marked(g) == self.group_present(g)
    }

    /// The marked groups.
    pub open spec fn marks(&self) -> Set<int> {
        Set::new(|g: int| self.marked(g))
    }

    /// The indices present in the bitmap.
    pub open spec fn members(&self) -> Set<int> {
        Set::new(|i: int| self.has(i))
    }

    pub fn new() -> (r: Self)
        ensures
            r.layer0@ == Seq::<u64>::empty(),
            r.layer1@ == Seq::<u64>::empty(),
            r.wf(),
            r.members() == Set::<int>::empty(),
            r.marks() == Set::<int>::empty(),
            r.summarized(),
    {
        let r = Self { layer1: Vec::new(), layer0: Vec::new() };
        assert(r.members() =~= Set::<int>::empty());
        assert(r.marks() =~= Set::<int>::empty());
        r
    }

    /// Adds `index`, growing both layers with zero words when `index` lies
    /// beyond `layer0`, and marks the group of `index` in `layer1`.
    #[verifier::spinoff_prover]
    pub fn insert(&mut self, index: usize)
        requires
            index / 64 + 1 > old(self).layer0.len() ==> index / 256 + 1 >= old(self).layer1.len(),
            index / 64 + 1 <= old(self).layer0.len() ==> index / 256 < old(self).layer1.len(),
        ensures
            final(self).layer0.len() == (if index / 64 + 1 > old(self).layer0.len() {
                index / 64 + 1
            } else {
                old(self).layer0.len() as int
            }),
            final(self).layer1.len() == (if index / 64 + 1 > old(self).layer0.len() {
                index / 256 + 1
            } else {
                old(self).layer1.len() as int
            }),
            forall|i: int| #[trigger] final(self).has(i) == (old(self).has(i) || i == index),
            forall|g: int| #[trigger] final(self).marked(g) == (old(self).marked(g) || g == index / 4),
            old(self).wf() ==> final(self).wf(),
            old(self).summarized() ==> final(self).summarized(),
            final(self).members() == old(self).members().insert(index as int),
    {
        let ghost old0 = self.layer0@;
        let ghost old1 = self.layer1@;
        if (index / USIZE_BITS) + 1 > self.layer0.len() {
            let n0 = (index / USIZE_BITS) + 1 - self.layer0.len();
            for _k in 0..n0
                invariant
                    self.layer0@.len() <= index / 64 + 1,
                    self.layer0@.len() == old0.len() + _k,
                    self.layer0@.subrange(0, old0.len() as int) == old0,
                    forall|j: int| old0.len() <= j < self.layer0@.len() ==> self.layer0@[j] == 0u64,
                    n0 == index / 64 + 1 - old0.len(),
                    self.layer1@ == old1,
            {
                self.layer0.push(0);
            }
            let n1 = (index / LAYER1) + 1 - self.layer1.len();
            for _k in 0..n1
                invariant
                    self.layer1@.len() == old1.len() + _k,
                    self.layer1@.subrange(0, old1.len() as int) == old1,
                    forall|j: int| old1.len() <= j < self.layer1@.len() ==> self.layer1@[j] == 0u64,
                    n1 == index / 256 + 1 - old1.len(),
                    self.layer0@.len() == index / 64 + 1,
                    self.layer0@.subrange(0, old0.len() as int) == old0,
                    forall|j: int| old0.len() <= j < self.layer0@.len() ==> self.layer0@[j] == 0u64,
            {
                self.layer1.push(0);
            }
        }
        let ghost grown0 = self.layer0@;
        let ghost grown1 = self.layer1@;
        assert(forall|j: int| 0 <= j < old0.len() ==> grown0[j] == old0[j]) by {
            assert forall|j: int| 0 <= j < old0.len() implies grown0[j] == old0[j] by {
                assert(grown0.subrange(0, old0.len() as int)[j] == old0[j]);
            }
        }
        assert(forall|j: int| 0 <= j < old1.len() ==> grown1[j] == old1[j]) by {
            assert forall|j: int| 0 <= j < old1.len() implies grown1[j] == old1[j] by {
                assert(grown1.subrange(0, old1.len() as int)[j] == old1[j]);
            }
        }
        let w0 = index / USIZE_BITS;
        let b0 = index % USIZE_BITS;
        let word0 = self.layer0[w0] | (1u64 << b0);
        self.layer0.set(w0, word0);
        let g = index / LAYER_FACTOR;
        let w1 = index / LAYER1;
        let b1 = g % USIZE_BITS;
        assert(g / 64 == w1);
        let word1 = self.layer1[w1] | (1u64 << b1);
        self.layer1.set(w1, word1);
        proof {
            assert forall|i: int| #[trigger] self.has(i) == (seq_bit(old0, i) || i == index) by {
                if 0 <= i && i / 64 < self.layer0@.len() {
                    if i / 64 == w0 as int {
                        lemma_set_bit(grown0[w0 as int], b0, i % 64);
                        if i / 64 >= old0.len() {
                            lemma_zero_word_has_no_bits(i % 64);
                        }
                    } else if i / 64 >= old0.len() {
                        lemma_zero_word_has_no_bits(i % 64);
                    }
                }
            }
            assert forall|h: int| #[trigger] self.marked(h) == (seq_bit(old1, h) || h == g) by {
                if 0 <= h && h / 64 < self.layer1@.len() {
                    if h / 64 == w1 as int {
                        lemma_set_bit(grown1[w1 as int], b1, h % 64);
                        if h / 64 >= old1.len() {
                            lemma_zero_word_has_no_bits(h % 64);
                        }
                    } else if h / 64 >= old1.len() {
                        lemma_zero_word_has_no_bits(h % 64);
                    }
                }
            }
            assert(self.members() =~= old(self).members().insert(index as int));
            if old(self).summarized() {
                assert forall|h: int| #[trigger] self.marked(h) == self.group_present(h) by {
                    if h == index / 4 {
                        assert(self.has(index as int));
                    } else {
                        assert(old(self).marked(h) == old(self).group_present(h));
                        if self.group_present(h) {
                            let i = choose|i: int| #![trigger self.has(i)] i / 4 == h && self.has(i);
                            assert(old(self).has(i));
                        }
                        if old(self).group_present(h) {
                            let i = choose|i: int| #![trigger old(self).has(i)] i / 4 == h && old(self).has(i);
                            assert(self.has(i));
                        }
                    }
                }
            }
        }
    }

    /// Whether some index of the group of `index`, other than `index`
    /// itself, is present.
    pub open spec fn group_has_other(&self, index: int) -> bool {
        exists|j: int| #![trigger self.has(j)]
            j / 4 == index / 4 && j != index && self.has(j)
    }

    /// Scans the group of `index`, down from `index` to its first index and
    /// then up to its last one, for a present index other than `index`:
    /// the result is nonzero exactly when there is one.
    fn other_in_group(&self, index: usize) -> (r: u64)
        requires
            index / 64 < self.layer0.len(),
            !self.has(index as int),
        ensures
            (r != 0u64) == self.group_has_other(index as int),
    {
        let w0 = index / USIZE_BITS;
        let start = index - index % LAYER_FACTOR;
        let last = start + (LAYER_FACTOR - 1);
        assert(start / 64 == w0 && last / 64 == w0);
        let mut value: u64 = 0;
        let mut curr = index;
        loop
            invariant_except_break
                start <= curr <= index,
                index / 64 < self.layer0.len(),
                start == index - index % 4,
                start / 64 == w0,
                w0 == index / 64,
                value == 0u64 <==> (forall|j: int| curr < j <= index ==> !self.has(j)),
            ensures
                start <= curr <= index,
                value == 0u64 <==> (forall|j: int| curr <= j <= index ==> !self.has(j)),
                value == 0u64 ==> curr == start,
            decreases curr,
        {
            let test = curr % LAYER_FACTOR;
            proof {
                lemma_same_word(start as int, curr as int, index as int);
            }
            let bit = self.layer0[curr / USIZE_BITS] & (1u64 << (curr % USIZE_BITS));
            proof {
                lemma_masked_bit(self.layer0@[w0 as int], (curr % 64) as usize);
                lemma_or_nonzero(value, bit);
                assert(self.has(curr as int) == (bit != 0u64));
            }
            value = value | bit;
            if test == 0 || value != 0 {
                break;
            }
            curr = curr - 1;
        }
        let ghost low = curr;
        curr = index;
        while curr < last && value == 0
            invariant
                start <= low <= index <= curr <= last,
                last == start + 3,
                start == index - index % 4,
                last / 64 == w0,
                w0 == index / 64,
                index / 64 < self.layer0.len(),
                value == 0u64 <==> (forall|j: int| low <= j <= curr ==> !self.has(j)),
                value == 0u64 ==> low == start,
            decreases last - curr,
        {
            curr = curr + 1;
            proof {
                lemma_same_word(start as int, curr as int, last as int);
            }
            let bit = self.layer0[curr / USIZE_BITS] & (1u64 << (curr % USIZE_BITS));
            proof {
                lemma_masked_bit(self.layer0@[w0 as int], (curr % 64) as usize);
                lemma_or_nonzero(value, bit);
                assert(self.has(curr as int) == (bit != 0u64));
            }
            value = value | bit;
        }
        proof {
            if value == 0u64 {
                assert forall|j: int| #![trigger self.has(j)] j / 4 == index / 4 && j != index
                    implies !self.has(j) by {
                    lemma_group_bounds(j, index as int);
                }
            } else {
                let j = choose|j: int| low <= j <= curr && self.has(j);
                lemma_in_group(j, index as int);
            }
        }
        value
    }

    /// Removes `index` from `layer0`, and clears the mark of its group when
    /// no other index of the group is present; every other mark stays.
    pub fn remove(&mut self, index: usize)
        requires
            index / 64 < old(self).layer0.len(),
            index / 256 < old(self).layer1.len(),
        ensures
            final(self).layer0.len() == old(self).layer0.len(),
            final(self).layer1.len() == old(self).layer1.len(),
            forall|i: int| #[trigger] final(self).has(i) == (old(self).has(i) && i != index),
            forall|g: int| #[trigger]
                final(self).marked(g) == (if g == index / 4 {
                    old(self).marked(g) && old(self).group_has_other(index as int)
                } else {
                    old(self).marked(g)
                }),
            old(self).wf() ==> final(self).wf(),
            old(self).summarized() ==> final(self).summarized(),
            final(self).members() == old(self).members().remove(index as int),
    {
        let ghost old0 = self.layer0@;
        let ghost old_self = *self;
        let w0 = index / USIZE_BITS;
        let b0 = index % USIZE_BITS;
        let cleared = self.layer0[w0] & !(1u64 << b0);
        self.layer0.set(w0, cleared);
        proof {
            assert forall|i: int| #[trigger] self.has(i) == (old_self.has(i) && i != index) by {
                if 0 <= i && i / 64 < self.layer0@.len() && i / 64 == w0 as int {
                    lemma_clear_bit(old0[w0 as int], b0, i % 64);
                }
            }
        }
        let mut value = self.other_in_group(index);
        proof {
            assert forall|j: int| #![trigger self.has(j)] #![trigger old_self.has(j)]
                j / 4 == index / 4 && j != index implies self.has(j) == old_self.has(j) by {}
            assert(self.group_has_other(index as int) == old_self.group_has_other(index as int));
        }
        let g = index / LAYER_FACTOR;
        let w1 = index / LAYER1;
        let s = g % USIZE_BITS;
        assert(g / 64 == w1);
        let ghost old1 = self.layer1@;
        let ghost mid = *self;
        if value == 0 {
            let kept = self.layer1[w1] & !(1u64 << s);
            self.layer1.set(w1, kept);
        }
        proof {
            assert(self.layer0@ == mid.layer0@);
            assert forall|i: int| #[trigger] self.has(i) == (old_self.has(i) && i != index) by {
                assert(self.has(i) == mid.has(i));
            }
            assert(self.members() =~= old_self.members().remove(index as int));
            assert forall|h: int| #[trigger]
                self.marked(h) == (if h == index / 4 {
                    old_self.marked(h) && old_self.group_has_other(index as int)
                } else {
                    old_self.marked(h)
                }) by {
                if value == 0 && 0 <= h && h / 64 < self.layer1@.len() && h / 64 == w1 as int {
                    lemma_clear_bit(old1[w1 as int], s, h % 64);
                }
                if value != 0 {
                    assert(self.layer1@ == old1);
                }
            }
            if old_self.summarized() {
                assert forall|h: int| #[trigger] self.marked(h) == self.group_present(h) by {
                    assert(old_self.marked(h) == old_self.group_present(h));
                    if self.group_present(h) {
                        let i = choose|i: int| #![trigger self.has(i)] i / 4 == h && self.has(i);
                        assert(old_self.has(i));
                    }
                    if h == index / 4 {
                        if old_self.group_has_other(index as int) {
                            let i = choose|i: int| #![trigger old_self.has(i)]
                                i / 4 == index / 4 && i != index && old_self.has(i);
                            assert(self.has(i));
                        }
                    } else if old_self.group_present(h) {
                        let i = choose|i: int| #![trigger old_self.has(i)] i / 4 == h && old_self.has(i);
                        assert(self.has(i));
                    }
                }
            }
        }
    }

    /// Whether `index` is present, consulting the mark of its group first.
    pub fn check(&self, index: usize) -> (r: bool)
        requires
            index / 64 <= self.layer0.len() ==> index / 256 < self.layer1.len(),
            index / 64 <= self.layer0.len() && self.marked(index as int / 4) ==> index / 64
                < self.layer0.len(),
        ensures
            r == (index / 64 <= self.layer0.len() && self.marked(index as int / 4) && self.has(
                index as int,
            )),
            self.summarized() ==> r == self.has(index as int),
    {
        if (index / USIZE_BITS) > self.layer0.len() {
            return false;
        }
        let g = index / LAYER_FACTOR;
        let s = g % USIZE_BITS;
        assert(g / 64 == index / 256);
        proof {
            lemma_masked_bit(self.layer1@[(index / 256) as int], s);
        }
        if !self.layer1[index / LAYER1] & (1u64 << s) != 0 {
            proof {
                let w = self.layer1@[(index / 256) as int];
                assert((!w & (1u64 << s) != 0u64) == (w & (1u64 << s) == 0u64))
                    by (bit_vector)
                    requires
                        s < 64usize,
                ;
            }
            return false;
        }
        proof {
            let w = self.layer1@[(index / 256) as int];
            assert((!w & (1u64 << s) != 0u64) == (w & (1u64 << s) == 0u64))
                by (bit_vector)
                requires
                    s < 64usize,
            ;
            lemma_masked_bit(self.layer0@[(index / 64) as int], index % 64);
        }
        (self.layer0[index / USIZE_BITS] & (1u64 << (index % USIZE_BITS))) != 0
    }

    /// Both `lhs` and `rhs` hold index `j`.
    pub open spec fn in_both(lhs: Self, rhs: Self, j: int) -> bool {
        lhs.has(j) && rhs.has(j)
    }

    /// `r` lists, in increasing order, the indices present in both bitmaps.
    pub open spec fn joined(lhs: Self, rhs: Self, r: Seq<usize>) -> bool {
        &&& forall|k: int| 0 <= k < r.len() ==> #[trigger] Self::in_both(lhs, rhs, r[k] as int)
        &&& forall|j: int| #[trigger] Self::in_both(lhs, rhs, j) ==> r.contains(j as usize)
        &&& forall|a: int, b: int| 0 <= a < b < r.len() ==> r[a] < r[b]
    }

    /// The indices present in both bitmaps, in increasing order.
    pub fn join(lhs: Self, rhs: Self) -> (r: Vec<usize>)
        requires
            64 * (if rhs.layer0.len() < lhs.layer0.len() {
                rhs.layer0.len()
            } else {
                lhs.layer0.len()
            }) <= usize::MAX,
        ensures
            Self::joined(lhs, rhs, r@),
    {
        let mut result: Vec<usize> = Vec::new();
        let mut looper = &lhs;
        let mut other = &rhs;
        if rhs.len() < lhs.len() {
            looper = &rhs;
            other = &lhs;
        }
        let n = looper.len();
        assert(n <= lhs.layer0.len() && n <= rhs.layer0.len());
        let mut curr_index: usize = 0;
        for i in 0..n
            invariant
                n <= lhs.layer0.len(),
                n <= rhs.layer0.len(),
                64 * n <= usize::MAX,
                curr_index == 64 * i,
                (looper == &lhs && other == &rhs) || (looper == &rhs && other == &lhs),
                looper.layer0.len() == n,
                forall|k: int| 0 <= k < result.len() ==> #[trigger] Self::in_both(lhs, rhs, result[k] as int),
                forall|k: int| 0 <= k < result.len() ==> result[k] < curr_index,
                forall|j: int| 0 <= j < curr_index && #[trigger] Self::in_both(lhs, rhs, j) ==> result@.contains(j as usize),
                forall|a: int, b: int| 0 <= a < b < result.len() ==> result[a] < result[b],
        {
            let both = looper.layer0[i] & other.layer0[i];
            let ghost base = curr_index;
            let end = curr_index + USIZE_BITS;
            let mut j = curr_index;
            while j < end
                invariant
                    end == base + 64,
                    base == 64 * i,
                    base <= j <= base + 64,
                    i < n,
                    n <= lhs.layer0.len(),
                    n <= rhs.layer0.len(),
                    base + 64 <= usize::MAX,
                    both == looper.layer0@[i as int] & other.layer0@[i as int],
                    (looper == &lhs && other == &rhs) || (looper == &rhs && other == &lhs),
                    forall|k: int| 0 <= k < result.len() ==> #[trigger] Self::in_both(lhs, rhs, result[k] as int),
                    forall|k: int| 0 <= k < result.len() ==> result[k] < j,
                    forall|jj: int| 0 <= jj < j && #[trigger] Self::in_both(lhs, rhs, jj) ==> result@.contains(jj as usize),
                    forall|a: int, b: int| 0 <= a < b < result.len() ==> result[a] < result[b],
                decreases end - j,
            {
                proof {
                    lemma_word_position(j as int, i as int);
                    lemma_and_bit(looper.layer0@[i as int], other.layer0@[i as int], j % 64);
                    lemma_masked_bit(both, j % 64);
                    assert(Self::in_both(lhs, rhs, j as int) == word_bit(both, (j % 64) as int));
                }
                if both & (1u64 << (j % USIZE_BITS)) != 0 {
                    let ghost before = result@;
                    result.push(j);
                    proof {
                        assert forall|jj: int| 0 <= jj < j + 1 && #[trigger] Self::in_both(lhs, rhs, jj)
                            implies result@.contains(jj as usize) by {
                            if jj < j {
                                let k = choose|k: int| 0 <= k < before.len() && before[k] == jj as usize;
                                assert(result@[k] == jj as usize);
                            } else {
                                assert(result@[before.len() as int] == jj as usize);
                            }
                        }
                    }
                }
                j = j + 1;
            }
            curr_index = curr_index + USIZE_BITS;
        }
        proof {
            assert forall|j: int| #[trigger] Self::in_both(lhs, rhs, j) implies result@.contains(j as usize) by {
                assert(j / 64 < n);
                assert(j < 64 * n) by (nonlinear_arith)
                    requires
                        0 <= j,
                        j / 64 < n,
                ;
            }
        }
        result
    }

    pub fn len(&self) -> (r: usize)
        ensures
            r == self.layer0.len(),
    {
        self.layer0.len()
    }
}

impl Default for LayeredBitMap {
    fn default() -> (r: Self)
        ensures
            r.layer0@ == Seq::<u64>::empty(),
            r.layer1@ == Seq::<u64>::empty(),
    {
        Self::new()
    }
}

/// Two strictly increasing sequences with the same elements are equal.
proof fn lemma_sorted_unique(a: Seq<usize>, b: Seq<usize>)
    requires
        forall|i: int, j: int| 0 <= i < j < a.len() ==> a[i] < a[j],
        forall|i: int, j: int| 0 <= i < j < b.len() ==> b[i] < b[j],
        forall|x: usize| a.contains(x) <==> b.contains(x),
    ensures
        a == b,
    decreases a.len(),
{
    if a.len() == 0 {
        if b.len() > 0 {
            assert(b.contains(b[0]));
        }
        assert(b.len() == 0);
    } else {
        assert(a.contains(a[0]));
        assert(b.len() > 0);
        assert(b.contains(b[0]));
        let ka = choose|k: int| 0 <= k < b.len() && b[k] == a[0];
        let kb = choose|k: int| 0 <= k < a.len() && a[k] == b[0];
        assert(a[0] == b[0]) by {
            if a[0] < b[0] {
                assert(b[ka] == a[0]);
                assert(ka > 0 ==> b[0] < b[ka]);
            } else if b[0] < a[0] {
                assert(a[kb] == b[0]);
                assert(kb > 0 ==> a[0] < a[kb]);
            }
        }
        let a1 = a.drop_first();
        let b1 = b.drop_first();
        assert forall|x: usize| a1.contains(x) <==> b1.contains(x) by {
            if a1.contains(x) {
                let k = choose|k: int| 0 <= k < a1.len() && a1[k] == x;
                assert(a[k + 1] == x);
                assert(a.contains(x));
                let m = choose|m: int| 0 <= m < b.len() && b[m] == x;
                assert(m != 0);
                assert(b1[m - 1] == x);
            }
            if b1.contains(x) {
                let k = choose|k: int| 0 <= k < b1.len() && b1[k] == x;
                assert(b[k + 1] == x);
                assert(b.contains(x));
                let m = choose|m: int| 0 <= m < a.len() && a[m] == x;
                assert(m != 0);
                assert(a1[m - 1] == x);
            }
        }
        lemma_sorted_unique(a1, b1);
        assert(a =~= seq![a[0]] + a1);
        assert(b =~= seq![b[0]] + b1);
    }
}

/// Joining is symmetric: joining `lhs` with `rhs` lists the same indices,
/// in the same order, as joining `rhs` with `lhs`.
pub proof fn lemma_join_symmetric(lhs: LayeredBitMap, rhs: LayeredBitMap, r1: Seq<usize>, r2: Seq<usize>)
    requires
        LayeredBitMap::joined(lhs, rhs, r1),
        LayeredBitMap::joined(rhs, lhs, r2),
    ensures
        r1 == r2,
{
    assert forall|x: usize| r1.contains(x) <==> r2.contains(x) by {
        if r1.contains(x) {
            let k = choose|k: int| 0 <= k < r1.len() && r1[k] == x;
            assert(LayeredBitMap::in_both(lhs, rhs, r1[k] as int));
            assert(LayeredBitMap::in_both(rhs, lhs, x as int));
        }
        if r2.contains(x) {
            let k = choose|k: int| 0 <= k < r2.len() && r2[k] == x;
            assert(LayeredBitMap::in_both(rhs, lhs, r2[k] as int));
            assert(LayeredBitMap::in_both(lhs, rhs, x as int));
        }
    }
    lemma_sorted_unique(r1, r2);
}

} // verus!
