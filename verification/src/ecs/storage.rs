// Component storage: the physical storage of a component type together with
// the bitset used for joining.
use vstd::prelude::*;
use std::marker::PhantomData;
use crate::ecs::bits::{
    word32_bit, word16_bit, lemma_zero_word32_has_no_bits, lemma_zero_word16_has_no_bits,
    lemma_set_bit32, lemma_clear_bit32, lemma_set_bit16,
};
use crate::ecs::component::Component;
use crate::ecs::entity::{Entities, Entity};
use crate::ecs::join::Joinable;

verus! {

/// Stores the bitset (used for joining) and the physical storage for the component.
pub struct TrackedStorage<C: Component> {
    pub bitset: LayeredBitMap,
    pub inner: C::Storage,
}

impl<C: Component> TrackedStorage<C> {
    pub fn new(storage: C::Storage) -> (r: Self)
        ensures
            r.inner == storage,
            r.bitset.layer0_len() == 0,
            r.bitset.layer1_len() == 0,
            r.bitset.max_index() == 0,
            r.bitset.wf(),
    {
        Self { bitset: LayeredBitMap::new(), inner: storage }
    }

    /// Hands the value to the component storage; the bitset is left as it is.
    pub fn insert(&mut self, index: usize, value: C)
        ensures
            final(self).inner.inserted(old(self).inner, index, value),
            final(self).bitset == old(self).bitset,
    {
        self.inner.insert(index, value);
    }
}

/// Simple vec wrapper, added because in the future there will be other storage types as well.
pub struct VecStorage<T> {
    pub inner: Vec<T>,
}

impl<T> Default for VecStorage<T> {
    fn default() -> (r: Self)
        ensures
            r.inner@ == Seq::<T>::empty(),
    {
        Self { inner: Vec::new() }
    }
}

/// Types that can try to build a default value of themselves.
pub trait TryDefault: Sized {
    /// Building a default value of this type never fails.
    spec fn default_never_fails() -> bool;

    /// `v` is a default value of this type.
    spec fn is_default(v: Self) -> bool;

    fn try_default() -> (r: Result<Self, String>)
        ensures
            Self::default_never_fails() ==> r is Ok,
            r matches Ok(v) ==> Self::is_default(v),
    ;

    /// The default value, where building one never fails.
    fn unwrap_default() -> (r: Self)
        requires
            Self::default_never_fails(),
        ensures
            Self::is_default(r),
    {
        Self::try_default().unwrap()
    }
}

impl<T> TryDefault for T where T: Default {
    open spec fn default_never_fails() -> bool {
        true
    }

    /// A value that `T::default` can return.
    open spec fn is_default(v: Self) -> bool {
        call_ensures(T::default, (), v)
    }

    fn try_default() -> (r: Result<Self, String>) {
        Ok(T::default())
    }
}

/// A storage of values of `T` addressed by index.
pub trait DynamicStorage<T>: TryDefault {
    /// A value is stored under `id`.
    spec fn stores(&self, id: usize) -> bool;

    /// The value stored under `id`.
    spec fn stored(&self, id: usize) -> T;

    /// This storage is `before` after `value` was inserted for `index`.
    spec fn inserted(&self, before: Self, index: usize, value: T) -> bool;

    fn insert(&mut self, index: usize, value: T)
        ensures
            final(self).inserted(*old(self), index, value),
    ;

    fn get(&self, id: usize) -> (r: &T)
        requires
            self.stores(id),
        ensures
            *r == self.stored(id),
    ;
}

impl<T> DynamicStorage<T> for VecStorage<T> {
    open spec fn stores(&self, id: usize) -> bool {
        id < self.inner.len()
    }

    open spec fn stored(&self, id: usize) -> T {
        self.inner@[id as int]
    }

    /// The value is appended at the end, whatever the index.
    open spec fn inserted(&self, before: Self, index: usize, value: T) -> bool {
        self.inner@ == before.inner@.push(value)
    }

    fn insert(&mut self, index: usize, value: T) {
        self.inner.push(value);
    }

    /// The value at position `id` of the vector.
    fn get(&self, id: usize) -> (r: &T)
        ensures
            *r == self.inner@[id as int],
    {
        &self.inner[id]
    }
}

/// A vector storage gives back what was put in: after a value is inserted,
/// the position after the older values holds it and reads it back, every
/// older position still reads its own value, and what is read under a
/// position is the value at that position of the vector.
pub proof fn lemma_vec_storage_read_back<T>(
    before: VecStorage<T>,
    after: VecStorage<T>,
    index: usize,
    value: T,
)
    requires
        after.inserted(before, index, value),
    ensures
        after.inner.len() == before.inner.len() + 1,
        after.stores(before.inner.len()),
        after.stored(before.inner.len()) == value,
        forall|j: usize| j < before.inner.len() ==> after.stores(j) && #[trigger] after.stored(j)
            == before.stored(j) && before.stored(j) == before.inner@[j as int],
        forall|j: usize| j < after.inner.len() ==> #[trigger] after.stored(j) == after.inner@[j as int],
{
}

/// Joining a vector storage visits every index it holds, in order, and
/// looks each up in the storage.
impl<'a, T> Joinable for &'a VecStorage<T> {
    type Value = &'a VecStorage<T>;
    type Type = Option<&'a T>;

    open spec fn keys_of(self) -> Seq<usize> {
        Seq::new(self.inner@.len(), |i: int| i as usize)
    }

    open spec fn values_of(self) -> &'a VecStorage<T> {
        self
    }

    /// The value stored under `index`, if any; the storage is not changed.
    open spec fn got(before: &'a VecStorage<T>, index: usize, item: Option<&'a T>, after: &'a VecStorage<T>) -> bool {
        &&& after == before
        &&& item == if index < before.inner.len() {
            Some(&before.inner@[index as int])
        } else {
            None
        }
    }

    fn view(self) -> (r: (Vec<usize>, &'a VecStorage<T>)) {
        let mut keys: Vec<usize> = Vec::new();
        let n = self.inner.len();
        for i in 0..n
            invariant
                n == self.inner.len(),
                keys@ == Seq::new(i as nat, |k: int| k as usize),
        {
            keys.push(i);
            assert(keys@ =~= Seq::new((i + 1) as nat, |k: int| k as usize));
        }
        assert(keys@ =~= Seq::new(n as nat, |k: int| k as usize));
        (keys, self)
    }

    fn get(value: &mut &'a VecStorage<T>, index: usize) -> (r: Option<&'a T>) {
        let storage: &'a VecStorage<T> = *value;
        if index < storage.inner.len() {
            Some(&storage.inner[index])
        } else {
            None
        }
    }
}

impl<C: Component> Default for TrackedStorage<C> where C::Storage: Default {
    fn default() -> (r: Self)
        ensures
            r.bitset.layer0_len() == 0,
            r.bitset.layer1_len() == 0,
            r.bitset.max_index() == 0,
    {
        Self { bitset: LayeredBitMap::new(), inner: C::Storage::default() }
    }
}

/// The bitset kept with each component storage.
pub type Bitset = LayeredBitMap;

/// A two-layer bitset with 32-bit words in `layer0` and 16-bit words in
/// `layer1`. Inserting sets the bit of the index in `layer0` and bit
/// `index - 16` of `layer1` (so indices below 16 cannot be inserted), and
/// removing clears the bit of the index in `layer0`. Membership is read from
/// `layer0` alone; `check` also reads word `index / 16` of `layer1`, but its
/// result does not depend on it.
pub struct LayeredBitMap {
    pub layer1: Vec<u16>,
    pub layer0: Vec<u32>,
    max_index: usize,
}

impl LayeredBitMap {
    /// The largest index inserted so far (zero before the first insert).
    pub closed spec fn max_index(&self) -> usize {
        self.max_index
    }

    pub closed spec fn layer0_len(&self) -> nat {
        self.layer0@.len()
    }

    pub closed spec fn layer1_len(&self) -> nat {
        self.layer1@.len()
    }

    /// Bit `i` of `layer0`.
    pub closed spec fn has(&self, i: int) -> bool {
        0 <= i && i / 32 < self.layer0.len() && word32_bit(self.layer0@[i / 32], i % 32)
    }

    /// Bit `h` of `layer1`.
    pub closed spec fn marked(&self, h: int) -> bool {
        0 <= h && h / 16 < self.layer1.len() && word16_bit(self.layer1@[h / 16], h % 16)
    }

    /// Either nothing was inserted yet and both layers are empty, or the
    /// layers reach exactly up to the largest index inserted.
    /// No index beyond the largest one inserted is present.
    pub open spec fn wf(&self) -> bool {
        &&& {
            ||| (self.max_index() == 0 && self.layer0_len() == 0 && self.layer1_len() == 0)
            ||| (self.max_index() >= 16 && self.layer0_len() == self.max_index() / 32 + 1
                && self.layer1_len() == self.max_index() / 16 + 1)
        }
        &&& forall|i: int| #[trigger] self.has(i) ==> i <= self.max_index()
    }

    /// What `check` reports of index `i`: it is at most the largest index
    /// inserted, and its bit is set.
    pub open spec fn present(&self, i: int) -> bool {
        i <= self.max_index() && self.has(i)
    }

    /// `after` is `before` with `index` inserted: bit `index` of `layer0` and
    /// bit `index - 16` of `layer1` are set, and the largest index is updated.
    pub open spec fn inserted(before: Self, after: Self, index: usize) -> bool {
        &&& after.wf()
        &&& after.max_index() == if index > before.max_index() {
            index
        } else {
            before.max_index()
        }
        &&& forall|i: int| #[trigger] after.has(i) == (before.has(i) || i == index)
        &&& forall|h: int| #[trigger] after.marked(h) == (before.marked(h) || h == index - 16)
        &&& forall|j: int| #[trigger] after.present(j) == (before.present(j) || j == index)
    }

    pub fn new() -> (r: Self)
        ensures
            r.layer0_len() == 0,
            r.layer1_len() == 0,
            r.max_index() == 0,
            r.wf(),
    {
        Self { layer1: Vec::new(), layer0: Vec::new(), max_index: 0 }
    }

    /// Sets bit `index` of `layer0` and bit `index - 16` of `layer1`,
    /// first growing both layers with zero words up to `index` when it is
    /// beyond every index inserted before.
    pub fn insert(&mut self, index: usize)
        requires
            old(self).wf(),
            index >= 16,
        ensures
            Self::inserted(*old(self), *final(self), index),
    {
        let ghost old0 = self.layer0@;
        let ghost old1 = self.layer1@;
        if index > self.max_index {
            let n0 = (index / 32) + 1 - self.layer0.len();
            for _k in 0..n0
                invariant
                    self.layer0@.len() == old0.len() + _k,
                    self.layer0@.subrange(0, old0.len() as int) == old0,
                    forall|j: int| old0.len() <= j < self.layer0@.len() ==> self.layer0@[j] == 0u32,
                    n0 == index / 32 + 1 - old0.len(),
                    self.layer1@ == old1,
            {
                self.layer0.push(0);
            }
            let n1 = (index / 16) + 1 - self.layer1.len();
            for _k in 0..n1
                invariant
                    self.layer1@.len() == old1.len() + _k,
                    self.layer1@.subrange(0, old1.len() as int) == old1,
                    forall|j: int| old1.len() <= j < self.layer1@.len() ==> self.layer1@[j] == 0u16,
                    n1 == index / 16 + 1 - old1.len(),
                    self.layer0@.len() == index / 32 + 1,
                    self.layer0@.subrange(0, old0.len() as int) == old0,
                    forall|j: int| old0.len() <= j < self.layer0@.len() ==> self.layer0@[j] == 0u32,
            {
                self.layer1.push(0);
            }
            self.max_index = index;
        }
        let ghost grown0 = self.layer0@;
        let ghost grown1 = self.layer1@;
        assert forall|j: int| 0 <= j < old0.len() implies grown0[j] == old0[j] by {
            assert(grown0.subrange(0, old0.len() as int)[j] == old0[j]);
        }
        assert forall|j: int| 0 <= j < old1.len() implies grown1[j] == old1[j] by {
            assert(grown1.subrange(0, old1.len() as int)[j] == old1[j]);
        }
        let w0 = index / 32;
        let b0 = index % 32;
        let word0 = self.layer0[w0] | (1u32 << b0);
        self.layer0.set(w0, word0);
        let w1 = index / 16 - 1;
        let b1 = index % 16;
        let word1 = self.layer1[w1] | (1u16 << b1);
        self.layer1.set(w1, word1);
        proof {
            assert forall|i: int| #[trigger]
                self.has(i) == ((0 <= i && i / 32 < old0.len() && word32_bit(old0[i / 32], i % 32))
                    || i == index) by {
                if 0 <= i && i / 32 < self.layer0@.len() {
                    if i / 32 == w0 as int {
                        lemma_set_bit32(grown0[w0 as int], b0, i % 32);
                        if i / 32 >= old0.len() {
                            lemma_zero_word32_has_no_bits(i % 32);
                        }
                    } else if i / 32 >= old0.len() {
                        lemma_zero_word32_has_no_bits(i % 32);
                    }
                }
            }
            assert forall|h: int| #[trigger]
                self.marked(h) == ((0 <= h && h / 16 < old1.len() && word16_bit(old1[h / 16], h % 16))
                    || h == index - 16) by {
                if 0 <= h && h / 16 < self.layer1@.len() {
                    if h / 16 == w1 as int {
                        lemma_set_bit16(grown1[w1 as int], b1, h % 16);
                        if h / 16 >= old1.len() {
                            lemma_zero_word16_has_no_bits(h % 16);
                        }
                    } else if h / 16 >= old1.len() {
                        lemma_zero_word16_has_no_bits(h % 16);
                    }
                }
            }
            assert forall|i: int| #[trigger] self.has(i) implies i <= self.max_index() by {
                if i != index {
                    assert(old(self).has(i));
                }
            }
            assert forall|k: int| #[trigger] self.present(k) == (old(self).present(k) || k == index) by {
                if k != index && self.has(k) {
                    assert(old(self).has(k));
                }
            }
        }
    }

    /// Clears bit `index` of `layer0`.
    pub fn remove(&mut self, index: usize)
        requires
            index / 32 < old(self).layer0_len(),
        ensures
            final(self).layer0_len() == old(self).layer0_len(),
            final(self).layer1_len() == old(self).layer1_len(),
            forall|h: int| #[trigger] final(self).marked(h) == old(self).marked(h),
            final(self).max_index() == old(self).max_index(),
            old(self).wf() ==> final(self).wf(),
            forall|i: int| #[trigger] final(self).has(i) == (old(self).has(i) && i != index),
            forall|j: int| #[trigger] final(self).present(j) == (old(self).present(j) && j != index),
    {
        let ghost old0 = self.layer0@;
        let w0 = index / 32;
        let b0 = index % 32;
        let word0 = self.layer0[w0] & !(1u32 << b0);
        self.layer0.set(w0, word0);
        proof {
            assert forall|i: int| #[trigger]
                self.has(i) == ((0 <= i && i / 32 < old0.len() && word32_bit(old0[i / 32], i % 32))
                    && i != index) by {
                if 0 <= i && i / 32 < self.layer0@.len() && i / 32 == w0 as int {
                    lemma_clear_bit32(old0[w0 as int], b0, i % 32);
                }
            }
            if old(self).wf() {
                assert forall|i: int| #[trigger] self.has(i) implies i <= self.max_index() by {
                    assert(old(self).has(i));
                }
            }
        }
    }

    /// Whether bit `index` of `layer0` is set; indices beyond the largest
    /// one inserted are absent.
    pub fn check(&self, index: usize) -> (r: bool)
        requires
            index <= self.max_index() ==> index / 16 < self.layer1_len() && index / 32
                < self.layer0_len(),
        ensures
            r == self.present(index as int),
    {
        if index > self.max_index {
            return false;
        }
        // The group bit of `layer1` is only consulted for diagnostics.
        let _group = self.layer1[index / 16] & (1u16 << (index % 16)) != 0;
        let b0 = index % 32;
        let r = (self.layer0[index / 32] & (1u32 << b0)) != 0;
        r
    }
}

impl Default for LayeredBitMap {
    fn default() -> (r: Self)
        ensures
            r.layer0_len() == 0,
            r.layer1_len() == 0,
            r.max_index() == 0,
            r.wf(),
    {
        Self::new()
    }
}

/// Inserting an index that is already present changes nothing: inserting
/// twice in a row gives what inserting once gives.
pub proof fn lemma_insert_idempotent(
    a: LayeredBitMap,
    b: LayeredBitMap,
    c: LayeredBitMap,
    index: usize,
)
    requires
        LayeredBitMap::inserted(a, b, index),
        LayeredBitMap::inserted(b, c, index),
    ensures
        forall|i: int| #[trigger] c.has(i) == b.has(i),
        forall|h: int| #[trigger] c.marked(h) == b.marked(h),
        c.max_index() == b.max_index(),
{
}

/// A present index lies within `layer0`, and a wf bitmap holds no index
/// beyond the largest one inserted.
pub proof fn lemma_present_in_range(b: LayeredBitMap, i: int)
    requires
        b.has(i),
    ensures
        0 <= i,
        i / 32 < b.layer0_len(),
        b.wf() ==> i / 32 <= b.max_index() / 32,
{
}

/// Component storage together with the entities it belongs to.
pub struct Storage<C: Component> {
    pub data: TrackedStorage<C>,
    pub entities: Entities,
    pub phantom: PhantomData<C>,
}

impl<C: Component> Storage<C> {
    /// Inserts the value under the id of the entity.
    pub fn insert(&mut self, entity: Entity, value: C)
        ensures
            final(self).data.inner.inserted(old(self).data.inner, entity.id_spec(), value),
            final(self).data.bitset == old(self).data.bitset,
    {
        self.data.insert(entity.id(), value);
    }

    /// The value stored under the id of the entity.
    pub fn get(&self, e: Entity) -> (r: Option<&C>)
        requires
            self.data.inner.stores(e.id_spec()),
        ensures
            r == Some(&self.data.inner.stored(e.id_spec())),
    {
        Some(self.data.inner.get(e.id()))
    }
}

} // verus!
