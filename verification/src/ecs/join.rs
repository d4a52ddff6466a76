use vstd::prelude::*;

verus! {

/// Something that can be walked in a join: it yields the indices to visit and
/// the values they are looked up in.
pub trait Joinable: Sized {
    type Value;
    type Type;

    /// The indices `view` yields, in order.
    spec fn keys_of(self) -> Seq<usize>;

    /// The values `view` yields.
    spec fn values_of(self) -> Self::Value;

    /// Looking up `index` in `before` gives `item` and leaves the values as
    /// `after`.
    spec fn got(before: Self::Value, index: usize, item: Self::Type, after: Self::Value) -> bool;

    /// An iterator over the keys of the joinable, from the first one.
    fn join(self) -> (r: JoinIterator<Self>)
        ensures
            r.keys@ == self.keys_of(),
            r.values == self.values_of(),
            r.position == 0,
    {
        let (keys, values) = self.view();
        JoinIterator { keys, position: 0, values }
    }

    fn view(self) -> (r: (Vec<usize>, Self::Value))
        ensures
            r.0@ == self.keys_of(),
            r.1 == self.values_of(),
    ;

    fn get(value: &mut Self::Value, index: usize) -> (r: Self::Type)
        ensures
            Self::got(*old(value), index, r, *final(value)),
    ;
}

/// Walks the indices of a joinable, looking each one up in its values.
pub struct JoinIterator<J: Joinable> {
    pub keys: Vec<usize>,
    pub position: usize,
    pub values: J::Value,
}

impl<J: Joinable> JoinIterator<J> {
    /// The indices to visit, in order.
    pub open spec fn keys(&self) -> Seq<usize> {
        self.keys@
    }

    /// How many indices have been visited.
    pub open spec fn position(&self) -> nat {
        self.position as nat
    }

    /// The values the indices are looked up in.
    pub open spec fn values(&self) -> J::Value {
        self.values
    }

    pub open spec fn wf(&self) -> bool {
        self.position <= self.keys.len()
    }

    pub fn new(joinable: J) -> (r: Self)
        ensures
            r.keys() == joinable.keys_of(),
            r.values() == joinable.values_of(),
            r.position() == 0,
            r.wf(),
    {
        let (keys, values) = joinable.view();
        Self { keys, position: 0, values }
    }

    /// Looks up the next index in the values; `None` once every index was
    /// visited.
    pub fn next(&mut self) -> (r: Option<J::Type>)
        requires
            old(self).wf(),
        ensures
            final(self).wf(),
            final(self).keys() == old(self).keys(),
            old(self).position() < old(self).keys().len() ==> (r matches Some(item) && J::got(
                old(self).values(),
                old(self).keys()[old(self).position() as int],
                item,
                final(self).values(),
            ) && final(self).position() == old(self).position() + 1),
            old(self).position() >= old(self).keys().len() ==> r is None && final(self).position()
                == old(self).position() && final(self).values() == old(self).values(),
    {
        if self.position < self.keys.len() {
            let index = self.keys[self.position];
            self.position = self.position + 1;
            Some(J::get(&mut self.values, index))
        } else {
            None
        }
    }
}

} // verus!
