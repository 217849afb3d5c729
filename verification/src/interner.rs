use std::marker::PhantomData;

use vstd::prelude::*;

verus! {

/// An identifier handed out by an interner: a small integer that stands for an
/// interned value, with a base representation and a largest index.
pub trait Id: Copy + Sized {
    type BaseType: Copy;

    /// The index that this id stands for.
    spec fn index(&self) -> nat;

    /// How many distinct ids this type can represent.
    spec fn capacity() -> nat;

    /// The index that a base value stands for.
    spec fn base_index(b: Self::BaseType) -> nat;

    fn from_base(id: Self::BaseType) -> (r: Self)
        ensures
            r.index() == Self::base_index(id),
    ;

    fn to_base(&self) -> (r: Self::BaseType)
        ensures
            Self::base_index(r) == self.index(),
    ;

    fn from_usize(index: usize) -> (r: Self)
        requires
            index < Self::capacity(),
        ensures
            r.index() == index,
    ;

    fn to_usize(&self) -> (r: usize)
        ensures
            r == self.index(),
    ;
}

/// The id of an interned string.
#[derive(Debug, Default, Clone, Copy, PartialEq, Eq, Structural, Hash)]
pub struct StringId(pub usize);

impl Id for StringId {
    type BaseType = usize;

    open spec fn index(&self) -> nat {
        self.0 as nat
    }

    open spec fn capacity() -> nat {
        usize::MAX as nat + 1
    }

    open spec fn base_index(b: usize) -> nat {
        b as nat
    }

    fn from_base(id: usize) -> (r: StringId) {
        StringId(id)
    }

    fn to_base(&self) -> (r: usize) {
        self.0
    }

    fn from_usize(index: usize) -> (r: StringId) {
        StringId(index)
    }

    fn to_usize(&self) -> (r: usize) {
        self.0
    }
}

impl View for StringId {
    type V = StringId;

    open spec fn view(&self) -> StringId {
        *self
    }
}

/// The id of an interned tag name.
#[derive(Debug, Default, Clone, Copy, PartialEq, Eq, Structural, Hash)]
pub struct TagId(pub u16);

impl Id for TagId {
    type BaseType = u16;

    open spec fn index(&self) -> nat {
        self.0 as nat
    }

    open spec fn capacity() -> nat {
        u16::MAX as nat + 1
    }

    open spec fn base_index(b: u16) -> nat {
        b as nat
    }

    fn from_base(id: u16) -> (r: TagId) {
        TagId(id)
    }

    fn to_base(&self) -> (r: u16) {
        self.0
    }

    fn from_usize(index: usize) -> (r: TagId) {
        TagId(index as u16)
    }

    fn to_usize(&self) -> (r: usize) {
        self.0 as usize
    }
}

/// A value that an interner can store: it can be compared and copied by its view.
pub trait InternKey: View + Sized {
    fn same_key(&self, other: &Self) -> (r: bool)
        ensures
            r == (self@ == other@),
    ;

    fn duplicate(&self) -> (r: Self)
        ensures
            r@ == self@,
    ;
}

impl InternKey for String {
    fn same_key(&self, other: &Self) -> (r: bool) {
        *self == *other
    }

    fn duplicate(&self) -> (r: Self) {
        self.clone()
    }
}

impl InternKey for StringId {
    fn same_key(&self, other: &Self) -> (r: bool) {
        self.0 == other.0
    }

    fn duplicate(&self) -> (r: Self) {
        *self
    }
}

/// Maps values to small ids and back. The n-th distinct value interned gets
/// the id with index n.
pub struct Interner<T, I> {
    backward: Vec<T>,
    _marker: PhantomData<I>,
}

impl<T: InternKey, I: Id> Interner<T, I> {
    /// The interned values, by index.
    pub closed spec fn keys(&self) -> Seq<T::V> {
        Seq::new(self.backward@.len(), |i: int| self.backward@[i]@)
    }

    /// No value is interned twice, and every index has an id.
    pub closed spec fn wf(&self) -> bool {
        &&& forall|i: int, j: int|
            0 <= i < j < self.backward@.len() ==> self.backward@[i]@ != self.backward@[j]@
        &&& self.backward@.len() <= I::capacity()
    }

    /// The id that `key` would get, or has got.
    pub open spec fn id_of(&self, key: T::V) -> int {
        self.keys().index_of(key)
    }

    pub fn new() -> (r: Self)
        ensures
            r.wf(),
            r.keys() == Seq::<T::V>::empty(),
    {
        let r = Interner { backward: Vec::new(), _marker: PhantomData };
        assert(r.keys() =~= Seq::<T::V>::empty());
        r
    }

    fn find(&self, key: &T) -> (r: Option<usize>)
        ensures
            match r {
                Some(i) => i < self.keys().len() && self.keys()[i as int] == key@,
                None => !self.keys().contains(key@),
            },
    {
        let mut i: usize = 0;
        while i < self.backward.len()
            invariant
                i <= self.backward@.len(),
                forall|j: int| 0 <= j < i ==> self.keys()[j] != key@,
            decreases self.backward@.len() - i,
        {
            if self.backward[i].same_key(key) {
                return Some(i);
            }
            i = i + 1;
        }
        None
    }

    /// Each interned value has one id: equal values sit at equal indices.
    pub proof fn lemma_one_id_per_value(&self, i: int, j: int)
        requires
            self.wf(),
            0 <= i < self.keys().len(),
            0 <= j < self.keys().len(),
            self.keys()[i] == self.keys()[j],
        ensures
            i == j,
    {
        if i < j {
            assert(self.backward@[i]@ != self.backward@[j]@);
        } else if j < i {
            assert(self.backward@[j]@ != self.backward@[i]@);
        }
    }

    /// An interned value is found again under its id.
    pub proof fn lemma_id_of_resolves(&self, key: T::V)
        requires
            self.wf(),
            self.keys().contains(key),
        ensures
            0 <= self.id_of(key) < self.keys().len(),
            self.keys()[self.id_of(key)] == key,
    {
    }

    /// Interns `key`: a value seen before keeps its id, a new one gets the next
    /// index.
    pub fn intern(&mut self, key: &T) -> (r: I)
        requires
            old(self).wf(),
            !old(self).keys().contains(key@) ==> old(self).keys().len() < I::capacity(),
        ensures
            final(self).wf(),
            old(self).keys().contains(key@) ==> final(self).keys() == old(self).keys(),
            !old(self).keys().contains(key@) ==> final(self).keys() == old(self).keys().push(key@),
            r.index() < final(self).keys().len(),
            final(self).keys()[r.index() as int] == key@,
            old(self).keys().contains(key@) ==> r.index() == old(self).id_of(key@),
            !old(self).keys().contains(key@) ==> r.index() == old(self).keys().len(),
    {
        match self.find(key) {
            Some(i) => {
                proof {
                    assert(i < I::capacity());
                    self.lemma_one_id_per_value(i as int, self.id_of(key@));
                }
                I::from_usize(i)
            },
            None => {
                let index = self.backward.len();
                let owned = key.duplicate();
                let ghost old_keys = self.keys();
                self.backward.push(owned);
                assert(self.keys() =~= old_keys.push(key@));
                assert forall|i: int, j: int|
                    0 <= i < j < self.backward@.len() implies self.backward@[i]@ != self.backward@[j]@ by {
                    assert(self.keys()[i] == self.backward@[i]@);
                    if j == index {
                        assert(old_keys[i] == self.keys()[i]);
                    }
                }
                I::from_usize(index)
            },
        }
    }

    /// How many values are interned.
    pub fn len(&self) -> (r: usize)
        ensures
            r == self.keys().len(),
    {
        self.backward.len()
    }

    /// The value that `key` stands for.
    pub fn resolve(&self, key: I) -> (r: &T)
        requires
            key.index() < self.keys().len(),
        ensures
            r@ == self.keys()[key.index() as int],
    {
        let i = key.to_usize();
        &self.backward[i]
    }
}

/// An interner shared by the passes of a compilation. Each call has the interner
/// to itself for its duration.
pub struct SharedInterner<T, I> {
    interner: Interner<T, I>,
}

impl<T: InternKey, I: Id> SharedInterner<T, I> {
    pub closed spec fn keys(&self) -> Seq<T::V> {
        self.interner.keys()
    }

    pub closed spec fn wf(&self) -> bool {
        self.interner.wf()
    }

    /// Each interned value has one id: equal values sit at equal indices.
    pub proof fn lemma_one_id_per_value(&self, i: int, j: int)
        requires
            self.wf(),
            0 <= i < self.keys().len(),
            0 <= j < self.keys().len(),
            self.keys()[i] == self.keys()[j],
        ensures
            i == j,
    {
        self.interner.lemma_one_id_per_value(i, j);
    }

    pub fn default() -> (r: Self)
        ensures
            r.wf(),
            r.keys() == Seq::<T::V>::empty(),
    {
        SharedInterner { interner: Interner::new() }
    }

    pub fn intern(&mut self, key: &T) -> (r: I)
        requires
            old(self).wf(),
            !old(self).keys().contains(key@) ==> old(self).keys().len() < I::capacity(),
        ensures
            final(self).wf(),
            old(self).keys().contains(key@) ==> final(self).keys() == old(self).keys(),
            !old(self).keys().contains(key@) ==> final(self).keys() == old(self).keys().push(key@),
            r.index() < final(self).keys().len(),
            final(self).keys()[r.index() as int] == key@,
            old(self).keys().contains(key@) ==> r.index() == old(self).keys().index_of(key@),
            !old(self).keys().contains(key@) ==> r.index() == old(self).keys().len(),
    {
        self.interner.intern(key)
    }

    pub fn resolve(&self, key: I) -> (r: T)
        requires
            key.index() < self.keys().len(),
        ensures
            r@ == self.keys()[key.index() as int],
    {
        self.interner.resolve(key).duplicate()
    }
}

} // verus!
