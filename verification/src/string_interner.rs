use vstd::prelude::*;
use vstd::string::StringExecFns;

use crate::interner::{Id, Interner};

verus! {

/// The id of a string in a [`StringInterner`].
#[derive(Debug, Clone, Copy, PartialEq, Eq, Structural, Hash)]
pub struct InternerId(pub usize);

impl Id for InternerId {
    type BaseType = usize;

    open spec fn index(&self) -> nat {
        self.0 as nat
    }

    open spec fn capacity() -> nat {
        usize::MAX as nat + 1
    }

    open spec fn base_index(b: usize) -> nat {
        b as nat
    }

    fn from_base(id: usize) -> (r: InternerId) {
        InternerId(id)
    }

    fn to_base(&self) -> (r: usize) {
        self.0
    }

    fn from_usize(index: usize) -> (r: InternerId) {
        InternerId(index)
    }

    fn to_usize(&self) -> (r: usize) {
        self.0
    }
}

/// Maps strings to [`InternerId`]s and back.
pub struct StringInterner {
    strings: Interner<String, InternerId>,
}

impl StringInterner {
    /// The interned strings, by id.
    pub closed spec fn strings(&self) -> Seq<Seq<char>> {
        self.strings.keys()
    }

    pub closed spec fn wf(&self) -> bool {
        self.strings.wf()
    }

    pub fn new() -> (r: StringInterner)
        ensures
            r.wf(),
            r.strings() == Seq::<Seq<char>>::empty(),
    {
        StringInterner { strings: Interner::new() }
    }

    /// Interns `key`: a string seen before keeps its id, a new one gets the next id.
    pub fn intern(&mut self, key: &str) -> (r: InternerId)
        requires
            old(self).wf(),
            !old(self).strings().contains(key@) ==> old(self).strings().len() <= usize::MAX,
        ensures
            final(self).wf(),
            old(self).strings().contains(key@) ==> final(self).strings() == old(self).strings(),
            !old(self).strings().contains(key@) ==> final(self).strings() == old(
                self,
            ).strings().push(key@),
            r.0 < final(self).strings().len(),
            final(self).strings()[r.0 as int] == key@,
            old(self).strings().contains(key@) ==> r.0 == old(self).strings().index_of(key@),
            !old(self).strings().contains(key@) ==> r.0 == old(self).strings().len(),
    {
        let owned = String::from_str(key);
        self.strings.intern(&owned)
    }

    /// The string that `key` stands for.
    pub fn resolve(&self, key: InternerId) -> (r: &str)
        requires
            key.0 < self.strings().len(),
        ensures
            r@ == self.strings()[key.0 as int],
    {
        self.strings.resolve(key).as_str()
    }
}

/// The strings `b` of an interner after interning `key` into one holding `a`:
/// as [`StringInterner::intern`] leaves them.
pub open spec fn intern_step(a: Seq<Seq<char>>, b: Seq<Seq<char>>, key: Seq<char>) -> bool {
    &&& a.contains(key) ==> b == a
    &&& !a.contains(key) ==> b == a.push(key)
}

/// Once a string has an id, interning any further strings keeps it: the id
/// still resolves to that string.
pub proof fn lemma_intern_then_resolve(
    states: Seq<Seq<Seq<char>>>,
    keys: Seq<Seq<char>>,
    id: nat,
    s: Seq<char>,
)
    requires
        states.len() == keys.len() + 1,
        id < states[0].len(),
        states[0][id as int] == s,
        forall|i: int| 0 <= i < keys.len() ==> #[trigger] intern_step(states[i], states[i + 1], keys[i]),
    ensures
        id < states.last().len(),
        states.last()[id as int] == s,
    decreases keys.len(),
{
    if keys.len() > 0 {
        let n = keys.len() - 1;
        assert forall|i: int| 0 <= i < keys.drop_last().len() implies #[trigger] intern_step(
            states.drop_last()[i],
            states.drop_last()[i + 1],
            keys.drop_last()[i],
        ) by {
            assert(intern_step(states[i], states[i + 1], keys[i]));
        }
        lemma_intern_then_resolve(states.drop_last(), keys.drop_last(), id, s);
        assert(intern_step(states[n], states[n + 1], keys[n]));
        assert(states.drop_last().last() == states[n]);
    }
}

/// A [`StringInterner`] shared by the passes of a compilation. Each call has the
/// interner to itself for its duration.
pub struct SharedStringInterner {
    interner: StringInterner,
}

impl SharedStringInterner {
    pub closed spec fn strings(&self) -> Seq<Seq<char>> {
        self.interner.strings()
    }

    pub closed spec fn wf(&self) -> bool {
        self.interner.wf()
    }

    pub fn new() -> (r: SharedStringInterner)
        ensures
            r.wf(),
            r.strings() == Seq::<Seq<char>>::empty(),
    {
        SharedStringInterner { interner: StringInterner::new() }
    }

    pub fn intern(&mut self, key: &str) -> (r: InternerId)
        requires
            old(self).wf(),
            !old(self).strings().contains(key@) ==> old(self).strings().len() <= usize::MAX,
        ensures
            final(self).wf(),
            old(self).strings().contains(key@) ==> final(self).strings() == old(self).strings(),
            !old(self).strings().contains(key@) ==> final(self).strings() == old(
                self,
            ).strings().push(key@),
            r.0 < final(self).strings().len(),
            final(self).strings()[r.0 as int] == key@,
            old(self).strings().contains(key@) ==> r.0 == old(self).strings().index_of(key@),
            !old(self).strings().contains(key@) ==> r.0 == old(self).strings().len(),
    {
        self.interner.intern(key)
    }

    pub fn resolve(&self, key: InternerId) -> (r: String)
        requires
            key.0 < self.strings().len(),
        ensures
            r@ == self.strings()[key.0 as int],
    {
        String::from_str(self.interner.resolve(key))
    }
}

} // verus!
