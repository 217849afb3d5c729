use vstd::prelude::*;

verus! {

/// An immutable singly linked list. Types hold their members in lists so that
/// two types are equal exactly when their structures are.
pub enum List<T> {
    Nil,
    Cons(Box<T>, Box<List<T>>),
}

impl<T> List<T> {
    /// The items of the list, in order.
    pub open spec fn seq(&self) -> Seq<T>
        decreases self,
    {
        match self {
            List::Nil => Seq::empty(),
            List::Cons(head, tail) => seq![**head] + tail.seq(),
        }
    }

    /// The list with the given items.
    pub open spec fn from_seq(s: Seq<T>) -> List<T>
        decreases s.len(),
    {
        if s.len() == 0 {
            List::Nil
        } else {
            List::Cons(Box::new(s[0]), Box::new(List::from_seq(s.drop_first())))
        }
    }

    pub proof fn lemma_from_seq(s: Seq<T>)
        ensures
            List::from_seq(s).seq() == s,
        decreases s.len(),
    {
        if s.len() > 0 {
            List::<T>::lemma_from_seq(s.drop_first());
            assert(seq![s[0]] + s.drop_first() =~= s);
        }
    }

    pub proof fn lemma_seq_from(l: List<T>)
        ensures
            List::from_seq(l.seq()) == l,
        decreases l,
    {
        match l {
            List::Nil => {},
            List::Cons(h, t) => {
                List::<T>::lemma_seq_from(*t);
                assert((seq![*h] + t.seq()).drop_first() =~= t.seq());
            },
        }
    }

    pub fn new() -> (r: List<T>)
        ensures
            r.seq() == Seq::<T>::empty(),
    {
        List::Nil
    }

    pub fn len(&self) -> (r: usize)
        requires
            self.seq().len() <= usize::MAX,
        ensures
            r == self.seq().len(),
        decreases self,
    {
        match self {
            List::Nil => 0,
            List::Cons(_, tail) => 1 + tail.len(),
        }
    }

    pub fn is_empty(&self) -> (r: bool)
        ensures
            r == (self.seq().len() == 0),
    {
        match self {
            List::Nil => true,
            List::Cons(..) => false,
        }
    }

    /// Builds a list from a vector, keeping the order.
    pub fn from_vec(v: Vec<T>) -> (r: List<T>)
        ensures
            r.seq() == v@,
    {
        let mut v = v;
        let ghost orig = v@;
        let mut r = List::Nil;
        while v.len() > 0
            invariant
                v@ + r.seq() == orig,
            decreases v.len(),
        {
            let item = v.pop().unwrap();
            let ghost before = r.seq();
            r = List::Cons(Box::new(item), Box::new(r));
            assert(v@ + r.seq() =~= orig);
        }
        assert(r.seq() =~= orig);
        r
    }

    /// Moves the items of the list into a vector, keeping the order.
    pub fn into_vec(self) -> (r: Vec<T>)
        ensures
            r@ == self.seq(),
    {
        let mut out: Vec<T> = Vec::new();
        let mut cur = self;
        let ghost orig = self.seq();
        loop
            invariant
                out@ + cur.seq() == orig,
                orig == self.seq(),
            decreases cur.seq().len(),
        {
            match cur {
                List::Nil => {
                    assert(out@ =~= orig);
                    return out;
                },
                List::Cons(h, t) => {
                    let ghost rest = t.seq();
                    out.push(*h);
                    cur = *t;
                    assert(out@ + cur.seq() =~= orig);
                },
            }
        }
    }
}

} // verus!
