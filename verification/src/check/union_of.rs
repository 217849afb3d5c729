use vstd::prelude::*;

use crate::types::checked_type::Type;
use crate::types::copy::copy_type;
use crate::types::eq::same_type;
use crate::types::list::List;

verus! {

/// `d` with `x` added at the end, unless `d` already holds it.
pub open spec fn add_one(d: Seq<Type>, x: Type) -> Seq<Type> {
    if d.contains(x) {
        d
    } else {
        d.push(x)
    }
}

/// The distinct items of `s`, each where it first occurs, added after those of `d`.
pub open spec fn add_all(d: Seq<Type>, s: Seq<Type>) -> Seq<Type>
    decreases s.len(),
{
    if s.len() == 0 {
        d
    } else {
        add_one(add_all(d, s.drop_last()), s.last())
    }
}

/// The distinct items of `s`, in the order in which they first occur.
pub open spec fn distinct(s: Seq<Type>) -> Seq<Type> {
    add_all(Seq::empty(), s)
}

/// The members of a union other than `void`.
pub open spec fn non_void(items: List<Type>) -> Seq<Type>
    decreases items,
{
    match items {
        List::Nil => Seq::empty(),
        List::Cons(h, t) => if *h is Void {
            non_void(*t)
        } else {
            seq![*h] + non_void(*t)
        },
    }
}

/// What one type contributes to a union: the non-void members of a union, or
/// the type itself.
pub open spec fn union_contribution(t: Type) -> Seq<Type> {
    match t {
        Type::Union(items) => non_void(items),
        _ => seq![t],
    }
}

/// What one type contributes to a union of kinds: like [`union_contribution`],
/// except that `void` contributes nothing.
pub open spec fn kind_contribution(t: Type) -> Seq<Type> {
    match t {
        Type::Union(items) => non_void(items),
        Type::Void => Seq::empty(),
        _ => seq![t],
    }
}

pub open spec fn union_candidates(ts: Seq<Type>) -> Seq<Type>
    decreases ts.len(),
{
    if ts.len() == 0 {
        Seq::empty()
    } else {
        union_candidates(ts.drop_last()) + union_contribution(ts.last())
    }
}

pub open spec fn kind_candidates(ts: Seq<Type>) -> Seq<Type>
    decreases ts.len(),
{
    if ts.len() == 0 {
        Seq::empty()
    } else {
        kind_candidates(ts.drop_last()) + kind_contribution(ts.last())
    }
}

/// The type made of the given distinct members: `void` for none, the member
/// itself for one, a union otherwise.
pub open spec fn union_from_members(members: Seq<Type>) -> Type {
    if members.len() == 0 {
        Type::Void
    } else if members.len() == 1 {
        members[0]
    } else {
        Type::Union(List::from_seq(members))
    }
}

/// The union of the given types: nested unions are flattened (dropping their
/// `void` members) and every member occurs once.
pub open spec fn spec_union_of(ts: Seq<Type>) -> Type {
    union_from_members(distinct(union_candidates(ts)))
}

/// Like [`spec_union_of`], except that `void` is left out and an `unknown`
/// among the types makes the whole result `unknown`.
pub open spec fn spec_union_of_kinds(ts: Seq<Type>) -> Type {
    if ts.contains(Type::Unknown) {
        Type::Unknown
    } else {
        union_from_members(distinct(kind_candidates(ts)))
    }
}

pub proof fn lemma_add_all_push(d: Seq<Type>, s: Seq<Type>, x: Type)
    ensures
        add_all(d, s.push(x)) == add_one(add_all(d, s), x),
{
    assert(s.push(x).drop_last() =~= s);
}

pub proof fn lemma_add_all_distinct(d: Seq<Type>, s: Seq<Type>)
    requires
        d.no_duplicates(),
    ensures
        add_all(d, s).no_duplicates(),
        forall|x: Type| add_all(d, s).contains(x) <==> (d.contains(x) || s.contains(x)),
    decreases s.len(),
{
    if s.len() > 0 {
        lemma_add_all_distinct(d, s.drop_last());
        let prev = add_all(d, s.drop_last());
        assert forall|x: Type| add_all(d, s).contains(x) <==> (d.contains(x) || s.contains(x)) by {
            if s.contains(x) && !s.drop_last().contains(x) {
                let i = choose|i: int| 0 <= i < s.len() && s[i] == x;
                if i < s.len() - 1 {
                    assert(s.drop_last()[i] == x);
                }
                assert(x == s.last());
            }
            if s.drop_last().contains(x) {
                let i = choose|i: int| 0 <= i < s.drop_last().len() && s.drop_last()[i] == x;
                assert(s[i] == x);
            }
            if !prev.contains(s.last()) {
                assert(prev.push(s.last())[prev.len() as int] == s.last());
                if prev.push(s.last()).contains(x) && x != s.last() {
                    let i = choose|i: int| 0 <= i < prev.len() + 1 && prev.push(s.last())[i] == x;
                    assert(prev[i] == x);
                }
                if prev.contains(x) {
                    let i = choose|i: int| 0 <= i < prev.len() && prev[i] == x;
                    assert(prev.push(s.last())[i] == x);
                }
            }
            assert(s[s.len() - 1] == s.last());
        }
    }
}

/// [`spec_union_of`] keeps each contributed type once: its members are
/// exactly the types that the given types contribute, with no repeats, and
/// with two or more of them the result is the union of those members.
pub proof fn lemma_union_of_members(ts: Seq<Type>)
    ensures
        distinct(union_candidates(ts)).no_duplicates(),
        forall|x: Type|
            distinct(union_candidates(ts)).contains(x) <==> union_candidates(ts).contains(x),
        distinct(union_candidates(ts)).len() >= 2 ==> (spec_union_of(ts) matches Type::Union(members)
            && members.seq() == distinct(union_candidates(ts))),
{
    lemma_add_all_distinct(Seq::empty(), union_candidates(ts));
    List::<Type>::lemma_from_seq(distinct(union_candidates(ts)));
}

/// Adds `x` to `out` unless an equal type is already there.
fn add_distinct(out: &mut Vec<Type>, x: &Type)
    ensures
        final(out)@ == add_one(old(out)@, *x),
{
    let mut i: usize = 0;
    while i < out.len()
        invariant
            i <= out@.len(),
            forall|j: int| 0 <= j < i ==> out@[j] != *x,
        decreases out@.len() - i,
    {
        if same_type(&out[i], x) {
            assert(out@.contains(*x));
            return;
        }
        i = i + 1;
    }
    assert(!out@.contains(*x));
    out.push(copy_type(x));
}

/// Adds the non-void members of `items` to `out`.
fn add_non_void(out: &mut Vec<Type>, items: &List<Type>)
    ensures
        final(out)@ == add_all(old(out)@, non_void(*items)),
    decreases items,
{
    match items {
        List::Nil => {
            assert(add_all(old(out)@, Seq::<Type>::empty()) == old(out)@);
        },
        List::Cons(h, t) => {
            if !matches!(**h, Type::Void) {
                add_distinct(out, h);
            }
            let ghost mid = out@;
            add_non_void(out, t);
            proof {
                lemma_add_all_concat(old(out)@, union_nv_head(**h), non_void(**t));
                if !(**h is Void) {
                    lemma_add_all_push(old(out)@, Seq::empty(), **h);
                    assert(Seq::<Type>::empty().push(**h) =~= seq![**h]);
                } else {
                    assert(union_nv_head(**h) =~= Seq::<Type>::empty());
                }
                assert(non_void(*items) =~= union_nv_head(**h) + non_void(**t));
            }
        },
    }
}

spec fn union_nv_head(h: Type) -> Seq<Type> {
    if h is Void {
        Seq::empty()
    } else {
        seq![h]
    }
}

pub proof fn lemma_add_all_concat(d: Seq<Type>, a: Seq<Type>, b: Seq<Type>)
    ensures
        add_all(d, a + b) == add_all(add_all(d, a), b),
    decreases b.len(),
{
    if b.len() == 0 {
        assert(a + b =~= a);
    } else {
        lemma_add_all_concat(d, a, b.drop_last());
        assert((a + b).drop_last() =~= a + b.drop_last());
        assert((a + b).last() == b.last());
    }
}

/// The distinct items of `v`, in the order in which they first occur.
pub fn distinct_types(v: &Vec<Type>) -> (r: Vec<Type>)
    ensures
        r@ == distinct(v@),
{
    let mut out: Vec<Type> = Vec::new();
    let mut i: usize = 0;
    while i < v.len()
        invariant
            i <= v@.len(),
            out@ == distinct(v@.take(i as int)),
        decreases v@.len() - i,
    {
        add_distinct(&mut out, &v[i]);
        proof {
            assert(v@.take(i + 1) =~= v@.take(i as int).push(v@[i as int]));
            lemma_add_all_push(Seq::empty(), v@.take(i as int), v@[i as int]);
        }
        i = i + 1;
    }
    assert(v@.take(v@.len() as int) =~= v@);
    out
}

/// The type made of the given distinct members.
fn members_to_type(members: Vec<Type>) -> (r: Type)
    ensures
        r == union_from_members(members@),
{
    if members.len() == 0 {
        Type::Void
    } else if members.len() == 1 {
        let mut members = members;
        members.pop().unwrap()
    } else {
        let l = List::from_vec(members);
        proof {
            List::<Type>::lemma_seq_from(l);
        }
        Type::Union(l)
    }
}

/// The union of the given types; see [`spec_union_of`].
pub fn union_of(types: Vec<Type>) -> (r: Type)
    ensures
        r == spec_union_of(types@),
{
    let mut out: Vec<Type> = Vec::new();
    let mut i: usize = 0;
    while i < types.len()
        invariant
            i <= types@.len(),
            out@ == distinct(union_candidates(types@.take(i as int))),
        decreases types@.len() - i,
    {
        let ghost before = out@;
        let t = &types[i];
        match t {
            Type::Union(items) => {
                add_non_void(&mut out, items);
            },
            _ => {
                add_distinct(&mut out, t);
                proof {
                    lemma_add_all_push(Seq::empty(), union_candidates(types@.take(i as int)), *t);
                    assert(union_candidates(types@.take(i as int)).push(*t) =~= union_candidates(
                        types@.take(i as int),
                    ) + seq![*t]);
                }
            },
        }
        proof {
            assert(types@.take(i + 1).drop_last() =~= types@.take(i as int));
            lemma_add_all_concat(
                Seq::empty(),
                union_candidates(types@.take(i as int)),
                union_contribution(types@[i as int]),
            );
        }
        i = i + 1;
    }
    assert(types@.take(types@.len() as int) =~= types@);
    proof {
        lemma_add_all_distinct(Seq::empty(), union_candidates(types@));
        List::<Type>::lemma_from_seq(out@);
    }
    members_to_type(out)
}

/// The union of the given kinds; see [`spec_union_of_kinds`].
pub fn union_of_kinds(types: Vec<Type>) -> (r: Type)
    ensures
        r == spec_union_of_kinds(types@),
{
    let mut out: Vec<Type> = Vec::new();
    let mut i: usize = 0;
    while i < types.len()
        invariant
            i <= types@.len(),
            !types@.take(i as int).contains(Type::Unknown),
            out@ == distinct(kind_candidates(types@.take(i as int))),
        decreases types@.len() - i,
    {
        let t = &types[i];
        match t {
            Type::Union(items) => {
                add_non_void(&mut out, items);
            },
            Type::Unknown => {
                assert(types@.contains(Type::Unknown));
                return Type::Unknown;
            },
            Type::Void => {
                assert(kind_contribution(*t) =~= Seq::<Type>::empty());
            },
            _ => {
                add_distinct(&mut out, t);
                proof {
                    lemma_add_all_push(Seq::empty(), kind_candidates(types@.take(i as int)), *t);
                    assert(kind_candidates(types@.take(i as int)).push(*t) =~= kind_candidates(
                        types@.take(i as int),
                    ) + seq![*t]);
                }
            },
        }
        proof {
            assert(types@.take(i + 1).drop_last() =~= types@.take(i as int));
            lemma_add_all_concat(
                Seq::empty(),
                kind_candidates(types@.take(i as int)),
                kind_contribution(types@[i as int]),
            );
            assert forall|k: int| 0 <= k < i + 1 implies #[trigger] types@.take(i + 1)[k]
                != Type::Unknown by {
                if k < i && types@.take(i + 1)[k] == Type::Unknown {
                    assert(types@.take(i as int)[k] == Type::Unknown);
                    assert(types@.take(i as int).contains(Type::Unknown));
                }
            }
        }
        i = i + 1;
    }
    assert(types@.take(types@.len() as int) =~= types@);
    proof {
        lemma_add_all_distinct(Seq::empty(), kind_candidates(types@));
        List::<Type>::lemma_from_seq(out@);
    }
    members_to_type(out)
}

/// The items of `s` that do not occur in `removed`, in order.
pub open spec fn without(s: Seq<Type>, removed: Seq<Type>) -> Seq<Type>
    decreases s.len(),
{
    if s.len() == 0 {
        Seq::empty()
    } else if removed.contains(s[0]) {
        without(s.drop_first(), removed)
    } else {
        seq![s[0]] + without(s.drop_first(), removed)
    }
}

/// What subtracting a type removes from a union: the members of a union, or
/// the type itself.
pub open spec fn subtracted_members(t: Type) -> Seq<Type> {
    match t {
        Type::Union(items) => items.seq(),
        _ => seq![t],
    }
}

fn list_contains(l: &List<Type>, x: &Type) -> (r: bool)
    ensures
        r == l.seq().contains(*x),
    decreases l,
{
    match l {
        List::Nil => false,
        List::Cons(h, t) => {
            let found = same_type(h, x) || list_contains(t, x);
            proof {
                assert(l.seq()[0] == **h);
                if t.seq().contains(*x) {
                    let k = choose|k: int| 0 <= k < t.seq().len() && t.seq()[k] == *x;
                    assert(l.seq()[k + 1] == *x);
                }
                if l.seq().contains(*x) && **h != *x {
                    let k = choose|k: int| 0 <= k < l.seq().len() && l.seq()[k] == *x;
                    assert(k != 0);
                    assert(t.seq()[k - 1] == *x);
                }
                assert(l.seq()[0] == **h);
            }
            found
        },
    }
}

fn list_without(l: &List<Type>, removed: &List<Type>) -> (r: List<Type>)
    ensures
        r.seq() == without(l.seq(), removed.seq()),
    decreases l,
{
    match l {
        List::Nil => List::Nil,
        List::Cons(h, t) => {
            let rest = list_without(t, removed);
            proof {
                assert(l.seq().drop_first() =~= t.seq());
                assert(l.seq()[0] == **h);
            }
            if list_contains(removed, h) {
                rest
            } else {
                List::Cons(Box::new(copy_type(h)), Box::new(rest))
            }
        },
    }
}

/// The members of `from_union` that `type_to_remove` does not cover: the
/// members of a union to remove, or the type itself.
pub fn union_subtract(from_union: &List<Type>, type_to_remove: &Type) -> (r: List<Type>)
    ensures
        r.seq() == without(from_union.seq(), subtracted_members(*type_to_remove)),
{
    match type_to_remove {
        Type::Union(items) => list_without(from_union, items),
        _ => {
            let single = List::Cons(Box::new(copy_type(type_to_remove)), Box::new(List::Nil));
            proof {
                let nil = List::<Type>::Nil;
                assert(nil.seq() =~= Seq::<Type>::empty());
                assert(single.seq() =~= seq![*type_to_remove]);
            }
            list_without(from_union, &single)
        },
    }
}

} // verus!
