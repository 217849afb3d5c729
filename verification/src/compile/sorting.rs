use vstd::prelude::*;
use vstd::string::StrSliceExecFns;

verus! {

broadcast use vstd::seq_lib::group_to_multiset_ensures;

/// The texts of `v`.
pub open spec fn views(v: Seq<String>) -> Seq<Seq<char>> {
    Seq::new(v.len(), |i: int| v[i]@)
}

/// Lexicographic order of texts by code point, a prefix coming first.
pub open spec fn lex_le(a: Seq<char>, b: Seq<char>) -> bool
    decreases a.len(),
{
    if a.len() == 0 {
        true
    } else if b.len() == 0 {
        false
    } else if (a[0] as u32) < (b[0] as u32) {
        true
    } else if (a[0] as u32) > (b[0] as u32) {
        false
    } else {
        lex_le(a.drop_first(), b.drop_first())
    }
}

/// Whether the texts are in lexicographic order.
pub open spec fn sorted(s: Seq<Seq<char>>) -> bool {
    forall|i: int, j: int| 0 <= i < j < s.len() ==> lex_le(#[trigger] s[i], #[trigger] s[j])
}

/// Of two texts, one comes first.
pub proof fn lemma_lex_total(a: Seq<char>, b: Seq<char>)
    ensures
        lex_le(a, b) || lex_le(b, a),
    decreases a.len(),
{
    if a.len() > 0 && b.len() > 0 && (a[0] as u32) == (b[0] as u32) {
        lemma_lex_total(a.drop_first(), b.drop_first());
    }
}

/// The lexicographic order is transitive.
pub proof fn lemma_lex_transitive(a: Seq<char>, b: Seq<char>, c: Seq<char>)
    requires
        lex_le(a, b),
        lex_le(b, c),
    ensures
        lex_le(a, c),
    decreases a.len(),
{
    if a.len() > 0 && b.len() > 0 && c.len() > 0 && (a[0] as u32) == (b[0] as u32) && (b[0] as u32)
        == (c[0] as u32) {
        lemma_lex_transitive(a.drop_first(), b.drop_first(), c.drop_first());
    }
}

/// Whether `a` comes no later than `b`.
fn text_le(a: &str, b: &str) -> (r: bool)
    ensures
        r == lex_le(a@, b@),
{
    let na = a.unicode_len();
    let nb = b.unicode_len();
    let mut i: usize = 0;
    assert(a@.skip(0) =~= a@);
    assert(b@.skip(0) =~= b@);
    while i < na && i < nb
        invariant
            i <= na,
            i <= nb,
            na == a@.len(),
            nb == b@.len(),
            lex_le(a@, b@) == lex_le(a@.skip(i as int), b@.skip(i as int)),
        decreases na - i,
    {
        let ca = a.get_char(i);
        let cb = b.get_char(i);
        assert(a@.skip(i as int)[0] == ca);
        assert(b@.skip(i as int)[0] == cb);
        if (ca as u32) < (cb as u32) {
            return true;
        }
        if (ca as u32) > (cb as u32) {
            return false;
        }
        assert(a@.skip(i as int).drop_first() =~= a@.skip(i + 1));
        assert(b@.skip(i as int).drop_first() =~= b@.skip(i + 1));
        i = i + 1;
    }
    i == na
}

/// The texts of `v` in lexicographic order.
pub fn sort_texts(v: Vec<String>) -> (r: Vec<String>)
    ensures
        sorted(views(r@)),
        views(r@).to_multiset() == views(v@).to_multiset(),
{
    let mut out: Vec<String> = Vec::new();
    let mut rest = v;
    let ghost orig = views(rest@);
    assert(views(out@).to_multiset() =~= vstd::multiset::Multiset::<Seq<char>>::empty());
    assert(views(rest@).to_multiset() =~= orig.to_multiset());
    while rest.len() > 0
        invariant
            sorted(views(out@)),
            views(out@).to_multiset().add(views(rest@).to_multiset()) == orig.to_multiset(),
        decreases rest@.len(),
    {
        let ghost before_rest = views(rest@);
        let x = rest.pop().unwrap();
        proof {
            assert(before_rest =~= views(rest@).push(x@));
        }
        let mut p: usize = 0;
        while p < out.len() && text_le(out[p].as_str(), x.as_str())
            invariant
                p <= out@.len(),
                forall|j: int| 0 <= j < p ==> lex_le(#[trigger] out@[j]@, x@),
            decreases out@.len() - p,
        {
            p = p + 1;
        }
        let ghost before = views(out@);
        proof {
            assert forall|j: int| p <= j < before.len() implies lex_le(x@, #[trigger] before[j]) by {
                assert(!lex_le(before[p as int], x@));
                lemma_lex_total(before[p as int], x@);
                if j > p {
                    lemma_lex_transitive(x@, before[p as int], before[j]);
                }
            }
        }
        out.insert(p, x);
        proof {
            assert(views(out@) =~= before.insert(p as int, x@));
            vstd::seq_lib::to_multiset_insert(before, p as int, x@);
            assert forall|i: int, j: int| 0 <= i < j < views(out@).len() implies lex_le(
                #[trigger] views(out@)[i],
                #[trigger] views(out@)[j],
            ) by {
                let s = views(out@);
                if j < p {
                } else if j == p {
                    assert(s[i] == before[i]);
                } else if i < p {
                    assert(s[i] == before[i]);
                    assert(s[j] == before[j - 1]);
                    lemma_lex_transitive(before[i], x@, before[j - 1]);
                } else if i == p {
                    assert(s[j] == before[j - 1]);
                } else {
                    assert(s[i] == before[i - 1]);
                    assert(s[j] == before[j - 1]);
                }
            }
            assert(views(out@).to_multiset().add(views(rest@).to_multiset()) =~= orig.to_multiset());
        }
    }
    proof {
        assert(views(rest@).to_multiset() =~= vstd::multiset::Multiset::<Seq<char>>::empty());
        assert(views(out@).to_multiset() =~= views(out@).to_multiset().add(views(rest@).to_multiset()));
    }
    out
}

} // verus!
