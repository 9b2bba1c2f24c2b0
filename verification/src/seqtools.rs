use vstd::prelude::*;
use vstd::multiset::Multiset;

verus! {

/// Index of the first element of `s` satisfying `pred`, if any.
pub open spec fn first_match_index<T>(s: Seq<T>, pred: spec_fn(T) -> bool) -> Option<int>
    decreases s.len(),
{
    if s.len() == 0 {
        None
    } else if pred(s[0]) {
        Some(0)
    } else {
        match first_match_index(s.drop_first(), pred) {
            Option::None => None,
            Option::Some(i) => Some(i + 1),
        }
    }
}

/// A position that matches, with nothing matching before it, is what
/// `first_match_index` returns.
pub proof fn lemma_first_match_index_is<T>(s: Seq<T>, pred: spec_fn(T) -> bool, i: int)
    requires
        0 <= i < s.len(),
        pred(s[i]),
        forall|j: int| 0 <= j < i ==> !pred(s[j]),
    ensures
        first_match_index(s, pred) == Some(i),
    decreases s.len(),
{
    if i > 0 {
        let rest = s.drop_first();
        assert(rest[i - 1] == s[i]);
        assert forall|j: int| 0 <= j < i - 1 implies !pred(rest[j]) by {
            assert(rest[j] == s[j + 1]);
        }
        lemma_first_match_index_is(rest, pred, i - 1);
    }
}

/// When nothing matches, `first_match_index` says so.
pub proof fn lemma_first_match_index_none<T>(s: Seq<T>, pred: spec_fn(T) -> bool)
    requires
        forall|j: int| 0 <= j < s.len() ==> !pred(s[j]),
    ensures
        first_match_index(s, pred) is None,
    decreases s.len(),
{
    if s.len() > 0 {
        let rest = s.drop_first();
        assert forall|j: int| 0 <= j < rest.len() implies !pred(rest[j]) by {
            assert(rest[j] == s[j + 1]);
        }
        lemma_first_match_index_none(rest, pred);
    }
}

/// Filtering a sequence extended by one element keeps the element exactly
/// when the predicate holds of it.
pub proof fn lemma_filter_push<T>(s: Seq<T>, pred: spec_fn(T) -> bool, x: T)
    ensures
        pred(x) ==> s.push(x).filter(pred) == s.filter(pred).push(x),
        !pred(x) ==> s.push(x).filter(pred) == s.filter(pred),
{
    reveal(Seq::filter);
    assert(s.push(x).drop_last() =~= s);
    assert(s.push(x).last() == x);
}

/// The step a filtering loop takes: extending the processed prefix by one
/// element extends the filtered output exactly when the predicate holds.
pub proof fn lemma_filter_take_step<T>(s: Seq<T>, pred: spec_fn(T) -> bool, i: int)
    requires
        0 <= i < s.len(),
    ensures
        pred(s[i]) ==> s.take(i + 1).filter(pred) == s.take(i).filter(pred).push(s[i]),
        !pred(s[i]) ==> s.take(i + 1).filter(pred) == s.take(i).filter(pred),
{
    assert(s.take(i + 1) =~= s.take(i).push(s[i]));
    lemma_filter_push(s.take(i), pred, s[i]);
}

/// Moving one occurrence of an element from one multiset into another leaves
/// their combined contents unchanged.
pub proof fn lemma_multiset_transfer<T>(t: Multiset<T>, s: Multiset<T>, m: T)
    requires
        s.count(m) >= 1,
    ensures
        t.insert(m).add(s.remove(m)) == t.add(s),
{
    broadcast use vstd::multiset::group_multiset_axioms;

    assert(t.insert(m).add(s.remove(m)) =~= t.add(s));
}

/// A filter that keeps every element changes nothing.
pub proof fn lemma_filter_all_kept<T>(s: Seq<T>, pred: spec_fn(T) -> bool)
    requires
        forall|j: int| 0 <= j < s.len() ==> pred(s[j]),
    ensures
        s.filter(pred) == s,
    decreases s.len(),
{
    reveal(Seq::filter);
    if s.len() > 0 {
        let rest = s.drop_last();
        assert(forall|j: int| 0 <= j < rest.len() ==> rest[j] == s[j]);
        lemma_filter_all_kept(rest, pred);
        assert(s.filter(pred) =~= s);
    }
}

} // verus!
