//! Finite relations between identifiers, held row by row in hash collections
//! and listed in ascending order.

use std::collections::HashMap;
use std::collections::HashSet;
use vstd::prelude::*;
use vstd::std_specs::iter::IteratorSpec;

verus! {

broadcast use vstd::std_specs::hash::group_hash_axioms;

/// Holds of the pairs whose first component is not `first`.
pub open spec fn first_is_not(first: u64) -> spec_fn((u64, u64)) -> bool {
    |p: (u64, u64)| p.0 != first
}

/// The order in which identifiers are listed.
pub open spec fn at_most() -> spec_fn(u64, u64) -> bool {
    |a: u64, b: u64| a <= b
}

/// The identifiers of `s`, the smallest first.
pub open spec fn ascending(s: Set<u64>) -> Seq<u64> {
    s.to_sorted_seq(at_most())
}

/// Each identifier of `v` is smaller than the next.
pub open spec fn strictly_ascending(v: Seq<u64>) -> bool {
    forall|i: int, j: int| 0 <= i < j < v.len() ==> v[i] < v[j]
}

/// `r` with `pair` entered.
pub open spec fn with_pair(r: Set<(u64, u64)>, pair: (u64, u64)) -> Set<(u64, u64)> {
    r.insert(pair)
}

/// `r` without `pair`.
pub open spec fn without_pair(r: Set<(u64, u64)>, pair: (u64, u64)) -> Set<(u64, u64)> {
    r.remove(pair)
}

/// `r` without the pairs that start with `first`.
pub open spec fn without_first(r: Set<(u64, u64)>, first: u64) -> Set<(u64, u64)> {
    r.filter(first_is_not(first))
}

/// What `first` is related to in `r`.
pub open spec fn members(r: Set<(u64, u64)>, first: u64) -> Set<u64> {
    Set::new(|second: u64| r.contains((first, second)))
}

/// What `first` is related to in `r`, the smallest first.
pub open spec fn seconds_of(r: Set<(u64, u64)>, first: u64) -> Seq<u64> {
    ascending(members(r, first))
}

/// Whether `first` is related to anything in `r`.
pub open spec fn has_first(r: Set<(u64, u64)>, first: u64) -> bool {
    exists|second: u64| r.contains((first, second))
}

/// Nothing is related to more than finitely many things.
pub open spec fn rows_finite(r: Set<(u64, u64)>) -> bool {
    forall|first: u64| #[trigger] members(r, first).finite()
}

/// A filtered sequence holds exactly the elements of the sequence that meet
/// the predicate, and repeats nothing that the sequence did not repeat.
pub proof fn lemma_filter_members<T>(s: Seq<T>, pred: spec_fn(T) -> bool)
    ensures
        forall|x: T| #[trigger] s.filter(pred).contains(x) <==> s.contains(x) && pred(x),
        s.no_duplicates() ==> s.filter(pred).no_duplicates(),
    decreases s.len(),
{
    reveal(Seq::filter);
    if s.len() > 0 {
        let rest = s.drop_last();
        let last = s.last();
        lemma_filter_members(rest, pred);
        assert(s =~= rest.push(last));
        assert forall|x: T| #[trigger] s.filter(pred).contains(x) <==> s.contains(x) && pred(
            x,
        ) by {
            if s.filter(pred).contains(x) {
                let i = choose|i: int| 0 <= i < s.filter(pred).len() && s.filter(pred)[i] == x;
                if pred(last) && i == rest.filter(pred).len() {
                    assert(s[s.len() - 1] == x);
                } else {
                    assert(rest.filter(pred)[i] == x);
                    assert(rest.filter(pred).contains(x));
                    let j = choose|j: int| 0 <= j < rest.len() && rest[j] == x;
                    assert(s[j] == x);
                }
            }
            if s.contains(x) && pred(x) {
                let j = choose|j: int| 0 <= j < s.len() && s[j] == x;
                if j == s.len() - 1 {
                    assert(s.filter(pred)[rest.filter(pred).len() as int] == x);
                } else {
                    assert(rest[j] == x);
                    assert(rest.filter(pred).contains(x));
                    let i = choose|i: int|
                        0 <= i < rest.filter(pred).len() && rest.filter(pred)[i] == x;
                    assert(s.filter(pred)[i] == x);
                }
            }
        }
        if s.no_duplicates() {
            assert(rest.no_duplicates());
            if pred(last) {
                assert(!rest.contains(last)) by {
                    if rest.contains(last) {
                        let j = choose|j: int| 0 <= j < rest.len() && rest[j] == last;
                        assert(s[j] == s[s.len() - 1]);
                    }
                }
                assert(!rest.filter(pred).contains(last));
            }
        }
    }
}

/// A predicate that no element meets filters everything out.
pub proof fn lemma_filter_none<T>(s: Seq<T>, pred: spec_fn(T) -> bool)
    requires
        forall|i: int| 0 <= i < s.len() ==> !pred(#[trigger] s[i]),
    ensures
        s.filter(pred) == Seq::<T>::empty(),
    decreases s.len(),
{
    reveal(Seq::filter);
    if s.len() > 0 {
        lemma_filter_none(s.drop_last(), pred);
    }
}

/// A finite set, listed by a total order, is listed whole, in that order and
/// without repetition.
pub proof fn lemma_sorted_listing<T>(s: Set<T>, leq: spec_fn(T, T) -> bool)
    requires
        s.finite(),
        vstd::relations::total_ordering(leq),
    ensures
        vstd::relations::sorted_by(s.to_sorted_seq(leq), leq),
        s.to_sorted_seq(leq).no_duplicates(),
        forall|x: T| #[trigger] s.to_sorted_seq(leq).contains(x) <==> s.contains(x),
{
    broadcast use vstd::seq_lib::group_to_multiset_ensures;
    broadcast use vstd::multiset::group_multiset_axioms;

    let u = s.to_seq();
    let a = s.to_sorted_seq(leq);
    s.lemma_to_seq_to_set_id();
    lemma_to_seq_no_duplicates(s);
    u.lemma_sort_by_ensures(leq);
    u.lemma_multiset_has_no_duplicates();
    a.lemma_multiset_has_no_duplicates_conv();
    assert forall|x: T| #[trigger] a.contains(x) <==> s.contains(x) by {
        assert(u.to_set().contains(x) <==> u.contains(x));
        assert(a.to_multiset().count(x) == u.to_multiset().count(x));
    }
}

/// A finite set is listed without repetition.
proof fn lemma_to_seq_no_duplicates<T>(s: Set<T>)
    requires
        s.finite(),
    ensures
        s.to_seq().no_duplicates(),
    decreases s.len(),
{
    broadcast use vstd::set::group_set_axioms;

    if s.len() > 0 {
        let x = s.choose();
        let rest = s.remove(x);
        lemma_to_seq_no_duplicates(rest);
        rest.lemma_to_seq_to_set_id();
        let r = rest.to_seq();
        assert(!r.contains(x)) by {
            if r.contains(x) {
                assert(r.to_set().contains(x));
            }
        }
        assert(s.to_seq() =~= seq![x] + r);
    }
}

/// A list of the elements of a set that follows a total order and repeats
/// nothing is the listing of the set by that order.
pub proof fn lemma_sorted_listing_is<T>(s: Set<T>, v: Seq<T>, leq: spec_fn(T, T) -> bool)
    requires
        vstd::relations::total_ordering(leq),
        vstd::relations::sorted_by(v, leq),
        v.no_duplicates(),
        forall|x: T| #[trigger] v.contains(x) <==> s.contains(x),
    ensures
        s.finite(),
        v == s.to_sorted_seq(leq),
{
    broadcast use vstd::seq_lib::group_to_multiset_ensures;
    broadcast use vstd::multiset::group_multiset_axioms;

    assert(v.to_set() =~= s);
    vstd::seq_lib::seq_to_set_is_finite(v);
    lemma_sorted_listing(s, leq);
    let a = s.to_sorted_seq(leq);
    v.lemma_multiset_has_no_duplicates();
    a.lemma_multiset_has_no_duplicates();
    assert(v.to_multiset() =~= a.to_multiset()) by {
        assert forall|x: T| v.to_multiset().count(x) == a.to_multiset().count(x) by {
            assert(v.contains(x) <==> a.contains(x));
        }
    }
    vstd::seq_lib::lemma_sorted_unique(v, a, leq);
}

/// A finite set of identifiers, listed in ascending order, is listed whole
/// and without repetition.
pub proof fn lemma_ascending(s: Set<u64>)
    requires
        s.finite(),
    ensures
        strictly_ascending(ascending(s)),
        ascending(s).no_duplicates(),
        forall|x: u64| #[trigger] ascending(s).contains(x) <==> s.contains(x),
{
    assert(vstd::relations::total_ordering(at_most()));
    lemma_sorted_listing(s, at_most());
    let a = ascending(s);
    assert forall|i: int, j: int| 0 <= i < j < a.len() implies a[i] < a[j] by {
        assert(at_most()(a[i], a[j]));
        assert(a[i] != a[j]);
    }
}

/// A strictly ascending list of the elements of a set is its listing in
/// ascending order.
pub proof fn lemma_ascending_is(s: Set<u64>, v: Seq<u64>)
    requires
        strictly_ascending(v),
        forall|x: u64| #[trigger] v.contains(x) <==> s.contains(x),
    ensures
        s.finite(),
        v == ascending(s),
{
    assert(vstd::relations::total_ordering(at_most()));
    assert(vstd::relations::sorted_by(v, at_most()));
    lemma_sorted_listing_is(s, v, at_most());
}

/// Entering a pair adds that pair and nothing else.
pub proof fn lemma_with_pair(r: Set<(u64, u64)>, pair: (u64, u64))
    ensures
        forall|p: (u64, u64)| #[trigger]
            with_pair(r, pair).contains(p) <==> r.contains(p) || p == pair,
        rows_finite(r) ==> rows_finite(with_pair(r, pair)),
{
    if rows_finite(r) {
        assert forall|first: u64| #[trigger] members(with_pair(r, pair), first).finite() by {
            assert(members(r, first).finite());
            if first == pair.0 {
                assert(members(with_pair(r, pair), first) =~= members(r, first).insert(pair.1));
            } else {
                assert(members(with_pair(r, pair), first) =~= members(r, first));
            }
        }
    }
}

/// Taking a pair out removes that pair and nothing else.
pub proof fn lemma_without_pair(r: Set<(u64, u64)>, pair: (u64, u64))
    ensures
        forall|p: (u64, u64)| #[trigger]
            without_pair(r, pair).contains(p) <==> r.contains(p) && p != pair,
        rows_finite(r) ==> rows_finite(without_pair(r, pair)),
        !r.contains(pair) ==> without_pair(r, pair) == r,
{
    if rows_finite(r) {
        assert forall|first: u64| #[trigger] members(without_pair(r, pair), first).finite() by {
            assert(members(r, first).finite());
            if first == pair.0 {
                assert(members(without_pair(r, pair), first) =~= members(r, first).remove(
                    pair.1,
                ));
            } else {
                assert(members(without_pair(r, pair), first) =~= members(r, first));
            }
        }
    }
    if !r.contains(pair) {
        assert(without_pair(r, pair) =~= r);
    }
}

/// Taking out what starts with `first` removes those pairs and nothing else.
pub proof fn lemma_without_first(r: Set<(u64, u64)>, first: u64)
    ensures
        forall|p: (u64, u64)| #[trigger]
            without_first(r, first).contains(p) <==> r.contains(p) && p.0 != first,
        rows_finite(r) ==> rows_finite(without_first(r, first)),
        seconds_of(without_first(r, first), first).len() == 0,
        !has_first(without_first(r, first), first),
        !has_first(r, first) ==> without_first(r, first) == r,
{
    let w = without_first(r, first);
    if rows_finite(r) {
        assert forall|other: u64| #[trigger] members(w, other).finite() by {
            assert(members(r, other).finite());
            if other == first {
                assert(members(w, other) =~= Set::<u64>::empty());
            } else {
                assert(members(w, other) =~= members(r, other));
            }
        }
    }
    assert(members(w, first) =~= Set::<u64>::empty());
    lemma_ascending(Set::<u64>::empty());
    let listed = ascending(Set::<u64>::empty());
    if listed.len() > 0 {
        assert(listed.contains(listed[0]));
    }
    if !has_first(r, first) {
        assert forall|p: (u64, u64)| r.contains(p) implies p.0 != first by {
            if p.0 == first {
                assert(r.contains((first, p.1)));
            }
        }
        assert(w =~= r);
    }
}

/// `seconds_of` lists exactly what `first` is related to, each once, the
/// smallest first.
pub proof fn lemma_seconds_of(r: Set<(u64, u64)>, first: u64)
    requires
        rows_finite(r),
    ensures
        forall|b: u64| #[trigger] seconds_of(r, first).contains(b) <==> r.contains((first, b)),
        seconds_of(r, first).no_duplicates(),
        strictly_ascending(seconds_of(r, first)),
        has_first(r, first) <==> seconds_of(r, first).len() > 0,
{
    assert(members(r, first).finite());
    lemma_ascending(members(r, first));
    let listed = seconds_of(r, first);
    if listed.len() > 0 {
        assert(listed.contains(listed[0]));
        assert(r.contains((first, listed[0])));
    }
    if has_first(r, first) {
        let b = choose|b: u64| r.contains((first, b));
        assert(listed.contains(b));
    }
}

/// Puts `x` in its place in a strictly ascending list, unless it is there.
fn insert_sorted(sorted: &mut Vec<u64>, x: u64)
    requires
        strictly_ascending(old(sorted)@),
    ensures
        strictly_ascending(final(sorted)@),
        forall|y: u64| #[trigger]
            final(sorted)@.contains(y) <==> old(sorted)@.contains(y) || y == x,
{
    let mut i: usize = 0;
    while i < sorted.len() && sorted[i] < x
        invariant
            i <= sorted@.len(),
            sorted@ == old(sorted)@,
            forall|j: int| 0 <= j < i ==> sorted@[j] < x,
        decreases sorted@.len() - i,
    {
        i += 1;
    }
    if i < sorted.len() && sorted[i] == x {
        assert(sorted@.contains(x));
    } else {
        sorted.insert(i, x);
        assert forall|y: u64| #[trigger] sorted@.contains(y) <==> old(sorted)@.contains(y) || y
            == x by {
            if sorted@.contains(y) {
                let k = choose|k: int| 0 <= k < sorted@.len() && sorted@[k] == y;
                if k < i {
                    assert(old(sorted)@[k] == y);
                } else if k > i {
                    assert(old(sorted)@[k - 1] == y);
                }
            }
            if old(sorted)@.contains(y) {
                let k = choose|k: int| 0 <= k < old(sorted)@.len() && old(sorted)@[k] == y;
                if k < i {
                    assert(sorted@[k] == y);
                } else {
                    assert(sorted@[k + 1] == y);
                }
            }
            if y == x {
                assert(sorted@[i as int] == y);
            }
        }
    }
}

/// The identifiers of `set`, the smallest first.
fn sorted_members(set: &HashSet<u64>) -> (r: Vec<u64>)
    ensures
        set@.finite(),
        r@ == ascending(set@),
{
    let mut sorted: Vec<u64> = Vec::new();
    for x in iter: set.iter()
        invariant
            iter.seq() == vstd::std_specs::hash::spec_hash_keys_iter(set).remaining(),
            strictly_ascending(sorted@),
            forall|y: u64| #[trigger]
                sorted@.contains(y) <==> exists|i: int|
                    0 <= i < iter.index() && *(#[trigger] iter.seq()[i]) == y,
    {
        insert_sorted(&mut sorted, *x);
    }
    proof {
        let walked = vstd::std_specs::hash::spec_hash_keys_iter(set).remaining();
        assert(walked.unref().to_set() == set@);
        assert forall|y: u64| #[trigger] sorted@.contains(y) <==> set@.contains(y) by {
            if sorted@.contains(y) {
                let i = choose|i: int| 0 <= i < walked.len() && *(#[trigger] walked[i]) == y;
                assert(walked.unref()[i] == y);
                assert(walked.unref().to_set().contains(y));
            }
            if set@.contains(y) {
                assert(walked.unref().to_set().contains(y));
                let i = choose|i: int| 0 <= i < walked.unref().len() && walked.unref()[i] == y;
                assert(*walked[i] == y);
            }
        }
        lemma_ascending_is(set@, sorted@);
    }
    sorted
}

/// A finite relation between identifiers: for each identifier, the set of
/// those it is related to.
pub struct Relation {
    rows: HashMap<u64, HashSet<u64>>,
}

impl Relation {
    /// The pairs of the relation.
    pub closed spec fn view(&self) -> Set<(u64, u64)> {
        Set::new(
            |p: (u64, u64)| self.rows@.contains_key(p.0) && self.rows@[p.0]@.contains(p.1),
        )
    }

    /// Nothing is related to more than finitely many things.
    pub proof fn lemma_rows_finite(&self)
        ensures
            rows_finite(self@),
    {
        assert forall|first: u64| #[trigger] members(self@, first).finite() by {
            if self.rows@.contains_key(first) {
                let row = self.rows@[first];
                let walked = vstd::std_specs::hash::spec_hash_keys_iter(&row).remaining();
                assert(walked.unref().to_set() == row@);
                vstd::seq_lib::seq_to_set_is_finite(walked.unref());
                assert(members(self@, first) =~= row@);
            } else {
                assert(members(self@, first) =~= Set::<u64>::empty());
            }
        }
    }

    /// The empty relation.
    pub fn new() -> (r: Self)
        ensures
            r@ == Set::<(u64, u64)>::empty(),
    {
        let r = Relation { rows: HashMap::new() };
        assert(r@ =~= Set::<(u64, u64)>::empty());
        r
    }

    /// Whether `first` is related to `second`.
    pub fn contains(&self, first: u64, second: u64) -> (r: bool)
        ensures
            r == self@.contains((first, second)),
    {
        match self.rows.get(&first) {
            Some(row) => row.contains(&second),
            None => false,
        }
    }

    /// Relates `first` to `second`.
    pub fn insert(&mut self, first: u64, second: u64)
        ensures
            final(self)@ == with_pair(old(self)@, (first, second)),
    {
        let mut row = match self.rows.remove(&first) {
            Some(row) => row,
            None => HashSet::new(),
        };
        row.insert(second);
        self.rows.insert(first, row);
        assert(self@ =~= with_pair(old(self)@, (first, second)));
    }

    /// Parts `first` from `second`. Nothing is kept for an identifier that is
    /// related to nothing any more.
    pub fn remove(&mut self, first: u64, second: u64)
        ensures
            final(self)@ == without_pair(old(self)@, (first, second)),
    {
        match self.rows.remove(&first) {
            Some(row) => {
                let mut row = row;
                let ghost before = row@;
                row.remove(&second);
                if !row.is_empty() {
                    self.rows.insert(first, row);
                } else {
                    assert forall|x: u64| before.contains(x) implies x == second by {
                        if x != second {
                            assert(row@.contains(x));
                        }
                    }
                }
            },
            None => {},
        }
        assert(self@ =~= without_pair(old(self)@, (first, second)));
    }

    /// Parts `first` from everything, and returns what it was related to,
    /// the smallest first.
    pub fn remove_first(&mut self, first: u64) -> (r: Vec<u64>)
        ensures
            final(self)@ == without_first(old(self)@, first),
            r@ == seconds_of(old(self)@, first),
    {
        let found = self.seconds(first);
        self.rows.remove(&first);
        assert(self@ =~= without_first(old(self)@, first));
        found
    }

    /// What `first` is related to, the smallest first.
    pub fn seconds(&self, first: u64) -> (r: Vec<u64>)
        ensures
            r@ == seconds_of(self@, first),
    {
        match self.rows.get(&first) {
            Some(row) => {
                let found = sorted_members(row);
                assert(members(self@, first) =~= row@);
                found
            },
            None => {
                let found: Vec<u64> = Vec::new();
                proof {
                    assert(members(self@, first) =~= Set::<u64>::empty());
                    lemma_ascending_is(Set::<u64>::empty(), found@);
                }
                found
            },
        }
    }
}

} // verus!
