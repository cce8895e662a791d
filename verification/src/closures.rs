//! Closures: passing them to functions, returning them, and storing one in a
//! struct that caches its results by argument.
use std::collections::HashMap;
use vstd::prelude::*;

verus! {

/// Calls a closure that may be called once.
pub fn call_with_fn_once<F: FnOnce()>(f: F)
    requires
        call_requires(f, ()),
    ensures
        call_ensures(f, (), ()),
{
    f()
}

/// Applies `f` to `x` (a generic parameter bounded by `Fn`).
pub fn apply<F>(f: F, x: i32) -> (r: i32)
    where
        F: Fn(i32) -> i32,
    requires
        call_requires(f, (x,)),
    ensures
        call_ensures(f, (x,), r),
{
    f(x)
}

/// Applies `f` to `x` (an `impl Fn` parameter).
pub fn apply_simple(f: impl Fn(i32) -> i32, x: i32) -> (r: i32)
    requires
        call_requires(f, (x,)),
    ensures
        call_ensures(f, (x,), r),
{
    f(x)
}

/// Three times `x`.
pub fn triple(x: i32) -> (r: i32)
    requires
        i32::MIN <= 3 * x <= i32::MAX,
    ensures
        r == 3 * x,
{
    x * 3
}

/// A closure that adds `x` to its argument; it owns its copy of `x`.
pub fn make_adder(x: i32) -> (f: impl Fn(i32) -> i32)
    ensures
        forall|y: i32| i32::MIN <= x + y <= i32::MAX ==> call_requires(f, (y,)),
        forall|y: i32, r: i32| call_ensures(f, (y,), r) ==> r == x + y,
{
    move |y: i32| -> (r: i32)
        requires
            i32::MIN <= x + y <= i32::MAX,
        ensures
            r == x + y,
        { x + y }
}

/// Maps `callback` over `data`, consuming it.
pub fn process<F>(data: Vec<i32>, callback: F) -> (r: Vec<i32>)
    where
        F: Fn(i32) -> i32,
    requires
        forall|i: int| 0 <= i < data@.len() ==> call_requires(callback, (#[trigger] data@[i],)),
    ensures
        r@.len() == data@.len(),
        forall|i: int| 0 <= i < data@.len() ==> call_ensures(callback, (data@[i],), #[trigger] r@[i]),
{
    let mut r: Vec<i32> = Vec::new();
    let mut i: usize = 0;
    while i < data.len()
        invariant
            i <= data@.len(),
            r@.len() == i,
            forall|j: int| 0 <= j < data@.len() ==> call_requires(callback, (#[trigger] data@[j],)),
            forall|j: int| 0 <= j < i ==> call_ensures(callback, (data@[j],), #[trigger] r@[j]),
        decreases data@.len() - i,
    {
        let v = callback(data[i]);
        r.push(v);
        i = i + 1;
    }
    r
}

/// `s` with `p` inserted after the last element, counted from the back, whose
/// age is at most that of `p`: one step of a stable insertion sort by age.
pub open spec fn insert_by_age<'a>(s: Seq<(&'a str, i32)>, p: (&'a str, i32)) -> Seq<(&'a str, i32)>
    decreases s.len(),
{
    if s.len() == 0 {
        seq![p]
    } else if s.last().1 <= p.1 {
        s.push(p)
    } else {
        insert_by_age(s.drop_last(), p).push(s.last())
    }
}

/// `s` stably sorted by age: people of equal age keep their relative order.
pub open spec fn sorted_by_age<'a>(s: Seq<(&'a str, i32)>) -> Seq<(&'a str, i32)>
    decreases s.len(),
{
    if s.len() == 0 {
        s
    } else {
        insert_by_age(sorted_by_age(s.drop_last()), s.last())
    }
}

/// Whether the ages in `s` never decrease.
pub open spec fn ages_ascending<'a>(s: Seq<(&'a str, i32)>) -> bool {
    forall|i: int, j: int| 0 <= i < j < s.len() ==> (#[trigger] s[i]).1 <= (#[trigger] s[j]).1
}

proof fn lemma_insert_by_age_split<'a>(s: Seq<(&'a str, i32)>, p: (&'a str, i32), k: int)
    requires
        0 <= k <= s.len(),
        forall|j: int| k <= j < s.len() ==> (#[trigger] s[j]).1 > p.1,
        k == 0 || s[k - 1].1 <= p.1,
    ensures
        insert_by_age(s, p) == s.take(k).push(p) + s.skip(k),
    decreases s.len(),
{
    if s.len() == 0 {
        assert(s.take(k).push(p) + s.skip(k) =~= seq![p]);
    } else if s.last().1 <= p.1 {
        assert(k == s.len());
        assert(s.take(k).push(p) + s.skip(k) =~= s.push(p));
    } else {
        let d = s.drop_last();
        lemma_insert_by_age_split(d, p, k);
        assert(d.take(k).push(p) + d.skip(k) + seq![s.last()] =~= s.take(k).push(p) + s.skip(k));
    }
}

proof fn lemma_insert_by_age_keeps<'a>(s: Seq<(&'a str, i32)>, p: (&'a str, i32))
    ensures
        insert_by_age(s, p).to_multiset() == s.to_multiset().insert(p),
        ages_ascending(s) ==> ages_ascending(insert_by_age(s, p)),
        insert_by_age(s, p).len() == s.len() + 1,
        forall|x| #[trigger] insert_by_age(s, p).contains(x) ==> x == p || s.contains(x),
    decreases s.len(),
{
    broadcast use vstd::seq_lib::group_to_multiset_ensures;
    if s.len() == 0 {
        assert(seq![p] =~= Seq::<(&'a str, i32)>::empty().push(p));
    } else if s.last().1 <= p.1 {
    } else {
        let d = s.drop_last();
        lemma_insert_by_age_keeps(d, p);
        assert(d.push(s.last()) =~= s);
        let t = insert_by_age(d, p);
        assert(t.to_multiset().insert(s.last()) =~= s.to_multiset().insert(p));
        if ages_ascending(s) {
            assert(ages_ascending(d));
            assert forall|i: int, j: int| 0 <= i < j < t.push(s.last()).len() implies
                (#[trigger] t.push(s.last())[i]).1 <= (#[trigger] t.push(s.last())[j]).1 by {
                if j == t.len() {
                    let x = t[i];
                    assert(t.contains(x));
                    if x != p {
                        let m = choose|m: int| 0 <= m < d.len() && d[m] == x;
                        assert(s[m] == x);
                    }
                }
            }
        }
        assert forall|x| #[trigger] t.push(s.last()).contains(x) implies x == p || s.contains(x) by {
            if x != s.last() {
                assert(t.contains(x));
                if x != p {
                    let m = choose|m: int| 0 <= m < d.len() && d[m] == x;
                    assert(s[m] == x);
                }
            } else {
                assert(s[s.len() - 1] == x);
            }
        }
    }
}

/// Sorting by age gives a permutation of its input whose ages never decrease.
pub proof fn law_sort_by_age_sorts<'a>(s: Seq<(&'a str, i32)>)
    ensures
        sorted_by_age(s).to_multiset() == s.to_multiset(),
        ages_ascending(sorted_by_age(s)),
    decreases s.len(),
{
    broadcast use vstd::seq_lib::group_to_multiset_ensures;
    if s.len() > 0 {
        let d = s.drop_last();
        law_sort_by_age_sorts(d);
        lemma_insert_by_age_keeps(sorted_by_age(d), s.last());
        assert(d.push(s.last()) =~= s);
    }
}

/// Whether a person has age `a`.
pub open spec fn has_age<'a>(a: i32) -> spec_fn((&'a str, i32)) -> bool {
    |p: (&'a str, i32)| p.1 == a
}

proof fn lemma_insert_by_age_filter<'a>(t: Seq<(&'a str, i32)>, p: (&'a str, i32), a: i32)
    ensures
        insert_by_age(t, p).filter(has_age(a)) == (if p.1 == a {
            t.filter(has_age(a)).push(p)
        } else {
            t.filter(has_age(a))
        }),
    decreases t.len(),
{
    reveal(Seq::filter);
    if t.len() == 0 {
        assert(seq![p].drop_last() =~= t);
        assert(t.filter(has_age(a)) =~= t);
    } else if t.last().1 <= p.1 {
        assert(t.push(p).drop_last() =~= t);
    } else {
        let d = t.drop_last();
        lemma_insert_by_age_filter(d, p, a);
        let u = insert_by_age(d, p);
        assert(u.push(t.last()).drop_last() =~= u);
    }
}

/// Sorting by age is stable: for every age, the people of that age appear in
/// the output in exactly the order they had in the input.
pub proof fn law_sort_by_age_is_stable<'a>(s: Seq<(&'a str, i32)>, a: i32)
    ensures
        sorted_by_age(s).filter(has_age(a)) == s.filter(has_age(a)),
    decreases s.len(),
{
    reveal(Seq::filter);
    if s.len() > 0 {
        let d = s.drop_last();
        law_sort_by_age_is_stable(d, a);
        lemma_insert_by_age_filter(sorted_by_age(d), s.last(), a);
    }
}

/// Sorts by age in place, stably, as `sort_by` with a comparison of the ages does.
pub fn sort_by_age(people: &mut Vec<(&str, i32)>)
    ensures
        final(people)@ == sorted_by_age(old(people)@),
        final(people)@.to_multiset() == old(people)@.to_multiset(),
        ages_ascending(final(people)@),
        forall|a: i32| #[trigger] final(people)@.filter(has_age(a)) == old(people)@.filter(has_age(a)),
{
    let ghost orig = people@;
    let mut out: Vec<(&str, i32)> = Vec::new();
    let n = people.len();
    let mut i: usize = 0;
    while i < n
        invariant
            n == orig.len(),
            people@ == orig,
            i <= n,
            out@ == sorted_by_age(orig.take(i as int)),
        decreases n - i,
    {
        let p = people[i];
        let mut k: usize = out.len();
        while k > 0 && out[k - 1].1 > p.1
            invariant
                k <= out@.len(),
                forall|j: int| k <= j < out@.len() ==> (#[trigger] out@[j]).1 > p.1,
            decreases k,
        {
            k = k - 1;
        }
        proof {
            lemma_insert_by_age_split(out@, p, k as int);
            assert(orig.take(i + 1).drop_last() =~= orig.take(i as int));
        }
        out.insert(k, p);
        assert(out@ =~= sorted_by_age(orig.take(i + 1)));
        i = i + 1;
    }
    proof {
        assert(orig.take(n as int) =~= orig);
        law_sort_by_age_sorts(orig);
        assert forall|a: i32| #[trigger] out@.filter(has_age(a)) == orig.filter(has_age(a)) by {
            law_sort_by_age_is_stable(orig, a);
        }
    }
    *people = out;
}

/// Holds a computation and the results it has given, keyed by argument.
pub struct Cacher<T>
    where
        T: Fn(u32) -> u32,
{
    calculation: T,
    value: HashMap<u32, u32>,
}

impl<T> Cacher<T>
    where
        T: Fn(u32) -> u32,
{
    /// Every cached result is one the computation can give for its key.
    #[verifier::type_invariant]
    spec fn results_come_from_calculation(self) -> bool {
        forall|k: u32|
            #[trigger] self.value@.contains_key(k) ==> call_ensures(
                self.calculation,
                (k,),
                self.value@[k],
            )
    }

    /// The stored computation.
    pub closed spec fn calculation(&self) -> T {
        self.calculation
    }

    /// The results computed so far, by argument.
    pub closed spec fn cache(&self) -> Map<u32, u32> {
        self.value@
    }

    /// A cacher for `calculation` that has computed nothing yet.
    pub fn new(calculation: T) -> (c: Cacher<T>)
        ensures
            c.calculation() == calculation,
            c.cache() == Map::<u32, u32>::empty(),
    {
        Cacher { calculation, value: HashMap::new() }
    }

    /// The cached result for `arg` if there is one (the computation is not
    /// run then); otherwise runs the computation on `arg`, caches the result
    /// under `arg` and returns it. Either way the result is one the
    /// computation gives for `arg`.
    pub fn value(&mut self, arg: u32) -> (r: u32)
        requires
            !old(self).cache().contains_key(arg) ==> call_requires(
                old(self).calculation(),
                (arg,),
            ),
        ensures
            final(self).calculation() == old(self).calculation(),
            call_ensures(old(self).calculation(), (arg,), r),
            old(self).cache().contains_key(arg) ==> r == old(self).cache()[arg],
            old(self).cache().contains_key(arg) ==> final(self).cache() == old(self).cache(),
            !old(self).cache().contains_key(arg) ==> final(self).cache() == old(self).cache().insert(arg, r),
    {
        proof {
            use_type_invariant(&*self);
        }
        broadcast use vstd::std_specs::hash::group_hash_axioms;

        let cached: Option<u32> = match self.value.get(&arg) {
            Some(v) => Some(*v),
            None => None,
        };
        match cached {
            Some(v) => v,
            None => {
                let v = (self.calculation)(arg);
                let mut results: HashMap<u32, u32> = HashMap::new();
                std::mem::swap(&mut results, &mut self.value);
                results.insert(arg, v);
                self.value = results;
                v
            },
        }
    }
}

} // verus!
