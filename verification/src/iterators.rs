//! Iterators: a hand-written counter, and the adapters, consumers and common
//! patterns of the standard iterator API, each over a slice of integers.
use vstd::prelude::*;
use crate::text::{chars_of, parsed_i32, parse_i32};

verus! {

broadcast use vstd::seq_lib::group_seq_properties;

/// Counts 1, 2, ..., `max`, then stops.
pub struct Counter {
    count: usize,
    max: usize,
}

impl Counter {
    /// How many numbers it has produced.
    pub closed spec fn count(&self) -> usize {
        self.count
    }

    /// The last number it produces.
    pub closed spec fn max(&self) -> usize {
        self.max
    }

    /// It never counts past `max`.
    pub closed spec fn wf(&self) -> bool {
        self.count <= self.max
    }

    /// A counter that will produce 1 to `max`.
    pub fn new(max: usize) -> (c: Counter)
        ensures
            c.wf(),
            c.count() == 0,
            c.max() == max,
    {
        Counter { count: 0, max }
    }

    /// The next number, or `None` once `max` has been produced (and on every
    /// call after that).
    pub fn next(&mut self) -> (r: Option<usize>)
        requires
            old(self).wf(),
        ensures
            final(self).wf(),
            final(self).max() == old(self).max(),
            old(self).count() < old(self).max() ==> (r matches Some(v) && v == old(self).count() + 1)
                && final(self).count() == old(self).count() + 1,
            old(self).count() == old(self).max() ==> r is None && final(self).count() == old(self).count(),
    {
        if self.count < self.max {
            self.count += 1;
            Some(self.count)
        } else {
            None
        }
    }

    /// All the numbers it still produces, in order: `count + 1, ..., max`.
    pub fn collect_all(&mut self) -> (r: Vec<usize>)
        requires
            old(self).wf(),
        ensures
            final(self).wf(),
            final(self).max() == old(self).max(),
            final(self).count() == old(self).max(),
            r@.len() == old(self).max() - old(self).count(),
            forall|i: int| 0 <= i < r@.len() ==> r@[i] == old(self).count() + i + 1,
    {
        let mut r: Vec<usize> = Vec::new();
        let ghost start = self.count;
        loop
            invariant
                self.wf(),
                self.max() == old(self).max(),
                start == old(self).count(),
                start <= self.count(),
                r@.len() == self.count() - start,
                forall|i: int| 0 <= i < r@.len() ==> r@[i] == start + i + 1,
            ensures
                self.count() == self.max(),
            decreases self.max() - self.count(),
        {
            match self.next() {
                Some(v) => {
                    r.push(v);
                },
                None => {
                    break;
                },
            }
        }
        r
    }

    /// The sum of the numbers it still produces.
    pub fn sum_all(&mut self) -> (r: usize)
        requires
            old(self).wf(),
            old(self).max() * (old(self).max() + 1) / 2 - old(self).count() * (old(self).count() + 1) / 2 <= usize::MAX,
        ensures
            final(self).wf(),
            final(self).max() == old(self).max(),
            final(self).count() == old(self).max(),
            r == old(self).max() * (old(self).max() + 1) / 2 - old(self).count() * (old(self).count() + 1) / 2,
    {
        let mut total: usize = 0;
        let ghost start = self.count;
        let ghost m = self.max as int;
        loop
            invariant
                self.wf(),
                self.max() == m,
                start == old(self).count(),
                start <= self.count(),
                m * (m + 1) / 2 - start * (start + 1) / 2 <= usize::MAX,
                total == self.count() * (self.count() + 1) / 2 - start * (start + 1) / 2,
            ensures
                self.count() == m,
            decreases self.max() - self.count(),
        {
            let ghost c = self.count as int;
            match self.next() {
                Some(v) => {
                    proof {
                        assert((c + 1) * (c + 2) / 2 == c * (c + 1) / 2 + c + 1) by (nonlinear_arith);
                        assert((c + 1) * (c + 2) / 2 <= m * (m + 1) / 2) by (nonlinear_arith)
                            requires c + 1 <= m, 0 <= c;
                        assert(start * (start + 1) / 2 >= 0) by (nonlinear_arith)
                            requires start >= 0;
                    }
                    total = total + v;
                },
                None => {
                    break;
                },
            }
        }
        total
    }

    /// Skips `n` numbers and returns the one after them, if it still has one.
    pub fn nth(&mut self, n: usize) -> (r: Option<usize>)
        requires
            old(self).wf(),
        ensures
            final(self).wf(),
            final(self).max() == old(self).max(),
            final(self).count() == min_len(old(self).count() + n + 1, old(self).max() as int),
            old(self).count() + n < old(self).max() ==> r == Some((old(self).count() + n + 1) as usize),
            old(self).count() + n >= old(self).max() ==> r is None,
    {
        let mut k: usize = 0;
        let ghost start = self.count;
        loop
            invariant
                self.wf(),
                self.max() == old(self).max(),
                start == old(self).count(),
                k <= n,
                self.count() == if start + k <= self.max() { start + k } else { self.max() as int },
            decreases n - k,
        {
            let x = self.next();
            if k == n {
                return x;
            }
            if x.is_none() {
                return None;
            }
            k = k + 1;
        }
    }
}

/// Every element doubled.
pub fn doubled(v: &[i32]) -> (r: Vec<i32>)
    requires
        forall|i: int| 0 <= i < v@.len() ==> i32::MIN <= 2 * #[trigger] v@[i] <= i32::MAX,
    ensures
        r@ == v@.map_values(|x: i32| (2 * x) as i32),
{
    let mut r: Vec<i32> = Vec::new();
    let mut i: usize = 0;
    while i < v.len()
        invariant
            i <= v@.len(),
            forall|j: int| 0 <= j < v@.len() ==> i32::MIN <= 2 * #[trigger] v@[j] <= i32::MAX,
            r@ == v@.take(i as int).map_values(|x: i32| (2 * x) as i32),
        decreases v@.len() - i,
    {
        r.push(v[i] * 2);
        i = i + 1;
        assert(r@ =~= v@.take(i as int).map_values(|x: i32| (2 * x) as i32));
    }
    assert(v@.take(v@.len() as int) =~= v@);
    r
}

/// Whether `x` is even.
pub open spec fn is_even(x: i32) -> bool {
    x % 2 == 0
}

/// The even elements of `s`, in order.
pub open spec fn evens_of(s: Seq<i32>) -> Seq<i32> {
    s.filter(|x: i32| is_even(x))
}

/// The odd elements of `s`, in order.
pub open spec fn odds_of(s: Seq<i32>) -> Seq<i32> {
    s.filter(|x: i32| !is_even(x))
}

/// The even elements, in order.
pub fn evens(v: &[i32]) -> (r: Vec<i32>)
    ensures
        r@ == evens_of(v@),
{
    let mut r: Vec<i32> = Vec::new();
    let mut i: usize = 0;
    while i < v.len()
        invariant
            i <= v@.len(),
            r@ == v@.take(i as int).filter(|x: i32| is_even(x)),
        decreases v@.len() - i,
    {
        if v[i] % 2 == 0 {
            r.push(v[i]);
        }
        proof {
            assert(v@.take(i + 1) =~= v@.take(i as int).push(v@[i as int]));
            v@.take(i as int).lemma_filter_push(v@[i as int], |x: i32| is_even(x));
        }
        i = i + 1;
    }
    assert(v@.take(v@.len() as int) =~= v@);
    r
}

/// The odd elements, in order.
pub fn odds(v: &[i32]) -> (r: Vec<i32>)
    ensures
        r@ == odds_of(v@),
{
    let mut r: Vec<i32> = Vec::new();
    let mut i: usize = 0;
    while i < v.len()
        invariant
            i <= v@.len(),
            r@ == v@.take(i as int).filter(|x: i32| !is_even(x)),
        decreases v@.len() - i,
    {
        if v[i] % 2 != 0 {
            r.push(v[i]);
        }
        proof {
            assert(v@.take(i + 1) =~= v@.take(i as int).push(v@[i as int]));
            v@.take(i as int).lemma_filter_push(v@[i as int], |x: i32| !is_even(x));
        }
        i = i + 1;
    }
    assert(v@.take(v@.len() as int) =~= v@);
    r
}

/// Partitioning loses and invents nothing: together the even part and the odd
/// part hold every element exactly as often as `s` does.
pub proof fn law_partition_splits(s: Seq<i32>)
    ensures
        evens_of(s).to_multiset().add(odds_of(s).to_multiset()) == s.to_multiset(),
        evens_of(s).len() + odds_of(s).len() == s.len(),
    decreases s.len(),
{
    broadcast use vstd::seq_lib::group_to_multiset_ensures;
    if s.len() > 0 {
        let d = s.drop_last();
        law_partition_splits(d);
        assert(d.push(s.last()) =~= s);
        d.lemma_filter_push(s.last(), |x: i32| is_even(x));
        d.lemma_filter_push(s.last(), |x: i32| !is_even(x));
        assert(evens_of(s).to_multiset().add(odds_of(s).to_multiset()) =~= s.to_multiset());
    } else {
        assert(evens_of(s) =~= Seq::<i32>::empty());
        assert(odds_of(s) =~= Seq::<i32>::empty());
        assert(s.to_multiset() =~= vstd::multiset::Multiset::<i32>::empty());
    }
}

/// `partition`: the even elements and the odd ones, each in order.
pub fn partition_even(v: &[i32]) -> (r: (Vec<i32>, Vec<i32>))
    ensures
        r.0@ == evens_of(v@),
        r.1@ == odds_of(v@),
{
    (evens(v), odds(v))
}

/// `filter_map` with `parse::<i32>().ok()`: the words that parse as numbers,
/// parsed, in order.
pub fn parse_numbers(words: &[&str]) -> (r: Vec<i32>)
    ensures
        r@ == words@.filter_map(|w: &str| parsed_i32(w@)),
{
    let mut r: Vec<i32> = Vec::new();
    let mut i: usize = 0;
    while i < words.len()
        invariant
            i <= words@.len(),
            r@ == words@.take(i as int).filter_map(|w: &str| parsed_i32(w@)),
        decreases words@.len() - i,
    {
        let p = parse_i32(words[i]);
        assert(words@.take(i + 1).drop_last() =~= words@.take(i as int));
        match p {
            Ok(n) => {
                r.push(n);
            },
            Err(_) => {},
        }
        i = i + 1;
        assert(r@ =~= words@.take(i as int).filter_map(|w: &str| parsed_i32(w@)));
    }
    assert(words@.take(words@.len() as int) =~= words@);
    r
}

/// The smaller of `a` and `b`.
pub open spec fn min_len(a: int, b: int) -> int {
    if a < b { a } else { b }
}

/// `take(n)`: the first `n` elements, or all of them when there are fewer.
pub fn take_first(v: &[i32], n: usize) -> (r: Vec<i32>)
    ensures
        r@ == v@.take(min_len(n as int, v@.len() as int)),
{
    let k = if n < v.len() { n } else { v.len() };
    let mut r: Vec<i32> = Vec::new();
    let mut i: usize = 0;
    while i < k
        invariant
            k <= v@.len(),
            i <= k,
            r@ == v@.take(i as int),
        decreases k - i,
    {
        r.push(v[i]);
        i = i + 1;
        assert(r@ =~= v@.take(i as int));
    }
    r
}

/// `skip(n)`: everything after the first `n` elements.
pub fn skip_first(v: &[i32], n: usize) -> (r: Vec<i32>)
    ensures
        r@ == v@.skip(min_len(n as int, v@.len() as int)),
{
    let k = if n < v.len() { n } else { v.len() };
    let mut r: Vec<i32> = Vec::new();
    let mut i: usize = k;
    while i < v.len()
        invariant
            k <= i <= v@.len(),
            r@ == v@.subrange(k as int, i as int),
        decreases v@.len() - i,
    {
        r.push(v[i]);
        i = i + 1;
        assert(r@ =~= v@.subrange(k as int, i as int));
    }
    assert(v@.subrange(k as int, v@.len() as int) =~= v@.skip(k as int));
    r
}

/// The length of the longest prefix of `v` whose elements are all below `bound`.
fn prefix_below(v: &[i32], bound: i32) -> (k: usize)
    ensures
        k <= v@.len(),
        forall|j: int| 0 <= j < k ==> #[trigger] v@[j] < bound,
        k == v@.len() || v@[k as int] >= bound,
{
    let mut k: usize = 0;
    while k < v.len() && v[k] < bound
        invariant
            k <= v@.len(),
            forall|j: int| 0 <= j < k ==> #[trigger] v@[j] < bound,
        decreases v@.len() - k,
    {
        k = k + 1;
    }
    k
}

/// `take_while(|x| x < bound)`: the longest prefix whose elements are all below `bound`.
pub fn take_while_below(v: &[i32], bound: i32) -> (r: Vec<i32>)
    ensures
        r@ == v@.take(r@.len() as int),
        r@.len() <= v@.len(),
        forall|j: int| 0 <= j < r@.len() ==> #[trigger] r@[j] < bound,
        r@.len() == v@.len() || v@[r@.len() as int] >= bound,
{
    let k = prefix_below(v, bound);
    take_first(v, k)
}

/// `skip_while(|x| x < bound)`: what follows the longest prefix below `bound`.
pub fn skip_while_below(v: &[i32], bound: i32) -> (r: Vec<i32>)
    ensures
        r@.len() <= v@.len(),
        r@ == v@.skip(v@.len() - r@.len()),
        forall|j: int| 0 <= j < v@.len() - r@.len() ==> #[trigger] v@[j] < bound,
        r@.len() == 0 || r@[0] >= bound,
{
    let k = prefix_below(v, bound);
    let r = skip_first(v, k);
    proof {
        if r@.len() > 0 {
            assert(r@[0] == v@[k as int]);
        }
    }
    r
}

/// `chain`: the elements of `a` followed by those of `b`.
pub fn chain(a: &[i32], b: &[i32]) -> (r: Vec<i32>)
    ensures
        r@ == a@ + b@,
{
    let mut r: Vec<i32> = Vec::new();
    let mut i: usize = 0;
    while i < a.len()
        invariant
            i <= a@.len(),
            r@ == a@.take(i as int),
        decreases a@.len() - i,
    {
        r.push(a[i]);
        i = i + 1;
        assert(r@ =~= a@.take(i as int));
    }
    let mut j: usize = 0;
    while j < b.len()
        invariant
            j <= b@.len(),
            r@ == a@ + b@.take(j as int),
        decreases b@.len() - j,
    {
        r.push(b[j]);
        j = j + 1;
        assert(r@ =~= a@ + b@.take(j as int));
    }
    assert(b@.take(b@.len() as int) =~= b@);
    assert(a@.take(a@.len() as int) =~= a@);
    r
}

/// `zip`: pairs the i-th name with the i-th age, as long as both last.
pub fn zip_pairs<'a>(names: &[&'a str], ages: &[i32]) -> (r: Vec<(&'a str, i32)>)
    ensures
        r@.len() == min_len(names@.len() as int, ages@.len() as int),
        forall|i: int| 0 <= i < r@.len() ==> #[trigger] r@[i] == (names@[i], ages@[i]),
{
    let n = if names.len() < ages.len() { names.len() } else { ages.len() };
    let mut r: Vec<(&'a str, i32)> = Vec::new();
    let mut i: usize = 0;
    while i < n
        invariant
            n <= names@.len(),
            n <= ages@.len(),
            n == min_len(names@.len() as int, ages@.len() as int),
            i <= n,
            r@.len() == i,
            forall|j: int| 0 <= j < i ==> #[trigger] r@[j] == (names@[j], ages@[j]),
        decreases n - i,
    {
        r.push((names[i], ages[i]));
        i = i + 1;
    }
    r
}

/// `unzip`: the first components and the second components, each in order.
pub fn unzip(pairs: &[(i32, i32)]) -> (r: (Vec<i32>, Vec<i32>))
    ensures
        r.0@ == pairs@.map_values(|p: (i32, i32)| p.0),
        r.1@ == pairs@.map_values(|p: (i32, i32)| p.1),
{
    let mut left: Vec<i32> = Vec::new();
    let mut right: Vec<i32> = Vec::new();
    let mut i: usize = 0;
    while i < pairs.len()
        invariant
            i <= pairs@.len(),
            left@ == pairs@.take(i as int).map_values(|p: (i32, i32)| p.0),
            right@ == pairs@.take(i as int).map_values(|p: (i32, i32)| p.1),
        decreases pairs@.len() - i,
    {
        let (a, b) = pairs[i];
        left.push(a);
        right.push(b);
        i = i + 1;
        assert(left@ =~= pairs@.take(i as int).map_values(|p: (i32, i32)| p.0));
        assert(right@ =~= pairs@.take(i as int).map_values(|p: (i32, i32)| p.1));
    }
    assert(pairs@.take(pairs@.len() as int) =~= pairs@);
    (left, right)
}

/// The elements of the inner vectors of `nested`, in order.
pub open spec fn concat_all(nested: Seq<Vec<i32>>) -> Seq<i32> {
    nested.map_values(|v: Vec<i32>| v@).flatten()
}

/// Flattening distributes over concatenation, one inner vector flattens to
/// its own elements, and nothing flattens to nothing.
pub proof fn law_concat_all(a: Seq<Vec<i32>>, b: Seq<Vec<i32>>, v: Vec<i32>)
    ensures
        concat_all(a + b) == concat_all(a) + concat_all(b),
        concat_all(seq![v]) == v@,
        concat_all(Seq::<Vec<i32>>::empty()) == Seq::<i32>::empty(),
{
    let f = |w: Vec<i32>| w@;
    assert((a + b).map_values(f) =~= a.map_values(f) + b.map_values(f));
    vstd::seq_lib::lemma_flatten_concat(a.map_values(f), b.map_values(f));
    let one = seq![v].map_values(f);
    assert(one.len() == 1);
    one.lemma_flatten_singleton();
    assert(Seq::<Vec<i32>>::empty().map_values(f) =~= Seq::<Seq<i32>>::empty());
}

/// `flatten`: the elements of the inner vectors, in order.
pub fn flatten(nested: &[Vec<i32>]) -> (r: Vec<i32>)
    ensures
        r@ == concat_all(nested@),
{
    let mut r: Vec<i32> = Vec::new();
    let mut i: usize = 0;
    while i < nested.len()
        invariant
            i <= nested@.len(),
            r@ == concat_all(nested@.take(i as int)),
        decreases nested@.len() - i,
    {
        let inner = &nested[i];
        let mut j: usize = 0;
        while j < inner.len()
            invariant
                j <= inner@.len(),
                r@ == concat_all(nested@.take(i as int)) + inner@.take(j as int),
            decreases inner@.len() - j,
        {
            r.push(inner[j]);
            j = j + 1;
            assert(r@ =~= concat_all(nested@.take(i as int)) + inner@.take(j as int));
        }
        proof {
            let f = |v: Vec<i32>| v@;
            assert(nested@.take(i + 1) =~= nested@.take(i as int).push(nested@[i as int]));
            assert(nested@.take(i + 1).map_values(f) =~= nested@.take(i as int).map_values(f).push(inner@));
            nested@.take(i as int).map_values(f).lemma_flatten_push(inner@);
            assert(inner@.take(inner@.len() as int) =~= inner@);
        }
        i = i + 1;
    }
    assert(nested@.take(nested@.len() as int) =~= nested@);
    r
}

/// The characters of the words, concatenated.
pub open spec fn chars_of_all(words: Seq<&str>) -> Seq<char> {
    words.map_values(|w: &str| w@).flatten()
}

/// The characters of a concatenation of word lists are those of each list in
/// turn, and one word gives its own characters.
pub proof fn law_chars_of_all<'a>(a: Seq<&'a str>, b: Seq<&'a str>, w: &'a str)
    ensures
        chars_of_all(a + b) == chars_of_all(a) + chars_of_all(b),
        chars_of_all(seq![w]) == w@,
        chars_of_all(Seq::<&'a str>::empty()) == Seq::<char>::empty(),
{
    let f = |x: &'a str| x@;
    assert((a + b).map_values(f) =~= a.map_values(f) + b.map_values(f));
    vstd::seq_lib::lemma_flatten_concat(a.map_values(f), b.map_values(f));
    let one = seq![w].map_values(f);
    assert(one.len() == 1);
    one.lemma_flatten_singleton();
    assert(Seq::<&'a str>::empty().map_values(f) =~= Seq::<Seq<char>>::empty());
}

/// `flat_map(|s| s.chars())`: the characters of every word, in order.
pub fn word_chars(words: &[&str]) -> (r: Vec<char>)
    ensures
        r@ == chars_of_all(words@),
{
    let mut r: Vec<char> = Vec::new();
    let mut i: usize = 0;
    while i < words.len()
        invariant
            i <= words@.len(),
            r@ == chars_of_all(words@.take(i as int)),
        decreases words@.len() - i,
    {
        let mut cs = chars_of(words[i]);
        r.append(&mut cs);
        proof {
            let f = |w: &str| w@;
            assert(words@.take(i + 1) =~= words@.take(i as int).push(words@[i as int]));
            assert(words@.take(i + 1).map_values(f) =~= words@.take(i as int).map_values(f).push(words@[i as int]@));
            words@.take(i as int).map_values(f).lemma_flatten_push(words@[i as int]@);
        }
        i = i + 1;
    }
    assert(words@.take(words@.len() as int) =~= words@);
    r
}

/// The running sum of `s`, left to right, over unbounded integers.
pub open spec fn seq_sum(s: Seq<i32>) -> int
    decreases s.len(),
{
    if s.len() == 0 {
        0
    } else {
        seq_sum(s.drop_last()) + s.last()
    }
}

/// The product of `s`, left to right, over unbounded integers.
pub open spec fn seq_product(s: Seq<i32>) -> int
    decreases s.len(),
{
    if s.len() == 0 {
        1
    } else {
        seq_product(s.drop_last()) * s.last()
    }
}

/// The sum is additive over concatenation, a single element sums to itself
/// and the empty sequence sums to 0.
pub proof fn law_seq_sum_additive(a: Seq<i32>, b: Seq<i32>, x: i32)
    ensures
        seq_sum(a + b) == seq_sum(a) + seq_sum(b),
        seq_sum(seq![x]) == x,
        seq_sum(Seq::<i32>::empty()) == 0,
    decreases b.len(),
{
    assert(seq![x].drop_last() =~= Seq::<i32>::empty());
    if b.len() == 0 {
        assert(a + b =~= a);
    } else {
        law_seq_sum_additive(a, b.drop_last(), x);
        assert((a + b).drop_last() =~= a + b.drop_last());
    }
}

/// The product is multiplicative over concatenation, a single element is its
/// own product and the empty sequence has product 1.
pub proof fn law_seq_product_multiplicative(a: Seq<i32>, b: Seq<i32>, x: i32)
    ensures
        seq_product(a + b) == seq_product(a) * seq_product(b),
        seq_product(seq![x]) == x,
        seq_product(Seq::<i32>::empty()) == 1,
    decreases b.len(),
{
    assert(seq![x].drop_last() =~= Seq::<i32>::empty());
    if b.len() == 0 {
        assert(a + b =~= a);
    } else {
        let b2 = b.drop_last();
        law_seq_product_multiplicative(a, b2, x);
        assert((a + b).drop_last() =~= a + b2);
        let pa = seq_product(a);
        let pb = seq_product(b2);
        let l = b.last() as int;
        assert((pa * pb) * l == pa * (pb * l)) by (nonlinear_arith);
    }
}

/// Every partial sum of `s`, taken left to right, fits in an `i32`, so summing
/// with `i32` arithmetic never overflows.
pub open spec fn sums_fit(s: Seq<i32>) -> bool {
    forall|k: int| 0 <= k <= s.len() ==> i32::MIN <= #[trigger] seq_sum(s.take(k)) <= i32::MAX
}

/// Every partial product of `s`, taken left to right, fits in an `i32`.
pub open spec fn products_fit(s: Seq<i32>) -> bool {
    forall|k: int| 0 <= k <= s.len() ==> i32::MIN <= #[trigger] seq_product(s.take(k)) <= i32::MAX
}

/// `fold(0, |acc, x| acc + x)`: the sum of the elements.
pub fn sum_fold(v: &[i32]) -> (r: i32)
    requires
        sums_fit(v@),
    ensures
        r == seq_sum(v@),
{
    let mut acc: i32 = 0;
    let mut i: usize = 0;
    assert(v@.take(0) =~= Seq::<i32>::empty());
    while i < v.len()
        invariant
            i <= v@.len(),
            sums_fit(v@),
            acc == seq_sum(v@.take(i as int)),
        decreases v@.len() - i,
    {
        assert(v@.take(i + 1).drop_last() =~= v@.take(i as int));
        assert(i32::MIN <= seq_sum(v@.take(i + 1)) <= i32::MAX);
        acc = acc + v[i];
        i = i + 1;
    }
    assert(v@.take(v@.len() as int) =~= v@);
    acc
}

/// A plain index loop computing the same sum as `sum_fold`.
pub fn sum_by_index(v: &[i32]) -> (r: i32)
    requires
        sums_fit(v@),
    ensures
        r == seq_sum(v@),
{
    let mut total: i32 = 0;
    let mut i: usize = 0;
    assert(v@.take(0) =~= Seq::<i32>::empty());
    for i in 0..v.len()
        invariant
            sums_fit(v@),
            total == seq_sum(v@.take(i as int)),
    {
        assert(v@.take(i + 1).drop_last() =~= v@.take(i as int));
        assert(i32::MIN <= seq_sum(v@.take(i + 1)) <= i32::MAX);
        total += v[i];
    }
    assert(v@.take(v@.len() as int) =~= v@);
    total
}

/// `fold(1, |acc, x| acc * x)`: the product of the elements.
pub fn product_fold(v: &[i32]) -> (r: i32)
    requires
        products_fit(v@),
    ensures
        r == seq_product(v@),
{
    let mut acc: i32 = 1;
    let mut i: usize = 0;
    assert(v@.take(0) =~= Seq::<i32>::empty());
    while i < v.len()
        invariant
            i <= v@.len(),
            products_fit(v@),
            acc == seq_product(v@.take(i as int)),
        decreases v@.len() - i,
    {
        assert(v@.take(i + 1).drop_last() =~= v@.take(i as int));
        assert(i32::MIN <= seq_product(v@.take(i + 1)) <= i32::MAX);
        acc = acc * v[i];
        i = i + 1;
    }
    assert(v@.take(v@.len() as int) =~= v@);
    acc
}

/// `reduce(|acc, x| acc + x)`: the sum, or `None` for an empty slice.
pub fn reduce_sum(v: &[i32]) -> (r: Option<i32>)
    requires
        sums_fit(v@),
    ensures
        v@.len() == 0 ==> r is None,
        v@.len() > 0 ==> r == Some(seq_sum(v@) as i32),
{
    if v.len() == 0 {
        None
    } else {
        let s = sum_fold(v);
        Some(s)
    }
}

/// `min()`: the smallest element, or `None` for an empty slice.
pub fn min_value(v: &[i32]) -> (r: Option<i32>)
    ensures
        v@.len() == 0 <==> r is None,
        r matches Some(m) ==> v@.contains(m) && forall|i: int| 0 <= i < v@.len() ==> m <= #[trigger] v@[i],
{
    if v.len() == 0 {
        return None;
    }
    let mut m = v[0];
    let mut i: usize = 1;
    while i < v.len()
        invariant
            1 <= i <= v@.len(),
            v@.contains(m),
            forall|j: int| 0 <= j < i ==> m <= #[trigger] v@[j],
        decreases v@.len() - i,
    {
        if v[i] < m {
            m = v[i];
        }
        i = i + 1;
    }
    Some(m)
}

/// `max()`: the largest element, or `None` for an empty slice.
pub fn max_value(v: &[i32]) -> (r: Option<i32>)
    ensures
        v@.len() == 0 <==> r is None,
        r matches Some(m) ==> v@.contains(m) && forall|i: int| 0 <= i < v@.len() ==> #[trigger] v@[i] <= m,
{
    if v.len() == 0 {
        return None;
    }
    let mut m = v[0];
    let mut i: usize = 1;
    while i < v.len()
        invariant
            1 <= i <= v@.len(),
            v@.contains(m),
            forall|j: int| 0 <= j < i ==> #[trigger] v@[j] <= m,
        decreases v@.len() - i,
    {
        if v[i] > m {
            m = v[i];
        }
        i = i + 1;
    }
    Some(m)
}

/// `any(|x| x % 2 == 0)`: whether some element is even.
pub fn any_even(v: &[i32]) -> (r: bool)
    ensures
        r == exists|i: int| 0 <= i < v@.len() && is_even(#[trigger] v@[i]),
{
    let mut i: usize = 0;
    while i < v.len()
        invariant
            i <= v@.len(),
            forall|j: int| 0 <= j < i ==> !is_even(#[trigger] v@[j]),
        decreases v@.len() - i,
    {
        if v[i] % 2 == 0 {
            assert(is_even(v@[i as int]));
            return true;
        }
        i = i + 1;
    }
    false
}

/// `all(|x| x > 0)`: whether every element is positive.
pub fn all_positive(v: &[i32]) -> (r: bool)
    ensures
        r == forall|i: int| 0 <= i < v@.len() ==> #[trigger] v@[i] > 0,
{
    let mut i: usize = 0;
    while i < v.len()
        invariant
            i <= v@.len(),
            forall|j: int| 0 <= j < i ==> #[trigger] v@[j] > 0,
        decreases v@.len() - i,
    {
        if v[i] <= 0 {
            return false;
        }
        i = i + 1;
    }
    true
}

/// The index of the first even element, if any.
fn first_even_index(v: &[i32]) -> (r: Option<usize>)
    ensures
        r matches Some(k) ==> k < v@.len() && is_even(v@[k as int])
            && forall|j: int| 0 <= j < k ==> !is_even(#[trigger] v@[j]),
        r is None ==> forall|j: int| 0 <= j < v@.len() ==> !is_even(#[trigger] v@[j]),
{
    let mut i: usize = 0;
    while i < v.len()
        invariant
            i <= v@.len(),
            forall|j: int| 0 <= j < i ==> !is_even(#[trigger] v@[j]),
        decreases v@.len() - i,
    {
        if v[i] % 2 == 0 {
            return Some(i);
        }
        i = i + 1;
    }
    None
}

/// `find(|x| x % 2 == 0)`: the first even element, if any.
pub fn find_first_even(v: &[i32]) -> (r: Option<i32>)
    ensures
        r is None <==> forall|j: int| 0 <= j < v@.len() ==> !is_even(#[trigger] v@[j]),
        r matches Some(x) ==> exists|k: int| 0 <= k < v@.len() && v@[k] == x && is_even(x)
            && forall|j: int| 0 <= j < k ==> !is_even(#[trigger] v@[j]),
{
    match first_even_index(v) {
        Some(k) => Some(v[k]),
        None => None,
    }
}

/// `find_map`: the square of the first even element, if any.
pub fn first_even_square(v: &[i32]) -> (r: Option<i32>)
    requires
        forall|i: int| 0 <= i < v@.len() && is_even(#[trigger] v@[i])
            && (forall|j: int| 0 <= j < i ==> !is_even(v@[j])) ==> v@[i] * v@[i] <= i32::MAX,
    ensures
        r is None <==> forall|j: int| 0 <= j < v@.len() ==> !is_even(#[trigger] v@[j]),
        r matches Some(y) ==> exists|k: int| 0 <= k < v@.len() && y == v@[k] * v@[k] && is_even(v@[k])
            && forall|j: int| 0 <= j < k ==> !is_even(#[trigger] v@[j]),
{
    match first_even_index(v) {
        Some(k) => {
            let x = v[k];
            assert(x * x <= i32::MAX);
            assert(x * x >= 0) by (nonlinear_arith);
            Some(x * x)
        },
        None => None,
    }
}

/// `position(|x| *x == target)`: the index of the first element equal to `target`.
pub fn position_of(v: &[i32], target: i32) -> (r: Option<usize>)
    ensures
        r matches Some(k) ==> k < v@.len() && v@[k as int] == target
            && forall|j: int| 0 <= j < k ==> #[trigger] v@[j] != target,
        r is None ==> !v@.contains(target),
{
    let mut i: usize = 0;
    while i < v.len()
        invariant
            i <= v@.len(),
            forall|j: int| 0 <= j < i ==> #[trigger] v@[j] != target,
        decreases v@.len() - i,
    {
        if v[i] == target {
            return Some(i);
        }
        i = i + 1;
    }
    None
}

/// The even elements doubled: `filter(even)` followed by `map(|x| x * 2)`.
pub fn even_doubles(v: &[i32]) -> (r: Vec<i32>)
    requires
        forall|i: int| 0 <= i < v@.len() && is_even(#[trigger] v@[i]) ==> i32::MIN <= 2 * v@[i] <= i32::MAX,
    ensures
        r@ == evens_of(v@).map_values(|x: i32| (2 * x) as i32),
{
    let e = evens(v);
    proof {
        assert forall|i: int| 0 <= i < e@.len() implies i32::MIN <= 2 * #[trigger] e@[i] <= i32::MAX by {
            v@.lemma_filter_contains_rev(|x: i32| is_even(x), e@[i]);
        }
    }
    doubled(e.as_slice())
}

/// The first three even elements squared: `filter(even)`, `map(|x| x * x)`,
/// `take(3)`. Only those three are squared.
pub fn even_squares_first_three(v: &[i32]) -> (r: Vec<i32>)
    requires
        forall|i: int| 0 <= i < min_len(3, evens_of(v@).len() as int)
            ==> #[trigger] evens_of(v@)[i] * evens_of(v@)[i] <= i32::MAX,
    ensures
        r@ == evens_of(v@).take(min_len(3, evens_of(v@).len() as int)).map_values(|x: i32| (x * x) as i32),
{
    let e = evens(v);
    let k: usize = if e.len() < 3 { e.len() } else { 3 };
    let mut r: Vec<i32> = Vec::new();
    let mut i: usize = 0;
    while i < k
        invariant
            e@ == evens_of(v@),
            k == min_len(3, e@.len() as int),
            i <= k,
            forall|j: int| 0 <= j < k ==> #[trigger] e@[j] * e@[j] <= i32::MAX,
            r@ == e@.take(i as int).map_values(|x: i32| (x * x) as i32),
        decreases k - i,
    {
        let x = e[i];
        assert(x * x >= 0) by (nonlinear_arith);
        assert(x * x <= i32::MAX);
        r.push(x * x);
        i = i + 1;
        assert(r@ =~= e@.take(i as int).map_values(|x: i32| (x * x) as i32));
    }
    r
}

/// `map(|x| if x == from { to } else { x })`.
pub fn replace_value(v: &[i32], from: i32, to: i32) -> (r: Vec<i32>)
    ensures
        r@ == v@.map_values(|x: i32| if x == from { to } else { x }),
{
    let mut r: Vec<i32> = Vec::new();
    let mut i: usize = 0;
    while i < v.len()
        invariant
            i <= v@.len(),
            r@ == v@.take(i as int).map_values(|x: i32| if x == from { to } else { x }),
        decreases v@.len() - i,
    {
        let x = v[i];
        r.push(if x == from { to } else { x });
        i = i + 1;
        assert(r@ =~= v@.take(i as int).map_values(|x: i32| if x == from { to } else { x }));
    }
    assert(v@.take(v@.len() as int) =~= v@);
    r
}

/// `scan`: the running sums, one per element.
pub fn partial_sums(v: &[i32]) -> (r: Vec<i32>)
    requires
        sums_fit(v@),
    ensures
        r@.len() == v@.len(),
        forall|i: int| 0 <= i < v@.len() ==> #[trigger] r@[i] == seq_sum(v@.take(i + 1)),
{
    let mut r: Vec<i32> = Vec::new();
    let mut acc: i32 = 0;
    let mut i: usize = 0;
    assert(v@.take(0) =~= Seq::<i32>::empty());
    while i < v.len()
        invariant
            i <= v@.len(),
            sums_fit(v@),
            acc == seq_sum(v@.take(i as int)),
            r@.len() == i,
            forall|j: int| 0 <= j < i ==> #[trigger] r@[j] == seq_sum(v@.take(j + 1)),
        decreases v@.len() - i,
    {
        assert(v@.take(i + 1).drop_last() =~= v@.take(i as int));
        assert(i32::MIN <= seq_sum(v@.take(i + 1)) <= i32::MAX);
        acc = acc + v[i];
        r.push(acc);
        i = i + 1;
    }
    r
}

/// `windows(size)`: every run of `size` consecutive elements, in order.
pub fn windows(v: &[i32], size: usize) -> (r: Vec<Vec<i32>>)
    requires
        size > 0,
    ensures
        r@.len() == if v@.len() >= size { v@.len() - size + 1 } else { 0 },
        forall|i: int| 0 <= i < r@.len() ==> (#[trigger] r@[i])@ == v@.subrange(i, i + size),
{
    let mut r: Vec<Vec<i32>> = Vec::new();
    if v.len() < size {
        return r;
    }
    let n = v.len();
    let count = n - size + 1;
    let mut i: usize = 0;
    while i < count
        invariant
            n == v@.len(),
            count == v@.len() - size + 1,
            size <= v@.len(),
            i <= count,
            r@.len() == i,
            forall|j: int| 0 <= j < i ==> (#[trigger] r@[j])@ == v@.subrange(j, j + size),
        decreases count - i,
    {
        let mut w: Vec<i32> = Vec::new();
        let mut j: usize = i;
        assert(i + size <= v@.len());
        let stop = i + size;
        while j < stop
            invariant
                stop == i + size,
                stop <= v@.len(),
                i <= j <= stop,
                w@ == v@.subrange(i as int, j as int),
            decreases stop - j,
        {
            w.push(v[j]);
            j = j + 1;
            assert(w@ =~= v@.subrange(i as int, j as int));
        }
        r.push(w);
        i = i + 1;
    }
    r
}

/// `chunks(size)`: consecutive runs of `size` elements, the last one possibly shorter.
pub fn chunks(v: &[i32], size: usize) -> (r: Vec<Vec<i32>>)
    requires
        size > 0,
    ensures
        r@.len() == (v@.len() + size - 1) / (size as int),
        forall|i: int| 0 <= i < r@.len() ==> (#[trigger] r@[i])@ == v@.subrange(
            i * size,
            min_len(i * size + size, v@.len() as int),
        ),
{
    let mut r: Vec<Vec<i32>> = Vec::new();
    let mut start: usize = 0;
    assert(r@.len() * size == 0);
    while start < v.len()
        invariant
            size > 0,
            start <= v@.len(),
            start == min_len(r@.len() * size, v@.len() as int),
            r@.len() > 0 ==> (r@.len() - 1) * size < v@.len(),
            forall|i: int| 0 <= i < r@.len() ==> (#[trigger] r@[i])@ == v@.subrange(
                i * size,
                min_len(i * size + size, v@.len() as int),
            ),
        decreases v@.len() - start,
    {
        let end = if v.len() - start < size { v.len() } else { start + size };
        let mut c: Vec<i32> = Vec::new();
        let mut j: usize = start;
        while j < end
            invariant
                start <= j <= end,
                end <= v@.len(),
                c@ == v@.subrange(start as int, j as int),
            decreases end - j,
        {
            c.push(v[j]);
            j = j + 1;
            assert(c@ =~= v@.subrange(start as int, j as int));
        }
        proof {
            let n = r@.len() as int;
            assert(start == n * size);
            assert(n * size + size == (n + 1) * size) by (nonlinear_arith);
        }
        r.push(c);
        start = end;
    }
    proof {
        let n = r@.len() as int;
        let s = size as int;
        let len = v@.len() as int;
        assert(n * s >= len);
        assert((len + s - 1) / s == n) by (nonlinear_arith)
            requires n * s >= len, n > 0 ==> (n - 1) * s < len, s > 0, len >= 0, n >= 0;
    }
    r
}

/// The elements in reverse order.
pub fn reversed(v: &[i32]) -> (r: Vec<i32>)
    ensures
        r@ == v@.reverse(),
{
    let mut r: Vec<i32> = Vec::new();
    let mut i: usize = v.len();
    while i > 0
        invariant
            i <= v@.len(),
            r@ == v@.skip(i as int).reverse(),
        decreases i,
    {
        i = i - 1;
        r.push(v[i]);
        assert(v@.skip(i as int) =~= seq![v@[i as int]] + v@.skip(i + 1));
        assert(r@ =~= v@.skip(i as int).reverse());
    }
    assert(v@.skip(0) =~= v@);
    r
}

/// `for item in &mut v { *item *= 2 }`: doubles every element in place.
pub fn double_in_place(v: &mut Vec<i32>)
    requires
        forall|i: int| 0 <= i < old(v)@.len() ==> i32::MIN <= 2 * #[trigger] old(v)@[i] <= i32::MAX,
    ensures
        final(v)@ == old(v)@.map_values(|x: i32| (2 * x) as i32),
{
    let ghost orig = v@;
    let mut i: usize = 0;
    while i < v.len()
        invariant
            v@.len() == orig.len(),
            i <= v@.len(),
            forall|j: int| 0 <= j < orig.len() ==> i32::MIN <= 2 * #[trigger] orig[j] <= i32::MAX,
            forall|j: int| 0 <= j < i ==> #[trigger] v@[j] == (2 * orig[j]) as i32,
            forall|j: int| i <= j < v@.len() ==> #[trigger] v@[j] == orig[j],
        decreases v@.len() - i,
    {
        let x = v[i];
        v.set(i, x * 2);
        i = i + 1;
    }
    assert(v@ =~= orig.map_values(|x: i32| (2 * x) as i32));
}

/// `(start..).take(n).collect()`: `n` consecutive numbers from `start`.
pub fn range_vec(start: i32, n: usize) -> (r: Vec<i32>)
    requires
        start + n <= i32::MAX + 1,
    ensures
        r@.len() == n,
        forall|i: int| 0 <= i < n ==> #[trigger] r@[i] == start + i,
{
    let mut r: Vec<i32> = Vec::new();
    let mut i: usize = 0;
    let mut x: i32 = start;
    while i < n
        invariant
            i <= n,
            start + n <= i32::MAX + 1,
            i < n ==> x == start + i,
            r@.len() == i,
            forall|j: int| 0 <= j < i ==> #[trigger] r@[j] == start + j,
        decreases n - i,
    {
        r.push(x);
        i = i + 1;
        if i < n {
            x = x + 1;
        }
    }
    r
}

} // verus!
