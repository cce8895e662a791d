//! Traits with required and provided methods, generic functions and structs,
//! an associated-type iterator, and a default generic parameter.
use vstd::prelude::*;
use vstd::string::*;
use core::cmp::Ordering;
use vstd::std_specs::cmp::PartialOrdSpec;

verus! {

/// Something that can be summarised in one line.
pub trait Summary {
    /// The text that `summarize` produces.
    spec fn summary_text(&self) -> Seq<char>;

    /// A one-line summary.
    fn summarize(&self) -> (r: String)
        ensures
            r@ == self.summary_text();

    /// Who wrote it; `"(未知作者)"` unless a type says otherwise.
    fn summarize_author(&self) -> (r: String)
        default_ensures
            r@ == "(未知作者)"@,
    {
        String::from_str("(未知作者)")
    }

    /// The summary, `" — 作者: "`, then the author line.
    fn summarize_with_author(&self) -> (r: String)
        ensures
            exists|a: String|
                #[trigger] call_ensures(Self::summarize_author, (self,), a) && r@
                    == self.summary_text() + " — 作者: "@ + a@,
    {
        let mut s = self.summarize();
        s.append(" — 作者: ");
        let a = self.summarize_author();
        s.append(a.as_str());
        s
    }
}

/// Something with a one-line display form.
pub trait Display {
    /// The display line.
    fn display(&self) -> String;
}

/// A news article.
pub struct NewsArticle {
    pub headline: String,
    pub location: String,
    pub author: String,
    pub content: String,
}

impl Summary for NewsArticle {
    open spec fn summary_text(&self) -> Seq<char> {
        self.headline@ + ", by "@ + self.author@ + " ("@ + self.location@ + ")"@
    }

    /// `"{headline}, by {author} ({location})"`.
    fn summarize(&self) -> (r: String)
        ensures
            r@.len() == self.headline@.len() as int + 5 + self.author@.len() + 2 + self.location@.len() + 1,
            r@.take(self.headline@.len() as int) == self.headline@,
            r@.subrange(self.headline@.len() as int, self.headline@.len() as int + 5) == ", by "@,
            r@.subrange(self.headline@.len() as int + 5, self.headline@.len() as int + 5 + self.author@.len())
                == self.author@,
            r@.subrange(
                self.headline@.len() as int + 5 + self.author@.len(),
                self.headline@.len() as int + 7 + self.author@.len(),
            ) == " ("@,
            r@.subrange(
                self.headline@.len() as int + 7 + self.author@.len(),
                r@.len() - 1,
            ) == self.location@,
            r@.last() == ')',
    {
        proof {
            law_article_summary(self);
        }
        let mut s = self.headline.clone();
        s.append(", by ");
        s.append(self.author.as_str());
        s.append(" (");
        s.append(self.location.as_str());
        s.append(")");
        s
    }

    /// `"作者: {author}"`.
    fn summarize_author(&self) -> (r: String)
        ensures
            r@ == "作者: "@ + self.author@,
    {
        let mut s = String::from_str("作者: ");
        s.append(self.author.as_str());
        s
    }
}

impl Display for NewsArticle {
    /// `"[News] {headline}"`.
    fn display(&self) -> (r: String)
        ensures
            r@ == "[News] "@ + self.headline@,
    {
        let mut s = String::from_str("[News] ");
        s.append(self.headline.as_str());
        s
    }
}

/// A short post.
pub struct Tweet {
    pub username: String,
    pub content: String,
    pub reply: bool,
    pub retweet: bool,
}

impl Summary for Tweet {
    open spec fn summary_text(&self) -> Seq<char> {
        self.username@ + ": "@ + self.content@
    }

    /// `"{username}: {content}"`.
    fn summarize(&self) -> (r: String)
        ensures
            r@.len() == self.username@.len() as int + 2 + self.content@.len(),
            r@.take(self.username@.len() as int) == self.username@,
            r@[self.username@.len() as int] == ':',
            r@[self.username@.len() as int + 1] == ' ',
            r@.skip(self.username@.len() as int + 2) == self.content@,
    {
        proof {
            law_tweet_summary(self);
        }
        let mut s = self.username.clone();
        s.append(": ");
        s.append(self.content.as_str());
        s
    }

    /// `"@{username}"`.
    fn summarize_author(&self) -> (r: String)
        ensures
            r@ == "@"@ + self.username@,
    {
        let mut s = String::from_str("@");
        s.append(self.username.as_str());
        s
    }
}

/// A tweet's summary is its username, `": "`, then its whole content.
pub proof fn law_tweet_summary(t: &Tweet)
    ensures
        t.summary_text().len() == t.username@.len() as int + 2 + t.content@.len(),
        t.summary_text().take(t.username@.len() as int) == t.username@,
        t.summary_text()[t.username@.len() as int] == ':',
        t.summary_text()[t.username@.len() as int + 1] == ' ',
        t.summary_text().skip(t.username@.len() as int + 2) == t.content@,
{
    reveal_strlit(": ");
    let u = t.username@.len() as int;
    let s = t.summary_text();
    assert(s.take(u) =~= t.username@);
    assert(s.skip(u + 2) =~= t.content@);
}

/// An article's summary is its headline, `", by "`, its author, `" ("`, its
/// location and `")"`, each part whole.
pub proof fn law_article_summary(n: &NewsArticle)
    ensures
        n.summary_text().len() == n.headline@.len() as int + 5 + n.author@.len() + 2 + n.location@.len() + 1,
        n.summary_text().take(n.headline@.len() as int) == n.headline@,
        n.summary_text().subrange(n.headline@.len() as int, n.headline@.len() as int + 5) == ", by "@,
        n.summary_text().subrange(n.headline@.len() as int + 5, n.headline@.len() as int + 5 + n.author@.len())
            == n.author@,
        n.summary_text().subrange(
            n.headline@.len() as int + 5 + n.author@.len(),
            n.headline@.len() as int + 7 + n.author@.len(),
        ) == " ("@,
        n.summary_text().subrange(
            n.headline@.len() as int + 7 + n.author@.len(),
            n.summary_text().len() - 1,
        ) == n.location@,
        n.summary_text().last() == ')',
{
    reveal_strlit(", by ");
    reveal_strlit(" (");
    reveal_strlit(")");
    let h = n.headline@.len() as int;
    let a = n.author@.len() as int;
    let l = n.location@.len() as int;
    let s = n.summary_text();
    assert(s.take(h) =~= n.headline@);
    assert(s.subrange(h, h + 5) =~= ", by "@);
    assert(s.subrange(h + 5, h + 5 + a) =~= n.author@);
    assert(s.subrange(h + 5 + a, h + 7 + a) =~= " ("@);
    assert(s.subrange(h + 7 + a, s.len() - 1) =~= n.location@);
}

/// A value of some type that implements `Summary`: a tweet by `rustlang`
/// saying `"Hello world!"`.
pub fn returns_summarizable() -> (r: impl Summary)
    ensures
        r.summary_text() == "rustlang: Hello world!"@,
{
    let t = Tweet {
        username: String::from_str("rustlang"),
        content: String::from_str("Hello world!"),
        reply: false,
        retweet: false,
    };
    proof {
        assert(t.summary_text() =~= "rustlang: Hello world!"@) by {
            reveal_strlit("rustlang");
            reveal_strlit("Hello world!");
            reveal_strlit(": ");
            reveal_strlit("rustlang: Hello world!");
        }
    }
    t
}

/// Whether `a > b` under `PartialOrd`.
pub open spec fn is_greater<T: PartialOrd>(a: T, b: T) -> bool {
    a.partial_cmp_spec(&b) == Some(Ordering::Greater)
}

/// Whether `a >= b` under `PartialOrd`.
pub open spec fn is_at_least<T: PartialOrd>(a: T, b: T) -> bool {
    a.partial_cmp_spec(&b) matches Some(Ordering::Greater | Ordering::Equal)
}

/// Whether the comparison operators of `T` follow its `partial_cmp`.
pub open spec fn ordered<T: PartialOrd>() -> bool {
    T::obeys_partial_cmp_spec()
}

/// Whether the order of `T` is lawful: consistent with equality, antisymmetric
/// and transitive.
pub open spec fn lawful_order<T: PartialOrd>() -> bool {
    vstd::laws_cmp::obeys_partial_cmp_spec_properties::<T>()
}

/// The element that a left-to-right scan keeps when it replaces its current
/// pick by every strictly greater element: the first largest one.
pub open spec fn largest_of<T: PartialOrd>(s: Seq<T>) -> T
    decreases s.len(),
{
    if s.len() <= 1 {
        s[0]
    } else {
        let m = largest_of(s.drop_last());
        if is_greater(s.last(), m) {
            s.last()
        } else {
            m
        }
    }
}

/// The largest element of a non-empty slice (the first one among equals).
pub fn largest<T: PartialOrd>(list: &[T]) -> (r: &T)
    requires
        list@.len() > 0,
    ensures
        list@.contains(*r),
        ordered::<T>() ==> *r == largest_of(list@),
        ordered::<T>() ==> *r == list@[largest_index(list@)],
{
    let mut largest = &list[0];
    let mut i: usize = 1;
    proof {
        assert(list@.take(1) =~= seq![list@[0]]);
    }
    while i < list.len()
        invariant
            1 <= i <= list@.len(),
            list@.contains(*largest),
            ordered::<T>() ==> *largest == largest_of(list@.take(i as int)),
        decreases list@.len() - i,
    {
        let item = &list[i];
        if item > largest {
            largest = item;
        }
        proof {
            assert(list@.take((i + 1) as int).drop_last() =~= list@.take(i as int));
        }
        i = i + 1;
    }
    proof {
        assert(list@.take(list@.len() as int) =~= list@);
        lemma_largest_at_index(list@);
    }
    largest
}

/// For a lawful order, the scan's pick is a maximum: no element is greater.
pub proof fn law_largest_is_maximum<T: PartialOrd>(s: Seq<T>)
    requires
        s.len() > 0,
        lawful_order::<T>(),
    ensures
        forall|i: int| 0 <= i < s.len() ==> !is_greater(#[trigger] s[i], largest_of(s)),
    decreases s.len(),
{
    reveal(vstd::laws_cmp::obeys_partial_cmp_spec_properties);
    if s.len() > 1 {
        let p = s.drop_last();
        law_largest_is_maximum(p);
        let m = largest_of(p);
        assert forall|i: int| 0 <= i < s.len() implies !is_greater(#[trigger] s[i], largest_of(s)) by {
            if i < s.len() - 1 {
                assert(s[i] == p[i]);
                assert(!is_greater(p[i], m));
                if is_greater(s.last(), m) && is_greater(s[i], s.last()) {
                    assert(is_greater(s[i], m));
                }
            } else {
                if is_greater(s.last(), s.last()) {
                    assert(s.last().partial_cmp_spec(&s.last()) == Some(Ordering::Less));
                }
            }
        }
    } else {
        let x = s[0];
        if is_greater(x, x) {
            assert(x.partial_cmp_spec(&x) == Some(Ordering::Less));
        }
    }
}

/// The position that the left-to-right scan picks: it moves to a later
/// position only when the element there is strictly greater.
pub open spec fn largest_index<T: PartialOrd>(s: Seq<T>) -> int
    decreases s.len(),
{
    if s.len() <= 1 {
        0
    } else {
        let k = largest_index(s.drop_last());
        if is_greater(s.last(), s.drop_last()[k]) {
            s.len() - 1
        } else {
            k
        }
    }
}

/// The scan's pick is the element at the scan's position.
pub proof fn lemma_largest_at_index<T: PartialOrd>(s: Seq<T>)
    requires
        s.len() > 0,
    ensures
        0 <= largest_index(s) < s.len(),
        s[largest_index(s)] == largest_of(s),
    decreases s.len(),
{
    if s.len() > 1 {
        lemma_largest_at_index(s.drop_last());
    }
}

/// For a lawful order, the scan picks the first occurrence of the largest
/// value: no earlier position holds the same value.
pub proof fn law_largest_is_first<T: PartialOrd>(s: Seq<T>)
    requires
        s.len() > 0,
        lawful_order::<T>(),
    ensures
        0 <= largest_index(s) < s.len(),
        s[largest_index(s)] == largest_of(s),
        forall|j: int| 0 <= j < largest_index(s) ==> #[trigger] s[j] != largest_of(s),
    decreases s.len(),
{
    lemma_largest_at_index(s);
    if s.len() > 1 {
        let p = s.drop_last();
        law_largest_is_first(p);
        law_largest_is_maximum(p);
        if is_greater(s.last(), p[largest_index(p)]) {
            assert forall|j: int| 0 <= j < largest_index(s) implies #[trigger] s[j] != largest_of(s) by {
                assert(s[j] == p[j]);
                assert(!is_greater(p[j], largest_of(p)));
            }
        } else {
            assert forall|j: int| 0 <= j < largest_index(s) implies #[trigger] s[j] != largest_of(s) by {
                assert(s[j] == p[j]);
            }
        }
    }
}

/// A point whose coordinates may have different types.
pub struct Point<T, U> {
    pub x: T,
    pub y: U,
}

impl<T, U> Point<T, U> {
    /// Consumes both points: the x of this one with the y of `other`.
    pub fn mixup<V, W>(self, other: Point<V, W>) -> (r: Point<T, W>)
        ensures
            r.x == self.x,
            r.y == other.y,
    {
        Point { x: self.x, y: other.y }
    }

    /// A reference to the x coordinate.
    pub fn x(&self) -> (r: &T)
        ensures
            *r == self.x,
    {
        &self.x
    }

    /// A reference to the y coordinate.
    pub fn y(&self) -> (r: &U)
        ensures
            *r == self.y,
    {
        &self.y
    }
}

/// A function whose parameters are constrained in a `where` clause; it returns
/// `"result"` whatever its arguments.
pub fn some_function<T, U>(t: &T, u: &U) -> (r: String)
    where
        T: std::fmt::Display + Clone,
        U: Clone + std::fmt::Debug,
    ensures
        r@ == "result"@,
{
    String::from_str("result")
}

/// An iterator whose item type is an associated type.
pub trait Iterator2 {
    type Item;

    /// The next item, or `None` once the iterator is done.
    fn next(&mut self) -> Option<Self::Item>;
}

/// Counts from 1 up to `max`.
pub struct Counter {
    count: usize,
    max: usize,
}

impl Counter {
    /// How many items have been produced.
    pub closed spec fn count(&self) -> usize {
        self.count
    }

    /// The last item it produces.
    pub closed spec fn max(&self) -> usize {
        self.max
    }

    /// Well-formedness: it never counts past `max`.
    pub closed spec fn wf(&self) -> bool {
        self.count <= self.max
    }

    /// A counter that will produce 1, 2, ..., `max`.
    pub fn new(max: usize) -> (c: Self)
        ensures
            c.wf(),
            c.count() == 0,
            c.max() == max,
    {
        Counter { count: 0, max }
    }
}

impl Iterator2 for Counter {
    type Item = usize;

    /// The next number, or `None` once `max` has been produced.
    fn next(&mut self) -> (r: Option<usize>)
        ensures
            old(self).wf() ==> final(self).wf(),
            final(self).max() == old(self).max(),
            old(self).count() < old(self).max() ==> (r matches Some(v) && v == old(self).count() + 1)
                && final(self).count() == old(self).count() + 1,
            old(self).count() >= old(self).max() ==> r is None && final(self).count() == old(self).count(),
    {
        if self.count < self.max {
            self.count += 1;
            Some(self.count)
        } else {
            None
        }
    }
}

/// A wrapper whose type parameter defaults to `Vec<String>`.
pub struct Wrapper<T = Vec<String>> {
    pub value: T,
}

impl Default for Wrapper<Vec<String>> {
    /// Holds the single string `"default"`.
    fn default() -> (w: Self)
        ensures
            w.value@.len() == 1,
            w.value@[0]@ == "default"@,
    {
        let mut v: Vec<String> = Vec::new();
        v.push(String::from_str("default"));
        Wrapper { value: v }
    }
}

/// Two values of the same type.
#[derive(Debug)]
pub struct Pair<T> {
    pub x: T,
    pub y: T,
}

impl<T> Pair<T> {
    /// The pair `(x, y)`.
    pub fn new(x: T, y: T) -> (p: Self)
        ensures
            p.x == x,
            p.y == y,
    {
        Self { x, y }
    }
}

impl<T: PartialOrd> Pair<T> {
    /// Whether `x >= y`, which decides the side the pair reports as its largest.
    pub fn x_is_largest(&self) -> (r: bool)
        ensures
            ordered::<T>() ==> r == is_at_least(self.x, self.y),
    {
        self.x >= self.y
    }
}

} // verus!
