//! Smart pointers: trait objects behind a `Box`, a custom pointer with `Deref`,
//! and copy-on-write strings.
use vstd::prelude::*;
use std::borrow::Cow;
use std::ops::Deref;
use crate::text::push_char;

verus! {

/// An animal that can make a sound.
pub trait Animal {
    /// Its sound.
    fn make_sound(&self) -> &str;
}

/// A dog.
pub struct Dog;

/// A cat.
pub struct Cat;

impl Animal for Dog {
    /// `"汪汪"`.
    fn make_sound(&self) -> (r: &str)
        ensures
            r@ == "汪汪"@,
    {
        "汪汪"
    }
}

impl Animal for Cat {
    /// `"喵喵"`.
    fn make_sound(&self) -> (r: &str)
        ensures
            r@ == "喵喵"@,
    {
        "喵喵"
    }
}

/// A box of our own that hands out its content through `Deref`.
pub struct MyBox<T>(pub T);

impl<T> MyBox<T> {
    /// Boxes `x`.
    pub fn new(x: T) -> (b: MyBox<T>)
        ensures
            b.0 == x,
    {
        MyBox(x)
    }
}

impl<T> Deref for MyBox<T> {
    type Target = T;

    /// A reference to the content.
    fn deref(&self) -> (r: &T)
        ensures
            *r == self.0,
    {
        &self.0
    }
}

/// `c`, with `'X'` turned into `'Y'`.
pub open spec fn x_to_y(c: char) -> char {
    if c == 'X' { 'Y' } else { c }
}

/// Replacing turns `'X'` into `'Y'`, leaves every other character as it is,
/// and leaves no `'X'`.
pub proof fn law_x_to_y(c: char)
    ensures
        x_to_y(c) != 'X',
        c == 'X' ==> x_to_y(c) == 'Y',
        c != 'X' ==> x_to_y(c) == c,
{
}

/// Whether `s` holds the character `c`.
fn has_char(s: &str, c: char) -> (r: bool)
    ensures
        r == s@.contains(c),
{
    let n = s.unicode_len();
    let mut i: usize = 0;
    while i < n
        invariant
            n == s@.len(),
            i <= n,
            forall|j: int| 0 <= j < i ==> s@[j] != c,
        decreases n - i,
    {
        if s.get_char(i) == c {
            return true;
        }
        i = i + 1;
    }
    false
}

/// `s.replace('X', "Y")`.
fn replace_x(s: &str) -> (r: String)
    ensures
        r@ == s@.map_values(|c: char| x_to_y(c)),
{
    let n = s.unicode_len();
    let mut r = String::new();
    let mut i: usize = 0;
    while i < n
        invariant
            n == s@.len(),
            i <= n,
            r@ == s@.take(i as int).map_values(|c: char| x_to_y(c)),
        decreases n - i,
    {
        let c = s.get_char(i);
        push_char(&mut r, if c == 'X' { 'Y' } else { c });
        i = i + 1;
        assert(r@ =~= s@.take(i as int).map_values(|c: char| x_to_y(c)));
    }
    assert(s@.take(n as int) =~= s@);
    r
}

/// Copy on write: the input itself when it holds no `'X'`, otherwise an owned
/// copy with every `'X'` replaced by `'Y'`.
pub fn process_input(input: Cow<str>) -> (r: Cow<str>)
    ensures
        r@ == input@.map_values(|c: char| x_to_y(c)),
        !input@.contains('X') ==> r == input,
        input@.contains('X') ==> r is Owned,
{
    let found = match &input {
        Cow::Borrowed(b) => has_char(b, 'X'),
        Cow::Owned(o) => has_char(o.as_str(), 'X'),
    };
    if found {
        let replaced = match &input {
            Cow::Borrowed(b) => replace_x(b),
            Cow::Owned(o) => replace_x(o.as_str()),
        };
        Cow::Owned(replaced)
    } else {
        proof {
            assert(input@.map_values(|c: char| x_to_y(c)) =~= input@);
        }
        input
    }
}

} // verus!
