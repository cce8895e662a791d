//! Lifetimes: functions and structs that hand out references tied to their
//! inputs, and a small builder that borrows its strings.
use vstd::prelude::*;
use vstd::string::*;
use crate::text::{prefix_before, prefix_until, skip_white, leading_word, words, first_token, debug_str, debug_str_text, debug_plain};

verus! {

/// The longer of `x` and `y` in bytes; `y` when they are equally long.
pub fn longest<'a>(x: &'a str, y: &'a str) -> (r: &'a str)
    ensures
        r@ == if x.len() > y.len() { x@ } else { y@ },
{
    if x.len() > y.len() {
        x
    } else {
        y
    }
}

/// A piece of text borrowed from somewhere else.
pub struct ImportantExcerpt<'a> {
    pub part: &'a str,
}

impl<'a> ImportantExcerpt<'a> {
    /// Always 3.
    pub fn level(&self) -> (r: i32)
        ensures
            r == 3,
    {
        3
    }

    /// The excerpt, with the lifetime of `self`; the announcement is only shown
    /// to the user.
    pub fn announce_and_return(&self, announcement: &str) -> (r: &str)
        ensures
            r@ == self.part@,
    {
        self.part
    }

    /// The excerpt, with the lifetime of the borrowed text rather than that of
    /// the announcement.
    pub fn announce_and_return2<'b>(&self, announcement: &'b str) -> (r: &'a str)
        ensures
            r@ == self.part@,
    {
        self.part
    }
}

/// The first word of `s`: what `s.split(' ').next().unwrap()` gives.
pub fn first_word(s: &str) -> (r: &str)
    ensures
        r@ == prefix_before(s@, ' '),
{
    prefix_until(s, ' ')
}

/// A parser that borrows its input for `'a`.
pub trait Parser<'a> {
    /// The parsed part of `input`.
    fn parse(&self, input: &'a str) -> &'a str;
}

/// Takes the first whitespace-separated word.
pub struct SimpleParser;

impl<'a> Parser<'a> for SimpleParser {
    /// The first whitespace-separated word of `input`, or `""` when it has none.
    fn parse(&self, input: &'a str) -> (r: &'a str)
        ensures
            r@ == leading_word(skip_white(input@)),
            words(input@).len() > 0 ==> r@ == words(input@)[0],
            words(input@).len() == 0 ==> r@.len() == 0,
    {
        first_token(input)
    }
}

/// A named setting with an optional value, both borrowed.
pub struct Config<'a> {
    pub name: &'a str,
    pub value: Option<&'a str>,
}

/// How `build` writes an optional value: `Debug` for `Option<&str>`.
pub open spec fn option_debug_text(v: Option<&str>) -> Seq<char> {
    match v {
        Some(s) => "Some("@ + debug_str_text(s@) + ")"@,
        None => "None"@,
    }
}

impl<'a> Config<'a> {
    /// A setting called `name` with no value yet.
    pub fn new(name: &'a str) -> (c: Self)
        ensures
            c.name == name,
            c.value is None,
    {
        Config { name, value: None }
    }

    /// Sets the value and hands the builder back for chaining.
    pub fn value(&mut self, value: &'a str) -> (r: &mut Self)
        ensures
            r.name == old(self).name,
            r.value == Some(value),
            *final(self) == *final(r),
    {
        self.value = Some(value);
        self
    }

    /// `"{name}: {value:?}"`; a value made of plain printable characters is
    /// written between double quotes as it is.
    pub fn build(&self) -> (r: String)
        ensures
            r@ == self.name@ + ": "@ + option_debug_text(self.value),
            self.value matches Some(v) ==> ((forall|i: int| 0 <= i < v@.len() ==> debug_plain(#[trigger] v@[i]))
                ==> r@ == self.name@ + ": Some(\""@ + v@ + "\")"@),
    {
        let mut s = String::from_str(self.name);
        s.append(": ");
        match self.value {
            Some(v) => {
                s.append("Some(");
                let d = debug_str(v);
                s.append(d.as_str());
                s.append(")");
                proof {
                    reveal_strlit(": ");
                    reveal_strlit("Some(");
                    reveal_strlit(")");
                    reveal_strlit(": Some(\"");
                    reveal_strlit("\")");
                    if forall|i: int| 0 <= i < v@.len() ==> debug_plain(#[trigger] v@[i]) {
                        assert(s@ =~= self.name@ + ": Some(\""@ + v@ + "\")"@);
                    }
                }
            },
            None => {
                s.append("None");
            },
        }
        s
    }
}

} // verus!
