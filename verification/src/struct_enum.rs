//! Structs with methods and associated functions, and enums with and without data.
use vstd::prelude::*;
use vstd::string::*;
use crate::text::{decimal, integer_text_value, law_decimal_reads_back, push_decimal};

verus! {

/// A user account.
#[derive(Debug)]
pub struct User {
    pub username: String,
    pub email: String,
    pub active: bool,
    pub sign_in_count: u64,
}

impl User {
    /// A copy of `self` with another e-mail address: the struct update syntax
    /// `User { email, ..self.clone() }`.
    pub fn with_email(&self, email: String) -> (u: User)
        ensures
            u.email == email,
            u.username == self.username,
            u.active == self.active,
            u.sign_in_count == self.sign_in_count,
    {
        User {
            email,
            username: self.username.clone(),
            active: self.active,
            sign_in_count: self.sign_in_count,
        }
    }
}

/// A rectangle with whole-number sides.
#[derive(Debug, Clone, Copy, PartialEq, Eq, Structural)]
pub struct Rectangle {
    pub width: u32,
    pub height: u32,
}

impl Rectangle {
    /// Width times height.
    pub fn area(&self) -> (r: u32)
        requires
            self.width * self.height <= u32::MAX,
        ensures
            r == self.width * self.height,
    {
        self.width * self.height
    }

    /// Multiplies both sides by `factor` in place.
    pub fn scale(&mut self, factor: u32)
        requires
            old(self).width * factor <= u32::MAX,
            old(self).height * factor <= u32::MAX,
        ensures
            final(self).width == old(self).width * factor,
            final(self).height == old(self).height * factor,
    {
        self.width *= factor;
        self.height *= factor;
    }

    /// The square with sides `size`.
    pub fn square(size: u32) -> (r: Rectangle)
        ensures
            r.width == size,
            r.height == size,
    {
        Rectangle { width: size, height: size }
    }

    /// Twice the sum of the sides.
    pub fn perimeter(&self) -> (r: u32)
        requires
            2 * (self.width + self.height) <= u32::MAX,
        ensures
            r == 2 * (self.width + self.height),
    {
        2 * (self.width + self.height)
    }
}

/// Scaling a rectangle by `f` multiplies its area by `f * f`: the sides that
/// `scale` leaves give an area of the old area times `f * f`.
pub proof fn law_scale_area(r: Rectangle, f: u32)
    ensures
        (r.width * f) * (r.height * f) == (r.width * r.height) * (f * f),
{
    let w = r.width as int;
    let h = r.height as int;
    let k = f as int;
    assert((w * k) * (h * k) == (w * h) * (k * k)) by (nonlinear_arith);
}

/// A direction of movement.
#[derive(Debug, Clone, Copy, PartialEq, Eq, Structural)]
pub enum Direction {
    Up,
    Down,
    Left,
    Right,
}

impl Direction {
    /// The word for the direction.
    pub fn label(&self) -> (r: &'static str)
        ensures
            *self == Direction::Up ==> r@ == "向上"@,
            *self == Direction::Down ==> r@ == "向下"@,
            *self == Direction::Left ==> r@ == "向左"@,
            *self == Direction::Right ==> r@ == "向右"@,
    {
        match self {
            Direction::Up => "向上",
            Direction::Down => "向下",
            Direction::Left => "向左",
            Direction::Right => "向右",
        }
    }
}

/// A message carrying no data, named fields, a string, or a tuple.
#[derive(Debug)]
pub enum Message {
    Quit,
    Move { x: i32, y: i32 },
    Write(String),
    ChangeColor(u8, u8, u8),
}

/// The line that handling a message reports.
pub open spec fn message_text(m: Message) -> Seq<char> {
    match m {
        Message::Quit => "退出"@,
        Message::Move { x, y } => "移动到("@ + decimal(x as int) + ", "@ + decimal(y as int) + ")"@,
        Message::Write(s) => "写入: "@ + s@,
        Message::ChangeColor(r, g, b) => "颜色: "@ + decimal(r as int) + " "@ + decimal(g as int)
            + " "@ + decimal(b as int),
    }
}

/// Each message's line names the variant and then shows its data in the
/// order the variant holds it: `x` before `y`, and `r`, `g`, `b` in that order
/// separated by single spaces, each number in canonical decimal form.
pub proof fn law_message_lines(x: i32, y: i32, text: String, r: u8, g: u8, b: u8)
    ensures
        message_text(Message::Quit) == "退出"@,
        message_text(Message::Move { x, y }) == "移动到("@ + decimal(x as int) + ", "@ + decimal(
            y as int,
        ) + ")"@,
        message_text(Message::Write(text)) == "写入: "@ + text@,
        message_text(Message::ChangeColor(r, g, b)) == "颜色: "@ + decimal(r as int) + " "@
            + decimal(g as int) + " "@ + decimal(b as int),
        integer_text_value(decimal(r as int)) == Some(r as int),
        integer_text_value(decimal(g as int)) == Some(g as int),
        integer_text_value(decimal(b as int)) == Some(b as int),
        integer_text_value(decimal(x as int)) == Some(x as int),
        integer_text_value(decimal(y as int)) == Some(y as int),
{
    law_decimal_reads_back(r as int);
    law_decimal_reads_back(g as int);
    law_decimal_reads_back(b as int);
    law_decimal_reads_back(x as int);
    law_decimal_reads_back(y as int);
}

impl Message {
    /// The line that handling this message reports, one arm per variant.
    pub fn describe(&self) -> (r: String)
        ensures
            r@ == message_text(*self),
    {
        match self {
            Message::Quit => String::from_str("退出"),
            Message::Move { x, y } => {
                let mut s = String::from_str("移动到(");
                push_decimal(&mut s, *x as i64);
                s.append(", ");
                push_decimal(&mut s, *y as i64);
                s.append(")");
                s
            },
            Message::Write(text) => {
                let mut s = String::from_str("写入: ");
                s.append(text.as_str());
                s
            },
            Message::ChangeColor(r, g, b) => {
                let mut s = String::from_str("颜色: ");
                push_decimal(&mut s, *r as i64);
                s.append(" ");
                push_decimal(&mut s, *g as i64);
                s.append(" ");
                push_decimal(&mut s, *b as i64);
                s
            },
        }
    }
}

} // verus!
