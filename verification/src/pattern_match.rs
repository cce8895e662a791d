//! Pattern matching: literal, range and or-patterns, destructuring with guards,
//! `while let`, and a small arithmetic expression interpreter.
use vstd::prelude::*;

verus! {

/// The English word for 1 and 2, `"other"` for anything else.
pub fn number_name(x: i32) -> (r: &'static str)
    ensures
        x == 1 ==> r@ == "one"@,
        x == 2 ==> r@ == "two"@,
        x != 1 && x != 2 ==> r@ == "other"@,
{
    match x {
        1 => "one",
        2 => "two",
        _ => "other",
    }
}

/// Which band `n` falls into: 1 to 5, 6 to 10, or neither.
pub fn range_label(n: i32) -> (r: &'static str)
    ensures
        1 <= n <= 5 ==> r@ == "1到5之间"@,
        6 <= n <= 10 ==> r@ == "6到10之间"@,
        !(1 <= n <= 10) ==> r@ == "其他"@,
{
    match n {
        1 | 2 | 3 | 4 | 5 => "1到5之间",
        6..=10 => "6到10之间",
        _ => "其他",
    }
}

/// Whether `c` is a lowercase ASCII letter, an uppercase ASCII letter, an ASCII
/// digit, or something else.
pub fn char_kind(c: char) -> (r: &'static str)
    ensures
        'a' <= c <= 'z' ==> r@ == "小写字母"@,
        'A' <= c <= 'Z' ==> r@ == "大写字母"@,
        '0' <= c <= '9' ==> r@ == "数字"@,
        !('a' <= c <= 'z' || 'A' <= c <= 'Z' || '0' <= c <= '9') ==> r@ == "其他"@,
{
    match c {
        'a'..='z' => "小写字母",
        'A'..='Z' => "大写字母",
        '0'..='9' => "数字",
        _ => "其他",
    }
}

/// A point with integer coordinates.
#[derive(Clone, Copy, Debug, PartialEq, Eq, Structural)]
pub struct Point {
    pub x: i32,
    pub y: i32,
}

/// Where a point lies, as the first matching arm of `locate` finds it.
#[derive(Clone, Copy, Debug, PartialEq, Eq, Structural)]
pub enum Location {
    /// On the x axis (y is 0), with its x coordinate.
    OnXAxis(i32),
    /// On the y axis (x is 0, y is not), with its y coordinate.
    OnYAxis(i32),
    /// On the line y = x, off both axes.
    OnDiagonal,
    /// Anywhere else, with both coordinates.
    Elsewhere(i32, i32),
}

/// Classifies `p` with struct patterns tried in order: the x axis first, then the
/// y axis, then the diagonal (a guard), then anything.
pub fn locate(p: Point) -> (r: Location)
    ensures
        p.y == 0 ==> r == Location::OnXAxis(p.x),
        p.y != 0 && p.x == 0 ==> r == Location::OnYAxis(p.y),
        p.y != 0 && p.x != 0 && p.x == p.y ==> r == Location::OnDiagonal,
        p.y != 0 && p.x != 0 && p.x != p.y ==> r == Location::Elsewhere(p.x, p.y),
{
    match p {
        Point { x, y: 0 } => Location::OnXAxis(x),
        Point { x: 0, y } => Location::OnYAxis(y),
        Point { x, y } if x == y => Location::OnDiagonal,
        Point { x, y } => Location::Elsewhere(x, y),
    }
}

/// Which arm of a guarded match on an optional number is taken.
#[derive(Clone, Copy, Debug, PartialEq, Eq, Structural)]
pub enum GuardArm {
    /// A value below 5.
    Below5(i32),
    /// A value of 5 or more.
    AtLeast5(i32),
    /// No value.
    Nothing,
}

/// Matches `n` with a guard `x < 5` on the first `Some` arm.
pub fn guard_arm(n: Option<i32>) -> (r: GuardArm)
    ensures
        n matches Some(x) ==> (x < 5 ==> r == GuardArm::Below5(x)),
        n matches Some(x) ==> (x >= 5 ==> r == GuardArm::AtLeast5(x)),
        n is None ==> r == GuardArm::Nothing,
{
    match n {
        Some(x) if x < 5 => GuardArm::Below5(x),
        Some(x) => GuardArm::AtLeast5(x),
        None => GuardArm::Nothing,
    }
}

/// `4 | 5 | 6 if y`: the guard applies to the whole or-pattern, so the arm is
/// taken only when `x` is one of 4, 5, 6 and `y` holds.
pub fn or_pattern_with_guard(x: i32, y: bool) -> (r: bool)
    ensures
        r == ((x == 4 || x == 5 || x == 6) && y),
{
    // The guard is tested inside the or-pattern's arm: when it fails, the value
    // is that of the `_` arm.
    match x {
        4 | 5 | 6 => y,
        _ => false,
    }
}

/// Which arm of `(1, _, _)`, `(_, 2, _)`, `(_, _, 3)`, `_` a triple takes:
/// the first that matches.
pub fn tuple_label(t: (i32, i32, i32)) -> (r: &'static str)
    ensures
        t.0 == 1 ==> r@ == "第一个是1"@,
        t.0 != 1 && t.1 == 2 ==> r@ == "第二个是2"@,
        t.0 != 1 && t.1 != 2 && t.2 == 3 ==> r@ == "第三个是3"@,
        t.0 != 1 && t.1 != 2 && t.2 != 3 ==> r@ == "其他"@,
{
    match t {
        (1, _, _) => "第一个是1",
        (_, 2, _) => "第二个是2",
        (_, _, 3) => "第三个是3",
        _ => "其他",
    }
}

/// The Chinese numeral for 1, 2 and 3, `"其他"` for anything else.
pub fn chinese_numeral(x: i32) -> (r: &'static str)
    ensures
        x == 1 ==> r@ == "一"@,
        x == 2 ==> r@ == "二"@,
        x == 3 ==> r@ == "三"@,
        !(1 <= x <= 3) ==> r@ == "其他"@,
{
    match x {
        1 => "一",
        2 => "二",
        3 => "三",
        _ => "其他",
    }
}

/// `n @ 1..=5`: binds `n` when it lies in the range.
pub fn bind_in_range(n: i32) -> (r: Option<i32>)
    ensures
        1 <= n <= 5 ==> r == Some(n),
        !(1 <= n <= 5) ==> r is None,
{
    match n {
        n @ 1..=5 => Some(n),
        _ => None,
    }
}

/// `Point { x: n @ 0..=5, .. } if n > 0`: the x coordinate when it lies in 1..=5.
pub fn small_positive_x(p: Point) -> (r: Option<i32>)
    ensures
        1 <= p.x <= 5 ==> r == Some(p.x),
        !(1 <= p.x <= 5) ==> r is None,
{
    match p {
        Point { x: n @ 0..=5, y: _ } if n > 0 => Some(n),
        _ => None,
    }
}

/// Pops `stack` empty with `while let`, giving the values in the order they came off.
pub fn pop_all(stack: Vec<i32>) -> (r: Vec<i32>)
    ensures
        r@ == stack@.reverse(),
{
    let mut stack = stack;
    let ghost orig = stack@;
    let mut out: Vec<i32> = Vec::new();
    loop
        invariant
            orig.len() == stack@.len() + out@.len(),
            stack@ == orig.take(stack@.len() as int),
            out@ == orig.skip(stack@.len() as int).reverse(),
        ensures
            stack@.len() == 0,
            out@ == orig.skip(0).reverse(),
        decreases stack@.len(),
    {
        let ghost k = stack@.len() as int;
        match stack.pop() {
            Some(top) => {
                out.push(top);
                proof {
                    assert(out@ =~= orig.skip(k - 1).reverse()) by {
                        assert(orig.skip(k - 1) =~= seq![orig[k - 1]] + orig.skip(k));
                    }
                    assert(stack@ =~= orig.take(k - 1));
                }
            },
            None => {
                break;
            },
        }
    }
    proof {
        assert(orig.skip(0) =~= orig);
    }
    out
}

/// `for (a, b) in pairs`: the sum of each pair.
pub fn pair_sums(pairs: &[(i32, i32)]) -> (r: Vec<i32>)
    requires
        forall|i: int| 0 <= i < pairs@.len() ==> i32::MIN <= (#[trigger] pairs@[i]).0 + pairs@[i].1 <= i32::MAX,
    ensures
        r@.len() == pairs@.len(),
        forall|i: int| 0 <= i < pairs@.len() ==> (#[trigger] r@[i]) == pairs@[i].0 + pairs@[i].1,
{
    let mut r: Vec<i32> = Vec::new();
    let mut i: usize = 0;
    while i < pairs.len()
        invariant
            i <= pairs@.len(),
            r@.len() == i,
            forall|j: int| 0 <= j < pairs@.len() ==> i32::MIN <= (#[trigger] pairs@[j]).0 + pairs@[j].1 <= i32::MAX,
            forall|j: int| 0 <= j < i ==> (#[trigger] r@[j]) == pairs@[j].0 + pairs@[j].1,
        decreases pairs@.len() - i,
    {
        let (a, b) = pairs[i];
        r.push(a + b);
        i = i + 1;
    }
    r
}

/// An arithmetic expression over `i32` literals.
pub enum Expr {
    Value(i32),
    Add(Box<Expr>, Box<Expr>),
    Sub(Box<Expr>, Box<Expr>),
    Mul(Box<Expr>, Box<Expr>),
}

/// The mathematical value of `e`, computed over unbounded integers.
pub open spec fn value(e: Expr) -> int
    decreases e,
{
    match e {
        Expr::Value(n) => n as int,
        Expr::Add(a, b) => value(*a) + value(*b),
        Expr::Sub(a, b) => value(*a) - value(*b),
        Expr::Mul(a, b) => value(*a) * value(*b),
    }
}

/// Whether every subexpression of `e` has a value that fits in an `i32`, so that
/// evaluating it with `i32` arithmetic never overflows.
pub open spec fn fits_i32(e: Expr) -> bool
    decreases e,
{
    &&& i32::MIN <= value(e) <= i32::MAX
    &&& match e {
        Expr::Value(_) => true,
        Expr::Add(a, b) => fits_i32(*a) && fits_i32(*b),
        Expr::Sub(a, b) => fits_i32(*a) && fits_i32(*b),
        Expr::Mul(a, b) => fits_i32(*a) && fits_i32(*b),
    }
}

/// Evaluates `e` by structural recursion. Every intermediate result must fit in
/// an `i32`: an overflow would panic.
pub fn eval(expr: &Expr) -> (r: i32)
    requires
        fits_i32(*expr),
    ensures
        r == value(*expr),
    decreases expr,
{
    match expr {
        Expr::Value(n) => *n,
        Expr::Add(a, b) => eval(a) + eval(b),
        Expr::Sub(a, b) => eval(a) - eval(b),
        Expr::Mul(a, b) => eval(a) * eval(b),
    }
}

/// Evaluates `e` with checked `i32` arithmetic: `None` exactly when some
/// subexpression overflows, which is when `eval` would panic.
pub fn checked_eval(expr: &Expr) -> (r: Option<i32>)
    ensures
        r is Some <==> fits_i32(*expr),
        r matches Some(v) ==> v == value(*expr),
    decreases expr,
{
    match expr {
        Expr::Value(n) => Some(*n),
        Expr::Add(a, b) => {
            let x = checked_eval(a)?;
            let y = checked_eval(b)?;
            x.checked_add(y)
        },
        Expr::Sub(a, b) => {
            let x = checked_eval(a)?;
            let y = checked_eval(b)?;
            x.checked_sub(y)
        },
        Expr::Mul(a, b) => {
            let x = checked_eval(a)?;
            let y = checked_eval(b)?;
            x.checked_mul(y)
        },
    }
}

/// Evaluation is compositional: the value of a compound expression is the
/// operator applied to the values of its operands, for every operand pair.
pub proof fn law_eval_compositional(a: Expr, b: Expr)
    ensures
        value(Expr::Add(Box::new(a), Box::new(b))) == value(a) + value(b),
        value(Expr::Sub(Box::new(a), Box::new(b))) == value(a) - value(b),
        value(Expr::Mul(Box::new(a), Box::new(b))) == value(a) * value(b),
{
}

} // verus!
