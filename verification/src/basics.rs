//! Basic syntax: functions returning values and tuples, `if` as an expression,
//! and the three loop forms.
use vstd::prelude::*;
use vstd::string::*;

verus! {

/// `"Hello, {name}!"`.
pub fn greet(name: &str) -> (r: String)
    ensures
        r@ == "Hello, "@ + name@ + "!"@,
{
    let greeting = "Hello";
    let mut s = String::from_str(greeting);
    s.append(", ");
    s.append(name);
    s.append("!");
    proof {
        reveal_strlit("Hello");
        reveal_strlit(", ");
        reveal_strlit("Hello, ");
        assert("Hello"@ + ", "@ =~= "Hello, "@);
    }
    s
}

/// The two values in the other order.
pub fn swap(x: i32, y: i32) -> (r: (i32, i32))
    ensures
        r == (y, x),
{
    (y, x)
}

/// The band an `if`/`else if` chain puts `n` in: below 10, 10 to 19, or 20 and above.
pub fn number_band(n: i32) -> (r: &'static str)
    ensures
        n < 10 ==> r@ == "小于10"@,
        10 <= n < 20 ==> r@ == "10-20之间"@,
        n >= 20 ==> r@ == "大于等于20"@,
{
    if n < 10 {
        "小于10"
    } else if n < 20 {
        "10-20之间"
    } else {
        "大于等于20"
    }
}

/// `if` as an expression: 5 when `condition` holds, 6 otherwise.
pub fn if_value(condition: bool) -> (r: i32)
    ensures
        r == if condition { 5i32 } else { 6i32 },
{
    if condition { 5 } else { 6 }
}

/// A `loop` that counts up from 0 and breaks with twice the counter once it
/// reaches `target`.
pub fn loop_break_value(target: i32) -> (r: i32)
    requires
        1 <= target <= i32::MAX / 2,
    ensures
        r == 2 * target,
{
    let mut counter: i32 = 0;
    loop
        invariant
            0 <= counter < target,
            target <= i32::MAX / 2,
        decreases target - counter,
    {
        counter += 1;
        if counter == target {
            return counter * 2;
        }
    }
}

/// A `while` countdown: `n, n - 1, ..., 1`.
pub fn countdown(n: i32) -> (r: Vec<i32>)
    ensures
        r@.len() == if n > 0 { n as int } else { 0 },
        forall|i: int| 0 <= i < r@.len() ==> r@[i] == n - i,
{
    let mut r: Vec<i32> = Vec::new();
    let mut k: i32 = n;
    while k > 0
        invariant
            k <= n || n <= 0,
            n > 0 ==> (0 <= k <= n && r@.len() == n - k),
            n <= 0 ==> (k == n && r@.len() == 0),
            forall|i: int| 0 <= i < r@.len() ==> r@[i] == n - i,
        decreases k,
    {
        r.push(k);
        k -= 1;
    }
    r
}

/// One line that the nested labelled loop reports.
#[derive(Clone, Copy, Debug, PartialEq, Eq, Structural)]
pub enum LoopEvent {
    /// The outer loop starts a round with this count.
    Count(i32),
    /// The inner loop sees this remaining value.
    Remaining(i32),
}

/// The events of the first `c` full rounds: each reports its count, then 10 and 9.
pub open spec fn full_rounds(c: nat) -> Seq<LoopEvent>
    decreases c,
{
    if c == 0 {
        Seq::empty()
    } else {
        full_rounds((c - 1) as nat) + seq![
            LoopEvent::Count((c - 1) as i32),
            LoopEvent::Remaining(10),
            LoopEvent::Remaining(9),
        ]
    }
}

/// The events of the labelled loop that leaves both loops from the inner one
/// once the count reaches `stop`: `stop` full rounds, then the count `stop` and
/// the value 10.
pub open spec fn labelled_trace(stop: nat) -> Seq<LoopEvent> {
    full_rounds(stop) + seq![LoopEvent::Count(stop as i32), LoopEvent::Remaining(10)]
}

/// Runs the nested loop: the inner loop counts `remaining` down from 10 and
/// breaks at 9; once `count` reaches `stop` it breaks out of the outer loop by
/// its label.
pub fn labelled_loops(stop: i32) -> (r: Vec<LoopEvent>)
    requires
        0 <= stop,
    ensures
        r@ == labelled_trace(stop as nat),
{
    let mut r: Vec<LoopEvent> = Vec::new();
    let mut count: i32 = 0;
    'counting_up: loop
        invariant_except_break
            0 <= count <= stop,
            r@ == full_rounds(count as nat),
        ensures
            r@ == labelled_trace(stop as nat),
        decreases stop - count,
    {
        r.push(LoopEvent::Count(count));
        let mut remaining: i32 = 10;
        loop
            invariant_except_break
                9 <= remaining <= 10,
                0 <= count <= stop,
                remaining == 9 ==> count < stop,
                remaining == 10 ==> r@ == full_rounds(count as nat) + seq![LoopEvent::Count(count)],
                remaining == 9 ==> r@ == full_rounds(count as nat) + seq![
                    LoopEvent::Count(count),
                    LoopEvent::Remaining(10),
                ],
            ensures
                count < stop,
                r@ == full_rounds(count as nat) + seq![
                    LoopEvent::Count(count),
                    LoopEvent::Remaining(10),
                    LoopEvent::Remaining(9),
                ],
            decreases remaining,
        {
            r.push(LoopEvent::Remaining(remaining));
            if remaining == 9 {
                break;
            }
            if count == stop {
                proof {
                    assert(r@ =~= labelled_trace(stop as nat));
                }
                break 'counting_up;
            }
            remaining -= 1;
        }
        proof {
            assert(full_rounds((count + 1) as nat) =~= full_rounds(count as nat) + seq![
                LoopEvent::Count(count),
                LoopEvent::Remaining(10),
                LoopEvent::Remaining(9),
            ]);
        }
        count += 1;
    }
    r
}

} // verus!
