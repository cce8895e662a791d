//! The decisions behind the asynchronous examples: a future's poll step, and
//! the values that the example `async fn`s compute once awaited.
use vstd::prelude::*;
use vstd::string::*;
use crate::text::{decimal, push_decimal};

verus! {

/// What one poll of a future reports.
#[derive(Clone, Copy, Debug)]
pub enum PollState {
    /// Finished, with this output.
    Ready(&'static str),
    /// Not finished yet; poll again later.
    Pending,
}

/// A future that is pending on its first poll and ready on every later one.
pub struct SimpleFuture {
    pub done: bool,
}

impl SimpleFuture {
    /// A future that has not been polled yet.
    pub fn new() -> (f: SimpleFuture)
        ensures
            !f.done,
    {
        SimpleFuture { done: false }
    }

    /// One poll: `Pending` the first time (which marks it done), then `Ready`
    /// with `"Future 完成!"`.
    pub fn poll_step(&mut self) -> (r: PollState)
        ensures
            old(self).done ==> final(self).done && (r matches PollState::Ready(s) && s@ == "Future 完成!"@),
            !old(self).done ==> final(self).done && r is Pending,
    {
        if self.done {
            PollState::Ready("Future 完成!")
        } else {
            self.done = true;
            PollState::Pending
        }
    }
}

/// `"数据 {id}"`: what fetching the data with this id yields.
pub fn fetch_data(id: u32) -> (r: String)
    ensures
        r@ == "数据 "@ + decimal(id as int),
{
    let mut s = String::from_str("数据 ");
    push_decimal(&mut s, id as i64);
    s
}

/// Fails for id 0 and fetches the data for any other id.
pub fn may_fail(id: u32) -> (r: Result<String, &'static str>)
    ensures
        id == 0 ==> (r matches Err(e) && e@ == "ID不能为0"@),
        id != 0 ==> (r matches Ok(s) && s@ == "数据 "@ + decimal(id as int)),
{
    if id == 0 {
        Err("ID不能为0")
    } else {
        Ok(fetch_data(id))
    }
}

/// The data for ids 1 and 2, joined with `" + "`; the first failure is
/// propagated with `?`.
pub fn process() -> (r: Result<String, &'static str>)
    ensures
        r matches Ok(s) && s@ == "数据 "@ + decimal(1) + " + "@ + "数据 "@ + decimal(2),
{
    let data = may_fail(1)?;
    let data2 = may_fail(2)?;
    let mut s = data;
    s.append(" + ");
    s.append(data2.as_str());
    Ok(s)
}

/// Twice `id`: what the example asynchronous operation resolves to.
pub fn async_operation(id: i32) -> (r: i32)
    requires
        i32::MIN <= 2 * id <= i32::MAX,
    ensures
        r == 2 * id,
{
    id * 2
}

/// A service with a name.
pub struct Service {
    pub name: String,
}

impl Service {
    /// `"{name} 的数据"`.
    pub fn fetch(&self) -> (r: String)
        ensures
            r@ == self.name@ + " 的数据"@,
    {
        let mut s = self.name.clone();
        s.append(" 的数据");
        s
    }

    /// `"处理: {data}"`.
    pub fn process(&self, data: &str) -> (r: String)
        ensures
            r@ == "处理: "@ + data@,
    {
        let mut s = String::from_str("处理: ");
        s.append(data);
        s
    }
}

} // verus!
