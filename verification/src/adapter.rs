//! The capability that every downstream protocol offers to the hub.

use crate::bytes::copy_range;
use vstd::prelude::*;

verus! {

/// What an adapter hands back when the downstream call went through.
#[derive(Debug, PartialEq, Eq)]
pub struct Outcome {
    /// Result bytes, in a format of the adapter's choosing.
    pub data: Vec<u8>,
}

impl Clone for Outcome {
    fn clone(&self) -> (copy: Self)
        ensures
            copy.data@ == self.data@,
    {
        let data = copy_range(self.data.as_slice(), 0, self.data.len());
        assert(data@ =~= self.data@);
        Outcome { data }
    }
}

/// Why an adapter could not carry an intent out. The hub records the code
/// and passes the error on without reading anything into it.
#[derive(Debug, Clone, Copy, PartialEq, Eq, Structural)]
pub struct AdapterError {
    pub code: u32,
}

/// A downstream protocol, such as lending or swapping, seen from the hub.
///
/// The hub calls `execute` at most once per intent, with the intent's
/// payload, and assumes nothing of the result nor of what the call does to
/// the adapter.
pub trait Adapter {
    /// Carries out the action that `payload` describes.
    fn execute(&mut self, payload: &[u8]) -> Result<Outcome, AdapterError>;
}

/// Lets `adapter` execute `payload`, once, and hands the adapter back with
/// what it returned. Every call that the hub makes to an adapter is made
/// here.
fn run<A: Adapter>(adapter: A, payload: &[u8]) -> (done: (A, Result<Outcome, AdapterError>))
    ensures
        exists|borrowed: &mut A|
            *borrowed == adapter && *final(borrowed) == done.0 && #[trigger] call_ensures(
                A::execute,
                (borrowed, payload),
                done.1,
            ),
{
    let mut held = adapter;
    let result = held.execute(payload);
    let ghost after = held;
    let ghost returned = result;
    assert(exists|borrowed: &mut A|
        *borrowed == adapter && *final(borrowed) == after && #[trigger] call_ensures(
            A::execute,
            (borrowed, payload),
            returned,
        ));
    let done = (held, result);
    assert(done.0 == after && done.1 == returned);
    done
}

/// Whether an adapter in state `before` may, when it executes `payload`
/// once, return `result` and be left in state `after`.
///
/// Every call made by [`execute_once`] is an instance of this relation,
/// and every instance is one call of [`Adapter::execute`] that took the
/// adapter from `before` to `after`. What the adapter does in that call is
/// its own business.
pub closed spec fn may_return<A: Adapter>(
    before: A,
    payload: Seq<u8>,
    result: Result<Outcome, AdapterError>,
    after: A,
) -> bool {
    exists|bytes: &[u8]| #[trigger]
        bytes@ == payload && call_ensures(run::<A>, (before, bytes), (after, result))
}

/// Lets `adapter` execute `payload`, once, and hands the adapter back with
/// what it returned.
pub fn execute_once<A: Adapter>(adapter: A, payload: &[u8]) -> (done: (
    A,
    Result<Outcome, AdapterError>,
))
    ensures
        may_return(adapter, payload@, done.1, done.0),
{
    let call = run::<A>;
    call(adapter, payload)
}

} // verus!
