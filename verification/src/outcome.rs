use vstd::prelude::*;

verus! {

/// If the operation eventually resolves a value that passes the test, that value is
/// returned along with some metrics: how long it took (in clock ticks, measured from
/// the first resumption) and how many restarts were needed to get it.
#[derive(Debug, PartialEq, Eq)]
pub struct Success<T> {
    /// The success value returned by the test
    pub value: T,
    /// How many clock ticks elapsed between the first resumption and the one on which
    /// the operation resolved a passing value
    pub duration: u64,
    /// How many times the operation needed to be restarted before it resolved a
    /// passing value
    pub restarts: usize,
}

/// Different ways a `Restartable` can fail.
#[derive(Debug, PartialEq, Eq)]
pub enum Failure<E> {
    /// Returned if the operation never resolved before the timeout
    Timeout,
    /// Returned if the operation fails the test and then times out. Carries the last
    /// error from the test, and how many times the operation was restarted.
    Rejected {
        /// The failure value returned by the test
        error: E,
        /// How many times the operation was restarted before the timeout expired
        restarts: usize,
    },
}

} // verus!
