//! Running the kernel's own tests, and the exit codes reported for them.

use vstd::prelude::*;

verus! {

/// The exit code that reports that every test passed.
pub const EXIT_SUCCESS: u32 = 0x10;

/// The exit code that reports that a test failed.
pub const EXIT_FAILURE: u32 = 0x11;

/// A test that can be run.
pub trait Testable {
    /// Runs the test; a failing test panics.
    fn run(&self);
}

/// Runs every test in order, and returns the exit code to report when all
/// of them have returned.
pub fn test_runner<T: Testable>(tests: &[T]) -> (code: u32)
    ensures
        code == EXIT_SUCCESS,
{
    let mut k: usize = 0;
    while k < tests.len()
        invariant
            k <= tests@.len(),
        decreases tests@.len() - k,
    {
        tests[k].run();
        k = k + 1;
    }
    EXIT_SUCCESS
}

/// Returns the exit code to report when a test has panicked.
pub fn test_panic_handler() -> (code: u32)
    ensures
        code == EXIT_FAILURE,
{
    EXIT_FAILURE
}

} // verus!
