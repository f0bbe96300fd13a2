use vstd::prelude::*;

verus! {

/// Runs the test of a file; the reading of files is left to the program around.
#[derive(Debug)]
pub struct TestRunner {}

impl TestRunner {
    pub fn new() -> (r: TestRunner) {
        TestRunner {  }
    }
}

} // verus!
