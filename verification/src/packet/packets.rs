//! A packet with no data, for tests of the command handling.
use vstd::prelude::*;

verus! {

pub struct TestCommandPacket {}

impl TestCommandPacket {
    pub fn new() -> Self {
        TestCommandPacket {  }
    }
}

} // verus!
