//! The part of this gate's configuration that names it.
use vstd::prelude::*;

verus! {

/// The main section of the configuration: this gate's name.
#[derive(Debug)]
pub struct MainConfig {
    name: String,
}

impl MainConfig {
    pub closed spec fn spec_name(&self) -> Seq<char> {
        self.name@
    }

    pub fn new(name: String) -> (r: Self)
        ensures
            r.spec_name() == name@,
    {
        MainConfig { name }
    }

    /// A copy of the name.
    pub fn get_name(&self) -> (r: String)
        ensures
            r@ == self.spec_name(),
    {
        self.name.clone()
    }
}

} // verus!
