//! A parsed configuration of any shape.
use vstd::prelude::*;

verus! {

/// Holds configuration data read from a file.
#[derive(Debug)]
pub struct ConfigParser<T> {
    data: T,
}

impl<T> ConfigParser<T> {
    /// The configuration held.
    pub closed spec fn spec_data(&self) -> T {
        self.data
    }

    /// Holds the given configuration.
    pub fn from_data(data: T) -> (r: Self)
        ensures
            r.spec_data() == data,
    {
        ConfigParser { data }
    }

    /// The configuration held.
    pub fn get_data(self) -> (r: T)
        ensures
            r == self.spec_data(),
    {
        self.data
    }
}

} // verus!
