//! The cache of the application, which holds nothing yet.

use vstd::prelude::*;

verus! {

#[derive(Debug)]
pub struct AppCache {}

impl AppCache {
    pub fn new() -> (r: Self)
        ensures
            r == (AppCache {  }),
    {
        Self {  }
    }
}

impl Default for AppCache {
    fn default() -> (r: Self)
        ensures
            r == (AppCache {  }),
    {
        Self::new()
    }
}

} // verus!
