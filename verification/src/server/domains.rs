//! The endpoint that lists the stored domains.

use vstd::prelude::*;

verus! {

#[derive(Clone, Copy, Debug)]
pub struct DomainApi;

} // verus!
