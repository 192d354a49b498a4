//! The commands for Porkbun.

use vstd::prelude::*;

verus! {

#[derive(Clone, Copy, Debug, PartialEq, Eq, Structural)]
pub enum PorkbunCommands {
    /// Index Porkbun domains & dns
    Index {
        /// Do not index DNS records
        no_dns: bool,
        /// Skip ingesting domains
        no_domains: bool,
        /// Skip ingesting domain tld prices
        no_pricing: bool,
    },
}

/// The steps of an indexing run.
#[derive(Clone, Copy, Debug, PartialEq, Eq, Structural)]
pub struct IndexSteps {
    pub domains: bool,
    pub dns: bool,
    pub pricing: bool,
}

impl PorkbunCommands {
    /// The steps that the command asks for: each one unless its flag skips
    /// it.
    pub fn steps(&self) -> (r: IndexSteps)
        ensures
            match *self {
                PorkbunCommands::Index { no_dns, no_domains, no_pricing } => r == (IndexSteps {
                    domains: !no_domains,
                    dns: !no_dns,
                    pricing: !no_pricing,
                }),
            },
    {
        match *self {
            PorkbunCommands::Index { no_dns, no_domains, no_pricing } => IndexSteps {
                domains: !no_domains,
                dns: !no_dns,
                pricing: !no_pricing,
            },
        }
    }
}

} // verus!
