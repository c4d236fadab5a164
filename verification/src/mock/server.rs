//! How the stand-in server pages its collections.

use vstd::prelude::*;

verus! {

/// The default page sizes of the stand-in server, one for each kind of
/// record. `None` means that a collection is served in one piece unless
/// the client asks for pages.
#[derive(Clone, Copy, Debug, PartialEq, Eq, Structural)]
pub struct PaginationLimits {
    pub aliases: Option<usize>,
    pub test_cases: Option<usize>,
    pub test_suites: Option<usize>,
    pub jobs: Option<usize>,
    pub device_types: Option<usize>,
    pub devices: Option<usize>,
    pub tags: Option<usize>,
    pub workers: Option<usize>,
}

impl PaginationLimits {
    /// Limits that never page anything by default.
    pub fn new() -> (limits: Self)
        ensures
            limits == (PaginationLimits {
                aliases: None,
                test_cases: None,
                test_suites: None,
                jobs: None,
                device_types: None,
                devices: None,
                tags: None,
                workers: None,
            }),
    {
        PaginationLimits {
            aliases: None,
            test_cases: None,
            test_suites: None,
            jobs: None,
            device_types: None,
            devices: None,
            tags: None,
            workers: None,
        }
    }
}

impl Default for PaginationLimits {
    fn default() -> (limits: Self)
        ensures
            limits == (PaginationLimits {
                aliases: None,
                test_cases: None,
                test_suites: None,
                jobs: None,
                device_types: None,
                devices: None,
                tags: None,
                workers: None,
            }),
    {
        PaginationLimits::new()
    }
}

} // verus!
