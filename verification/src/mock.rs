//! The plain data of a stand-in server for tests: its enumerations, its
//! population and its page sizes.

pub mod devices;
pub mod devicetypes;
pub mod jobs;
pub mod server;
pub mod state;
pub mod testcases;
pub mod workers;

pub use devices::{Health as DeviceHealth, State as DeviceState};
pub use devicetypes::HealthDenominator;
pub use jobs::{Health as JobHealth, State as JobState};
pub use server::PaginationLimits;
pub use state::{JobGenerator, PopulationParams, SetGenerator, SuiteGenerator, TestSet};
pub use testcases::PassFail;
pub use workers::{Health as WorkerHealth, State as WorkerState};
