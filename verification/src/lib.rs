//! The core of a client for the data export REST interface of a LAVA server:
//! a paginated, relational data source that is read as typed sequences.
//!
//! Nothing in this crate performs a request. Each type is a state machine
//! that says what has to be fetched next and takes what came of it, so that
//! the same decisions can be driven by any transport:
//!
//! - [`paginator`] walks one collection page by page, following the server's
//!   `next` links, and follows redirections without ever leaving a secure
//!   connection;
//! - [`lava`] holds the address of the API and the cache of tags, and
//!   resolves tag ids against that cache, one refresh per miss;
//! - [`device`] and [`job`] yield records with their tags resolved, in the
//!   order in which the server lists them;
//! - [`queryset`] and the builder in [`job`] turn the settings of a query
//!   into the parameters that the server understands;
//! - [`joblog`] asks for the log of a job and cuts it into lines.
//!
//! URLs are handled by the `url` crate and instants are rendered by
//! `chrono`; [`address`] and [`timestamp`] hold the calls into them.

pub mod address;
pub mod device;
pub mod job;
pub mod joblog;
pub mod lava;
pub mod mock;
pub mod paginator;
pub mod queryset;
pub mod tag;
pub mod text;
pub mod timestamp;
pub mod worker;
