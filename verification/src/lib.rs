//! Direct I/O alignment requirements of a filesystem path: the decisions that
//! turn what the operating system answers into a [`DirectInfo`].
//!
//! The crate performs no call to the operating system. A [`Resolver`] asks
//! for one call at a time and takes its answer; [`fetch`] runs a resolver to
//! its end against a function that performs the calls. The caller owns the
//! handles.

pub mod attribute;
pub mod capability;
pub mod drive;
pub mod error;
pub mod info;
pub mod laws;
pub mod outcome;
pub mod path;
pub mod protocol;
pub mod resolver;
pub mod text;
pub mod wide;

pub use capability::Strategy;
pub use drive::fetch;
pub use error::{Error, ErrorKind};
pub use info::DirectInfo;
pub use protocol::{Request, Response, Step};
pub use resolver::Resolver;
