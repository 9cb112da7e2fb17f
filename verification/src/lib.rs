//! Change detection for the top-level fields of a polled JSON object.
//!
//! A [`Requester`] remembers one fingerprint for each tracked field that it
//! has seen. Given the next observation it reports the fields whose value has
//! a fingerprint other than the remembered one, and remembers the new ones.
//! Fetching the object, sleeping between two cycles and delivering the
//! changes are left to the caller, which [`on_change`] tells what to do next.

pub mod fingerprint;
pub mod table;
pub mod observation;
pub mod diff;
pub mod requester;
pub mod laws;
pub mod watch;

pub use observation::Observation;
pub use requester::{Report, Requester};
pub use table::FingerprintTable;
pub use watch::{on_change, Interval, Step, WatchError};
