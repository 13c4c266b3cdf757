//! The binding for callers that suspend at each read and write instead of
//! blocking. The session and its contract are those of the blocking binding;
//! only the caller's I/O differs.
pub use crate::client::{Client, ClientView, FetchPlan};
