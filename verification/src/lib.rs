//! Retrieval-and-normalization core for a contribution-calendar client.
//!
//! The library validates a calendar year into a pair of UTC timestamps,
//! flattens a nested week/day calendar into a flat record sequence with
//! defensive bound checks, and decodes a base64 user identifier. Network
//! traffic and console output live outside the library; callers hand in the
//! plain values a remote service returned and get plain values back.

pub mod calendar;
pub mod dates;
pub mod errors;
pub mod identity;
