//! Short-URL codes from a Snowflake-style identifier generator, and an expiring
//! store of redirect records.
mod clock;
pub mod code;
pub mod handlers;
pub mod record;
pub mod snowflake;
pub mod store;
