//! Process configuration, read once at start and passed to what needs it.

use vstd::prelude::*;

verus! {

/// Tokens live for 72 hours unless configured otherwise.
pub const DEFAULT_JWT_TTL: u64 = 72 * 3600;

#[derive(Debug)]
pub struct Configuration {
    pub database_name: String,
    pub database_user: String,
    pub database_password: String,
    pub database_host: String,
    pub migration_location: String,
    pub migration_version: String,
    pub file_storage_location: String,
    pub jwt_ttl: u64,
    pub jwt_secret: String,
}

} // verus!
