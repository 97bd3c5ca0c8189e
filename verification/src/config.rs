//! Runtime configuration handed in by the surrounding program.

use vstd::prelude::*;

verus! {

/// The values the service is configured with: where the real document
/// store lives, the secret session tokens are signed with, and the port
/// to serve on.
pub struct Config {
    pub mongodb_uri: String,
    pub jwt_secret: String,
    pub port: u16,
}

} // verus!
