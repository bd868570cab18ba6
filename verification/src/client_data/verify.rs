//! The fixed verification setup of a single server.

use crate::permissions::Permissions;
use crate::DataKey;
use vstd::prelude::*;

verus! {

/// Where verification happens, the role it gives, and who may verify.
#[derive(Clone, Copy, Debug, PartialEq, Eq, Structural)]
pub struct Verify {
    pub channel_id: u64,
    pub role_id: u64,
    pub permissions: Permissions,
}

/// Names the slot of the bot's shared data that holds the [`Verify`] setup.
pub struct VerifyKey;

impl DataKey for VerifyKey {
    type Value = Verify;
}

} // verus!
