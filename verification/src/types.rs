//! Request and response bodies shared by the planpool server and its clients.

use vstd::prelude::*;

verus! {

/// Returned by `POST /plans` when a plan is stored.
#[derive(Clone, Debug)]
pub struct PlanCreated {
    /// 32-char hex plan ID; unguessable, acts as the view capability.
    pub id: String,
    /// Absolute URL where the plan can be viewed.
    pub url: String,
    /// Unix timestamp (seconds) when the plan was stored.
    pub created_at: u64,
    /// Unix timestamp (seconds) after which the plan is gone.
    pub expires_at: u64,
}

impl PlanCreated {
    /// How long the plan lives, in seconds (zero if the timestamps are out
    /// of order).
    pub fn lifetime_secs(&self) -> (r: u64)
        ensures
            r == if self.expires_at >= self.created_at {
                (self.expires_at - self.created_at) as u64
            } else {
                0u64
            },
    {
        self.expires_at.saturating_sub(self.created_at)
    }
}

/// Error body returned by every non-2xx JSON response.
#[derive(Clone, Debug)]
pub struct ErrorResponse {
    pub error: String,
}

} // verus!
