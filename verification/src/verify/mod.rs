//! What happens to a newcomer once a moderator has decided on them.

pub mod decide;
pub mod quarantine;

pub use decide::{accept, reject};
pub use quarantine::open_quarantine;
