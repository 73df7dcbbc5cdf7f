//! The density search over the slime-chunk predicate.

pub mod count;
pub mod slime;
pub mod table;
pub mod util;
