//! Pseudorandom engines and the predicates built on them.

pub mod bedrock;
pub mod flowers;
pub mod java;
pub mod slime;

pub use flowers::FlowerForestFlower;
pub use slime::is_slimechunk;
pub use slime::is_slimechunk_inline;
