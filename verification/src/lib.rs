//! Deterministic world-generation procedures of Minecraft and a density
//! search over the slime-chunk predicate, with machine-checked contracts.
//!
//! * [`rand`]: the 48-bit and the 128-bit pseudorandom engine with their
//!   positional reseeding, the slime-chunk predicate, the bedrock pattern
//!   predicate and the integer half of the flower-forest noise sampler.
//! * [`slime`]: the slime-chunk predicate by the bounded draw of
//!   `java.util.Random`.
//! * [`alg`]: the summed-area-table search for the window that holds the
//!   most slime chunks, and its tiled variant for large domains.
//! * [`util`]: block and chunk coordinates.
//! * [`convert`]: quantities in mixed units, as numbers and in words.
//! * [`cmd`]: in-game commands as text.
//! * [`shapes`]: the blocks of circles.

pub mod alg;
pub mod cmd;
pub mod convert;
pub mod rand;
pub mod shapes;
pub mod slime;
pub mod util;
