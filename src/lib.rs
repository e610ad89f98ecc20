//! Frame-by-frame effects for addressable one-dimensional LED strips.
//!
//! Every effect implements [`EffectIterator`]: it advances its state by an
//! elapsed-time value and writes the next frame into a caller-supplied pixel
//! buffer. Randomised effects draw from an injected [`BitSource`].
//!
//! - [`fire`]: the heat-diffusion fire, a complete effect.
//! - [`morse`] and [`wipe`]: content slid across the strip, complete effects.
//! - [`collision`]: the motion, meeting test and phases of two colliding
//!   particles, and which particle lights which pixel.
//! - [`bounce`]: the fading tail drawn behind a bouncing ball.
//! - [`cylon`]: the sweep of a scanner's eye and the trail behind it.
//! - [`registry`]: the names of the effects on offer.

pub mod pixel;
pub mod effect;
pub mod fire;
pub mod bounce;
pub mod collision;
pub mod cylon;
pub mod morse;
pub mod registry;
pub mod wipe;

pub use pixel::RGB8;
pub use effect::{BitSource, EffectIterator};
pub use fire::Fire;
