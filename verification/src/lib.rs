//! PhysicsLang: language tokens as particles in a force field.
//!
//! This crate holds the discrete, checkable core of the engine: the
//! embedding-client configuration and the request it sends, the bin plan that
//! folds a long embedding into the 64-dimensional forge, the part-of-speech
//! roles that set a particle's syntactic charge, and the rule that decides
//! which pairs of particles are joined by a spring.

pub mod charge;
pub mod embed;
pub mod projection;
pub mod springs;

use vstd::prelude::*;

verus! {

/// Working dimension of the latent forge that embeddings are folded into.
pub const LATENT_DIM_64: usize = 64;

} // verus!
