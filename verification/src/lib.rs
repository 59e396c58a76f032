//! Core of a real-time inverse-kinematics solver for articulated mechanisms.
//!
//! The crate verifies the discrete heart of the solver: the solver-state
//! history, the validation step that rejects non-finite candidate solutions,
//! the partition of a global joint vector across kinematic chains, the
//! construction of the weighted objective ensemble, and the incremental
//! active-pair tracking for environment collisions.
//!
//! Scalar values coming from the numeric layer are carried as IEEE-754
//! binary64 bit patterns ([`scalar::Scalar`]); the library inspects only their
//! classification (NaN / infinite / finite) and their exact identity, never
//! their arithmetic, which stays with the numeric layer driving this crate.

pub mod chain;
pub mod env_collision;
pub mod objective;
pub mod objective_master;
pub mod robot;
pub mod scalar;
pub mod solver;
pub mod vars;
