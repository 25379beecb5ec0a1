//! Release governance for software projects.
//!
//! * **Project genesis** registers a project's stakeholders (role and escrowed `VGOV` stake), the
//!   release policy (required roles and their stake-weighted quorums `tau_r`), and the slashing
//!   parameters `(sigma_neg, sigma_mal, delta_max)`.
//! * **Release proposals** are submitted by a Core Developer and carry the build attestation
//!   `A_build` (source commit hash, source tree hash, build environment hash, output binary hash)
//!   together with the Build Service's signature over it and the content address of the
//!   attestation in the artifact store.
//! * **Voting** is stake-weighted inside each role. A proposal is accepted iff, for every required
//!   role `r`, `sum(stake of aye voters in r) / sum(stake in r) >= tau_r`.
//! * **Enactment** appends the blessed `output_binary_hash` to the project's append-only Official
//!   Release Log after the configured delay.
//! * **Counter-attestations** let any other stakeholder report an independent rebuild whose hash
//!   differs from the attested one. The Build Service is then slashed by `sigma_neg` and the
//!   proposal is rejected.
//!
//! [`pallet`] holds the executable protocol. [`model`] says what it does, as functions on a
//! mathematical state, and every request of the pallet is proved to do just that. [`invariants`]
//! and [`laws`] say what follows, for every request in every state.
pub mod bounded;
pub mod config;
pub mod invariants;
pub mod laws;
pub mod model;
pub mod number;
pub mod pallet;
pub mod perbill;
pub mod storage;
pub mod sums;
pub mod types;
