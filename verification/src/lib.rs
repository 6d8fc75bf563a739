//! Normalized description of a microcontroller family's peripherals.
//!
//! Given the raw peripheral instance names declared for a chip, this library
//! decides which register-block template implements each instance, which
//! module-stop (clock gating) register and bit control it, and which
//! interrupt events belong to it.  All decisions are driven by ordered,
//! first-match-wins rule tables and a small name grammar; everything here is
//! pure computation over strings and integers, so the whole pipeline is
//! verified.  Reading the vendor artifacts from disk and serializing the
//! finished records is left to the surrounding tooling.

pub mod generate;
pub mod interrupts;
pub mod metadata;
pub mod mstp;
pub mod pattern;
pub mod perimap;
pub mod pinmapping;
pub mod rzone;
pub mod text;
pub mod types;
