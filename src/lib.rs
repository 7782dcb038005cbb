//! A control plane for chaos testing: a finite source of pseudo-random
//! decisions and permutations, consumed byte by byte from a buffer that a
//! fuzzer supplies, and an inert stand-in for builds where chaos testing is
//! switched off.

pub mod chaos;
pub mod error;
pub mod lemmas;
pub mod chaos_mode;
pub mod zero_sized;
