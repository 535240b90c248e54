//! A two-party compliance check between an originating bank (OB) and a
//! correspondent bank (CB): whether OB's customer is on CB's list and the
//! proposed amount plus the customer's existing flow stays below a public
//! threshold, revealing only that bit.
//!
//! - `field`, `share`, `beaver`: arithmetic in F_p, authenticated shares and
//!   their algebra, multiplication with Beaver triples;
//! - `abt`: the consistency check that closes triple generation;
//! - `circuit`, `comparison`, `joint`: the comparison circuit in the clear,
//!   its two-party evaluation round by round, and both parties' runs side by
//!   side;
//! - `cfm`: the online protocol;
//! - `psi`, `dlog`, `group`, `transcript`: set membership with transfer over
//!   the Ristretto group, discrete-log proofs, and Fiat-Shamir transcripts;
//! - `errors`, `utils`, `rvole`, `ffi`: error kinds, byte helpers and
//!   records, and message data.
use vstd::prelude::*;

pub mod field;
pub mod share;
pub mod beaver;
pub mod abt;
pub mod circuit;
pub mod errors;
pub mod comparison;
pub mod joint;
pub mod cfm;
pub mod transcript;
pub mod utils;
pub mod rvole;
pub mod group;
pub mod dlog;
pub mod psi;
pub mod ffi;

verus! {

} // verus!
