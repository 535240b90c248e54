//! Fiat-Shamir transcripts, through merlin.
//!
//! Nothing is assumed of the challenge bytes: the protocol only needs both
//! parties to derive the same sub-session ids from the same transcript, and
//! merlin is deterministic in the labels and messages appended.
use merlin::Transcript;
use vstd::prelude::*;

verus! {

#[verifier::external_type_specification]
#[verifier::external_body]
pub struct ExTranscript(Transcript);

/// Relies on merlin's `Transcript::new`: a fresh transcript under the
/// domain label.
#[verifier::external_body]
pub(crate) fn transcript_new(label: &'static str) -> (r: Transcript) {
    Transcript::new(label.as_bytes())
}

/// Relies on merlin's `Transcript::append_message`, which panics on a
/// message longer than `u32::MAX` bytes.
#[verifier::external_body]
pub(crate) fn transcript_append(t: &mut Transcript, label: &'static str, message: &[u8])
    requires
        message@.len() <= u32::MAX,
{
    t.append_message(label.as_bytes(), message)
}

/// Relies on merlin's `Transcript::challenge_bytes`: 32 challenge bytes.
#[verifier::external_body]
pub(crate) fn transcript_challenge(t: &mut Transcript, label: &'static str) -> (r: [u8; 32]) {
    let mut out = [0u8; 32];
    t.challenge_bytes(label.as_bytes(), &mut out);
    out
}

/// Relies on merlin's `Transcript::challenge_bytes`: 64 challenge bytes.
#[verifier::external_body]
pub(crate) fn transcript_challenge_wide(t: &mut Transcript, label: &'static str) -> (r: [u8; 64]) {
    let mut out = [0u8; 64];
    t.challenge_bytes(label.as_bytes(), &mut out);
    out
}

} // verus!
