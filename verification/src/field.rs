//! Commitment codec: 32-byte commitments to and from canonical field
//! elements.
//!
//! A canonical field element is held as its unique 32-byte little-endian
//! encoding, so decoding then re-encoding is the identity on canonical
//! bytes; non-canonical encodings are rejected, never reinterpreted.

use vstd::prelude::*;

use crate::errors::PipelineError;

verus! {

/// Little-endian value of a byte string.
pub open spec fn le_val(s: Seq<u8>) -> nat
    decreases s.len(),
{
    if s.len() == 0 {
        0
    } else {
        (s[0] + 256 * le_val(s.drop_first())) as nat
    }
}

/// The scalar field modulus of the proving curve (BLS12-381).
pub open spec fn field_modulus() -> nat {
    0x73eda753299d7d483339d80809a1d80553bda402fffe5bfeffffffff00000001nat
}

/// A 32-byte string is the canonical little-endian encoding of a field
/// element: its value lies strictly below the modulus.
pub open spec fn is_canonical(s: Seq<u8>) -> bool {
    s.len() == 32 && le_val(s) < field_modulus()
}

/// Relies on fr32::bytes_into_fr: it accepts exactly the 32-byte
/// little-endian strings whose value is below the scalar field modulus.
#[verifier::external_body]
fn decodes_to_field_element(comm: &[u8; 32]) -> (r: bool)
    ensures
        r == is_canonical(comm@),
{
    fr32::bytes_into_fr(comm).is_ok()
}

/// A canonical field element, as its unique 32-byte little-endian
/// encoding.
#[derive(Clone, Copy, Debug, PartialEq, Eq)]
pub struct FieldElement {
    pub bytes: [u8; 32],
}

impl FieldElement {
    /// The encoding this element was accepted from is canonical.
    pub open spec fn wf(&self) -> bool {
        is_canonical(self.bytes@)
    }
}

/// Decode a 32-byte commitment into a field element; non-canonical
/// encodings fail with `InvalidCommitment`.
pub fn as_safe_commitment(comm: &[u8; 32]) -> (r: Result<FieldElement, PipelineError>)
    ensures
        match r {
            Ok(f) => {
                &&& is_canonical(comm@)
                &&& f.wf()
                &&& f.bytes@ == comm@
            },
            Err(e) => {
                &&& e == PipelineError::InvalidCommitment
                &&& !is_canonical(comm@)
            },
        },
{
    if decodes_to_field_element(comm) {
        Ok(FieldElement { bytes: *comm })
    } else {
        Err(PipelineError::InvalidCommitment)
    }
}

/// Encode a field element back into its 32 commitment bytes: the exact
/// bytes it was decoded from.
pub fn commitment_from_fr(fr: &FieldElement) -> (r: [u8; 32])
    ensures
        r@ == fr.bytes@,
{
    fr.bytes
}

/// Decoding a canonical commitment and re-encoding it gives the original
/// bytes back; a non-canonical commitment never reaches the encoder.
pub fn commitment_round_trip(comm: &[u8; 32]) -> (r: Result<[u8; 32], PipelineError>)
    ensures
        match r {
            Ok(out) => {
                &&& is_canonical(comm@)
                &&& out@ == comm@
            },
            Err(e) => {
                &&& e == PipelineError::InvalidCommitment
                &&& !is_canonical(comm@)
            },
        },
{
    let f = as_safe_commitment(comm)?;
    Ok(commitment_from_fr(&f))
}

} // verus!
