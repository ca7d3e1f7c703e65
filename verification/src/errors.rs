use vstd::prelude::*;

verus! {

/// The ways an instruction can fail. Every failure aborts the whole
/// instruction: a handler that returns an error hands back no new state, so
/// every record keeps the value it had before the call.
#[derive(Clone, Copy, Debug, PartialEq, Eq, Structural)]
pub enum ProgError {
    /// The instruction bytes do not decode to any instruction.
    InvalidInstructionData,
    /// Fewer records were supplied than the instruction needs.
    NotEnoughAccountKeys,
    /// A required signature is absent, or the signing identity differs from
    /// the record's authority; the two cases are reported identically so a
    /// caller cannot tell which one occurred.
    MissingRequiredSignature,
    /// A record of the wrong kind or layout was supplied, or a balance is too
    /// small for the requested movement.
    InvalidAccountData,
    /// A derived address, its seed material, or another argument did not
    /// check out.
    InvalidArgument,
    /// Checked arithmetic would have exceeded the field's width.
    Overflow,
    /// Checked arithmetic would have gone below zero.
    Underflow,
}

} // verus!
