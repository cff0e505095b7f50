use vstd::prelude::*;

verus! {

/// Why a proof was rejected, or why one could not be produced.
#[derive(Debug, Clone, Copy, PartialEq, Eq, Structural)]
pub enum Error {
    /// The plaintext output of the circuit differs from the claimed output.
    OutputMismatch,
    /// A recomputed commitment differs from the one in the proof.
    CommitmentMismatch,
    /// The recomputed challenges differ from the opening pattern of the proof.
    ChallengeMismatch,
    /// The three party outputs of a repetition do not reconstruct the public output.
    OutputReconstructionMismatch,
    /// A replayed gate found no broadcast of the next party to read.
    MpcMessageMismatch,
    /// The proof does not have the shape that the circuit asks for.
    MalformedProof,
}

} // verus!
