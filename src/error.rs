use vstd::prelude::*;

verus! {

/// Why a datagram could not be decoded.
#[derive(Debug, Clone, Copy, PartialEq, Eq, Structural)]
pub enum DnsError {
    /// Fewer bytes are available than a field or structure requires.
    TruncatedInput,
    /// A name ran off the end of the buffer before a terminator or pointer.
    IncompleteLabelSequence,
    /// A name followed more compression pointers than the decoder allows.
    PointerLoopDetected,
}

} // verus!
