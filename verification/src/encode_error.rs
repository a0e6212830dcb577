use vstd::prelude::*;

verus! {

/// An encoding failure.  `NotEnoughData` marks a packet missing a field its
/// type requires on the wire; `ExceededMaxLength` marks a string, byte blob
/// or body too large for its length prefix.
#[derive(Debug, Clone, Copy, PartialEq, Eq, Structural)]
pub enum EncodeError {
    NotEnoughData,
    ExceededMaxLength,
}

} // verus!
