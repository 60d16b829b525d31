use vstd::prelude::*;

verus! {

/// What went wrong in the relay while it handled a peer's messages.
#[derive(Debug, Clone, PartialEq, Eq)]
pub enum ProxyServerError {
    /// A message could not be handed on; the text says why.
    Send(String),
    /// Bytes did not hold what they should; the text says what.
    InvalidData(String),
}

} // verus!
