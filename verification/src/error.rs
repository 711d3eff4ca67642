use vstd::prelude::*;

verus! {

/// Why an operation of this crate was refused.
#[derive(Debug, Clone, Copy, PartialEq, Eq, Structural)]
pub enum Error {
    /// The two sequences handed to a reduction differ in length.
    LengthMismatch,
    /// Dimensions do not fit: a buffer whose length is not `row * col`, a
    /// product whose left width differs from its right height, or a reply
    /// that names no cell of the buffer it is meant for.
    ShapeMismatch,
    /// The other end of a channel is gone: nobody waits for a reply, or no
    /// reply can arrive any more.
    ChannelClosed,
}

impl Error {
    /// The text shown to an operator for this error.
    pub fn message(&self) -> (text: &'static str)
        ensures
            *self == Error::LengthMismatch ==> text@ == "Dot product error: a.len != b.len"@,
            *self == Error::ShapeMismatch ==> text@ == "Matrix multiply error: a.col != b.row"@,
            *self == Error::ChannelClosed ==> text@ == "Send error: channel closed"@,
    {
        match self {
            Error::LengthMismatch => "Dot product error: a.len != b.len",
            Error::ShapeMismatch => "Matrix multiply error: a.col != b.row",
            Error::ChannelClosed => "Send error: channel closed",
        }
    }
}

} // verus!
