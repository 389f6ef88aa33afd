use vstd::prelude::*;

verus! {

/// The kinds of failure that the postcard wire format reports while a
/// command is framed or read back.
#[derive(Debug, Clone, Copy, PartialEq, Eq, Structural)]
pub enum PostcardError {
    /// The output buffer cannot hold the framed message.
    SerializeBufferFull,
    /// The message ended before a value was complete.
    DeserializeUnexpectedEnd,
    /// A variable-length integer did not fit in its type.
    DeserializeBadVarint,
    /// A boolean byte was neither 0 nor 1.
    DeserializeBadBool,
    /// The COBS framing of the message was not valid.
    DeserializeBadEncoding,
    /// The enum discriminant named no variant of the command.
    SerdeDeCustom,
}

/// Errors of the library: fallible functions return a `Result` over this.
#[derive(Debug, Clone, Copy, PartialEq, Eq, Structural)]
pub enum Error {
    /// A number did not fit in the integer type it was converted to.
    Num,
    /// Framing or reading a message failed.
    Postcard(PostcardError),
}

} // verus!
