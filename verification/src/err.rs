use vstd::prelude::*;

verus! {

/// Everything that can go wrong while reading or decoding recorded data.
#[derive(Clone, Copy, Debug, PartialEq, Eq, Structural)]
pub enum VCRError {
    /// No entity with the requested id is recorded.
    EntityNotFound,
    /// No database holds the requested entity type.
    EntityTypeNotFound,
    /// A patch is missing a value it needs, or a header names an unknown base kind.
    InvalidPatchData,
    /// A patch refers to a path id that the entity's path table does not hold.
    PathResolutionError,
    /// A page token could not be read.
    InvalidPageToken,
    /// A patch holds an operation code outside 0..=6.
    InvalidOpCode,
    /// The input ended inside a value (an I/O error of kind `UnexpectedEof`).
    UnexpectedEof,
    /// A variable-length integer ran past its longest encoding (an I/O error of kind `InvalidData`),
    /// or the keys given for an index map are not unique and in increasing order.
    InvalidData,
    /// Bytes that should hold a MessagePack value do not.
    MsgPackDecError,
    /// Bytes that should hold UTF-8 text do not.
    Utf8Error,
    /// The compression library rejected its input.
    CompressionError,
    /// The binary diff library rejected a patch.
    BinaryPatchError,
    /// The input is cut short inside a record or refers to a table entry that does not exist;
    /// the record cannot be decoded at all.
    Malformed,
}

} // verus!
