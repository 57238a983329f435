//! What makes binding generation give up.

use vstd::prelude::*;

verus! {

/// What is wrong with a descriptor.
#[derive(Debug, Clone, Copy, PartialEq, Eq, Structural)]
pub enum FatalKind {
    /// The interface is no sequence of descriptors.
    MalformedInterface,
    /// The descriptor has no `type` that is a text.
    MissingType,
    /// The descriptor, or one of its parameters, has no `name` that is a text.
    MissingName,
    /// The `inputs` of the descriptor are missing or are no sequence.
    MalformedInputs,
    /// The `outputs` of the descriptor are missing or are no sequence.
    MalformedOutputs,
    /// A tuple type comes without a sequence of `components`.
    MissingComponents,
    /// A type name is none of the known ones.
    UnrecognizedType,
    /// Two accessors of one contract would bear the same name.
    NameCollision,
}

/// A malformed descriptor: generation stops at the first one.
#[derive(Debug, Clone, Copy, PartialEq, Eq, Structural)]
pub struct GenerationFatal {
    /// What is wrong.
    pub kind: FatalKind,
    /// The position of the offending descriptor in its interface; for two
    /// accessors of one name, the position of the second in the table.
    pub descriptor: usize,
}

} // verus!
