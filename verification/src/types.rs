//! Shared vocabulary of the encoders: the error taxonomy and the capability
//! contracts that every encodable entity implements.
use vstd::prelude::*;
use crate::buffer::Buffer;

verus! {

/// Why a write operation failed.
#[derive(Clone, Copy, Debug, PartialEq, Eq, Structural)]
pub enum WriteError {
    /// The underlying sink reported a failure. Encoders of this crate never
    /// produce this variant on their own; it comes from caller-supplied
    /// [`Object`] implementations or from sinks outside this crate.
    Sink,
    /// A numeric field did not fit the fixed width mandated by the format.
    /// Reported instead of silently truncating the number.
    FieldOverflow,
}

/// Capability of a value that can stand inside a dictionary: write its
/// canonical textual representation to the sink and report bytes written.
///
/// Whatever the outcome, the sink is only ever appended to; on success the
/// reported count is exactly the number of bytes appended.
pub trait WriteDictValue {
    fn write(&self, writer: &mut Buffer) -> (r: Result<usize, WriteError>)
        ensures
            old(writer)@.is_prefix_of(final(writer)@),
            r matches Ok(n) ==> final(writer)@.len() == old(writer)@.len() + n,
    ;
}

/// Capability of a value that can stand as the body of an indirect object:
/// write its canonical representation to the sink and report bytes written.
///
/// Whatever the outcome, the sink is only ever appended to; on success the
/// reported count is exactly the number of bytes appended. This is the single
/// contract through which the document writer trusts "bytes reported ==
/// bytes that landed in the sink".
pub trait Object {
    fn write(&self, writer: &mut Buffer) -> (r: Result<usize, WriteError>)
        ensures
            old(writer)@.is_prefix_of(final(writer)@),
            r matches Ok(n) ==> final(writer)@.len() == old(writer)@.len() + n,
    ;
}

} // verus!
