//! Low-level building blocks for emitting page-oriented documents with
//! byte-exact positions: an in-memory output buffer, verified decimal
//! encoders, primitive token encoders, a cross-reference ledger, and a
//! stateful document writer that keeps recorded offsets in step with the
//! bytes actually emitted.
use vstd::prelude::*;

pub mod buffer;
pub mod codec;
pub mod page;
pub mod primitives;
pub mod trailer;
pub mod types;
pub mod writer;
pub mod xref;

use crate::buffer::Buffer;
use crate::primitives::{name_encoding, nl, Name};
use crate::types::{WriteDictValue, WriteError};

verus! {

/// Append one line terminator and report the bytes written.
pub fn write_newline(writer: &mut Buffer) -> (r: Result<usize, WriteError>)
    ensures
        final(writer)@ == old(writer)@ + nl(),
        r matches Ok(n) && n == 1,
{
    let newline: [u8; 1] = [0x0a];
    let n = writer.write_slice(newline.as_slice());
    proof {
        assert(final(writer)@ =~= old(writer)@ + nl());
    }
    Ok(n)
}

/// Append one dictionary entry: the key as a name token, then the value's
/// own encoding. The reported count covers both parts; the value's error,
/// if any, is propagated at once.
pub fn write_dict_entry<V: WriteDictValue>(writer: &mut Buffer, key: &Name, value: &V) -> (r:
    Result<usize, WriteError>)
    ensures
        old(writer)@.is_prefix_of(final(writer)@),
        r matches Ok(n) ==> exists|body: Seq<u8>| #![auto]
            final(writer)@ == old(writer)@ + name_encoding(key@) + body && n == name_encoding(
                key@,
            ).len() + body.len(),
{
    let written = key.write(writer)?;
    let ghost mid = writer@;
    let value_written = match WriteDictValue::write(value, writer) {
        Ok(n) => n,
        Err(e) => {
            proof {
                assert(mid.is_prefix_of(writer@));
                assert forall|i: int| 0 <= i < old(writer)@.len() implies writer@[i] == old(
                    writer,
                )@[i] by {
                    assert(mid[i] == old(writer)@[i]);
                    assert(writer@.subrange(0, mid.len() as int)[i] == writer@[i]);
                }
                assert(old(writer)@ =~= writer@.subrange(0, old(writer)@.len() as int));
            }
            return Err(e);
        },
    };
    proof {
        writer.lemma_len_bound();
        assert(mid.is_prefix_of(writer@));
        let body = writer@.subrange(mid.len() as int, writer@.len() as int);
        assert(mid =~= writer@.subrange(0, mid.len() as int));
        assert(writer@ =~= mid + body);
        assert(writer@ =~= old(writer)@ + name_encoding(key@) + body);
        assert(old(writer)@ =~= writer@.subrange(0, old(writer)@.len() as int));
        assert(body.len() == value_written);
    }
    Ok(written + value_written)
}

/// Byte sequence of the document header marker: `%PDF-2.0`.
pub open spec fn header_marker() -> Seq<u8> {
    seq![0x25u8, 0x50u8, 0x44u8, 0x46u8, 0x2du8, 0x32u8, 0x2eu8, 0x30u8]
}

/// Byte sequence of the end-of-file marker: `%%EOF`.
pub open spec fn eof_marker() -> Seq<u8> {
    seq![0x25u8, 0x25u8, 0x45u8, 0x4fu8, 0x46u8]
}

/// `%PDF-2.0` as bytes.
pub fn header_marker_bytes() -> (v: Vec<u8>)
    ensures
        v@ == header_marker(),
{
    let v: Vec<u8> = vec![0x25, 0x50, 0x44, 0x46, 0x2d, 0x32, 0x2e, 0x30];
    proof {
        assert(v@ =~= header_marker());
    }
    v
}

/// `%%EOF` as bytes.
pub fn eof_marker_bytes() -> (v: Vec<u8>)
    ensures
        v@ == eof_marker(),
{
    let v: Vec<u8> = vec![0x25, 0x25, 0x45, 0x4f, 0x46];
    proof {
        assert(v@ =~= eof_marker());
    }
    v
}

/// One cohesive document. This type offers the degenerate minimal write
/// path: header marker immediately followed by the end-of-file marker,
/// with no objects, index or trailer in between.
#[derive(Default)]
pub struct Document;

impl Document {
    /// Write the document header marker and return the number of bytes written.
    pub fn write_header(&self, writer: &mut Buffer) -> (r: Result<usize, WriteError>)
        ensures
            final(writer)@ == old(writer)@ + header_marker(),
            r == Ok::<usize, WriteError>(header_marker().len() as usize),
    {
        let marker = header_marker_bytes();
        let n = writer.write_vec(&marker);
        Ok(n)
    }

    /// Write the document end-of-file marker.
    pub fn write_eof(&self, writer: &mut Buffer) -> (r: Result<(), WriteError>)
        ensures
            final(writer)@ == old(writer)@ + eof_marker(),
            r is Ok,
    {
        let marker = eof_marker_bytes();
        let _n = writer.write_vec(&marker);
        Ok(())
    }

    /// Write the minimal document: exactly the header marker followed by the
    /// end-of-file marker, nothing else.
    pub fn write(&self, writer: &mut Buffer) -> (r: Result<(), WriteError>)
        ensures
            final(writer)@ == old(writer)@ + header_marker() + eof_marker(),
            r is Ok,
    {
        let _bytes_written = self.write_header(writer)?;
        self.write_eof(writer)?;
        Ok(())
    }
}

} // verus!
