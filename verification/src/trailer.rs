//! The trailer section: ties the index size, the root reference and the
//! document identifier together, and names the byte offset at which the
//! index block starts. The nested dictionary keys are aligned under the
//! trailer marker's fixed prefix width; that alignment is cosmetic but part
//! of the reproducible-output contract.
use vstd::prelude::*;
use crate::buffer::Buffer;
use crate::codec::{dec_digits, encode_u64};
use crate::primitives::{name_encoding, nl, obj_ref_ref_encoding, sp, ObjRef};
use crate::types::WriteError;
use crate::xref::CrossReferenceTable;

verus! {

/// The marker opening the trailer section: `trailer` and a terminator.
pub open spec fn trailer_marker() -> Seq<u8> {
    seq![0x74u8, 0x72u8, 0x61u8, 0x69u8, 0x6cu8, 0x65u8, 0x72u8, 0x0au8]
}

/// The marker opening the index-offset section: `startxref` and a
/// terminator.
pub open spec fn startxref_marker() -> Seq<u8> {
    seq![0x73u8, 0x74u8, 0x61u8, 0x72u8, 0x74u8, 0x78u8, 0x72u8, 0x65u8, 0x66u8, 0x0au8]
}

/// The indentation that aligns nested dictionary keys under the trailer
/// marker: one space less than the marker is wide.
pub open spec fn trailer_indent() -> Seq<u8> {
    Seq::new(7, |i: int| 0x20u8)
}

/// The items of a numeric byte array, separated by single spaces.
pub open spec fn byte_array_items(id: Seq<u8>) -> Seq<u8>
    decreases id.len(),
{
    if id.len() == 0 {
        Seq::empty()
    } else if id.len() == 1 {
        dec_digits(id[0] as nat)
    } else {
        byte_array_items(id.drop_last()) + sp() + dec_digits(id.last() as nat)
    }
}

/// A fixed-length byte array token: the items wrapped in array delimiters.
pub open spec fn byte_array_encoding(id: Seq<u8>) -> Seq<u8> {
    seq![0x5bu8] + byte_array_items(id) + seq![0x5du8]
}

/// The complete trailer section: the trailer marker, an aligned dictionary
/// holding Size, Root and ID, then the start-of-index marker and the byte
/// offset of the index block.
pub open spec fn trailer_encoding(
    offset: nat,
    size: nat,
    root_number: nat,
    root_generation: nat,
    id: Seq<u8>,
) -> Seq<u8> {
    trailer_marker() + trailer_indent() + seq![0x3cu8, 0x3cu8, 0x20u8] + name_encoding(
        seq![0x53u8, 0x69u8, 0x7au8, 0x65u8],
    ) + dec_digits(size) + nl() + trailer_indent() + name_encoding(
        seq![0x52u8, 0x6fu8, 0x6fu8, 0x74u8],
    ) + obj_ref_ref_encoding(root_number, root_generation) + nl() + trailer_indent()
        + name_encoding(seq![0x49u8, 0x44u8]) + byte_array_encoding(id) + nl() + trailer_indent()
        + seq![0x20u8, 0x3eu8, 0x3eu8] + nl() + startxref_marker() + dec_digits(offset) + nl()
}

/// Append the document identifier as a numeric byte array token and report
/// bytes written.
fn write_id_array(writer: &mut Buffer, id: &[u8; 16]) -> (n: usize)
    ensures
        final(writer)@ == old(writer)@ + byte_array_encoding(id@),
        final(writer)@.len() <= usize::MAX,
        n == byte_array_encoding(id@).len(),
{
    let open_bracket: [u8; 1] = [0x5b];
    let close_bracket: [u8; 1] = [0x5d];
    let mut written = writer.write_slice(open_bracket.as_slice());
    let ghost items_base = writer@;
    proof {
        assert(writer@ =~= items_base + byte_array_items(id@.subrange(0, 0)));
    }
    let mut j: usize = 0;
    while j < 16
        invariant
            j <= 16,
            id@.len() == 16,
            writer@ == items_base + byte_array_items(id@.subrange(0, j as int)),
            items_base == old(writer)@ + seq![0x5bu8],
            writer@.len() <= usize::MAX,
            written == writer@.len() - old(writer)@.len(),
        decreases 16 - j,
    {
        let space: [u8; 1] = [0x20];
        if j > 0 {
            written = written + writer.write_slice(space.as_slice());
        }
        let byte: u8 = id[j];
        let item = encode_u64(byte as u64);
        written = written + writer.write_vec(&item);
        j = j + 1;
        proof {
            let done = id@.subrange(0, j as int);
            assert(done.last() == id@[j - 1]);
            if j == 1 {
                assert(done =~= seq![id@[0]]);
                assert(byte_array_items(done) == dec_digits(id@[0] as nat));
                assert(writer@ =~= items_base + byte_array_items(done));
            } else {
                assert(done.drop_last() =~= id@.subrange(0, j - 1));
                assert(byte_array_items(done) == byte_array_items(done.drop_last()) + sp()
                    + dec_digits(done.last() as nat));
                assert(writer@ =~= items_base + byte_array_items(done));
            }
        }
    }
    proof {
        assert(id@.subrange(0, 16) =~= id@);
    }
    written = written + writer.write_slice(close_bracket.as_slice());
    proof {
        assert(final(writer)@ =~= old(writer)@ + byte_array_encoding(id@));
    }
    written
}

/// Capability of rendering the trailer section for a finished document.
///
/// Whatever the outcome, the sink is only ever appended to; on success the
/// reported count is exactly the number of bytes appended.
pub trait WriteTrailer {
    fn write(
        &self,
        writer: &mut Buffer,
        offset: usize,
        size: usize,
        root: ObjRef,
        id: [u8; 16],
    ) -> (r: Result<usize, WriteError>)
        ensures
            old(writer)@.is_prefix_of(final(writer)@),
            r matches Ok(n) ==> final(writer)@.len() == old(writer)@.len() + n,
    ;
}

impl WriteTrailer for CrossReferenceTable {
    /// Render the trailer section byte-exactly; never fails.
    #[verifier::rlimit(100)]
    fn write(
        &self,
        writer: &mut Buffer,
        offset: usize,
        size: usize,
        root: ObjRef,
        id: [u8; 16],
    ) -> (r: Result<usize, WriteError>)
        ensures
            final(writer)@ == old(writer)@ + trailer_encoding(
                offset as nat,
                size as nat,
                root.number as nat,
                root.generation as nat,
                id@,
            ),
            r matches Ok(n) && n == trailer_encoding(
                offset as nat,
                size as nat,
                root.number as nat,
                root.generation as nat,
                id@,
            ).len(),
    {
        let marker: [u8; 8] = [0x74, 0x72, 0x61, 0x69, 0x6c, 0x65, 0x72, 0x0a];
        let indent: [u8; 7] = [0x20, 0x20, 0x20, 0x20, 0x20, 0x20, 0x20];
        let dict_open: [u8; 3] = [0x3c, 0x3c, 0x20];
        let dict_close: [u8; 3] = [0x20, 0x3e, 0x3e];
        let newline: [u8; 1] = [0x0a];
        let size_name: [u8; 5] = [0x2f, 0x53, 0x69, 0x7a, 0x65];
        let root_name: [u8; 5] = [0x2f, 0x52, 0x6f, 0x6f, 0x74];
        let id_name: [u8; 3] = [0x2f, 0x49, 0x44];
        let space: [u8; 1] = [0x20];
        let startxref: [u8; 10] = [0x73, 0x74, 0x61, 0x72, 0x74, 0x78, 0x72, 0x65, 0x66, 0x0a];

        let mut written = writer.write_slice(marker.as_slice());
        written = written + writer.write_slice(indent.as_slice());
        written = written + writer.write_slice(dict_open.as_slice());
        written = written + writer.write_slice(size_name.as_slice());
        written = written + writer.write_slice(space.as_slice());
        let size_digits = encode_u64(size as u64);
        written = written + writer.write_vec(&size_digits);
        written = written + writer.write_slice(newline.as_slice());
        let ghost after_size = writer@;
        proof {
            assert(after_size =~= old(writer)@ + trailer_marker() + trailer_indent() + seq![
                0x3cu8,
                0x3cu8,
                0x20u8,
            ] + name_encoding(seq![0x53u8, 0x69u8, 0x7au8, 0x65u8]) + dec_digits(size as nat)
                + nl());
        }
        written = written + writer.write_slice(indent.as_slice());
        written = written + writer.write_slice(root_name.as_slice());
        written = written + writer.write_slice(space.as_slice());
        let root_written = match root.write_ref(writer) {
            Ok(n) => n,
            Err(e) => {
                return Err(e);
            },
        };
        written = written + root_written;
        written = written + writer.write_slice(newline.as_slice());
        let ghost after_root = writer@;
        proof {
            assert(after_root =~= after_size + trailer_indent() + name_encoding(
                seq![0x52u8, 0x6fu8, 0x6fu8, 0x74u8],
            ) + obj_ref_ref_encoding(root.number as nat, root.generation as nat) + nl());
        }
        written = written + writer.write_slice(indent.as_slice());
        written = written + writer.write_slice(id_name.as_slice());
        written = written + writer.write_slice(space.as_slice());
        written = written + write_id_array(writer, &id);
        written = written + writer.write_slice(newline.as_slice());
        let ghost after_id = writer@;
        proof {
            assert(after_id =~= after_root + trailer_indent() + name_encoding(seq![0x49u8, 0x44u8])
                + byte_array_encoding(id@) + nl());
        }
        written = written + writer.write_slice(indent.as_slice());
        written = written + writer.write_slice(dict_close.as_slice());
        written = written + writer.write_slice(newline.as_slice());
        written = written + writer.write_slice(startxref.as_slice());
        let offset_digits = encode_u64(offset as u64);
        written = written + writer.write_vec(&offset_digits);
        written = written + writer.write_slice(newline.as_slice());
        proof {
            assert(final(writer)@ =~= after_id + trailer_indent() + seq![0x20u8, 0x3eu8, 0x3eu8]
                + nl() + startxref_marker() + dec_digits(offset as nat) + nl());
            assert(final(writer)@ =~= old(writer)@ + trailer_encoding(
                offset as nat,
                size as nat,
                root.number as nat,
                root.generation as nat,
                id@,
            ));
        }
        Ok(written)
    }
}

} // verus!
