//! The cross-reference table: an append-only ledger of object byte offsets,
//! rendered into the fixed-width index block mandated by the format. Every
//! rendered line is exactly 20 bytes; offsets that do not fit the 10-digit
//! field are reported as an error, never truncated.
use vstd::prelude::*;
use crate::buffer::Buffer;
use crate::codec::{
    dec_digits, dec_padded, encode_padded, encode_u64, lemma_dec_digits_len, lemma_dec_padded_len,
    pow10,
};
use crate::primitives::{nl, sp};
use crate::types::WriteError;

verus! {

/// `10^5 == 100000`, by unfolding.
pub proof fn lemma_pow10_5()
    ensures
        pow10(5) == 100000,
{
    assert(pow10(0) == 1);
    assert(pow10(1) == 10);
    assert(pow10(2) == 100);
    assert(pow10(3) == 1000);
    assert(pow10(4) == 10000);
    assert(pow10(5) == 100000);
}

/// `10^10 == 10000000000`, by unfolding.
pub proof fn lemma_pow10_10()
    ensures
        pow10(10) == 10000000000,
{
    lemma_pow10_5();
    assert(pow10(6) == 1000000);
    assert(pow10(7) == 10000000);
    assert(pow10(8) == 100000000);
    assert(pow10(9) == 1000000000);
    assert(pow10(10) == 10000000000);
}

/// One fixed-width index line: a 10-digit zero-padded offset, one space, a
/// 5-digit zero-padded generation number, one space, a one-letter status
/// flag, one trailing space, and the line terminator.
pub open spec fn xref_entry_line(offset: nat, generation: nat, flag: u8) -> Seq<u8> {
    dec_padded(offset, 10) + sp() + dec_padded(generation, 5) + sp() + seq![flag] + sp() + nl()
}

/// The synthetic free-list head for object number 0: offset 0, generation
/// 65535, flag `f`. Always the first rendered entry.
pub open spec fn free_head_line() -> Seq<u8> {
    xref_entry_line(0, 65535, 0x66)
}

/// The index line of a regular in-use object: generation 0, flag `n`.
pub open spec fn in_use_line(offset: nat) -> Seq<u8> {
    xref_entry_line(offset, 0, 0x6e)
}

/// The index lines of the recorded offsets, in recording order.
pub open spec fn xref_lines(offsets: Seq<usize>) -> Seq<u8>
    decreases offsets.len(),
{
    if offsets.len() == 0 {
        Seq::empty()
    } else {
        xref_lines(offsets.drop_last()) + in_use_line(offsets.last() as nat)
    }
}

/// The index section header: the fixed marker, then the first object number
/// of this index generation and the count of entries: `xref\n0 N\n`.
pub open spec fn xref_section_header(count: nat) -> Seq<u8> {
    seq![0x78u8, 0x72u8, 0x65u8, 0x66u8] + nl() + seq![0x30u8] + sp() + dec_digits(count) + nl()
}

/// The complete rendered index block for the recorded offsets: section
/// header, synthetic free-list head, then one line per recorded offset.
pub open spec fn crt_encoding(offsets: Seq<usize>) -> Seq<u8> {
    xref_section_header(offsets.len() + 1) + free_head_line() + xref_lines(offsets)
}

/// Every in-range index line is exactly 20 bytes, terminator included.
pub proof fn lemma_xref_line_len(offset: nat, generation: nat, flag: u8)
    requires
        offset < pow10(10),
        generation < pow10(5),
    ensures
        xref_entry_line(offset, generation, flag).len() == 20,
{
    lemma_dec_digits_len(offset, 10);
    lemma_dec_padded_len(offset, 10);
    lemma_dec_digits_len(generation, 5);
    lemma_dec_padded_len(generation, 5);
}

/// The block of rendered lines grows by exactly 20 bytes per offset.
pub proof fn lemma_xref_lines_len(offsets: Seq<usize>)
    requires
        forall|i: int| 0 <= i < offsets.len() ==> (offsets[i] as nat) < pow10(10),
    ensures
        xref_lines(offsets).len() == 20 * offsets.len(),
    decreases offsets.len(),
{
    if offsets.len() > 0 {
        lemma_pow10_5();
        lemma_xref_lines_len(offsets.drop_last());
        lemma_xref_line_len(offsets.last() as nat, 0, 0x6e);
    }
}

/// The rendered index always holds `1 + (number of recorded offsets)`
/// entries of 20 bytes each: the first is always the synthetic free-list
/// head, and entry `k + 1` is the in-use line of the `k`-th recorded offset.
pub proof fn lemma_rendered_index_shape(offsets: Seq<usize>)
    requires
        forall|i: int| 0 <= i < offsets.len() ==> (offsets[i] as nat) < pow10(10),
    ensures
        ({
            let entries = free_head_line() + xref_lines(offsets);
            &&& entries.len() == 20 * (offsets.len() + 1)
            &&& entries.subrange(0, 20) == free_head_line()
            &&& forall|k: int|
                0 <= k < offsets.len() ==> entries.subrange(20 * (k + 1), 20 * (k + 2))
                    == in_use_line(offsets[k] as nat)
        }),
    decreases offsets.len(),
{
    lemma_pow10_5();
    lemma_pow10_10();
    lemma_xref_line_len(0, 65535, 0x66);
    lemma_xref_lines_len(offsets);
    let entries = free_head_line() + xref_lines(offsets);
    assert(entries.subrange(0, 20) =~= free_head_line());
    if offsets.len() == 0 {
    } else {
        let prefix = offsets.drop_last();
        lemma_rendered_index_shape(prefix);
        lemma_xref_lines_len(prefix);
        lemma_xref_line_len(offsets.last() as nat, 0, 0x6e);
        let prev_entries = free_head_line() + xref_lines(prefix);
        assert(entries =~= prev_entries + in_use_line(offsets.last() as nat));
        assert forall|k: int|
            0 <= k < offsets.len() implies entries.subrange(20 * (k + 1), 20 * (k + 2))
            == in_use_line(offsets[k] as nat) by {
            if k < offsets.len() - 1 {
                assert(prev_entries.subrange(20 * (k + 1), 20 * (k + 2)) == in_use_line(
                    prefix[k] as nat,
                ));
                assert(entries.subrange(20 * (k + 1), 20 * (k + 2)) =~= prev_entries.subrange(
                    20 * (k + 1),
                    20 * (k + 2),
                ));
            } else {
                assert(entries.subrange(20 * (k + 1), 20 * (k + 2)) =~= in_use_line(
                    offsets[k] as nat,
                ));
            }
        }
    }
}

/// Rendering the index is a pure function of the recorded offsets: two
/// renders with no recording in between append byte-identical blocks.
pub proof fn lemma_render_idempotent(base: Seq<u8>, offsets: Seq<usize>)
    ensures
        ({
            let once = base + crt_encoding(offsets);
            let twice = once + crt_encoding(offsets);
            twice.subrange(base.len() as int, once.len() as int) == twice.subrange(
                once.len() as int,
                twice.len() as int,
            )
        }),
{
    let once = base + crt_encoding(offsets);
    let twice = once + crt_encoding(offsets);
    assert(twice.subrange(base.len() as int, once.len() as int) =~= crt_encoding(offsets));
    assert(twice.subrange(once.len() as int, twice.len() as int) =~= crt_encoding(offsets));
}

/// An append-only ledger of object byte offsets, indexed implicitly by
/// insertion order starting at object number 1. Object number 0 is the
/// reserved free-list head in the rendered index and is never recorded.
pub struct CrossReferenceTable {
    offsets: Vec<usize>,
}

impl CrossReferenceTable {
    /// The recorded offsets, in recording order.
    pub closed spec fn view(&self) -> Seq<usize> {
        self.offsets@
    }

    /// Number of recorded offsets.
    pub fn len(&self) -> (n: usize)
        ensures
            n == self@.len(),
    {
        self.offsets.len()
    }

    /// Append one entry. Called exactly once per object, in the exact order
    /// the objects are written; never fails.
    pub fn record_offset(&mut self, offset: usize)
        ensures
            final(self)@ == old(self)@.push(offset),
    {
        self.offsets.push(offset);
    }

    /// Render the index block: section header, the synthetic free-list head,
    /// then one fixed 20-byte line per recorded offset. Succeeds exactly when
    /// every recorded offset fits the 10-digit field; on the first offset
    /// that does not, rendering stops with [`WriteError::FieldOverflow`],
    /// leaving the lines already emitted in the sink.
    pub fn render(&self, writer: &mut Buffer) -> (r: Result<usize, WriteError>)
        requires
            self@.len() < usize::MAX,
        ensures
            r is Ok <==> (forall|i: int|
                0 <= i < self@.len() ==> (self@[i] as nat) < pow10(10)),
            r matches Ok(n) ==> final(writer)@ == old(writer)@ + crt_encoding(self@) && n
                == crt_encoding(self@).len(),
            r is Err ==> r == Err::<usize, WriteError>(WriteError::FieldOverflow) && (exists|
                i: int,
            |
                #![auto]
                0 <= i < self@.len() && (self@[i] as nat) >= pow10(10) && (forall|j: int|
                    0 <= j < i ==> (self@[j] as nat) < pow10(10)) && final(writer)@ == old(
                    writer,
                )@ + xref_section_header(self@.len() + 1) + free_head_line() + xref_lines(
                    self@.subrange(0, i),
                )),
            r is Err ==> old(writer)@.is_prefix_of(final(writer)@),
    {
        let marker: [u8; 5] = [0x78, 0x72, 0x65, 0x66, 0x0a];
        let zero_sp: [u8; 2] = [0x30, 0x20];
        let newline: [u8; 1] = [0x0a];
        let mut written = writer.write_slice(marker.as_slice());
        written = written + writer.write_slice(zero_sp.as_slice());
        let count: u64 = self.offsets.len() as u64 + 1;
        let count_digits = encode_u64(count);
        written = written + writer.write_vec(&count_digits);
        written = written + writer.write_slice(newline.as_slice());
        proof {
            lemma_pow10_10();
            lemma_pow10_5();
            assert(self.offsets.len() as u64 + 1 == self@.len() + 1);
            assert(writer@ =~= old(writer)@ + xref_section_header(self@.len() + 1));
        }
        let head = Self::entry_line(0, 65535, 0x66)?;
        written = written + writer.write_vec(&head);
        let ghost header_and_head = old(writer)@ + xref_section_header(self@.len() + 1)
            + free_head_line();
        proof {
            assert(writer@ =~= header_and_head + xref_lines(self@.subrange(0, 0)));
            assert(old(writer)@.is_prefix_of(writer@));
        }
        let mut i: usize = 0;
        while i < self.offsets.len()
            invariant
                i <= self@.len(),
                forall|j: int| 0 <= j < i ==> (self@[j] as nat) < pow10(10),
                writer@ == header_and_head + xref_lines(self@.subrange(0, i as int)),
                header_and_head == old(writer)@ + xref_section_header(self@.len() + 1)
                    + free_head_line(),
                old(writer)@.is_prefix_of(writer@),
                written == writer@.len() - old(writer)@.len(),
            decreases self@.len() - i,
        {
            let line = match Self::entry_line(self.offsets[i] as u64, 0, 0x6e) {
                Ok(line) => line,
                Err(e) => {
                    proof {
                        lemma_pow10_10();
                        lemma_pow10_5();
                        assert((self@[i as int] as nat) >= pow10(10));
                        assert(writer@ == old(writer)@ + xref_section_header(self@.len() + 1)
                            + free_head_line() + xref_lines(self@.subrange(0, i as int)));
                    }
                    return Err(e);
                },
            };
            let n = writer.write_vec(&line);
            written = written + n;
            i = i + 1;
            proof {
                let done = self@.subrange(0, i as int);
                assert(done.drop_last() =~= self@.subrange(0, i - 1));
                assert(done.last() == self@[i - 1]);
                assert(writer@ =~= header_and_head + xref_lines(done));
            }
        }
        proof {
            assert(self@.subrange(0, self@.len() as int) =~= self@);
            assert(writer@ =~= old(writer)@ + crt_encoding(self@));
        }
        Ok(written)
    }

    /// Build one fixed 20-byte index line, or report that the offset or the
    /// generation number does not fit its fixed-width field.
    fn entry_line(offset: u64, generation: u64, flag: u8) -> (r: Result<Vec<u8>, WriteError>)
        ensures
            r is Ok <==> (offset as nat) < pow10(10) && (generation as nat) < pow10(5),
            r matches Ok(v) ==> v@ == xref_entry_line(offset as nat, generation as nat, flag)
                && v@.len() == 20,
            r is Err ==> r == Err::<Vec<u8>, WriteError>(WriteError::FieldOverflow),
    {
        let offset_field = encode_padded(offset, 10)?;
        let generation_field = encode_padded(generation, 5)?;
        let mut line: Vec<u8> = Vec::new();
        let mut k: usize = 0;
        while k < offset_field.len()
            invariant
                k <= offset_field@.len(),
                line@ == offset_field@.subrange(0, k as int),
            decreases offset_field@.len() - k,
        {
            line.push(offset_field[k]);
            k = k + 1;
            proof {
                assert(line@ =~= offset_field@.subrange(0, k as int));
            }
        }
        proof {
            assert(offset_field@.subrange(0, offset_field@.len() as int) =~= offset_field@);
        }
        line.push(0x20);
        let mut k2: usize = 0;
        while k2 < generation_field.len()
            invariant
                k2 <= generation_field@.len(),
                line@ == offset_field@ + seq![0x20u8] + generation_field@.subrange(0, k2 as int),
            decreases generation_field@.len() - k2,
        {
            line.push(generation_field[k2]);
            k2 = k2 + 1;
            proof {
                assert(line@ =~= offset_field@ + seq![0x20u8] + generation_field@.subrange(
                    0,
                    k2 as int,
                ));
            }
        }
        proof {
            assert(generation_field@.subrange(0, generation_field@.len() as int)
                =~= generation_field@);
        }
        line.push(0x20);
        line.push(flag);
        line.push(0x20);
        line.push(0x0a);
        proof {
            assert(line@ =~= xref_entry_line(offset as nat, generation as nat, flag));
            lemma_xref_line_len(offset as nat, generation as nat, flag);
        }
        Ok(line)
    }
}

impl Default for CrossReferenceTable {
    /// An empty ledger.
    fn default() -> (r: CrossReferenceTable)
        ensures
            r@ == Seq::<usize>::empty(),
    {
        CrossReferenceTable { offsets: Vec::new() }
    }
}

} // verus!
