//! Primitive token encoders: name tokens, indirect object references,
//! rectangles and the resources dictionary. Each encoder appends its
//! canonical byte representation to the buffer and reports exactly how many
//! bytes landed.
use vstd::prelude::*;
use crate::buffer::Buffer;
use crate::codec::{dec_digits, dec_signed, encode_i32, encode_u64};
use crate::types::{WriteDictValue, WriteError};

verus! {

/// A single space byte.
pub open spec fn sp() -> Seq<u8> {
    seq![0x20u8]
}

/// The line terminator: a single line feed byte.
pub open spec fn nl() -> Seq<u8> {
    seq![0x0au8]
}

/// Encoding of a name token: a solidus prefix, the name bytes, and one
/// trailing space: `/Name `.
pub open spec fn name_encoding(name: Seq<u8>) -> Seq<u8> {
    seq![0x2fu8] + name + sp()
}

/// Encoding of an indirect reference in reference form: `N G R`.
pub open spec fn obj_ref_ref_encoding(number: nat, generation: nat) -> Seq<u8> {
    dec_digits(number) + sp() + dec_digits(generation) + sp() + seq![0x52u8]
}

/// Encoding of an indirect reference in definition form: `N G obj`.
pub open spec fn obj_ref_def_encoding(number: nat, generation: nat) -> Seq<u8> {
    dec_digits(number) + sp() + dec_digits(generation) + sp() + seq![0x6fu8, 0x62u8, 0x6au8]
}

/// Encoding of a rectangle: a 4-element numeric array `[a b c d]`.
pub open spec fn rect_encoding(llx: int, lly: int, urx: int, ury: int) -> Seq<u8> {
    seq![0x5bu8] + dec_signed(llx) + sp() + dec_signed(lly) + sp() + dec_signed(urx) + sp()
        + dec_signed(ury) + seq![0x5du8]
}

/// Encoding of the empty dictionary token: `<<  >>`.
pub open spec fn empty_dict_encoding() -> Seq<u8> {
    seq![0x3cu8, 0x3cu8, 0x20u8, 0x20u8, 0x3eu8, 0x3eu8]
}

/// An atomic name token: an immutable byte sequence written with a fixed
/// textual prefix marker. Equality is byte-exact.
pub struct Name {
    bytes: Vec<u8>,
}

impl Name {
    /// The bytes of the name, without prefix marker or separator.
    pub closed spec fn view(&self) -> Seq<u8> {
        self.bytes@
    }

    /// Create a name token from its bytes.
    pub fn new(bytes: Vec<u8>) -> (r: Name)
        ensures
            r@ == bytes@,
    {
        Name { bytes }
    }

    /// Append `/Name ` to the buffer and report the number of bytes written.
    pub fn write(&self, writer: &mut Buffer) -> (r: Result<usize, WriteError>)
        ensures
            final(writer)@ == old(writer)@ + name_encoding(self@),
            final(writer)@.len() <= usize::MAX,
            r matches Ok(n) && n == name_encoding(self@).len(),
    {
        let prefix: [u8; 1] = [0x2f];
        let space: [u8; 1] = [0x20];
        let mut written = writer.write_slice(prefix.as_slice());
        written = written + writer.write_slice(self.bytes.as_slice());
        written = written + writer.write_slice(space.as_slice());
        proof {
            assert(final(writer)@ =~= old(writer)@ + name_encoding(self@));
        }
        Ok(written)
    }
}

/// An indirect object reference: object number and generation number.
/// Identifies an object uniquely within a document; two references are equal
/// exactly when both fields match.
#[derive(Clone, Copy, Debug, PartialEq, Eq, Structural)]
pub struct ObjRef {
    /// The object number.
    pub number: u64,
    /// The generation number.
    pub generation: u64,
}

impl ObjRef {
    /// Create a reference with an explicit generation number.
    pub fn new(number: u64, generation: u64) -> (r: ObjRef)
        ensures
            r.number == number,
            r.generation == generation,
    {
        ObjRef { number, generation }
    }

    /// Append the reference form `N G R` and report bytes written.
    pub fn write_ref(&self, writer: &mut Buffer) -> (r: Result<usize, WriteError>)
        ensures
            final(writer)@ == old(writer)@ + obj_ref_ref_encoding(
                self.number as nat,
                self.generation as nat,
            ),
            final(writer)@.len() <= usize::MAX,
            r matches Ok(n) && n == obj_ref_ref_encoding(
                self.number as nat,
                self.generation as nat,
            ).len(),
    {
        let space: [u8; 1] = [0x20];
        let marker: [u8; 1] = [0x52];
        let number = encode_u64(self.number);
        let generation = encode_u64(self.generation);
        let mut written = writer.write_vec(&number);
        written = written + writer.write_slice(space.as_slice());
        written = written + writer.write_vec(&generation);
        written = written + writer.write_slice(space.as_slice());
        written = written + writer.write_slice(marker.as_slice());
        proof {
            assert(final(writer)@ =~= old(writer)@ + obj_ref_ref_encoding(
                self.number as nat,
                self.generation as nat,
            ));
        }
        Ok(written)
    }

    /// Append the definition form `N G obj` and report bytes written.
    pub fn write_def(&self, writer: &mut Buffer) -> (r: Result<usize, WriteError>)
        ensures
            final(writer)@ == old(writer)@ + obj_ref_def_encoding(
                self.number as nat,
                self.generation as nat,
            ),
            final(writer)@.len() <= usize::MAX,
            r matches Ok(n) && n == obj_ref_def_encoding(
                self.number as nat,
                self.generation as nat,
            ).len(),
    {
        let space: [u8; 1] = [0x20];
        let marker: [u8; 3] = [0x6f, 0x62, 0x6a];
        let number = encode_u64(self.number);
        let generation = encode_u64(self.generation);
        let mut written = writer.write_vec(&number);
        written = written + writer.write_slice(space.as_slice());
        written = written + writer.write_vec(&generation);
        written = written + writer.write_slice(space.as_slice());
        written = written + writer.write_slice(marker.as_slice());
        proof {
            assert(final(writer)@ =~= old(writer)@ + obj_ref_def_encoding(
                self.number as nat,
                self.generation as nat,
            ));
        }
        Ok(written)
    }
}

impl From<u64> for ObjRef {
    /// A bare object number stands for generation zero.
    fn from(number: u64) -> (r: ObjRef) {
        ObjRef { number, generation: 0 }
    }
}

impl vstd::std_specs::convert::FromSpecImpl<u64> for ObjRef {
    open spec fn obeys_from_spec() -> bool {
        true
    }

    open spec fn from_spec(number: u64) -> ObjRef {
        ObjRef { number, generation: 0 }
    }
}

impl WriteDictValue for ObjRef {
    /// As a dictionary value a reference stands in reference form.
    fn write(&self, writer: &mut Buffer) -> (r: Result<usize, WriteError>) {
        self.write_ref(writer)
    }
}

/// Four ordered numeric bounds in document user-space units: lower-left x,
/// lower-left y, upper-right x, upper-right y. The type enforces no
/// normalization; the caller supplies meaningful bounds.
#[derive(Clone, Copy, Debug, PartialEq, Eq, Structural)]
pub struct Rectangle {
    /// Lower-left x bound.
    pub llx: i32,
    /// Lower-left y bound.
    pub lly: i32,
    /// Upper-right x bound.
    pub urx: i32,
    /// Upper-right y bound.
    pub ury: i32,
}

impl Rectangle {
    /// Create a rectangle from its four bounds.
    pub fn new(llx: i32, lly: i32, urx: i32, ury: i32) -> (r: Rectangle)
        ensures
            r == (Rectangle { llx, lly, urx, ury }),
    {
        Rectangle { llx, lly, urx, ury }
    }

    /// Append the 4-element numeric array `[a b c d]` and report bytes
    /// written.
    pub fn write(&self, writer: &mut Buffer) -> (r: Result<usize, WriteError>)
        ensures
            final(writer)@ == old(writer)@ + rect_encoding(
                self.llx as int,
                self.lly as int,
                self.urx as int,
                self.ury as int,
            ),
            final(writer)@.len() <= usize::MAX,
            r matches Ok(n) && n == rect_encoding(
                self.llx as int,
                self.lly as int,
                self.urx as int,
                self.ury as int,
            ).len(),
    {
        let open_bracket: [u8; 1] = [0x5b];
        let close_bracket: [u8; 1] = [0x5d];
        let space: [u8; 1] = [0x20];
        let a = encode_i32(self.llx);
        let b = encode_i32(self.lly);
        let c = encode_i32(self.urx);
        let d = encode_i32(self.ury);
        let mut written = writer.write_slice(open_bracket.as_slice());
        written = written + writer.write_vec(&a);
        written = written + writer.write_slice(space.as_slice());
        written = written + writer.write_vec(&b);
        written = written + writer.write_slice(space.as_slice());
        written = written + writer.write_vec(&c);
        written = written + writer.write_slice(space.as_slice());
        written = written + writer.write_vec(&d);
        written = written + writer.write_slice(close_bracket.as_slice());
        proof {
            assert(final(writer)@ =~= old(writer)@ + rect_encoding(
                self.llx as int,
                self.lly as int,
                self.urx as int,
                self.ury as int,
            ));
        }
        Ok(written)
    }
}

impl From<(i32, i32, i32, i32)> for Rectangle {
    /// The bounds in order: lower-left x, lower-left y, upper-right x,
    /// upper-right y.
    fn from(bounds: (i32, i32, i32, i32)) -> (r: Rectangle) {
        Rectangle { llx: bounds.0, lly: bounds.1, urx: bounds.2, ury: bounds.3 }
    }
}

impl vstd::std_specs::convert::FromSpecImpl<(i32, i32, i32, i32)> for Rectangle {
    open spec fn obeys_from_spec() -> bool {
        true
    }

    open spec fn from_spec(bounds: (i32, i32, i32, i32)) -> Rectangle {
        Rectangle { llx: bounds.0, lly: bounds.1, urx: bounds.2, ury: bounds.3 }
    }
}

impl WriteDictValue for Rectangle {
    fn write(&self, writer: &mut Buffer) -> (r: Result<usize, WriteError>) {
        Rectangle::write(self, writer)
    }
}

/// Resources required by a page's contents. This core carries no concrete
/// resource categories, so the value serializes to the empty dictionary
/// token; richer catalogs layer on top through [`WriteDictValue`].
#[derive(Clone, Copy, Debug, PartialEq, Eq, Structural, Default)]
pub struct Resources;

impl Resources {
    /// Append the empty dictionary token `<<  >>` and report bytes written.
    pub fn write(&self, writer: &mut Buffer) -> (r: Result<usize, WriteError>)
        ensures
            final(writer)@ == old(writer)@ + empty_dict_encoding(),
            final(writer)@.len() <= usize::MAX,
            r matches Ok(n) && n == empty_dict_encoding().len(),
    {
        let token: [u8; 6] = [0x3c, 0x3c, 0x20, 0x20, 0x3e, 0x3e];
        let written = writer.write_slice(token.as_slice());
        proof {
            assert(token@ =~= empty_dict_encoding());
        }
        Ok(written)
    }
}

impl WriteDictValue for Resources {
    fn write(&self, writer: &mut Buffer) -> (r: Result<usize, WriteError>) {
        Resources::write(self, writer)
    }
}

} // verus!
