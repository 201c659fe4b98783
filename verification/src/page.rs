//! Page objects: the leaves of the page tree, each a dictionary giving the
//! attributes of a single page of the document.
use vstd::prelude::*;
use crate::buffer::Buffer;
use crate::primitives::{
    empty_dict_encoding, name_encoding, obj_ref_ref_encoding, rect_encoding, sp, Name, ObjRef,
    Rectangle, Resources,
};
use crate::types::{Object, WriteError};

verus! {

/// The name bytes of the type tag key: `Type`.
pub open spec fn type_token() -> Seq<u8> {
    seq![0x54u8, 0x79u8, 0x70u8, 0x65u8]
}

/// The name bytes of the page type tag: `Page`.
pub open spec fn page_token() -> Seq<u8> {
    seq![0x50u8, 0x61u8, 0x67u8, 0x65u8]
}

/// The name bytes of the parent reference key: `Parent`.
pub open spec fn parent_token() -> Seq<u8> {
    seq![0x50u8, 0x61u8, 0x72u8, 0x65u8, 0x6eu8, 0x74u8]
}

/// The name bytes of the resources key: `Resources`.
pub open spec fn resources_token() -> Seq<u8> {
    seq![0x52u8, 0x65u8, 0x73u8, 0x6fu8, 0x75u8, 0x72u8, 0x63u8, 0x65u8, 0x73u8]
}

/// The name bytes of the media box key: `MediaBox`.
pub open spec fn media_box_token() -> Seq<u8> {
    seq![0x4du8, 0x65u8, 0x64u8, 0x69u8, 0x61u8, 0x42u8, 0x6fu8, 0x78u8]
}

/// The canonical dictionary encoding of a page: the type tag, the parent
/// reference, the resources sub-dictionary and the media box, in this fixed
/// order.
pub open spec fn page_encoding(p: Page) -> Seq<u8> {
    seq![0x3cu8, 0x3cu8, 0x20u8] + name_encoding(type_token()) + name_encoding(page_token())
        + name_encoding(parent_token()) + obj_ref_ref_encoding(
        p.parent.number as nat,
        p.parent.generation as nat,
    ) + sp() + name_encoding(resources_token()) + empty_dict_encoding() + sp() + name_encoding(
        media_box_token(),
    ) + rect_encoding(
        p.media_box.llx as int,
        p.media_box.lly as int,
        p.media_box.urx as int,
        p.media_box.ury as int,
    ) + seq![0x20u8, 0x3eu8, 0x3eu8]
}

/// A single page of the document: a dictionary naming its parent page-tree
/// node, its resources and the boundaries of its physical medium. Neither
/// the parent reference nor the rectangle bounds are validated; meaningful
/// values are the caller's responsibility.
pub struct Page {
    /// The page tree node that is the immediate parent of this page object.
    pub parent: ObjRef,
    /// Resources required by the page contents; serializes to the empty
    /// dictionary token when no resources were supplied.
    pub resources: Resources,
    /// The boundaries, in default user space units, of the physical medium
    /// on which the page shall be displayed or printed.
    pub media_box: Rectangle,
}

impl Page {
    /// Create a new blank page that belongs to the given parent and media
    /// box.
    pub fn new(parent: ObjRef, media_box: Rectangle) -> (r: Page)
        ensures
            r.parent == parent,
            r.media_box == media_box,
    {
        Page { parent, resources: Resources, media_box }
    }

    /// Append the page's canonical dictionary encoding and report the
    /// number of bytes written; never fails.
    pub fn write(&self, writer: &mut Buffer) -> (r: Result<usize, WriteError>)
        ensures
            final(writer)@ == old(writer)@ + page_encoding(*self),
            final(writer)@.len() <= usize::MAX,
            r matches Ok(n) && n == page_encoding(*self).len(),
    {
        let dict_open: [u8; 3] = [0x3c, 0x3c, 0x20];
        let dict_close: [u8; 3] = [0x20, 0x3e, 0x3e];
        let space: [u8; 1] = [0x20];
        let type_key = Name::new(vec![0x54, 0x79, 0x70, 0x65]);
        let page_name = Name::new(vec![0x50, 0x61, 0x67, 0x65]);
        let parent_name = Name::new(vec![0x50, 0x61, 0x72, 0x65, 0x6e, 0x74]);
        let resources_name = Name::new(vec![0x52, 0x65, 0x73, 0x6f, 0x75, 0x72, 0x63, 0x65, 0x73]);
        let media_box_name = Name::new(vec![0x4d, 0x65, 0x64, 0x69, 0x61, 0x42, 0x6f, 0x78]);
        proof {
            assert(type_key@ =~= type_token());
            assert(page_name@ =~= page_token());
            assert(parent_name@ =~= parent_token());
            assert(resources_name@ =~= resources_token());
            assert(media_box_name@ =~= media_box_token());
        }
        let mut written = writer.write_slice(dict_open.as_slice());
        written = written + type_key.write(writer)?;
        written = written + page_name.write(writer)?;

        written = written + parent_name.write(writer)?;
        written = written + self.parent.write_ref(writer)?;
        written = written + writer.write_slice(space.as_slice());

        written = written + resources_name.write(writer)?;
        written = written + self.resources.write(writer)?;
        written = written + writer.write_slice(space.as_slice());

        written = written + media_box_name.write(writer)?;
        written = written + self.media_box.write(writer)?;
        written = written + writer.write_slice(dict_close.as_slice());
        proof {
            assert(final(writer)@ =~= old(writer)@ + page_encoding(*self));
        }
        Ok(written)
    }
}

impl Object for Page {
    /// A page's body as an indirect object is its dictionary encoding.
    fn write(&self, writer: &mut Buffer) -> (r: Result<usize, WriteError>) {
        Page::write(self, writer)
    }
}

} // verus!
