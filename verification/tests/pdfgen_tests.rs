use pdfgen::buffer::Buffer;
use pdfgen::codec::{encode_i32, encode_padded, encode_u64};
use pdfgen::page::Page;
use pdfgen::primitives::{Name, ObjRef, Rectangle, Resources};
use pdfgen::trailer::WriteTrailer;
use pdfgen::types::{Object, WriteError};
use pdfgen::writer::PdfWriter;
use pdfgen::xref::CrossReferenceTable;
use pdfgen::{write_dict_entry, write_newline, Document};

/// A stand-in indirect object with a fixed known body.
struct Dummy;

impl Object for Dummy {
    fn write(&self, writer: &mut Buffer) -> Result<usize, WriteError> {
        Ok(writer.write_slice(b"FirstLine\nSecondLine"))
    }
}

/// An object whose own write always reports a sink failure.
struct BrokenSink;

impl Object for BrokenSink {
    fn write(&self, _writer: &mut Buffer) -> Result<usize, WriteError> {
        Err(WriteError::Sink)
    }
}

#[test]
fn basic_page() {
    let page = Page::new(ObjRef::from(0), Rectangle::from((0, 0, 100, 100)));

    let mut writer = Buffer::new();
    page.write(&mut writer).unwrap();

    let output = String::from_utf8(writer.as_slice().to_vec()).unwrap();

    assert_eq!(
        output,
        "<< /Type /Page /Parent 0 0 R /Resources <<  >> /MediaBox [0 0 100 100] >>"
    );
}

#[test]
fn page_reports_exact_byte_count() {
    let page = Page::new(ObjRef::from(7), Rectangle::from((-3, 0, 595, 842)));
    let mut writer = Buffer::new();
    let n = page.write(&mut writer).unwrap();
    assert_eq!(n, writer.len());
    let output = String::from_utf8(writer.as_slice().to_vec()).unwrap();
    assert_eq!(
        output,
        "<< /Type /Page /Parent 7 0 R /Resources <<  >> /MediaBox [-3 0 595 842] >>"
    );
}

#[test]
fn empty_document_is_header_then_footer() {
    let doc = Document;
    let mut writer = Buffer::new();
    doc.write(&mut writer).unwrap();
    assert_eq!(writer.as_slice(), b"%PDF-2.0%%EOF");
}

#[test]
fn document_header_byte_count() {
    let doc = Document;
    let mut writer = Buffer::new();
    let n = doc.write_header(&mut writer).unwrap();
    assert_eq!(n, 8);
    assert_eq!(writer.as_slice(), b"%PDF-2.0");
}

#[test]
fn four_dummy_objects_reproduce_known_offsets() {
    let mut writer = PdfWriter::new();
    writer.write_header().unwrap();
    writer.write_object(&Dummy, ObjRef::from(1)).unwrap();
    writer.write_object(&Dummy, ObjRef::from(2)).unwrap();
    writer.write_object(&Dummy, ObjRef::from(3)).unwrap();
    writer.write_object(&Dummy, ObjRef::from(4)).unwrap();
    writer.write_crt().unwrap();
    writer.write_eof().unwrap();

    let mut expected = String::from("%PDF-2.0\n");
    for i in 1..=4 {
        expected.push_str(&format!("{} 0 obj\nFirstLine\nSecondLine\nendobj\n", i));
    }
    expected.push_str("xref\n0 5\n");
    expected.push_str("0000000000 65535 f \n");
    expected.push_str("0000000009 00000 n \n");
    expected.push_str("0000000045 00000 n \n");
    expected.push_str("0000000081 00000 n \n");
    expected.push_str("0000000117 00000 n \n");
    expected.push_str("%%EOF");

    let output = String::from_utf8(writer.output().to_vec()).unwrap();
    assert_eq!(output, expected);
}

#[test]
fn index_lines_are_twenty_bytes() {
    let mut crt = CrossReferenceTable::default();
    crt.record_offset(9);
    crt.record_offset(123456789);
    let mut buf = Buffer::new();
    crt.render(&mut buf).unwrap();
    let text = String::from_utf8(buf.as_slice().to_vec()).unwrap();
    let mut lines = text.split_inclusive('\n');
    assert_eq!(lines.next().unwrap(), "xref\n");
    assert_eq!(lines.next().unwrap(), "0 3\n");
    let mut count = 0;
    for line in lines {
        assert_eq!(line.len(), 20);
        count += 1;
    }
    assert_eq!(count, 3);
}

#[test]
fn rendered_index_has_synthetic_head() {
    let mut crt = CrossReferenceTable::default();
    crt.record_offset(42);
    let mut buf = Buffer::new();
    let n = crt.render(&mut buf).unwrap();
    assert_eq!(n, buf.len());
    let text = String::from_utf8(buf.as_slice().to_vec()).unwrap();
    assert_eq!(text, "xref\n0 2\n0000000000 65535 f \n0000000042 00000 n \n");
}

#[test]
fn rendering_twice_is_idempotent() {
    let mut crt = CrossReferenceTable::default();
    crt.record_offset(9);
    crt.record_offset(45);
    let mut buf = Buffer::new();
    let n1 = crt.render(&mut buf).unwrap();
    let len1 = buf.len();
    let n2 = crt.render(&mut buf).unwrap();
    assert_eq!(n1, n2);
    let bytes = buf.as_slice();
    assert_eq!(&bytes[..len1], &bytes[len1..]);
}

#[test]
fn oversized_offset_is_reported_not_truncated() {
    let mut crt = CrossReferenceTable::default();
    crt.record_offset(10_000_000_000);
    let mut buf = Buffer::new();
    assert_eq!(crt.render(&mut buf), Err(WriteError::FieldOverflow));
}

#[test]
fn widest_offset_still_fits() {
    let mut crt = CrossReferenceTable::default();
    crt.record_offset(9_999_999_999);
    let mut buf = Buffer::new();
    crt.render(&mut buf).unwrap();
    let text = String::from_utf8(buf.as_slice().to_vec()).unwrap();
    assert_eq!(text, "xref\n0 2\n0000000000 65535 f \n9999999999 00000 n \n");
}

#[test]
fn trailer_output_is_aligned() {
    let crt = CrossReferenceTable::default();
    let mut buf = Buffer::new();
    let n = WriteTrailer::write(&crt, &mut buf, 130, 5, ObjRef::from(1), [0u8; 16]).unwrap();
    assert_eq!(n, buf.len());
    let text = String::from_utf8(buf.as_slice().to_vec()).unwrap();
    let expected = "trailer\n       << /Size 5\n       /Root 1 0 R\n       /ID [0 0 0 0 0 0 0 0 0 0 0 0 0 0 0 0]\n        >>\nstartxref\n130\n";
    assert_eq!(text, expected);
}

#[test]
fn trailer_id_bytes_are_decimal_items() {
    let crt = CrossReferenceTable::default();
    let mut buf = Buffer::new();
    let mut id = [0u8; 16];
    id[0] = 255;
    id[15] = 7;
    WriteTrailer::write(&crt, &mut buf, 9, 1, ObjRef::new(2, 3), id).unwrap();
    let text = String::from_utf8(buf.as_slice().to_vec()).unwrap();
    assert!(text.contains("/Root 2 3 R\n"));
    assert!(text.contains("/ID [255 0 0 0 0 0 0 0 0 0 0 0 0 0 0 7]\n"));
    assert!(text.ends_with("startxref\n9\n"));
}

#[test]
fn full_session_with_trailer() {
    let mut writer = PdfWriter::new();
    writer.write_header().unwrap();
    let page = Page::new(ObjRef::from(2), Rectangle::from((0, 0, 200, 300)));
    writer.write_object(&page, ObjRef::from(1)).unwrap();
    writer.write_crt().unwrap();
    writer.write_trailer(ObjRef::from(1), [9u8; 16]).unwrap();
    writer.write_eof().unwrap();
    let text = String::from_utf8(writer.output().to_vec()).unwrap();
    assert!(text.starts_with(
        "%PDF-2.0\n1 0 obj\n<< /Type /Page /Parent 2 0 R /Resources <<  >> /MediaBox [0 0 200 300] >>\nendobj\n"
    ));
    assert!(text.contains("xref\n0 2\n0000000000 65535 f \n0000000009 00000 n \n"));
    assert!(text.contains("trailer\n       << /Size 2\n"));
    let xref_at = text.find("xref\n").unwrap();
    assert!(text.contains(&format!("startxref\n{}\n", xref_at)));
    assert!(text.ends_with("%%EOF"));
}

#[test]
fn failing_object_write_propagates_sink_error() {
    let mut writer = PdfWriter::new();
    writer.write_header().unwrap();
    let r = writer.write_object(&BrokenSink, ObjRef::from(1));
    assert_eq!(r, Err(WriteError::Sink));
}

#[test]
fn decimal_encoders() {
    assert_eq!(encode_u64(0), b"0".to_vec());
    assert_eq!(encode_u64(1234567890123), b"1234567890123".to_vec());
    assert_eq!(encode_i32(-42), b"-42".to_vec());
    assert_eq!(encode_i32(7), b"7".to_vec());
    assert_eq!(encode_i32(i32::MIN), b"-2147483648".to_vec());
}

#[test]
fn padded_encoder_pads_and_rejects() {
    assert_eq!(encode_padded(7, 3).unwrap(), b"007".to_vec());
    assert_eq!(encode_padded(999, 3).unwrap(), b"999".to_vec());
    assert_eq!(encode_padded(1000, 3), Err(WriteError::FieldOverflow));
}

#[test]
fn object_reference_forms() {
    let r = ObjRef::from(17);
    assert_eq!(r.number, 17);
    assert_eq!(r.generation, 0);
    let mut buf = Buffer::new();
    r.write_ref(&mut buf).unwrap();
    r.write_def(&mut buf).unwrap();
    assert_eq!(buf.as_slice(), b"17 0 R17 0 obj");
}

#[test]
fn name_and_resources_tokens() {
    let mut buf = Buffer::new();
    let name = Name::new(b"Contents".to_vec());
    name.write(&mut buf).unwrap();
    Resources.write(&mut buf).unwrap();
    assert_eq!(buf.as_slice(), b"/Contents <<  >>");
}

#[test]
fn dict_entry_and_newline() {
    let mut buf = Buffer::new();
    let key = Name::new(b"Parent".to_vec());
    let n = write_dict_entry(&mut buf, &key, &ObjRef::from(3)).unwrap();
    assert_eq!(n, buf.len());
    write_newline(&mut buf).unwrap();
    assert_eq!(buf.as_slice(), b"/Parent 3 0 R\n");
}
