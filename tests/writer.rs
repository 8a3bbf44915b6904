use pdfgen::bytes::write_dec;
use pdfgen::obj_id::{IdManager, ObjId, ObjRef};
use pdfgen::object::RawObject;
use pdfgen::writer::PdfWriter;
use pdfgen::xref::CrossReferenceTable;

/// An object whose body is two fixed lines.
fn dummy(id: ObjId) -> RawObject {
    RawObject::new(id, b"FirstLine\nSecondLine\n".to_vec())
}

fn four_dummies() -> (PdfWriter, IdManager) {
    let mut pdf_writer = PdfWriter::new();
    let mut id_manager = IdManager::new();
    pdf_writer.write_header();
    for _ in 0..4 {
        let dummy = dummy(id_manager.create_id());
        pdf_writer.write_object(&dummy);
    }
    (pdf_writer, id_manager)
}

const FOUR_OBJECTS: &str = "%PDF-2.0
1 0 obj
FirstLine
SecondLine
endobj

2 0 obj
FirstLine
SecondLine
endobj

3 0 obj
FirstLine
SecondLine
endobj

4 0 obj
FirstLine
SecondLine
endobj

";

#[test]
fn write_fmt_macro() {
    let mut writer = Vec::new();
    let count = write_dec(&mut writer, 42);

    assert_eq!(writer, b"42");
    assert_eq!(count, 2);
}

#[test]
fn write_header() {
    let mut pdf_writer = PdfWriter::new();
    pdf_writer.write_header();
    let output = String::from_utf8(pdf_writer.into_inner()).unwrap();
    assert_eq!(output, "%PDF-2.0\n");
}

#[test]
fn write_eof() {
    let mut pdf_writer = PdfWriter::new();
    pdf_writer.write_eof();
    let output = String::from_utf8(pdf_writer.into_inner()).unwrap();
    assert_eq!(output, "%%EOF");
}

#[test]
fn write_object() {
    let mut pdf_writer = PdfWriter::new();
    let mut id_manager = IdManager::new();

    let dummy = dummy(id_manager.create_id());
    pdf_writer.write_object(&dummy);

    let output = String::from_utf8(pdf_writer.into_inner()).unwrap();
    assert_eq!(output, "1 0 obj\nFirstLine\nSecondLine\nendobj\n\n");
}

#[test]
fn write_crt() {
    let (mut pdf_writer, _) = four_dummies();
    pdf_writer.write_crt();
    pdf_writer.write_eof();

    let output = String::from_utf8(pdf_writer.into_inner()).unwrap();
    let expected = format!(
        "{FOUR_OBJECTS}xref
0 4
0000000009 00000 n 
0000000046 00000 n 
0000000083 00000 n 
0000000120 00000 n 
%%EOF"
    );
    assert_eq!(output, expected);
}

#[test]
fn write_trailer() {
    let (mut pdf_writer, mut id_manager) = four_dummies();
    pdf_writer.write_crt();
    pdf_writer.write_trailer(&id_manager.create_id());
    pdf_writer.write_eof();

    let output = String::from_utf8(pdf_writer.into_inner()).unwrap();
    let expected = format!(
        "{FOUR_OBJECTS}xref
0 4
0000000009 00000 n 
0000000046 00000 n 
0000000083 00000 n 
0000000120 00000 n 
trailer
       << /Size 4
       /Root 5 0 R
       /ID [<c1708bb2c706afe7d294f9a5e79bb191>
          <c1708bb2c706afe7d294f9a5e79bb191>
          ]
       >>
startxref
157
%%EOF"
    );
    assert_eq!(output, expected);
}

#[test]
fn offsets_point_at_object_definitions() {
    let (pdf_writer, _) = four_dummies();
    let output = pdf_writer.output().clone();
    for (i, offset) in [9usize, 46, 83, 120].iter().enumerate() {
        let expected = format!("{} 0 obj", i + 1);
        assert_eq!(&output[*offset..*offset + expected.len()], expected.as_bytes());
    }
    assert_eq!(pdf_writer.current_offset(), output.len());
}

#[test]
fn entry_count_matches_endobj_markers() {
    let (mut pdf_writer, _) = four_dummies();
    pdf_writer.write_crt();
    let output = String::from_utf8(pdf_writer.into_inner()).unwrap();
    assert_eq!(output.matches("endobj").count(), 4);
    assert!(output.contains("\n0 4\n"));
}

#[test]
fn id_manager_starts_at_one_and_counts_up() {
    let mut ids = IdManager::new();
    assert_eq!(ids.create_id().id(), 1);
    let snapshot = ids.clone();
    assert_eq!(ids.create_id().id(), 2);
    let mut again = snapshot;
    assert_eq!(again.create_id().id(), 2);
}

#[test]
fn references_and_definitions() {
    let id = ObjId::from_number(17);
    let mut out = Vec::new();
    assert_eq!(id.write_ref(&mut out), 6);
    assert_eq!(out, b"17 0 R");
    out.clear();
    assert_eq!(id.write_def(&mut out), 8);
    assert_eq!(out, b"17 0 obj");
}

#[test]
fn cross_reference_table_pads_offsets() {
    let mut table = CrossReferenceTable::new();
    assert!(table.is_empty());
    table.add_object(0);
    table.add_object(1234567890);
    assert_eq!(table.len(), 2);
    let mut out = Vec::new();
    table.write(&mut out);
    assert_eq!(
        String::from_utf8(out).unwrap(),
        "xref\n0 2\n0000000000 00000 n \n1234567890 00000 n \n"
    );
}

#[test]
fn offsets_hash_is_md5_of_little_endian_offsets() {
    let mut table = CrossReferenceTable::new();
    for offset in [9usize, 46, 83, 120] {
        table.add_object(offset);
    }
    let hash = table.offsets_hash();
    assert_eq!(hex::encode(hash), "c1708bb2c706afe7d294f9a5e79bb191");
    assert_eq!(table.offsets_hash(), hash);
}

#[test]
fn object_reference_from_number() {
    let reference = ObjRef::from(4);
    let mut out = Vec::new();
    assert_eq!(reference.write(&mut out), 5);
    assert_eq!(out, b"4 0 R");
}
