use pdfgen::color::Color;
use pdfgen::content::{Image, Text};
use pdfgen::document::Document;
use pdfgen::number::{Number, Position, Rectangle};

fn num(v: f32) -> Number {
    Number::parse(format!("{v}").as_bytes()).unwrap()
}

/// `v` millimetres in user-space units.
fn mm(v: f32) -> Number {
    num(v / 25.4 * 72.0)
}

fn page_size(width_mm: f32, height_mm: f32) -> Rectangle {
    Rectangle::new(
        Position::new(mm(0.0), mm(0.0)),
        Position::new(mm(width_mm - 1.0), mm(height_mm - 1.0)),
    )
}

fn a4() -> Rectangle {
    page_size(210.0, 297.0)
}

fn a5() -> Rectangle {
    page_size(595.0, 842.0)
}

fn units(a: u32, b: u32, c: u32, d: u32) -> Rectangle {
    Rectangle::new(
        Position::new(Number::from_u32(a), Number::from_u32(b)),
        Position::new(Number::from_u32(c), Number::from_u32(d)),
    )
}

fn rgb_values(red: u8, green: u8, blue: u8) -> Vec<Number> {
    vec![
        num(f32::from(red) / 255.0),
        num(f32::from(green) / 255.0),
        num(f32::from(blue) / 255.0),
    ]
}

/// Reads the cross-reference table and checks that each offset lands on an `N 0 obj` line;
/// returns the identifiers found there, in table order.
fn objects_at_offsets(out: &[u8]) -> Vec<u64> {
    let text = String::from_utf8_lossy(out).into_owned();
    let start = text.rfind("xref\n0 ").expect("table present");
    let rest = &text[start + 7..];
    let line_end = rest.find('\n').unwrap();
    let count: usize = rest[..line_end].parse().unwrap();
    let mut ids = Vec::new();
    for i in 0..count {
        let entry = &rest[line_end + 1 + 20 * i..line_end + 1 + 20 * (i + 1)];
        assert!(entry.ends_with(" 00000 n \n"));
        let offset: usize = entry[..10].parse().unwrap();
        let obj = &text[offset..];
        let space = obj.find(' ').unwrap();
        let id: u64 = obj[..space].parse().unwrap();
        assert!(obj[space..].starts_with(" 0 obj\n"));
        ids.push(id);
    }
    assert_eq!(text.matches("endobj").count(), count);
    let startxref = text.rfind("startxref\n").unwrap();
    let pointer: usize = text[startxref + 10..].lines().next().unwrap().parse().unwrap();
    assert_eq!(pointer, start);
    assert!(text.starts_with("%PDF-2.0\n"));
    assert!(text.ends_with("%%EOF"));
    ids
}

fn create_sample_doc() -> Document {
    let mut document = Document::new();
    document.create_page().set_mediabox(units(0, 0, 0, 0));
    document.current_page().unwrap().set_mediabox(Rectangle::new(
        Position::new(Number::from_u32(0), Number::from_u32(0)),
        Position::new(
            Number::parse(b"592.441").unwrap(),
            Number::parse(b"839.0551").unwrap(),
        ),
    ));
    document.create_font(b"TestName".to_vec(), b"Type1".to_vec(), b"Helvetica".to_vec());
    document
}

fn sample_image(width: u32, height: u32) -> Vec<u8> {
    (0..width * height * 3).map(|i| (i % 251) as u8).collect()
}

#[test]
fn simple_document() {
    let document = create_sample_doc();
    let output = String::from_utf8(document.write()).unwrap();
    let expected = "%PDF-2.0
1 0 obj
<< /Type /Catalog 
/Pages 2 0 R >>
endobj

2 0 obj
<< /Type /Pages 
/Kids [3 0 R]
/Count 1 >>
endobj

3 0 obj
<< /Type /Page 
/Parent 2 0 R
/Resources <<  >>
/MediaBox [0 0 592.441 839.0551]>>
endobj


5 0 obj
<< /Type /Font 
/Subtype /Type1 
/BaseFont /Helvetica 
/Name /TestName 
>>
endobj

xref
0 4
0000000009 00000 n 
0000000060 00000 n 
0000000119 00000 n 
0000000219 00000 n 
trailer
       << /Size 4
       /Root 1 0 R
       /ID [<fbc32c429aa45e42d2bbba297e47f350>
          <fbc32c429aa45e42d2bbba297e47f350>
          ]
       >>
startxref
310
%%EOF";
    assert_eq!(output, expected);
    assert_eq!(objects_at_offsets(output.as_bytes()), vec![1, 2, 3, 5]);
}

#[test]
fn parallel_but_identical() {
    let document = create_sample_doc();
    let left_doc = document.write();
    let right_doc = document.write();
    assert_eq!(left_doc, right_doc);
    let rebuilt = create_sample_doc().write();
    assert_eq!(left_doc, rebuilt);
}

#[test]
fn empty_document() {
    let document = Document::new();
    let output = String::from_utf8(document.write()).unwrap();
    let expected = "%PDF-2.0
1 0 obj
<< /Type /Catalog 
/Pages 2 0 R >>
endobj

2 0 obj
<< /Type /Pages 
/Kids []
/Count 0 >>
endobj

xref
0 2
0000000009 00000 n 
0000000060 00000 n 
trailer
       << /Size 2
       /Root 1 0 R
       /ID [<d3bb082ea43369ba22d96bcfa88f5834>
          <d3bb082ea43369ba22d96bcfa88f5834>
          ]
       >>
startxref
114
%%EOF";
    assert_eq!(output, expected);
    assert_eq!(String::from_utf8(Document::new().write()).unwrap(), expected);
}

#[test]
fn a4_page_with_helvetica() {
    let mut document = Document::builder().with_page_size(a4()).build();
    document.create_page();
    document.create_font(b"F0".to_vec(), b"Type1".to_vec(), b"Helvetica".to_vec());
    let out = document.write();
    assert_eq!(objects_at_offsets(&out), vec![1, 2, 3, 5]);
    let text = String::from_utf8(out).unwrap();
    assert!(text.contains("/MediaBox [0 0 592.441 839.0551]\n/Kids [3 0 R]"));
}

#[test]
fn image_adds_one_object_and_a_content_stream() {
    let mut untouched = Document::new();
    untouched.create_page();
    let untouched_ids = objects_at_offsets(&untouched.write());
    assert_eq!(untouched_ids, vec![1, 2, 3]);

    let mut drawn = Document::new();
    let page = drawn.create_page();
    let image = Image::from_rgb8(2, 2, sample_image(2, 2)).at(Position::origin()).build();
    page.add_image(image);
    let out = drawn.write();
    let ids = objects_at_offsets(&out);
    assert_eq!(ids, vec![1, 2, 3, 5, 4]);
    let text = String::from_utf8_lossy(&out).into_owned();
    assert_eq!(text.matches("/Subtype /Image").count(), 1);
    assert!(text.contains("/Resources << /XObject << /Im1 5 0 R >> >>\n"));
    assert!(text.contains("/Contents 4 0 R\n"));
    assert!(text.contains("/Width 2\n/Height 2\n/ColorSpace /DeviceRGB \n/BitsPerComponent 8\n/Length 12 >>"));
    assert!(text.contains("q\n2 0 0 2 0 0 cm\n/Im1 Do\nQ\n"));
    assert!(text.contains(">>\nendobj\n\n5 0 obj\n"));
    assert!(text.contains("\nendstream\nendobj\n\n4 0 obj\n"));
}

#[test]
fn public_api() {
    let mut document = Document::builder().with_page_size(a5()).build();
    document.create_page();
    assert_eq!(objects_at_offsets(&document.write()), vec![1, 2, 3]);
}

#[test]
fn two_empty_pages() {
    let mut document = Document::builder().with_page_size(a5()).build();
    document.create_page();
    document.create_page();
    let out = document.write();
    assert_eq!(objects_at_offsets(&out), vec![1, 2, 3, 5]);
    assert!(String::from_utf8(out).unwrap().contains("/Kids [3 0 R\n       5 0 R]\n/Count 2 >>"));
}

#[test]
fn three_pages_different_size() {
    let mut document = Document::builder().with_page_size(a4()).build();
    document.create_page();
    let a5_page = document.create_page();
    a5_page.set_mediabox(a5());
    document.create_page();
    let out = document.write();
    assert_eq!(objects_at_offsets(&out), vec![1, 2, 3, 5, 7]);
    let text = String::from_utf8(out).unwrap();
    assert_eq!(text.matches("/MediaBox").count(), 2);
}

#[test]
fn page_with_image() {
    let mut document = Document::builder().with_page_size(units(0, 0, 64, 64)).build();
    let page = document.create_page();
    let img = Image::from_rgb8(4, 3, sample_image(4, 3)).at(Position::origin()).build();
    page.add_image(img);
    let out = document.write();
    assert_eq!(objects_at_offsets(&out), vec![1, 2, 3, 5, 4]);
    assert!(String::from_utf8_lossy(&out).contains("q\n4 0 0 3 0 0 cm\n/Im1 Do\nQ\n"));
}

#[test]
fn page_image_moved_and_scaled() {
    let mut document = Document::builder().with_page_size(units(0, 0, 128, 128)).build();
    let page = document.create_page();
    let img = Image::from_rgb8(4, 3, sample_image(4, 3))
        .at(Position::new(num(64. - 88. / 2.), num(13.)))
        .scaled(Position::new(num(88.), num(88.)))
        .build();
    page.add_image(img);
    let out = document.write();
    assert!(String::from_utf8_lossy(&out).contains("q\n88 0 0 88 20 13 cm\n/Im1 Do\nQ\n"));
}

#[test]
fn page_text() {
    let mut document = Document::builder().with_page_size(a4()).build();
    let font_id = document.create_font(b"F0".to_vec(), b"Type1".to_vec(), b"Helvetica".to_vec());
    let page = document.create_page();
    let txt = Text::builder()
        .with_content("Hello ")
        .with_expanded_content("from pdfgen!")
        .with_size(14)
        .at(Position::new(num(297.6378), num(420.9449)))
        .build();
    page.add_text(txt, font_id);

    let out = document.write();
    assert_eq!(objects_at_offsets(&out), vec![1, 2, 4, 5, 3]);
    let text = String::from_utf8(out).unwrap();
    assert!(text.contains("/Resources << /Font << /F1 3 0 R >> >>\n"));
    assert!(text.contains(
        "BT\n/DeviceRGB cs\n0 0 0 sc\n/F1 14 Tf\n297.6378 420.9449 Td\n(Hello from pdfgen!) Tj\nET\n"
    ));
}

#[test]
fn page_colored_text() {
    let mut document = Document::builder().with_page_size(a4()).build();
    let font_id = document.create_font(b"F0".to_vec(), b"Type1".to_vec(), b"Helvetica".to_vec());
    let page = document.create_page();
    let colors = [(255, 0, 0), (0, 255, 0), (0, 0, 255), (255, 255, 0), (255, 0, 255)];
    for (i, (r, g, b)) in colors.iter().enumerate() {
        let text = Text::builder()
            .with_content("Hello from pdfgen!")
            .with_size(14)
            .with_color(Color::Rgb { red: *r, green: *g, blue: *b }, rgb_values(*r, *g, *b))
            .at(Position::new(num(297.6378), num(420.9449 + 56.692913 * i as f32)))
            .build();
        page.add_text(text, font_id.clone());
    }
    let out = document.write();
    assert_eq!(objects_at_offsets(&out), vec![1, 2, 4, 5, 3]);
    let text = String::from_utf8(out).unwrap();
    assert!(text.contains("/DeviceRGB cs\n1 0 0 sc\n/F1 14 Tf"));
    assert!(text.contains("/DeviceRGB cs\n1 0 1 sc\n/F5 14 Tf"));
}
