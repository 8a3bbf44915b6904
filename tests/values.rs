use pdfgen::color::{CmykValue, CmykValueErr, Color};
use pdfgen::number::{Number, Position, Rectangle};
use pdfgen::stream::Stream;
use pdfgen::string::{PdfString, TextString};

fn num(v: f32) -> Number {
    Number::parse(format!("{v}").as_bytes()).unwrap()
}

#[test]
fn out_of_range_u8() {
    let res = CmykValue::try_from(101);
    assert!(res.is_err());
}

#[test]
fn in_range() {
    let res = CmykValue::try_from(0);
    assert!(res.is_ok());
    let res = CmykValue::try_from(10);
    assert!(res.is_ok());
    let res = CmykValue::try_from(99);
    assert!(res.is_ok());
}

#[test]
fn cmyk_limits() {
    assert_eq!(CmykValue::try_from(100).map(u8::from), Ok(100));
    assert_eq!(CmykValue::try_from(255), Err(CmykValueErr::OutOfRange(255)));
    assert_eq!(CmykValue::from_const::<42>().get(), 42);
}

#[test]
fn device_rgb() {
    let mut writer = Vec::new();
    let color = Color::Rgb {
        red: 255,
        green: 128,
        blue: 55,
    };
    let values = vec![num(255. / 255.), num(128. / 255.), num(55. / 255.)];

    color.write_stroke(&mut writer, &values);
    color.write_non_stroke(&mut writer, &values);

    let output = String::from_utf8(writer).unwrap();
    assert_eq!(
        output,
        "/DeviceRGB CS\n1 0.5019608 0.21568628 SC\n/DeviceRGB cs\n1 0.5019608 0.21568628 sc\n"
    );
}

#[test]
fn gray_and_cmyk_spaces() {
    let mut out = Vec::new();
    Color::Gray(0).write_non_stroke(&mut out, &vec![Number::from_u32(0)]);
    let cmyk = Color::CMYK {
        cyan: CmykValue::from_const::<50>(),
        magenta: CmykValue::from_const::<10>(),
        yellow: CmykValue::from_const::<100>(),
        black: CmykValue::from_const::<42>(),
    };
    assert_eq!(cmyk.components(), vec![50, 10, 100, 42]);
    assert_eq!(cmyk.max_value(), 100);
    let values = vec![num(0.5), num(0.1), Number::from_u32(1), num(0.42)];
    cmyk.write_stroke(&mut out, &values);
    assert_eq!(
        String::from_utf8(out).unwrap(),
        "/DeviceGray cs\n0 sc\n/DeviceCMYK CS\n0.5 0.1 1 0.42 SC\n"
    );
}

#[test]
fn basic_stream() {
    let bytes = String::from("This is the content of a stream.");
    let stream = Stream::with_bytes(bytes.into_bytes());

    let mut writer = Vec::default();
    let written = stream.write(&mut writer);
    let output = String::from_utf8_lossy(&writer);

    assert_eq!(
        output,
        "<< /Length 32 >>\nstream\nThis is the content of a stream.\nendstream"
    );
    assert_eq!(written, writer.len());
}

#[test]
fn stream_length_counts_the_data_exactly() {
    let mut stream = Stream::new();
    assert!(stream.is_empty());
    stream.push_bytes(b"abc\n\x00\xff");
    stream.write_identifier(&pdfgen::identifier::Identifier::new(b"K".to_vec()));
    assert_eq!(stream.len(), 9);
    let mut out = Vec::new();
    stream.write_with_dict(&mut out, b"/Type /XObject ");
    let expected: &[u8] = b"<< /Type /XObject /Length 9 >>\nstream\nabc\n\x00\xff/K \nendstream";
    assert_eq!(out, expected);
}

#[test]
fn simple_string() {
    let pdf_string = PdfString::from("This is text.");

    let mut writer = Vec::default();
    pdf_string.write_content(&mut writer);
    let output = String::from_utf8(writer).unwrap();

    assert_eq!(output, "(This is text.)");
}

#[test]
fn simple_string_expanded() {
    let mut pdf_string = PdfString::from("This is");
    pdf_string.expand(" an expanded text.");

    let mut writer = Vec::default();
    pdf_string.write_content(&mut writer);
    let output = String::from_utf8(writer).unwrap();

    assert_eq!(output, "(This is an expanded text.)");
}

#[test]
fn text_string_has_byte_order_mark() {
    let text = TextString::new("hi");
    assert_eq!(text.leading_bytes(), [239, 187, 191]);
    let mut out = Vec::new();
    text.write(&mut out);
    assert_eq!(out, vec![239, 187, 191, b'h', b'i']);
}

#[test]
fn output() {
    let rect = Rectangle::new(
        Position::new(Number::from_u32(24), Number::from_u32(25)),
        Position::new(Number::from_u32(42), Number::from_u32(43)),
    );

    let mut output = Vec::new();
    rect.write(&mut output);
    let output = String::from_utf8(output).unwrap();

    assert_eq!(output, "[24 25 42 43]");
}

#[test]
fn numerals() {
    assert!(Number::parse(b"592.441").is_some());
    assert!(Number::parse(b"-0.5").is_some());
    assert!(Number::parse(b"12").is_some());
    assert!(Number::parse(b"").is_none());
    assert!(Number::parse(b"-").is_none());
    assert!(Number::parse(b".5").is_none());
    assert!(Number::parse(b"5.").is_none());
    assert!(Number::parse(b"1.2.3").is_none());
    assert!(Number::parse(b"1e5").is_none());
    assert!(Number::parse(b"NaN").is_none());
    let mut out = Vec::new();
    Number::from_u32(4294967295).write(&mut out);
    assert_eq!(out, b"4294967295");
}
