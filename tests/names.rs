use pdfgen::identifier::Identifier;
use pdfgen::name::{Name, NameError};

#[test]
fn identifier_new_name_static() {
    let static_key = Identifier::from_static(b"StaticKey");
    let static_key_again = Identifier::from_static(b"StaticKey");

    let mut out_buf = Vec::new();
    static_key.write(&mut out_buf);
    assert_eq!(&out_buf, b"/StaticKey ");
    out_buf.clear();

    static_key_again.write(&mut out_buf);
    assert_eq!(&out_buf, b"/StaticKey ");
}

#[test]
fn identifier_new_name_dynamic() {
    let dynamic_key = Identifier::new(Vec::from("DynamicKey"));

    let mut out_buf = Vec::new();
    dynamic_key.write(&mut out_buf);
    assert_eq!(&out_buf, b"/DynamicKey ");
}

#[test]
fn identifier_new_name_slice() {
    let slice_key = Identifier::new(b"SliceKey".to_vec());

    let mut out_buf = Vec::new();
    slice_key.write(&mut out_buf);
    assert_eq!(&out_buf, b"/SliceKey ");
}

#[test]
fn name_new_name_static() {
    let static_key = Name::from_static(b"StaticKey");
    let static_key_again = Name::from_static(b"StaticKey");

    let mut out_buf = Vec::new();
    static_key.write(&mut out_buf);
    assert_eq!(&out_buf, b"/StaticKey ");
    out_buf.clear();

    static_key_again.write(&mut out_buf);
    assert_eq!(&out_buf, b"/StaticKey ");
}

#[test]
fn name_new_name_dynamic() {
    let dynamic_key = Name::new(Vec::from("DynamicKey"));

    let mut out_buf = Vec::new();
    dynamic_key.write(&mut out_buf);
    assert_eq!(&out_buf, b"/DynamicKey ");
}

#[test]
fn name_new_name_slice() {
    let slice_key = Name::new(b"SliceKey".to_vec());

    let mut out_buf = Vec::new();
    slice_key.write(&mut out_buf);
    assert_eq!(&out_buf, b"/SliceKey ");
}

#[test]
fn caught_invalid() {
    let name = Name::try_new(Vec::from(""));
    assert!(matches!(name, Err(NameError::Empty)));

    let name = Name::try_new(Vec::from("/ContainsSlash"));
    assert!(matches!(name, Err(NameError::ContainsSlash)));
}

#[test]
fn name_lengths_and_bytes() {
    let name = Name::new(b"Im12".to_vec());
    assert_eq!(name.len(), 5);
    assert_eq!(name.to_bytes(), b"/Im12 ");
    assert_eq!(name.as_ref().to_bytes(), b"/Im12 ");
    assert_eq!(NameError::Empty.message(), "PDF Name contain at least one ASCII character.");
}

/// Reads an escaped name body back by the `#XX` rule.
fn unescape(s: &[u8]) -> Vec<u8> {
    let mut out = Vec::new();
    let mut i = 0;
    while i < s.len() {
        if s[i] == b'#' && i + 2 < s.len() {
            let hex = std::str::from_utf8(&s[i + 1..i + 3]).unwrap();
            out.push(u8::from_str_radix(hex, 16).unwrap());
            i += 3;
        } else {
            out.push(s[i]);
            i += 1;
        }
    }
    out
}

#[test]
fn identifier_escapes_delimiters_and_control_bytes() {
    let raw = b"A B/C#(x)\x01\xff".to_vec();
    let id = Identifier::new(raw.clone());
    let encoded = id.to_bytes();
    assert_eq!(encoded, b"/A#20B#2FC#23#28x#29#01#FF ".to_vec());
    assert_eq!(id.len(), encoded.len() - 1);
    let body = &encoded[1..encoded.len() - 1];
    assert_eq!(unescape(body), raw);
}

#[test]
fn identifier_round_trip_every_byte() {
    let raw: Vec<u8> = (1u8..=255).collect();
    let id = Identifier::new(raw.clone());
    let encoded = id.to_bytes();
    assert_eq!(unescape(&encoded[1..encoded.len() - 1]), raw);
}
