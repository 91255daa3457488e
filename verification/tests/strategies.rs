use textbridge::{convert_with_label, EncodingLabel};

#[test]
fn utf8_label_accepts_valid_bytes() {
    let bytes = "héllo wörld".as_bytes().to_vec();
    let converted = convert_with_label(&bytes, EncodingLabel::Utf8);
    assert_eq!(converted, "héllo wörld");
}

#[test]
fn utf8_label_replaces_invalid_bytes() {
    let converted = convert_with_label(&vec![0x61, 0xff, 0x62], EncodingLabel::Utf8);
    assert_eq!(converted, "a\u{fffd}b");
}

#[test]
fn utf8_label_replaces_maximal_subparts() {
    // one replacement for a truncated three-byte sequence
    let truncated = convert_with_label(&vec![0xe2, 0x82], EncodingLabel::Utf8);
    assert_eq!(truncated, "\u{fffd}");
    // two replacements when the second byte is outside its narrowed range
    let overlong = convert_with_label(&vec![0xe0, 0x80], EncodingLabel::Utf8);
    assert_eq!(overlong, "\u{fffd}\u{fffd}");
    // a surrogate encoding is rejected byte by byte
    let surrogate = convert_with_label(&vec![0xed, 0xa0, 0x80], EncodingLabel::Utf8);
    assert_eq!(surrogate, "\u{fffd}\u{fffd}\u{fffd}");
}

#[test]
fn iso8859_9_label_maps_bytes() {
    let converted = convert_with_label(&vec![0xfd], EncodingLabel::Iso8859_9);
    assert_eq!(converted, "\u{131}");
    let sample = convert_with_label(
        &vec![
            0x53, 0x61, 0x63, 0x72, 0xff, 0x66, 0x65, 0x76, 0x20, 0x54, 0xeb, 0x6c, 0x69, 0x69,
            0x6d, 0x69,
        ],
        EncodingLabel::Iso8859_9,
    );
    assert_eq!(sample, "Sacrÿfev Tëliimi");
}

#[test]
fn iso8859_15_label_maps_bytes() {
    let converted = convert_with_label(&vec![0x61, 0xa4], EncodingLabel::Iso8859_15);
    assert_eq!(converted, "a\u{20ac}");
}

#[test]
fn unknown_label_decodes_wide_units() {
    let converted = convert_with_label(&vec![0x41, 0x00, 0x42, 0x00], EncodingLabel::Unknown);
    assert_eq!(converted, "AB");
    let accented = convert_with_label(&vec![0xeb, 0x00], EncodingLabel::Unknown);
    assert_eq!(accented, "ë");
}

#[test]
fn unknown_label_odd_length_falls_back() {
    let ascii = convert_with_label(&vec![0x41], EncodingLabel::Unknown);
    assert_eq!(ascii, "A");
    let invalid = convert_with_label(&vec![0xff], EncodingLabel::Unknown);
    assert_eq!(invalid, "\u{fffd}");
}

#[test]
fn unknown_label_surrogate_unit_falls_back() {
    let converted = convert_with_label(&vec![0x00, 0xd8], EncodingLabel::Unknown);
    assert_eq!(converted, "\u{0}\u{fffd}");
}
