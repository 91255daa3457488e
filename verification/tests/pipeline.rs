use textbridge::{convert_to_utf8, cstr_to_utf8};

#[test]
fn utf8_data_is_untouched() {
    let example = "Sacrÿfev Tëliimi";
    let converted = convert_to_utf8(example.as_bytes().to_vec());
    assert_eq!(converted, example);
    let ex2 = "おはよう";
    let convert2 = convert_to_utf8(ex2.as_bytes().to_vec());
    assert_eq!(convert2, ex2);
    let ex3 = "Zażółć gęślą jaźń";
    let convert3 = convert_to_utf8(ex3.as_bytes().to_vec());
    assert_eq!(convert3, ex3);
}

#[test]
fn iso8859_is_decoded() {
    let bytes: Vec<u8> = vec![
        0x53, 0x61, 0x63, 0x72, 0xff, 0x66, 0x65, 0x76, 0x20, 0x54, 0xeb, 0x6c, 0x69, 0x69, 0x6d,
        0x69,
    ];
    assert!(String::from_utf8(bytes.clone()).is_err());
    let utf8_version = "Sacrÿfev Tëliimi".to_string();
    let converted = convert_to_utf8(bytes.clone());
    assert_eq!(converted, utf8_version);
}

#[test]
fn ucs2_is_decoded() {
    let bytes = vec![
        36, 0, 83, 0, 111, 0, 117, 0, 108, 0, 115, 0, 121, 0, 72, 0, 85, 0, 68, 0, 9, 0, 83, 0,
        111, 0, 117, 0, 108, 0, 115, 0, 121, 0, 32, 0, 72, 0, 85, 0, 68, 0,
    ];
    assert_eq!(bytes.len(), 42);
    let converted = convert_to_utf8(bytes.clone());
    assert_eq!(converted.len(), bytes.len() / 2);
    assert_eq!(converted, "$SoulsyHUD	Soulsy HUD");
}

#[test]
fn empty_buffer_is_empty_text() {
    let converted = convert_to_utf8(Vec::new());
    assert_eq!(converted, "");
}

#[test]
fn null_terminated_strips_one_zero() {
    let with_nul: Vec<u8> = vec![0x48, 0x69, 0x00];
    let without: Vec<u8> = vec![0x48, 0x69];
    assert_eq!(cstr_to_utf8(with_nul), convert_to_utf8(without.clone()));
    assert_eq!(cstr_to_utf8(without.clone()), convert_to_utf8(without));
    assert_eq!(cstr_to_utf8(vec![0x00]), "");
    assert_eq!(cstr_to_utf8(Vec::new()), "");
}

#[test]
fn null_terminated_agrees_on_legacy_bytes() {
    let base: Vec<u8> = vec![
        0x53, 0x61, 0x63, 0x72, 0xff, 0x66, 0x65, 0x76, 0x20, 0x54, 0xeb, 0x6c, 0x69, 0x69, 0x6d,
        0x69,
    ];
    let mut terminated = base.clone();
    terminated.push(0);
    assert_eq!(cstr_to_utf8(terminated), convert_to_utf8(base));
}

#[test]
fn reconverting_output_is_stable() {
    let samples: Vec<Vec<u8>> = vec![
        "plain ascii text".as_bytes().to_vec(),
        "Sacrÿfev Tëliimi".as_bytes().to_vec(),
        "おはよう".as_bytes().to_vec(),
        vec![0x53, 0x61, 0x63, 0x72, 0xff, 0x66, 0x65, 0x76, 0x20, 0x54, 0xeb, 0x6c, 0x69, 0x69,
            0x6d, 0x69],
    ];
    for bytes in samples {
        let first = convert_to_utf8(bytes);
        let second = convert_to_utf8(first.as_bytes().to_vec());
        assert_eq!(second, first);
    }
}

#[test]
fn every_buffer_yields_text() {
    let samples: Vec<Vec<u8>> = vec![
        vec![0xff],
        vec![0xfe, 0xff, 0x00],
        vec![0xc0, 0xaf],
        vec![0xe0, 0x80, 0x80, 0x41],
        vec![0xf5, 0x90, 0x90, 0x90, 0x90],
        vec![0x00, 0xd8, 0x41],
        vec![0x80, 0x81, 0x82, 0x83, 0x84],
        vec![0xed, 0xa0, 0x80],
    ];
    for bytes in samples {
        let converted = convert_to_utf8(bytes);
        assert!(String::from_utf8(converted.into_bytes()).is_ok());
    }
}

#[test]
fn escape_bytes_take_the_unknown_route() {
    let converted = convert_to_utf8(vec![0x1b, 0x00]);
    assert_eq!(converted, "\u{1b}");
    let odd = convert_to_utf8(vec![0x1b, 0x41, 0x42]);
    assert_eq!(odd, "\u{1b}AB");
}
