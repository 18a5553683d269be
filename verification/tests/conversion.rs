use uao_rs::{decode, encode, Big5ToUnicode, DecodeError, EncodeError, UnicodeToBig5};

const UNICODE: &str = "一小段中文測試♥一小段中文测试♥中国の短いテスト♥";
const BIG5: &[u8] = b"\xa4\x40\xa4\x70\xac\x71\xa4\xa4\xa4\xe5\xb4\xfa\xb8\xd5\x9d\xde\xa4\x40\xa4\x70\xac\x71\xa4\xa4\xa4\xe5\x84\xf2\x86\x49\x9d\xde\xa4\xa4\x83\xf6\xc7\x55\xb5\x75\xc6\xea\xc7\xc2\xc7\xb5\xc7\xc4\x9d\xde";

/// Codepoint, then Big5 code.
const U2B: &str = "\
U+4E00 0xA440\n\
U+5C0F 0xA470\n\
U+6BB5 0xAC71\n\
U+4E2D 0xA4A4\n\
U+6587 0xA4E5\n\
U+6E2C 0xB4FA\n\
U+8A66 0xB8D5\n\
U+2665 0x9DDE\n\
U+6D4B 0x84F2\n\
U+8BD5 0x8649\n\
U+56FD 0x83F6\n\
U+306E 0xC755\n\
U+77ED 0xB575\n\
U+3044 0xC6EA\n\
U+30C6 0xC7C2\n\
U+30B9 0xC7B5\n\
U+30C8 0xC7C4\n\
U+00A7 0xA1B1\n\
U+20AC 0xFFFD\n";

/// Big5 code, then codepoint.
const B2U: &str = "\
0xA440 0x4E00\n\
0xA470 0x5C0F\n\
0xAC71 0x6BB5\n\
0xA4A4 0x4E2D\n\
0xA4E5 0x6587\n\
0xB4FA 0x6E2C\n\
0xB8D5 0x8A66\n\
0x9DDE 0x2665\n\
0x84F2 0x6D4B\n\
0x8649 0x8BD5\n\
0x83F6 0x56FD\n\
0xC755 0x306E\n\
0xB575 0x77ED\n\
0xC6EA 0x3044\n\
0xC7C2 0x30C6\n\
0xC7B5 0x30B9\n\
0xC7C4 0x30C8\n\
0xA1B1 0x00A7\n\
0xFFFD 0x20AC\n";

fn forward() -> UnicodeToBig5 {
    UnicodeToBig5::from_text(U2B).unwrap()
}

fn backward() -> Big5ToUnicode {
    Big5ToUnicode::from_text(B2U).unwrap()
}

#[test]
fn test_encode() {
    assert_eq!(encode(&forward(), UNICODE).unwrap(), BIG5);
}

#[test]
fn test_decode() {
    assert_eq!(decode(&backward(), BIG5).unwrap(), UNICODE.to_string());
    assert_eq!(decode(&backward(), &BIG5.to_vec()).unwrap(), UNICODE.to_string());
}

#[test]
fn reference_text_encodes_to_reference_bytes() {
    let bytes = encode(&forward(), "一小段中文測試♥").unwrap();
    assert_eq!(
        bytes,
        vec![
            0xA4, 0x40, 0xA4, 0x70, 0xAC, 0x71, 0xA4, 0xA4, 0xA4, 0xE5, 0xB4, 0xFA, 0xB8, 0xD5,
            0x9D, 0xDE
        ]
    );
}

#[test]
fn reference_bytes_decode_to_reference_text() {
    let bytes: [u8; 16] = [
        0xA4, 0x40, 0xA4, 0x70, 0xAC, 0x71, 0xA4, 0xA4, 0xA4, 0xE5, 0xB4, 0xFA, 0xB8, 0xD5, 0x9D,
        0xDE,
    ];
    assert_eq!(decode(&backward(), &bytes).unwrap(), "一小段中文測試♥");
}

#[test]
fn mapped_text_round_trips() {
    let f = forward();
    let b = backward();
    for text in ["", "♥", "中文", "テスト", UNICODE] {
        let bytes = encode(&f, text).unwrap();
        assert_eq!(bytes.len(), 2 * text.chars().count());
        assert_eq!(decode(&b, &bytes).unwrap(), text);
    }
}

#[test]
fn repeated_calls_agree() {
    let f = forward();
    let b = backward();
    assert_eq!(encode(&f, UNICODE), encode(&f, UNICODE));
    assert_eq!(encode(&f, "a€b"), encode(&f, "a€b"));
    assert_eq!(decode(&b, BIG5), decode(&b, BIG5));
    assert_eq!(decode(&b, &BIG5[..3]), decode(&b, &BIG5[..3]));
}

#[test]
fn ascii_passes_through_as_one_byte() {
    let f = forward();
    assert_eq!(encode(&f, "A").unwrap(), vec![0x41]);
    assert_eq!(encode(&f, "\0").unwrap(), vec![0x00]);
    assert_eq!(encode(&f, "\u{7f}").unwrap(), vec![0x7F]);
    assert_eq!(encode(&f, "Hi, 中!").unwrap(), vec![0x48, 0x69, 0x2C, 0x20, 0xA4, 0xA4, 0x21]);
}

#[test]
fn scalar_0x80_is_the_last_single_byte() {
    let f = forward();
    assert_eq!(encode(&f, "\u{80}").unwrap(), vec![0x80]);
    assert_eq!(
        encode(&f, "\u{81}"),
        Err(EncodeError { character: '\u{81}', text: "\u{81}".to_string() })
    );
}

#[test]
fn entry_wins_over_single_byte() {
    let f = UnicodeToBig5::from_text("U+0041 0xA2CF").unwrap();
    assert_eq!(encode(&f, "AB").unwrap(), vec![0xA2, 0xCF, 0x42]);
}

#[test]
fn unencodable_character_is_reported_with_the_text() {
    let f = forward();
    assert_eq!(
        encode(&f, "中é文ü"),
        Err(EncodeError { character: 'é', text: "中é文ü".to_string() })
    );
    assert_eq!(
        encode(&f, "\u{10FFFF}"),
        Err(EncodeError { character: '\u{10FFFF}', text: "\u{10FFFF}".to_string() })
    );
}

#[test]
fn character_listed_without_a_code_is_unencodable() {
    // U+20AC is listed with the code 0xFFFD, so the table leaves it out.
    let f = forward();
    assert_eq!(f.lookup('€'), None);
    assert_eq!(encode(&f, "€"), Err(EncodeError { character: '€', text: "€".to_string() }));
    // The other direction keeps the entry.
    assert_eq!(backward().lookup(0xFF, 0xFD), Some('€'));
    assert_eq!(decode(&backward(), &[0xFF, 0xFD]).unwrap(), "€");
}

#[test]
fn odd_length_is_rejected() {
    let b = backward();
    assert_eq!(decode(&b, &[0xA4]), Err(DecodeError::OddLength));
    assert_eq!(decode(&b, &[0xA4, 0x40, 0xA4]), Err(DecodeError::OddLength));
    assert_eq!(decode(&b, &BIG5[..BIG5.len() - 1]), Err(DecodeError::OddLength));
    assert_eq!(decode(&b, b"a"), Err(DecodeError::OddLength));
}

#[test]
fn unmapped_pair_is_dropped() {
    let b = backward();
    assert_eq!(decode(&b, &[0x00, 0x00]).unwrap(), "");
    assert_eq!(decode(&b, &[0xA4, 0x40, 0x00, 0x01, 0xA4, 0x70]).unwrap(), "一小");
    assert_eq!(decode(&b, &[0x00, 0x01, 0xA4, 0x40]).unwrap(), "一");
    assert_eq!(decode(&b, &[0xA4, 0x40, 0xFE, 0xFE]).unwrap(), "一");
}

#[test]
fn decoder_reads_ascii_in_pairs_too() {
    let f = forward();
    let b = backward();
    let bytes = encode(&f, "ab").unwrap();
    assert_eq!(bytes, vec![0x61, 0x62]);
    assert_eq!(decode(&b, &bytes).unwrap(), "");
    assert_eq!(decode(&b, &encode(&f, "a").unwrap()), Err(DecodeError::OddLength));
}

#[test]
fn empty_input_gives_empty_output() {
    assert_eq!(encode(&forward(), "").unwrap(), Vec::<u8>::new());
    assert_eq!(decode(&backward(), &[]).unwrap(), "");
}

#[test]
fn high_byte_comes_first() {
    let f = forward();
    let b = backward();
    assert_eq!(f.lookup('一'), Some((0xA4, 0x40)));
    assert_eq!(b.lookup(0xA4, 0x40), Some('一'));
    assert_eq!(b.lookup(0x40, 0xA4), None);
    assert_eq!(f.lookup('a'), None);
}
