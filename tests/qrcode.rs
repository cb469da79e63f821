use qirust::qrcode::{build_segments, BitBuffer, DataTooLong, Mask, QrCode, QrCodeEcc, QrSegment, QrSegmentMode, Version};

fn encode(text: &str, ecl: QrCodeEcc, minv: u8, maxv: u8, mask: Option<Mask>) -> Result<QrCode, DataTooLong> {
    QrCode::encode_text(text, ecl, Version::new(minv), Version::new(maxv), mask, true)
}

fn grid(qr: &QrCode) -> Vec<bool> {
    let mut v = Vec::new();
    for y in 0..qr.size() {
        for x in 0..qr.size() {
            v.push(qr.get_module(x, y));
        }
    }
    v
}

#[test]
fn test_is_numeric() {
    assert_eq!(QrSegment::is_numeric("1234567890"), true);
    assert_eq!(QrSegment::is_numeric("1234abc"), false);
}

#[test]
fn test_is_alphanumeric() {
    assert_eq!(QrSegment::is_alphanumeric("HELLO WORLD"), true);
    assert_eq!(QrSegment::is_alphanumeric("Hello World"), false);
}

#[test]
fn digits_choose_numeric_mode() {
    let segs = build_segments("0123456789").unwrap();
    assert_eq!(segs.len(), 1);
    assert_eq!(segs[0].mode(), QrSegmentMode::Numeric);
    assert_eq!(segs[0].num_chars(), 10);
}

#[test]
fn alphanumeric_text_chooses_alphanumeric_mode() {
    let segs = build_segments("HELLO WORLD").unwrap();
    assert_eq!(segs[0].mode(), QrSegmentMode::Alphanumeric);
    let segs = build_segments("AB-12 $%*+./:").unwrap();
    assert_eq!(segs[0].mode(), QrSegmentMode::Alphanumeric);
    let segs = build_segments("Hello, world!").unwrap();
    assert_eq!(segs[0].mode(), QrSegmentMode::Byte);
    assert_eq!(build_segments("").unwrap().len(), 0);
}

#[test]
fn too_long_text_is_segment_too_long() {
    let text = "x".repeat(4000);
    assert!(matches!(build_segments(&text), Err(DataTooLong::SegmentTooLong)));
    assert!(matches!(encode(&text, QrCodeEcc::Low, 1, 40, None), Err(DataTooLong::SegmentTooLong)));
}

#[test]
fn hello_world_alphanumeric_succeeds() {
    let qr = encode("HELLO WORLD", QrCodeEcc::Low, 1, 40, None).unwrap();
    assert_eq!(qr.version().value(), 1);
    assert_eq!(qr.error_correction_level(), QrCodeEcc::Quartile);
}

#[test]
fn hello_comma_world_is_version_one() {
    let qr = encode("Hello, world!", QrCodeEcc::Low, 1, 40, None).unwrap();
    assert_eq!(qr.size(), 21);
    assert_eq!(qr.version().value(), 1);
    let border = 4;
    let pixels = (qr.size() + 2 * border) * 1;
    assert_eq!(pixels, 29);
}

#[test]
fn empty_text_is_smallest_version() {
    let qr = encode("", QrCodeEcc::Low, 1, 40, None).unwrap();
    assert_eq!(qr.version().value(), 1);
    assert_eq!(qr.size(), 21);
}

#[test]
fn forced_min_version_is_kept() {
    let qr = encode("HELLO", QrCodeEcc::Low, 5, 40, None).unwrap();
    assert_eq!(qr.version().value(), 5);
    assert_eq!(qr.size(), 37);
}

#[test]
fn explicit_mask_is_reported() {
    for m in 0..8u8 {
        let qr = encode("HELLO WORLD", QrCodeEcc::Medium, 1, 40, Some(Mask::new(m))).unwrap();
        assert_eq!(qr.mask().value(), m);
    }
    let qr = QrCode::encode_text("abc", QrCodeEcc::Low, Version::new(1), Version::new(40), Some(Mask::new(3)), false)
        .unwrap();
    assert_eq!(qr.mask().value(), 3);
    assert_eq!(qr.error_correction_level(), QrCodeEcc::Low);
}

#[test]
fn binary_over_capacity_reports_bits() {
    let data = vec![0x5au8; 1274];
    let r = QrCode::encode_binary(&data, QrCodeEcc::High, Version::new(1), Version::new(40), None, false);
    assert_eq!(r.err(), Some(DataTooLong::DataOverCapacity(4 + 16 + 8 * 1274, 1276 * 8)));
    let data = vec![0x5au8; 1273];
    let qr = QrCode::encode_binary(&data, QrCodeEcc::High, Version::new(1), Version::new(40), None, false).unwrap();
    assert_eq!(qr.version().value(), 40);
}

#[test]
fn over_capacity_in_small_range() {
    let r = encode("HELLO WORLD HELLO WORLD HELLO WORLD", QrCodeEcc::High, 1, 1, None);
    // Alphanumeric: 4 + 9 + 11 * 17 + 6 bits; version 1 at High holds 9 codewords.
    assert_eq!(r.err(), Some(DataTooLong::DataOverCapacity(4 + 9 + 11 * 17 + 6, 72)));
}

#[test]
fn count_field_overflow_is_segment_too_long() {
    let seg = QrSegment::new(QrSegmentMode::Byte, 70000, vec![0u8; 1], 0);
    let mut out = Vec::new();
    let r = QrCode::encode_segments_to_codewords(&[seg], &mut out, QrCodeEcc::Low, Version::new(1), Version::new(40), false);
    assert!(matches!(r, Err(DataTooLong::SegmentTooLong)));
}

#[test]
fn size_and_bounds() {
    for (text, ecl) in [("1", QrCodeEcc::Low), ("HELLO WORLD", QrCodeEcc::High), ("a longer text, with punctuation, to reach a later version of the symbol", QrCodeEcc::Quartile)] {
        let qr = encode(text, ecl, 1, 40, None).unwrap();
        let v = qr.version().value() as i32;
        assert_eq!(qr.size(), v * 4 + 17);
        assert!(!qr.get_module(-1, 0));
        assert!(!qr.get_module(0, -1));
        assert!(!qr.get_module(qr.size(), 0));
        assert!(!qr.get_module(0, qr.size()));
        assert!(!qr.get_module(qr.size() + 5, qr.size() + 5));
    }
}

#[test]
fn encoding_is_deterministic() {
    let a = encode("Determinism check 12345", QrCodeEcc::Medium, 1, 40, None).unwrap();
    let b = encode("Determinism check 12345", QrCodeEcc::Medium, 1, 40, None).unwrap();
    assert_eq!(a.size(), b.size());
    assert_eq!(grid(&a), grid(&b));
    assert_eq!(a.mask(), b.mask());
}

#[test]
fn auto_mask_equals_forced_best_mask() {
    let auto = encode("MASK SEARCH", QrCodeEcc::Low, 1, 40, None).unwrap();
    let forced = encode("MASK SEARCH", QrCodeEcc::Low, 1, 40, Some(auto.mask())).unwrap();
    assert_eq!(grid(&auto), grid(&forced));
}

#[test]
fn function_patterns_are_drawn() {
    let qr = encode("https://example.com/a/rather/long/path?with=query", QrCodeEcc::Medium, 1, 40, None).unwrap();
    let s = qr.size();
    for (cx, cy) in [(3, 3), (s - 4, 3), (3, s - 4)] {
        for d in -3..=3i32 {
            assert!(qr.get_module(cx + d, cy - 3));
            assert!(qr.get_module(cx + d, cy + 3));
            if cy - 4 >= 0 {
                assert!(!qr.get_module(cx + d, cy - 4));
            }
        }
        assert!(qr.get_module(cx, cy));
        assert!(!qr.get_module(cx - 2, cy));
    }
    for i in 8..s - 8 {
        assert_eq!(qr.get_module(6, i), i % 2 == 0);
        assert_eq!(qr.get_module(i, 6), i % 2 == 0);
    }
    assert!(qr.get_module(8, s - 8));
}

#[test]
fn version_seven_gets_version_information() {
    let qr = encode("HELLO", QrCodeEcc::Low, 7, 7, Some(Mask::new(0))).unwrap();
    assert_eq!(qr.version().value(), 7);
    // Version 7's 18-bit word is 0x07C94; bit i lies at (size - 11 + i % 3, i / 3).
    let word: u32 = 0x07C94;
    let s = qr.size();
    for i in 0..18 {
        let bit = (word >> i) & 1 != 0;
        assert_eq!(qr.get_module(s - 11 + i % 3, i / 3), bit);
        assert_eq!(qr.get_module(i / 3, s - 11 + i % 3), bit);
    }
}

#[test]
fn segment_builders() {
    let s = QrSegment::make_numeric("01234567");
    assert_eq!(s.mode(), QrSegmentMode::Numeric);
    assert_eq!(s.num_chars(), 8);
    let a = QrSegment::make_alphanumeric("AC-42");
    assert_eq!(a.mode(), QrSegmentMode::Alphanumeric);
    let b = QrSegment::make_bytes(&[1, 2, 3]);
    assert_eq!(b.num_chars(), 3);
    let e = QrSegment::make_eci(1000);
    assert_eq!(e.mode(), QrSegmentMode::Eci);
    assert_eq!(e.num_chars(), 0);
}

#[test]
fn buffer_sizes() {
    assert_eq!(QrSegment::calc_buffer_size(QrSegmentMode::Numeric, 3), Some(2));
    assert_eq!(QrSegment::calc_buffer_size(QrSegmentMode::Numeric, 4), Some(2));
    assert_eq!(QrSegment::calc_buffer_size(QrSegmentMode::Alphanumeric, 3), Some(3));
    assert_eq!(QrSegment::calc_buffer_size(QrSegmentMode::Byte, 10), Some(10));
    assert_eq!(QrSegment::calc_buffer_size(QrSegmentMode::Kanji, 2), Some(4));
    assert_eq!(QrSegment::calc_buffer_size(QrSegmentMode::Eci, 0), Some(3));
    assert_eq!(QrSegment::calc_buffer_size(QrSegmentMode::Byte, usize::MAX), None);
    assert_eq!(Version::new(1).buffer_len(), 57);
    assert_eq!(Version::new(40).buffer_len(), 3918);
}

#[test]
fn bit_buffer_appends_msb_first() {
    let mut bb = BitBuffer::new();
    bb.append_bits(0b101, 3);
    bb.append_bits(0x1f, 5);
    bb.append_bits(1, 1);
    assert_eq!(bb.len(), 9);
    assert_eq!(bb.bytes(), &vec![0b1011_1111u8, 0b1000_0000]);
}

#[test]
fn planner_pads_codewords() {
    let seg = QrSegment::make_numeric("01234567");
    let mut out = Vec::new();
    let (len, ecl, ver) = QrCode::encode_segments_to_codewords(&[seg], &mut out, QrCodeEcc::High, Version::new(1), Version::new(40), false)
        .unwrap();
    assert_eq!(ver.value(), 1);
    assert_eq!(ecl, QrCodeEcc::High);
    assert_eq!(len, 9);
    // 0001 0000001000 0000001100 0101011001 1000011 0000, then pad bytes.
    assert_eq!(out, vec![0x10, 0x20, 0x0c, 0x56, 0x61, 0x80, 0xec, 0x11, 0xec]);
}

#[test]
fn boosting_raises_level() {
    let qr = encode("1", QrCodeEcc::Low, 1, 40, None).unwrap();
    assert_eq!(qr.error_correction_level(), QrCodeEcc::High);
    let qr = QrCode::encode_text("1", QrCodeEcc::Low, Version::new(1), Version::new(40), None, false).unwrap();
    assert_eq!(qr.error_correction_level(), QrCodeEcc::Low);
}

#[test]
fn codewords_of_known_example() {
    // "01234567" at version 1-M, mask 2 (ISO/IEC 18004 annex example).
    let seg = QrSegment::make_numeric("01234567");
    let mut out = Vec::new();
    let (_, ecl, ver) = QrCode::encode_segments_to_codewords(&[seg], &mut out, QrCodeEcc::Medium, Version::new(1), Version::new(1), false)
        .unwrap();
    assert_eq!(out, vec![0x10, 0x20, 0x0c, 0x56, 0x61, 0x80, 0xec, 0x11, 0xec, 0x11, 0xec, 0x11, 0xec, 0x11, 0xec, 0x11]);
    let qr = QrCode::encode_codewords(&out, ecl, ver, Some(Mask::new(2)));
    assert_eq!(qr.mask().value(), 2);
    assert_eq!(qr.error_correction_level(), QrCodeEcc::Medium);
}

#[test]
fn error_messages() {
    assert_eq!(DataTooLong::SegmentTooLong.message(), "Segment too long");
    assert_eq!(
        DataTooLong::DataOverCapacity(10212, 10208).message(),
        "Data length = 10212 bits, Max capacity = 10208 bits"
    );
}

#[test]
fn symbols_compare_by_modules() {
    let a = encode("EQUAL", QrCodeEcc::Low, 1, 40, Some(Mask::new(1))).unwrap();
    let b = encode("EQUAL", QrCodeEcc::Low, 1, 40, Some(Mask::new(1))).unwrap();
    let c = encode("EQUAL", QrCodeEcc::Low, 1, 40, Some(Mask::new(2))).unwrap();
    assert!(a == b);
    assert!(a != c);
}
