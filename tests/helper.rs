use qirust::helper::{
    encode_base64, frame_svg_path, generate_svg_string, hex_to_rgb, hex_to_rgba, mix_colors, render_row,
    to_svg_string,
};
use qirust::qrcode::{QrCode, QrCodeEcc, Version};

#[test]
fn test_to_svg_string() {
    let errcorlvl: QrCodeEcc = QrCodeEcc::Low;
    let qr = QrCode::encode_text(
        "HELLO WORLD",
        errcorlvl,
        Version::new(1),
        Version::new(40),
        None,
        true,
    )
    .unwrap();
    let svg = to_svg_string(&qr, 4);

    assert!(svg.starts_with("<?xml version=\"1.0\" encoding=\"UTF-8\"?>"));
}

#[test]
fn test_hex_to_rgba() {
    assert_eq!(hex_to_rgba("#FF0000"), Ok([255, 0, 0, 255]));
    assert_eq!(hex_to_rgba("00FF00"), Ok([0, 255, 0, 255]));
    assert_eq!(hex_to_rgba("#FF00007F"), Ok([255, 0, 0, 127]));
    assert_eq!(
        hex_to_rgba("FF00"),
        Err("Hex code must be 6 (RRGGBB) or 8 (RRGGBBAA) characters")
    );
    assert_eq!(hex_to_rgba("GG0000"), Err("Hex code contains invalid characters"));
}

#[test]
fn test_hex_to_rgb() {
    assert_eq!(hex_to_rgb("#FF0000"), Ok([255, 0, 0]));
    assert_eq!(hex_to_rgb("00FF00"), Ok([0, 255, 0]));
    assert_eq!(hex_to_rgb("FF00"), Err("Hex code must be 6 characters (RRGGBB)"));
    assert_eq!(hex_to_rgb("GG0000"), Err("Hex code contains invalid characters"));
    assert_eq!(hex_to_rgb("FF00007F"), Err("Hex code must be 6 characters (RRGGBB)"));
}

#[test]
fn hex_parsing_edges() {
    assert_eq!(hex_to_rgba("##12ab3C"), Ok([0x12, 0xab, 0x3c, 255]));
    assert_eq!(hex_to_rgba("ééé"), Err("Hex code contains invalid characters"));
    assert_eq!(hex_to_rgb("+FFFFF"), Ok([0x0f, 0xff, 0xff]));
    assert_eq!(hex_to_rgb("-FFFFF"), Err("Hex code contains invalid characters"));
    assert_eq!(hex_to_rgb("a1B2c3"), Ok([0xa1, 0xb2, 0xc3]));
}

#[test]
fn base64_known_values() {
    assert_eq!(encode_base64(b"Hello"), "SGVsbG8=");
    assert_eq!(encode_base64(b""), "");
    assert_eq!(encode_base64(b"Ma"), "TWE=");
    assert_eq!(encode_base64(b"Man"), "TWFu");
    assert_eq!(encode_base64(&[0xff, 0xfe, 0xfd, 0x00]), "//79AA==");
}

#[test]
fn mix_colors_values() {
    assert_eq!(mix_colors(128, 255, 0), 128);
    assert_eq!(mix_colors(0, 255, 10), 10);
    assert_eq!(mix_colors(255, 7, 200), 7);
    assert_eq!(mix_colors(100, 200, 50), 78 + 30);
}

#[test]
fn svg_of_hello_world_has_border_of_four() {
    let qr = QrCode::encode_text("Hello, world!", QrCodeEcc::Low, Version::new(1), Version::new(40), None, true)
        .unwrap();
    assert_eq!(qr.size(), 21);
    let svg = to_svg_string(&qr, 4);
    assert!(svg.contains("viewBox=\"0 0 29 29\""));
    // The top-left finder's top row is a run of seven dark modules.
    assert!(svg.contains(" M4,4h7v1h-7z"));
    assert!(svg.ends_with("\" fill=\"#000000\"/>\n</svg>\n\n"));
}

#[test]
fn generate_svg_string_renders_at_high_level() {
    let svg = generate_svg_string("https://example.com");
    let qr = QrCode::encode_text("https://example.com", QrCodeEcc::High, Version::new(1), Version::new(40), None, true)
        .unwrap();
    assert_eq!(svg, to_svg_string(&qr, 4));
}

#[test]
fn render_row_draws_border_and_modules() {
    let qr = QrCode::encode_text("Hello, world!", QrCodeEcc::Low, Version::new(1), Version::new(40), None, true)
        .unwrap();
    let top = render_row(&qr, 4, 1, 0, &[0], &[255]);
    assert_eq!(top.len(), 29);
    assert!(top.iter().all(|&p| p == 255));
    let first = render_row(&qr, 4, 1, 4, &[0], &[255]);
    assert_eq!(&first[0..4], &[255, 255, 255, 255]);
    assert_eq!(&first[4..11], &[0, 0, 0, 0, 0, 0, 0]);
    assert_eq!(first[11], 255);
    let rgb = render_row(&qr, 4, 2, 8, &[1, 2, 3], &[9, 9, 9]);
    assert_eq!(rgb.len(), (21 + 8) * 2 * 3);
    assert_eq!(&rgb[0..3], &[9, 9, 9]);
    assert_eq!(&rgb[24..30], &[1, 2, 3, 1, 2, 3]);
}

#[test]
fn frame_path_starts_with_finder_row() {
    let qr = QrCode::encode_text("Hello, world!", QrCodeEcc::Low, Version::new(1), Version::new(40), None, true)
        .unwrap();
    let path = frame_svg_path(&qr, 8, 0);
    assert!(path.starts_with("M0 0h56v8h-56z "));
    let shifted = frame_svg_path(&qr, 2, 10);
    assert!(shifted.starts_with("M10 10h14v2h-14z "));
    assert!(shifted.ends_with("z "));
}
