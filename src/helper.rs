use vstd::prelude::*;
use vstd::string::StringSliceAdditionalSpecFns;
use crate::qrcode::{encoded_as, payload_fits, text_mode, text_payload_bits, text_payload_mode, QrCode};
use crate::segment::QrSegmentMode;
use crate::text::{decimal, push_char, push_decimal};
use crate::params::{QrCodeEcc, Version};

verus! {

/// The style of the frame behind a logo in styled symbols.
#[derive(Debug, Clone, Copy, PartialEq, Eq, Structural)]
pub enum FrameStyle {
    /// A square frame.
    Square,
    /// A round frame.
    Rounded,
    /// No frame: the logo lies on the symbol.
    NoFrame,
}

/// The base64 alphabet.
pub open spec fn base64_alphabet() -> Seq<char> {
    "ABCDEFGHIJKLMNOPQRSTUVWXYZabcdefghijklmnopqrstuvwxyz0123456789+/"@
}

/// The four characters that encode the three bytes `a`, `b`, `c`.
pub open spec fn base64_quad(a: u8, b: u8, c: u8) -> Seq<char> {
    seq![
        base64_alphabet()[(a / 4) as int],
        base64_alphabet()[((a % 4) * 16 + b / 16) as int],
        base64_alphabet()[((b % 16) * 4 + c / 64) as int],
        base64_alphabet()[(c % 64) as int],
    ]
}

/// The encoding of the first `n` complete groups of three bytes of `d`.
pub open spec fn base64_groups(d: Seq<u8>, n: nat) -> Seq<char>
    decreases n,
{
    if n == 0 {
        seq![]
    } else {
        let k = 3 * n - 3;
        base64_groups(d, (n - 1) as nat) + base64_quad(d[k], d[k + 1], d[k + 2])
    }
}

/// The base64 encoding of `d`, with `=` padding.
pub open spec fn base64_of(d: Seq<u8>) -> Seq<char> {
    let n = d.len();
    let k = n - n % 3;
    base64_groups(d, n / 3) + if n % 3 == 1 {
        seq![
            base64_alphabet()[(d[k] / 4) as int],
            base64_alphabet()[((d[k] % 4) * 16) as int],
            '=',
            '=',
        ]
    } else if n % 3 == 2 {
        seq![
            base64_alphabet()[(d[k] / 4) as int],
            base64_alphabet()[((d[k] % 4) * 16 + d[k + 1] / 16) as int],
            base64_alphabet()[((d[k + 1] % 16) * 4) as int],
            '=',
        ]
    } else {
        seq![]
    }
}

fn push_base64(s: &mut String, i: u8)
    requires
        i < 64,
    ensures
        final(s)@ == old(s)@.push(base64_alphabet()[i as int]),
{
    let alphabet = "ABCDEFGHIJKLMNOPQRSTUVWXYZabcdefghijklmnopqrstuvwxyz0123456789+/";
    proof {
        reveal_strlit("ABCDEFGHIJKLMNOPQRSTUVWXYZabcdefghijklmnopqrstuvwxyz0123456789+/");
    }
    let c = alphabet.get_char(i as usize);
    push_char(s, c);
}

/// Encodes bytes in base64: four characters for each three bytes, `=` padding at the end.
pub fn encode_base64(data: &[u8]) -> (r: String)
    ensures
        r@ == base64_of(data@),
{
    let mut result = String::new();
    let mut i: usize = 0;
    while data.len() - i >= 3
        invariant
            i % 3 == 0,
            i <= data@.len(),
            result@ == base64_groups(data@, (i / 3) as nat),
        decreases data@.len() - i,
    {
        let b1 = data[i];
        let b2 = data[i + 1];
        let b3 = data[i + 2];
        let ghost before = result@;
        push_base64(&mut result, b1 / 4);
        push_base64(&mut result, (b1 % 4) * 16 + b2 / 16);
        push_base64(&mut result, (b2 % 16) * 4 + b3 / 64);
        push_base64(&mut result, b3 % 64);
        assert(result@ =~= before + base64_quad(b1, b2, b3));
        i += 3;
    }
    let ghost before = result@;
    if data.len() - i == 1 {
        let b1 = data[i];
        push_base64(&mut result, b1 / 4);
        push_base64(&mut result, (b1 % 4) * 16);
        push_char(&mut result, '=');
        push_char(&mut result, '=');
    } else if data.len() - i == 2 {
        let b1 = data[i];
        let b2 = data[i + 1];
        push_base64(&mut result, b1 / 4);
        push_base64(&mut result, (b1 % 4) * 16 + b2 / 16);
        push_base64(&mut result, (b2 % 16) * 4);
        push_char(&mut result, '=');
    }
    assert(result@ =~= base64_of(data@));
    result
}

/// Mixes two colour values by a pixel intensity: `pixel / 255` of the foreground and the rest
/// of the background, each share rounded down.
pub fn mix_colors(pixel: u8, foreground: u8, background: u8) -> (r: u8)
    ensures
        r as int == (pixel as int * foreground as int) / 255 + ((255 - pixel as int)
            * background as int) / 255,
{
    let p = pixel as u16;
    let f = foreground as u16;
    let b = background as u16;
    assert(p * f <= 255 * 255 && (255 - p) * b <= 255 * 255) by (nonlinear_arith)
        requires
            p <= 255,
            f <= 255,
            b <= 255,
    ;
    assert((p * f) / 255 + ((255 - p) * b) / 255 <= 255) by (nonlinear_arith)
        requires
            p <= 255,
            f <= 255,
            b <= 255,
    ;
    ((p * f) / 255 + ((255 - p) * b) / 255) as u8
}

/// `b` is an ASCII hexadecimal digit.
pub open spec fn is_hex_digit(b: u8) -> bool {
    (48 <= b <= 57) || (65 <= b <= 70) || (97 <= b <= 102)
}

/// The value of the hexadecimal digit `b`.
pub open spec fn hex_digit_value(b: u8) -> int {
    if 48 <= b <= 57 {
        b - 48
    } else if 65 <= b <= 70 {
        b - 55
    } else {
        b - 87
    }
}

/// The byte written by the two hexadecimal digits of `s` at `i`.
pub open spec fn hex_byte(s: Seq<u8>, i: int) -> u8 {
    (16 * hex_digit_value(s[i]) + hex_digit_value(s[i + 1])) as u8
}

/// `s` with its leading `#` characters removed.
pub open spec fn trim_hashes(s: Seq<u8>) -> Seq<u8>
    decreases s.len(),
{
    if s.len() > 0 && s[0] == 35 {
        trim_hashes(s.skip(1))
    } else {
        s
    }
}

/// The value of a string of hexadecimal digits.
pub open spec fn hex_value(s: Seq<u8>) -> int
    decreases s.len(),
{
    if s.len() == 0 {
        0
    } else {
        16 * hex_value(s.drop_last()) + hex_digit_value(s.last())
    }
}

/// Every byte of `s` is a hexadecimal digit.
pub open spec fn all_hex(s: Seq<u8>) -> bool {
    forall|i: int| 0 <= i < s.len() ==> is_hex_digit(#[trigger] s[i])
}

fn hex_digit(b: u8) -> (r: u8)
    requires
        is_hex_digit(b),
    ensures
        r as int == hex_digit_value(b),
        r < 16,
{
    if 48 <= b && b <= 57 {
        b - 48
    } else if 65 <= b && b <= 70 {
        b - 55
    } else {
        b - 87
    }
}

fn is_hex_byte(b: u8) -> (r: bool)
    ensures
        r == is_hex_digit(b),
{
    (48 <= b && b <= 57) || (65 <= b && b <= 70) || (97 <= b && b <= 102)
}

/// Returns the position of the first byte of `s` that is not `#`.
fn skip_hashes(s: &[u8]) -> (r: usize)
    ensures
        r <= s@.len(),
        trim_hashes(s@) == s@.skip(r as int),
{
    let mut i: usize = 0;
    assert(s@.skip(0) =~= s@);
    while i < s.len() && s[i] == 35
        invariant
            i <= s@.len(),
            trim_hashes(s@) == trim_hashes(s@.skip(i as int)),
        decreases s@.len() - i,
    {
        assert(s@.skip(i as int).skip(1) =~= s@.skip(i + 1));
        i += 1;
    }
    assert(trim_hashes(s@.skip(i as int)) == s@.skip(i as int));
    i
}

/// Returns whether the bytes of `s` from `start` on are all hexadecimal digits.
fn all_hex_from(s: &[u8], start: usize) -> (r: bool)
    requires
        start <= s@.len(),
    ensures
        r == all_hex(s@.skip(start as int)),
{
    let mut i = start;
    while i < s.len()
        invariant
            start <= i <= s@.len(),
            forall|j: int| start <= j < i ==> is_hex_digit(#[trigger] s@[j]),
        decreases s@.len() - i,
    {
        if !is_hex_byte(s[i]) {
            assert(s@.skip(start as int)[i - start] == s@[i as int]);
            return false;
        }
        i += 1;
    }
    assert forall|j: int| 0 <= j < s@.len() - start implies is_hex_digit(
        #[trigger] s@.skip(start as int)[j],
    ) by {
        assert(s@.skip(start as int)[j] == s@[start + j]);
    }
    true
}

/// Returns the byte of the two hexadecimal digits of `s` at `i`.
fn hex_pair(s: &[u8], i: usize) -> (r: u8)
    requires
        i + 1 < s@.len(),
        is_hex_digit(s@[i as int]),
        is_hex_digit(s@[i + 1]),
    ensures
        r == hex_byte(s@, i as int),
{
    let hi = hex_digit(s[i]);
    let lo = hex_digit(s[i + 1]);
    hi * 16 + lo
}

/// Parses a colour written `RRGGBB` or `RRGGBBAA` in hexadecimal, after any leading `#`
/// characters; the alpha is 255 where it is not written.
pub fn hex_to_rgba(hex: &str) -> (r: Result<[u8; 4], &'static str>)
    ensures
        ({
            let s = trim_hashes(hex.spec_bytes());
            if s.len() != 6 && s.len() != 8 {
                r == Err::<[u8; 4], &'static str>(
                    "Hex code must be 6 (RRGGBB) or 8 (RRGGBBAA) characters",
                )
            } else if !all_hex(s) {
                r == Err::<[u8; 4], &'static str>("Hex code contains invalid characters")
            } else {
                r is Ok && r.unwrap()@ == seq![
                    hex_byte(s, 0),
                    hex_byte(s, 2),
                    hex_byte(s, 4),
                    if s.len() == 8 {
                        hex_byte(s, 6)
                    } else {
                        255u8
                    },
                ]
            }
        }),
{
    let bytes = hex.as_bytes();
    let start = skip_hashes(bytes);
    let ghost s = bytes@.skip(start as int);
    let len = bytes.len() - start;
    if len != 6 && len != 8 {
        return Err("Hex code must be 6 (RRGGBB) or 8 (RRGGBBAA) characters");
    }
    if !all_hex_from(bytes, start) {
        return Err("Hex code contains invalid characters");
    }
    assert(forall|j: int| 0 <= j < len ==> s[j] == bytes@[start + j]);
    assert(is_hex_digit(s[0]) && is_hex_digit(s[1]) && is_hex_digit(s[2]) && is_hex_digit(s[3])
        && is_hex_digit(s[4]) && is_hex_digit(s[5]));
    let red = hex_pair(bytes, start);
    let green = hex_pair(bytes, start + 2);
    let blue = hex_pair(bytes, start + 4);
    let alpha = if len == 8 {
        assert(is_hex_digit(s[6]) && is_hex_digit(s[7]));
        hex_pair(bytes, start + 6)
    } else {
        255
    };
    let out = [red, green, blue, alpha];
    assert(out@ =~= seq![
        hex_byte(s, 0),
        hex_byte(s, 2),
        hex_byte(s, 4),
        if s.len() == 8 {
            hex_byte(s, 6)
        } else {
            255u8
        },
    ]);
    Ok(out)
}

/// The value that parsing `s` as an unsigned hexadecimal number gives: an optional `+`, then
/// at least one digit; `None` for anything else.
pub open spec fn parse_hex(s: Seq<u8>) -> Option<int> {
    let digits = if s.len() > 0 && s[0] == 43 {
        s.skip(1)
    } else {
        s
    };
    if digits.len() > 0 && all_hex(digits) {
        Some(hex_value(digits))
    } else {
        None
    }
}

/// Parses a colour written `RRGGBB` in hexadecimal, after any leading `#` characters; the six
/// characters are read as one unsigned number, so a leading `+` is taken as a sign.
pub fn hex_to_rgb(hex: &str) -> (r: Result<[u8; 3], &'static str>)
    ensures
        ({
            let s = trim_hashes(hex.spec_bytes());
            if s.len() != 6 {
                r == Err::<[u8; 3], &'static str>("Hex code must be 6 characters (RRGGBB)")
            } else if parse_hex(s) is None {
                r == Err::<[u8; 3], &'static str>("Hex code contains invalid characters")
            } else {
                let v = parse_hex(s).unwrap();
                r is Ok && r.unwrap()@ == seq![
                    ((v / 65536) % 256) as u8,
                    ((v / 256) % 256) as u8,
                    (v % 256) as u8,
                ]
            }
        }),
{
    let bytes = hex.as_bytes();
    let start = skip_hashes(bytes);
    let ghost s = bytes@.skip(start as int);
    let len = bytes.len() - start;
    if len != 6 {
        return Err("Hex code must be 6 characters (RRGGBB)");
    }
    let first = if bytes[start] == 43 {
        start + 1
    } else {
        start
    };
    let ghost digits = bytes@.skip(first as int);
    assert(digits =~= if s.len() > 0 && s[0] == 43 {
        s.skip(1)
    } else {
        s
    });
    if !all_hex_from(bytes, first) {
        return Err("Hex code contains invalid characters");
    }
    let mut value: u32 = 0;
    let mut i = first;
    while i < bytes.len()
        invariant
            first <= i <= bytes@.len(),
            bytes@.len() - first <= 6,
            all_hex(digits),
            digits == bytes@.skip(first as int),
            value as int == hex_value(digits.take(i - first)),
            value < pow16(i - first),
        decreases bytes@.len() - i,
    {
        assert(digits[i - first] == bytes@[i as int]);
        let d = hex_digit(bytes[i]);
        assert(digits.take(i - first + 1).drop_last() =~= digits.take(i - first));
        value = value * 16 + d as u32;
        i += 1;
    }
    assert(digits.take(i - first) =~= digits);
    let out = [((value >> 16) & 0xff) as u8, ((value >> 8) & 0xff) as u8, (value & 0xff) as u8];
    assert(out@ =~= seq![
        ((value / 65536) % 256) as u8,
        ((value / 256) % 256) as u8,
        (value % 256) as u8,
    ]) by {
        assert(((value >> 16) & 0xff) == (value / 65536) % 256) by (bit_vector);
        assert(((value >> 8) & 0xff) == (value / 256) % 256) by (bit_vector);
        assert((value & 0xff) == value % 256) by (bit_vector);
    }
    Ok(out)
}

/// 16 to the power `n`, up to the sixth.
pub open spec fn pow16(n: int) -> int {
    if n <= 0 {
        1
    } else if n == 1 {
        16
    } else if n == 2 {
        256
    } else if n == 3 {
        4096
    } else if n == 4 {
        65536
    } else if n == 5 {
        1048576
    } else {
        16777216
    }
}

/// Number of dark modules from `(x, y)` rightwards up to the first light one.
pub open spec fn dark_run(q: QrCode, x: int, y: int) -> int
    decreases q.spec_size() - x,
{
    if x < q.spec_size() && q.grid()(x, y) {
        1 + dark_run(q, x + 1, y)
    } else {
        0
    }
}

/// The path of the horizontal runs of dark modules of row `y` from column `x` on, each run
/// a rectangle one module high, shifted by the border.
pub open spec fn row_path(q: QrCode, y: int, x: int, border: int) -> Seq<char>
    decreases q.spec_size() - x,
{
    if x >= q.spec_size() || x < 0 {
        seq![]
    } else if q.grid()(x, y) {
        let w = dark_run(q, x, y);
        " M"@ + decimal((x + border) as nat) + ","@ + decimal((y + border) as nat) + "h"@
            + decimal(w as nat) + "v1h-"@ + decimal(w as nat) + "z"@ + if w >= 1 && x + w
            <= q.spec_size() {
            row_path(q, y, x + w, border)
        } else {
            seq![]
        }
    } else {
        row_path(q, y, x + 1, border)
    }
}

/// The paths of the first `n` rows.
pub open spec fn svg_path(q: QrCode, border: int, n: nat) -> Seq<char>
    decreases n,
{
    if n == 0 {
        seq![]
    } else {
        svg_path(q, border, (n - 1) as nat) + row_path(q, n - 1, 0, border)
    }
}

/// The SVG document of a symbol with a border of `border` light modules: a white background
/// and one black path of the dark modules.
pub open spec fn svg_text(q: QrCode, border: int) -> Seq<char> {
    let dim = (q.spec_size() + 2 * border) as nat;
    "<?xml version=\"1.0\" encoding=\"UTF-8\"?>\n<!DOCTYPE svg PUBLIC \"-//W3C//DTD SVG 1.1//EN\" \"http://www.w3.org/Graphics/SVG/1.1/DTD/svg11.dtd\">\n<svg xmlns=\"http://www.w3.org/2000/svg\" version=\"1.1\" viewBox=\"0 0 "@
        + decimal(dim) + " "@ + decimal(dim)
        + "\" stroke=\"none\">\n\t<rect width=\"100%\" height=\"100%\" fill=\"#FFFFFF\"/>\n\n\t<path d=\""@
        + svg_path(q, border, q.spec_size() as nat) + "\" fill=\"#000000\"/>\n</svg>\n\n"@
}

/// Renders a symbol as an SVG document with a border of `border` light modules.
pub fn to_svg_string(qr: &QrCode, border: i32) -> (r: String)
    requires
        qr.wf(),
        0 <= border <= 1_000_000,
    ensures
        r@ == svg_text(*qr, border as int),
{
    let size = qr.size();
    let dimension = size + border * 2;
    let mut result = String::new();
    result.append(
        "<?xml version=\"1.0\" encoding=\"UTF-8\"?>\n<!DOCTYPE svg PUBLIC \"-//W3C//DTD SVG 1.1//EN\" \"http://www.w3.org/Graphics/SVG/1.1/DTD/svg11.dtd\">\n<svg xmlns=\"http://www.w3.org/2000/svg\" version=\"1.1\" viewBox=\"0 0 ",
    );
    push_decimal(&mut result, dimension as u64);
    result.append(" ");
    push_decimal(&mut result, dimension as u64);
    result.append(
        "\" stroke=\"none\">\n\t<rect width=\"100%\" height=\"100%\" fill=\"#FFFFFF\"/>\n\n\t<path d=\"",
    );
    let ghost head = result@;
    let mut y: i32 = 0;
    while y < size
        invariant
            qr.wf(),
            size == qr.spec_size(),
            0 <= border <= 1_000_000,
            0 <= y <= size,
            result@ == head + svg_path(*qr, border as int, y as nat),
        decreases size - y,
    {
        let ghost row_start = result@;
        let mut x: i32 = 0;
        assert(result@ =~= row_start + Seq::<char>::empty());
        assert(Seq::<char>::empty() + row_path(*qr, y as int, 0, border as int) =~= row_path(
            *qr,
            y as int,
            0,
            border as int,
        ));
        while x < size
            invariant
                qr.wf(),
                size == qr.spec_size(),
                0 <= border <= 1_000_000,
                0 <= y < size,
                0 <= x <= size,
                exists|emitted: Seq<char>|
                    result@ == row_start + emitted && emitted + row_path(
                        *qr,
                        y as int,
                        x as int,
                        border as int,
                    ) == row_path(*qr, y as int, 0, border as int),
            decreases size - x,
        {
            let ghost before = result@;
            let ghost x0 = x as int;
            if qr.get_module(x, y) {
                let start_x = x;
                let mut width: i32 = 1;
                while x + 1 < size && qr.get_module(x + 1, y)
                    invariant
                        qr.wf(),
                        size == qr.spec_size(),
                        0 <= start_x <= x < size,
                        width == x - start_x + 1,
                        dark_run(*qr, start_x as int, y as int) == width + dark_run(
                            *qr,
                            x + 1,
                            y as int,
                        ),
                    decreases size - x,
                {
                    x += 1;
                    width += 1;
                }
                assert(dark_run(*qr, x + 1, y as int) == 0);
                result.append(" M");
                push_decimal(&mut result, (start_x + border) as u64);
                result.append(",");
                push_decimal(&mut result, (y + border) as u64);
                result.append("h");
                push_decimal(&mut result, width as u64);
                result.append("v1h-");
                push_decimal(&mut result, width as u64);
                result.append("z");
                proof {
                    let emitted = choose|emitted: Seq<char>|
                        before == row_start + emitted && emitted + row_path(
                            *qr,
                            y as int,
                            x0,
                            border as int,
                        ) == row_path(*qr, y as int, 0, border as int);
                    let seg = result@.subrange(before.len() as int, result@.len() as int);
                    assert(result@ =~= row_start + (emitted + seg));
                    assert((emitted + seg) + row_path(*qr, y as int, x + 1, border as int)
                        =~= emitted + row_path(*qr, y as int, x0, border as int));
                }
            } else {
                proof {
                    let emitted = choose|emitted: Seq<char>|
                        before == row_start + emitted && emitted + row_path(
                            *qr,
                            y as int,
                            x0,
                            border as int,
                        ) == row_path(*qr, y as int, 0, border as int);
                    assert(row_path(*qr, y as int, x0, border as int) == row_path(
                        *qr,
                        y as int,
                        x0 + 1,
                        border as int,
                    ));
                }
            }
            x += 1;
        }
        proof {
            let emitted = choose|emitted: Seq<char>|
                result@ == row_start + emitted && emitted + row_path(
                    *qr,
                    y as int,
                    x as int,
                    border as int,
                ) == row_path(*qr, y as int, 0, border as int);
            assert(emitted =~= emitted + row_path(*qr, y as int, x as int, border as int));
            assert(result@ =~= head + svg_path(*qr, border as int, (y + 1) as nat));
        }
        y += 1;
    }
    result.append("\" fill=\"#000000\"/>\n</svg>\n\n");
    result
}

/// Encodes a text at level High, in the smallest version that holds it, and renders it as
/// an SVG document with a border of four modules. The text must fit a symbol of version 40.
pub fn generate_svg_string(content: &str) -> (r: String)
    requires
        content.spec_bytes().len() == 0 || text_mode(content) is Some,
        exists|w: int|
            1 <= w <= 40 && #[trigger] payload_fits(
                text_payload_mode(content),
                content.spec_bytes().len() as int,
                text_payload_bits(content).len() as int,
                w,
                QrCodeEcc::High,
            ),
    ensures
        exists|q: QrCode|
            encoded_as(
                Ok::<QrCode, crate::params::DataTooLong>(q),
                text_payload_mode(content),
                content.spec_bytes().len() as int,
                text_payload_bits(content),
                QrCodeEcc::High,
                1,
                40,
                None,
                true,
            ) && r@ == svg_text(q, 4),
{
    let r = QrCode::encode_text(
        content,
        QrCodeEcc::High,
        Version::new(1),
        Version::new(40),
        None,
        true,
    );
    match r {
        Ok(qr) => to_svg_string(&qr, 4),
        Err(_) => {
            proof {
                let w = choose|w: int|
                    1 <= w <= 40 && #[trigger] payload_fits(
                        text_payload_mode(content),
                        content.spec_bytes().len() as int,
                        text_payload_bits(content).len() as int,
                        w,
                        QrCodeEcc::High,
                    );
            }
            String::new()
        },
    }
}

/// The pixel `(px, py)` of a rendering with a border of `border` modules and `scale` pixels a
/// module shows a dark module.
pub open spec fn pixel_is_dark(q: QrCode, border: int, scale: int, px: int, py: int) -> bool {
    q.grid()(px / scale - border, py / scale - border)
}

/// Renders row `py` of a symbol drawn with a border of `border` light modules and `scale`
/// pixels for each module side: for each pixel, the channel values of `dark` or of `light`.
pub fn render_row(qr: &QrCode, border: u32, scale: u32, py: u32, dark: &[u8], light: &[u8]) -> (r:
    Vec<u8>)
    requires
        qr.wf(),
        1 <= scale,
        dark@.len() == light@.len(),
        (qr.spec_size() + 2 * border) * scale * dark@.len() <= u32::MAX,
    ensures
        r@ == Seq::new(
            ((qr.spec_size() + 2 * border) * scale * dark@.len()) as nat,
            |k: int|
                if pixel_is_dark(
                    *qr,
                    border as int,
                    scale as int,
                    k / dark@.len() as int,
                    py as int,
                ) {
                    dark@[k % dark@.len() as int]
                } else {
                    light@[k % dark@.len() as int]
                },
        ),
{
    let ch = dark.len();
    let size = qr.size() as u64;
    let ghost want = Seq::new(
        ((qr.spec_size() + 2 * border) * scale * dark@.len()) as nat,
        |k: int|
            if pixel_is_dark(*qr, border as int, scale as int, k / dark@.len() as int, py as int) {
                dark@[k % dark@.len() as int]
            } else {
                light@[k % dark@.len() as int]
            },
    );
    let mut out: Vec<u8> = Vec::new();
    if ch == 0 {
        assert((qr.spec_size() + 2 * border) * scale * dark@.len() == 0) by (nonlinear_arith)
            requires
                dark@.len() == 0,
        ;
        assert(out@ =~= want);
        return out;
    }
    assert((size + 2 * border as u64) * scale as u64 <= u32::MAX) by (nonlinear_arith)
        requires
            (size + 2 * border) * scale * ch <= u32::MAX,
            ch >= 1,
            size >= 0,
    ;
    let side: u64 = (size + 2 * border as u64) * scale as u64;
    let total: u64 = side * ch as u64;
    let y = (py / scale) as i64 - border as i64;
    let mut px: u64 = 0;
    while px < side
        invariant
            qr.wf(),
            1 <= scale,
            ch == dark@.len(),
            ch == light@.len(),
            ch >= 1,
            total == side * ch,
            total == want.len(),
            total <= u32::MAX,
            side <= u32::MAX,
            y == py as int / scale as int - border as int,
            px <= side,
            out@ == want.take(px * ch),
            want == Seq::new(
                ((qr.spec_size() + 2 * border) * scale * dark@.len()) as nat,
                |k: int|
                    if pixel_is_dark(
                        *qr,
                        border as int,
                        scale as int,
                        k / dark@.len() as int,
                        py as int,
                    ) {
                        dark@[k % dark@.len() as int]
                    } else {
                        light@[k % dark@.len() as int]
                    },
            ),
        decreases side - px,
    {
        let x = (px / scale as u64) as i64 - border as i64;
        let isdark = -1000 < x && x < 1000 && -1000 < y && y < 1000 && qr.get_module(
            x as i32,
            y as i32,
        );
        assert(isdark == pixel_is_dark(*qr, border as int, scale as int, px as int, py as int)) by {
            if !(-1000 < x && x < 1000 && -1000 < y && y < 1000) {
                assert(!qr.grid()(x as int, y as int));
            }
        }
        let mut c: usize = 0;
        while c < ch
            invariant
                ch == dark@.len(),
                ch == light@.len(),
                ch >= 1,
                c <= ch,
                px < side,
                total == side * ch,
                total == want.len(),
                isdark == pixel_is_dark(*qr, border as int, scale as int, px as int, py as int),
                out@ == want.take(px * ch + c),
                want == Seq::new(
                    ((qr.spec_size() + 2 * border) * scale * dark@.len()) as nat,
                    |k: int|
                        if pixel_is_dark(
                            *qr,
                            border as int,
                            scale as int,
                            k / dark@.len() as int,
                            py as int,
                        ) {
                            dark@[k % dark@.len() as int]
                        } else {
                            light@[k % dark@.len() as int]
                        },
                ),
            decreases ch - c,
        {
            proof {
                assert(px * ch + c < side * ch) by (nonlinear_arith)
                    requires
                        px < side,
                        c < ch,
                ;
                let k = px * ch + c;
                assert(k / ch as int == px && k % ch as int == c) by (nonlinear_arith)
                    requires
                        k == px * ch + c,
                        0 <= c < ch,
                        px >= 0,
                ;
            }
            out.push(
                if isdark {
                    dark[c]
                } else {
                    light[c]
                },
            );
            c += 1;
            assert(out@ =~= want.take(px * ch + c));
        }
        assert((px + 1) * ch == px * ch + ch) by (nonlinear_arith);
        px += 1;
    }
    assert(out@ =~= want);
    out
}

/// The path of the runs of dark modules of row `y` from column `x` on, each module `up` pixels
/// wide and the whole shifted by `off` pixels, for symbols framed around a logo.
pub open spec fn frame_row_path(q: QrCode, y: int, x: int, up: int, off: int) -> Seq<char>
    decreases q.spec_size() - x,
{
    if x >= q.spec_size() || x < 0 {
        seq![]
    } else if q.grid()(x, y) {
        let w = dark_run(q, x, y);
        "M"@ + decimal((x * up + off) as nat) + " "@ + decimal((y * up + off) as nat) + "h"@
            + decimal((w * up) as nat) + "v"@ + decimal(up as nat) + "h-"@ + decimal(
            (w * up) as nat,
        ) + "z "@ + if w >= 1 && x + w <= q.spec_size() {
            frame_row_path(q, y, x + w, up, off)
        } else {
            seq![]
        }
    } else {
        frame_row_path(q, y, x + 1, up, off)
    }
}

/// The paths of the first `n` rows.
pub open spec fn frame_path(q: QrCode, up: int, off: int, n: nat) -> Seq<char>
    decreases n,
{
    if n == 0 {
        seq![]
    } else {
        frame_path(q, up, off, (n - 1) as nat) + frame_row_path(q, n - 1, 0, up, off)
    }
}

/// Returns the SVG path data of the dark modules of a symbol drawn `upscale` pixels a module
/// and shifted by `offset` pixels: one rectangle for each horizontal run, each followed by a
/// space.
pub fn frame_svg_path(qr: &QrCode, upscale: u32, offset: u32) -> (r: String)
    requires
        qr.wf(),
        upscale <= 100_000,
        offset <= 100_000_000,
    ensures
        r@ == frame_path(*qr, upscale as int, offset as int, qr.spec_size() as nat),
{
    let size = qr.size();
    let up = upscale as u64;
    let off = offset as u64;
    let mut result = String::new();
    let mut y: i32 = 0;
    while y < size
        invariant
            qr.wf(),
            size == qr.spec_size(),
            up == upscale,
            off == offset,
            upscale <= 100_000,
            offset <= 100_000_000,
            0 <= y <= size,
            result@ == frame_path(*qr, upscale as int, offset as int, y as nat),
        decreases size - y,
    {
        let ghost row_start = result@;
        let mut x: i32 = 0;
        assert(result@ =~= row_start + Seq::<char>::empty());
        assert(Seq::<char>::empty() + frame_row_path(*qr, y as int, 0, up as int, off as int)
            =~= frame_row_path(*qr, y as int, 0, up as int, off as int));
        while x < size
            invariant
                qr.wf(),
                size == qr.spec_size(),
                up == upscale,
                off == offset,
                upscale <= 100_000,
                offset <= 100_000_000,
                0 <= y < size,
                0 <= x <= size,
                exists|emitted: Seq<char>|
                    result@ == row_start + emitted && emitted + frame_row_path(
                        *qr,
                        y as int,
                        x as int,
                        up as int,
                        off as int,
                    ) == frame_row_path(*qr, y as int, 0, up as int, off as int),
            decreases size - x,
        {
            let ghost before = result@;
            let ghost x0 = x as int;
            if qr.get_module(x, y) {
                let start_x = x;
                let mut width: i32 = 1;
                while x + 1 < size && qr.get_module(x + 1, y)
                    invariant
                        qr.wf(),
                        size == qr.spec_size(),
                        0 <= start_x <= x < size,
                        width == x - start_x + 1,
                        dark_run(*qr, start_x as int, y as int) == width + dark_run(
                            *qr,
                            x + 1,
                            y as int,
                        ),
                    decreases size - x,
                {
                    x += 1;
                    width += 1;
                }
                assert(dark_run(*qr, x + 1, y as int) == 0);
                let w = width as u64;
                assert(start_x as u64 * up <= 177 * 100_000 && y as u64 * up <= 177 * 100_000 && w
                    * up <= 177 * 100_000) by (nonlinear_arith)
                    requires
                        0 <= start_x < 177,
                        0 <= y < 177,
                        1 <= w <= 177,
                        up <= 100_000,
                ;
                result.append("M");
                push_decimal(&mut result, start_x as u64 * up + off);
                result.append(" ");
                push_decimal(&mut result, y as u64 * up + off);
                result.append("h");
                push_decimal(&mut result, w * up);
                result.append("v");
                push_decimal(&mut result, up);
                result.append("h-");
                push_decimal(&mut result, w * up);
                result.append("z ");
                proof {
                    let emitted = choose|emitted: Seq<char>|
                        before == row_start + emitted && emitted + frame_row_path(
                            *qr,
                            y as int,
                            x0,
                            up as int,
                            off as int,
                        ) == frame_row_path(*qr, y as int, 0, up as int, off as int);
                    let seg = result@.subrange(before.len() as int, result@.len() as int);
                    assert(result@ =~= row_start + (emitted + seg));
                    assert((emitted + seg) + frame_row_path(
                        *qr,
                        y as int,
                        x + 1,
                        up as int,
                        off as int,
                    ) =~= emitted + frame_row_path(*qr, y as int, x0, up as int, off as int));
                }
            } else {
                proof {
                    let emitted = choose|emitted: Seq<char>|
                        before == row_start + emitted && emitted + frame_row_path(
                            *qr,
                            y as int,
                            x0,
                            up as int,
                            off as int,
                        ) == frame_row_path(*qr, y as int, 0, up as int, off as int);
                    assert(frame_row_path(*qr, y as int, x0, up as int, off as int)
                        == frame_row_path(*qr, y as int, x0 + 1, up as int, off as int));
                }
            }
            x += 1;
        }
        proof {
            let emitted = choose|emitted: Seq<char>|
                result@ == row_start + emitted && emitted + frame_row_path(
                    *qr,
                    y as int,
                    x as int,
                    up as int,
                    off as int,
                ) == frame_row_path(*qr, y as int, 0, up as int, off as int);
            assert(emitted =~= emitted + frame_row_path(
                *qr,
                y as int,
                x as int,
                up as int,
                off as int,
            ));
            assert(result@ =~= frame_path(*qr, upscale as int, offset as int, (y + 1) as nat));
        }
        y += 1;
    }
    result
}

} // verus!
