use vstd::prelude::*;
use vstd::string::StringSliceAdditionalSpecFns;
use crate::bits::{byte_bit, bytes_bits};
use crate::params::{data_codewords, lemma_capacity_step, DataTooLong, Mask, QrCodeEcc};
use crate::segment::char_count_bits;
use vstd::arithmetic::power2::pow2;
use crate::penalty::{grid_penalty, penalty_score};
use crate::qrcode::{
    base_grid, best_mask_upto, fits_buffer, masked_grid, payload_bits, symbol_grid, text_encoded,
    text_mode, text_payload_bits, text_payload_mode, QrCode,
};
use crate::segment::{is_alphanumeric_text, is_digit, is_numeric_text, QrSegmentMode};

verus! {

/// A text of digits only is encoded in numeric mode whenever its numeric data fits.
pub proof fn lemma_digits_choose_numeric(text: &str)
    requires
        is_numeric_text(text@),
        fits_buffer(QrSegmentMode::Numeric, text.spec_bytes().len() as int),
    ensures
        text_mode(text) == Some(QrSegmentMode::Numeric),
{
}

/// A text over the alphanumeric alphabet with at least one character that is not a digit is
/// encoded in alphanumeric mode, not byte mode, whenever its alphanumeric data fits.
pub proof fn lemma_alphanumeric_before_byte(text: &str, i: int)
    requires
        is_alphanumeric_text(text@),
        0 <= i < text@.len(),
        !is_digit(text@[i]),
        fits_buffer(QrSegmentMode::Alphanumeric, text.spec_bytes().len() as int),
    ensures
        text_mode(text) == Some(QrSegmentMode::Alphanumeric),
{
    assert(!is_numeric_text(text@));
}

/// Every symbol has side `4 * version + 17`, and every coordinate outside the symbol reads
/// as a light module.
pub proof fn lemma_symbol_shape(q: QrCode, x: int, y: int)
    requires
        q.wf(),
    ensures
        q.spec_size() == 4 * q.spec_version() + 17,
        1 <= q.spec_version() <= 40,
        !(0 <= x < q.spec_size() && 0 <= y < q.spec_size()) ==> !q.grid()(x, y),
{
}

/// Bytes are told apart by their bits.
pub proof fn lemma_bytes_bits_injective(a: Seq<u8>, b: Seq<u8>)
    requires
        a.len() == b.len(),
        bytes_bits(a) == bytes_bits(b),
    ensures
        a == b,
{
    assert forall|i: int| 0 <= i < a.len() implies a[i] == b[i] by {
        let x = a[i];
        let y = b[i];
        assert forall|k: int| 0 <= k < 8 implies #[trigger] byte_bit(x, k) == byte_bit(y, k) by {
            let j = 8 * i + 7 - k;
            assert(j / 8 == i && j % 8 == 7 - k);
            assert(0 <= j < a.len() * 8);
            assert(bytes_bits(a)[j] == byte_bit(a[j / 8], 7 - j % 8));
            assert(bytes_bits(b)[j] == byte_bit(b[j / 8], 7 - j % 8));
            assert(bytes_bits(a)[j] == bytes_bits(b)[j]);
        }
        assert(byte_bit(x, 0) == byte_bit(y, 0));
        assert(byte_bit(x, 1) == byte_bit(y, 1));
        assert(byte_bit(x, 2) == byte_bit(y, 2));
        assert(byte_bit(x, 3) == byte_bit(y, 3));
        assert(byte_bit(x, 4) == byte_bit(y, 4));
        assert(byte_bit(x, 5) == byte_bit(y, 5));
        assert(byte_bit(x, 6) == byte_bit(y, 6));
        assert(byte_bit(x, 7) == byte_bit(y, 7));
        assert(x == y) by (bit_vector)
            requires
                ((x >> 0u8) & 1u8 == 1u8) == ((y >> 0u8) & 1u8 == 1u8),
                ((x >> 1u8) & 1u8 == 1u8) == ((y >> 1u8) & 1u8 == 1u8),
                ((x >> 2u8) & 1u8 == 1u8) == ((y >> 2u8) & 1u8 == 1u8),
                ((x >> 3u8) & 1u8 == 1u8) == ((y >> 3u8) & 1u8 == 1u8),
                ((x >> 4u8) & 1u8 == 1u8) == ((y >> 4u8) & 1u8 == 1u8),
                ((x >> 5u8) & 1u8 == 1u8) == ((y >> 5u8) & 1u8 == 1u8),
                ((x >> 6u8) & 1u8 == 1u8) == ((y >> 6u8) & 1u8 == 1u8),
                ((x >> 7u8) & 1u8 == 1u8) == ((y >> 7u8) & 1u8 == 1u8),
        ;
    }
    assert(a =~= b);
}

/// Encoding a text is deterministic: two results for the same text and parameters are
/// both the same error, or symbols of the same version with the same modules.
pub proof fn lemma_encode_text_deterministic(
    r1: Result<QrCode, DataTooLong>,
    r2: Result<QrCode, DataTooLong>,
    text: &str,
    ecl: QrCodeEcc,
    minv: int,
    maxv: int,
    mask: Option<Mask>,
    boost: bool,
)
    requires
        text_encoded(r1, text, ecl, minv, maxv, mask, boost),
        text_encoded(r2, text, ecl, minv, maxv, mask, boost),
    ensures
        r1 is Ok <==> r2 is Ok,
        r1 is Err ==> r1 == r2,
        r1 is Ok ==> r1.unwrap().spec_version() == r2.unwrap().spec_version() && r1.unwrap().grid()
            == r2.unwrap().grid(),
{
    lemma_same_symbol(r1, r2, text, ecl, minv, maxv, mask, mask, boost);
}

/// Two encodings of one text with masks `mask1` and `mask2` agree in being errors, in the
/// error, in the version and level, and come from the same base grid.
proof fn lemma_same_symbol(
    r1: Result<QrCode, DataTooLong>,
    r2: Result<QrCode, DataTooLong>,
    text: &str,
    ecl: QrCodeEcc,
    minv: int,
    maxv: int,
    mask1: Option<Mask>,
    mask2: Option<Mask>,
    boost: bool,
)
    requires
        text_encoded(r1, text, ecl, minv, maxv, mask1, boost),
        text_encoded(r2, text, ecl, minv, maxv, mask2, boost),
    ensures
        r1 is Ok <==> r2 is Ok,
        r1 is Err ==> r1 == r2,
        r1 is Ok ==> {
            let q1 = r1.unwrap();
            let q2 = r2.unwrap();
            &&& q1.spec_version() == q2.spec_version()
            &&& q1.spec_ecl() == q2.spec_ecl()
            &&& exists|cw: Seq<u8>|
                #[trigger] symbol_grid(cw, q1.spec_version(), q1.spec_ecl(), mask1) == q1.grid()
                    && symbol_grid(cw, q1.spec_version(), q1.spec_ecl(), mask2) == q2.grid()
        },
{
    if r1 is Ok && r2 is Ok {
        let q1 = r1.unwrap();
        let q2 = r2.unwrap();
        let v1 = q1.spec_version();
        let v2 = q2.spec_version();
        assert(v1 == v2) by {
            if v1 < v2 {
            } else if v2 < v1 {
            }
        }
        let cw1 = choose|cw: Seq<u8>|
            {
                &&& cw.len() == crate::params::data_codewords(v1, q1.spec_ecl())
                &&& bytes_bits(cw) == crate::qrcode::padded_stream(
                    crate::qrcode::payload_stream(
                        crate::qrcode::text_payload_mode(text),
                        text.spec_bytes().len() as int,
                        crate::qrcode::text_payload_bits(text),
                        v1,
                    ),
                    (cw.len() * 8) as int,
                )
                &&& #[trigger] symbol_grid(cw, v1, q1.spec_ecl(), mask1) == q1.grid()
            };
        let cw2 = choose|cw: Seq<u8>|
            {
                &&& cw.len() == crate::params::data_codewords(v2, q2.spec_ecl())
                &&& bytes_bits(cw) == crate::qrcode::padded_stream(
                    crate::qrcode::payload_stream(
                        crate::qrcode::text_payload_mode(text),
                        text.spec_bytes().len() as int,
                        crate::qrcode::text_payload_bits(text),
                        v2,
                    ),
                    (cw.len() * 8) as int,
                )
                &&& #[trigger] symbol_grid(cw, v2, q2.spec_ecl(), mask2) == q2.grid()
            };
        lemma_bytes_bits_injective(cw1, cw2);
    } else if r1 is Ok && r2 is Err {
        let v = r1.unwrap().spec_version();
        assert(!crate::qrcode::payload_fits(
            crate::qrcode::text_payload_mode(text),
            text.spec_bytes().len() as int,
            crate::qrcode::text_payload_bits(text).len() as int,
            v,
            ecl,
        ));
    } else if r1 is Err && r2 is Ok {
        let v = r2.unwrap().spec_version();
        assert(!crate::qrcode::payload_fits(
            crate::qrcode::text_payload_mode(text),
            text.spec_bytes().len() as int,
            crate::qrcode::text_payload_bits(text).len() as int,
            v,
            ecl,
        ));
    }
}

/// The first mask of lowest penalty has no higher penalty than any of the masks considered.
pub proof fn lemma_best_mask_minimal(
    b: spec_fn(int, int) -> bool,
    ver: int,
    e: QrCodeEcc,
    n: nat,
    m: int,
)
    requires
        1 <= n,
        0 <= m < n,
    ensures
        0 <= best_mask_upto(b, ver, e, n) < n,
        grid_penalty(masked_grid(b, ver, e, best_mask_upto(b, ver, e, n)), 4 * ver + 17)
            <= grid_penalty(masked_grid(b, ver, e, m), 4 * ver + 17),
    decreases n,
{
    if n > 1 {
        if m < n - 1 {
            lemma_best_mask_minimal(b, ver, e, (n - 1) as nat, m);
        } else {
            lemma_best_mask_minimal(b, ver, e, (n - 1) as nat, 0);
        }
    }
}

/// With automatic mask selection, the symbol of a text has no higher penalty score than the
/// symbol of the same text with any mask forced.
pub proof fn lemma_auto_mask_not_worse(
    auto: Result<QrCode, DataTooLong>,
    forced: Result<QrCode, DataTooLong>,
    text: &str,
    ecl: QrCodeEcc,
    minv: int,
    maxv: int,
    m: Mask,
    boost: bool,
)
    requires
        text_encoded(auto, text, ecl, minv, maxv, None, boost),
        text_encoded(forced, text, ecl, minv, maxv, Some(m), boost),
        0 <= m.spec_value() <= 7,
    ensures
        auto is Ok <==> forced is Ok,
        auto is Ok ==> penalty_score(auto.unwrap()) <= penalty_score(forced.unwrap()),
{
    lemma_same_symbol(auto, forced, text, ecl, minv, maxv, None, Some(m), boost);
    if auto is Ok {
        let q1 = auto.unwrap();
        let q2 = forced.unwrap();
        let v = q1.spec_version();
        let e = q1.spec_ecl();
        let cw = choose|cw: Seq<u8>|
            #[trigger] symbol_grid(cw, v, e, None) == q1.grid() && symbol_grid(cw, v, e, Some(m))
                == q2.grid();
        let b = base_grid(cw, v, e);
        lemma_best_mask_minimal(b, v, e, 8, m.spec_value());
        lemma_symbol_shape(q1, 0, 0);
        lemma_symbol_shape(q2, 0, 0);
    }
}

/// From version `v` to version `w` the data capacity grows by at least a codeword a version.
pub proof fn lemma_capacity_grows(e: QrCodeEcc, v: int, w: int)
    requires
        1 <= v <= w <= 40,
    ensures
        data_codewords(w, e) >= data_codewords(v, e) + (w - v),
    decreases w - v,
{
    if v < w {
        lemma_capacity_grows(e, v, w - 1);
        lemma_capacity_step(e, w - 1);
    }
}

/// A text whose bits exceed what the largest allowed version holds gives `DataOverCapacity`
/// with the bits that it needs there and the bits that version holds.
pub proof fn lemma_over_capacity(
    r: Result<QrCode, DataTooLong>,
    text: &str,
    ecl: QrCodeEcc,
    minv: int,
    maxv: int,
    mask: Option<Mask>,
    boost: bool,
    b: usize,
)
    requires
        text_encoded(r, text, ecl, minv, maxv, mask, boost),
        1 <= minv <= maxv <= 40,
        !(text.spec_bytes().len() > 0 && text_mode(text) is None),
        payload_bits(
            text_payload_mode(text),
            text.spec_bytes().len() as int,
            text_payload_bits(text).len() as int,
            maxv,
        ) == Some(b),
        b > data_codewords(maxv, ecl) * 8,
    ensures
        r == Err::<QrCode, DataTooLong>(
            DataTooLong::DataOverCapacity(b, (data_codewords(maxv, ecl) * 8) as usize),
        ),
{
    if r is Ok {
        let v = r.unwrap().spec_version();
        lemma_capacity_grows(ecl, v, maxv);
        assert(crate::qrcode::payload_fits(
            text_payload_mode(text),
            text.spec_bytes().len() as int,
            text_payload_bits(text).len() as int,
            v,
            ecl,
        ));
    }
}

/// A text whose character count does not fit the count field of its mode at the largest
/// allowed version, and so at none, gives `SegmentTooLong`.
pub proof fn lemma_count_overflow(
    r: Result<QrCode, DataTooLong>,
    text: &str,
    ecl: QrCodeEcc,
    minv: int,
    maxv: int,
    mask: Option<Mask>,
    boost: bool,
)
    requires
        text_encoded(r, text, ecl, minv, maxv, mask, boost),
        1 <= minv <= maxv <= 40,
        text.spec_bytes().len() > 0,
        text_mode(text) is Some,
        text.spec_bytes().len() >= pow2(char_count_bits(text_mode(text).unwrap(), maxv) as nat),
    ensures
        r == Err::<QrCode, DataTooLong>(DataTooLong::SegmentTooLong),
{
    let m = text_mode(text).unwrap();
    if r is Ok {
        let v = r.unwrap().spec_version();
        assert(crate::qrcode::payload_fits(
            text_payload_mode(text),
            text.spec_bytes().len() as int,
            text_payload_bits(text).len() as int,
            v,
            ecl,
        ));
        if char_count_bits(m, v) < char_count_bits(m, maxv) {
            vstd::arithmetic::power2::lemma_pow2_strictly_increases(
                char_count_bits(m, v) as nat,
                char_count_bits(m, maxv) as nat,
            );
        }
    }
}

} // verus!
