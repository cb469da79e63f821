use vstd::prelude::*;
use vstd::arithmetic::power2::lemma2_to64;
use crate::bits::{byte_bit, bytes_bits, low_bits, lemma_byte_bit_value};
pub use crate::params::{DataTooLong, Mask, QrCodeEcc, Version};
use crate::params::{data_codewords, get_num_data_codewords};
pub use crate::segment::{QrSegment, QrSegmentMode};
pub use crate::bits::BitBuffer;
pub use crate::penalty::FinderPenalty;
use crate::segment::{char_count_bits, count_fits, mode_indicator, segs_total_len, total_bits};
use crate::params::ecc_of_format_code;
use crate::grid::is_function_module;
use crate::drawing::{format_cell, format_word, mask_inverts, lemma_format_data_bits};
use crate::penalty::{grid_penalty, penalty_score};
use crate::codewords::{add_ecc_and_interleave, interleaved_codeword};
use crate::drawing::light_value;
use crate::placement::placed_module;
use crate::params::raw_codewords;
use crate::params::buffer_len_of;
use crate::segment::{
    alnum_bits, is_alphanumeric_text, is_numeric_text, numeric_bits, segment_bit_length,
};
use vstd::arithmetic::power2::pow2;
use vstd::string::StringSliceAdditionalSpecFns;

verus! {

/// A finished symbol: a square grid of dark and light modules, one bit each, row by row.
pub struct QrCode {
    pub(crate) size: u8,
    pub(crate) modules: Vec<u8>,
}

/// The bits that one segment adds to the data stream at version `ver`: the mode indicator,
/// the character count, then the data bits.
pub open spec fn segment_stream(seg: QrSegment, ver: int) -> Seq<bool> {
    low_bits(mode_indicator(seg.spec_mode()), 4) + low_bits(
        seg.spec_num_chars() as u32,
        char_count_bits(seg.spec_mode(), ver) as nat,
    ) + seg.spec_bits()
}

/// The data stream of the segments at version `ver`, one after another.
pub open spec fn segs_stream(segs: Seq<QrSegment>, ver: int) -> Seq<bool>
    decreases segs.len(),
{
    if segs.len() == 0 {
        seq![]
    } else {
        segs_stream(segs.drop_last(), ver) + segment_stream(segs.last(), ver)
    }
}

/// `n` zero bits.
pub open spec fn zero_bits(n: int) -> Seq<bool> {
    Seq::new(n as nat, |j: int| false)
}

/// `n` pad bytes, alternately 0xEC and 0x11, as bits.
pub open spec fn pad_bits(n: int) -> Seq<bool> {
    Seq::new(
        (8 * n) as nat,
        |j: int|
            byte_bit(
                if (j / 8) % 2 == 0 {
                    0xECu8
                } else {
                    0x11u8
                },
                7 - j % 8,
            ),
    )
}

/// The data stream completed to `cap` bits: a terminator of up to four zero bits, zero bits up
/// to a byte boundary, then pad bytes.
pub open spec fn padded_stream(stream: Seq<bool>, cap: int) -> Seq<bool> {
    let term = if cap - stream.len() < 4 {
        cap - stream.len()
    } else {
        4
    };
    let t = stream + zero_bits(term);
    let a = t + zero_bits((8 - t.len() % 8) % 8);
    a + pad_bits((cap - a.len()) / 8)
}

/// The segments fit a symbol of version `ver` at level `e`.
pub open spec fn segs_fit(segs: Seq<QrSegment>, ver: int, e: QrCodeEcc) -> bool {
    match total_bits(segs, ver) {
        Some(n) => n <= data_codewords(ver, e) * 8,
        None => false,
    }
}

/// The level that a planner keeps: with `boost`, the highest of Medium, Quartile and High
/// whose capacity at version `ver` still holds `used` bits; else `e`.
pub open spec fn boosted_level(e: QrCodeEcc, ver: int, used: int, boost: bool) -> QrCodeEcc {
    if boost && used <= data_codewords(ver, QrCodeEcc::High) * 8 {
        QrCodeEcc::High
    } else if boost && used <= data_codewords(ver, QrCodeEcc::Quartile) * 8 {
        QrCodeEcc::Quartile
    } else if boost && used <= data_codewords(ver, QrCodeEcc::Medium) * 8 {
        QrCodeEcc::Medium
    } else {
        e
    }
}

/// The error that a planner returns where no version up to `maxv` holds the segments.
pub open spec fn overflow_error(segs: Seq<QrSegment>, e: QrCodeEcc, maxv: int) -> DataTooLong {
    match total_bits(segs, maxv) {
        Some(n) => DataTooLong::DataOverCapacity(n, (data_codewords(maxv, e) * 8) as usize),
        None => DataTooLong::SegmentTooLong,
    }
}

/// The stream of the segments is as long as the total that `total_bits` counts.
pub proof fn lemma_stream_len(segs: Seq<QrSegment>, ver: int)
    ensures
        segs_stream(segs, ver).len() == segs_total_len(segs, ver),
    decreases segs.len(),
{
    if segs.len() > 0 {
        lemma_stream_len(segs.drop_last(), ver);
    }
}

/// The grid that the base grid `b` of a symbol of version `ver` becomes under mask `m`, with
/// the format information of level `e` and mask `m` drawn.
pub open spec fn masked_grid(b: spec_fn(int, int) -> bool, ver: int, e: QrCodeEcc, m: int) -> spec_fn(
    int,
    int,
) -> bool {
    |x: int, y: int|
        {
            let size = 4 * ver + 17;
            &&& 0 <= x < size
            &&& 0 <= y < size
            &&& match format_cell(size, format_word(e, m), x, y) {
                Some(v) => v,
                None => b(x, y) != (!is_function_module(ver, x, y) && mask_inverts(m, x, y)),
            }
        }
}

/// The grid `g` of a symbol of version `ver` with mask `m` taken off again.
pub open spec fn unmasked_grid(g: spec_fn(int, int) -> bool, ver: int, m: int) -> spec_fn(
    int,
    int,
) -> bool {
    |x: int, y: int| g(x, y) != (!is_function_module(ver, x, y) && mask_inverts(m, x, y))
}

/// The data bits of a segment of mode `m` with `n` characters fit in the bytes of the largest
/// symbol.
pub open spec fn fits_buffer(m: QrSegmentMode, n: int) -> bool {
    match segment_bit_length(m, n) {
        Some(b) => (b + 7) / 8 <= buffer_len_of(40),
        None => false,
    }
}

/// The mode that `encode_text` picks for a non-empty text: numeric, else alphanumeric, else
/// byte mode, the first that can hold the text and whose data fits; `None` where none does.
pub open spec fn text_mode(text: &str) -> Option<QrSegmentMode> {
    let n = text.spec_bytes().len() as int;
    if is_numeric_text(text@) && fits_buffer(QrSegmentMode::Numeric, n) {
        Some(QrSegmentMode::Numeric)
    } else if is_alphanumeric_text(text@) && fits_buffer(QrSegmentMode::Alphanumeric, n) {
        Some(QrSegmentMode::Alphanumeric)
    } else if fits_buffer(QrSegmentMode::Byte, n) {
        Some(QrSegmentMode::Byte)
    } else {
        None
    }
}

/// The data bits of the text in mode `m`.
pub open spec fn text_bits(text: &str, m: QrSegmentMode) -> Seq<bool> {
    match m {
        QrSegmentMode::Numeric => numeric_bits(text@),
        QrSegmentMode::Alphanumeric => alnum_bits(text@),
        _ => bytes_bits(text.spec_bytes()),
    }
}

/// The mode of the one segment of a non-empty text, `None` for an empty text.
pub open spec fn text_payload_mode(text: &str) -> Option<QrSegmentMode> {
    if text.spec_bytes().len() == 0 {
        None
    } else {
        text_mode(text)
    }
}

/// The data bits of a text's segment, none for an empty text.
pub open spec fn text_payload_bits(text: &str) -> Seq<bool> {
    if text.spec_bytes().len() == 0 || text_mode(text) is None {
        seq![]
    } else {
        text_bits(text, text_mode(text).unwrap())
    }
}

/// The data stream of a payload at version `ver`: for one segment its mode indicator,
/// character count and data bits; nothing for none.
pub open spec fn payload_stream(m: Option<QrSegmentMode>, n: int, bits: Seq<bool>, ver: int) -> Seq<
    bool,
> {
    match m {
        None => seq![],
        Some(mode) => low_bits(mode_indicator(mode), 4) + low_bits(
            n as u32,
            char_count_bits(mode, ver) as nat,
        ) + bits,
    }
}

/// `seg` holds the text in mode `m`.
pub open spec fn holds_text(seg: QrSegment, text: &str, m: QrSegmentMode) -> bool {
    &&& seg.wf()
    &&& seg.spec_mode() == m
    &&& seg.spec_num_chars() == text.spec_bytes().len()
    &&& seg.spec_bits() == text_bits(text, m)
}

/// Bits that a payload of one segment (mode `m`, `n` characters, `nbits` data bits) takes at
/// version `ver`, or none at all where `m` is `None`; `None` where the count does not fit its
/// field or the total does not fit in `usize`.
pub open spec fn payload_bits(m: Option<QrSegmentMode>, n: int, nbits: int, ver: int) -> Option<
    usize,
> {
    match m {
        None => Some(0),
        Some(mode) => if n < pow2(char_count_bits(mode, ver) as nat) && 4 + char_count_bits(
            mode,
            ver,
        ) + nbits <= usize::MAX {
            Some((4 + char_count_bits(mode, ver) + nbits) as usize)
        } else {
            None
        },
    }
}

/// The payload fits a symbol of version `ver` at level `e`.
pub open spec fn payload_fits(
    m: Option<QrSegmentMode>,
    n: int,
    nbits: int,
    ver: int,
    e: QrCodeEcc,
) -> bool {
    match payload_bits(m, n, nbits, ver) {
        Some(b) => b <= data_codewords(ver, e) * 8,
        None => false,
    }
}

/// The error returned where no version up to `maxv` holds the payload.
pub open spec fn payload_error(
    m: Option<QrSegmentMode>,
    n: int,
    nbits: int,
    e: QrCodeEcc,
    maxv: int,
) -> DataTooLong {
    match payload_bits(m, n, nbits, maxv) {
        Some(b) => DataTooLong::DataOverCapacity(b, (data_codewords(maxv, e) * 8) as usize),
        None => DataTooLong::SegmentTooLong,
    }
}

/// What `encode_text` and `encode_binary` return for a payload: the symbol of the smallest
/// version in range that holds it, at the level kept by boosting, made from the padded data
/// stream with the mask asked for; or the error of the largest version.
pub open spec fn encoded_as(
    r: Result<QrCode, DataTooLong>,
    m: Option<QrSegmentMode>,
    n: int,
    bits: Seq<bool>,
    ecl: QrCodeEcc,
    minv: int,
    maxv: int,
    mask: Option<Mask>,
    boost: bool,
) -> bool {
    let nbits = bits.len() as int;
    match r {
        Ok(q) => {
            let v = q.spec_version();
            &&& q.wf()
            &&& minv <= v <= maxv
            &&& payload_fits(m, n, nbits, v, ecl)
            &&& forall|w: int| minv <= w < v ==> !payload_fits(m, n, nbits, w, ecl)
            &&& q.spec_ecl() == boosted_level(
                ecl,
                v,
                payload_bits(m, n, nbits, v).unwrap() as int,
                boost,
            )
            &&& 0 <= q.spec_mask() < 8
            &&& mask matches Some(mk) ==> q.spec_mask() == mk.spec_value()
            &&& exists|cw: Seq<u8>|
                {
                    &&& cw.len() == data_codewords(v, q.spec_ecl())
                    &&& bytes_bits(cw) == padded_stream(payload_stream(m, n, bits, v), (cw.len() * 8) as int)
                    &&& #[trigger] symbol_grid(cw, v, q.spec_ecl(), mask) == q.grid()
                }
        },
        Err(e) => {
            &&& forall|w: int| minv <= w <= maxv ==> !payload_fits(m, n, nbits, w, ecl)
            &&& e == payload_error(m, n, nbits, ecl, maxv)
        },
    }
}

/// What `encode_text` returns for `text`: `SegmentTooLong` where no mode can hold it in the
/// bytes of the largest symbol, else the encoding of its payload.
pub open spec fn text_encoded(
    r: Result<QrCode, DataTooLong>,
    text: &str,
    ecl: QrCodeEcc,
    minv: int,
    maxv: int,
    mask: Option<Mask>,
    boost: bool,
) -> bool {
    if text.spec_bytes().len() > 0 && text_mode(text) is None {
        r == Err::<QrCode, DataTooLong>(DataTooLong::SegmentTooLong)
    } else {
        encoded_as(
            r,
            text_payload_mode(text),
            text.spec_bytes().len() as int,
            text_payload_bits(text),
            ecl,
            minv,
            maxv,
            mask,
            boost,
        )
    }
}

/// The planner's view of no segment, or of one, is that of the payload.
pub proof fn lemma_payload_bits(
    segs: Seq<QrSegment>,
    m: Option<QrSegmentMode>,
    n: int,
    bits: Seq<bool>,
)
    requires
        segs.len() == 0 ==> m is None,
        segs.len() == 1 ==> m == Some(segs[0].spec_mode()) && n == segs[0].spec_num_chars()
            && bits == segs[0].spec_bits(),
        segs.len() <= 1,
    ensures
        forall|w: int| #[trigger] total_bits(segs, w) == payload_bits(m, n, bits.len() as int, w),
        forall|w: int| #[trigger] segs_stream(segs, w) == payload_stream(m, n, bits, w),
{
    assert forall|w: int| #[trigger] total_bits(segs, w) == payload_bits(m, n, bits.len() as int, w) by {
        if segs.len() == 1 {
            assert(segs.drop_last() =~= Seq::<QrSegment>::empty());
            assert(segs_total_len(segs.drop_last(), w) == 0);
            assert(segs.last() == segs[0]);
            if !count_fits(segs[0], w) {
                assert(!(forall|j: int| 0 <= j < segs.len() ==> count_fits(#[trigger] segs[j], w)));
            }
            if count_fits(segs[0], w) {
                assert forall|j: int| 0 <= j < segs.len() implies count_fits(#[trigger] segs[j], w) by {
                    assert(j == 0);
                }
            }
        }
    }
    assert forall|w: int| #[trigger] segs_stream(segs, w) == payload_stream(m, n, bits, w) by {
        if segs.len() == 1 {
            assert(segs.drop_last() =~= Seq::<QrSegment>::empty());
            assert(segs.last() == segs[0]);
            assert(segs_stream(segs.drop_last(), w) =~= Seq::<bool>::empty());
            assert(segs_stream(segs, w) =~= payload_stream(m, n, bits, w));
        }
    }
}

/// The function modules of a symbol of version `ver`, dark, on a light ground.
pub open spec fn function_grid(ver: int) -> spec_fn(int, int) -> bool {
    |x: int, y: int|
        0 <= x < 4 * ver + 17 && 0 <= y < 4 * ver + 17 && is_function_module(ver, x, y)
}

/// The codeword sequence of a symbol: its data codewords and their error correction
/// codewords, interleaved.
pub open spec fn all_codewords(data: Seq<u8>, ver: int, e: QrCodeEcc) -> Seq<u8> {
    Seq::new(raw_codewords(ver) as nat, |k: int| interleaved_codeword(data, ver, e, k))
}

/// The symbol before masking: the function patterns, and the codeword bits in the other
/// modules.
pub open spec fn base_grid(data: Seq<u8>, ver: int, e: QrCodeEcc) -> spec_fn(int, int) -> bool {
    |x: int, y: int|
        {
            let size = 4 * ver + 17;
            &&& 0 <= x < size
            &&& 0 <= y < size
            &&& match light_value(ver, x, y) {
                Some(v) => v,
                None => placed_module(
                    function_grid(ver),
                    size,
                    bytes_bits(all_codewords(data, ver, e)),
                    x,
                    y,
                ),
            }
        }
}

/// The first of masks `0..n` with the lowest penalty on the base grid `b`.
pub open spec fn best_mask_upto(b: spec_fn(int, int) -> bool, ver: int, e: QrCodeEcc, n: nat) -> int
    decreases n,
{
    if n <= 1 {
        0
    } else {
        let prev = best_mask_upto(b, ver, e, (n - 1) as nat);
        if grid_penalty(masked_grid(b, ver, e, n - 1), 4 * ver + 17) < grid_penalty(
            masked_grid(b, ver, e, prev),
            4 * ver + 17,
        ) {
            n - 1
        } else {
            prev
        }
    }
}

/// The mask of a symbol: the one asked for, else the first with the lowest penalty.
pub open spec fn chosen_mask(b: spec_fn(int, int) -> bool, ver: int, e: QrCodeEcc, msk: Option<Mask>) -> int {
    match msk {
        Some(m) => m.spec_value(),
        None => best_mask_upto(b, ver, e, 8),
    }
}

/// The finished symbol of the data codewords `data` at version `ver` and level `e`.
pub open spec fn symbol_grid(data: Seq<u8>, ver: int, e: QrCodeEcc, msk: Option<Mask>) -> spec_fn(
    int,
    int,
) -> bool {
    let b = base_grid(data, ver, e);
    masked_grid(b, ver, e, chosen_mask(b, ver, e, msk))
}

impl QrCode {
    /// The mask that the format information of the symbol names.
    pub open(crate) spec fn spec_mask(&self) -> int {
        (if self.module(2, 8) {
            0int
        } else {
            4
        }) + (if self.module(3, 8) {
            2int
        } else {
            0
        }) + (if self.module(4, 8) {
            0int
        } else {
            1
        })
    }

    /// The error correction level that the format information of the symbol names.
    pub open(crate) spec fn spec_ecl(&self) -> QrCodeEcc {
        ecc_of_format_code(
            ((if self.module(0, 8) {
                0int
            } else {
                2
            }) + (if self.module(1, 8) {
                1int
            } else {
                0
            })) as u8,
        )
    }
}

impl QrCode {
    /// Plans the symbol for the segments: picks the smallest version in
    /// `minversion..=maxversion` whose capacity at level `ecl` holds them, raises the level where
    /// `boostecl` asks and the version still holds them, and writes the data codewords, padded
    /// to the capacity, into `outbuffer`. Returns the number of data codewords, the level and
    /// the version.
    pub fn encode_segments_to_codewords(
        segs: &[QrSegment],
        outbuffer: &mut Vec<u8>,
        ecl: QrCodeEcc,
        minversion: Version,
        maxversion: Version,
        boostecl: bool,
    ) -> (r: Result<(usize, QrCodeEcc, Version), DataTooLong>)
        requires
            minversion.spec_value() <= maxversion.spec_value(),
            forall|j: int| 0 <= j < segs@.len() ==> (#[trigger] segs@[j]).wf(),
        ensures
            match r {
                Ok((len, level, ver)) => {
                    let v = ver.spec_value();
                    let used = segs_total_len(segs@, v);
                    &&& minversion.spec_value() <= v <= maxversion.spec_value()
                    &&& segs_fit(segs@, v, ecl)
                    &&& forall|w: int|
                        minversion.spec_value() <= w < v ==> !segs_fit(segs@, w, ecl)
                    &&& level == boosted_level(ecl, v, used, boostecl)
                    &&& len == data_codewords(v, level)
                    &&& final(outbuffer)@.len() == len
                    &&& bytes_bits(final(outbuffer)@) == padded_stream(
                        segs_stream(segs@, v),
                        len * 8,
                    )
                },
                Err(e) => {
                    &&& forall|w: int|
                        minversion.spec_value() <= w <= maxversion.spec_value() ==> !segs_fit(
                            segs@,
                            w,
                            ecl,
                        )
                    &&& e == overflow_error(segs@, ecl, maxversion.spec_value())
                },
            },
    {
        let (version, datausedbits) = match Self::find_version(segs, ecl, minversion, maxversion) {
            Ok(found) => found,
            Err(e) => {
                return Err(e);
            },
        };
        let ghost v = version.spec_value();
        let _ = version.value();
        let mut level = ecl;
        if boostecl && datausedbits <= get_num_data_codewords(version, QrCodeEcc::Medium) * 8 {
            level = QrCodeEcc::Medium;
        }
        if boostecl && datausedbits <= get_num_data_codewords(version, QrCodeEcc::Quartile) * 8 {
            level = QrCodeEcc::Quartile;
        }
        if boostecl && datausedbits <= get_num_data_codewords(version, QrCodeEcc::High) * 8 {
            level = QrCodeEcc::High;
        }
        let datacapacitybits = get_num_data_codewords(version, level) * 8;
        let bb = Self::write_segments(segs, version, datausedbits);
        let data = Self::pad_to_capacity(bb, datacapacitybits);
        let n = datacapacitybits / 8;
        *outbuffer = data;
        proof {
            crate::segment::lemma_total_len_monotone(segs@, v, 0, segs@.len() as int);
            assert(segs@.take(segs@.len() as int) =~= segs@);
            assert(segs@.take(0) =~= Seq::<QrSegment>::empty());
        }
        assert(segs_total_len(segs@, v) == datausedbits);
        assert(level == boosted_level(ecl, v, datausedbits as int, boostecl));
        assert(n == data_codewords(v, level));
        Ok((n, level, version))
    }

    /// Encodes a text: in numeric mode where it holds only digits, else in alphanumeric mode
    /// where its characters allow, else in byte mode, the first whose data fits; no segment
    /// at all for an empty text.
    pub fn encode_text(
        text: &str,
        ecl: QrCodeEcc,
        minversion: Version,
        maxversion: Version,
        mask: Option<Mask>,
        boostecl: bool,
    ) -> (r: Result<QrCode, DataTooLong>)
        requires
            minversion.spec_value() <= maxversion.spec_value(),
        ensures
            text_encoded(
                r,
                text,
                ecl,
                minversion.spec_value(),
                maxversion.spec_value(),
                mask,
                boostecl,
            ),
    {
        let segs = match build_segments(text) {
            Ok(segs) => segs,
            Err(e) => {
                return Err(e);
            },
        };
        proof {
            if text.spec_bytes().len() == 0 {
                lemma_payload_bits(segs@, None, 0, seq![]);
                assert(text_payload_bits(text) == Seq::<bool>::empty());
            } else {
                let m = text_mode(text).unwrap();
                lemma_payload_bits(segs@, Some(m), text.spec_bytes().len() as int, text_bits(text, m));
            }
        }
        Self::encode_planned(segs.as_slice(), ecl, minversion, maxversion, mask, boostecl)
    }

    /// Encodes binary data in byte mode.
    pub fn encode_binary(
        data: &[u8],
        ecl: QrCodeEcc,
        minversion: Version,
        maxversion: Version,
        mask: Option<Mask>,
        boostecl: bool,
    ) -> (r: Result<QrCode, DataTooLong>)
        requires
            minversion.spec_value() <= maxversion.spec_value(),
        ensures
            !fits_buffer(QrSegmentMode::Byte, data@.len() as int) ==> r == Err::<
                QrCode,
                DataTooLong,
            >(DataTooLong::SegmentTooLong),
            fits_buffer(QrSegmentMode::Byte, data@.len() as int) ==> encoded_as(
                r,
                Some(QrSegmentMode::Byte),
                data@.len() as int,
                bytes_bits(data@),
                ecl,
                minversion.spec_value(),
                maxversion.spec_value(),
                mask,
                boostecl,
            ),
    {
        let limit = Version::new(40).buffer_len();
        match QrSegment::calc_buffer_size(QrSegmentMode::Byte, data.len()) {
            Some(n) => {
                if n > limit {
                    return Err(DataTooLong::SegmentTooLong);
                }
            },
            None => {
                return Err(DataTooLong::SegmentTooLong);
            },
        }
        let seg = QrSegment::make_bytes(data);
        let mut segs: Vec<QrSegment> = Vec::new();
        segs.push(seg);
        proof {
            lemma_payload_bits(segs@, Some(QrSegmentMode::Byte), data@.len() as int, bytes_bits(data@));
        }
        Self::encode_planned(segs.as_slice(), ecl, minversion, maxversion, mask, boostecl)
    }

    fn encode_planned(
        segs: &[QrSegment],
        ecl: QrCodeEcc,
        minversion: Version,
        maxversion: Version,
        mask: Option<Mask>,
        boostecl: bool,
    ) -> (r: Result<QrCode, DataTooLong>)
        requires
            minversion.spec_value() <= maxversion.spec_value(),
            forall|j: int| 0 <= j < segs@.len() ==> (#[trigger] segs@[j]).wf(),
        ensures
            forall|m: Option<QrSegmentMode>, n: int, bits: Seq<bool>|
                (forall|w: int| #[trigger] total_bits(segs@, w) == payload_bits(m, n, bits.len() as int, w))
                    && (forall|w: int| #[trigger] segs_stream(segs@, w) == payload_stream(m, n, bits, w))
                    ==> encoded_as(
                    r,
                    m,
                    n,
                    bits,
                    ecl,
                    minversion.spec_value(),
                    maxversion.spec_value(),
                    mask,
                    boostecl,
                ),
    {
        let mut outbuffer: Vec<u8> = Vec::new();
        match Self::encode_segments_to_codewords(
            segs,
            &mut outbuffer,
            ecl,
            minversion,
            maxversion,
            boostecl,
        ) {
            Ok((len, level, version)) => {
                let q = Self::encode_codewords(outbuffer.as_slice(), level, version, mask);
                proof {
                    let v = version.spec_value();
                    assert forall|m: Option<QrSegmentMode>, n: int, bits: Seq<bool>|
                        (forall|w: int| #[trigger] total_bits(segs@, w) == payload_bits(m, n, bits.len() as int, w))
                            && (forall|w: int| #[trigger] segs_stream(segs@, w) == payload_stream(m, n, bits, w))
                            implies encoded_as(
                        Ok::<QrCode, DataTooLong>(q),
                        m,
                        n,
                        bits,
                        ecl,
                        minversion.spec_value(),
                        maxversion.spec_value(),
                        mask,
                        boostecl,
                    ) by {
                        let nbits = bits.len() as int;
                        assert(total_bits(segs@, v) == payload_bits(m, n, nbits, v));
                        assert(segs_stream(segs@, v) == payload_stream(m, n, bits, v));
                        crate::segment::lemma_total_len_monotone(segs@, v, 0, segs@.len() as int);
                        assert(segs@.take(segs@.len() as int) =~= segs@);
                        assert(segs@.take(0) =~= Seq::<QrSegment>::empty());
                        assert forall|w: int|
                            minversion.spec_value() <= w < v implies !payload_fits(
                            m,
                            n,
                            nbits,
                            w,
                            ecl,
                        ) by {
                            assert(total_bits(segs@, w) == payload_bits(m, n, nbits, w));
                            assert(!segs_fit(segs@, w, ecl));
                        }
                        let cw = outbuffer@;
                        assert(symbol_grid(cw, v, q.spec_ecl(), mask) == q.grid());
                    }
                }
                Ok(q)
            },
            Err(e) => {
                proof {
                    assert forall|m: Option<QrSegmentMode>, n: int, bits: Seq<bool>|
                        (forall|w: int| #[trigger] total_bits(segs@, w) == payload_bits(m, n, bits.len() as int, w))
                            && (forall|w: int| #[trigger] segs_stream(segs@, w) == payload_stream(m, n, bits, w))
                            implies encoded_as(
                        Err::<QrCode, DataTooLong>(e),
                        m,
                        n,
                        bits,
                        ecl,
                        minversion.spec_value(),
                        maxversion.spec_value(),
                        mask,
                        boostecl,
                    ) by {
                        let nbits = bits.len() as int;
                        assert(total_bits(segs@, maxversion.spec_value()) == payload_bits(
                            m,
                            n,
                            nbits,
                            maxversion.spec_value(),
                        ));
                        assert forall|w: int|
                            minversion.spec_value() <= w <= maxversion.spec_value() implies !payload_fits(
                            m,
                            n,
                            nbits,
                            w,
                            ecl,
                        ) by {
                            assert(total_bits(segs@, w) == payload_bits(m, n, nbits, w));
                            assert(!segs_fit(segs@, w, ecl));
                        }
                    }
                }
                Err(e)
            },
        }
    }

    /// Makes the symbol of version `version` from its data codewords: adds the error
    /// correction codewords, draws the function patterns and the codewords, and applies mask
    /// `msk`, or where `msk` is `None` the first of the eight masks with the lowest penalty
    /// score, with its format information.
    pub fn encode_codewords(
        datacodewords: &[u8],
        ecl: QrCodeEcc,
        version: Version,
        msk: Option<Mask>,
    ) -> (r: QrCode)
        requires
            datacodewords@.len() == data_codewords(version.spec_value(), ecl),
        ensures
            r.wf(),
            r.spec_version() == version.spec_value(),
            r.grid() == symbol_grid(datacodewords@, version.spec_value(), ecl, msk),
            r.spec_ecl() == ecl,
            0 <= r.spec_mask() < 8,
            msk matches Some(m) ==> r.spec_mask() == m.spec_value(),
            r.grid() == masked_grid(
                unmasked_grid(r.grid(), version.spec_value(), r.spec_mask()),
                version.spec_value(),
                ecl,
                r.spec_mask(),
            ),
            msk is None ==> forall|m2: int|
                0 <= m2 < 8 ==> penalty_score(r) <= grid_penalty(
                    #[trigger] masked_grid(
                        unmasked_grid(r.grid(), version.spec_value(), r.spec_mask()),
                        version.spec_value(),
                        ecl,
                        m2,
                    ),
                    r.spec_size(),
                ),
            msk is None ==> forall|m2: int|
                0 <= m2 < r.spec_mask() ==> penalty_score(r) < grid_penalty(
                    #[trigger] masked_grid(
                        unmasked_grid(r.grid(), version.spec_value(), r.spec_mask()),
                        version.spec_value(),
                        ecl,
                        m2,
                    ),
                    r.spec_size(),
                ),
    {
        let ghost v = version.spec_value();
        let allcodewords = add_ecc_and_interleave(datacodewords, version, ecl);
        let mut result = QrCode::function_modules_marked(version);
        let ghost marked = result;
        result.draw_codewords(allcodewords.as_slice());
        result.draw_light_function_modules();
        let funcmods = QrCode::function_modules_marked(version);
        let ghost base = result.grid();
        let ghost size = result.spec_size();
        proof {
            assert(marked.grid() =~= function_grid(v));
            assert(allcodewords@ =~= all_codewords(datacodewords@, v, ecl));
            assert(base =~= base_grid(datacodewords@, v, ecl));
        }
        let chosen: Mask = match msk {
            Some(m) => m,
            None => {
                let mut best: u8 = 0;
                let mut minpenalty: i32 = i32::MAX;
                let mut i: u8 = 0;
                while i < 8
                    invariant
                        result.wf(),
                        funcmods.wf(),
                        result.size == funcmods.size,
                        result.spec_version() == v,
                        result.spec_size() == size,
                        size == 4 * v + 17,
                        forall|a: int, b: int|
                            0 <= a < size && 0 <= b < size ==> #[trigger] funcmods.module(a, b)
                                == is_function_module(v, a, b),
                        forall|a: int, b: int|
                            0 <= a < size && 0 <= b < size && format_cell(
                                size,
                                format_word(ecl, 0),
                                a,
                                b,
                            ) is None ==> #[trigger] result.module(a, b) == base(a, b),
                        i <= 8,
                        i == 0 ==> minpenalty == i32::MAX,
                        i > 0 ==> best < i && minpenalty == grid_penalty(
                            masked_grid(base, v, ecl, best as int),
                            size,
                        ),
                        i > 0 ==> best as int == best_mask_upto(base, v, ecl, i as nat),
                        forall|j: int|
                            0 <= j < i ==> minpenalty <= grid_penalty(
                                #[trigger] masked_grid(base, v, ecl, j),
                                size,
                            ),
                        forall|j: int|
                            0 <= j < best ==> minpenalty < grid_penalty(
                                #[trigger] masked_grid(base, v, ecl, j),
                                size,
                            ),
                    decreases 8 - i,
                {
                    let m = Mask::new(i);
                    result.apply_mask(&funcmods, m);
                    result.draw_format_bits(ecl, m);
                    proof {
                        Self::lemma_candidate_grid(result, base, v, ecl, i as int);
                    }
                    let penalty = result.get_penalty_score();
                    if penalty < minpenalty {
                        best = i;
                        minpenalty = penalty;
                    }
                    result.apply_mask(&funcmods, m);
                    proof {
                        assert forall|a: int, b: int|
                            0 <= a < size && 0 <= b < size && format_cell(
                                size,
                                format_word(ecl, 0),
                                a,
                                b,
                            ) is None implies #[trigger] result.module(a, b) == base(a, b) by {
                            Self::lemma_format_cells_same(size, ecl, 0, i as int, a, b);
                        }
                    }
                    i += 1;
                }
                Mask::new(best)
            },
        };
        let _ = chosen.value();
        result.apply_mask(&funcmods, chosen);
        result.draw_format_bits(ecl, chosen);
        proof {
            let m = chosen.spec_value();
            Self::lemma_candidate_grid(result, base, v, ecl, m);
            assert(m == chosen_mask(base, v, ecl, msk));
            Self::lemma_decode_format(result, ecl, m);
            assert forall|m2: int| 0 <= m2 < 8 implies #[trigger] masked_grid(
                unmasked_grid(result.grid(), v, m),
                v,
                ecl,
                m2,
            ) == masked_grid(base, v, ecl, m2) by {
                assert forall|x: int, y: int| #[trigger] masked_grid(
                    unmasked_grid(result.grid(), v, m),
                    v,
                    ecl,
                    m2,
                )(x, y) == masked_grid(base, v, ecl, m2)(x, y) by {
                    if 0 <= x < size && 0 <= y < size {
                        Self::lemma_format_cells_same(size, ecl, m, m2, x, y);
                    }
                }
                assert(masked_grid(unmasked_grid(result.grid(), v, m), v, ecl, m2)
                    =~= masked_grid(base, v, ecl, m2));
            }
        }
        result
    }

    /// Whether a module is a format module does not depend on the format word.
    proof fn lemma_format_cells_same(size: int, e: QrCodeEcc, m1: int, m2: int, x: int, y: int)
        ensures
            (format_cell(size, format_word(e, m1), x, y) is None) == (format_cell(
                size,
                format_word(e, m2),
                x,
                y,
            ) is None),
    {
    }

    /// After mask `m` and its format information, the symbol is the candidate grid of `m`.
    proof fn lemma_candidate_grid(q: QrCode, base: spec_fn(int, int) -> bool, v: int, e: QrCodeEcc, m: int)
        requires
            q.wf(),
            q.spec_size() == 4 * v + 17,
            forall|a: int, b: int|
                0 <= a < q.size && 0 <= b < q.size ==> #[trigger] q.module(a, b) == match format_cell(
                    q.spec_size(),
                    format_word(e, m),
                    a,
                    b,
                ) {
                    Some(val) => val,
                    None => base(a, b) != (!is_function_module(v, a, b) && mask_inverts(m, a, b)),
                },
        ensures
            q.grid() == masked_grid(base, v, e, m),
    {
        assert(q.grid() =~= masked_grid(base, v, e, m));
    }

    /// The format information of level `e` and mask `m` decodes to `e` and `m`.
    proof fn lemma_decode_format(q: QrCode, e: QrCodeEcc, m: int)
        requires
            q.wf(),
            0 <= m < 8,
            forall|a: int, b: int|
                0 <= a < q.size && 0 <= b < q.size ==> #[trigger] q.module(a, b) == match format_cell(
                    q.spec_size(),
                    format_word(e, m),
                    a,
                    b,
                ) {
                    Some(val) => val,
                    None => q.module(a, b),
                },
        ensures
            q.spec_mask() == m,
            q.spec_ecl() == e,
    {
        lemma_format_data_bits(e, m);
        assert(q.module(0, 8) == (format_cell(q.spec_size(), format_word(e, m), 0, 8).unwrap()));
        assert(q.module(1, 8) == (format_cell(q.spec_size(), format_word(e, m), 1, 8).unwrap()));
        assert(q.module(2, 8) == (format_cell(q.spec_size(), format_word(e, m), 2, 8).unwrap()));
        assert(q.module(3, 8) == (format_cell(q.spec_size(), format_word(e, m), 3, 8).unwrap()));
        assert(q.module(4, 8) == (format_cell(q.spec_size(), format_word(e, m), 4, 8).unwrap()));
    }

    /// Returns whether the module at `(x, y)` is dark; `false` outside the symbol.
    pub fn get_module(&self, x: i32, y: i32) -> (r: bool)
        requires
            self.wf(),
        ensures
            r == self.grid()(x as int, y as int),
            !(0 <= x < self.spec_size() && 0 <= y < self.spec_size()) ==> !r,
    {
        let size = self.size as i32;
        0 <= x && x < size && 0 <= y && y < size && self.get_module_bounded(x as u8, y as u8)
    }

    /// Returns the error correction level that the format information of this symbol names.
    pub fn error_correction_level(&self) -> (r: QrCodeEcc)
        requires
            self.wf(),
        ensures
            r == self.spec_ecl(),
    {
        // The format bits are stored XOR 0x5412: its bits 14 and 13 are 1 and 0.
        let code: u8 = (if self.get_module_bounded(0, 8) {
            0
        } else {
            2
        }) + (if self.get_module_bounded(1, 8) {
            1
        } else {
            0
        });
        if code == 0 {
            QrCodeEcc::Medium
        } else if code == 1 {
            QrCodeEcc::Low
        } else if code == 2 {
            QrCodeEcc::High
        } else {
            QrCodeEcc::Quartile
        }
    }

    /// Returns the mask that the format information of this symbol names.
    pub fn mask(&self) -> (r: Mask)
        requires
            self.wf(),
        ensures
            r.spec_value() == self.spec_mask(),
    {
        // The format bits are stored XOR 0x5412: its bits 12, 11 and 10 are 1, 0 and 1.
        let m: u8 = (if self.get_module_bounded(2, 8) {
            0
        } else {
            4
        }) + (if self.get_module_bounded(3, 8) {
            2
        } else {
            0
        }) + (if self.get_module_bounded(4, 8) {
            0
        } else {
            1
        });
        Mask::new(m)
    }

    /// Finds the smallest version in `minversion..=maxversion` that holds the segments at level
    /// `ecl`, with the number of bits that they take there.
    fn find_version(
        segs: &[QrSegment],
        ecl: QrCodeEcc,
        minversion: Version,
        maxversion: Version,
    ) -> (r: Result<(Version, usize), DataTooLong>)
        requires
            minversion.spec_value() <= maxversion.spec_value(),
            forall|j: int| 0 <= j < segs@.len() ==> (#[trigger] segs@[j]).wf(),
        ensures
            match r {
                Ok((ver, used)) => {
                    let v = ver.spec_value();
                    &&& minversion.spec_value() <= v <= maxversion.spec_value()
                    &&& segs_fit(segs@, v, ecl)
                    &&& total_bits(segs@, v) == Some(used)
                    &&& forall|w: int|
                        minversion.spec_value() <= w < v ==> !segs_fit(segs@, w, ecl)
                },
                Err(e) => {
                    &&& forall|w: int|
                        minversion.spec_value() <= w <= maxversion.spec_value() ==> !segs_fit(
                            segs@,
                            w,
                            ecl,
                        )
                    &&& e == overflow_error(segs@, ecl, maxversion.spec_value())
                },
            },
    {
        let mut version = minversion;
        let maxv = maxversion.value();
        let minv = minversion.value();
        loop
            invariant
                minv as int == minversion.spec_value(),
                maxv as int == maxversion.spec_value(),
                maxv <= 40,
                minv <= version.spec_value() <= maxv,
                forall|w: int| minv <= w < version.spec_value() ==> !segs_fit(segs@, w, ecl),
                forall|j: int| 0 <= j < segs@.len() ==> (#[trigger] segs@[j]).wf(),
            decreases maxv - version.spec_value(),
        {
            let datacapacitybits = get_num_data_codewords(version, ecl) * 8;
            let dataused = QrSegment::get_total_bits(segs, version);
            match dataused {
                Some(n) => {
                    if n <= datacapacitybits {
                        return Ok((version, n));
                    }
                },
                None => {},
            }
            if version.value() >= maxv {
                return Err(
                    match dataused {
                        None => DataTooLong::SegmentTooLong,
                        Some(n) => DataTooLong::DataOverCapacity(n, datacapacitybits),
                    },
                );
            }
            version = Version::new(version.value() + 1);
        }
    }

    /// Writes the segments one after another, each with its mode indicator and character count.
    fn write_segments(segs: &[QrSegment], version: Version, datausedbits: usize) -> (bb:
        BitBuffer)
        requires
            forall|j: int| 0 <= j < segs@.len() ==> (#[trigger] segs@[j]).wf(),
            total_bits(segs@, version.spec_value()) == Some(datausedbits),
        ensures
            bb.wf(),
            bb@ == segs_stream(segs@, version.spec_value()),
            bb@.len() == datausedbits,
    {
        let ghost v = version.spec_value();
        let _ = version.value();
        let mut bb = BitBuffer::new();
        let mut k: usize = 0;
        proof {
            lemma_stream_len(segs@, v);
        }
        while k < segs.len()
            invariant
                k <= segs@.len(),
                bb.wf(),
                bb@ == segs_stream(segs@.take(k as int), v),
                bb@.len() == segs_total_len(segs@.take(k as int), v),
                segs_total_len(segs@, v) == datausedbits,
                v == version.spec_value(),
                1 <= v <= 40,
                forall|j: int| 0 <= j < segs@.len() ==> (#[trigger] segs@[j]).wf(),
                forall|j: int| 0 <= j < segs@.len() ==> count_fits(#[trigger] segs@[j], v),
            decreases segs@.len() - k,
        {
            let seg = &segs[k];
            proof {
                crate::segment::lemma_total_len_monotone(segs@, v, k + 1, segs@.len() as int);
                assert(segs@.take(segs@.len() as int) =~= segs@);
                assert(segs@.take(k + 1).drop_last() =~= segs@.take(k as int));
                assert(segs@.take(k + 1).last() == segs@[k as int]);
                assert(count_fits(segs@[k as int], v));
                lemma2_to64();
            }
            let ccbits = seg.mode.num_char_count_bits(version);
            let modebits = seg.mode.mode_bits();
            bb.append_bits(modebits, 4);
            proof {
                crate::segment::lemma_count_bits_fit(seg.numchars, ccbits);
            }
            bb.append_bits(seg.numchars as u32, ccbits);
            let ghost header = bb@;
            let mut i: usize = 0;
            while i < seg.bitlength
                invariant
                    seg.wf(),
                    i <= seg.bitlength,
                    bb.wf(),
                    bb@ == header + seg.spec_bits().take(i as int),
                    header.len() + seg.bitlength <= usize::MAX,
                decreases seg.bitlength - i,
            {
                let byte = seg.data[i / 8];
                let shift: u8 = 7 - (i % 8) as u8;
                let bit = ((byte >> shift) & 1) as u32;
                proof {
                    lemma_byte_bit_value(byte, shift);
                    lemma2_to64();
                }
                bb.append_bits(bit, 1);
                i += 1;
                assert(seg.spec_bits().take(i as int) =~= seg.spec_bits().take(i - 1).push(
                    byte_bit(byte, shift as int),
                ));
                assert(low_bits(bit, 1) =~= seq![byte_bit(byte, shift as int)]);
            }
            assert(seg.spec_bits().take(i as int) =~= seg.spec_bits());
            k += 1;
            assert(bb@ =~= segs_stream(segs@.take(k as int), v));
        }
        assert(segs@.take(k as int) =~= segs@);
        bb
    }

    /// Completes the data stream to `cap` bits and returns its bytes.
    fn pad_to_capacity(bb: BitBuffer, cap: usize) -> (r: Vec<u8>)
        requires
            bb.wf(),
            bb@.len() <= cap,
            cap % 8 == 0,
            cap <= 3706 * 8,
        ensures
            r@.len() == cap / 8,
            bytes_bits(r@) == padded_stream(bb@, cap as int),
    {
        let mut bb = bb;
        let ghost stream = bb@;
        let len = bb.len();
        let numzerobits: usize = if cap - len < 4 {
            cap - len
        } else {
            4
        };
        proof {
            vstd::arithmetic::power2::lemma_pow2_pos(numzerobits as nat);
            crate::bits::lemma_low_bits_zero(numzerobits as nat);
        }
        bb.append_bits(0, numzerobits as u8);
        let len = bb.len();
        let numzerobits: usize = (8 - len % 8) % 8;
        proof {
            vstd::arithmetic::power2::lemma_pow2_pos(numzerobits as nat);
            crate::bits::lemma_low_bits_zero(numzerobits as nat);
        }
        bb.append_bits(0, numzerobits as u8);
        let ghost aligned = bb@;
        let mut padbyte: u32 = 0xEC;
        while bb.len() < cap
            invariant
                bb.wf(),
                bb@.len() % 8 == 0,
                bb@.len() <= cap,
                cap % 8 == 0,
                cap <= 3706 * 8,
                aligned.len() <= bb@.len(),
                aligned.len() % 8 == 0,
                bb@ == aligned + pad_bits((bb@.len() - aligned.len()) / 8),
                padbyte == if ((bb@.len() - aligned.len()) / 8) % 2 == 0 {
                    0xECu32
                } else {
                    0x11u32
                },
            decreases cap - bb@.len(),
        {
            proof {
                lemma2_to64();
            }
            let ghost before = bb@;
            bb.append_bits(padbyte, 8);
            proof {
                crate::bits::lemma_pad_byte_bits(padbyte);
                assert(bb@ =~= aligned + pad_bits((bb@.len() - aligned.len()) / 8));
            }
            padbyte = if padbyte == 0xEC {
                0x11
            } else {
                0xEC
            };
        }
        proof {
            assert(bytes_bits(bb.data@).len() == bb@.len());
            assert(bytes_bits(bb.data@) =~= bb@);
            assert(bb@ =~= padded_stream(stream, cap as int));
        }
        bb.data
    }
}

/// Returns the segments of a text: none for an empty text, else one segment in the first of
/// numeric, alphanumeric and byte mode that can hold the text and whose data fits in the
/// bytes of the largest symbol; `SegmentTooLong` where none fits.
#[verifier::rlimit(40)]
pub fn build_segments(text: &str) -> (r: Result<Vec<QrSegment>, DataTooLong>)
    ensures
        match r {
            Ok(segs) => if text.spec_bytes().len() == 0 {
                segs@.len() == 0
            } else {
                &&& text_mode(text) is Some
                &&& segs@.len() == 1
                &&& holds_text(segs@[0], text, text_mode(text).unwrap())
            },
            Err(e) => {
                &&& text.spec_bytes().len() > 0
                &&& text_mode(text) is None
                &&& e == DataTooLong::SegmentTooLong
            },
        },
{
    let mut segs: Vec<QrSegment> = Vec::new();
    let bytes = text.as_bytes();
    let textlen = bytes.len();
    if textlen == 0 {
        return Ok(segs);
    }
    let limit = Version::new(40).buffer_len();
    let numeric = QrSegment::is_numeric(text);
    let alnum = QrSegment::is_alphanumeric(text);
    if numeric || alnum {
        assert(vstd::string::is_ascii(text));
        proof {
            vstd::string::is_ascii_spec_bytes(text);
        }
        assert(textlen == text@.len());
    }
    let seg = if numeric && fits_limit(QrSegmentMode::Numeric, textlen, limit) {
        QrSegment::make_numeric(text)
    } else if alnum && fits_limit(QrSegmentMode::Alphanumeric, textlen, limit) {
        QrSegment::make_alphanumeric(text)
    } else if fits_limit(QrSegmentMode::Byte, textlen, limit) {
        QrSegment::make_bytes(bytes)
    } else {
        return Err(DataTooLong::SegmentTooLong);
    };
    segs.push(seg);
    Ok(segs)
}

fn fits_limit(mode: QrSegmentMode, numchars: usize, limit: usize) -> (r: bool)
    requires
        mode != QrSegmentMode::Eci,
        limit == buffer_len_of(40),
    ensures
        r == fits_buffer(mode, numchars as int),
{
    match QrSegment::calc_buffer_size(mode, numchars) {
        Some(x) => x <= limit,
        None => false,
    }
}

} // verus!
