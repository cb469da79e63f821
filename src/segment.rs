use vstd::prelude::*;
use vstd::arithmetic::power2::{pow2, lemma2_to64};
use crate::bits::{BitBuffer, bytes_bits, low_bits};
use crate::params::Version;

verus! {

/// The kind of data that a segment holds.
#[derive(Clone, Copy, PartialEq, Eq, Structural, Debug)]
pub enum QrSegmentMode {
    Numeric,
    Alphanumeric,
    Byte,
    Kanji,
    Eci,
}

/// The four-bit mode indicator written before a segment.
pub open spec fn mode_indicator(m: QrSegmentMode) -> u32 {
    match m {
        QrSegmentMode::Numeric => 0x1,
        QrSegmentMode::Alphanumeric => 0x2,
        QrSegmentMode::Byte => 0x4,
        QrSegmentMode::Kanji => 0x8,
        QrSegmentMode::Eci => 0x7,
    }
}

/// Width of the character count field of mode `m` in a symbol of version `ver`; versions
/// 1-9, 10-26 and 27-40 form the three width classes.
pub open spec fn char_count_bits(m: QrSegmentMode, ver: int) -> int {
    let widths = match m {
        QrSegmentMode::Numeric => (10int, 12int, 14int),
        QrSegmentMode::Alphanumeric => (9, 11, 13),
        QrSegmentMode::Byte => (8, 16, 16),
        QrSegmentMode::Kanji => (8, 10, 12),
        QrSegmentMode::Eci => (0, 0, 0),
    };
    if ver <= 9 {
        widths.0
    } else if ver <= 26 {
        widths.1
    } else {
        widths.2
    }
}

impl QrSegmentMode {
    /// Returns the mode indicator of this mode.
    pub(crate) fn mode_bits(self) -> (r: u32)
        ensures
            r == mode_indicator(self),
            r < 16,
    {
        match self {
            QrSegmentMode::Numeric => 0x1,
            QrSegmentMode::Alphanumeric => 0x2,
            QrSegmentMode::Byte => 0x4,
            QrSegmentMode::Kanji => 0x8,
            QrSegmentMode::Eci => 0x7,
        }
    }

    /// Returns the width of the character count field of this mode at version `ver`.
    pub(crate) fn num_char_count_bits(self, ver: Version) -> (r: u8)
        ensures
            r as int == char_count_bits(self, ver.spec_value()),
            r <= 16,
    {
        let v = ver.value();
        let widths: (u8, u8, u8) = match self {
            QrSegmentMode::Numeric => (10, 12, 14),
            QrSegmentMode::Alphanumeric => (9, 11, 13),
            QrSegmentMode::Byte => (8, 16, 16),
            QrSegmentMode::Kanji => (8, 10, 12),
            QrSegmentMode::Eci => (0, 0, 0),
        };
        if v <= 9 {
            widths.0
        } else if v <= 26 {
            widths.1
        } else {
            widths.2
        }
    }
}

/// `c` is a decimal digit.
pub open spec fn is_digit(c: char) -> bool {
    '0' <= c && c <= '9'
}

/// The value of the digit `c`.
pub open spec fn digit_value(c: char) -> int {
    c as int - '0' as int
}

/// Position of `c` in the alphanumeric alphabet `0-9 A-Z space $ % * + - . / :`, or -1.
pub open spec fn alnum_index(c: char) -> int {
    if '0' <= c && c <= '9' {
        c as int - '0' as int
    } else if 'A' <= c && c <= 'Z' {
        c as int - 'A' as int + 10
    } else if c == ' ' {
        36
    } else if c == '$' {
        37
    } else if c == '%' {
        38
    } else if c == '*' {
        39
    } else if c == '+' {
        40
    } else if c == '-' {
        41
    } else if c == '.' {
        42
    } else if c == '/' {
        43
    } else if c == ':' {
        44
    } else {
        -1
    }
}

/// Every character of `s` is a decimal digit.
pub open spec fn is_numeric_text(s: Seq<char>) -> bool {
    forall|i: int| 0 <= i < s.len() ==> is_digit(#[trigger] s[i])
}

/// Every character of `s` is in the alphanumeric alphabet.
pub open spec fn is_alphanumeric_text(s: Seq<char>) -> bool {
    forall|i: int| 0 <= i < s.len() ==> alnum_index(#[trigger] s[i]) >= 0
}

/// The bits of the first `n` complete groups of three digits of `s`, ten bits each.
pub open spec fn numeric_groups(s: Seq<char>, n: nat) -> Seq<bool>
    decreases n,
{
    if n == 0 {
        seq![]
    } else {
        let k = 3 * n - 3;
        numeric_groups(s, (n - 1) as nat) + low_bits(
            (100 * digit_value(s[k]) + 10 * digit_value(s[k + 1]) + digit_value(s[k + 2])) as u32,
            10,
        )
    }
}

/// The bits of a digit string in numeric mode: groups of three digits in ten bits, a final
/// group of one or two digits in four or seven bits.
pub open spec fn numeric_bits(s: Seq<char>) -> Seq<bool> {
    let n = s.len();
    numeric_groups(s, n / 3) + if n % 3 == 0 {
        seq![]
    } else if n % 3 == 1 {
        low_bits(digit_value(s[n - 1]) as u32, 4)
    } else {
        low_bits((10 * digit_value(s[n - 2]) + digit_value(s[n - 1])) as u32, 7)
    }
}

/// The bits of the first `n` pairs of characters of `s` in alphanumeric mode, eleven bits each.
pub open spec fn alnum_pairs(s: Seq<char>, n: nat) -> Seq<bool>
    decreases n,
{
    if n == 0 {
        seq![]
    } else {
        let k = 2 * n - 2;
        alnum_pairs(s, (n - 1) as nat) + low_bits(
            (45 * alnum_index(s[k]) + alnum_index(s[k + 1])) as u32,
            11,
        )
    }
}

/// The bits of a text in alphanumeric mode: pairs in eleven bits, a final odd character in six.
pub open spec fn alnum_bits(s: Seq<char>) -> Seq<bool> {
    let n = s.len();
    alnum_pairs(s, n / 2) + if n % 2 == 0 {
        seq![]
    } else {
        low_bits(alnum_index(s[n - 1]) as u32, 6)
    }
}

/// The bits of an ECI designator: one, two or three bytes, told apart by a prefix.
pub open spec fn eci_bits(v: u32) -> Seq<bool> {
    if v < 128 {
        low_bits(v, 8)
    } else if v < 16384 {
        low_bits(2, 2) + low_bits(v, 14)
    } else {
        low_bits(6, 3) + low_bits(v, 21)
    }
}

/// `numer / denom` of `n`, rounded up, where the computation fits in `usize`.
pub open spec fn mul_frac_ceil(n: int, numer: int, denom: int) -> Option<int> {
    if n * numer + denom - 1 <= usize::MAX {
        Some((n * numer + denom - 1) / denom)
    } else {
        None
    }
}

/// The number of data bits of a segment of mode `m` with `n` characters.
pub open spec fn segment_bit_length(m: QrSegmentMode, n: int) -> Option<int> {
    match m {
        QrSegmentMode::Numeric => mul_frac_ceil(n, 10, 3),
        QrSegmentMode::Alphanumeric => mul_frac_ceil(n, 11, 2),
        QrSegmentMode::Byte => mul_frac_ceil(n, 8, 1),
        QrSegmentMode::Kanji => mul_frac_ceil(n, 13, 1),
        QrSegmentMode::Eci => Some(24),
    }
}

/// A segment of data: a mode, a character count and the packed data bits.
pub struct QrSegment {
    pub(crate) mode: QrSegmentMode,
    pub(crate) numchars: usize,
    pub(crate) data: Vec<u8>,
    pub(crate) bitlength: usize,
}

impl QrSegment {
    /// The data bits are held in the bytes.
    pub open(crate) spec fn wf(&self) -> bool {
        self.bitlength <= self.data@.len() * 8
    }

    /// The mode of the segment.
    pub open(crate) spec fn spec_mode(&self) -> QrSegmentMode {
        self.mode
    }

    /// The character count of the segment.
    pub open(crate) spec fn spec_num_chars(&self) -> int {
        self.numchars as int
    }

    /// The data bits of the segment.
    pub open(crate) spec fn spec_bits(&self) -> Seq<bool> {
        bytes_bits(self.data@).take(self.bitlength as int)
    }

    /// Makes a byte mode segment: eight bits for each byte.
    pub fn make_bytes(data: &[u8]) -> (r: QrSegment)
        requires
            data@.len() * 8 <= usize::MAX,
        ensures
            r.wf(),
            r.spec_mode() == QrSegmentMode::Byte,
            r.spec_num_chars() == data@.len(),
            r.spec_bits() == bytes_bits(data@),
    {
        let mut v: Vec<u8> = Vec::new();
        let mut i: usize = 0;
        while i < data.len()
            invariant
                i <= data@.len(),
                v@ == data@.take(i as int),
            decreases data@.len() - i,
        {
            v.push(data[i]);
            i += 1;
            assert(v@ =~= data@.take(i as int));
        }
        assert(v@ =~= data@);
        let n = data.len();
        let r = QrSegment::new(QrSegmentMode::Byte, n, v, n * 8);
        assert(r.spec_bits() =~= bytes_bits(data@));
        r
    }

    /// Makes a numeric mode segment of a string of decimal digits.
    pub fn make_numeric(text: &str) -> (r: QrSegment)
        requires
            is_numeric_text(text@),
            segment_bit_length(QrSegmentMode::Numeric, text@.len() as int) is Some,
        ensures
            r.wf(),
            r.spec_mode() == QrSegmentMode::Numeric,
            r.spec_num_chars() == text@.len(),
            r.spec_bits() == numeric_bits(text@),
    {
        let ghost s = text@;
        let bytes = text.as_bytes();
        proof {
            vstd::string::is_ascii_spec_bytes(text);
        }
        assert(bytes@ =~= Seq::new(s.len(), |i: int| s[i] as u8));
        let mut bb = BitBuffer::new();
        let mut accumdata: u32 = 0;
        let mut accumcount: u8 = 0;
        let mut i: usize = 0;
        while i < bytes.len()
            invariant
                bytes@ =~= Seq::new(s.len(), |i: int| s[i] as u8),
                is_numeric_text(s),
                s.len() * 10 + 2 <= usize::MAX,
                i <= s.len(),
                bb.wf(),
                bb@ == numeric_groups(s, (i / 3) as nat),
                bb@.len() == 10 * (i / 3),
                accumcount as int == i % 3,
                accumcount == 0 ==> accumdata == 0,
                accumcount == 1 ==> accumdata == digit_value(s[i - 1]),
                accumcount == 2 ==> accumdata == 10 * digit_value(s[i - 2]) + digit_value(
                    s[i - 1],
                ),
            decreases s.len() - i,
        {
            let b = bytes[i];
            assert(is_digit(s[i as int]));
            accumdata = accumdata * 10 + (b - 48u8) as u32;
            accumcount += 1;
            if accumcount == 3 {
                let ghost before = bb@;
                proof {
                    lemma2_to64();
                }
                bb.append_bits(accumdata, 10);
                assert(numeric_groups(s, ((i + 1) / 3) as nat) == before + low_bits(accumdata, 10));
                accumdata = 0;
                accumcount = 0;
            }
            i += 1;
        }
        let n = bytes.len();
        if accumcount > 0 {
            proof {
                lemma2_to64();
            }
            bb.append_bits(accumdata, accumcount * 3 + 1);
        }
        assert(bb@ =~= numeric_bits(s));
        let bitlength = bb.len();
        let data = bb.data;
        QrSegment::new(QrSegmentMode::Numeric, n, data, bitlength)
    }

    /// Makes an alphanumeric mode segment of a text over the 45-character alphabet.
    pub fn make_alphanumeric(text: &str) -> (r: QrSegment)
        requires
            is_alphanumeric_text(text@),
            segment_bit_length(QrSegmentMode::Alphanumeric, text@.len() as int) is Some,
        ensures
            r.wf(),
            r.spec_mode() == QrSegmentMode::Alphanumeric,
            r.spec_num_chars() == text@.len(),
            r.spec_bits() == alnum_bits(text@),
    {
        let ghost s = text@;
        let bytes = text.as_bytes();
        proof {
            vstd::string::is_ascii_spec_bytes(text);
        }
        assert(bytes@ =~= Seq::new(s.len(), |i: int| s[i] as u8));
        let mut bb = BitBuffer::new();
        let mut accumdata: u32 = 0;
        let mut accumcount: u8 = 0;
        let mut i: usize = 0;
        while i < bytes.len()
            invariant
                bytes@ =~= Seq::new(s.len(), |i: int| s[i] as u8),
                is_alphanumeric_text(s),
                s.len() * 11 + 1 <= usize::MAX,
                i <= s.len(),
                bb.wf(),
                bb@ == alnum_pairs(s, (i / 2) as nat),
                bb@.len() == 11 * (i / 2),
                accumcount as int == i % 2,
                accumcount == 0 ==> accumdata == 0,
                accumcount == 1 ==> accumdata == alnum_index(s[i - 1]),
            decreases s.len() - i,
        {
            let b = bytes[i];
            assert(alnum_index(s[i as int]) >= 0);
            let code = alphanumeric_code(b);
            accumdata = accumdata * 45 + code;
            accumcount += 1;
            if accumcount == 2 {
                let ghost before = bb@;
                proof {
                    lemma2_to64();
                }
                bb.append_bits(accumdata, 11);
                assert(alnum_pairs(s, ((i + 1) / 2) as nat) == before + low_bits(accumdata, 11));
                accumdata = 0;
                accumcount = 0;
            }
            i += 1;
        }
        let n = bytes.len();
        if accumcount > 0 {
            proof {
                lemma2_to64();
            }
            bb.append_bits(accumdata, 6);
        }
        assert(bb@ =~= alnum_bits(s));
        let bitlength = bb.len();
        let data = bb.data;
        QrSegment::new(QrSegmentMode::Alphanumeric, n, data, bitlength)
    }

    /// Makes a segment holding an ECI designator, which must be below 1,000,000.
    pub fn make_eci(assignval: u32) -> (r: QrSegment)
        requires
            assignval < 1_000_000,
        ensures
            r.wf(),
            r.spec_mode() == QrSegmentMode::Eci,
            r.spec_num_chars() == 0,
            r.spec_bits() == eci_bits(assignval),
    {
        let mut bb = BitBuffer::new();
        proof {
            lemma2_to64();
        }
        if assignval < 128 {
            bb.append_bits(assignval, 8);
        } else if assignval < 16384 {
            bb.append_bits(2, 2);
            bb.append_bits(assignval, 14);
        } else {
            bb.append_bits(6, 3);
            bb.append_bits(assignval, 21);
        }
        let bitlength = bb.len();
        let data = bb.data;
        QrSegment::new(QrSegmentMode::Eci, 0, data, bitlength)
    }

    /// Makes a segment from its parts; the first `bitlength` bits of `data` are its data bits.
    pub fn new(mode: QrSegmentMode, numchars: usize, data: Vec<u8>, bitlength: usize) -> (r:
        QrSegment)
        requires
            bitlength <= data@.len() * 8,
        ensures
            r.wf(),
            r.spec_mode() == mode,
            r.spec_num_chars() == numchars,
            r.spec_bits() == bytes_bits(data@).take(bitlength as int),
    {
        QrSegment { mode, numchars, data, bitlength }
    }

    /// Returns the mode of this segment.
    pub fn mode(&self) -> (r: QrSegmentMode)
        ensures
            r == self.spec_mode(),
    {
        self.mode
    }

    /// Returns the character count of this segment.
    pub fn num_chars(&self) -> (r: usize)
        ensures
            r == self.spec_num_chars(),
    {
        self.numchars
    }

    /// Returns the number of bytes that hold the data bits of a segment of mode `mode` with
    /// `numchars` characters, or `None` where that number does not fit in `usize`.
    pub fn calc_buffer_size(mode: QrSegmentMode, numchars: usize) -> (r: Option<usize>)
        requires
            mode == QrSegmentMode::Eci ==> numchars == 0,
        ensures
            r == (match segment_bit_length(mode, numchars as int) {
                Some(b) => Some(((b + 7) / 8) as usize),
                None => None::<usize>,
            }),
    {
        match Self::calc_bit_length(mode, numchars) {
            Some(temp) => Some(temp / 8 + if temp % 8 != 0 {
                1
            } else {
                0
            }),
            None => None,
        }
    }

    fn calc_bit_length(mode: QrSegmentMode, numchars: usize) -> (r: Option<usize>)
        requires
            mode == QrSegmentMode::Eci ==> numchars == 0,
        ensures
            r == (match segment_bit_length(mode, numchars as int) {
                Some(b) => Some(b as usize),
                None => None::<usize>,
            }),
            r.is_some() ==> r.unwrap() as int == segment_bit_length(mode, numchars as int).unwrap(),
    {
        match mode {
            QrSegmentMode::Numeric => mul_frac_ceil_exec(numchars, 10, 3),
            QrSegmentMode::Alphanumeric => mul_frac_ceil_exec(numchars, 11, 2),
            QrSegmentMode::Byte => mul_frac_ceil_exec(numchars, 8, 1),
            QrSegmentMode::Kanji => mul_frac_ceil_exec(numchars, 13, 1),
            QrSegmentMode::Eci => Some(24),
        }
    }

    /// Returns the number of bits that the segments take in a symbol of version `version`,
    /// headers included, or `None` where a character count does not fit its field or the
    /// total does not fit in `usize`.
    pub(crate) fn get_total_bits(segs: &[QrSegment], version: Version) -> (r: Option<usize>)
        requires
            forall|j: int| 0 <= j < segs@.len() ==> (#[trigger] segs@[j]).wf(),
        ensures
            r == total_bits(segs@, version.spec_value()),
    {
        let ghost ver = version.spec_value();
        let _ = version.value();
        let mut result: usize = 0;
        let mut i: usize = 0;
        while i < segs.len()
            invariant
                i <= segs@.len(),
                forall|j: int| 0 <= j < i ==> count_fits(#[trigger] segs@[j], ver),
                result as int == segs_total_len(segs@.take(i as int), ver),
                ver == version.spec_value(),
                1 <= ver <= 40,
                forall|j: int| 0 <= j < segs@.len() ==> (#[trigger] segs@[j]).wf(),
            decreases segs@.len() - i,
        {
            let seg = &segs[i];
            let ccbits = seg.mode.num_char_count_bits(version);
            let limit = count_limit(ccbits);
            proof {
                assert(segs@.take(i + 1).drop_last() =~= segs@.take(i as int));
                assert(segs@.take(i + 1).last() == segs@[i as int]);
                assert(segs@[i as int].wf());
            }
            if seg.numchars >= limit {
                assert(!count_fits(segs@[i as int], ver));
                return None;
            }
            if result > usize::MAX - (4 + ccbits as usize) {
                proof {
                    lemma_total_len_monotone(segs@, ver, i + 1, segs@.len() as int);
                    assert(segs@.take(segs@.len() as int) =~= segs@);
                }
                return None;
            }
            result = result + 4 + ccbits as usize;
            if result > usize::MAX - seg.bitlength {
                proof {
                    lemma_total_len_monotone(segs@, ver, i + 1, segs@.len() as int);
                    assert(segs@.take(segs@.len() as int) =~= segs@);
                }
                return None;
            }
            result = result + seg.bitlength;
            i += 1;
        }
        assert(segs@.take(i as int) =~= segs@);
        Some(result)
    }

    /// Returns whether every character of `text` is a decimal digit.
    pub fn is_numeric(text: &str) -> (r: bool)
        ensures
            r == is_numeric_text(text@),
    {
        if !text.is_ascii() {
            assert(!is_numeric_text(text@)) by {
                if is_numeric_text(text@) {
                    assert(vstd::utf8::is_ascii_chars(text@));
                }
            }
            return false;
        }
        let ghost s = text@;
        let bytes = text.as_bytes();
        proof {
            vstd::string::is_ascii_spec_bytes(text);
        }
        let mut i: usize = 0;
        while i < bytes.len()
            invariant
                bytes@ =~= Seq::new(s.len(), |i: int| s[i] as u8),
                vstd::utf8::is_ascii_chars(s),
                s == text@,
                i <= s.len(),
                forall|j: int| 0 <= j < i ==> is_digit(#[trigger] s[j]),
            decreases s.len() - i,
        {
            let b = bytes[i];
            assert(b as int == s[i as int] as int);
            if b < 48 || b > 57 {
                assert(!is_digit(s[i as int]));
                assert(!is_numeric_text(s));
                return false;
            }
            i += 1;
        }
        true
    }

    /// Returns whether every character of `text` is in the alphanumeric alphabet.
    pub fn is_alphanumeric(text: &str) -> (r: bool)
        ensures
            r == is_alphanumeric_text(text@),
    {
        if !text.is_ascii() {
            assert(!is_alphanumeric_text(text@)) by {
                if is_alphanumeric_text(text@) {
                    assert(vstd::utf8::is_ascii_chars(text@));
                }
            }
            return false;
        }
        let ghost s = text@;
        let bytes = text.as_bytes();
        proof {
            vstd::string::is_ascii_spec_bytes(text);
        }
        let mut i: usize = 0;
        while i < bytes.len()
            invariant
                bytes@ =~= Seq::new(s.len(), |i: int| s[i] as u8),
                vstd::utf8::is_ascii_chars(s),
                s == text@,
                i <= s.len(),
                forall|j: int| 0 <= j < i ==> alnum_index(#[trigger] s[j]) >= 0,
            decreases s.len() - i,
        {
            let b = bytes[i];
            assert(b as int == s[i as int] as int);
            if !is_alphanumeric_byte(b) {
                assert(alnum_index(s[i as int]) < 0);
                assert(!is_alphanumeric_text(s));
                return false;
            }
            i += 1;
        }
        true
    }
}

/// The character count of `seg` fits its field at version `ver`.
pub open spec fn count_fits(seg: QrSegment, ver: int) -> bool {
    seg.spec_num_chars() < pow2(char_count_bits(seg.spec_mode(), ver) as nat)
}

/// Bits that the segments take at version `ver`: for each, the mode indicator, the count
/// field and the data bits.
pub open spec fn segs_total_len(segs: Seq<QrSegment>, ver: int) -> int
    decreases segs.len(),
{
    if segs.len() == 0 {
        0
    } else {
        let s = segs.last();
        segs_total_len(segs.drop_last(), ver) + 4 + char_count_bits(s.spec_mode(), ver)
            + s.spec_bits().len()
    }
}

/// The bits that the segments take, or `None` where a count does not fit its field or the
/// total does not fit in `usize`.
pub open spec fn total_bits(segs: Seq<QrSegment>, ver: int) -> Option<usize> {
    if (forall|j: int| 0 <= j < segs.len() ==> count_fits(#[trigger] segs[j], ver))
        && segs_total_len(segs, ver) <= usize::MAX {
        Some(segs_total_len(segs, ver) as usize)
    } else {
        None
    }
}

/// The total grows with the number of segments counted.
pub proof fn lemma_total_len_monotone(segs: Seq<QrSegment>, ver: int, a: int, b: int)
    requires
        0 <= a <= b <= segs.len(),
        1 <= ver <= 40,
    ensures
        segs_total_len(segs.take(a), ver) <= segs_total_len(segs.take(b), ver),
    decreases b - a,
{
    if a < b {
        lemma_total_len_monotone(segs, ver, a, b - 1);
        assert(segs.take(b).drop_last() =~= segs.take(b - 1));
        assert(char_count_bits(segs[b - 1].spec_mode(), ver) >= 0);
    }
}

/// A count below `2^ccbits` fits a `u32` and a field of `ccbits` bits.
pub proof fn lemma_count_bits_fit(numchars: usize, ccbits: u8)
    requires
        ccbits <= 16,
        numchars < pow2(ccbits as nat),
    ensures
        numchars < 65536,
        (numchars as u32) < pow2(ccbits as nat),
{
    lemma2_to64();
    if ccbits < 16 {
        vstd::arithmetic::power2::lemma_pow2_strictly_increases(ccbits as nat, 16);
    }
}

fn count_limit(ccbits: u8) -> (r: usize)
    requires
        ccbits <= 16,
    ensures
        r as int == pow2(ccbits as nat),
{
    proof {
        lemma2_to64();
    }
    let mut r: usize = 1;
    let mut k: u8 = 0;
    while k < ccbits
        invariant
            k <= ccbits <= 16,
            r as int == pow2(k as nat),
            pow2(16) == 65536,
        decreases ccbits - k,
    {
        proof {
            vstd::arithmetic::power2::lemma_pow2_unfold((k + 1) as nat);
            vstd::arithmetic::power2::lemma_pow2_strictly_increases(k as nat, 16);
        }
        r = r * 2;
        k += 1;
    }
    r
}

fn mul_frac_ceil_exec(n: usize, numer: usize, denom: usize) -> (r: Option<usize>)
    requires
        1 <= denom <= 3,
        numer <= 13,
    ensures
        r == (match mul_frac_ceil(n as int, numer as int, denom as int) {
            Some(b) => Some(b as usize),
            None => None::<usize>,
        }),
        r.is_some() ==> r.unwrap() as int == mul_frac_ceil(n as int, numer as int, denom as int).unwrap(),
{
    match n.checked_mul(numer) {
        Some(x) => match x.checked_add(denom - 1) {
            Some(y) => Some(y / denom),
            None => None,
        },
        None => {
            assert(n * numer + denom - 1 > usize::MAX);
            None
        },
    }
}

/// Returns the position of the ASCII character `b` in the alphanumeric alphabet.
fn alphanumeric_code(b: u8) -> (r: u32)
    requires
        alnum_index(b as char) >= 0,
    ensures
        r as int == alnum_index(b as char),
        r < 45,
{
    if 48 <= b && b <= 57 {
        (b - 48) as u32
    } else if 65 <= b && b <= 90 {
        (b - 55) as u32
    } else if b == 32 {
        36
    } else if b == 36 {
        37
    } else if b == 37 {
        38
    } else if b == 42 {
        39
    } else if b == 43 {
        40
    } else if b == 45 {
        41
    } else if b == 46 {
        42
    } else if b == 47 {
        43
    } else {
        44
    }
}

fn is_alphanumeric_byte(b: u8) -> (r: bool)
    ensures
        r == (alnum_index(b as char) >= 0),
{
    (48 <= b && b <= 57) || (65 <= b && b <= 90) || b == 32 || b == 36 || b == 37 || b == 42
        || b == 43 || b == 45 || b == 46 || b == 47 || b == 58
}

} // verus!
