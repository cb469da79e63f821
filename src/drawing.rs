use vstd::prelude::*;
use crate::bits::{get_bit, u32_bit};
use crate::grid::{
    align_count, align_position, in_rect, is_finder_corner, lemma_align_facts,
};
use crate::params::{ecc_format_code, Mask, QrCodeEcc};
use crate::qrcode::QrCode;

verus! {

/// `n` steps of the BCH remainder computation of `data` with generator `poly` of degree
/// `deg`, the remainder kept below `2^deg`.
pub open spec fn bch_steps(data: u32, n: nat, deg: u32, poly: u32) -> u32
    decreases n,
{
    if n == 0 {
        data
    } else {
        let r = bch_steps(data, (n - 1) as nat, deg, poly);
        (r << 1u32) ^ (((r >> (deg - 1) as u32) * poly) as u32)
    }
}

/// The 15-bit format word of a level and a mask: five data bits, a (15,5) BCH remainder from
/// generator 0x537, then XOR with 0x5412.
pub open spec fn format_word(e: QrCodeEcc, m: int) -> u32 {
    let data = ((ecc_format_code(e) as u32) << 3u32) | (m as u32);
    ((data << 10u32) | bch_steps(data, 10, 10, 0x537)) ^ 0x5412u32
}

/// The 18-bit version word: six data bits and a 12-bit BCH remainder from generator 0x1F25.
pub open spec fn version_word(ver: int) -> u32 {
    ((ver as u32) << 12u32) | bch_steps(ver as u32, 12, 12, 0x1f25)
}

/// The value that the format information gives the module `(x, y)` of a symbol of side
/// `size`, or `None` for a module outside the format areas.
pub open spec fn format_cell(size: int, word: u32, x: int, y: int) -> Option<bool> {
    if x == 8 && 0 <= y < 6 {
        Some(u32_bit(word, y))
    } else if x == 8 && y == 7 {
        Some(u32_bit(word, 6))
    } else if x == 8 && y == 8 {
        Some(u32_bit(word, 7))
    } else if x == 7 && y == 8 {
        Some(u32_bit(word, 8))
    } else if y == 8 && 0 <= x < 6 {
        Some(u32_bit(word, 14 - x))
    } else if y == 8 && size - 8 <= x < size {
        Some(u32_bit(word, size - 1 - x))
    } else if x == 8 && size - 7 <= y < size {
        Some(u32_bit(word, y - size + 15))
    } else if x == 8 && y == size - 8 {
        Some(true)
    } else {
        None
    }
}

/// Whether mask `m` inverts the module at `(x, y)`.
pub open spec fn mask_inverts(m: int, x: int, y: int) -> bool {
    if m == 0 {
        (x + y) % 2 == 0
    } else if m == 1 {
        y % 2 == 0
    } else if m == 2 {
        x % 3 == 0
    } else if m == 3 {
        (x + y) % 3 == 0
    } else if m == 4 {
        (x / 3 + y / 2) % 2 == 0
    } else if m == 5 {
        (x * y) % 2 + (x * y) % 3 == 0
    } else if m == 6 {
        ((x * y) % 2 + (x * y) % 3) % 2 == 0
    } else {
        ((x + y) % 2 + (x * y) % 3) % 2 == 0
    }
}

/// The remainder of the BCH computation stays below `2^deg`, so it leaves the data bits alone.
pub proof fn lemma_bch_small(data: u32, n: nat, deg: u32, poly: u32)
    requires
        deg == 10 && poly == 0x537 || deg == 12 && poly == 0x1f25,
        data < (1u32 << deg),
    ensures
        bch_steps(data, n, deg, poly) < (1u32 << deg),
    decreases n,
{
    if n > 0 {
        lemma_bch_small(data, (n - 1) as nat, deg, poly);
        let r = bch_steps(data, (n - 1) as nat, deg, poly);
        assert((r >> (deg - 1) as u32) <= 1) by (bit_vector)
            requires
                r < (1u32 << deg),
                deg == 10 || deg == 12,
        ;
        assert(((r << 1u32) ^ (((r >> (deg - 1) as u32) * poly) as u32)) < (1u32 << deg))
            by (bit_vector)
            requires
                r < (1u32 << deg),
                deg == 10 && poly == 0x537 || deg == 12 && poly == 0x1f25,
                (r >> (deg - 1) as u32) <= 1,
        ;
    }
}

/// Bits 10 to 14 of the format word are the data bits XOR those of 0x5412.
pub proof fn lemma_format_data_bits(e: QrCodeEcc, m: int)
    requires
        0 <= m <= 7,
    ensures
        u32_bit(format_word(e, m), 10) == (m % 2 == 0),
        u32_bit(format_word(e, m), 11) == ((m / 2) % 2 == 1),
        u32_bit(format_word(e, m), 12) == ((m / 4) % 2 == 0),
        u32_bit(format_word(e, m), 13) == (ecc_format_code(e) % 2 == 1),
        u32_bit(format_word(e, m), 14) == ((ecc_format_code(e) / 2) % 2 == 0),
{
    let c = ecc_format_code(e) as u32;
    let mm = m as u32;
    let data = (c << 3u32) | mm;
    assert(data < (1u32 << 10u32)) by (bit_vector)
        requires
            c < 4,
            mm < 8,
            data == (c << 3u32) | mm,
    ;
    lemma_bch_small(data, 10, 10, 0x537);
    let rem = bch_steps(data, 10, 10, 0x537);
    let w = ((data << 10u32) | rem) ^ 0x5412u32;
    assert(((w >> 10u32) & 1u32 == 1u32) == (mm % 2 == 0) && ((w >> 11u32) & 1u32 == 1u32) == ((
    mm / 2) % 2 == 1) && ((w >> 12u32) & 1u32 == 1u32) == ((mm / 4) % 2 == 0) && ((w >> 13u32)
        & 1u32 == 1u32) == (c % 2 == 1) && ((w >> 14u32) & 1u32 == 1u32) == ((c / 2) % 2 == 0))
        by (bit_vector)
        requires
            c < 4,
            mm < 8,
            data == (c << 3u32) | mm,
            rem < (1u32 << 10u32),
            w == ((data << 10u32) | rem) ^ 0x5412u32,
    ;
}

/// The place of the module `(x, y)` in the order in which the format information is drawn,
/// or -1 for a module outside the format areas.
pub open spec fn format_order(size: int, x: int, y: int) -> int {
    if x == 8 && 0 <= y < 6 {
        y
    } else if x == 8 && y == 7 {
        6
    } else if x == 8 && y == 8 {
        7
    } else if x == 7 && y == 8 {
        8
    } else if y == 8 && 0 <= x < 6 {
        14 - x
    } else if y == 8 && size - 8 <= x < size {
        15 + (size - 1 - x)
    } else if x == 8 && size - 7 <= y < size {
        y - size + 30
    } else if x == 8 && y == size - 8 {
        30
    } else {
        -1
    }
}

/// `g` is `start` with the first `done` format modules drawn.
pub open(crate) spec fn format_progress(g: QrCode, start: QrCode, word: u32, done: int) -> bool {
    &&& g.wf()
    &&& g.size == start.size
    &&& forall|a: int, b: int|
        0 <= a < g.size && 0 <= b < g.size ==> #[trigger] g.module(a, b) == if 0 <= format_order(
            g.size as int,
            a,
            b,
        ) < done {
            format_cell(g.size as int, word, a, b).unwrap()
        } else {
            start.module(a, b)
        }
}

/// `(x, y)` lies within one module of the centre of the alignment pattern `(i, j)`.
pub open spec fn near_alignment(ver: int, i: int, j: int, x: int, y: int) -> bool {
    &&& 0 <= i < align_count(ver)
    &&& 0 <= j < align_count(ver)
    &&& !is_finder_corner(i, j, align_count(ver))
    &&& -1 <= x - align_position(ver, i) <= 1
    &&& -1 <= y - align_position(ver, j) <= 1
}

/// The larger of `|dx|` and `|dy|`.
pub open spec fn chebyshev(dx: int, dy: int) -> int {
    let ax = if dx < 0 {
        -dx
    } else {
        dx
    };
    let ay = if dy < 0 {
        -dy
    } else {
        dy
    };
    if ax > ay {
        ax
    } else {
        ay
    }
}

/// `(x, y)` lies on a light ring of a finder pattern: two or four modules from a centre.
pub open spec fn in_finder_ring(size: int, x: int, y: int) -> bool {
    let d1 = chebyshev(x - 3, y - 3);
    let d2 = chebyshev(x - (size - 4), y - 3);
    let d3 = chebyshev(x - 3, y - (size - 4));
    d1 == 2 || d1 == 4 || d2 == 2 || d2 == 4 || d3 == 2 || d3 == 4
}

/// The value that the light parts of the function patterns and the version information
/// give the module `(x, y)` of a symbol of version `ver`, or `None` where they leave it.
pub open spec fn light_value(ver: int, x: int, y: int) -> Option<bool> {
    let size = 4 * ver + 17;
    if ver >= 7 && in_rect(x, y, size - 11, 0, 3, 6) {
        Some(u32_bit(version_word(ver), 3 * y + x - (size - 11)))
    } else if ver >= 7 && in_rect(x, y, 0, size - 11, 6, 3) {
        Some(u32_bit(version_word(ver), 3 * x + y - (size - 11)))
    } else if exists|i: int, j: int| #[trigger] near_alignment(ver, i, j, x, y) {
        Some(
            exists|i: int, j: int|
                #[trigger] near_alignment(ver, i, j, x, y) && x == align_position(ver, i) && y
                    == align_position(ver, j),
        )
    } else if in_finder_ring(size, x, y) {
        Some(false)
    } else if (x == 6 && 7 <= y < size - 7 && y % 2 == 1) || (y == 6 && 7 <= x < size - 7 && x % 2
        == 1) {
        Some(false)
    } else {
        None
    }
}

/// Alignment centres are at least 12 apart.
pub proof fn lemma_align_spacing(ver: int, a: int, b: int)
    requires
        2 <= ver <= 40,
        0 <= a < b < align_count(ver),
    ensures
        align_position(ver, b) - align_position(ver, a) >= 12,
    decreases b - a,
{
    lemma_align_facts(ver, b);
    if a < b - 1 {
        lemma_align_spacing(ver, a, b - 1);
    }
}

impl QrCode {
    /// Draws the light parts of the function patterns over the marks of
    /// `function_modules_marked`: timing strips, finder rings, alignment rings around dark
    /// centres, and from version 7 the version information. Other modules stay as they were.
    pub(crate) fn draw_light_function_modules(&mut self)
        requires
            old(self).wf(),
        ensures
            final(self).wf(),
            final(self).size == old(self).size,
            forall|a: int, b: int|
                0 <= a < old(self).size && 0 <= b < old(self).size ==> #[trigger] final(self).module(
                    a,
                    b,
                ) == match light_value(old(self).spec_version(), a, b) {
                    Some(v) => v,
                    None => old(self).module(a, b),
                },
    {
        let ghost start = *self;
        let ghost ver = start.spec_version();
        let size: u8 = self.size;
        let v = self.version().value();
        let alignpatpos = self.get_alignment_pattern_positions();
        let vbits: u32 = if v >= 7 {
            Self::version_bits_of(v as u32)
        } else {
            0
        };
        let mut y: u8 = 0;
        while y < size
            invariant
                self.wf(),
                self.size == size == start.size,
                ver == self.spec_version(),
                v as int == ver,
                size == 4 * ver + 17,
                1 <= ver <= 40,
                alignpatpos@.len() == align_count(ver),
                forall|k: int|
                    0 <= k < alignpatpos@.len() ==> #[trigger] alignpatpos@[k] as int
                        == align_position(ver, k),
                v >= 7 ==> vbits == version_word(ver),
                y <= size,
                forall|a: int, b: int|
                    0 <= a < size && 0 <= b < size ==> #[trigger] self.module(a, b) == if b < y {
                        match light_value(ver, a, b) {
                            Some(val) => val,
                            None => start.module(a, b),
                        }
                    } else {
                        start.module(a, b)
                    },
            decreases size - y,
        {
            let mut x: u8 = 0;
            while x < size
                invariant
                    self.wf(),
                    self.size == size == start.size,
                    ver == self.spec_version(),
                    v as int == ver,
                    size == 4 * ver + 17,
                    1 <= ver <= 40,
                    alignpatpos@.len() == align_count(ver),
                    forall|k: int|
                        0 <= k < alignpatpos@.len() ==> #[trigger] alignpatpos@[k] as int
                            == align_position(ver, k),
                    v >= 7 ==> vbits == version_word(ver),
                    y < size,
                    x <= size,
                    forall|a: int, b: int|
                        0 <= a < size && 0 <= b < size ==> #[trigger] self.module(a, b) == if b < y
                            || (b == y && a < x) {
                            match light_value(ver, a, b) {
                                Some(val) => val,
                                None => start.module(a, b),
                            }
                        } else {
                            start.module(a, b)
                        },
                decreases size - x,
            {
                match light_value_at(v, size, &alignpatpos, vbits, x, y) {
                    Some(val) => {
                        self.set_module_bounded(x, y, val);
                    },
                    None => {},
                }
                x += 1;
            }
            y += 1;
        }
    }

    fn draw_format_module(
        &mut self,
        x: u8,
        y: u8,
        dark: bool,
        k: u8,
        word: u32,
        Ghost(start): Ghost<QrCode>,
    )
        requires
            format_progress(*old(self), start, word, k as int),
            x < old(self).size,
            y < old(self).size,
            format_order(old(self).size as int, x as int, y as int) == k,
            format_cell(old(self).size as int, word, x as int, y as int) == Some(dark),
        ensures
            format_progress(*final(self), start, word, k + 1),
    {
        self.set_module_bounded(x, y, dark);
    }

    /// Draws the format information of a level and a mask into both format areas, and the
    /// dark module beside the bottom-left finder.
    pub(crate) fn draw_format_bits(&mut self, ecl: QrCodeEcc, mask: Mask)
        requires
            old(self).wf(),
        ensures
            final(self).wf(),
            final(self).size == old(self).size,
            forall|a: int, b: int|
                0 <= a < old(self).size && 0 <= b < old(self).size ==> #[trigger] final(self).module(
                    a,
                    b,
                ) == match format_cell(
                    old(self).size as int,
                    format_word(ecl, mask.spec_value()),
                    a,
                    b,
                ) {
                    Some(v) => v,
                    None => old(self).module(a, b),
                },
    {
        let bits = Self::format_bits_of(ecl, mask);
        let ghost start = *self;
        let size = self.size;
        let mut i: u8 = 0;
        while i < 6
            invariant
                i <= 6,
                size == start.size,
                21 <= size <= 177,
                format_progress(*self, start, bits, i as int),
            decreases 6 - i,
        {
            self.draw_format_module(8, i, get_bit(bits, i), i, bits, Ghost(start));
            i += 1;
        }
        self.draw_format_module(8, 7, get_bit(bits, 6), 6, bits, Ghost(start));
        self.draw_format_module(8, 8, get_bit(bits, 7), 7, bits, Ghost(start));
        self.draw_format_module(7, 8, get_bit(bits, 8), 8, bits, Ghost(start));
        let mut i: u8 = 9;
        while i < 15
            invariant
                9 <= i <= 15,
                size == start.size,
                21 <= size <= 177,
                format_progress(*self, start, bits, i as int),
            decreases 15 - i,
        {
            self.draw_format_module(14 - i, 8, get_bit(bits, i), i, bits, Ghost(start));
            i += 1;
        }
        let mut i: u8 = 0;
        while i < 8
            invariant
                i <= 8,
                size == start.size,
                21 <= size <= 177,
                format_progress(*self, start, bits, 15 + i),
            decreases 8 - i,
        {
            self.draw_format_module(size - 1 - i, 8, get_bit(bits, i), 15 + i, bits, Ghost(start));
            i += 1;
        }
        let mut i: u8 = 8;
        while i < 15
            invariant
                8 <= i <= 15,
                size == start.size,
                21 <= size <= 177,
                format_progress(*self, start, bits, 15 + i),
            decreases 15 - i,
        {
            self.draw_format_module(8, size - 15 + i, get_bit(bits, i), 15 + i, bits, Ghost(start));
            i += 1;
        }
        self.draw_format_module(8, size - 8, true, 30, bits, Ghost(start));
        proof {
            assert forall|a: int, b: int| 0 <= a < size && 0 <= b < size implies (format_order(
                size as int,
                a,
                b,
            ) >= 0) == (format_cell(size as int, bits, a, b) is Some) by {}
        }
    }

    /// Inverts, by mask `mask`, every module that is not a function module of
    /// `functionmodules`.
    pub(crate) fn apply_mask(&mut self, functionmodules: &QrCode, mask: Mask)
        requires
            old(self).wf(),
            functionmodules.wf(),
            functionmodules.size == old(self).size,
        ensures
            final(self).wf(),
            final(self).size == old(self).size,
            forall|a: int, b: int|
                0 <= a < old(self).size && 0 <= b < old(self).size ==> #[trigger] final(self).module(
                    a,
                    b,
                ) == (old(self).module(a, b) != (!functionmodules.module(a, b) && mask_inverts(
                    mask.spec_value(),
                    a,
                    b,
                ))),
    {
        let ghost start = *self;
        let size = self.size;
        let m = mask.value();
        let mut y: u8 = 0;
        while y < size
            invariant
                self.wf(),
                self.size == size == start.size,
                functionmodules.wf(),
                functionmodules.size == size,
                m as int == mask.spec_value(),
                m <= 7,
                y <= size,
                forall|a: int, b: int|
                    0 <= a < size && 0 <= b < size ==> #[trigger] self.module(a, b) == if b < y {
                        start.module(a, b) != (!functionmodules.module(a, b) && mask_inverts(
                            m as int,
                            a,
                            b,
                        ))
                    } else {
                        start.module(a, b)
                    },
            decreases size - y,
        {
            let mut x: u8 = 0;
            while x < size
                invariant
                    self.wf(),
                    self.size == size == start.size,
                    functionmodules.wf(),
                    functionmodules.size == size,
                    m as int == mask.spec_value(),
                    m <= 7,
                    y < size,
                    x <= size,
                    forall|a: int, b: int|
                        0 <= a < size && 0 <= b < size ==> #[trigger] self.module(a, b) == if b < y
                            || (b == y && a < x) {
                            start.module(a, b) != (!functionmodules.module(a, b) && mask_inverts(
                                m as int,
                                a,
                                b,
                            ))
                        } else {
                            start.module(a, b)
                        },
                decreases size - x,
            {
                if !functionmodules.get_module_bounded(x, y) {
                    let invert = mask_bit(m, x as i32, y as i32);
                    let cur = self.get_module_bounded(x, y);
                    self.set_module_bounded(x, y, cur != invert);
                }
                x += 1;
            }
            y += 1;
        }
    }


    /// Computes the format word of a level and a mask.
    pub(crate) fn format_bits_of(ecl: QrCodeEcc, mask: Mask) -> (r: u32)
        ensures
            r == format_word(ecl, mask.spec_value()),
    {
        let fb = ecl.format_bits() as u32;
        let m = mask.value() as u32;
        let data: u32 = (fb << 3) | m;
        let ghost d = data;
        assert(data < (1u32 << 10u32)) by (bit_vector)
            requires
                fb < 4,
                m <= 7,
                data == (fb << 3) | m,
        ;
        let mut rem: u32 = data;
        let mut i: u32 = 0;
        while i < 10
            invariant
                i <= 10,
                d < (1u32 << 10u32),
                rem == bch_steps(d, i as nat, 10, 0x537),
            decreases 10 - i,
        {
            proof {
                lemma_bch_small(d, i as nat, 10, 0x537);
                assert((rem >> 9u32) <= 1) by (bit_vector)
                    requires
                        rem < (1u32 << 10u32),
                ;
            }
            rem = (rem << 1) ^ ((rem >> 9) * 0x537);
            i += 1;
        }
        ((data << 10) | rem) ^ 0x5412
    }

    /// Computes the version word of a version from 7 to 40.
    pub(crate) fn version_bits_of(ver: u32) -> (r: u32)
        requires
            7 <= ver <= 40,
        ensures
            r == version_word(ver as int),
    {
        assert(ver < (1u32 << 12u32)) by (bit_vector)
            requires
                ver <= 40,
        ;
        let mut rem: u32 = ver;
        let mut i: u32 = 0;
        while i < 12
            invariant
                i <= 12,
                ver < (1u32 << 12u32),
                rem == bch_steps(ver, i as nat, 12, 0x1f25),
            decreases 12 - i,
        {
            proof {
                lemma_bch_small(ver, i as nat, 12, 0x1f25);
                assert((rem >> 11u32) <= 1) by (bit_vector)
                    requires
                        rem < (1u32 << 12u32),
                ;
            }
            rem = (rem << 1) ^ ((rem >> 11) * 0x1f25);
            i += 1;
        }
        (ver << 12) | rem
    }
}

/// Returns whether `(x, y)` is near a non-corner alignment centre and, if so, whether it is that
/// centre.
fn alignment_at(alignpos: &Vec<u8>, x: u8, y: u8, Ghost(ver): Ghost<int>) -> (r: Option<bool>)
    requires
        1 <= ver <= 40,
        alignpos@.len() == align_count(ver),
        forall|k: int|
            0 <= k < alignpos@.len() ==> #[trigger] alignpos@[k] as int == align_position(ver, k),
    ensures
        r == if exists|i: int, j: int| #[trigger] near_alignment(ver, i, j, x as int, y as int) {
            Some(
                exists|i: int, j: int|
                    #[trigger] near_alignment(ver, i, j, x as int, y as int) && x == align_position(
                        ver,
                        i,
                    ) && y == align_position(ver, j),
            )
        } else {
            None::<bool>
        },
{
    let n = alignpos.len();
    if n > 0 {
        proof {
            lemma_align_facts(ver, 0);
        }
    }
    let mut i: usize = 0;
    while i < n
        invariant
            1 <= ver <= 40,
            n == alignpos@.len(),
            n == align_count(ver),
            n <= 7,
            forall|k: int|
                0 <= k < n ==> #[trigger] alignpos@[k] as int == align_position(ver, k),
            i <= n,
            forall|i2: int, j2: int| i2 < i ==> !#[trigger] near_alignment(ver, i2, j2, x as int, y as int),
        decreases n - i,
    {
        let mut j: usize = 0;
        while j < n
            invariant
                1 <= ver <= 40,
                n == alignpos@.len(),
                n == align_count(ver),
                n <= 7,
                forall|k: int|
                    0 <= k < n ==> #[trigger] alignpos@[k] as int == align_position(ver, k),
                i < n,
                j <= n,
                forall|i2: int, j2: int|
                    (i2 < i || (i2 == i && j2 < j)) ==> !#[trigger] near_alignment(
                        ver,
                        i2,
                        j2,
                        x as int,
                        y as int,
                    ),
            decreases n - j,
        {
            let corner = (i == 0 && j == 0) || (i == 0 && j == n - 1) || (i == n - 1 && j == 0);
            let px = alignpos[i] as i32;
            let py = alignpos[j] as i32;
            let dx = x as i32 - px;
            let dy = y as i32 - py;
            if !corner && -1 <= dx && dx <= 1 && -1 <= dy && dy <= 1 {
                assert(near_alignment(ver, i as int, j as int, x as int, y as int));
                proof {
                    assert forall|i2: int, j2: int|
                        #[trigger] near_alignment(ver, i2, j2, x as int, y as int) && x
                            == align_position(ver, i2) && y == align_position(ver, j2) implies i2
                        == i && j2 == j by {
                        if i2 < i {
                            lemma_align_spacing(ver, i2, i as int);
                        } else if i2 > i {
                            lemma_align_spacing(ver, i as int, i2);
                        }
                        if j2 < j {
                            lemma_align_spacing(ver, j2, j as int);
                        } else if j2 > j {
                            lemma_align_spacing(ver, j as int, j2);
                        }
                    }
                }
                return Some(dx == 0 && dy == 0);
            }
            j += 1;
        }
        i += 1;
    }
    None
}

/// Returns `light_value` of `(x, y)` for a symbol of version `v` and side `size`.
fn light_value_at(v: u8, size: u8, alignpos: &Vec<u8>, vbits: u32, x: u8, y: u8) -> (r: Option<
    bool,
>)
    requires
        1 <= v <= 40,
        size == 4 * v + 17,
        alignpos@.len() == align_count(v as int),
        forall|k: int|
            0 <= k < alignpos@.len() ==> #[trigger] alignpos@[k] as int == align_position(v as int, k),
        v >= 7 ==> vbits == version_word(v as int),
        x < size,
        y < size,
    ensures
        r == light_value(v as int, x as int, y as int),
{
    if v >= 7 && size - 11 <= x && x < size - 8 && y < 6 {
        let k = 3 * y + (x - (size - 11));
        return Some(get_bit(vbits, k));
    }
    if v >= 7 && x < 6 && size - 11 <= y && y < size - 8 {
        let k = 3 * x + (y - (size - 11));
        return Some(get_bit(vbits, k));
    }
    match alignment_at(alignpos, x, y, Ghost(v as int)) {
        Some(c) => {
            return Some(c);
        },
        None => {},
    }
    let xi = x as i32;
    let yi = y as i32;
    let s = size as i32;
    let d1 = cheb(xi - 3, yi - 3);
    let d2 = cheb(xi - (s - 4), yi - 3);
    let d3 = cheb(xi - 3, yi - (s - 4));
    if d1 == 2 || d1 == 4 || d2 == 2 || d2 == 4 || d3 == 2 || d3 == 4 {
        return Some(false);
    }
    if (x == 6 && 7 <= y && y < size - 7 && y % 2 == 1) || (y == 6 && 7 <= x && x < size - 7 && x
        % 2 == 1) {
        return Some(false);
    }
    None
}

fn cheb(dx: i32, dy: i32) -> (r: i32)
    requires
        -1000 <= dx <= 1000,
        -1000 <= dy <= 1000,
    ensures
        r == chebyshev(dx as int, dy as int),
{
    let ax = if dx < 0 {
        -dx
    } else {
        dx
    };
    let ay = if dy < 0 {
        -dy
    } else {
        dy
    };
    if ax > ay {
        ax
    } else {
        ay
    }
}

/// Returns whether mask `m` inverts the module at `(x, y)`.
fn mask_bit(m: u8, x: i32, y: i32) -> (r: bool)
    requires
        m <= 7,
        0 <= x < 177,
        0 <= y < 177,
    ensures
        r == mask_inverts(m as int, x as int, y as int),
{
    assert(0 <= x * y <= 176 * 176) by (nonlinear_arith)
        requires
            0 <= x < 177,
            0 <= y < 177,
    ;
    match m {
        0 => (x + y) % 2 == 0,
        1 => y % 2 == 0,
        2 => x % 3 == 0,
        3 => (x + y) % 3 == 0,
        4 => (x / 3 + y / 2) % 2 == 0,
        5 => (x * y) % 2 + (x * y) % 3 == 0,
        6 => ((x * y) % 2 + (x * y) % 3) % 2 == 0,
        _ => ((x + y) % 2 + (x * y) % 3) % 2 == 0,
    }
}

} // verus!
