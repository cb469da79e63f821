use vstd::prelude::*;
use crate::bits::byte_bit;
use crate::qrcode::QrCode;
use crate::params::Version;

verus! {

/// `(x, y)` lies in the rectangle of the given corner and extent.
pub open spec fn in_rect(x: int, y: int, left: int, top: int, width: int, height: int) -> bool {
    left <= x < left + width && top <= y < top + height
}

/// Number of alignment pattern centre coordinates of version `ver`.
pub open spec fn align_count(ver: int) -> int {
    if ver == 1 {
        0
    } else {
        ver / 7 + 2
    }
}

/// Distance between alignment pattern centres of version `ver`, but for the first two.
pub open spec fn align_step(ver: int) -> int {
    if ver == 32 {
        26
    } else {
        ((ver * 4 + align_count(ver) * 2 + 1) / (align_count(ver) * 2 - 2)) * 2
    }
}

/// The `k`-th alignment pattern centre coordinate of version `ver`: 6 first, then evenly
/// spaced up to `size - 7`.
pub open spec fn align_position(ver: int, k: int) -> int {
    if k == 0 {
        6
    } else {
        4 * ver + 17 - 7 - (align_count(ver) - 1 - k) * align_step(ver)
    }
}

/// The pair of centre indices `(i, j)` is one of the three corners that finders take.
pub open spec fn is_finder_corner(i: int, j: int, n: int) -> bool {
    (i == 0 && j == 0) || (i == 0 && j == n - 1) || (i == n - 1 && j == 0)
}

/// `(x, y)` lies in the 5x5 footprint of the alignment pattern with centre indices `(i, j)`.
pub open spec fn in_alignment(ver: int, i: int, j: int, x: int, y: int) -> bool {
    &&& 0 <= i < align_count(ver)
    &&& 0 <= j < align_count(ver)
    &&& !is_finder_corner(i, j, align_count(ver))
    &&& in_rect(x, y, align_position(ver, i) - 2, align_position(ver, j) - 2, 5, 5)
}

/// `(x, y)` is a function module of a symbol of version `ver`: timing strips, finders with
/// their separators and format areas, alignment patterns, and version areas from version 7.
pub open spec fn is_function_module(ver: int, x: int, y: int) -> bool {
    let size = 4 * ver + 17;
    ||| x == 6
    ||| y == 6
    ||| in_rect(x, y, 0, 0, 9, 9)
    ||| in_rect(x, y, size - 8, 0, 8, 9)
    ||| in_rect(x, y, 0, size - 8, 9, 8)
    ||| exists|i: int, j: int| #[trigger] in_alignment(ver, i, j, x, y)
    ||| (ver >= 7 && (in_rect(x, y, size - 11, 0, 3, 6) || in_rect(x, y, 0, size - 11, 6, 3)))
}

/// Alignment centres lie between 6 and `size - 7`.
pub proof fn lemma_align_facts(ver: int, k: int)
    requires
        2 <= ver <= 40,
        0 <= k < align_count(ver),
    ensures
        6 <= align_position(ver, k) <= 4 * ver + 10,
        align_count(ver) <= 7,
        k > 0 ==> align_position(ver, k) - align_position(ver, k - 1) >= 12,
{
    let n = align_count(ver);
    let s = align_step(ver);
    if ver == 2 {
        assert(2int / 7 == 0);
        assert((13int) / (2int) == 6);
        assert((n - 2) * s == 0) by (nonlinear_arith)
            requires
                n == 2,
                s == 12,
            ;
        assert(s >= 12 && 4 * ver + 17 - 13 - 0 >= 12);
    } else if ver == 3 {
        assert(3int / 7 == 0);
        assert((17int) / (2int) == 8);
        assert((n - 2) * s == 0) by (nonlinear_arith)
            requires
                n == 2,
                s == 16,
            ;
        assert(s >= 12 && 4 * ver + 17 - 13 - 0 >= 12);
    } else if ver == 4 {
        assert(4int / 7 == 0);
        assert((21int) / (2int) == 10);
        assert((n - 2) * s == 0) by (nonlinear_arith)
            requires
                n == 2,
                s == 20,
            ;
        assert(s >= 12 && 4 * ver + 17 - 13 - 0 >= 12);
    } else if ver == 5 {
        assert(5int / 7 == 0);
        assert((25int) / (2int) == 12);
        assert((n - 2) * s == 0) by (nonlinear_arith)
            requires
                n == 2,
                s == 24,
            ;
        assert(s >= 12 && 4 * ver + 17 - 13 - 0 >= 12);
    } else if ver == 6 {
        assert(6int / 7 == 0);
        assert((29int) / (2int) == 14);
        assert((n - 2) * s == 0) by (nonlinear_arith)
            requires
                n == 2,
                s == 28,
            ;
        assert(s >= 12 && 4 * ver + 17 - 13 - 0 >= 12);
    } else if ver == 7 {
        assert(7int / 7 == 1);
        assert((35int) / (4int) == 8);
        assert((n - 2) * s == 16) by (nonlinear_arith)
            requires
                n == 3,
                s == 16,
            ;
        assert(s >= 12 && 4 * ver + 17 - 13 - 16 >= 12);
    } else if ver == 8 {
        assert(8int / 7 == 1);
        assert((39int) / (4int) == 9);
        assert((n - 2) * s == 18) by (nonlinear_arith)
            requires
                n == 3,
                s == 18,
            ;
        assert(s >= 12 && 4 * ver + 17 - 13 - 18 >= 12);
    } else if ver == 9 {
        assert(9int / 7 == 1);
        assert((43int) / (4int) == 10);
        assert((n - 2) * s == 20) by (nonlinear_arith)
            requires
                n == 3,
                s == 20,
            ;
        assert(s >= 12 && 4 * ver + 17 - 13 - 20 >= 12);
    } else if ver == 10 {
        assert(10int / 7 == 1);
        assert((47int) / (4int) == 11);
        assert((n - 2) * s == 22) by (nonlinear_arith)
            requires
                n == 3,
                s == 22,
            ;
        assert(s >= 12 && 4 * ver + 17 - 13 - 22 >= 12);
    } else if ver == 11 {
        assert(11int / 7 == 1);
        assert((51int) / (4int) == 12);
        assert((n - 2) * s == 24) by (nonlinear_arith)
            requires
                n == 3,
                s == 24,
            ;
        assert(s >= 12 && 4 * ver + 17 - 13 - 24 >= 12);
    } else if ver == 12 {
        assert(12int / 7 == 1);
        assert((55int) / (4int) == 13);
        assert((n - 2) * s == 26) by (nonlinear_arith)
            requires
                n == 3,
                s == 26,
            ;
        assert(s >= 12 && 4 * ver + 17 - 13 - 26 >= 12);
    } else if ver == 13 {
        assert(13int / 7 == 1);
        assert((59int) / (4int) == 14);
        assert((n - 2) * s == 28) by (nonlinear_arith)
            requires
                n == 3,
                s == 28,
            ;
        assert(s >= 12 && 4 * ver + 17 - 13 - 28 >= 12);
    } else if ver == 14 {
        assert(14int / 7 == 2);
        assert((65int) / (6int) == 10);
        assert((n - 2) * s == 40) by (nonlinear_arith)
            requires
                n == 4,
                s == 20,
            ;
        assert(s >= 12 && 4 * ver + 17 - 13 - 40 >= 12);
    } else if ver == 15 {
        assert(15int / 7 == 2);
        assert((69int) / (6int) == 11);
        assert((n - 2) * s == 44) by (nonlinear_arith)
            requires
                n == 4,
                s == 22,
            ;
        assert(s >= 12 && 4 * ver + 17 - 13 - 44 >= 12);
    } else if ver == 16 {
        assert(16int / 7 == 2);
        assert((73int) / (6int) == 12);
        assert((n - 2) * s == 48) by (nonlinear_arith)
            requires
                n == 4,
                s == 24,
            ;
        assert(s >= 12 && 4 * ver + 17 - 13 - 48 >= 12);
    } else if ver == 17 {
        assert(17int / 7 == 2);
        assert((77int) / (6int) == 12);
        assert((n - 2) * s == 48) by (nonlinear_arith)
            requires
                n == 4,
                s == 24,
            ;
        assert(s >= 12 && 4 * ver + 17 - 13 - 48 >= 12);
    } else if ver == 18 {
        assert(18int / 7 == 2);
        assert((81int) / (6int) == 13);
        assert((n - 2) * s == 52) by (nonlinear_arith)
            requires
                n == 4,
                s == 26,
            ;
        assert(s >= 12 && 4 * ver + 17 - 13 - 52 >= 12);
    } else if ver == 19 {
        assert(19int / 7 == 2);
        assert((85int) / (6int) == 14);
        assert((n - 2) * s == 56) by (nonlinear_arith)
            requires
                n == 4,
                s == 28,
            ;
        assert(s >= 12 && 4 * ver + 17 - 13 - 56 >= 12);
    } else if ver == 20 {
        assert(20int / 7 == 2);
        assert((89int) / (6int) == 14);
        assert((n - 2) * s == 56) by (nonlinear_arith)
            requires
                n == 4,
                s == 28,
            ;
        assert(s >= 12 && 4 * ver + 17 - 13 - 56 >= 12);
    } else if ver == 21 {
        assert(21int / 7 == 3);
        assert((95int) / (8int) == 11);
        assert((n - 2) * s == 66) by (nonlinear_arith)
            requires
                n == 5,
                s == 22,
            ;
        assert(s >= 12 && 4 * ver + 17 - 13 - 66 >= 12);
    } else if ver == 22 {
        assert(22int / 7 == 3);
        assert((99int) / (8int) == 12);
        assert((n - 2) * s == 72) by (nonlinear_arith)
            requires
                n == 5,
                s == 24,
            ;
        assert(s >= 12 && 4 * ver + 17 - 13 - 72 >= 12);
    } else if ver == 23 {
        assert(23int / 7 == 3);
        assert((103int) / (8int) == 12);
        assert((n - 2) * s == 72) by (nonlinear_arith)
            requires
                n == 5,
                s == 24,
            ;
        assert(s >= 12 && 4 * ver + 17 - 13 - 72 >= 12);
    } else if ver == 24 {
        assert(24int / 7 == 3);
        assert((107int) / (8int) == 13);
        assert((n - 2) * s == 78) by (nonlinear_arith)
            requires
                n == 5,
                s == 26,
            ;
        assert(s >= 12 && 4 * ver + 17 - 13 - 78 >= 12);
    } else if ver == 25 {
        assert(25int / 7 == 3);
        assert((111int) / (8int) == 13);
        assert((n - 2) * s == 78) by (nonlinear_arith)
            requires
                n == 5,
                s == 26,
            ;
        assert(s >= 12 && 4 * ver + 17 - 13 - 78 >= 12);
    } else if ver == 26 {
        assert(26int / 7 == 3);
        assert((115int) / (8int) == 14);
        assert((n - 2) * s == 84) by (nonlinear_arith)
            requires
                n == 5,
                s == 28,
            ;
        assert(s >= 12 && 4 * ver + 17 - 13 - 84 >= 12);
    } else if ver == 27 {
        assert(27int / 7 == 3);
        assert((119int) / (8int) == 14);
        assert((n - 2) * s == 84) by (nonlinear_arith)
            requires
                n == 5,
                s == 28,
            ;
        assert(s >= 12 && 4 * ver + 17 - 13 - 84 >= 12);
    } else if ver == 28 {
        assert(28int / 7 == 4);
        assert((125int) / (10int) == 12);
        assert((n - 2) * s == 96) by (nonlinear_arith)
            requires
                n == 6,
                s == 24,
            ;
        assert(s >= 12 && 4 * ver + 17 - 13 - 96 >= 12);
    } else if ver == 29 {
        assert(29int / 7 == 4);
        assert((129int) / (10int) == 12);
        assert((n - 2) * s == 96) by (nonlinear_arith)
            requires
                n == 6,
                s == 24,
            ;
        assert(s >= 12 && 4 * ver + 17 - 13 - 96 >= 12);
    } else if ver == 30 {
        assert(30int / 7 == 4);
        assert((133int) / (10int) == 13);
        assert((n - 2) * s == 104) by (nonlinear_arith)
            requires
                n == 6,
                s == 26,
            ;
        assert(s >= 12 && 4 * ver + 17 - 13 - 104 >= 12);
    } else if ver == 31 {
        assert(31int / 7 == 4);
        assert((137int) / (10int) == 13);
        assert((n - 2) * s == 104) by (nonlinear_arith)
            requires
                n == 6,
                s == 26,
            ;
        assert(s >= 12 && 4 * ver + 17 - 13 - 104 >= 12);
    } else if ver == 32 {
        assert(32int / 7 == 4);
        assert((n - 2) * s == 104) by (nonlinear_arith)
            requires
                n == 6,
                s == 26,
            ;
        assert(s >= 12 && 4 * ver + 17 - 13 - 104 >= 12);
    } else if ver == 33 {
        assert(33int / 7 == 4);
        assert((145int) / (10int) == 14);
        assert((n - 2) * s == 112) by (nonlinear_arith)
            requires
                n == 6,
                s == 28,
            ;
        assert(s >= 12 && 4 * ver + 17 - 13 - 112 >= 12);
    } else if ver == 34 {
        assert(34int / 7 == 4);
        assert((149int) / (10int) == 14);
        assert((n - 2) * s == 112) by (nonlinear_arith)
            requires
                n == 6,
                s == 28,
            ;
        assert(s >= 12 && 4 * ver + 17 - 13 - 112 >= 12);
    } else if ver == 35 {
        assert(35int / 7 == 5);
        assert((155int) / (12int) == 12);
        assert((n - 2) * s == 120) by (nonlinear_arith)
            requires
                n == 7,
                s == 24,
            ;
        assert(s >= 12 && 4 * ver + 17 - 13 - 120 >= 12);
    } else if ver == 36 {
        assert(36int / 7 == 5);
        assert((159int) / (12int) == 13);
        assert((n - 2) * s == 130) by (nonlinear_arith)
            requires
                n == 7,
                s == 26,
            ;
        assert(s >= 12 && 4 * ver + 17 - 13 - 130 >= 12);
    } else if ver == 37 {
        assert(37int / 7 == 5);
        assert((163int) / (12int) == 13);
        assert((n - 2) * s == 130) by (nonlinear_arith)
            requires
                n == 7,
                s == 26,
            ;
        assert(s >= 12 && 4 * ver + 17 - 13 - 130 >= 12);
    } else if ver == 38 {
        assert(38int / 7 == 5);
        assert((167int) / (12int) == 13);
        assert((n - 2) * s == 130) by (nonlinear_arith)
            requires
                n == 7,
                s == 26,
            ;
        assert(s >= 12 && 4 * ver + 17 - 13 - 130 >= 12);
    } else if ver == 39 {
        assert(39int / 7 == 5);
        assert((171int) / (12int) == 14);
        assert((n - 2) * s == 140) by (nonlinear_arith)
            requires
                n == 7,
                s == 28,
            ;
        assert(s >= 12 && 4 * ver + 17 - 13 - 140 >= 12);
    } else if ver == 40 {
        assert(40int / 7 == 5);
        assert((175int) / (12int) == 14);
        assert((n - 2) * s == 140) by (nonlinear_arith)
            requires
                n == 7,
                s == 28,
            ;
        assert(s >= 12 && 4 * ver + 17 - 13 - 140 >= 12);
    }
    if k > 1 {
        assert((n - 1 - (k - 1)) * s == (n - 1 - k) * s + s) by (nonlinear_arith);
    }
    if k == 1 {
        assert(n - 1 - k == n - 2);
    }
    if k > 0 {
        assert((n - 1 - k) * s <= (n - 2) * s) by (nonlinear_arith)
            requires
                1 <= k <= n - 1,
                s >= 0,
        ;
        assert((n - 1 - k) * s >= 0) by (nonlinear_arith)
            requires
                k <= n - 1,
                s >= 0,
        ;
    }
}

/// Distinct cells of a grid of side `size` have distinct row-major indices.
pub proof fn lemma_cell_index(size: int, x: int, y: int, x2: int, y2: int)
    requires
        0 <= x < size,
        0 <= y < size,
        0 <= x2 < size,
        0 <= y2 < size,
    ensures
        0 <= y * size + x < size * size,
        size <= 177 ==> y * size + x < 31329,
        (y * size + x == y2 * size + x2) ==> (x == x2 && y == y2),
{
    assert(size <= 177 ==> size * size <= 31329) by (nonlinear_arith)
        requires
            0 <= x < size,
    ;
    assert(0 <= y * size + x < size * size) by (nonlinear_arith)
        requires
            0 <= x < size,
            0 <= y < size,
    ;
    assert((y * size + x == y2 * size + x2) ==> (x == x2 && y == y2)) by (nonlinear_arith)
        requires
            0 <= x < size,
            0 <= y < size,
            0 <= x2 < size,
            0 <= y2 < size,
    ;
}

/// Setting or clearing bit `k` of a byte leaves its other bits as they were.
pub proof fn lemma_byte_set(x: u8, k: u8, j: u8, dark: bool)
    requires
        k < 8,
        j < 8,
    ensures
        ((((if dark {
            x | (1u8 << k)
        } else {
            x & !(1u8 << k)
        }) >> j) & 1) == 1) == if j == k {
            dark
        } else {
            (x >> j) & 1 == 1
        },
{
    if dark {
        assert(((((x | (1u8 << k)) >> j) & 1) == 1) == if j == k {
            true
        } else {
            (x >> j) & 1 == 1
        }) by (bit_vector)
            requires
                k < 8,
                j < 8,
        ;
    } else {
        assert(((((x & !(1u8 << k)) >> j) & 1) == 1) == if j == k {
            false
        } else {
            (x >> j) & 1 == 1
        }) by (bit_vector)
            requires
                k < 8,
                j < 8,
        ;
    }
}

impl PartialEq for QrCode {
    /// Two symbols are equal where their sides and all their modules are.
    fn eq(&self, other: &QrCode) -> (r: bool) {
        if self.size != other.size || self.modules.len() != other.modules.len() {
            return false;
        }
        let mut i: usize = 0;
        while i < self.modules.len()
            invariant
                self.modules@.len() == other.modules@.len(),
                i <= self.modules@.len(),
                forall|j: int| 0 <= j < i ==> self.modules@[j] == other.modules@[j],
            decreases self.modules@.len() - i,
        {
            if self.modules[i] != other.modules[i] {
                return false;
            }
            i += 1;
        }
        assert(self.modules@ =~= other.modules@);
        true
    }
}

impl vstd::std_specs::cmp::PartialEqSpecImpl for QrCode {
    open spec fn obeys_eq_spec() -> bool {
        true
    }

    open(crate) spec fn eq_spec(&self, other: &QrCode) -> bool {
        self.size == other.size && self.modules@ == other.modules@
    }
}

impl Eq for QrCode {

}

impl QrCode {
    /// The side is that of a version from 1 to 40 and the bytes hold one bit per module.
    pub open(crate) spec fn wf(&self) -> bool {
        &&& 21 <= self.size <= 177
        &&& (self.size - 17) % 4 == 0
        &&& self.modules@.len() == (self.size * self.size + 7) / 8
    }

    /// The side of the symbol, in modules.
    pub open(crate) spec fn spec_size(&self) -> int {
        self.size as int
    }

    /// The version of the symbol.
    pub open(crate) spec fn spec_version(&self) -> int {
        (self.size - 17) / 4
    }

    /// The module at column `x` and row `y` is dark.
    pub open(crate) spec fn module(&self, x: int, y: int) -> bool {
        byte_bit(self.modules@[(y * self.size + x) / 8], (y * self.size + x) % 8)
    }

    /// The modules as a grid: dark modules inside the symbol, light everywhere else.
    pub open(crate) spec fn grid(&self) -> spec_fn(int, int) -> bool {
        |a: int, b: int| 0 <= a < self.size && 0 <= b < self.size && self.module(a, b)
    }

    /// Returns the module at `(x, y)`, which must lie in the grid.
    pub(crate) fn get_module_bounded(&self, x: u8, y: u8) -> (r: bool)
        requires
            self.wf(),
            x < self.size,
            y < self.size,
        ensures
            r == self.module(x as int, y as int),
    {
        proof {
            lemma_cell_index(self.size as int, x as int, y as int, 0, 0);
        }
        let index: usize = y as usize * self.size as usize + x as usize;
        let byte = self.modules[index / 8];
        let bit = (index % 8) as u8;
        (byte >> bit) & 1 == 1
    }

    /// Sets the module at `(x, y)`, which must lie in the grid.
    pub(crate) fn set_module_bounded(&mut self, x: u8, y: u8, isdark: bool)
        requires
            old(self).wf(),
            x < old(self).size,
            y < old(self).size,
        ensures
            final(self).wf(),
            final(self).size == old(self).size,
            forall|a: int, b: int|
                0 <= a < old(self).size && 0 <= b < old(self).size ==> #[trigger] final(self).module(a, b) == if a == x && b == y {
                    isdark
                } else {
                    old(self).module(a, b)
                },
    {
        let ghost old_self = *self;
        let size = self.size;
        proof {
            lemma_cell_index(size as int, x as int, y as int, 0, 0);
        }
        let index: usize = y as usize * size as usize + x as usize;
        let byteindex = index / 8;
        let bitindex = (index % 8) as u8;
        let old_byte = self.modules[byteindex];
        let new_byte = if isdark {
            old_byte | (1u8 << bitindex)
        } else {
            old_byte & !(1u8 << bitindex)
        };
        self.modules.set(byteindex, new_byte);
        proof {
            assert forall|a: int, b: int|
                0 <= a < size && 0 <= b < size implies #[trigger] self.module(a, b) == if a == x
                && b == y {
                isdark
            } else {
                old_self.module(a, b)
            } by {
                lemma_cell_index(size as int, a, b, x as int, y as int);
                let i2 = b * size + a;
                if i2 / 8 == byteindex {
                    lemma_byte_set(old_byte, bitindex, (i2 % 8) as u8, isdark);
                }
            }
        }
    }

    /// Sets the module at `(x, y)` where it lies in the grid; does nothing elsewhere.
    pub(crate) fn set_module_unbounded(&mut self, x: i32, y: i32, isdark: bool)
        requires
            old(self).wf(),
        ensures
            final(self).wf(),
            final(self).size == old(self).size,
            forall|a: int, b: int|
                0 <= a < old(self).size && 0 <= b < old(self).size ==> #[trigger] final(self).module(a, b) == if a == x && b == y {
                    isdark
                } else {
                    old(self).module(a, b)
                },
    {
        let size = self.size as i32;
        if 0 <= x && x < size && 0 <= y && y < size {
            self.set_module_bounded(x as u8, y as u8, isdark);
        }
    }

    /// Makes the modules of a rectangle dark; the rectangle must lie in the grid.
    pub(crate) fn fill_rectangle(&mut self, left: u8, top: u8, width: u8, height: u8)
        requires
            old(self).wf(),
            left + width <= old(self).size,
            top + height <= old(self).size,
        ensures
            final(self).wf(),
            final(self).size == old(self).size,
            forall|a: int, b: int|
                0 <= a < old(self).size && 0 <= b < old(self).size ==> #[trigger] final(self).module(a, b) == (old(self).module(a, b) || in_rect(
                    a,
                    b,
                    left as int,
                    top as int,
                    width as int,
                    height as int,
                )),
    {
        let ghost start = *self;
        let size = self.size;
        let mut dy: u8 = 0;
        while dy < height
            invariant
                self.wf(),
                self.size == size == start.size,
                left + width <= size,
                top + height <= size,
                dy <= height,
                forall|a: int, b: int|
                    0 <= a < size && 0 <= b < size ==> #[trigger] self.module(a, b) == (
                    start.module(a, b) || in_rect(
                        a,
                        b,
                        left as int,
                        top as int,
                        width as int,
                        dy as int,
                    )),
            decreases height - dy,
        {
            let mut dx: u8 = 0;
            while dx < width
                invariant
                    self.wf(),
                    self.size == size == start.size,
                    left + width <= size,
                    top + height <= size,
                    dy < height,
                    dx <= width,
                    forall|a: int, b: int|
                        0 <= a < size && 0 <= b < size ==> #[trigger] self.module(a, b) == (
                        start.module(a, b) || in_rect(
                            a,
                            b,
                            left as int,
                            top as int,
                            width as int,
                            dy as int,
                        ) || (b == top + dy && left <= a < left + dx)),
                decreases width - dx,
            {
                self.set_module_bounded(left + dx, top + dy, true);
                dx += 1;
            }
            dy += 1;
        }
    }

    /// Makes a symbol of side `size` with every module light.
    pub(crate) fn blank(size: u8) -> (r: QrCode)
        requires
            21 <= size <= 177,
            (size - 17) % 4 == 0,
        ensures
            r.wf(),
            r.size == size,
            forall|a: int, b: int| 0 <= a < size && 0 <= b < size ==> !#[trigger] r.module(a, b),
    {
        assert(size as usize * size as usize <= 31329) by (nonlinear_arith)
            requires
                size <= 177,
        ;
        let len: usize = (size as usize * size as usize + 7) / 8;
        let mut modules: Vec<u8> = Vec::new();
        let mut i: usize = 0;
        while i < len
            invariant
                i <= len,
                modules@.len() == i,
                forall|j: int| 0 <= j < i ==> modules@[j] == 0,
            decreases len - i,
        {
            modules.push(0);
            i += 1;
        }
        let r = QrCode { size, modules };
        proof {
            assert forall|a: int, b: int| 0 <= a < size && 0 <= b < size implies !#[trigger] r.module(
                a,
                b,
            ) by {
                lemma_cell_index(size as int, a, b, 0, 0);
                let k = ((b * size + a) % 8) as u8;
                assert((0u8 >> k) & 1 == 0) by (bit_vector);
            }
        }
        r
    }

    /// Returns the version of this symbol, from 1 to 40.
    pub fn version(&self) -> (r: Version)
        requires
            self.wf(),
        ensures
            r.spec_value() == self.spec_version(),
            4 * r.spec_value() + 17 == self.spec_size(),
    {
        Version::new((self.size - 17) / 4)
    }

    /// Returns the side of this symbol, from 21 to 177 modules.
    pub fn size(&self) -> (r: i32)
        requires
            self.wf(),
        ensures
            r == self.spec_size(),
            r == 4 * self.spec_version() + 17,
    {
        self.size as i32
    }

    /// Returns the alignment pattern centre coordinates of this symbol's version, in
    /// increasing order.
    pub(crate) fn get_alignment_pattern_positions(&self) -> (r: Vec<u8>)
        requires
            self.wf(),
        ensures
            r@.len() == align_count(self.spec_version()),
            r@.len() <= 7,
            forall|k: int|
                0 <= k < r@.len() ==> #[trigger] r@[k] as int == align_position(
                    self.spec_version(),
                    k,
                ),
    {
        let ver = self.version().value() as usize;
        let size = self.size as usize;
        let mut result: Vec<u8> = Vec::new();
        if ver == 1 {
            return result;
        }
        let numalign: usize = ver / 7 + 2;
        let step: usize = if ver == 32 {
            26
        } else {
            ((ver * 4 + numalign * 2 + 1) / (numalign * 2 - 2)) * 2
        };
        proof {
            lemma_align_facts(ver as int, 0);
        }
        result.push(6);
        let mut k: usize = 1;
        while k < numalign
            invariant
                2 <= ver <= 40,
                size == 4 * ver + 17,
                numalign == align_count(ver as int),
                step == align_step(ver as int),
                1 <= k <= numalign,
                numalign <= 7,
                result@.len() == k,
                forall|t: int|
                    0 <= t < k ==> #[trigger] result@[t] as int == align_position(ver as int, t),
            decreases numalign - k,
        {
            proof {
                lemma_align_facts(ver as int, k as int);
            }
            let offset = (numalign - 1 - k) * step;
            result.push((size - 7 - offset) as u8);
            k += 1;
        }
        result
    }

    /// Makes a symbol of version `ver` whose dark modules are exactly its function modules.
    pub(crate) fn function_modules_marked(ver: Version) -> (r: QrCode)
        ensures
            r.wf(),
            r.spec_version() == ver.spec_value(),
            r.spec_size() == 4 * ver.spec_value() + 17,
            forall|a: int, b: int|
                0 <= a < r.size && 0 <= b < r.size ==> #[trigger] r.module(a, b)
                    == is_function_module(ver.spec_value(), a, b),
    {
        let v = ver.value();
        let size: u8 = v * 4 + 17;
        let ghost vi = v as int;
        let mut result = QrCode::blank(size);
        result.fill_rectangle(6, 0, 1, size);
        result.fill_rectangle(0, 6, size, 1);
        result.fill_rectangle(0, 0, 9, 9);
        result.fill_rectangle(size - 8, 0, 8, 9);
        result.fill_rectangle(0, size - 8, 9, 8);
        let ghost base = result;
        let alignpatpos = result.get_alignment_pattern_positions();
        let n = alignpatpos.len();
        let mut i: usize = 0;
        while i < n
            invariant
                result.wf(),
                result.size == size,
                size == 4 * vi + 17,
                1 <= vi <= 40,
                n == align_count(vi),
                n <= 7,
                i <= n,
                alignpatpos@.len() == n,
                forall|k: int|
                    0 <= k < n ==> #[trigger] alignpatpos@[k] as int == align_position(vi, k),
                forall|a: int, b: int|
                    0 <= a < size && 0 <= b < size ==> #[trigger] result.module(a, b) == (
                    base.module(a, b) || exists|i2: int, j2: int|
                        i2 < i && #[trigger] in_alignment(vi, i2, j2, a, b)),
            decreases n - i,
        {
            let mut j: usize = 0;
            while j < n
                invariant
                    result.wf(),
                    result.size == size,
                    size == 4 * vi + 17,
                    1 <= vi <= 40,
                    n == align_count(vi),
                    n <= 7,
                    i < n,
                    j <= n,
                    alignpatpos@.len() == n,
                    forall|k: int|
                        0 <= k < n ==> #[trigger] alignpatpos@[k] as int == align_position(vi, k),
                    forall|a: int, b: int|
                        0 <= a < size && 0 <= b < size ==> #[trigger] result.module(a, b) == (
                        base.module(a, b) || exists|i2: int, j2: int|
                            (i2 < i || (i2 == i && j2 < j)) && #[trigger] in_alignment(
                                vi,
                                i2,
                                j2,
                                a,
                                b,
                            )),
                decreases n - j,
            {
                let corner = (i == 0 && j == 0) || (i == 0 && j == n - 1) || (i == n - 1 && j
                    == 0);
                let ghost before = result;
                if !corner {
                    proof {
                        lemma_align_facts(vi, i as int);
                        lemma_align_facts(vi, j as int);
                    }
                    result.fill_rectangle(alignpatpos[i] - 2, alignpatpos[j] - 2, 5, 5);
                }
                proof {
                    assert forall|a: int, b: int| 0 <= a < size && 0 <= b < size implies #[trigger] result.module(
                        a,
                        b,
                    ) == (base.module(a, b) || exists|i2: int, j2: int|
                        (i2 < i || (i2 == i && j2 < j + 1)) && #[trigger] in_alignment(
                            vi,
                            i2,
                            j2,
                            a,
                            b,
                        )) by {
                        if in_alignment(vi, i as int, j as int, a, b) {
                            assert(!corner);
                        }
                        if exists|i2: int, j2: int|
                            (i2 < i || (i2 == i && j2 < j + 1)) && #[trigger] in_alignment(
                                vi,
                                i2,
                                j2,
                                a,
                                b,
                            ) {
                            let (i2, j2) = choose|i2: int, j2: int|
                                (i2 < i || (i2 == i && j2 < j + 1)) && #[trigger] in_alignment(
                                    vi,
                                    i2,
                                    j2,
                                    a,
                                    b,
                                );
                            if i2 == i && j2 == j {
                            } else {
                                assert(before.module(a, b));
                            }
                        }
                    }
                }
                j += 1;
            }
            proof {
                assert forall|a: int, b: int| 0 <= a < size && 0 <= b < size implies #[trigger] result.module(
                    a,
                    b,
                ) == (base.module(a, b) || exists|i2: int, j2: int|
                    i2 < i + 1 && #[trigger] in_alignment(vi, i2, j2, a, b)) by {
                    if exists|i2: int, j2: int| i2 < i + 1 && #[trigger] in_alignment(vi, i2, j2, a, b) {
                        let (i2, j2) = choose|i2: int, j2: int|
                            i2 < i + 1 && #[trigger] in_alignment(vi, i2, j2, a, b);
                        assert((i2 < i || (i2 == i && j2 < n)) && in_alignment(vi, i2, j2, a, b));
                    }
                }
            }
            i += 1;
        }
        if v >= 7 {
            result.fill_rectangle(size - 11, 0, 3, 6);
            result.fill_rectangle(0, size - 11, 6, 3);
        }
        proof {
            assert forall|a: int, b: int| 0 <= a < size && 0 <= b < size implies #[trigger] result.module(
                a,
                b,
            ) == is_function_module(vi, a, b) by {
                if exists|i2: int, j2: int| #[trigger] in_alignment(vi, i2, j2, a, b) {
                    let (i2, j2) = choose|i2: int, j2: int| #[trigger] in_alignment(vi, i2, j2, a, b);
                    assert(i2 < n && in_alignment(vi, i2, j2, a, b));
                }
            }
        }
        result
    }
}

} // verus!
