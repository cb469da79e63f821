use vstd::prelude::*;
use vstd::arithmetic::div_mod::{lemma_fundamental_div_mod, lemma_fundamental_div_mod_converse};
use crate::bits::bytes_bits;
use crate::qrcode::QrCode;

verus! {

/// The right column of column pair `c`, pairs taken from the right edge; column 6 is skipped.
pub open spec fn zz_right(size: int, c: int) -> int {
    if size - 1 - 2 * c > 6 {
        size - 1 - 2 * c
    } else {
        size - 2 - 2 * c
    }
}

/// The column pair whose right column is `r` is read upward.
pub open spec fn zz_upward(r: int) -> bool {
    ((r + 1) / 2) % 2 == 0
}

/// Column of step `t` of the zig-zag: two modules per row, rows upward or downward in turn.
pub open spec fn zz_x(size: int, t: int) -> int {
    zz_right(size, t / (2 * size)) - (t % (2 * size)) % 2
}

/// Row of step `t` of the zig-zag.
pub open spec fn zz_y(size: int, t: int) -> int {
    let vert = (t % (2 * size)) / 2;
    if zz_upward(zz_right(size, t / (2 * size))) {
        size - 1 - vert
    } else {
        vert
    }
}

/// The right column of the pair that holds column `a`.
pub open spec fn zz_pair_right(size: int, a: int) -> int {
    if a > 6 {
        if (size - 1 - a) % 2 == 0 {
            a
        } else {
            a + 1
        }
    } else {
        if a % 2 == 1 {
            a
        } else {
            a + 1
        }
    }
}

/// The step at which the zig-zag reaches `(a, b)`.
pub open spec fn zz_step(size: int, a: int, b: int) -> int {
    let r = zz_pair_right(size, a);
    let c = if r > 6 {
        (size - 1 - r) / 2
    } else {
        (size - 2 - r) / 2
    };
    let vert = if zz_upward(r) {
        size - 1 - b
    } else {
        b
    };
    c * (2 * size) + 2 * vert + (r - a)
}

/// Number of steps of the zig-zag.
pub open spec fn zz_steps(size: int) -> int {
    (size - 1) / 2 * (2 * size)
}

/// Light modules of `g` met in the first `t` steps: the codeword bits placed before step `t`.
pub open spec fn free_before(g: spec_fn(int, int) -> bool, size: int, t: int) -> int
    decreases t,
{
    if t <= 0 {
        0
    } else {
        free_before(g, size, t - 1) + if !g(zz_x(size, t - 1), zz_y(size, t - 1)) {
            1int
        } else {
            0
        }
    }
}

/// The module `(a, b)` of grid `g` once the bits are placed in its light modules, in zig-zag
/// order; modules past the last bit stay as they were.
pub open spec fn placed_module(
    g: spec_fn(int, int) -> bool,
    size: int,
    bits: Seq<bool>,
    a: int,
    b: int,
) -> bool {
    if a != 6 && !g(a, b) && free_before(g, size, zz_step(size, a, b)) < bits.len() {
        bits[free_before(g, size, zz_step(size, a, b))]
    } else {
        g(a, b)
    }
}

/// Each step of the zig-zag reaches a module of the symbol outside column 6, and that module's
/// step is the step itself.
pub proof fn lemma_zz_cell(size: int, t: int)
    requires
        21 <= size <= 177,
        size % 2 == 1,
        0 <= t < zz_steps(size),
    ensures
        0 <= zz_x(size, t) < size,
        zz_x(size, t) != 6,
        0 <= zz_y(size, t) < size,
        zz_step(size, zz_x(size, t), zz_y(size, t)) == t,
{
    let d = 2 * size;
    lemma_fundamental_div_mod(t, d);
    let c = t / d;
    let rem = t % d;
    assert(c < (size - 1) / 2) by (nonlinear_arith)
        requires
            t < (size - 1) / 2 * d,
            t == d * c + rem,
            0 <= rem,
            d > 0,
    ;
    assert(c >= 0) by (nonlinear_arith)
        requires
            t >= 0,
            t == d * c + rem,
            rem < d,
            d > 0,
    ;
    let vert = rem / 2;
    let j = rem % 2;
    assert(d * c == c * d) by (nonlinear_arith);
}

/// Each module outside column 6 is reached by exactly one step of the zig-zag.
pub proof fn lemma_zz_step(size: int, a: int, b: int)
    requires
        21 <= size <= 177,
        size % 2 == 1,
        0 <= a < size,
        0 <= b < size,
        a != 6,
    ensures
        0 <= zz_step(size, a, b) < zz_steps(size),
        zz_x(size, zz_step(size, a, b)) == a,
        zz_y(size, zz_step(size, a, b)) == b,
{
    let d = 2 * size;
    let r = zz_pair_right(size, a);
    let c = if r > 6 {
        (size - 1 - r) / 2
    } else {
        (size - 2 - r) / 2
    };
    let vert = if zz_upward(r) {
        size - 1 - b
    } else {
        b
    };
    let rem = 2 * vert + (r - a);
    let t = c * d + rem;
    assert(zz_step(size, a, b) == t);
    lemma_fundamental_div_mod_converse(t, d, c, rem);
    assert(zz_right(size, c) == r);
    assert(c <= (size - 1) / 2 - 1);
    assert(t < (size - 1) / 2 * d) by (nonlinear_arith)
        requires
            t == c * d + rem,
            rem < d,
            c <= (size - 1) / 2 - 1,
            d > 0,
    ;
    assert(t >= 0) by (nonlinear_arith)
        requires
            t == c * d + rem,
            rem >= 0,
            c >= 0,
            d > 0,
    ;
}

/// No more light modules than steps.
pub proof fn lemma_free_before_bound(g: spec_fn(int, int) -> bool, size: int, t: int)
    requires
        t >= 0,
    ensures
        0 <= free_before(g, size, t) <= t,
    decreases t,
{
    if t > 0 {
        lemma_free_before_bound(g, size, t - 1);
    }
}

impl QrCode {
    /// Draws the bits of `data`, most significant bit of each byte first, into the light
    /// modules outside column 6 in zig-zag order: column pairs from the right edge, two
    /// modules per row, upward and downward in turn. Dark modules, column 6 and light modules
    /// past the last bit stay as they were.
    pub(crate) fn draw_codewords(&mut self, data: &[u8])
        requires
            old(self).wf(),
        ensures
            final(self).wf(),
            final(self).size == old(self).size,
            forall|a: int, b: int|
                0 <= a < old(self).size && 0 <= b < old(self).size ==> #[trigger] final(self).module(
                    a,
                    b,
                ) == placed_module(old(self).grid(), old(self).spec_size(), bytes_bits(data@), a, b),
    {
        let ghost start = *self;
        let ghost g = start.grid();
        let ghost bits = bytes_bits(data@);
        let size: usize = self.size as usize;
        let total: usize = if data.len() <= usize::MAX / 8 {
            data.len() * 8
        } else {
            usize::MAX
        };
        assert((size - 1) / 2 * (2 * size) <= 88 * 354) by (nonlinear_arith)
            requires
                1 <= size <= 177,
        ;
        let steps: usize = (size - 1) / 2 * (2 * size);
        let mut i: usize = 0;
        let mut t: usize = 0;
        while t < steps
            invariant
                self.wf(),
                self.size == start.size,
                size == self.size,
                21 <= size <= 177,
                size % 2 == 1,
                steps == zz_steps(size as int),
                g == start.grid(),
                bits == bytes_bits(data@),
                total <= bits.len(),
                total == bits.len() || total == usize::MAX,
                t <= steps,
                i as int == if free_before(g, size as int, t as int) < total {
                    free_before(g, size as int, t as int)
                } else {
                    total as int
                },
                forall|a: int, b: int|
                    0 <= a < size && 0 <= b < size ==> #[trigger] self.module(a, b) == if a != 6
                        && zz_step(size as int, a, b) < t {
                        placed_module(g, size as int, bits, a, b)
                    } else {
                        start.module(a, b)
                    },
            decreases steps - t,
        {
            proof {
                lemma_zz_cell(size as int, t as int);
            }
            let c = t / (2 * size);
            let rem = t % (2 * size);
            let vert = rem / 2;
            let j = rem % 2;
            let right = if size - 1 - 2 * c > 6 {
                size - 1 - 2 * c
            } else {
                size - 2 - 2 * c
            };
            let x = right - j;
            let upward = ((right + 1) / 2) % 2 == 0;
            let y = if upward {
                size - 1 - vert
            } else {
                vert
            };
            assert(x == zz_x(size as int, t as int) && y == zz_y(size as int, t as int));
            let ghost before = *self;
            proof {
                lemma_free_before_bound(g, size as int, t as int);
                assert(before.module(x as int, y as int) == start.module(x as int, y as int));
                assert(g(x as int, y as int) == start.module(x as int, y as int));
            }
            if !self.get_module_bounded(x as u8, y as u8) && i < total {
                let byte = data[i / 8];
                let bit = (byte >> ((7 - i % 8) as u8)) & 1 == 1;
                assert(bit == bits[i as int]);
                self.set_module_bounded(x as u8, y as u8, bit);
                i += 1;
            }
            proof {
                assert forall|a: int, b: int| 0 <= a < size && 0 <= b < size implies #[trigger] self.module(
                    a,
                    b,
                ) == if a != 6 && zz_step(size as int, a, b) < t + 1 {
                    placed_module(g, size as int, bits, a, b)
                } else {
                    start.module(a, b)
                } by {
                    if a != 6 {
                        lemma_zz_step(size as int, a, b);
                    }
                }
            }
            t += 1;
        }
        proof {
            assert forall|a: int, b: int| 0 <= a < size && 0 <= b < size implies #[trigger] self.module(
                a,
                b,
            ) == placed_module(g, size as int, bits, a, b) by {
                if a != 6 {
                    lemma_zz_step(size as int, a, b);
                }
            }
        }
    }
}

} // verus!
