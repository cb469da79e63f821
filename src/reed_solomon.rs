use vstd::prelude::*;
use crate::bits::byte_bit;

verus! {

/// Multiplication by `x` in GF(2^8), reduced modulo the polynomial 0x11D.
pub open spec fn gf_double(z: u8) -> u8 {
    if z >= 128 {
        (((z - 128) * 2) as u8) ^ 0x1du8
    } else {
        (z * 2) as u8
    }
}

/// The product of `x` and the top `n` bits of `y` in GF(2^8), by shift and add.
pub open spec fn gf_mul_prefix(x: u8, y: u8, n: nat) -> u8
    decreases n,
{
    if n == 0 {
        0
    } else {
        let d = gf_double(gf_mul_prefix(x, y, (n - 1) as nat));
        if byte_bit(y, 8 - n) {
            d ^ x
        } else {
            d
        }
    }
}

/// The product of `x` and `y` in GF(2^8) modulo 0x11D.
pub open spec fn gf_mul(x: u8, y: u8) -> u8 {
    gf_mul_prefix(x, y, 8)
}

/// The generator `0x02` raised to the power `k`.
pub open spec fn gf_pow2(k: nat) -> u8
    decreases k,
{
    if k == 0 {
        1
    } else {
        gf_mul(gf_pow2((k - 1) as nat), 2)
    }
}

/// Multiplies the monic polynomial whose coefficients below the leading one are `div`
/// (highest first) by `(x - root)`.
pub open spec fn divisor_step(div: Seq<u8>, root: u8) -> Seq<u8> {
    Seq::new(
        div.len(),
        |j: int|
            gf_mul(div[j], root) ^ if j + 1 < div.len() {
                div[j + 1]
            } else {
                0u8
            },
    )
}

/// The product of `(x - 2^i)` for `i` below `k`, as coefficients of degree `degree - 1` down
/// to 0 (the leading one left out).
pub open spec fn divisor_after(degree: nat, k: nat) -> Seq<u8>
    decreases k,
{
    if k == 0 {
        Seq::new(
            degree,
            |j: int|
                if j == degree - 1 {
                    1u8
                } else {
                    0u8
                },
        )
    } else {
        divisor_step(divisor_after(degree, (k - 1) as nat), gf_pow2((k - 1) as nat))
    }
}

/// The Reed-Solomon generator polynomial of the given degree.
pub open spec fn rs_divisor(degree: nat) -> Seq<u8> {
    divisor_after(degree, degree)
}

/// One step of polynomial division: the remainder `rem` after one more data byte `b`.
pub open spec fn rs_step(rem: Seq<u8>, b: u8, div: Seq<u8>) -> Seq<u8> {
    let factor = b ^ rem[0];
    Seq::new(
        rem.len(),
        |j: int|
            (if j + 1 < rem.len() {
                rem[j + 1]
            } else {
                0u8
            }) ^ gf_mul(div[j], factor),
    )
}

/// The remainder of the data polynomial, times `x^degree`, divided by the generator `div`.
pub open spec fn rs_remainder(data: Seq<u8>, div: Seq<u8>) -> Seq<u8>
    decreases data.len(),
{
    if data.len() == 0 {
        Seq::new(div.len(), |j: int| 0u8)
    } else {
        rs_step(rs_remainder(data.drop_last(), div), data.last(), div)
    }
}

/// The remainder is as long as the divisor.
pub proof fn lemma_remainder_len(data: Seq<u8>, div: Seq<u8>)
    ensures
        rs_remainder(data, div).len() == div.len(),
    decreases data.len(),
{
    if data.len() > 0 {
        lemma_remainder_len(data.drop_last(), div);
    }
}

/// The generator keeps its degree.
pub proof fn lemma_divisor_len(degree: nat, k: nat)
    ensures
        divisor_after(degree, k).len() == degree,
    decreases k,
{
    if k > 0 {
        lemma_divisor_len(degree, (k - 1) as nat);
    }
}

/// A Reed-Solomon generator of a fixed degree, from 1 to 30.
pub struct ReedSolomonGenerator {
    pub(crate) divisor: Vec<u8>,
    pub(crate) degree: usize,
}

impl ReedSolomonGenerator {
    /// The divisor holds the generator polynomial of the degree.
    pub open(crate) spec fn wf(&self) -> bool {
        &&& 1 <= self.degree <= 30
        &&& self.divisor@ == rs_divisor(self.degree as nat)
    }

    /// Makes the generator of degree `degree`, which must lie in 1 to 30.
    pub(crate) fn new(degree: usize) -> (r: ReedSolomonGenerator)
        requires
            1 <= degree <= 30,
        ensures
            r.wf(),
            r.degree == degree,
    {
        let mut divisor: Vec<u8> = Vec::new();
        let mut j: usize = 0;
        while j < degree
            invariant
                j <= degree,
                divisor@ == Seq::new(
                    j as nat,
                    |t: int|
                        if t == degree - 1 {
                            1u8
                        } else {
                            0u8
                        },
                ),
            decreases degree - j,
        {
            divisor.push(
                if j == degree - 1 {
                    1
                } else {
                    0
                },
            );
            j += 1;
            assert(divisor@ =~= Seq::new(
                j as nat,
                |t: int|
                    if t == degree - 1 {
                        1u8
                    } else {
                        0u8
                    },
            ));
        }
        assert(divisor@ =~= divisor_after(degree as nat, 0));
        let mut root: u8 = 1;
        let mut i: usize = 0;
        while i < degree
            invariant
                i <= degree,
                divisor@ == divisor_after(degree as nat, i as nat),
                divisor@.len() == degree,
                root == gf_pow2(i as nat),
            decreases degree - i,
        {
            let ghost prev = divisor@;
            let mut j: usize = 0;
            while j < degree
                invariant
                    j <= degree,
                    divisor@.len() == degree,
                    prev.len() == degree,
                    forall|t: int|
                        0 <= t < j ==> #[trigger] divisor@[t] == divisor_step(prev, root)[t],
                    forall|t: int| j <= t < degree ==> #[trigger] divisor@[t] == prev[t],
                decreases degree - j,
            {
                let m = Self::multiply(divisor[j], root);
                let v = if j + 1 < degree {
                    m ^ divisor[j + 1]
                } else {
                    m ^ 0
                };
                divisor.set(j, v);
                j += 1;
            }
            assert(divisor@ =~= divisor_step(prev, root));
            root = Self::multiply(root, 0x02);
            i += 1;
        }
        ReedSolomonGenerator { divisor, degree }
    }

    /// Returns the `degree` error correction bytes of the data block `data`.
    pub(crate) fn compute_remainder(&self, data: &[u8]) -> (r: Vec<u8>)
        requires
            self.wf(),
        ensures
            r@ == rs_remainder(data@, self.divisor@),
            r@.len() == self.degree,
    {
        proof {
            lemma_divisor_len(self.degree as nat, self.degree as nat);
        }
        let deg = self.degree;
        let mut rem: Vec<u8> = Vec::new();
        let mut j: usize = 0;
        while j < deg
            invariant
                j <= deg,
                rem@ == Seq::new(j as nat, |t: int| 0u8),
            decreases deg - j,
        {
            rem.push(0);
            j += 1;
            assert(rem@ =~= Seq::new(j as nat, |t: int| 0u8));
        }
        assert(data@.take(0) =~= Seq::<u8>::empty());
        let mut k: usize = 0;
        while k < data.len()
            invariant
                self.wf(),
                deg == self.degree,
                self.divisor@.len() == deg,
                k <= data@.len(),
                rem@ == rs_remainder(data@.take(k as int), self.divisor@),
                rem@.len() == deg,
            decreases data@.len() - k,
        {
            let factor = data[k] ^ rem[0];
            let mut next: Vec<u8> = Vec::new();
            let mut j: usize = 0;
            while j < deg
                invariant
                    j <= deg,
                    rem@.len() == deg,
                    self.divisor@.len() == deg,
                    factor == data@[k as int] ^ rem@[0],
                    next@ == rs_step(rem@, data@[k as int], self.divisor@).take(j as int),
                decreases deg - j,
            {
                let shifted = if j + 1 < deg {
                    rem[j + 1]
                } else {
                    0
                };
                next.push(shifted ^ Self::multiply(self.divisor[j], factor));
                j += 1;
                assert(next@ =~= rs_step(rem@, data@[k as int], self.divisor@).take(j as int));
            }
            assert(data@.take(k + 1).drop_last() =~= data@.take(k as int));
            assert(next@ =~= rs_step(rem@, data@[k as int], self.divisor@));
            rem = next;
            k += 1;
        }
        assert(data@.take(k as int) =~= data@);
        rem
    }

    /// Returns the product of `x` and `y` in GF(2^8) modulo 0x11D.
    pub(crate) fn multiply(x: u8, y: u8) -> (r: u8)
        ensures
            r == gf_mul(x, y),
    {
        let mut z: u8 = 0;
        let mut i: u8 = 8;
        while i > 0
            invariant
                i <= 8,
                z == gf_mul_prefix(x, y, (8 - i) as nat),
            decreases i,
        {
            i -= 1;
            z = if z >= 128 {
                ((z - 128) * 2) ^ 0x1d
            } else {
                z * 2
            };
            if (y >> i) & 1 == 1 {
                z = z ^ x;
            }
        }
        z
    }
}

} // verus!
