use vstd::prelude::*;
use vstd::arithmetic::power2::pow2;

verus! {

/// Bit `k` of `x`, counting from the least significant bit.
pub open spec fn u32_bit(x: u32, k: int) -> bool {
    ((x >> (k as u32)) & 1u32) == 1u32
}

/// Bit `k` of byte `b`, counting from the least significant bit.
pub open spec fn byte_bit(b: u8, k: int) -> bool {
    ((b >> (k as u8)) & 1u8) == 1u8
}

/// The bits of a byte sequence, each byte most significant bit first.
pub open spec fn bytes_bits(v: Seq<u8>) -> Seq<bool> {
    Seq::new((v.len() * 8) as nat, |j: int| byte_bit(v[j / 8], 7 - j % 8))
}

/// The low `w` bits of `v`, most significant first.
pub open spec fn low_bits(v: u32, w: nat) -> Seq<bool> {
    Seq::new(w, |k: int| u32_bit(v, w - 1 - k))
}

/// Returns bit `i` of `x`, counting from the least significant bit.
pub fn get_bit(x: u32, i: u8) -> (r: bool)
    requires
        i < 32,
    ensures
        r == u32_bit(x, i as int),
{
    let b = (x >> (i as u32)) & 1;
    assert(b != 0 <==> b == 1) by (bit_vector)
        requires
            b == (x >> (i as u32)) & 1,
    ;
    b != 0
}

/// Setting bit `s` of a byte to `c` with `|` leaves the other bits as they were.
pub proof fn lemma_byte_or(x: u8, c: u8, s: u8, k: u8)
    requires
        c <= 1,
        s < 8,
        k < 8,
    ensures
        k == s ==> ((((x | (c << s)) >> k) & 1 == 1) <==> ((x >> k) & 1 == 1 || c == 1)),
        k != s ==> ((x | (c << s)) >> k) & 1 == (x >> k) & 1,
{
    assert(k == s ==> ((((x | (c << s)) >> k) & 1 == 1) <==> ((x >> k) & 1 == 1 || c == 1)))
        by (bit_vector)
        requires
            c <= 1,
            s < 8,
            k < 8,
    ;
    assert(k != s ==> ((x | (c << s)) >> k) & 1 == (x >> k) & 1) by (bit_vector)
        requires
            c <= 1,
            s < 8,
            k < 8,
    ;
}

/// A byte `c << 7` with `c` a single bit holds `c` in its top bit and zeros below.
pub proof fn lemma_byte_top(c: u8, k: u8)
    requires
        c <= 1,
        k < 8,
    ensures
        (((c << 7u8) >> k) & 1 == 1) <==> (k == 7 && c == 1),
{
    assert((((c << 7u8) >> k) & 1 == 1) <==> (k == 7 && c == 1)) by (bit_vector)
        requires
            c <= 1,
            k < 8,
    ;
}

/// Bit `shift` of a byte, taken out as a `u32`, is a single bit whose value is that bit.
pub proof fn lemma_byte_bit_value(byte: u8, shift: u8)
    requires
        shift < 8,
    ensures
        ((byte >> shift) & 1) as u32 <= 1,
        u32_bit(((byte >> shift) & 1) as u32, 0) == byte_bit(byte, shift as int),
{
    let b = ((byte >> shift) & 1) as u32;
    assert(((byte >> shift) & 1) <= 1) by (bit_vector);
    assert(b <= 1);
    assert((b >> 0u32) & 1 == b) by (bit_vector)
        requires
            b <= 1,
    ;
}

/// The low bits of zero are all zero.
pub proof fn lemma_low_bits_zero(n: nat)
    requires
        n <= 32,
    ensures
        low_bits(0, n) =~= Seq::new(n, |j: int| false),
{
    assert forall|j: int| 0 <= j < n implies !#[trigger] low_bits(0, n)[j] by {
        let k = (n - 1 - j) as u32;
        assert((0u32 >> k) & 1u32 == 0u32) by (bit_vector);
    }
}

/// The eight bits of a pad byte held in a `u32` are those of the byte.
pub proof fn lemma_pad_byte_bits(v: u32)
    requires
        v == 0xEC || v == 0x11,
    ensures
        forall|k: int| 0 <= k < 8 ==> #[trigger] u32_bit(v, k) == byte_bit(v as u8, k),
{
    assert forall|k: int| 0 <= k < 8 implies #[trigger] u32_bit(v, k) == byte_bit(v as u8, k) by {
        let s = k as u32;
        let t = k as u8;
        let b = v as u8;
        assert(((v >> s) & 1u32 == 1u32) == ((b >> t) & 1u8 == 1u8)) by (bit_vector)
            requires
                v == 0xEC || v == 0x11,
                b == v as u8,
                s < 8,
                t == s as u8,
        ;
    }
}

/// An append-only sequence of bits, packed into bytes most significant bit first.
pub struct BitBuffer {
    pub(crate) data: Vec<u8>,
    pub(crate) length: usize,
}

impl View for BitBuffer {
    type V = Seq<bool>;

    open(crate) spec fn view(&self) -> Seq<bool> {
        bytes_bits(self.data@).take(self.length as int)
    }
}

impl BitBuffer {
    /// The bytes hold exactly the bits appended, and zeros after them.
    pub open(crate) spec fn wf(&self) -> bool {
        &&& self.data@.len() == (self.length + 7) / 8
        &&& forall|j: int|
            self.length <= j < self.data@.len() * 8 ==> !#[trigger] bytes_bits(self.data@)[j]
    }

    /// Makes an empty buffer.
    pub fn new() -> (r: BitBuffer)
        ensures
            r.wf(),
            r@.len() == 0,
    {
        BitBuffer { data: Vec::new(), length: 0 }
    }

    /// Returns the number of bits appended so far.
    pub fn len(&self) -> (r: usize)
        requires
            self.wf(),
        ensures
            r == self@.len(),
    {
        self.length
    }

    /// Returns the bytes that hold the bits, the last one padded with zero bits.
    pub fn bytes(&self) -> (r: &Vec<u8>)
        requires
            self.wf(),
        ensures
            bytes_bits(r@).take(self@.len() as int) == self@,
            r@.len() == (self@.len() + 7) / 8,
            forall|j: int| self@.len() <= j < r@.len() * 8 ==> !#[trigger] bytes_bits(r@)[j],
    {
        &self.data
    }

    fn push_bit(&mut self, bit: bool)
        requires
            old(self).wf(),
            old(self).length < usize::MAX,
        ensures
            final(self).wf(),
            final(self)@ == old(self)@.push(bit),
            final(self).length == old(self).length + 1,
    {
        let ghost old_data = self.data@;
        let pos = self.length;
        let shift: u8 = 7 - ((pos % 8) as u8);
        let c: u8 = if bit {
            1
        } else {
            0
        };
        if pos % 8 == 0 {
            self.data.push(c << 7u8);
            proof {
                assert forall|j: int| 0 <= j < self.data@.len() * 8 implies #[trigger] bytes_bits(
                    self.data@,
                )[j] == if j < pos {
                    bytes_bits(old_data)[j]
                } else {
                    j == pos && bit
                } by {
                    if j < pos {
                        assert(j / 8 < old_data.len());
                    } else {
                        assert(j / 8 == pos / 8);
                        lemma_byte_top(c, (7 - j % 8) as u8);
                    }
                }
            }
        } else {
            let idx = pos / 8;
            let old_byte = self.data[idx];
            self.data.set(idx, old_byte | (c << shift));
            proof {
                assert forall|j: int| 0 <= j < self.data@.len() * 8 implies #[trigger] bytes_bits(
                    self.data@,
                )[j] == if j == pos {
                    bit
                } else {
                    bytes_bits(old_data)[j]
                } by {
                    if j / 8 == idx {
                        lemma_byte_or(old_byte, c, shift, (7 - j % 8) as u8);
                        if j == pos {
                            assert(!bytes_bits(old_data)[j]);
                        }
                    }
                }
            }
        }
        self.length = pos + 1;
        assert(self@ =~= old(self)@.push(bit));
    }

    /// Appends the low `len` bits of `val`, most significant first.
    pub fn append_bits(&mut self, val: u32, len: u8)
        requires
            old(self).wf(),
            len <= 31,
            val < pow2(len as nat),
            old(self)@.len() + len <= usize::MAX,
        ensures
            final(self).wf(),
            final(self)@ == old(self)@ + low_bits(val, len as nat),
    {
        let ghost start = self@;
        let mut i: u8 = len;
        while i > 0
            invariant
                self.wf(),
                i <= len <= 31,
                self.length == start.len() + (len - i),
                start.len() + len <= usize::MAX,
                self@ == start + low_bits(val, len as nat).take(len - i),
            decreases i,
        {
            let bit = get_bit(val, i - 1);
            self.push_bit(bit);
            i = i - 1;
            assert(low_bits(val, len as nat).take(len - i) =~= low_bits(val, len as nat).take(
                len - i - 1,
            ).push(bit));
        }
        assert(low_bits(val, len as nat).take(len as int) =~= low_bits(val, len as nat));
    }
}

} // verus!
