use vstd::prelude::*;
use crate::text::{decimal, push_decimal};

verus! {

/// Error correction level of a symbol.
#[derive(Clone, Copy, PartialEq, Eq, Structural, PartialOrd, Ord, Debug)]
pub enum QrCodeEcc {
    /// Tolerates about 7% erroneous codewords.
    Low,
    /// Tolerates about 15% erroneous codewords.
    Medium,
    /// Tolerates about 25% erroneous codewords.
    Quartile,
    /// Tolerates about 30% erroneous codewords.
    High,
}

/// Index of a level in the capacity tables.
pub open spec fn ecc_ordinal(e: QrCodeEcc) -> int {
    match e {
        QrCodeEcc::Low => 0,
        QrCodeEcc::Medium => 1,
        QrCodeEcc::Quartile => 2,
        QrCodeEcc::High => 3,
    }
}

/// Two-bit code of a level in the format information field.
pub open spec fn ecc_format_code(e: QrCodeEcc) -> u8 {
    match e {
        QrCodeEcc::Low => 1,
        QrCodeEcc::Medium => 0,
        QrCodeEcc::Quartile => 3,
        QrCodeEcc::High => 2,
    }
}

/// The level whose format code is `c`.
pub open spec fn ecc_of_format_code(c: u8) -> QrCodeEcc {
    if c == 0 {
        QrCodeEcc::Medium
    } else if c == 1 {
        QrCodeEcc::Low
    } else if c == 2 {
        QrCodeEcc::High
    } else {
        QrCodeEcc::Quartile
    }
}

impl QrCodeEcc {
    /// Returns the table index of this level, in the range 0 to 3.
    pub(crate) fn ordinal(self) -> (r: usize)
        ensures
            r as int == ecc_ordinal(self),
    {
        match self {
            QrCodeEcc::Low => 0,
            QrCodeEcc::Medium => 1,
            QrCodeEcc::Quartile => 2,
            QrCodeEcc::High => 3,
        }
    }

    /// Returns the two-bit format code of this level.
    pub(crate) fn format_bits(self) -> (r: u8)
        ensures
            r == ecc_format_code(self),
            r < 4,
    {
        match self {
            QrCodeEcc::Low => 1,
            QrCodeEcc::Medium => 0,
            QrCodeEcc::Quartile => 3,
            QrCodeEcc::High => 2,
        }
    }
}


/// A symbol version, from 1 to 40. The side of the symbol is `4 * version + 17` modules.
#[derive(Copy, Clone, PartialEq, Eq, Structural, PartialOrd, Ord, Debug)]
pub struct Version(u8);

impl Version {
    #[verifier::type_invariant]
    spec fn inv(self) -> bool {
        1 <= self.0 <= 40
    }

    /// The number held, from 1 to 40.
    pub closed spec fn spec_value(self) -> int {
        self.0 as int
    }

    /// Makes a version from its number, which must lie in 1 to 40.
    pub fn new(ver: u8) -> (r: Version)
        requires
            1 <= ver <= 40,
        ensures
            r.spec_value() == ver as int,
    {
        Version(ver)
    }

    /// Returns the number of this version, in the range 1 to 40.
    pub fn value(self) -> (r: u8)
        ensures
            r as int == self.spec_value(),
            1 <= r <= 40,
    {
        proof {
            use_type_invariant(self);
        }
        self.0
    }

    /// Returns the number of bytes that hold a symbol of this version: one for the side,
    /// then one bit for each module.
    pub fn buffer_len(self) -> (r: usize)
        ensures
            r as int == buffer_len_of(self.spec_value()),
    {
        let v = self.value() as usize;
        let side: usize = v * 4 + 17;
        assert(side * side <= 177 * 177) by (nonlinear_arith)
            requires
                side <= 177,
        ;
        (side * side + 7) / 8 + 1
    }
}

/// Bytes needed for a symbol of version `ver`, side byte included.
pub open spec fn buffer_len_of(ver: int) -> int {
    ((4 * ver + 17) * (4 * ver + 17) + 7) / 8 + 1
}

/// A mask pattern, from 0 to 7.
#[derive(Copy, Clone, PartialEq, Eq, Structural, PartialOrd, Ord, Debug)]
pub struct Mask(u8);

impl Mask {
    #[verifier::type_invariant]
    spec fn inv(self) -> bool {
        self.0 <= 7
    }

    /// The number held, from 0 to 7.
    pub closed spec fn spec_value(self) -> int {
        self.0 as int
    }

    /// Makes a mask from its number, which must lie in 0 to 7.
    pub fn new(mask: u8) -> (r: Mask)
        requires
            mask <= 7,
        ensures
            r.spec_value() == mask as int,
    {
        Mask(mask)
    }

    /// Returns the number of this mask, in the range 0 to 7.
    pub fn value(self) -> (r: u8)
        ensures
            r as int == self.spec_value(),
            r <= 7,
    {
        proof {
            use_type_invariant(self);
        }
        self.0
    }
}

/// The error returned when the data cannot be held by any allowed symbol.
#[derive(Debug, Clone, PartialEq, Eq, Structural)]
pub enum DataTooLong {
    /// A segment's character count does not fit its count field, or the bit total overflows.
    SegmentTooLong,
    /// The data needs the first number of bits; the largest allowed symbol holds the second.
    DataOverCapacity(usize, usize),
}

impl DataTooLong {
    /// Returns a description of the error.
    pub fn message(&self) -> (r: String)
        ensures
            r@ == match self {
                DataTooLong::SegmentTooLong => "Segment too long"@,
                DataTooLong::DataOverCapacity(used, capacity) => "Data length = "@ + decimal(
                    *used as nat,
                ) + " bits, Max capacity = "@ + decimal(*capacity as nat) + " bits"@,
            },
    {
        match self {
            DataTooLong::SegmentTooLong => String::from_str("Segment too long"),
            DataTooLong::DataOverCapacity(used, capacity) => {
                let mut r = String::from_str("Data length = ");
                push_decimal(&mut r, *used as u64);
                r.append(" bits, Max capacity = ");
                push_decimal(&mut r, *capacity as u64);
                r.append(" bits");
                r
            },
        }
    }
}

/// Modules of a symbol of version `ver` that hold codeword bits, remainder bits included:
/// all modules but the finder, separator, timing, alignment, format and version modules.
pub open spec fn raw_data_modules(ver: int) -> int {
    let base = (16 * ver + 128) * ver + 64;
    if ver >= 2 {
        let na = ver / 7 + 2;
        let r = base - ((25 * na - 10) * na - 55);
        if ver >= 7 {
            r - 36
        } else {
            r
        }
    } else {
        base
    }
}

/// Codewords, data and error correction together, that a symbol of version `ver` holds.
pub open spec fn raw_codewords(ver: int) -> int {
    raw_data_modules(ver) / 8
}

/// Data codewords that a symbol of version `ver` holds at level `e`.
pub open spec fn data_codewords(ver: int, e: QrCodeEcc) -> int {
    raw_codewords(ver) - ecc_per_block(e, ver) * num_ecc_blocks(e, ver)
}

/// Error correction codewords in each block, by level and version (index 0 is unused).
pub open spec fn ecc_per_block(e: QrCodeEcc, ver: int) -> int {
    match e {
        QrCodeEcc::Low => seq![0u8, 7, 10, 15, 20, 26, 18, 20, 24, 30, 18, 20, 24, 26, 30, 22, 24, 28, 30, 28, 28, 28, 28, 30, 30, 26, 28, 30, 30, 30, 30, 30, 30, 30, 30, 30, 30, 30, 30, 30, 30][ver] as int,
        QrCodeEcc::Medium => seq![0u8, 10, 16, 26, 18, 24, 16, 18, 22, 22, 26, 30, 22, 22, 24, 24, 28, 28, 26, 26, 26, 26, 28, 28, 28, 28, 28, 28, 28, 28, 28, 28, 28, 28, 28, 28, 28, 28, 28, 28, 28][ver] as int,
        QrCodeEcc::Quartile => seq![0u8, 13, 22, 18, 26, 18, 24, 18, 22, 20, 24, 28, 26, 24, 20, 30, 24, 28, 28, 26, 30, 28, 30, 30, 30, 30, 28, 30, 30, 30, 30, 30, 30, 30, 30, 30, 30, 30, 30, 30, 30][ver] as int,
        QrCodeEcc::High => seq![0u8, 17, 28, 22, 16, 22, 28, 26, 26, 24, 28, 24, 28, 22, 24, 24, 30, 28, 28, 26, 28, 30, 24, 30, 30, 30, 30, 30, 30, 30, 30, 30, 30, 30, 30, 30, 30, 30, 30, 30, 30][ver] as int,
    }
}

/// Number of error correction blocks, by level and version (index 0 is unused).
pub open spec fn num_ecc_blocks(e: QrCodeEcc, ver: int) -> int {
    match e {
        QrCodeEcc::Low => seq![0u8, 1, 1, 1, 1, 1, 2, 2, 2, 2, 4, 4, 4, 4, 4, 6, 6, 6, 6, 7, 8, 8, 9, 9, 10, 12, 12, 12, 13, 14, 15, 16, 17, 18, 19, 19, 20, 21, 22, 24, 25][ver] as int,
        QrCodeEcc::Medium => seq![0u8, 1, 1, 1, 2, 2, 4, 4, 4, 5, 5, 5, 8, 9, 9, 10, 10, 11, 13, 14, 16, 17, 17, 18, 20, 21, 23, 25, 26, 28, 29, 31, 33, 35, 37, 38, 40, 43, 45, 47, 49][ver] as int,
        QrCodeEcc::Quartile => seq![0u8, 1, 1, 2, 2, 4, 4, 6, 6, 8, 8, 8, 10, 12, 16, 12, 17, 16, 18, 21, 20, 23, 23, 25, 27, 29, 34, 34, 35, 38, 40, 43, 45, 48, 51, 53, 56, 59, 62, 65, 68][ver] as int,
        QrCodeEcc::High => seq![0u8, 1, 1, 2, 4, 4, 4, 5, 6, 8, 8, 11, 11, 16, 16, 18, 16, 19, 21, 25, 25, 25, 34, 30, 32, 35, 37, 40, 42, 45, 48, 51, 54, 57, 60, 63, 66, 70, 74, 77, 81][ver] as int,
    }
}

/// What the tables give for every version: block sizes that the Reed-Solomon generator
/// accepts, and at least one data codeword in each block.
#[verifier::rlimit(50)]
pub proof fn lemma_table_facts(e: QrCodeEcc, ver: int)
    requires
        1 <= ver <= 40,
    ensures
        1 <= ecc_per_block(e, ver) <= 30,
        1 <= num_ecc_blocks(e, ver) <= 81,
        num_ecc_blocks(e, ver) * (ecc_per_block(e, ver) + 1) <= raw_codewords(ver),
        26 <= raw_codewords(ver) <= 3706,
        208 <= raw_data_modules(ver) <= 29648,
{
    if ver == 1 {
        assert(1int / 7 == 0);
        assert((16 * 1int + 128) * 1int + 64 == 208) by (nonlinear_arith);
        assert((25 * 2int - 10) * 2int - 55 == 25) by (nonlinear_arith);
        assert(raw_data_modules(1) == 208);
        assert(raw_codewords(1) == 26);
        match e {
            QrCodeEcc::Low => {
                assert(ecc_per_block(e, 1) == 7 && num_ecc_blocks(e, 1) == 1);
                assert(1int * (7int + 1) == 8) by (nonlinear_arith);
            },
            QrCodeEcc::Medium => {
                assert(ecc_per_block(e, 1) == 10 && num_ecc_blocks(e, 1) == 1);
                assert(1int * (10int + 1) == 11) by (nonlinear_arith);
            },
            QrCodeEcc::Quartile => {
                assert(ecc_per_block(e, 1) == 13 && num_ecc_blocks(e, 1) == 1);
                assert(1int * (13int + 1) == 14) by (nonlinear_arith);
            },
            QrCodeEcc::High => {
                assert(ecc_per_block(e, 1) == 17 && num_ecc_blocks(e, 1) == 1);
                assert(1int * (17int + 1) == 18) by (nonlinear_arith);
            },
        }
    } else if ver == 2 {
        assert(2int / 7 == 0);
        assert((16 * 2int + 128) * 2int + 64 == 384) by (nonlinear_arith);
        assert((25 * 2int - 10) * 2int - 55 == 25) by (nonlinear_arith);
        assert(raw_data_modules(2) == 359);
        assert(raw_codewords(2) == 44);
        match e {
            QrCodeEcc::Low => {
                assert(ecc_per_block(e, 2) == 10 && num_ecc_blocks(e, 2) == 1);
                assert(1int * (10int + 1) == 11) by (nonlinear_arith);
            },
            QrCodeEcc::Medium => {
                assert(ecc_per_block(e, 2) == 16 && num_ecc_blocks(e, 2) == 1);
                assert(1int * (16int + 1) == 17) by (nonlinear_arith);
            },
            QrCodeEcc::Quartile => {
                assert(ecc_per_block(e, 2) == 22 && num_ecc_blocks(e, 2) == 1);
                assert(1int * (22int + 1) == 23) by (nonlinear_arith);
            },
            QrCodeEcc::High => {
                assert(ecc_per_block(e, 2) == 28 && num_ecc_blocks(e, 2) == 1);
                assert(1int * (28int + 1) == 29) by (nonlinear_arith);
            },
        }
    } else if ver == 3 {
        assert(3int / 7 == 0);
        assert((16 * 3int + 128) * 3int + 64 == 592) by (nonlinear_arith);
        assert((25 * 2int - 10) * 2int - 55 == 25) by (nonlinear_arith);
        assert(raw_data_modules(3) == 567);
        assert(raw_codewords(3) == 70);
        match e {
            QrCodeEcc::Low => {
                assert(ecc_per_block(e, 3) == 15 && num_ecc_blocks(e, 3) == 1);
                assert(1int * (15int + 1) == 16) by (nonlinear_arith);
            },
            QrCodeEcc::Medium => {
                assert(ecc_per_block(e, 3) == 26 && num_ecc_blocks(e, 3) == 1);
                assert(1int * (26int + 1) == 27) by (nonlinear_arith);
            },
            QrCodeEcc::Quartile => {
                assert(ecc_per_block(e, 3) == 18 && num_ecc_blocks(e, 3) == 2);
                assert(2int * (18int + 1) == 38) by (nonlinear_arith);
            },
            QrCodeEcc::High => {
                assert(ecc_per_block(e, 3) == 22 && num_ecc_blocks(e, 3) == 2);
                assert(2int * (22int + 1) == 46) by (nonlinear_arith);
            },
        }
    } else if ver == 4 {
        assert(4int / 7 == 0);
        assert((16 * 4int + 128) * 4int + 64 == 832) by (nonlinear_arith);
        assert((25 * 2int - 10) * 2int - 55 == 25) by (nonlinear_arith);
        assert(raw_data_modules(4) == 807);
        assert(raw_codewords(4) == 100);
        match e {
            QrCodeEcc::Low => {
                assert(ecc_per_block(e, 4) == 20 && num_ecc_blocks(e, 4) == 1);
                assert(1int * (20int + 1) == 21) by (nonlinear_arith);
            },
            QrCodeEcc::Medium => {
                assert(ecc_per_block(e, 4) == 18 && num_ecc_blocks(e, 4) == 2);
                assert(2int * (18int + 1) == 38) by (nonlinear_arith);
            },
            QrCodeEcc::Quartile => {
                assert(ecc_per_block(e, 4) == 26 && num_ecc_blocks(e, 4) == 2);
                assert(2int * (26int + 1) == 54) by (nonlinear_arith);
            },
            QrCodeEcc::High => {
                assert(ecc_per_block(e, 4) == 16 && num_ecc_blocks(e, 4) == 4);
                assert(4int * (16int + 1) == 68) by (nonlinear_arith);
            },
        }
    } else if ver == 5 {
        assert(5int / 7 == 0);
        assert((16 * 5int + 128) * 5int + 64 == 1104) by (nonlinear_arith);
        assert((25 * 2int - 10) * 2int - 55 == 25) by (nonlinear_arith);
        assert(raw_data_modules(5) == 1079);
        assert(raw_codewords(5) == 134);
        match e {
            QrCodeEcc::Low => {
                assert(ecc_per_block(e, 5) == 26 && num_ecc_blocks(e, 5) == 1);
                assert(1int * (26int + 1) == 27) by (nonlinear_arith);
            },
            QrCodeEcc::Medium => {
                assert(ecc_per_block(e, 5) == 24 && num_ecc_blocks(e, 5) == 2);
                assert(2int * (24int + 1) == 50) by (nonlinear_arith);
            },
            QrCodeEcc::Quartile => {
                assert(ecc_per_block(e, 5) == 18 && num_ecc_blocks(e, 5) == 4);
                assert(4int * (18int + 1) == 76) by (nonlinear_arith);
            },
            QrCodeEcc::High => {
                assert(ecc_per_block(e, 5) == 22 && num_ecc_blocks(e, 5) == 4);
                assert(4int * (22int + 1) == 92) by (nonlinear_arith);
            },
        }
    } else if ver == 6 {
        assert(6int / 7 == 0);
        assert((16 * 6int + 128) * 6int + 64 == 1408) by (nonlinear_arith);
        assert((25 * 2int - 10) * 2int - 55 == 25) by (nonlinear_arith);
        assert(raw_data_modules(6) == 1383);
        assert(raw_codewords(6) == 172);
        match e {
            QrCodeEcc::Low => {
                assert(ecc_per_block(e, 6) == 18 && num_ecc_blocks(e, 6) == 2);
                assert(2int * (18int + 1) == 38) by (nonlinear_arith);
            },
            QrCodeEcc::Medium => {
                assert(ecc_per_block(e, 6) == 16 && num_ecc_blocks(e, 6) == 4);
                assert(4int * (16int + 1) == 68) by (nonlinear_arith);
            },
            QrCodeEcc::Quartile => {
                assert(ecc_per_block(e, 6) == 24 && num_ecc_blocks(e, 6) == 4);
                assert(4int * (24int + 1) == 100) by (nonlinear_arith);
            },
            QrCodeEcc::High => {
                assert(ecc_per_block(e, 6) == 28 && num_ecc_blocks(e, 6) == 4);
                assert(4int * (28int + 1) == 116) by (nonlinear_arith);
            },
        }
    } else if ver == 7 {
        assert(7int / 7 == 1);
        assert((16 * 7int + 128) * 7int + 64 == 1744) by (nonlinear_arith);
        assert((25 * 3int - 10) * 3int - 55 == 140) by (nonlinear_arith);
        assert(raw_data_modules(7) == 1568);
        assert(raw_codewords(7) == 196);
        match e {
            QrCodeEcc::Low => {
                assert(ecc_per_block(e, 7) == 20 && num_ecc_blocks(e, 7) == 2);
                assert(2int * (20int + 1) == 42) by (nonlinear_arith);
            },
            QrCodeEcc::Medium => {
                assert(ecc_per_block(e, 7) == 18 && num_ecc_blocks(e, 7) == 4);
                assert(4int * (18int + 1) == 76) by (nonlinear_arith);
            },
            QrCodeEcc::Quartile => {
                assert(ecc_per_block(e, 7) == 18 && num_ecc_blocks(e, 7) == 6);
                assert(6int * (18int + 1) == 114) by (nonlinear_arith);
            },
            QrCodeEcc::High => {
                assert(ecc_per_block(e, 7) == 26 && num_ecc_blocks(e, 7) == 5);
                assert(5int * (26int + 1) == 135) by (nonlinear_arith);
            },
        }
    } else if ver == 8 {
        assert(8int / 7 == 1);
        assert((16 * 8int + 128) * 8int + 64 == 2112) by (nonlinear_arith);
        assert((25 * 3int - 10) * 3int - 55 == 140) by (nonlinear_arith);
        assert(raw_data_modules(8) == 1936);
        assert(raw_codewords(8) == 242);
        match e {
            QrCodeEcc::Low => {
                assert(ecc_per_block(e, 8) == 24 && num_ecc_blocks(e, 8) == 2);
                assert(2int * (24int + 1) == 50) by (nonlinear_arith);
            },
            QrCodeEcc::Medium => {
                assert(ecc_per_block(e, 8) == 22 && num_ecc_blocks(e, 8) == 4);
                assert(4int * (22int + 1) == 92) by (nonlinear_arith);
            },
            QrCodeEcc::Quartile => {
                assert(ecc_per_block(e, 8) == 22 && num_ecc_blocks(e, 8) == 6);
                assert(6int * (22int + 1) == 138) by (nonlinear_arith);
            },
            QrCodeEcc::High => {
                assert(ecc_per_block(e, 8) == 26 && num_ecc_blocks(e, 8) == 6);
                assert(6int * (26int + 1) == 162) by (nonlinear_arith);
            },
        }
    } else if ver == 9 {
        assert(9int / 7 == 1);
        assert((16 * 9int + 128) * 9int + 64 == 2512) by (nonlinear_arith);
        assert((25 * 3int - 10) * 3int - 55 == 140) by (nonlinear_arith);
        assert(raw_data_modules(9) == 2336);
        assert(raw_codewords(9) == 292);
        match e {
            QrCodeEcc::Low => {
                assert(ecc_per_block(e, 9) == 30 && num_ecc_blocks(e, 9) == 2);
                assert(2int * (30int + 1) == 62) by (nonlinear_arith);
            },
            QrCodeEcc::Medium => {
                assert(ecc_per_block(e, 9) == 22 && num_ecc_blocks(e, 9) == 5);
                assert(5int * (22int + 1) == 115) by (nonlinear_arith);
            },
            QrCodeEcc::Quartile => {
                assert(ecc_per_block(e, 9) == 20 && num_ecc_blocks(e, 9) == 8);
                assert(8int * (20int + 1) == 168) by (nonlinear_arith);
            },
            QrCodeEcc::High => {
                assert(ecc_per_block(e, 9) == 24 && num_ecc_blocks(e, 9) == 8);
                assert(8int * (24int + 1) == 200) by (nonlinear_arith);
            },
        }
    } else if ver == 10 {
        assert(10int / 7 == 1);
        assert((16 * 10int + 128) * 10int + 64 == 2944) by (nonlinear_arith);
        assert((25 * 3int - 10) * 3int - 55 == 140) by (nonlinear_arith);
        assert(raw_data_modules(10) == 2768);
        assert(raw_codewords(10) == 346);
        match e {
            QrCodeEcc::Low => {
                assert(ecc_per_block(e, 10) == 18 && num_ecc_blocks(e, 10) == 4);
                assert(4int * (18int + 1) == 76) by (nonlinear_arith);
            },
            QrCodeEcc::Medium => {
                assert(ecc_per_block(e, 10) == 26 && num_ecc_blocks(e, 10) == 5);
                assert(5int * (26int + 1) == 135) by (nonlinear_arith);
            },
            QrCodeEcc::Quartile => {
                assert(ecc_per_block(e, 10) == 24 && num_ecc_blocks(e, 10) == 8);
                assert(8int * (24int + 1) == 200) by (nonlinear_arith);
            },
            QrCodeEcc::High => {
                assert(ecc_per_block(e, 10) == 28 && num_ecc_blocks(e, 10) == 8);
                assert(8int * (28int + 1) == 232) by (nonlinear_arith);
            },
        }
    } else if ver == 11 {
        assert(11int / 7 == 1);
        assert((16 * 11int + 128) * 11int + 64 == 3408) by (nonlinear_arith);
        assert((25 * 3int - 10) * 3int - 55 == 140) by (nonlinear_arith);
        assert(raw_data_modules(11) == 3232);
        assert(raw_codewords(11) == 404);
        match e {
            QrCodeEcc::Low => {
                assert(ecc_per_block(e, 11) == 20 && num_ecc_blocks(e, 11) == 4);
                assert(4int * (20int + 1) == 84) by (nonlinear_arith);
            },
            QrCodeEcc::Medium => {
                assert(ecc_per_block(e, 11) == 30 && num_ecc_blocks(e, 11) == 5);
                assert(5int * (30int + 1) == 155) by (nonlinear_arith);
            },
            QrCodeEcc::Quartile => {
                assert(ecc_per_block(e, 11) == 28 && num_ecc_blocks(e, 11) == 8);
                assert(8int * (28int + 1) == 232) by (nonlinear_arith);
            },
            QrCodeEcc::High => {
                assert(ecc_per_block(e, 11) == 24 && num_ecc_blocks(e, 11) == 11);
                assert(11int * (24int + 1) == 275) by (nonlinear_arith);
            },
        }
    } else if ver == 12 {
        assert(12int / 7 == 1);
        assert((16 * 12int + 128) * 12int + 64 == 3904) by (nonlinear_arith);
        assert((25 * 3int - 10) * 3int - 55 == 140) by (nonlinear_arith);
        assert(raw_data_modules(12) == 3728);
        assert(raw_codewords(12) == 466);
        match e {
            QrCodeEcc::Low => {
                assert(ecc_per_block(e, 12) == 24 && num_ecc_blocks(e, 12) == 4);
                assert(4int * (24int + 1) == 100) by (nonlinear_arith);
            },
            QrCodeEcc::Medium => {
                assert(ecc_per_block(e, 12) == 22 && num_ecc_blocks(e, 12) == 8);
                assert(8int * (22int + 1) == 184) by (nonlinear_arith);
            },
            QrCodeEcc::Quartile => {
                assert(ecc_per_block(e, 12) == 26 && num_ecc_blocks(e, 12) == 10);
                assert(10int * (26int + 1) == 270) by (nonlinear_arith);
            },
            QrCodeEcc::High => {
                assert(ecc_per_block(e, 12) == 28 && num_ecc_blocks(e, 12) == 11);
                assert(11int * (28int + 1) == 319) by (nonlinear_arith);
            },
        }
    } else if ver == 13 {
        assert(13int / 7 == 1);
        assert((16 * 13int + 128) * 13int + 64 == 4432) by (nonlinear_arith);
        assert((25 * 3int - 10) * 3int - 55 == 140) by (nonlinear_arith);
        assert(raw_data_modules(13) == 4256);
        assert(raw_codewords(13) == 532);
        match e {
            QrCodeEcc::Low => {
                assert(ecc_per_block(e, 13) == 26 && num_ecc_blocks(e, 13) == 4);
                assert(4int * (26int + 1) == 108) by (nonlinear_arith);
            },
            QrCodeEcc::Medium => {
                assert(ecc_per_block(e, 13) == 22 && num_ecc_blocks(e, 13) == 9);
                assert(9int * (22int + 1) == 207) by (nonlinear_arith);
            },
            QrCodeEcc::Quartile => {
                assert(ecc_per_block(e, 13) == 24 && num_ecc_blocks(e, 13) == 12);
                assert(12int * (24int + 1) == 300) by (nonlinear_arith);
            },
            QrCodeEcc::High => {
                assert(ecc_per_block(e, 13) == 22 && num_ecc_blocks(e, 13) == 16);
                assert(16int * (22int + 1) == 368) by (nonlinear_arith);
            },
        }
    } else if ver == 14 {
        assert(14int / 7 == 2);
        assert((16 * 14int + 128) * 14int + 64 == 4992) by (nonlinear_arith);
        assert((25 * 4int - 10) * 4int - 55 == 305) by (nonlinear_arith);
        assert(raw_data_modules(14) == 4651);
        assert(raw_codewords(14) == 581);
        match e {
            QrCodeEcc::Low => {
                assert(ecc_per_block(e, 14) == 30 && num_ecc_blocks(e, 14) == 4);
                assert(4int * (30int + 1) == 124) by (nonlinear_arith);
            },
            QrCodeEcc::Medium => {
                assert(ecc_per_block(e, 14) == 24 && num_ecc_blocks(e, 14) == 9);
                assert(9int * (24int + 1) == 225) by (nonlinear_arith);
            },
            QrCodeEcc::Quartile => {
                assert(ecc_per_block(e, 14) == 20 && num_ecc_blocks(e, 14) == 16);
                assert(16int * (20int + 1) == 336) by (nonlinear_arith);
            },
            QrCodeEcc::High => {
                assert(ecc_per_block(e, 14) == 24 && num_ecc_blocks(e, 14) == 16);
                assert(16int * (24int + 1) == 400) by (nonlinear_arith);
            },
        }
    } else if ver == 15 {
        assert(15int / 7 == 2);
        assert((16 * 15int + 128) * 15int + 64 == 5584) by (nonlinear_arith);
        assert((25 * 4int - 10) * 4int - 55 == 305) by (nonlinear_arith);
        assert(raw_data_modules(15) == 5243);
        assert(raw_codewords(15) == 655);
        match e {
            QrCodeEcc::Low => {
                assert(ecc_per_block(e, 15) == 22 && num_ecc_blocks(e, 15) == 6);
                assert(6int * (22int + 1) == 138) by (nonlinear_arith);
            },
            QrCodeEcc::Medium => {
                assert(ecc_per_block(e, 15) == 24 && num_ecc_blocks(e, 15) == 10);
                assert(10int * (24int + 1) == 250) by (nonlinear_arith);
            },
            QrCodeEcc::Quartile => {
                assert(ecc_per_block(e, 15) == 30 && num_ecc_blocks(e, 15) == 12);
                assert(12int * (30int + 1) == 372) by (nonlinear_arith);
            },
            QrCodeEcc::High => {
                assert(ecc_per_block(e, 15) == 24 && num_ecc_blocks(e, 15) == 18);
                assert(18int * (24int + 1) == 450) by (nonlinear_arith);
            },
        }
    } else if ver == 16 {
        assert(16int / 7 == 2);
        assert((16 * 16int + 128) * 16int + 64 == 6208) by (nonlinear_arith);
        assert((25 * 4int - 10) * 4int - 55 == 305) by (nonlinear_arith);
        assert(raw_data_modules(16) == 5867);
        assert(raw_codewords(16) == 733);
        match e {
            QrCodeEcc::Low => {
                assert(ecc_per_block(e, 16) == 24 && num_ecc_blocks(e, 16) == 6);
                assert(6int * (24int + 1) == 150) by (nonlinear_arith);
            },
            QrCodeEcc::Medium => {
                assert(ecc_per_block(e, 16) == 28 && num_ecc_blocks(e, 16) == 10);
                assert(10int * (28int + 1) == 290) by (nonlinear_arith);
            },
            QrCodeEcc::Quartile => {
                assert(ecc_per_block(e, 16) == 24 && num_ecc_blocks(e, 16) == 17);
                assert(17int * (24int + 1) == 425) by (nonlinear_arith);
            },
            QrCodeEcc::High => {
                assert(ecc_per_block(e, 16) == 30 && num_ecc_blocks(e, 16) == 16);
                assert(16int * (30int + 1) == 496) by (nonlinear_arith);
            },
        }
    } else if ver == 17 {
        assert(17int / 7 == 2);
        assert((16 * 17int + 128) * 17int + 64 == 6864) by (nonlinear_arith);
        assert((25 * 4int - 10) * 4int - 55 == 305) by (nonlinear_arith);
        assert(raw_data_modules(17) == 6523);
        assert(raw_codewords(17) == 815);
        match e {
            QrCodeEcc::Low => {
                assert(ecc_per_block(e, 17) == 28 && num_ecc_blocks(e, 17) == 6);
                assert(6int * (28int + 1) == 174) by (nonlinear_arith);
            },
            QrCodeEcc::Medium => {
                assert(ecc_per_block(e, 17) == 28 && num_ecc_blocks(e, 17) == 11);
                assert(11int * (28int + 1) == 319) by (nonlinear_arith);
            },
            QrCodeEcc::Quartile => {
                assert(ecc_per_block(e, 17) == 28 && num_ecc_blocks(e, 17) == 16);
                assert(16int * (28int + 1) == 464) by (nonlinear_arith);
            },
            QrCodeEcc::High => {
                assert(ecc_per_block(e, 17) == 28 && num_ecc_blocks(e, 17) == 19);
                assert(19int * (28int + 1) == 551) by (nonlinear_arith);
            },
        }
    } else if ver == 18 {
        assert(18int / 7 == 2);
        assert((16 * 18int + 128) * 18int + 64 == 7552) by (nonlinear_arith);
        assert((25 * 4int - 10) * 4int - 55 == 305) by (nonlinear_arith);
        assert(raw_data_modules(18) == 7211);
        assert(raw_codewords(18) == 901);
        match e {
            QrCodeEcc::Low => {
                assert(ecc_per_block(e, 18) == 30 && num_ecc_blocks(e, 18) == 6);
                assert(6int * (30int + 1) == 186) by (nonlinear_arith);
            },
            QrCodeEcc::Medium => {
                assert(ecc_per_block(e, 18) == 26 && num_ecc_blocks(e, 18) == 13);
                assert(13int * (26int + 1) == 351) by (nonlinear_arith);
            },
            QrCodeEcc::Quartile => {
                assert(ecc_per_block(e, 18) == 28 && num_ecc_blocks(e, 18) == 18);
                assert(18int * (28int + 1) == 522) by (nonlinear_arith);
            },
            QrCodeEcc::High => {
                assert(ecc_per_block(e, 18) == 28 && num_ecc_blocks(e, 18) == 21);
                assert(21int * (28int + 1) == 609) by (nonlinear_arith);
            },
        }
    } else if ver == 19 {
        assert(19int / 7 == 2);
        assert((16 * 19int + 128) * 19int + 64 == 8272) by (nonlinear_arith);
        assert((25 * 4int - 10) * 4int - 55 == 305) by (nonlinear_arith);
        assert(raw_data_modules(19) == 7931);
        assert(raw_codewords(19) == 991);
        match e {
            QrCodeEcc::Low => {
                assert(ecc_per_block(e, 19) == 28 && num_ecc_blocks(e, 19) == 7);
                assert(7int * (28int + 1) == 203) by (nonlinear_arith);
            },
            QrCodeEcc::Medium => {
                assert(ecc_per_block(e, 19) == 26 && num_ecc_blocks(e, 19) == 14);
                assert(14int * (26int + 1) == 378) by (nonlinear_arith);
            },
            QrCodeEcc::Quartile => {
                assert(ecc_per_block(e, 19) == 26 && num_ecc_blocks(e, 19) == 21);
                assert(21int * (26int + 1) == 567) by (nonlinear_arith);
            },
            QrCodeEcc::High => {
                assert(ecc_per_block(e, 19) == 26 && num_ecc_blocks(e, 19) == 25);
                assert(25int * (26int + 1) == 675) by (nonlinear_arith);
            },
        }
    } else if ver == 20 {
        assert(20int / 7 == 2);
        assert((16 * 20int + 128) * 20int + 64 == 9024) by (nonlinear_arith);
        assert((25 * 4int - 10) * 4int - 55 == 305) by (nonlinear_arith);
        assert(raw_data_modules(20) == 8683);
        assert(raw_codewords(20) == 1085);
        match e {
            QrCodeEcc::Low => {
                assert(ecc_per_block(e, 20) == 28 && num_ecc_blocks(e, 20) == 8);
                assert(8int * (28int + 1) == 232) by (nonlinear_arith);
            },
            QrCodeEcc::Medium => {
                assert(ecc_per_block(e, 20) == 26 && num_ecc_blocks(e, 20) == 16);
                assert(16int * (26int + 1) == 432) by (nonlinear_arith);
            },
            QrCodeEcc::Quartile => {
                assert(ecc_per_block(e, 20) == 30 && num_ecc_blocks(e, 20) == 20);
                assert(20int * (30int + 1) == 620) by (nonlinear_arith);
            },
            QrCodeEcc::High => {
                assert(ecc_per_block(e, 20) == 28 && num_ecc_blocks(e, 20) == 25);
                assert(25int * (28int + 1) == 725) by (nonlinear_arith);
            },
        }
    } else if ver == 21 {
        assert(21int / 7 == 3);
        assert((16 * 21int + 128) * 21int + 64 == 9808) by (nonlinear_arith);
        assert((25 * 5int - 10) * 5int - 55 == 520) by (nonlinear_arith);
        assert(raw_data_modules(21) == 9252);
        assert(raw_codewords(21) == 1156);
        match e {
            QrCodeEcc::Low => {
                assert(ecc_per_block(e, 21) == 28 && num_ecc_blocks(e, 21) == 8);
                assert(8int * (28int + 1) == 232) by (nonlinear_arith);
            },
            QrCodeEcc::Medium => {
                assert(ecc_per_block(e, 21) == 26 && num_ecc_blocks(e, 21) == 17);
                assert(17int * (26int + 1) == 459) by (nonlinear_arith);
            },
            QrCodeEcc::Quartile => {
                assert(ecc_per_block(e, 21) == 28 && num_ecc_blocks(e, 21) == 23);
                assert(23int * (28int + 1) == 667) by (nonlinear_arith);
            },
            QrCodeEcc::High => {
                assert(ecc_per_block(e, 21) == 30 && num_ecc_blocks(e, 21) == 25);
                assert(25int * (30int + 1) == 775) by (nonlinear_arith);
            },
        }
    } else if ver == 22 {
        assert(22int / 7 == 3);
        assert((16 * 22int + 128) * 22int + 64 == 10624) by (nonlinear_arith);
        assert((25 * 5int - 10) * 5int - 55 == 520) by (nonlinear_arith);
        assert(raw_data_modules(22) == 10068);
        assert(raw_codewords(22) == 1258);
        match e {
            QrCodeEcc::Low => {
                assert(ecc_per_block(e, 22) == 28 && num_ecc_blocks(e, 22) == 9);
                assert(9int * (28int + 1) == 261) by (nonlinear_arith);
            },
            QrCodeEcc::Medium => {
                assert(ecc_per_block(e, 22) == 28 && num_ecc_blocks(e, 22) == 17);
                assert(17int * (28int + 1) == 493) by (nonlinear_arith);
            },
            QrCodeEcc::Quartile => {
                assert(ecc_per_block(e, 22) == 30 && num_ecc_blocks(e, 22) == 23);
                assert(23int * (30int + 1) == 713) by (nonlinear_arith);
            },
            QrCodeEcc::High => {
                assert(ecc_per_block(e, 22) == 24 && num_ecc_blocks(e, 22) == 34);
                assert(34int * (24int + 1) == 850) by (nonlinear_arith);
            },
        }
    } else if ver == 23 {
        assert(23int / 7 == 3);
        assert((16 * 23int + 128) * 23int + 64 == 11472) by (nonlinear_arith);
        assert((25 * 5int - 10) * 5int - 55 == 520) by (nonlinear_arith);
        assert(raw_data_modules(23) == 10916);
        assert(raw_codewords(23) == 1364);
        match e {
            QrCodeEcc::Low => {
                assert(ecc_per_block(e, 23) == 30 && num_ecc_blocks(e, 23) == 9);
                assert(9int * (30int + 1) == 279) by (nonlinear_arith);
            },
            QrCodeEcc::Medium => {
                assert(ecc_per_block(e, 23) == 28 && num_ecc_blocks(e, 23) == 18);
                assert(18int * (28int + 1) == 522) by (nonlinear_arith);
            },
            QrCodeEcc::Quartile => {
                assert(ecc_per_block(e, 23) == 30 && num_ecc_blocks(e, 23) == 25);
                assert(25int * (30int + 1) == 775) by (nonlinear_arith);
            },
            QrCodeEcc::High => {
                assert(ecc_per_block(e, 23) == 30 && num_ecc_blocks(e, 23) == 30);
                assert(30int * (30int + 1) == 930) by (nonlinear_arith);
            },
        }
    } else if ver == 24 {
        assert(24int / 7 == 3);
        assert((16 * 24int + 128) * 24int + 64 == 12352) by (nonlinear_arith);
        assert((25 * 5int - 10) * 5int - 55 == 520) by (nonlinear_arith);
        assert(raw_data_modules(24) == 11796);
        assert(raw_codewords(24) == 1474);
        match e {
            QrCodeEcc::Low => {
                assert(ecc_per_block(e, 24) == 30 && num_ecc_blocks(e, 24) == 10);
                assert(10int * (30int + 1) == 310) by (nonlinear_arith);
            },
            QrCodeEcc::Medium => {
                assert(ecc_per_block(e, 24) == 28 && num_ecc_blocks(e, 24) == 20);
                assert(20int * (28int + 1) == 580) by (nonlinear_arith);
            },
            QrCodeEcc::Quartile => {
                assert(ecc_per_block(e, 24) == 30 && num_ecc_blocks(e, 24) == 27);
                assert(27int * (30int + 1) == 837) by (nonlinear_arith);
            },
            QrCodeEcc::High => {
                assert(ecc_per_block(e, 24) == 30 && num_ecc_blocks(e, 24) == 32);
                assert(32int * (30int + 1) == 992) by (nonlinear_arith);
            },
        }
    } else if ver == 25 {
        assert(25int / 7 == 3);
        assert((16 * 25int + 128) * 25int + 64 == 13264) by (nonlinear_arith);
        assert((25 * 5int - 10) * 5int - 55 == 520) by (nonlinear_arith);
        assert(raw_data_modules(25) == 12708);
        assert(raw_codewords(25) == 1588);
        match e {
            QrCodeEcc::Low => {
                assert(ecc_per_block(e, 25) == 26 && num_ecc_blocks(e, 25) == 12);
                assert(12int * (26int + 1) == 324) by (nonlinear_arith);
            },
            QrCodeEcc::Medium => {
                assert(ecc_per_block(e, 25) == 28 && num_ecc_blocks(e, 25) == 21);
                assert(21int * (28int + 1) == 609) by (nonlinear_arith);
            },
            QrCodeEcc::Quartile => {
                assert(ecc_per_block(e, 25) == 30 && num_ecc_blocks(e, 25) == 29);
                assert(29int * (30int + 1) == 899) by (nonlinear_arith);
            },
            QrCodeEcc::High => {
                assert(ecc_per_block(e, 25) == 30 && num_ecc_blocks(e, 25) == 35);
                assert(35int * (30int + 1) == 1085) by (nonlinear_arith);
            },
        }
    } else if ver == 26 {
        assert(26int / 7 == 3);
        assert((16 * 26int + 128) * 26int + 64 == 14208) by (nonlinear_arith);
        assert((25 * 5int - 10) * 5int - 55 == 520) by (nonlinear_arith);
        assert(raw_data_modules(26) == 13652);
        assert(raw_codewords(26) == 1706);
        match e {
            QrCodeEcc::Low => {
                assert(ecc_per_block(e, 26) == 28 && num_ecc_blocks(e, 26) == 12);
                assert(12int * (28int + 1) == 348) by (nonlinear_arith);
            },
            QrCodeEcc::Medium => {
                assert(ecc_per_block(e, 26) == 28 && num_ecc_blocks(e, 26) == 23);
                assert(23int * (28int + 1) == 667) by (nonlinear_arith);
            },
            QrCodeEcc::Quartile => {
                assert(ecc_per_block(e, 26) == 28 && num_ecc_blocks(e, 26) == 34);
                assert(34int * (28int + 1) == 986) by (nonlinear_arith);
            },
            QrCodeEcc::High => {
                assert(ecc_per_block(e, 26) == 30 && num_ecc_blocks(e, 26) == 37);
                assert(37int * (30int + 1) == 1147) by (nonlinear_arith);
            },
        }
    } else if ver == 27 {
        assert(27int / 7 == 3);
        assert((16 * 27int + 128) * 27int + 64 == 15184) by (nonlinear_arith);
        assert((25 * 5int - 10) * 5int - 55 == 520) by (nonlinear_arith);
        assert(raw_data_modules(27) == 14628);
        assert(raw_codewords(27) == 1828);
        match e {
            QrCodeEcc::Low => {
                assert(ecc_per_block(e, 27) == 30 && num_ecc_blocks(e, 27) == 12);
                assert(12int * (30int + 1) == 372) by (nonlinear_arith);
            },
            QrCodeEcc::Medium => {
                assert(ecc_per_block(e, 27) == 28 && num_ecc_blocks(e, 27) == 25);
                assert(25int * (28int + 1) == 725) by (nonlinear_arith);
            },
            QrCodeEcc::Quartile => {
                assert(ecc_per_block(e, 27) == 30 && num_ecc_blocks(e, 27) == 34);
                assert(34int * (30int + 1) == 1054) by (nonlinear_arith);
            },
            QrCodeEcc::High => {
                assert(ecc_per_block(e, 27) == 30 && num_ecc_blocks(e, 27) == 40);
                assert(40int * (30int + 1) == 1240) by (nonlinear_arith);
            },
        }
    } else if ver == 28 {
        assert(28int / 7 == 4);
        assert((16 * 28int + 128) * 28int + 64 == 16192) by (nonlinear_arith);
        assert((25 * 6int - 10) * 6int - 55 == 785) by (nonlinear_arith);
        assert(raw_data_modules(28) == 15371);
        assert(raw_codewords(28) == 1921);
        match e {
            QrCodeEcc::Low => {
                assert(ecc_per_block(e, 28) == 30 && num_ecc_blocks(e, 28) == 13);
                assert(13int * (30int + 1) == 403) by (nonlinear_arith);
            },
            QrCodeEcc::Medium => {
                assert(ecc_per_block(e, 28) == 28 && num_ecc_blocks(e, 28) == 26);
                assert(26int * (28int + 1) == 754) by (nonlinear_arith);
            },
            QrCodeEcc::Quartile => {
                assert(ecc_per_block(e, 28) == 30 && num_ecc_blocks(e, 28) == 35);
                assert(35int * (30int + 1) == 1085) by (nonlinear_arith);
            },
            QrCodeEcc::High => {
                assert(ecc_per_block(e, 28) == 30 && num_ecc_blocks(e, 28) == 42);
                assert(42int * (30int + 1) == 1302) by (nonlinear_arith);
            },
        }
    } else if ver == 29 {
        assert(29int / 7 == 4);
        assert((16 * 29int + 128) * 29int + 64 == 17232) by (nonlinear_arith);
        assert((25 * 6int - 10) * 6int - 55 == 785) by (nonlinear_arith);
        assert(raw_data_modules(29) == 16411);
        assert(raw_codewords(29) == 2051);
        match e {
            QrCodeEcc::Low => {
                assert(ecc_per_block(e, 29) == 30 && num_ecc_blocks(e, 29) == 14);
                assert(14int * (30int + 1) == 434) by (nonlinear_arith);
            },
            QrCodeEcc::Medium => {
                assert(ecc_per_block(e, 29) == 28 && num_ecc_blocks(e, 29) == 28);
                assert(28int * (28int + 1) == 812) by (nonlinear_arith);
            },
            QrCodeEcc::Quartile => {
                assert(ecc_per_block(e, 29) == 30 && num_ecc_blocks(e, 29) == 38);
                assert(38int * (30int + 1) == 1178) by (nonlinear_arith);
            },
            QrCodeEcc::High => {
                assert(ecc_per_block(e, 29) == 30 && num_ecc_blocks(e, 29) == 45);
                assert(45int * (30int + 1) == 1395) by (nonlinear_arith);
            },
        }
    } else if ver == 30 {
        assert(30int / 7 == 4);
        assert((16 * 30int + 128) * 30int + 64 == 18304) by (nonlinear_arith);
        assert((25 * 6int - 10) * 6int - 55 == 785) by (nonlinear_arith);
        assert(raw_data_modules(30) == 17483);
        assert(raw_codewords(30) == 2185);
        match e {
            QrCodeEcc::Low => {
                assert(ecc_per_block(e, 30) == 30 && num_ecc_blocks(e, 30) == 15);
                assert(15int * (30int + 1) == 465) by (nonlinear_arith);
            },
            QrCodeEcc::Medium => {
                assert(ecc_per_block(e, 30) == 28 && num_ecc_blocks(e, 30) == 29);
                assert(29int * (28int + 1) == 841) by (nonlinear_arith);
            },
            QrCodeEcc::Quartile => {
                assert(ecc_per_block(e, 30) == 30 && num_ecc_blocks(e, 30) == 40);
                assert(40int * (30int + 1) == 1240) by (nonlinear_arith);
            },
            QrCodeEcc::High => {
                assert(ecc_per_block(e, 30) == 30 && num_ecc_blocks(e, 30) == 48);
                assert(48int * (30int + 1) == 1488) by (nonlinear_arith);
            },
        }
    } else if ver == 31 {
        assert(31int / 7 == 4);
        assert((16 * 31int + 128) * 31int + 64 == 19408) by (nonlinear_arith);
        assert((25 * 6int - 10) * 6int - 55 == 785) by (nonlinear_arith);
        assert(raw_data_modules(31) == 18587);
        assert(raw_codewords(31) == 2323);
        match e {
            QrCodeEcc::Low => {
                assert(ecc_per_block(e, 31) == 30 && num_ecc_blocks(e, 31) == 16);
                assert(16int * (30int + 1) == 496) by (nonlinear_arith);
            },
            QrCodeEcc::Medium => {
                assert(ecc_per_block(e, 31) == 28 && num_ecc_blocks(e, 31) == 31);
                assert(31int * (28int + 1) == 899) by (nonlinear_arith);
            },
            QrCodeEcc::Quartile => {
                assert(ecc_per_block(e, 31) == 30 && num_ecc_blocks(e, 31) == 43);
                assert(43int * (30int + 1) == 1333) by (nonlinear_arith);
            },
            QrCodeEcc::High => {
                assert(ecc_per_block(e, 31) == 30 && num_ecc_blocks(e, 31) == 51);
                assert(51int * (30int + 1) == 1581) by (nonlinear_arith);
            },
        }
    } else if ver == 32 {
        assert(32int / 7 == 4);
        assert((16 * 32int + 128) * 32int + 64 == 20544) by (nonlinear_arith);
        assert((25 * 6int - 10) * 6int - 55 == 785) by (nonlinear_arith);
        assert(raw_data_modules(32) == 19723);
        assert(raw_codewords(32) == 2465);
        match e {
            QrCodeEcc::Low => {
                assert(ecc_per_block(e, 32) == 30 && num_ecc_blocks(e, 32) == 17);
                assert(17int * (30int + 1) == 527) by (nonlinear_arith);
            },
            QrCodeEcc::Medium => {
                assert(ecc_per_block(e, 32) == 28 && num_ecc_blocks(e, 32) == 33);
                assert(33int * (28int + 1) == 957) by (nonlinear_arith);
            },
            QrCodeEcc::Quartile => {
                assert(ecc_per_block(e, 32) == 30 && num_ecc_blocks(e, 32) == 45);
                assert(45int * (30int + 1) == 1395) by (nonlinear_arith);
            },
            QrCodeEcc::High => {
                assert(ecc_per_block(e, 32) == 30 && num_ecc_blocks(e, 32) == 54);
                assert(54int * (30int + 1) == 1674) by (nonlinear_arith);
            },
        }
    } else if ver == 33 {
        assert(33int / 7 == 4);
        assert((16 * 33int + 128) * 33int + 64 == 21712) by (nonlinear_arith);
        assert((25 * 6int - 10) * 6int - 55 == 785) by (nonlinear_arith);
        assert(raw_data_modules(33) == 20891);
        assert(raw_codewords(33) == 2611);
        match e {
            QrCodeEcc::Low => {
                assert(ecc_per_block(e, 33) == 30 && num_ecc_blocks(e, 33) == 18);
                assert(18int * (30int + 1) == 558) by (nonlinear_arith);
            },
            QrCodeEcc::Medium => {
                assert(ecc_per_block(e, 33) == 28 && num_ecc_blocks(e, 33) == 35);
                assert(35int * (28int + 1) == 1015) by (nonlinear_arith);
            },
            QrCodeEcc::Quartile => {
                assert(ecc_per_block(e, 33) == 30 && num_ecc_blocks(e, 33) == 48);
                assert(48int * (30int + 1) == 1488) by (nonlinear_arith);
            },
            QrCodeEcc::High => {
                assert(ecc_per_block(e, 33) == 30 && num_ecc_blocks(e, 33) == 57);
                assert(57int * (30int + 1) == 1767) by (nonlinear_arith);
            },
        }
    } else if ver == 34 {
        assert(34int / 7 == 4);
        assert((16 * 34int + 128) * 34int + 64 == 22912) by (nonlinear_arith);
        assert((25 * 6int - 10) * 6int - 55 == 785) by (nonlinear_arith);
        assert(raw_data_modules(34) == 22091);
        assert(raw_codewords(34) == 2761);
        match e {
            QrCodeEcc::Low => {
                assert(ecc_per_block(e, 34) == 30 && num_ecc_blocks(e, 34) == 19);
                assert(19int * (30int + 1) == 589) by (nonlinear_arith);
            },
            QrCodeEcc::Medium => {
                assert(ecc_per_block(e, 34) == 28 && num_ecc_blocks(e, 34) == 37);
                assert(37int * (28int + 1) == 1073) by (nonlinear_arith);
            },
            QrCodeEcc::Quartile => {
                assert(ecc_per_block(e, 34) == 30 && num_ecc_blocks(e, 34) == 51);
                assert(51int * (30int + 1) == 1581) by (nonlinear_arith);
            },
            QrCodeEcc::High => {
                assert(ecc_per_block(e, 34) == 30 && num_ecc_blocks(e, 34) == 60);
                assert(60int * (30int + 1) == 1860) by (nonlinear_arith);
            },
        }
    } else if ver == 35 {
        assert(35int / 7 == 5);
        assert((16 * 35int + 128) * 35int + 64 == 24144) by (nonlinear_arith);
        assert((25 * 7int - 10) * 7int - 55 == 1100) by (nonlinear_arith);
        assert(raw_data_modules(35) == 23008);
        assert(raw_codewords(35) == 2876);
        match e {
            QrCodeEcc::Low => {
                assert(ecc_per_block(e, 35) == 30 && num_ecc_blocks(e, 35) == 19);
                assert(19int * (30int + 1) == 589) by (nonlinear_arith);
            },
            QrCodeEcc::Medium => {
                assert(ecc_per_block(e, 35) == 28 && num_ecc_blocks(e, 35) == 38);
                assert(38int * (28int + 1) == 1102) by (nonlinear_arith);
            },
            QrCodeEcc::Quartile => {
                assert(ecc_per_block(e, 35) == 30 && num_ecc_blocks(e, 35) == 53);
                assert(53int * (30int + 1) == 1643) by (nonlinear_arith);
            },
            QrCodeEcc::High => {
                assert(ecc_per_block(e, 35) == 30 && num_ecc_blocks(e, 35) == 63);
                assert(63int * (30int + 1) == 1953) by (nonlinear_arith);
            },
        }
    } else if ver == 36 {
        assert(36int / 7 == 5);
        assert((16 * 36int + 128) * 36int + 64 == 25408) by (nonlinear_arith);
        assert((25 * 7int - 10) * 7int - 55 == 1100) by (nonlinear_arith);
        assert(raw_data_modules(36) == 24272);
        assert(raw_codewords(36) == 3034);
        match e {
            QrCodeEcc::Low => {
                assert(ecc_per_block(e, 36) == 30 && num_ecc_blocks(e, 36) == 20);
                assert(20int * (30int + 1) == 620) by (nonlinear_arith);
            },
            QrCodeEcc::Medium => {
                assert(ecc_per_block(e, 36) == 28 && num_ecc_blocks(e, 36) == 40);
                assert(40int * (28int + 1) == 1160) by (nonlinear_arith);
            },
            QrCodeEcc::Quartile => {
                assert(ecc_per_block(e, 36) == 30 && num_ecc_blocks(e, 36) == 56);
                assert(56int * (30int + 1) == 1736) by (nonlinear_arith);
            },
            QrCodeEcc::High => {
                assert(ecc_per_block(e, 36) == 30 && num_ecc_blocks(e, 36) == 66);
                assert(66int * (30int + 1) == 2046) by (nonlinear_arith);
            },
        }
    } else if ver == 37 {
        assert(37int / 7 == 5);
        assert((16 * 37int + 128) * 37int + 64 == 26704) by (nonlinear_arith);
        assert((25 * 7int - 10) * 7int - 55 == 1100) by (nonlinear_arith);
        assert(raw_data_modules(37) == 25568);
        assert(raw_codewords(37) == 3196);
        match e {
            QrCodeEcc::Low => {
                assert(ecc_per_block(e, 37) == 30 && num_ecc_blocks(e, 37) == 21);
                assert(21int * (30int + 1) == 651) by (nonlinear_arith);
            },
            QrCodeEcc::Medium => {
                assert(ecc_per_block(e, 37) == 28 && num_ecc_blocks(e, 37) == 43);
                assert(43int * (28int + 1) == 1247) by (nonlinear_arith);
            },
            QrCodeEcc::Quartile => {
                assert(ecc_per_block(e, 37) == 30 && num_ecc_blocks(e, 37) == 59);
                assert(59int * (30int + 1) == 1829) by (nonlinear_arith);
            },
            QrCodeEcc::High => {
                assert(ecc_per_block(e, 37) == 30 && num_ecc_blocks(e, 37) == 70);
                assert(70int * (30int + 1) == 2170) by (nonlinear_arith);
            },
        }
    } else if ver == 38 {
        assert(38int / 7 == 5);
        assert((16 * 38int + 128) * 38int + 64 == 28032) by (nonlinear_arith);
        assert((25 * 7int - 10) * 7int - 55 == 1100) by (nonlinear_arith);
        assert(raw_data_modules(38) == 26896);
        assert(raw_codewords(38) == 3362);
        match e {
            QrCodeEcc::Low => {
                assert(ecc_per_block(e, 38) == 30 && num_ecc_blocks(e, 38) == 22);
                assert(22int * (30int + 1) == 682) by (nonlinear_arith);
            },
            QrCodeEcc::Medium => {
                assert(ecc_per_block(e, 38) == 28 && num_ecc_blocks(e, 38) == 45);
                assert(45int * (28int + 1) == 1305) by (nonlinear_arith);
            },
            QrCodeEcc::Quartile => {
                assert(ecc_per_block(e, 38) == 30 && num_ecc_blocks(e, 38) == 62);
                assert(62int * (30int + 1) == 1922) by (nonlinear_arith);
            },
            QrCodeEcc::High => {
                assert(ecc_per_block(e, 38) == 30 && num_ecc_blocks(e, 38) == 74);
                assert(74int * (30int + 1) == 2294) by (nonlinear_arith);
            },
        }
    } else if ver == 39 {
        assert(39int / 7 == 5);
        assert((16 * 39int + 128) * 39int + 64 == 29392) by (nonlinear_arith);
        assert((25 * 7int - 10) * 7int - 55 == 1100) by (nonlinear_arith);
        assert(raw_data_modules(39) == 28256);
        assert(raw_codewords(39) == 3532);
        match e {
            QrCodeEcc::Low => {
                assert(ecc_per_block(e, 39) == 30 && num_ecc_blocks(e, 39) == 24);
                assert(24int * (30int + 1) == 744) by (nonlinear_arith);
            },
            QrCodeEcc::Medium => {
                assert(ecc_per_block(e, 39) == 28 && num_ecc_blocks(e, 39) == 47);
                assert(47int * (28int + 1) == 1363) by (nonlinear_arith);
            },
            QrCodeEcc::Quartile => {
                assert(ecc_per_block(e, 39) == 30 && num_ecc_blocks(e, 39) == 65);
                assert(65int * (30int + 1) == 2015) by (nonlinear_arith);
            },
            QrCodeEcc::High => {
                assert(ecc_per_block(e, 39) == 30 && num_ecc_blocks(e, 39) == 77);
                assert(77int * (30int + 1) == 2387) by (nonlinear_arith);
            },
        }
    } else if ver == 40 {
        assert(40int / 7 == 5);
        assert((16 * 40int + 128) * 40int + 64 == 30784) by (nonlinear_arith);
        assert((25 * 7int - 10) * 7int - 55 == 1100) by (nonlinear_arith);
        assert(raw_data_modules(40) == 29648);
        assert(raw_codewords(40) == 3706);
        match e {
            QrCodeEcc::Low => {
                assert(ecc_per_block(e, 40) == 30 && num_ecc_blocks(e, 40) == 25);
                assert(25int * (30int + 1) == 775) by (nonlinear_arith);
            },
            QrCodeEcc::Medium => {
                assert(ecc_per_block(e, 40) == 28 && num_ecc_blocks(e, 40) == 49);
                assert(49int * (28int + 1) == 1421) by (nonlinear_arith);
            },
            QrCodeEcc::Quartile => {
                assert(ecc_per_block(e, 40) == 30 && num_ecc_blocks(e, 40) == 68);
                assert(68int * (30int + 1) == 2108) by (nonlinear_arith);
            },
            QrCodeEcc::High => {
                assert(ecc_per_block(e, 40) == 30 && num_ecc_blocks(e, 40) == 81);
                assert(81int * (30int + 1) == 2511) by (nonlinear_arith);
            },
        }
    }
}

/// The data capacity grows by at least one codeword from each version to the next.
#[verifier::rlimit(60)]
pub proof fn lemma_capacity_step(e: QrCodeEcc, ver: int)
    requires
        1 <= ver < 40,
    ensures
        data_codewords(ver + 1, e) >= data_codewords(ver, e) + 1,
{
    if ver == 1 {
        assert(1int / 7 == 0);
        assert((16 * 1int + 128) * 1int + 64 == 208) by (nonlinear_arith);
        assert(raw_data_modules(1) == 208);
        assert(raw_codewords(1) == 26);
        assert(2int / 7 == 0);
        assert((16 * 2int + 128) * 2int + 64 == 384) by (nonlinear_arith);
        assert((25 * 2int - 10) * 2int - 55 == 25) by (nonlinear_arith);
        assert(raw_data_modules(2) == 359);
        assert(raw_codewords(2) == 44);
        match e {
            QrCodeEcc::Low => {
                assert(ecc_per_block(e, 1) == 7 && num_ecc_blocks(e, 1) == 1);
                assert(ecc_per_block(e, 1) * num_ecc_blocks(e, 1) == 7) by (nonlinear_arith)
                    requires
                        ecc_per_block(e, 1) == 7,
                        num_ecc_blocks(e, 1) == 1,
                ;
                assert(ecc_per_block(e, 2) == 10 && num_ecc_blocks(e, 2) == 1);
                assert(ecc_per_block(e, 2) * num_ecc_blocks(e, 2) == 10) by (nonlinear_arith)
                    requires
                        ecc_per_block(e, 2) == 10,
                        num_ecc_blocks(e, 2) == 1,
                ;
                assert(data_codewords(1, e) == 19);
                assert(data_codewords(2, e) == 34);
            },
            QrCodeEcc::Medium => {
                assert(ecc_per_block(e, 1) == 10 && num_ecc_blocks(e, 1) == 1);
                assert(ecc_per_block(e, 1) * num_ecc_blocks(e, 1) == 10) by (nonlinear_arith)
                    requires
                        ecc_per_block(e, 1) == 10,
                        num_ecc_blocks(e, 1) == 1,
                ;
                assert(ecc_per_block(e, 2) == 16 && num_ecc_blocks(e, 2) == 1);
                assert(ecc_per_block(e, 2) * num_ecc_blocks(e, 2) == 16) by (nonlinear_arith)
                    requires
                        ecc_per_block(e, 2) == 16,
                        num_ecc_blocks(e, 2) == 1,
                ;
                assert(data_codewords(1, e) == 16);
                assert(data_codewords(2, e) == 28);
            },
            QrCodeEcc::Quartile => {
                assert(ecc_per_block(e, 1) == 13 && num_ecc_blocks(e, 1) == 1);
                assert(ecc_per_block(e, 1) * num_ecc_blocks(e, 1) == 13) by (nonlinear_arith)
                    requires
                        ecc_per_block(e, 1) == 13,
                        num_ecc_blocks(e, 1) == 1,
                ;
                assert(ecc_per_block(e, 2) == 22 && num_ecc_blocks(e, 2) == 1);
                assert(ecc_per_block(e, 2) * num_ecc_blocks(e, 2) == 22) by (nonlinear_arith)
                    requires
                        ecc_per_block(e, 2) == 22,
                        num_ecc_blocks(e, 2) == 1,
                ;
                assert(data_codewords(1, e) == 13);
                assert(data_codewords(2, e) == 22);
            },
            QrCodeEcc::High => {
                assert(ecc_per_block(e, 1) == 17 && num_ecc_blocks(e, 1) == 1);
                assert(ecc_per_block(e, 1) * num_ecc_blocks(e, 1) == 17) by (nonlinear_arith)
                    requires
                        ecc_per_block(e, 1) == 17,
                        num_ecc_blocks(e, 1) == 1,
                ;
                assert(ecc_per_block(e, 2) == 28 && num_ecc_blocks(e, 2) == 1);
                assert(ecc_per_block(e, 2) * num_ecc_blocks(e, 2) == 28) by (nonlinear_arith)
                    requires
                        ecc_per_block(e, 2) == 28,
                        num_ecc_blocks(e, 2) == 1,
                ;
                assert(data_codewords(1, e) == 9);
                assert(data_codewords(2, e) == 16);
            },
        }
    } else if ver == 2 {
        assert(2int / 7 == 0);
        assert((16 * 2int + 128) * 2int + 64 == 384) by (nonlinear_arith);
        assert((25 * 2int - 10) * 2int - 55 == 25) by (nonlinear_arith);
        assert(raw_data_modules(2) == 359);
        assert(raw_codewords(2) == 44);
        assert(3int / 7 == 0);
        assert((16 * 3int + 128) * 3int + 64 == 592) by (nonlinear_arith);
        assert((25 * 2int - 10) * 2int - 55 == 25) by (nonlinear_arith);
        assert(raw_data_modules(3) == 567);
        assert(raw_codewords(3) == 70);
        match e {
            QrCodeEcc::Low => {
                assert(ecc_per_block(e, 2) == 10 && num_ecc_blocks(e, 2) == 1);
                assert(ecc_per_block(e, 2) * num_ecc_blocks(e, 2) == 10) by (nonlinear_arith)
                    requires
                        ecc_per_block(e, 2) == 10,
                        num_ecc_blocks(e, 2) == 1,
                ;
                assert(ecc_per_block(e, 3) == 15 && num_ecc_blocks(e, 3) == 1);
                assert(ecc_per_block(e, 3) * num_ecc_blocks(e, 3) == 15) by (nonlinear_arith)
                    requires
                        ecc_per_block(e, 3) == 15,
                        num_ecc_blocks(e, 3) == 1,
                ;
                assert(data_codewords(2, e) == 34);
                assert(data_codewords(3, e) == 55);
            },
            QrCodeEcc::Medium => {
                assert(ecc_per_block(e, 2) == 16 && num_ecc_blocks(e, 2) == 1);
                assert(ecc_per_block(e, 2) * num_ecc_blocks(e, 2) == 16) by (nonlinear_arith)
                    requires
                        ecc_per_block(e, 2) == 16,
                        num_ecc_blocks(e, 2) == 1,
                ;
                assert(ecc_per_block(e, 3) == 26 && num_ecc_blocks(e, 3) == 1);
                assert(ecc_per_block(e, 3) * num_ecc_blocks(e, 3) == 26) by (nonlinear_arith)
                    requires
                        ecc_per_block(e, 3) == 26,
                        num_ecc_blocks(e, 3) == 1,
                ;
                assert(data_codewords(2, e) == 28);
                assert(data_codewords(3, e) == 44);
            },
            QrCodeEcc::Quartile => {
                assert(ecc_per_block(e, 2) == 22 && num_ecc_blocks(e, 2) == 1);
                assert(ecc_per_block(e, 2) * num_ecc_blocks(e, 2) == 22) by (nonlinear_arith)
                    requires
                        ecc_per_block(e, 2) == 22,
                        num_ecc_blocks(e, 2) == 1,
                ;
                assert(ecc_per_block(e, 3) == 18 && num_ecc_blocks(e, 3) == 2);
                assert(ecc_per_block(e, 3) * num_ecc_blocks(e, 3) == 36) by (nonlinear_arith)
                    requires
                        ecc_per_block(e, 3) == 18,
                        num_ecc_blocks(e, 3) == 2,
                ;
                assert(data_codewords(2, e) == 22);
                assert(data_codewords(3, e) == 34);
            },
            QrCodeEcc::High => {
                assert(ecc_per_block(e, 2) == 28 && num_ecc_blocks(e, 2) == 1);
                assert(ecc_per_block(e, 2) * num_ecc_blocks(e, 2) == 28) by (nonlinear_arith)
                    requires
                        ecc_per_block(e, 2) == 28,
                        num_ecc_blocks(e, 2) == 1,
                ;
                assert(ecc_per_block(e, 3) == 22 && num_ecc_blocks(e, 3) == 2);
                assert(ecc_per_block(e, 3) * num_ecc_blocks(e, 3) == 44) by (nonlinear_arith)
                    requires
                        ecc_per_block(e, 3) == 22,
                        num_ecc_blocks(e, 3) == 2,
                ;
                assert(data_codewords(2, e) == 16);
                assert(data_codewords(3, e) == 26);
            },
        }
    } else if ver == 3 {
        assert(3int / 7 == 0);
        assert((16 * 3int + 128) * 3int + 64 == 592) by (nonlinear_arith);
        assert((25 * 2int - 10) * 2int - 55 == 25) by (nonlinear_arith);
        assert(raw_data_modules(3) == 567);
        assert(raw_codewords(3) == 70);
        assert(4int / 7 == 0);
        assert((16 * 4int + 128) * 4int + 64 == 832) by (nonlinear_arith);
        assert((25 * 2int - 10) * 2int - 55 == 25) by (nonlinear_arith);
        assert(raw_data_modules(4) == 807);
        assert(raw_codewords(4) == 100);
        match e {
            QrCodeEcc::Low => {
                assert(ecc_per_block(e, 3) == 15 && num_ecc_blocks(e, 3) == 1);
                assert(ecc_per_block(e, 3) * num_ecc_blocks(e, 3) == 15) by (nonlinear_arith)
                    requires
                        ecc_per_block(e, 3) == 15,
                        num_ecc_blocks(e, 3) == 1,
                ;
                assert(ecc_per_block(e, 4) == 20 && num_ecc_blocks(e, 4) == 1);
                assert(ecc_per_block(e, 4) * num_ecc_blocks(e, 4) == 20) by (nonlinear_arith)
                    requires
                        ecc_per_block(e, 4) == 20,
                        num_ecc_blocks(e, 4) == 1,
                ;
                assert(data_codewords(3, e) == 55);
                assert(data_codewords(4, e) == 80);
            },
            QrCodeEcc::Medium => {
                assert(ecc_per_block(e, 3) == 26 && num_ecc_blocks(e, 3) == 1);
                assert(ecc_per_block(e, 3) * num_ecc_blocks(e, 3) == 26) by (nonlinear_arith)
                    requires
                        ecc_per_block(e, 3) == 26,
                        num_ecc_blocks(e, 3) == 1,
                ;
                assert(ecc_per_block(e, 4) == 18 && num_ecc_blocks(e, 4) == 2);
                assert(ecc_per_block(e, 4) * num_ecc_blocks(e, 4) == 36) by (nonlinear_arith)
                    requires
                        ecc_per_block(e, 4) == 18,
                        num_ecc_blocks(e, 4) == 2,
                ;
                assert(data_codewords(3, e) == 44);
                assert(data_codewords(4, e) == 64);
            },
            QrCodeEcc::Quartile => {
                assert(ecc_per_block(e, 3) == 18 && num_ecc_blocks(e, 3) == 2);
                assert(ecc_per_block(e, 3) * num_ecc_blocks(e, 3) == 36) by (nonlinear_arith)
                    requires
                        ecc_per_block(e, 3) == 18,
                        num_ecc_blocks(e, 3) == 2,
                ;
                assert(ecc_per_block(e, 4) == 26 && num_ecc_blocks(e, 4) == 2);
                assert(ecc_per_block(e, 4) * num_ecc_blocks(e, 4) == 52) by (nonlinear_arith)
                    requires
                        ecc_per_block(e, 4) == 26,
                        num_ecc_blocks(e, 4) == 2,
                ;
                assert(data_codewords(3, e) == 34);
                assert(data_codewords(4, e) == 48);
            },
            QrCodeEcc::High => {
                assert(ecc_per_block(e, 3) == 22 && num_ecc_blocks(e, 3) == 2);
                assert(ecc_per_block(e, 3) * num_ecc_blocks(e, 3) == 44) by (nonlinear_arith)
                    requires
                        ecc_per_block(e, 3) == 22,
                        num_ecc_blocks(e, 3) == 2,
                ;
                assert(ecc_per_block(e, 4) == 16 && num_ecc_blocks(e, 4) == 4);
                assert(ecc_per_block(e, 4) * num_ecc_blocks(e, 4) == 64) by (nonlinear_arith)
                    requires
                        ecc_per_block(e, 4) == 16,
                        num_ecc_blocks(e, 4) == 4,
                ;
                assert(data_codewords(3, e) == 26);
                assert(data_codewords(4, e) == 36);
            },
        }
    } else if ver == 4 {
        assert(4int / 7 == 0);
        assert((16 * 4int + 128) * 4int + 64 == 832) by (nonlinear_arith);
        assert((25 * 2int - 10) * 2int - 55 == 25) by (nonlinear_arith);
        assert(raw_data_modules(4) == 807);
        assert(raw_codewords(4) == 100);
        assert(5int / 7 == 0);
        assert((16 * 5int + 128) * 5int + 64 == 1104) by (nonlinear_arith);
        assert((25 * 2int - 10) * 2int - 55 == 25) by (nonlinear_arith);
        assert(raw_data_modules(5) == 1079);
        assert(raw_codewords(5) == 134);
        match e {
            QrCodeEcc::Low => {
                assert(ecc_per_block(e, 4) == 20 && num_ecc_blocks(e, 4) == 1);
                assert(ecc_per_block(e, 4) * num_ecc_blocks(e, 4) == 20) by (nonlinear_arith)
                    requires
                        ecc_per_block(e, 4) == 20,
                        num_ecc_blocks(e, 4) == 1,
                ;
                assert(ecc_per_block(e, 5) == 26 && num_ecc_blocks(e, 5) == 1);
                assert(ecc_per_block(e, 5) * num_ecc_blocks(e, 5) == 26) by (nonlinear_arith)
                    requires
                        ecc_per_block(e, 5) == 26,
                        num_ecc_blocks(e, 5) == 1,
                ;
                assert(data_codewords(4, e) == 80);
                assert(data_codewords(5, e) == 108);
            },
            QrCodeEcc::Medium => {
                assert(ecc_per_block(e, 4) == 18 && num_ecc_blocks(e, 4) == 2);
                assert(ecc_per_block(e, 4) * num_ecc_blocks(e, 4) == 36) by (nonlinear_arith)
                    requires
                        ecc_per_block(e, 4) == 18,
                        num_ecc_blocks(e, 4) == 2,
                ;
                assert(ecc_per_block(e, 5) == 24 && num_ecc_blocks(e, 5) == 2);
                assert(ecc_per_block(e, 5) * num_ecc_blocks(e, 5) == 48) by (nonlinear_arith)
                    requires
                        ecc_per_block(e, 5) == 24,
                        num_ecc_blocks(e, 5) == 2,
                ;
                assert(data_codewords(4, e) == 64);
                assert(data_codewords(5, e) == 86);
            },
            QrCodeEcc::Quartile => {
                assert(ecc_per_block(e, 4) == 26 && num_ecc_blocks(e, 4) == 2);
                assert(ecc_per_block(e, 4) * num_ecc_blocks(e, 4) == 52) by (nonlinear_arith)
                    requires
                        ecc_per_block(e, 4) == 26,
                        num_ecc_blocks(e, 4) == 2,
                ;
                assert(ecc_per_block(e, 5) == 18 && num_ecc_blocks(e, 5) == 4);
                assert(ecc_per_block(e, 5) * num_ecc_blocks(e, 5) == 72) by (nonlinear_arith)
                    requires
                        ecc_per_block(e, 5) == 18,
                        num_ecc_blocks(e, 5) == 4,
                ;
                assert(data_codewords(4, e) == 48);
                assert(data_codewords(5, e) == 62);
            },
            QrCodeEcc::High => {
                assert(ecc_per_block(e, 4) == 16 && num_ecc_blocks(e, 4) == 4);
                assert(ecc_per_block(e, 4) * num_ecc_blocks(e, 4) == 64) by (nonlinear_arith)
                    requires
                        ecc_per_block(e, 4) == 16,
                        num_ecc_blocks(e, 4) == 4,
                ;
                assert(ecc_per_block(e, 5) == 22 && num_ecc_blocks(e, 5) == 4);
                assert(ecc_per_block(e, 5) * num_ecc_blocks(e, 5) == 88) by (nonlinear_arith)
                    requires
                        ecc_per_block(e, 5) == 22,
                        num_ecc_blocks(e, 5) == 4,
                ;
                assert(data_codewords(4, e) == 36);
                assert(data_codewords(5, e) == 46);
            },
        }
    } else if ver == 5 {
        assert(5int / 7 == 0);
        assert((16 * 5int + 128) * 5int + 64 == 1104) by (nonlinear_arith);
        assert((25 * 2int - 10) * 2int - 55 == 25) by (nonlinear_arith);
        assert(raw_data_modules(5) == 1079);
        assert(raw_codewords(5) == 134);
        assert(6int / 7 == 0);
        assert((16 * 6int + 128) * 6int + 64 == 1408) by (nonlinear_arith);
        assert((25 * 2int - 10) * 2int - 55 == 25) by (nonlinear_arith);
        assert(raw_data_modules(6) == 1383);
        assert(raw_codewords(6) == 172);
        match e {
            QrCodeEcc::Low => {
                assert(ecc_per_block(e, 5) == 26 && num_ecc_blocks(e, 5) == 1);
                assert(ecc_per_block(e, 5) * num_ecc_blocks(e, 5) == 26) by (nonlinear_arith)
                    requires
                        ecc_per_block(e, 5) == 26,
                        num_ecc_blocks(e, 5) == 1,
                ;
                assert(ecc_per_block(e, 6) == 18 && num_ecc_blocks(e, 6) == 2);
                assert(ecc_per_block(e, 6) * num_ecc_blocks(e, 6) == 36) by (nonlinear_arith)
                    requires
                        ecc_per_block(e, 6) == 18,
                        num_ecc_blocks(e, 6) == 2,
                ;
                assert(data_codewords(5, e) == 108);
                assert(data_codewords(6, e) == 136);
            },
            QrCodeEcc::Medium => {
                assert(ecc_per_block(e, 5) == 24 && num_ecc_blocks(e, 5) == 2);
                assert(ecc_per_block(e, 5) * num_ecc_blocks(e, 5) == 48) by (nonlinear_arith)
                    requires
                        ecc_per_block(e, 5) == 24,
                        num_ecc_blocks(e, 5) == 2,
                ;
                assert(ecc_per_block(e, 6) == 16 && num_ecc_blocks(e, 6) == 4);
                assert(ecc_per_block(e, 6) * num_ecc_blocks(e, 6) == 64) by (nonlinear_arith)
                    requires
                        ecc_per_block(e, 6) == 16,
                        num_ecc_blocks(e, 6) == 4,
                ;
                assert(data_codewords(5, e) == 86);
                assert(data_codewords(6, e) == 108);
            },
            QrCodeEcc::Quartile => {
                assert(ecc_per_block(e, 5) == 18 && num_ecc_blocks(e, 5) == 4);
                assert(ecc_per_block(e, 5) * num_ecc_blocks(e, 5) == 72) by (nonlinear_arith)
                    requires
                        ecc_per_block(e, 5) == 18,
                        num_ecc_blocks(e, 5) == 4,
                ;
                assert(ecc_per_block(e, 6) == 24 && num_ecc_blocks(e, 6) == 4);
                assert(ecc_per_block(e, 6) * num_ecc_blocks(e, 6) == 96) by (nonlinear_arith)
                    requires
                        ecc_per_block(e, 6) == 24,
                        num_ecc_blocks(e, 6) == 4,
                ;
                assert(data_codewords(5, e) == 62);
                assert(data_codewords(6, e) == 76);
            },
            QrCodeEcc::High => {
                assert(ecc_per_block(e, 5) == 22 && num_ecc_blocks(e, 5) == 4);
                assert(ecc_per_block(e, 5) * num_ecc_blocks(e, 5) == 88) by (nonlinear_arith)
                    requires
                        ecc_per_block(e, 5) == 22,
                        num_ecc_blocks(e, 5) == 4,
                ;
                assert(ecc_per_block(e, 6) == 28 && num_ecc_blocks(e, 6) == 4);
                assert(ecc_per_block(e, 6) * num_ecc_blocks(e, 6) == 112) by (nonlinear_arith)
                    requires
                        ecc_per_block(e, 6) == 28,
                        num_ecc_blocks(e, 6) == 4,
                ;
                assert(data_codewords(5, e) == 46);
                assert(data_codewords(6, e) == 60);
            },
        }
    } else if ver == 6 {
        assert(6int / 7 == 0);
        assert((16 * 6int + 128) * 6int + 64 == 1408) by (nonlinear_arith);
        assert((25 * 2int - 10) * 2int - 55 == 25) by (nonlinear_arith);
        assert(raw_data_modules(6) == 1383);
        assert(raw_codewords(6) == 172);
        assert(7int / 7 == 1);
        assert((16 * 7int + 128) * 7int + 64 == 1744) by (nonlinear_arith);
        assert((25 * 3int - 10) * 3int - 55 == 140) by (nonlinear_arith);
        assert(raw_data_modules(7) == 1568);
        assert(raw_codewords(7) == 196);
        match e {
            QrCodeEcc::Low => {
                assert(ecc_per_block(e, 6) == 18 && num_ecc_blocks(e, 6) == 2);
                assert(ecc_per_block(e, 6) * num_ecc_blocks(e, 6) == 36) by (nonlinear_arith)
                    requires
                        ecc_per_block(e, 6) == 18,
                        num_ecc_blocks(e, 6) == 2,
                ;
                assert(ecc_per_block(e, 7) == 20 && num_ecc_blocks(e, 7) == 2);
                assert(ecc_per_block(e, 7) * num_ecc_blocks(e, 7) == 40) by (nonlinear_arith)
                    requires
                        ecc_per_block(e, 7) == 20,
                        num_ecc_blocks(e, 7) == 2,
                ;
                assert(data_codewords(6, e) == 136);
                assert(data_codewords(7, e) == 156);
            },
            QrCodeEcc::Medium => {
                assert(ecc_per_block(e, 6) == 16 && num_ecc_blocks(e, 6) == 4);
                assert(ecc_per_block(e, 6) * num_ecc_blocks(e, 6) == 64) by (nonlinear_arith)
                    requires
                        ecc_per_block(e, 6) == 16,
                        num_ecc_blocks(e, 6) == 4,
                ;
                assert(ecc_per_block(e, 7) == 18 && num_ecc_blocks(e, 7) == 4);
                assert(ecc_per_block(e, 7) * num_ecc_blocks(e, 7) == 72) by (nonlinear_arith)
                    requires
                        ecc_per_block(e, 7) == 18,
                        num_ecc_blocks(e, 7) == 4,
                ;
                assert(data_codewords(6, e) == 108);
                assert(data_codewords(7, e) == 124);
            },
            QrCodeEcc::Quartile => {
                assert(ecc_per_block(e, 6) == 24 && num_ecc_blocks(e, 6) == 4);
                assert(ecc_per_block(e, 6) * num_ecc_blocks(e, 6) == 96) by (nonlinear_arith)
                    requires
                        ecc_per_block(e, 6) == 24,
                        num_ecc_blocks(e, 6) == 4,
                ;
                assert(ecc_per_block(e, 7) == 18 && num_ecc_blocks(e, 7) == 6);
                assert(ecc_per_block(e, 7) * num_ecc_blocks(e, 7) == 108) by (nonlinear_arith)
                    requires
                        ecc_per_block(e, 7) == 18,
                        num_ecc_blocks(e, 7) == 6,
                ;
                assert(data_codewords(6, e) == 76);
                assert(data_codewords(7, e) == 88);
            },
            QrCodeEcc::High => {
                assert(ecc_per_block(e, 6) == 28 && num_ecc_blocks(e, 6) == 4);
                assert(ecc_per_block(e, 6) * num_ecc_blocks(e, 6) == 112) by (nonlinear_arith)
                    requires
                        ecc_per_block(e, 6) == 28,
                        num_ecc_blocks(e, 6) == 4,
                ;
                assert(ecc_per_block(e, 7) == 26 && num_ecc_blocks(e, 7) == 5);
                assert(ecc_per_block(e, 7) * num_ecc_blocks(e, 7) == 130) by (nonlinear_arith)
                    requires
                        ecc_per_block(e, 7) == 26,
                        num_ecc_blocks(e, 7) == 5,
                ;
                assert(data_codewords(6, e) == 60);
                assert(data_codewords(7, e) == 66);
            },
        }
    } else if ver == 7 {
        assert(7int / 7 == 1);
        assert((16 * 7int + 128) * 7int + 64 == 1744) by (nonlinear_arith);
        assert((25 * 3int - 10) * 3int - 55 == 140) by (nonlinear_arith);
        assert(raw_data_modules(7) == 1568);
        assert(raw_codewords(7) == 196);
        assert(8int / 7 == 1);
        assert((16 * 8int + 128) * 8int + 64 == 2112) by (nonlinear_arith);
        assert((25 * 3int - 10) * 3int - 55 == 140) by (nonlinear_arith);
        assert(raw_data_modules(8) == 1936);
        assert(raw_codewords(8) == 242);
        match e {
            QrCodeEcc::Low => {
                assert(ecc_per_block(e, 7) == 20 && num_ecc_blocks(e, 7) == 2);
                assert(ecc_per_block(e, 7) * num_ecc_blocks(e, 7) == 40) by (nonlinear_arith)
                    requires
                        ecc_per_block(e, 7) == 20,
                        num_ecc_blocks(e, 7) == 2,
                ;
                assert(ecc_per_block(e, 8) == 24 && num_ecc_blocks(e, 8) == 2);
                assert(ecc_per_block(e, 8) * num_ecc_blocks(e, 8) == 48) by (nonlinear_arith)
                    requires
                        ecc_per_block(e, 8) == 24,
                        num_ecc_blocks(e, 8) == 2,
                ;
                assert(data_codewords(7, e) == 156);
                assert(data_codewords(8, e) == 194);
            },
            QrCodeEcc::Medium => {
                assert(ecc_per_block(e, 7) == 18 && num_ecc_blocks(e, 7) == 4);
                assert(ecc_per_block(e, 7) * num_ecc_blocks(e, 7) == 72) by (nonlinear_arith)
                    requires
                        ecc_per_block(e, 7) == 18,
                        num_ecc_blocks(e, 7) == 4,
                ;
                assert(ecc_per_block(e, 8) == 22 && num_ecc_blocks(e, 8) == 4);
                assert(ecc_per_block(e, 8) * num_ecc_blocks(e, 8) == 88) by (nonlinear_arith)
                    requires
                        ecc_per_block(e, 8) == 22,
                        num_ecc_blocks(e, 8) == 4,
                ;
                assert(data_codewords(7, e) == 124);
                assert(data_codewords(8, e) == 154);
            },
            QrCodeEcc::Quartile => {
                assert(ecc_per_block(e, 7) == 18 && num_ecc_blocks(e, 7) == 6);
                assert(ecc_per_block(e, 7) * num_ecc_blocks(e, 7) == 108) by (nonlinear_arith)
                    requires
                        ecc_per_block(e, 7) == 18,
                        num_ecc_blocks(e, 7) == 6,
                ;
                assert(ecc_per_block(e, 8) == 22 && num_ecc_blocks(e, 8) == 6);
                assert(ecc_per_block(e, 8) * num_ecc_blocks(e, 8) == 132) by (nonlinear_arith)
                    requires
                        ecc_per_block(e, 8) == 22,
                        num_ecc_blocks(e, 8) == 6,
                ;
                assert(data_codewords(7, e) == 88);
                assert(data_codewords(8, e) == 110);
            },
            QrCodeEcc::High => {
                assert(ecc_per_block(e, 7) == 26 && num_ecc_blocks(e, 7) == 5);
                assert(ecc_per_block(e, 7) * num_ecc_blocks(e, 7) == 130) by (nonlinear_arith)
                    requires
                        ecc_per_block(e, 7) == 26,
                        num_ecc_blocks(e, 7) == 5,
                ;
                assert(ecc_per_block(e, 8) == 26 && num_ecc_blocks(e, 8) == 6);
                assert(ecc_per_block(e, 8) * num_ecc_blocks(e, 8) == 156) by (nonlinear_arith)
                    requires
                        ecc_per_block(e, 8) == 26,
                        num_ecc_blocks(e, 8) == 6,
                ;
                assert(data_codewords(7, e) == 66);
                assert(data_codewords(8, e) == 86);
            },
        }
    } else if ver == 8 {
        assert(8int / 7 == 1);
        assert((16 * 8int + 128) * 8int + 64 == 2112) by (nonlinear_arith);
        assert((25 * 3int - 10) * 3int - 55 == 140) by (nonlinear_arith);
        assert(raw_data_modules(8) == 1936);
        assert(raw_codewords(8) == 242);
        assert(9int / 7 == 1);
        assert((16 * 9int + 128) * 9int + 64 == 2512) by (nonlinear_arith);
        assert((25 * 3int - 10) * 3int - 55 == 140) by (nonlinear_arith);
        assert(raw_data_modules(9) == 2336);
        assert(raw_codewords(9) == 292);
        match e {
            QrCodeEcc::Low => {
                assert(ecc_per_block(e, 8) == 24 && num_ecc_blocks(e, 8) == 2);
                assert(ecc_per_block(e, 8) * num_ecc_blocks(e, 8) == 48) by (nonlinear_arith)
                    requires
                        ecc_per_block(e, 8) == 24,
                        num_ecc_blocks(e, 8) == 2,
                ;
                assert(ecc_per_block(e, 9) == 30 && num_ecc_blocks(e, 9) == 2);
                assert(ecc_per_block(e, 9) * num_ecc_blocks(e, 9) == 60) by (nonlinear_arith)
                    requires
                        ecc_per_block(e, 9) == 30,
                        num_ecc_blocks(e, 9) == 2,
                ;
                assert(data_codewords(8, e) == 194);
                assert(data_codewords(9, e) == 232);
            },
            QrCodeEcc::Medium => {
                assert(ecc_per_block(e, 8) == 22 && num_ecc_blocks(e, 8) == 4);
                assert(ecc_per_block(e, 8) * num_ecc_blocks(e, 8) == 88) by (nonlinear_arith)
                    requires
                        ecc_per_block(e, 8) == 22,
                        num_ecc_blocks(e, 8) == 4,
                ;
                assert(ecc_per_block(e, 9) == 22 && num_ecc_blocks(e, 9) == 5);
                assert(ecc_per_block(e, 9) * num_ecc_blocks(e, 9) == 110) by (nonlinear_arith)
                    requires
                        ecc_per_block(e, 9) == 22,
                        num_ecc_blocks(e, 9) == 5,
                ;
                assert(data_codewords(8, e) == 154);
                assert(data_codewords(9, e) == 182);
            },
            QrCodeEcc::Quartile => {
                assert(ecc_per_block(e, 8) == 22 && num_ecc_blocks(e, 8) == 6);
                assert(ecc_per_block(e, 8) * num_ecc_blocks(e, 8) == 132) by (nonlinear_arith)
                    requires
                        ecc_per_block(e, 8) == 22,
                        num_ecc_blocks(e, 8) == 6,
                ;
                assert(ecc_per_block(e, 9) == 20 && num_ecc_blocks(e, 9) == 8);
                assert(ecc_per_block(e, 9) * num_ecc_blocks(e, 9) == 160) by (nonlinear_arith)
                    requires
                        ecc_per_block(e, 9) == 20,
                        num_ecc_blocks(e, 9) == 8,
                ;
                assert(data_codewords(8, e) == 110);
                assert(data_codewords(9, e) == 132);
            },
            QrCodeEcc::High => {
                assert(ecc_per_block(e, 8) == 26 && num_ecc_blocks(e, 8) == 6);
                assert(ecc_per_block(e, 8) * num_ecc_blocks(e, 8) == 156) by (nonlinear_arith)
                    requires
                        ecc_per_block(e, 8) == 26,
                        num_ecc_blocks(e, 8) == 6,
                ;
                assert(ecc_per_block(e, 9) == 24 && num_ecc_blocks(e, 9) == 8);
                assert(ecc_per_block(e, 9) * num_ecc_blocks(e, 9) == 192) by (nonlinear_arith)
                    requires
                        ecc_per_block(e, 9) == 24,
                        num_ecc_blocks(e, 9) == 8,
                ;
                assert(data_codewords(8, e) == 86);
                assert(data_codewords(9, e) == 100);
            },
        }
    } else if ver == 9 {
        assert(9int / 7 == 1);
        assert((16 * 9int + 128) * 9int + 64 == 2512) by (nonlinear_arith);
        assert((25 * 3int - 10) * 3int - 55 == 140) by (nonlinear_arith);
        assert(raw_data_modules(9) == 2336);
        assert(raw_codewords(9) == 292);
        assert(10int / 7 == 1);
        assert((16 * 10int + 128) * 10int + 64 == 2944) by (nonlinear_arith);
        assert((25 * 3int - 10) * 3int - 55 == 140) by (nonlinear_arith);
        assert(raw_data_modules(10) == 2768);
        assert(raw_codewords(10) == 346);
        match e {
            QrCodeEcc::Low => {
                assert(ecc_per_block(e, 9) == 30 && num_ecc_blocks(e, 9) == 2);
                assert(ecc_per_block(e, 9) * num_ecc_blocks(e, 9) == 60) by (nonlinear_arith)
                    requires
                        ecc_per_block(e, 9) == 30,
                        num_ecc_blocks(e, 9) == 2,
                ;
                assert(ecc_per_block(e, 10) == 18 && num_ecc_blocks(e, 10) == 4);
                assert(ecc_per_block(e, 10) * num_ecc_blocks(e, 10) == 72) by (nonlinear_arith)
                    requires
                        ecc_per_block(e, 10) == 18,
                        num_ecc_blocks(e, 10) == 4,
                ;
                assert(data_codewords(9, e) == 232);
                assert(data_codewords(10, e) == 274);
            },
            QrCodeEcc::Medium => {
                assert(ecc_per_block(e, 9) == 22 && num_ecc_blocks(e, 9) == 5);
                assert(ecc_per_block(e, 9) * num_ecc_blocks(e, 9) == 110) by (nonlinear_arith)
                    requires
                        ecc_per_block(e, 9) == 22,
                        num_ecc_blocks(e, 9) == 5,
                ;
                assert(ecc_per_block(e, 10) == 26 && num_ecc_blocks(e, 10) == 5);
                assert(ecc_per_block(e, 10) * num_ecc_blocks(e, 10) == 130) by (nonlinear_arith)
                    requires
                        ecc_per_block(e, 10) == 26,
                        num_ecc_blocks(e, 10) == 5,
                ;
                assert(data_codewords(9, e) == 182);
                assert(data_codewords(10, e) == 216);
            },
            QrCodeEcc::Quartile => {
                assert(ecc_per_block(e, 9) == 20 && num_ecc_blocks(e, 9) == 8);
                assert(ecc_per_block(e, 9) * num_ecc_blocks(e, 9) == 160) by (nonlinear_arith)
                    requires
                        ecc_per_block(e, 9) == 20,
                        num_ecc_blocks(e, 9) == 8,
                ;
                assert(ecc_per_block(e, 10) == 24 && num_ecc_blocks(e, 10) == 8);
                assert(ecc_per_block(e, 10) * num_ecc_blocks(e, 10) == 192) by (nonlinear_arith)
                    requires
                        ecc_per_block(e, 10) == 24,
                        num_ecc_blocks(e, 10) == 8,
                ;
                assert(data_codewords(9, e) == 132);
                assert(data_codewords(10, e) == 154);
            },
            QrCodeEcc::High => {
                assert(ecc_per_block(e, 9) == 24 && num_ecc_blocks(e, 9) == 8);
                assert(ecc_per_block(e, 9) * num_ecc_blocks(e, 9) == 192) by (nonlinear_arith)
                    requires
                        ecc_per_block(e, 9) == 24,
                        num_ecc_blocks(e, 9) == 8,
                ;
                assert(ecc_per_block(e, 10) == 28 && num_ecc_blocks(e, 10) == 8);
                assert(ecc_per_block(e, 10) * num_ecc_blocks(e, 10) == 224) by (nonlinear_arith)
                    requires
                        ecc_per_block(e, 10) == 28,
                        num_ecc_blocks(e, 10) == 8,
                ;
                assert(data_codewords(9, e) == 100);
                assert(data_codewords(10, e) == 122);
            },
        }
    } else if ver == 10 {
        assert(10int / 7 == 1);
        assert((16 * 10int + 128) * 10int + 64 == 2944) by (nonlinear_arith);
        assert((25 * 3int - 10) * 3int - 55 == 140) by (nonlinear_arith);
        assert(raw_data_modules(10) == 2768);
        assert(raw_codewords(10) == 346);
        assert(11int / 7 == 1);
        assert((16 * 11int + 128) * 11int + 64 == 3408) by (nonlinear_arith);
        assert((25 * 3int - 10) * 3int - 55 == 140) by (nonlinear_arith);
        assert(raw_data_modules(11) == 3232);
        assert(raw_codewords(11) == 404);
        match e {
            QrCodeEcc::Low => {
                assert(ecc_per_block(e, 10) == 18 && num_ecc_blocks(e, 10) == 4);
                assert(ecc_per_block(e, 10) * num_ecc_blocks(e, 10) == 72) by (nonlinear_arith)
                    requires
                        ecc_per_block(e, 10) == 18,
                        num_ecc_blocks(e, 10) == 4,
                ;
                assert(ecc_per_block(e, 11) == 20 && num_ecc_blocks(e, 11) == 4);
                assert(ecc_per_block(e, 11) * num_ecc_blocks(e, 11) == 80) by (nonlinear_arith)
                    requires
                        ecc_per_block(e, 11) == 20,
                        num_ecc_blocks(e, 11) == 4,
                ;
                assert(data_codewords(10, e) == 274);
                assert(data_codewords(11, e) == 324);
            },
            QrCodeEcc::Medium => {
                assert(ecc_per_block(e, 10) == 26 && num_ecc_blocks(e, 10) == 5);
                assert(ecc_per_block(e, 10) * num_ecc_blocks(e, 10) == 130) by (nonlinear_arith)
                    requires
                        ecc_per_block(e, 10) == 26,
                        num_ecc_blocks(e, 10) == 5,
                ;
                assert(ecc_per_block(e, 11) == 30 && num_ecc_blocks(e, 11) == 5);
                assert(ecc_per_block(e, 11) * num_ecc_blocks(e, 11) == 150) by (nonlinear_arith)
                    requires
                        ecc_per_block(e, 11) == 30,
                        num_ecc_blocks(e, 11) == 5,
                ;
                assert(data_codewords(10, e) == 216);
                assert(data_codewords(11, e) == 254);
            },
            QrCodeEcc::Quartile => {
                assert(ecc_per_block(e, 10) == 24 && num_ecc_blocks(e, 10) == 8);
                assert(ecc_per_block(e, 10) * num_ecc_blocks(e, 10) == 192) by (nonlinear_arith)
                    requires
                        ecc_per_block(e, 10) == 24,
                        num_ecc_blocks(e, 10) == 8,
                ;
                assert(ecc_per_block(e, 11) == 28 && num_ecc_blocks(e, 11) == 8);
                assert(ecc_per_block(e, 11) * num_ecc_blocks(e, 11) == 224) by (nonlinear_arith)
                    requires
                        ecc_per_block(e, 11) == 28,
                        num_ecc_blocks(e, 11) == 8,
                ;
                assert(data_codewords(10, e) == 154);
                assert(data_codewords(11, e) == 180);
            },
            QrCodeEcc::High => {
                assert(ecc_per_block(e, 10) == 28 && num_ecc_blocks(e, 10) == 8);
                assert(ecc_per_block(e, 10) * num_ecc_blocks(e, 10) == 224) by (nonlinear_arith)
                    requires
                        ecc_per_block(e, 10) == 28,
                        num_ecc_blocks(e, 10) == 8,
                ;
                assert(ecc_per_block(e, 11) == 24 && num_ecc_blocks(e, 11) == 11);
                assert(ecc_per_block(e, 11) * num_ecc_blocks(e, 11) == 264) by (nonlinear_arith)
                    requires
                        ecc_per_block(e, 11) == 24,
                        num_ecc_blocks(e, 11) == 11,
                ;
                assert(data_codewords(10, e) == 122);
                assert(data_codewords(11, e) == 140);
            },
        }
    } else if ver == 11 {
        assert(11int / 7 == 1);
        assert((16 * 11int + 128) * 11int + 64 == 3408) by (nonlinear_arith);
        assert((25 * 3int - 10) * 3int - 55 == 140) by (nonlinear_arith);
        assert(raw_data_modules(11) == 3232);
        assert(raw_codewords(11) == 404);
        assert(12int / 7 == 1);
        assert((16 * 12int + 128) * 12int + 64 == 3904) by (nonlinear_arith);
        assert((25 * 3int - 10) * 3int - 55 == 140) by (nonlinear_arith);
        assert(raw_data_modules(12) == 3728);
        assert(raw_codewords(12) == 466);
        match e {
            QrCodeEcc::Low => {
                assert(ecc_per_block(e, 11) == 20 && num_ecc_blocks(e, 11) == 4);
                assert(ecc_per_block(e, 11) * num_ecc_blocks(e, 11) == 80) by (nonlinear_arith)
                    requires
                        ecc_per_block(e, 11) == 20,
                        num_ecc_blocks(e, 11) == 4,
                ;
                assert(ecc_per_block(e, 12) == 24 && num_ecc_blocks(e, 12) == 4);
                assert(ecc_per_block(e, 12) * num_ecc_blocks(e, 12) == 96) by (nonlinear_arith)
                    requires
                        ecc_per_block(e, 12) == 24,
                        num_ecc_blocks(e, 12) == 4,
                ;
                assert(data_codewords(11, e) == 324);
                assert(data_codewords(12, e) == 370);
            },
            QrCodeEcc::Medium => {
                assert(ecc_per_block(e, 11) == 30 && num_ecc_blocks(e, 11) == 5);
                assert(ecc_per_block(e, 11) * num_ecc_blocks(e, 11) == 150) by (nonlinear_arith)
                    requires
                        ecc_per_block(e, 11) == 30,
                        num_ecc_blocks(e, 11) == 5,
                ;
                assert(ecc_per_block(e, 12) == 22 && num_ecc_blocks(e, 12) == 8);
                assert(ecc_per_block(e, 12) * num_ecc_blocks(e, 12) == 176) by (nonlinear_arith)
                    requires
                        ecc_per_block(e, 12) == 22,
                        num_ecc_blocks(e, 12) == 8,
                ;
                assert(data_codewords(11, e) == 254);
                assert(data_codewords(12, e) == 290);
            },
            QrCodeEcc::Quartile => {
                assert(ecc_per_block(e, 11) == 28 && num_ecc_blocks(e, 11) == 8);
                assert(ecc_per_block(e, 11) * num_ecc_blocks(e, 11) == 224) by (nonlinear_arith)
                    requires
                        ecc_per_block(e, 11) == 28,
                        num_ecc_blocks(e, 11) == 8,
                ;
                assert(ecc_per_block(e, 12) == 26 && num_ecc_blocks(e, 12) == 10);
                assert(ecc_per_block(e, 12) * num_ecc_blocks(e, 12) == 260) by (nonlinear_arith)
                    requires
                        ecc_per_block(e, 12) == 26,
                        num_ecc_blocks(e, 12) == 10,
                ;
                assert(data_codewords(11, e) == 180);
                assert(data_codewords(12, e) == 206);
            },
            QrCodeEcc::High => {
                assert(ecc_per_block(e, 11) == 24 && num_ecc_blocks(e, 11) == 11);
                assert(ecc_per_block(e, 11) * num_ecc_blocks(e, 11) == 264) by (nonlinear_arith)
                    requires
                        ecc_per_block(e, 11) == 24,
                        num_ecc_blocks(e, 11) == 11,
                ;
                assert(ecc_per_block(e, 12) == 28 && num_ecc_blocks(e, 12) == 11);
                assert(ecc_per_block(e, 12) * num_ecc_blocks(e, 12) == 308) by (nonlinear_arith)
                    requires
                        ecc_per_block(e, 12) == 28,
                        num_ecc_blocks(e, 12) == 11,
                ;
                assert(data_codewords(11, e) == 140);
                assert(data_codewords(12, e) == 158);
            },
        }
    } else if ver == 12 {
        assert(12int / 7 == 1);
        assert((16 * 12int + 128) * 12int + 64 == 3904) by (nonlinear_arith);
        assert((25 * 3int - 10) * 3int - 55 == 140) by (nonlinear_arith);
        assert(raw_data_modules(12) == 3728);
        assert(raw_codewords(12) == 466);
        assert(13int / 7 == 1);
        assert((16 * 13int + 128) * 13int + 64 == 4432) by (nonlinear_arith);
        assert((25 * 3int - 10) * 3int - 55 == 140) by (nonlinear_arith);
        assert(raw_data_modules(13) == 4256);
        assert(raw_codewords(13) == 532);
        match e {
            QrCodeEcc::Low => {
                assert(ecc_per_block(e, 12) == 24 && num_ecc_blocks(e, 12) == 4);
                assert(ecc_per_block(e, 12) * num_ecc_blocks(e, 12) == 96) by (nonlinear_arith)
                    requires
                        ecc_per_block(e, 12) == 24,
                        num_ecc_blocks(e, 12) == 4,
                ;
                assert(ecc_per_block(e, 13) == 26 && num_ecc_blocks(e, 13) == 4);
                assert(ecc_per_block(e, 13) * num_ecc_blocks(e, 13) == 104) by (nonlinear_arith)
                    requires
                        ecc_per_block(e, 13) == 26,
                        num_ecc_blocks(e, 13) == 4,
                ;
                assert(data_codewords(12, e) == 370);
                assert(data_codewords(13, e) == 428);
            },
            QrCodeEcc::Medium => {
                assert(ecc_per_block(e, 12) == 22 && num_ecc_blocks(e, 12) == 8);
                assert(ecc_per_block(e, 12) * num_ecc_blocks(e, 12) == 176) by (nonlinear_arith)
                    requires
                        ecc_per_block(e, 12) == 22,
                        num_ecc_blocks(e, 12) == 8,
                ;
                assert(ecc_per_block(e, 13) == 22 && num_ecc_blocks(e, 13) == 9);
                assert(ecc_per_block(e, 13) * num_ecc_blocks(e, 13) == 198) by (nonlinear_arith)
                    requires
                        ecc_per_block(e, 13) == 22,
                        num_ecc_blocks(e, 13) == 9,
                ;
                assert(data_codewords(12, e) == 290);
                assert(data_codewords(13, e) == 334);
            },
            QrCodeEcc::Quartile => {
                assert(ecc_per_block(e, 12) == 26 && num_ecc_blocks(e, 12) == 10);
                assert(ecc_per_block(e, 12) * num_ecc_blocks(e, 12) == 260) by (nonlinear_arith)
                    requires
                        ecc_per_block(e, 12) == 26,
                        num_ecc_blocks(e, 12) == 10,
                ;
                assert(ecc_per_block(e, 13) == 24 && num_ecc_blocks(e, 13) == 12);
                assert(ecc_per_block(e, 13) * num_ecc_blocks(e, 13) == 288) by (nonlinear_arith)
                    requires
                        ecc_per_block(e, 13) == 24,
                        num_ecc_blocks(e, 13) == 12,
                ;
                assert(data_codewords(12, e) == 206);
                assert(data_codewords(13, e) == 244);
            },
            QrCodeEcc::High => {
                assert(ecc_per_block(e, 12) == 28 && num_ecc_blocks(e, 12) == 11);
                assert(ecc_per_block(e, 12) * num_ecc_blocks(e, 12) == 308) by (nonlinear_arith)
                    requires
                        ecc_per_block(e, 12) == 28,
                        num_ecc_blocks(e, 12) == 11,
                ;
                assert(ecc_per_block(e, 13) == 22 && num_ecc_blocks(e, 13) == 16);
                assert(ecc_per_block(e, 13) * num_ecc_blocks(e, 13) == 352) by (nonlinear_arith)
                    requires
                        ecc_per_block(e, 13) == 22,
                        num_ecc_blocks(e, 13) == 16,
                ;
                assert(data_codewords(12, e) == 158);
                assert(data_codewords(13, e) == 180);
            },
        }
    } else if ver == 13 {
        assert(13int / 7 == 1);
        assert((16 * 13int + 128) * 13int + 64 == 4432) by (nonlinear_arith);
        assert((25 * 3int - 10) * 3int - 55 == 140) by (nonlinear_arith);
        assert(raw_data_modules(13) == 4256);
        assert(raw_codewords(13) == 532);
        assert(14int / 7 == 2);
        assert((16 * 14int + 128) * 14int + 64 == 4992) by (nonlinear_arith);
        assert((25 * 4int - 10) * 4int - 55 == 305) by (nonlinear_arith);
        assert(raw_data_modules(14) == 4651);
        assert(raw_codewords(14) == 581);
        match e {
            QrCodeEcc::Low => {
                assert(ecc_per_block(e, 13) == 26 && num_ecc_blocks(e, 13) == 4);
                assert(ecc_per_block(e, 13) * num_ecc_blocks(e, 13) == 104) by (nonlinear_arith)
                    requires
                        ecc_per_block(e, 13) == 26,
                        num_ecc_blocks(e, 13) == 4,
                ;
                assert(ecc_per_block(e, 14) == 30 && num_ecc_blocks(e, 14) == 4);
                assert(ecc_per_block(e, 14) * num_ecc_blocks(e, 14) == 120) by (nonlinear_arith)
                    requires
                        ecc_per_block(e, 14) == 30,
                        num_ecc_blocks(e, 14) == 4,
                ;
                assert(data_codewords(13, e) == 428);
                assert(data_codewords(14, e) == 461);
            },
            QrCodeEcc::Medium => {
                assert(ecc_per_block(e, 13) == 22 && num_ecc_blocks(e, 13) == 9);
                assert(ecc_per_block(e, 13) * num_ecc_blocks(e, 13) == 198) by (nonlinear_arith)
                    requires
                        ecc_per_block(e, 13) == 22,
                        num_ecc_blocks(e, 13) == 9,
                ;
                assert(ecc_per_block(e, 14) == 24 && num_ecc_blocks(e, 14) == 9);
                assert(ecc_per_block(e, 14) * num_ecc_blocks(e, 14) == 216) by (nonlinear_arith)
                    requires
                        ecc_per_block(e, 14) == 24,
                        num_ecc_blocks(e, 14) == 9,
                ;
                assert(data_codewords(13, e) == 334);
                assert(data_codewords(14, e) == 365);
            },
            QrCodeEcc::Quartile => {
                assert(ecc_per_block(e, 13) == 24 && num_ecc_blocks(e, 13) == 12);
                assert(ecc_per_block(e, 13) * num_ecc_blocks(e, 13) == 288) by (nonlinear_arith)
                    requires
                        ecc_per_block(e, 13) == 24,
                        num_ecc_blocks(e, 13) == 12,
                ;
                assert(ecc_per_block(e, 14) == 20 && num_ecc_blocks(e, 14) == 16);
                assert(ecc_per_block(e, 14) * num_ecc_blocks(e, 14) == 320) by (nonlinear_arith)
                    requires
                        ecc_per_block(e, 14) == 20,
                        num_ecc_blocks(e, 14) == 16,
                ;
                assert(data_codewords(13, e) == 244);
                assert(data_codewords(14, e) == 261);
            },
            QrCodeEcc::High => {
                assert(ecc_per_block(e, 13) == 22 && num_ecc_blocks(e, 13) == 16);
                assert(ecc_per_block(e, 13) * num_ecc_blocks(e, 13) == 352) by (nonlinear_arith)
                    requires
                        ecc_per_block(e, 13) == 22,
                        num_ecc_blocks(e, 13) == 16,
                ;
                assert(ecc_per_block(e, 14) == 24 && num_ecc_blocks(e, 14) == 16);
                assert(ecc_per_block(e, 14) * num_ecc_blocks(e, 14) == 384) by (nonlinear_arith)
                    requires
                        ecc_per_block(e, 14) == 24,
                        num_ecc_blocks(e, 14) == 16,
                ;
                assert(data_codewords(13, e) == 180);
                assert(data_codewords(14, e) == 197);
            },
        }
    } else if ver == 14 {
        assert(14int / 7 == 2);
        assert((16 * 14int + 128) * 14int + 64 == 4992) by (nonlinear_arith);
        assert((25 * 4int - 10) * 4int - 55 == 305) by (nonlinear_arith);
        assert(raw_data_modules(14) == 4651);
        assert(raw_codewords(14) == 581);
        assert(15int / 7 == 2);
        assert((16 * 15int + 128) * 15int + 64 == 5584) by (nonlinear_arith);
        assert((25 * 4int - 10) * 4int - 55 == 305) by (nonlinear_arith);
        assert(raw_data_modules(15) == 5243);
        assert(raw_codewords(15) == 655);
        match e {
            QrCodeEcc::Low => {
                assert(ecc_per_block(e, 14) == 30 && num_ecc_blocks(e, 14) == 4);
                assert(ecc_per_block(e, 14) * num_ecc_blocks(e, 14) == 120) by (nonlinear_arith)
                    requires
                        ecc_per_block(e, 14) == 30,
                        num_ecc_blocks(e, 14) == 4,
                ;
                assert(ecc_per_block(e, 15) == 22 && num_ecc_blocks(e, 15) == 6);
                assert(ecc_per_block(e, 15) * num_ecc_blocks(e, 15) == 132) by (nonlinear_arith)
                    requires
                        ecc_per_block(e, 15) == 22,
                        num_ecc_blocks(e, 15) == 6,
                ;
                assert(data_codewords(14, e) == 461);
                assert(data_codewords(15, e) == 523);
            },
            QrCodeEcc::Medium => {
                assert(ecc_per_block(e, 14) == 24 && num_ecc_blocks(e, 14) == 9);
                assert(ecc_per_block(e, 14) * num_ecc_blocks(e, 14) == 216) by (nonlinear_arith)
                    requires
                        ecc_per_block(e, 14) == 24,
                        num_ecc_blocks(e, 14) == 9,
                ;
                assert(ecc_per_block(e, 15) == 24 && num_ecc_blocks(e, 15) == 10);
                assert(ecc_per_block(e, 15) * num_ecc_blocks(e, 15) == 240) by (nonlinear_arith)
                    requires
                        ecc_per_block(e, 15) == 24,
                        num_ecc_blocks(e, 15) == 10,
                ;
                assert(data_codewords(14, e) == 365);
                assert(data_codewords(15, e) == 415);
            },
            QrCodeEcc::Quartile => {
                assert(ecc_per_block(e, 14) == 20 && num_ecc_blocks(e, 14) == 16);
                assert(ecc_per_block(e, 14) * num_ecc_blocks(e, 14) == 320) by (nonlinear_arith)
                    requires
                        ecc_per_block(e, 14) == 20,
                        num_ecc_blocks(e, 14) == 16,
                ;
                assert(ecc_per_block(e, 15) == 30 && num_ecc_blocks(e, 15) == 12);
                assert(ecc_per_block(e, 15) * num_ecc_blocks(e, 15) == 360) by (nonlinear_arith)
                    requires
                        ecc_per_block(e, 15) == 30,
                        num_ecc_blocks(e, 15) == 12,
                ;
                assert(data_codewords(14, e) == 261);
                assert(data_codewords(15, e) == 295);
            },
            QrCodeEcc::High => {
                assert(ecc_per_block(e, 14) == 24 && num_ecc_blocks(e, 14) == 16);
                assert(ecc_per_block(e, 14) * num_ecc_blocks(e, 14) == 384) by (nonlinear_arith)
                    requires
                        ecc_per_block(e, 14) == 24,
                        num_ecc_blocks(e, 14) == 16,
                ;
                assert(ecc_per_block(e, 15) == 24 && num_ecc_blocks(e, 15) == 18);
                assert(ecc_per_block(e, 15) * num_ecc_blocks(e, 15) == 432) by (nonlinear_arith)
                    requires
                        ecc_per_block(e, 15) == 24,
                        num_ecc_blocks(e, 15) == 18,
                ;
                assert(data_codewords(14, e) == 197);
                assert(data_codewords(15, e) == 223);
            },
        }
    } else if ver == 15 {
        assert(15int / 7 == 2);
        assert((16 * 15int + 128) * 15int + 64 == 5584) by (nonlinear_arith);
        assert((25 * 4int - 10) * 4int - 55 == 305) by (nonlinear_arith);
        assert(raw_data_modules(15) == 5243);
        assert(raw_codewords(15) == 655);
        assert(16int / 7 == 2);
        assert((16 * 16int + 128) * 16int + 64 == 6208) by (nonlinear_arith);
        assert((25 * 4int - 10) * 4int - 55 == 305) by (nonlinear_arith);
        assert(raw_data_modules(16) == 5867);
        assert(raw_codewords(16) == 733);
        match e {
            QrCodeEcc::Low => {
                assert(ecc_per_block(e, 15) == 22 && num_ecc_blocks(e, 15) == 6);
                assert(ecc_per_block(e, 15) * num_ecc_blocks(e, 15) == 132) by (nonlinear_arith)
                    requires
                        ecc_per_block(e, 15) == 22,
                        num_ecc_blocks(e, 15) == 6,
                ;
                assert(ecc_per_block(e, 16) == 24 && num_ecc_blocks(e, 16) == 6);
                assert(ecc_per_block(e, 16) * num_ecc_blocks(e, 16) == 144) by (nonlinear_arith)
                    requires
                        ecc_per_block(e, 16) == 24,
                        num_ecc_blocks(e, 16) == 6,
                ;
                assert(data_codewords(15, e) == 523);
                assert(data_codewords(16, e) == 589);
            },
            QrCodeEcc::Medium => {
                assert(ecc_per_block(e, 15) == 24 && num_ecc_blocks(e, 15) == 10);
                assert(ecc_per_block(e, 15) * num_ecc_blocks(e, 15) == 240) by (nonlinear_arith)
                    requires
                        ecc_per_block(e, 15) == 24,
                        num_ecc_blocks(e, 15) == 10,
                ;
                assert(ecc_per_block(e, 16) == 28 && num_ecc_blocks(e, 16) == 10);
                assert(ecc_per_block(e, 16) * num_ecc_blocks(e, 16) == 280) by (nonlinear_arith)
                    requires
                        ecc_per_block(e, 16) == 28,
                        num_ecc_blocks(e, 16) == 10,
                ;
                assert(data_codewords(15, e) == 415);
                assert(data_codewords(16, e) == 453);
            },
            QrCodeEcc::Quartile => {
                assert(ecc_per_block(e, 15) == 30 && num_ecc_blocks(e, 15) == 12);
                assert(ecc_per_block(e, 15) * num_ecc_blocks(e, 15) == 360) by (nonlinear_arith)
                    requires
                        ecc_per_block(e, 15) == 30,
                        num_ecc_blocks(e, 15) == 12,
                ;
                assert(ecc_per_block(e, 16) == 24 && num_ecc_blocks(e, 16) == 17);
                assert(ecc_per_block(e, 16) * num_ecc_blocks(e, 16) == 408) by (nonlinear_arith)
                    requires
                        ecc_per_block(e, 16) == 24,
                        num_ecc_blocks(e, 16) == 17,
                ;
                assert(data_codewords(15, e) == 295);
                assert(data_codewords(16, e) == 325);
            },
            QrCodeEcc::High => {
                assert(ecc_per_block(e, 15) == 24 && num_ecc_blocks(e, 15) == 18);
                assert(ecc_per_block(e, 15) * num_ecc_blocks(e, 15) == 432) by (nonlinear_arith)
                    requires
                        ecc_per_block(e, 15) == 24,
                        num_ecc_blocks(e, 15) == 18,
                ;
                assert(ecc_per_block(e, 16) == 30 && num_ecc_blocks(e, 16) == 16);
                assert(ecc_per_block(e, 16) * num_ecc_blocks(e, 16) == 480) by (nonlinear_arith)
                    requires
                        ecc_per_block(e, 16) == 30,
                        num_ecc_blocks(e, 16) == 16,
                ;
                assert(data_codewords(15, e) == 223);
                assert(data_codewords(16, e) == 253);
            },
        }
    } else if ver == 16 {
        assert(16int / 7 == 2);
        assert((16 * 16int + 128) * 16int + 64 == 6208) by (nonlinear_arith);
        assert((25 * 4int - 10) * 4int - 55 == 305) by (nonlinear_arith);
        assert(raw_data_modules(16) == 5867);
        assert(raw_codewords(16) == 733);
        assert(17int / 7 == 2);
        assert((16 * 17int + 128) * 17int + 64 == 6864) by (nonlinear_arith);
        assert((25 * 4int - 10) * 4int - 55 == 305) by (nonlinear_arith);
        assert(raw_data_modules(17) == 6523);
        assert(raw_codewords(17) == 815);
        match e {
            QrCodeEcc::Low => {
                assert(ecc_per_block(e, 16) == 24 && num_ecc_blocks(e, 16) == 6);
                assert(ecc_per_block(e, 16) * num_ecc_blocks(e, 16) == 144) by (nonlinear_arith)
                    requires
                        ecc_per_block(e, 16) == 24,
                        num_ecc_blocks(e, 16) == 6,
                ;
                assert(ecc_per_block(e, 17) == 28 && num_ecc_blocks(e, 17) == 6);
                assert(ecc_per_block(e, 17) * num_ecc_blocks(e, 17) == 168) by (nonlinear_arith)
                    requires
                        ecc_per_block(e, 17) == 28,
                        num_ecc_blocks(e, 17) == 6,
                ;
                assert(data_codewords(16, e) == 589);
                assert(data_codewords(17, e) == 647);
            },
            QrCodeEcc::Medium => {
                assert(ecc_per_block(e, 16) == 28 && num_ecc_blocks(e, 16) == 10);
                assert(ecc_per_block(e, 16) * num_ecc_blocks(e, 16) == 280) by (nonlinear_arith)
                    requires
                        ecc_per_block(e, 16) == 28,
                        num_ecc_blocks(e, 16) == 10,
                ;
                assert(ecc_per_block(e, 17) == 28 && num_ecc_blocks(e, 17) == 11);
                assert(ecc_per_block(e, 17) * num_ecc_blocks(e, 17) == 308) by (nonlinear_arith)
                    requires
                        ecc_per_block(e, 17) == 28,
                        num_ecc_blocks(e, 17) == 11,
                ;
                assert(data_codewords(16, e) == 453);
                assert(data_codewords(17, e) == 507);
            },
            QrCodeEcc::Quartile => {
                assert(ecc_per_block(e, 16) == 24 && num_ecc_blocks(e, 16) == 17);
                assert(ecc_per_block(e, 16) * num_ecc_blocks(e, 16) == 408) by (nonlinear_arith)
                    requires
                        ecc_per_block(e, 16) == 24,
                        num_ecc_blocks(e, 16) == 17,
                ;
                assert(ecc_per_block(e, 17) == 28 && num_ecc_blocks(e, 17) == 16);
                assert(ecc_per_block(e, 17) * num_ecc_blocks(e, 17) == 448) by (nonlinear_arith)
                    requires
                        ecc_per_block(e, 17) == 28,
                        num_ecc_blocks(e, 17) == 16,
                ;
                assert(data_codewords(16, e) == 325);
                assert(data_codewords(17, e) == 367);
            },
            QrCodeEcc::High => {
                assert(ecc_per_block(e, 16) == 30 && num_ecc_blocks(e, 16) == 16);
                assert(ecc_per_block(e, 16) * num_ecc_blocks(e, 16) == 480) by (nonlinear_arith)
                    requires
                        ecc_per_block(e, 16) == 30,
                        num_ecc_blocks(e, 16) == 16,
                ;
                assert(ecc_per_block(e, 17) == 28 && num_ecc_blocks(e, 17) == 19);
                assert(ecc_per_block(e, 17) * num_ecc_blocks(e, 17) == 532) by (nonlinear_arith)
                    requires
                        ecc_per_block(e, 17) == 28,
                        num_ecc_blocks(e, 17) == 19,
                ;
                assert(data_codewords(16, e) == 253);
                assert(data_codewords(17, e) == 283);
            },
        }
    } else if ver == 17 {
        assert(17int / 7 == 2);
        assert((16 * 17int + 128) * 17int + 64 == 6864) by (nonlinear_arith);
        assert((25 * 4int - 10) * 4int - 55 == 305) by (nonlinear_arith);
        assert(raw_data_modules(17) == 6523);
        assert(raw_codewords(17) == 815);
        assert(18int / 7 == 2);
        assert((16 * 18int + 128) * 18int + 64 == 7552) by (nonlinear_arith);
        assert((25 * 4int - 10) * 4int - 55 == 305) by (nonlinear_arith);
        assert(raw_data_modules(18) == 7211);
        assert(raw_codewords(18) == 901);
        match e {
            QrCodeEcc::Low => {
                assert(ecc_per_block(e, 17) == 28 && num_ecc_blocks(e, 17) == 6);
                assert(ecc_per_block(e, 17) * num_ecc_blocks(e, 17) == 168) by (nonlinear_arith)
                    requires
                        ecc_per_block(e, 17) == 28,
                        num_ecc_blocks(e, 17) == 6,
                ;
                assert(ecc_per_block(e, 18) == 30 && num_ecc_blocks(e, 18) == 6);
                assert(ecc_per_block(e, 18) * num_ecc_blocks(e, 18) == 180) by (nonlinear_arith)
                    requires
                        ecc_per_block(e, 18) == 30,
                        num_ecc_blocks(e, 18) == 6,
                ;
                assert(data_codewords(17, e) == 647);
                assert(data_codewords(18, e) == 721);
            },
            QrCodeEcc::Medium => {
                assert(ecc_per_block(e, 17) == 28 && num_ecc_blocks(e, 17) == 11);
                assert(ecc_per_block(e, 17) * num_ecc_blocks(e, 17) == 308) by (nonlinear_arith)
                    requires
                        ecc_per_block(e, 17) == 28,
                        num_ecc_blocks(e, 17) == 11,
                ;
                assert(ecc_per_block(e, 18) == 26 && num_ecc_blocks(e, 18) == 13);
                assert(ecc_per_block(e, 18) * num_ecc_blocks(e, 18) == 338) by (nonlinear_arith)
                    requires
                        ecc_per_block(e, 18) == 26,
                        num_ecc_blocks(e, 18) == 13,
                ;
                assert(data_codewords(17, e) == 507);
                assert(data_codewords(18, e) == 563);
            },
            QrCodeEcc::Quartile => {
                assert(ecc_per_block(e, 17) == 28 && num_ecc_blocks(e, 17) == 16);
                assert(ecc_per_block(e, 17) * num_ecc_blocks(e, 17) == 448) by (nonlinear_arith)
                    requires
                        ecc_per_block(e, 17) == 28,
                        num_ecc_blocks(e, 17) == 16,
                ;
                assert(ecc_per_block(e, 18) == 28 && num_ecc_blocks(e, 18) == 18);
                assert(ecc_per_block(e, 18) * num_ecc_blocks(e, 18) == 504) by (nonlinear_arith)
                    requires
                        ecc_per_block(e, 18) == 28,
                        num_ecc_blocks(e, 18) == 18,
                ;
                assert(data_codewords(17, e) == 367);
                assert(data_codewords(18, e) == 397);
            },
            QrCodeEcc::High => {
                assert(ecc_per_block(e, 17) == 28 && num_ecc_blocks(e, 17) == 19);
                assert(ecc_per_block(e, 17) * num_ecc_blocks(e, 17) == 532) by (nonlinear_arith)
                    requires
                        ecc_per_block(e, 17) == 28,
                        num_ecc_blocks(e, 17) == 19,
                ;
                assert(ecc_per_block(e, 18) == 28 && num_ecc_blocks(e, 18) == 21);
                assert(ecc_per_block(e, 18) * num_ecc_blocks(e, 18) == 588) by (nonlinear_arith)
                    requires
                        ecc_per_block(e, 18) == 28,
                        num_ecc_blocks(e, 18) == 21,
                ;
                assert(data_codewords(17, e) == 283);
                assert(data_codewords(18, e) == 313);
            },
        }
    } else if ver == 18 {
        assert(18int / 7 == 2);
        assert((16 * 18int + 128) * 18int + 64 == 7552) by (nonlinear_arith);
        assert((25 * 4int - 10) * 4int - 55 == 305) by (nonlinear_arith);
        assert(raw_data_modules(18) == 7211);
        assert(raw_codewords(18) == 901);
        assert(19int / 7 == 2);
        assert((16 * 19int + 128) * 19int + 64 == 8272) by (nonlinear_arith);
        assert((25 * 4int - 10) * 4int - 55 == 305) by (nonlinear_arith);
        assert(raw_data_modules(19) == 7931);
        assert(raw_codewords(19) == 991);
        match e {
            QrCodeEcc::Low => {
                assert(ecc_per_block(e, 18) == 30 && num_ecc_blocks(e, 18) == 6);
                assert(ecc_per_block(e, 18) * num_ecc_blocks(e, 18) == 180) by (nonlinear_arith)
                    requires
                        ecc_per_block(e, 18) == 30,
                        num_ecc_blocks(e, 18) == 6,
                ;
                assert(ecc_per_block(e, 19) == 28 && num_ecc_blocks(e, 19) == 7);
                assert(ecc_per_block(e, 19) * num_ecc_blocks(e, 19) == 196) by (nonlinear_arith)
                    requires
                        ecc_per_block(e, 19) == 28,
                        num_ecc_blocks(e, 19) == 7,
                ;
                assert(data_codewords(18, e) == 721);
                assert(data_codewords(19, e) == 795);
            },
            QrCodeEcc::Medium => {
                assert(ecc_per_block(e, 18) == 26 && num_ecc_blocks(e, 18) == 13);
                assert(ecc_per_block(e, 18) * num_ecc_blocks(e, 18) == 338) by (nonlinear_arith)
                    requires
                        ecc_per_block(e, 18) == 26,
                        num_ecc_blocks(e, 18) == 13,
                ;
                assert(ecc_per_block(e, 19) == 26 && num_ecc_blocks(e, 19) == 14);
                assert(ecc_per_block(e, 19) * num_ecc_blocks(e, 19) == 364) by (nonlinear_arith)
                    requires
                        ecc_per_block(e, 19) == 26,
                        num_ecc_blocks(e, 19) == 14,
                ;
                assert(data_codewords(18, e) == 563);
                assert(data_codewords(19, e) == 627);
            },
            QrCodeEcc::Quartile => {
                assert(ecc_per_block(e, 18) == 28 && num_ecc_blocks(e, 18) == 18);
                assert(ecc_per_block(e, 18) * num_ecc_blocks(e, 18) == 504) by (nonlinear_arith)
                    requires
                        ecc_per_block(e, 18) == 28,
                        num_ecc_blocks(e, 18) == 18,
                ;
                assert(ecc_per_block(e, 19) == 26 && num_ecc_blocks(e, 19) == 21);
                assert(ecc_per_block(e, 19) * num_ecc_blocks(e, 19) == 546) by (nonlinear_arith)
                    requires
                        ecc_per_block(e, 19) == 26,
                        num_ecc_blocks(e, 19) == 21,
                ;
                assert(data_codewords(18, e) == 397);
                assert(data_codewords(19, e) == 445);
            },
            QrCodeEcc::High => {
                assert(ecc_per_block(e, 18) == 28 && num_ecc_blocks(e, 18) == 21);
                assert(ecc_per_block(e, 18) * num_ecc_blocks(e, 18) == 588) by (nonlinear_arith)
                    requires
                        ecc_per_block(e, 18) == 28,
                        num_ecc_blocks(e, 18) == 21,
                ;
                assert(ecc_per_block(e, 19) == 26 && num_ecc_blocks(e, 19) == 25);
                assert(ecc_per_block(e, 19) * num_ecc_blocks(e, 19) == 650) by (nonlinear_arith)
                    requires
                        ecc_per_block(e, 19) == 26,
                        num_ecc_blocks(e, 19) == 25,
                ;
                assert(data_codewords(18, e) == 313);
                assert(data_codewords(19, e) == 341);
            },
        }
    } else if ver == 19 {
        assert(19int / 7 == 2);
        assert((16 * 19int + 128) * 19int + 64 == 8272) by (nonlinear_arith);
        assert((25 * 4int - 10) * 4int - 55 == 305) by (nonlinear_arith);
        assert(raw_data_modules(19) == 7931);
        assert(raw_codewords(19) == 991);
        assert(20int / 7 == 2);
        assert((16 * 20int + 128) * 20int + 64 == 9024) by (nonlinear_arith);
        assert((25 * 4int - 10) * 4int - 55 == 305) by (nonlinear_arith);
        assert(raw_data_modules(20) == 8683);
        assert(raw_codewords(20) == 1085);
        match e {
            QrCodeEcc::Low => {
                assert(ecc_per_block(e, 19) == 28 && num_ecc_blocks(e, 19) == 7);
                assert(ecc_per_block(e, 19) * num_ecc_blocks(e, 19) == 196) by (nonlinear_arith)
                    requires
                        ecc_per_block(e, 19) == 28,
                        num_ecc_blocks(e, 19) == 7,
                ;
                assert(ecc_per_block(e, 20) == 28 && num_ecc_blocks(e, 20) == 8);
                assert(ecc_per_block(e, 20) * num_ecc_blocks(e, 20) == 224) by (nonlinear_arith)
                    requires
                        ecc_per_block(e, 20) == 28,
                        num_ecc_blocks(e, 20) == 8,
                ;
                assert(data_codewords(19, e) == 795);
                assert(data_codewords(20, e) == 861);
            },
            QrCodeEcc::Medium => {
                assert(ecc_per_block(e, 19) == 26 && num_ecc_blocks(e, 19) == 14);
                assert(ecc_per_block(e, 19) * num_ecc_blocks(e, 19) == 364) by (nonlinear_arith)
                    requires
                        ecc_per_block(e, 19) == 26,
                        num_ecc_blocks(e, 19) == 14,
                ;
                assert(ecc_per_block(e, 20) == 26 && num_ecc_blocks(e, 20) == 16);
                assert(ecc_per_block(e, 20) * num_ecc_blocks(e, 20) == 416) by (nonlinear_arith)
                    requires
                        ecc_per_block(e, 20) == 26,
                        num_ecc_blocks(e, 20) == 16,
                ;
                assert(data_codewords(19, e) == 627);
                assert(data_codewords(20, e) == 669);
            },
            QrCodeEcc::Quartile => {
                assert(ecc_per_block(e, 19) == 26 && num_ecc_blocks(e, 19) == 21);
                assert(ecc_per_block(e, 19) * num_ecc_blocks(e, 19) == 546) by (nonlinear_arith)
                    requires
                        ecc_per_block(e, 19) == 26,
                        num_ecc_blocks(e, 19) == 21,
                ;
                assert(ecc_per_block(e, 20) == 30 && num_ecc_blocks(e, 20) == 20);
                assert(ecc_per_block(e, 20) * num_ecc_blocks(e, 20) == 600) by (nonlinear_arith)
                    requires
                        ecc_per_block(e, 20) == 30,
                        num_ecc_blocks(e, 20) == 20,
                ;
                assert(data_codewords(19, e) == 445);
                assert(data_codewords(20, e) == 485);
            },
            QrCodeEcc::High => {
                assert(ecc_per_block(e, 19) == 26 && num_ecc_blocks(e, 19) == 25);
                assert(ecc_per_block(e, 19) * num_ecc_blocks(e, 19) == 650) by (nonlinear_arith)
                    requires
                        ecc_per_block(e, 19) == 26,
                        num_ecc_blocks(e, 19) == 25,
                ;
                assert(ecc_per_block(e, 20) == 28 && num_ecc_blocks(e, 20) == 25);
                assert(ecc_per_block(e, 20) * num_ecc_blocks(e, 20) == 700) by (nonlinear_arith)
                    requires
                        ecc_per_block(e, 20) == 28,
                        num_ecc_blocks(e, 20) == 25,
                ;
                assert(data_codewords(19, e) == 341);
                assert(data_codewords(20, e) == 385);
            },
        }
    } else if ver == 20 {
        assert(20int / 7 == 2);
        assert((16 * 20int + 128) * 20int + 64 == 9024) by (nonlinear_arith);
        assert((25 * 4int - 10) * 4int - 55 == 305) by (nonlinear_arith);
        assert(raw_data_modules(20) == 8683);
        assert(raw_codewords(20) == 1085);
        assert(21int / 7 == 3);
        assert((16 * 21int + 128) * 21int + 64 == 9808) by (nonlinear_arith);
        assert((25 * 5int - 10) * 5int - 55 == 520) by (nonlinear_arith);
        assert(raw_data_modules(21) == 9252);
        assert(raw_codewords(21) == 1156);
        match e {
            QrCodeEcc::Low => {
                assert(ecc_per_block(e, 20) == 28 && num_ecc_blocks(e, 20) == 8);
                assert(ecc_per_block(e, 20) * num_ecc_blocks(e, 20) == 224) by (nonlinear_arith)
                    requires
                        ecc_per_block(e, 20) == 28,
                        num_ecc_blocks(e, 20) == 8,
                ;
                assert(ecc_per_block(e, 21) == 28 && num_ecc_blocks(e, 21) == 8);
                assert(ecc_per_block(e, 21) * num_ecc_blocks(e, 21) == 224) by (nonlinear_arith)
                    requires
                        ecc_per_block(e, 21) == 28,
                        num_ecc_blocks(e, 21) == 8,
                ;
                assert(data_codewords(20, e) == 861);
                assert(data_codewords(21, e) == 932);
            },
            QrCodeEcc::Medium => {
                assert(ecc_per_block(e, 20) == 26 && num_ecc_blocks(e, 20) == 16);
                assert(ecc_per_block(e, 20) * num_ecc_blocks(e, 20) == 416) by (nonlinear_arith)
                    requires
                        ecc_per_block(e, 20) == 26,
                        num_ecc_blocks(e, 20) == 16,
                ;
                assert(ecc_per_block(e, 21) == 26 && num_ecc_blocks(e, 21) == 17);
                assert(ecc_per_block(e, 21) * num_ecc_blocks(e, 21) == 442) by (nonlinear_arith)
                    requires
                        ecc_per_block(e, 21) == 26,
                        num_ecc_blocks(e, 21) == 17,
                ;
                assert(data_codewords(20, e) == 669);
                assert(data_codewords(21, e) == 714);
            },
            QrCodeEcc::Quartile => {
                assert(ecc_per_block(e, 20) == 30 && num_ecc_blocks(e, 20) == 20);
                assert(ecc_per_block(e, 20) * num_ecc_blocks(e, 20) == 600) by (nonlinear_arith)
                    requires
                        ecc_per_block(e, 20) == 30,
                        num_ecc_blocks(e, 20) == 20,
                ;
                assert(ecc_per_block(e, 21) == 28 && num_ecc_blocks(e, 21) == 23);
                assert(ecc_per_block(e, 21) * num_ecc_blocks(e, 21) == 644) by (nonlinear_arith)
                    requires
                        ecc_per_block(e, 21) == 28,
                        num_ecc_blocks(e, 21) == 23,
                ;
                assert(data_codewords(20, e) == 485);
                assert(data_codewords(21, e) == 512);
            },
            QrCodeEcc::High => {
                assert(ecc_per_block(e, 20) == 28 && num_ecc_blocks(e, 20) == 25);
                assert(ecc_per_block(e, 20) * num_ecc_blocks(e, 20) == 700) by (nonlinear_arith)
                    requires
                        ecc_per_block(e, 20) == 28,
                        num_ecc_blocks(e, 20) == 25,
                ;
                assert(ecc_per_block(e, 21) == 30 && num_ecc_blocks(e, 21) == 25);
                assert(ecc_per_block(e, 21) * num_ecc_blocks(e, 21) == 750) by (nonlinear_arith)
                    requires
                        ecc_per_block(e, 21) == 30,
                        num_ecc_blocks(e, 21) == 25,
                ;
                assert(data_codewords(20, e) == 385);
                assert(data_codewords(21, e) == 406);
            },
        }
    } else if ver == 21 {
        assert(21int / 7 == 3);
        assert((16 * 21int + 128) * 21int + 64 == 9808) by (nonlinear_arith);
        assert((25 * 5int - 10) * 5int - 55 == 520) by (nonlinear_arith);
        assert(raw_data_modules(21) == 9252);
        assert(raw_codewords(21) == 1156);
        assert(22int / 7 == 3);
        assert((16 * 22int + 128) * 22int + 64 == 10624) by (nonlinear_arith);
        assert((25 * 5int - 10) * 5int - 55 == 520) by (nonlinear_arith);
        assert(raw_data_modules(22) == 10068);
        assert(raw_codewords(22) == 1258);
        match e {
            QrCodeEcc::Low => {
                assert(ecc_per_block(e, 21) == 28 && num_ecc_blocks(e, 21) == 8);
                assert(ecc_per_block(e, 21) * num_ecc_blocks(e, 21) == 224) by (nonlinear_arith)
                    requires
                        ecc_per_block(e, 21) == 28,
                        num_ecc_blocks(e, 21) == 8,
                ;
                assert(ecc_per_block(e, 22) == 28 && num_ecc_blocks(e, 22) == 9);
                assert(ecc_per_block(e, 22) * num_ecc_blocks(e, 22) == 252) by (nonlinear_arith)
                    requires
                        ecc_per_block(e, 22) == 28,
                        num_ecc_blocks(e, 22) == 9,
                ;
                assert(data_codewords(21, e) == 932);
                assert(data_codewords(22, e) == 1006);
            },
            QrCodeEcc::Medium => {
                assert(ecc_per_block(e, 21) == 26 && num_ecc_blocks(e, 21) == 17);
                assert(ecc_per_block(e, 21) * num_ecc_blocks(e, 21) == 442) by (nonlinear_arith)
                    requires
                        ecc_per_block(e, 21) == 26,
                        num_ecc_blocks(e, 21) == 17,
                ;
                assert(ecc_per_block(e, 22) == 28 && num_ecc_blocks(e, 22) == 17);
                assert(ecc_per_block(e, 22) * num_ecc_blocks(e, 22) == 476) by (nonlinear_arith)
                    requires
                        ecc_per_block(e, 22) == 28,
                        num_ecc_blocks(e, 22) == 17,
                ;
                assert(data_codewords(21, e) == 714);
                assert(data_codewords(22, e) == 782);
            },
            QrCodeEcc::Quartile => {
                assert(ecc_per_block(e, 21) == 28 && num_ecc_blocks(e, 21) == 23);
                assert(ecc_per_block(e, 21) * num_ecc_blocks(e, 21) == 644) by (nonlinear_arith)
                    requires
                        ecc_per_block(e, 21) == 28,
                        num_ecc_blocks(e, 21) == 23,
                ;
                assert(ecc_per_block(e, 22) == 30 && num_ecc_blocks(e, 22) == 23);
                assert(ecc_per_block(e, 22) * num_ecc_blocks(e, 22) == 690) by (nonlinear_arith)
                    requires
                        ecc_per_block(e, 22) == 30,
                        num_ecc_blocks(e, 22) == 23,
                ;
                assert(data_codewords(21, e) == 512);
                assert(data_codewords(22, e) == 568);
            },
            QrCodeEcc::High => {
                assert(ecc_per_block(e, 21) == 30 && num_ecc_blocks(e, 21) == 25);
                assert(ecc_per_block(e, 21) * num_ecc_blocks(e, 21) == 750) by (nonlinear_arith)
                    requires
                        ecc_per_block(e, 21) == 30,
                        num_ecc_blocks(e, 21) == 25,
                ;
                assert(ecc_per_block(e, 22) == 24 && num_ecc_blocks(e, 22) == 34);
                assert(ecc_per_block(e, 22) * num_ecc_blocks(e, 22) == 816) by (nonlinear_arith)
                    requires
                        ecc_per_block(e, 22) == 24,
                        num_ecc_blocks(e, 22) == 34,
                ;
                assert(data_codewords(21, e) == 406);
                assert(data_codewords(22, e) == 442);
            },
        }
    } else if ver == 22 {
        assert(22int / 7 == 3);
        assert((16 * 22int + 128) * 22int + 64 == 10624) by (nonlinear_arith);
        assert((25 * 5int - 10) * 5int - 55 == 520) by (nonlinear_arith);
        assert(raw_data_modules(22) == 10068);
        assert(raw_codewords(22) == 1258);
        assert(23int / 7 == 3);
        assert((16 * 23int + 128) * 23int + 64 == 11472) by (nonlinear_arith);
        assert((25 * 5int - 10) * 5int - 55 == 520) by (nonlinear_arith);
        assert(raw_data_modules(23) == 10916);
        assert(raw_codewords(23) == 1364);
        match e {
            QrCodeEcc::Low => {
                assert(ecc_per_block(e, 22) == 28 && num_ecc_blocks(e, 22) == 9);
                assert(ecc_per_block(e, 22) * num_ecc_blocks(e, 22) == 252) by (nonlinear_arith)
                    requires
                        ecc_per_block(e, 22) == 28,
                        num_ecc_blocks(e, 22) == 9,
                ;
                assert(ecc_per_block(e, 23) == 30 && num_ecc_blocks(e, 23) == 9);
                assert(ecc_per_block(e, 23) * num_ecc_blocks(e, 23) == 270) by (nonlinear_arith)
                    requires
                        ecc_per_block(e, 23) == 30,
                        num_ecc_blocks(e, 23) == 9,
                ;
                assert(data_codewords(22, e) == 1006);
                assert(data_codewords(23, e) == 1094);
            },
            QrCodeEcc::Medium => {
                assert(ecc_per_block(e, 22) == 28 && num_ecc_blocks(e, 22) == 17);
                assert(ecc_per_block(e, 22) * num_ecc_blocks(e, 22) == 476) by (nonlinear_arith)
                    requires
                        ecc_per_block(e, 22) == 28,
                        num_ecc_blocks(e, 22) == 17,
                ;
                assert(ecc_per_block(e, 23) == 28 && num_ecc_blocks(e, 23) == 18);
                assert(ecc_per_block(e, 23) * num_ecc_blocks(e, 23) == 504) by (nonlinear_arith)
                    requires
                        ecc_per_block(e, 23) == 28,
                        num_ecc_blocks(e, 23) == 18,
                ;
                assert(data_codewords(22, e) == 782);
                assert(data_codewords(23, e) == 860);
            },
            QrCodeEcc::Quartile => {
                assert(ecc_per_block(e, 22) == 30 && num_ecc_blocks(e, 22) == 23);
                assert(ecc_per_block(e, 22) * num_ecc_blocks(e, 22) == 690) by (nonlinear_arith)
                    requires
                        ecc_per_block(e, 22) == 30,
                        num_ecc_blocks(e, 22) == 23,
                ;
                assert(ecc_per_block(e, 23) == 30 && num_ecc_blocks(e, 23) == 25);
                assert(ecc_per_block(e, 23) * num_ecc_blocks(e, 23) == 750) by (nonlinear_arith)
                    requires
                        ecc_per_block(e, 23) == 30,
                        num_ecc_blocks(e, 23) == 25,
                ;
                assert(data_codewords(22, e) == 568);
                assert(data_codewords(23, e) == 614);
            },
            QrCodeEcc::High => {
                assert(ecc_per_block(e, 22) == 24 && num_ecc_blocks(e, 22) == 34);
                assert(ecc_per_block(e, 22) * num_ecc_blocks(e, 22) == 816) by (nonlinear_arith)
                    requires
                        ecc_per_block(e, 22) == 24,
                        num_ecc_blocks(e, 22) == 34,
                ;
                assert(ecc_per_block(e, 23) == 30 && num_ecc_blocks(e, 23) == 30);
                assert(ecc_per_block(e, 23) * num_ecc_blocks(e, 23) == 900) by (nonlinear_arith)
                    requires
                        ecc_per_block(e, 23) == 30,
                        num_ecc_blocks(e, 23) == 30,
                ;
                assert(data_codewords(22, e) == 442);
                assert(data_codewords(23, e) == 464);
            },
        }
    } else if ver == 23 {
        assert(23int / 7 == 3);
        assert((16 * 23int + 128) * 23int + 64 == 11472) by (nonlinear_arith);
        assert((25 * 5int - 10) * 5int - 55 == 520) by (nonlinear_arith);
        assert(raw_data_modules(23) == 10916);
        assert(raw_codewords(23) == 1364);
        assert(24int / 7 == 3);
        assert((16 * 24int + 128) * 24int + 64 == 12352) by (nonlinear_arith);
        assert((25 * 5int - 10) * 5int - 55 == 520) by (nonlinear_arith);
        assert(raw_data_modules(24) == 11796);
        assert(raw_codewords(24) == 1474);
        match e {
            QrCodeEcc::Low => {
                assert(ecc_per_block(e, 23) == 30 && num_ecc_blocks(e, 23) == 9);
                assert(ecc_per_block(e, 23) * num_ecc_blocks(e, 23) == 270) by (nonlinear_arith)
                    requires
                        ecc_per_block(e, 23) == 30,
                        num_ecc_blocks(e, 23) == 9,
                ;
                assert(ecc_per_block(e, 24) == 30 && num_ecc_blocks(e, 24) == 10);
                assert(ecc_per_block(e, 24) * num_ecc_blocks(e, 24) == 300) by (nonlinear_arith)
                    requires
                        ecc_per_block(e, 24) == 30,
                        num_ecc_blocks(e, 24) == 10,
                ;
                assert(data_codewords(23, e) == 1094);
                assert(data_codewords(24, e) == 1174);
            },
            QrCodeEcc::Medium => {
                assert(ecc_per_block(e, 23) == 28 && num_ecc_blocks(e, 23) == 18);
                assert(ecc_per_block(e, 23) * num_ecc_blocks(e, 23) == 504) by (nonlinear_arith)
                    requires
                        ecc_per_block(e, 23) == 28,
                        num_ecc_blocks(e, 23) == 18,
                ;
                assert(ecc_per_block(e, 24) == 28 && num_ecc_blocks(e, 24) == 20);
                assert(ecc_per_block(e, 24) * num_ecc_blocks(e, 24) == 560) by (nonlinear_arith)
                    requires
                        ecc_per_block(e, 24) == 28,
                        num_ecc_blocks(e, 24) == 20,
                ;
                assert(data_codewords(23, e) == 860);
                assert(data_codewords(24, e) == 914);
            },
            QrCodeEcc::Quartile => {
                assert(ecc_per_block(e, 23) == 30 && num_ecc_blocks(e, 23) == 25);
                assert(ecc_per_block(e, 23) * num_ecc_blocks(e, 23) == 750) by (nonlinear_arith)
                    requires
                        ecc_per_block(e, 23) == 30,
                        num_ecc_blocks(e, 23) == 25,
                ;
                assert(ecc_per_block(e, 24) == 30 && num_ecc_blocks(e, 24) == 27);
                assert(ecc_per_block(e, 24) * num_ecc_blocks(e, 24) == 810) by (nonlinear_arith)
                    requires
                        ecc_per_block(e, 24) == 30,
                        num_ecc_blocks(e, 24) == 27,
                ;
                assert(data_codewords(23, e) == 614);
                assert(data_codewords(24, e) == 664);
            },
            QrCodeEcc::High => {
                assert(ecc_per_block(e, 23) == 30 && num_ecc_blocks(e, 23) == 30);
                assert(ecc_per_block(e, 23) * num_ecc_blocks(e, 23) == 900) by (nonlinear_arith)
                    requires
                        ecc_per_block(e, 23) == 30,
                        num_ecc_blocks(e, 23) == 30,
                ;
                assert(ecc_per_block(e, 24) == 30 && num_ecc_blocks(e, 24) == 32);
                assert(ecc_per_block(e, 24) * num_ecc_blocks(e, 24) == 960) by (nonlinear_arith)
                    requires
                        ecc_per_block(e, 24) == 30,
                        num_ecc_blocks(e, 24) == 32,
                ;
                assert(data_codewords(23, e) == 464);
                assert(data_codewords(24, e) == 514);
            },
        }
    } else if ver == 24 {
        assert(24int / 7 == 3);
        assert((16 * 24int + 128) * 24int + 64 == 12352) by (nonlinear_arith);
        assert((25 * 5int - 10) * 5int - 55 == 520) by (nonlinear_arith);
        assert(raw_data_modules(24) == 11796);
        assert(raw_codewords(24) == 1474);
        assert(25int / 7 == 3);
        assert((16 * 25int + 128) * 25int + 64 == 13264) by (nonlinear_arith);
        assert((25 * 5int - 10) * 5int - 55 == 520) by (nonlinear_arith);
        assert(raw_data_modules(25) == 12708);
        assert(raw_codewords(25) == 1588);
        match e {
            QrCodeEcc::Low => {
                assert(ecc_per_block(e, 24) == 30 && num_ecc_blocks(e, 24) == 10);
                assert(ecc_per_block(e, 24) * num_ecc_blocks(e, 24) == 300) by (nonlinear_arith)
                    requires
                        ecc_per_block(e, 24) == 30,
                        num_ecc_blocks(e, 24) == 10,
                ;
                assert(ecc_per_block(e, 25) == 26 && num_ecc_blocks(e, 25) == 12);
                assert(ecc_per_block(e, 25) * num_ecc_blocks(e, 25) == 312) by (nonlinear_arith)
                    requires
                        ecc_per_block(e, 25) == 26,
                        num_ecc_blocks(e, 25) == 12,
                ;
                assert(data_codewords(24, e) == 1174);
                assert(data_codewords(25, e) == 1276);
            },
            QrCodeEcc::Medium => {
                assert(ecc_per_block(e, 24) == 28 && num_ecc_blocks(e, 24) == 20);
                assert(ecc_per_block(e, 24) * num_ecc_blocks(e, 24) == 560) by (nonlinear_arith)
                    requires
                        ecc_per_block(e, 24) == 28,
                        num_ecc_blocks(e, 24) == 20,
                ;
                assert(ecc_per_block(e, 25) == 28 && num_ecc_blocks(e, 25) == 21);
                assert(ecc_per_block(e, 25) * num_ecc_blocks(e, 25) == 588) by (nonlinear_arith)
                    requires
                        ecc_per_block(e, 25) == 28,
                        num_ecc_blocks(e, 25) == 21,
                ;
                assert(data_codewords(24, e) == 914);
                assert(data_codewords(25, e) == 1000);
            },
            QrCodeEcc::Quartile => {
                assert(ecc_per_block(e, 24) == 30 && num_ecc_blocks(e, 24) == 27);
                assert(ecc_per_block(e, 24) * num_ecc_blocks(e, 24) == 810) by (nonlinear_arith)
                    requires
                        ecc_per_block(e, 24) == 30,
                        num_ecc_blocks(e, 24) == 27,
                ;
                assert(ecc_per_block(e, 25) == 30 && num_ecc_blocks(e, 25) == 29);
                assert(ecc_per_block(e, 25) * num_ecc_blocks(e, 25) == 870) by (nonlinear_arith)
                    requires
                        ecc_per_block(e, 25) == 30,
                        num_ecc_blocks(e, 25) == 29,
                ;
                assert(data_codewords(24, e) == 664);
                assert(data_codewords(25, e) == 718);
            },
            QrCodeEcc::High => {
                assert(ecc_per_block(e, 24) == 30 && num_ecc_blocks(e, 24) == 32);
                assert(ecc_per_block(e, 24) * num_ecc_blocks(e, 24) == 960) by (nonlinear_arith)
                    requires
                        ecc_per_block(e, 24) == 30,
                        num_ecc_blocks(e, 24) == 32,
                ;
                assert(ecc_per_block(e, 25) == 30 && num_ecc_blocks(e, 25) == 35);
                assert(ecc_per_block(e, 25) * num_ecc_blocks(e, 25) == 1050) by (nonlinear_arith)
                    requires
                        ecc_per_block(e, 25) == 30,
                        num_ecc_blocks(e, 25) == 35,
                ;
                assert(data_codewords(24, e) == 514);
                assert(data_codewords(25, e) == 538);
            },
        }
    } else if ver == 25 {
        assert(25int / 7 == 3);
        assert((16 * 25int + 128) * 25int + 64 == 13264) by (nonlinear_arith);
        assert((25 * 5int - 10) * 5int - 55 == 520) by (nonlinear_arith);
        assert(raw_data_modules(25) == 12708);
        assert(raw_codewords(25) == 1588);
        assert(26int / 7 == 3);
        assert((16 * 26int + 128) * 26int + 64 == 14208) by (nonlinear_arith);
        assert((25 * 5int - 10) * 5int - 55 == 520) by (nonlinear_arith);
        assert(raw_data_modules(26) == 13652);
        assert(raw_codewords(26) == 1706);
        match e {
            QrCodeEcc::Low => {
                assert(ecc_per_block(e, 25) == 26 && num_ecc_blocks(e, 25) == 12);
                assert(ecc_per_block(e, 25) * num_ecc_blocks(e, 25) == 312) by (nonlinear_arith)
                    requires
                        ecc_per_block(e, 25) == 26,
                        num_ecc_blocks(e, 25) == 12,
                ;
                assert(ecc_per_block(e, 26) == 28 && num_ecc_blocks(e, 26) == 12);
                assert(ecc_per_block(e, 26) * num_ecc_blocks(e, 26) == 336) by (nonlinear_arith)
                    requires
                        ecc_per_block(e, 26) == 28,
                        num_ecc_blocks(e, 26) == 12,
                ;
                assert(data_codewords(25, e) == 1276);
                assert(data_codewords(26, e) == 1370);
            },
            QrCodeEcc::Medium => {
                assert(ecc_per_block(e, 25) == 28 && num_ecc_blocks(e, 25) == 21);
                assert(ecc_per_block(e, 25) * num_ecc_blocks(e, 25) == 588) by (nonlinear_arith)
                    requires
                        ecc_per_block(e, 25) == 28,
                        num_ecc_blocks(e, 25) == 21,
                ;
                assert(ecc_per_block(e, 26) == 28 && num_ecc_blocks(e, 26) == 23);
                assert(ecc_per_block(e, 26) * num_ecc_blocks(e, 26) == 644) by (nonlinear_arith)
                    requires
                        ecc_per_block(e, 26) == 28,
                        num_ecc_blocks(e, 26) == 23,
                ;
                assert(data_codewords(25, e) == 1000);
                assert(data_codewords(26, e) == 1062);
            },
            QrCodeEcc::Quartile => {
                assert(ecc_per_block(e, 25) == 30 && num_ecc_blocks(e, 25) == 29);
                assert(ecc_per_block(e, 25) * num_ecc_blocks(e, 25) == 870) by (nonlinear_arith)
                    requires
                        ecc_per_block(e, 25) == 30,
                        num_ecc_blocks(e, 25) == 29,
                ;
                assert(ecc_per_block(e, 26) == 28 && num_ecc_blocks(e, 26) == 34);
                assert(ecc_per_block(e, 26) * num_ecc_blocks(e, 26) == 952) by (nonlinear_arith)
                    requires
                        ecc_per_block(e, 26) == 28,
                        num_ecc_blocks(e, 26) == 34,
                ;
                assert(data_codewords(25, e) == 718);
                assert(data_codewords(26, e) == 754);
            },
            QrCodeEcc::High => {
                assert(ecc_per_block(e, 25) == 30 && num_ecc_blocks(e, 25) == 35);
                assert(ecc_per_block(e, 25) * num_ecc_blocks(e, 25) == 1050) by (nonlinear_arith)
                    requires
                        ecc_per_block(e, 25) == 30,
                        num_ecc_blocks(e, 25) == 35,
                ;
                assert(ecc_per_block(e, 26) == 30 && num_ecc_blocks(e, 26) == 37);
                assert(ecc_per_block(e, 26) * num_ecc_blocks(e, 26) == 1110) by (nonlinear_arith)
                    requires
                        ecc_per_block(e, 26) == 30,
                        num_ecc_blocks(e, 26) == 37,
                ;
                assert(data_codewords(25, e) == 538);
                assert(data_codewords(26, e) == 596);
            },
        }
    } else if ver == 26 {
        assert(26int / 7 == 3);
        assert((16 * 26int + 128) * 26int + 64 == 14208) by (nonlinear_arith);
        assert((25 * 5int - 10) * 5int - 55 == 520) by (nonlinear_arith);
        assert(raw_data_modules(26) == 13652);
        assert(raw_codewords(26) == 1706);
        assert(27int / 7 == 3);
        assert((16 * 27int + 128) * 27int + 64 == 15184) by (nonlinear_arith);
        assert((25 * 5int - 10) * 5int - 55 == 520) by (nonlinear_arith);
        assert(raw_data_modules(27) == 14628);
        assert(raw_codewords(27) == 1828);
        match e {
            QrCodeEcc::Low => {
                assert(ecc_per_block(e, 26) == 28 && num_ecc_blocks(e, 26) == 12);
                assert(ecc_per_block(e, 26) * num_ecc_blocks(e, 26) == 336) by (nonlinear_arith)
                    requires
                        ecc_per_block(e, 26) == 28,
                        num_ecc_blocks(e, 26) == 12,
                ;
                assert(ecc_per_block(e, 27) == 30 && num_ecc_blocks(e, 27) == 12);
                assert(ecc_per_block(e, 27) * num_ecc_blocks(e, 27) == 360) by (nonlinear_arith)
                    requires
                        ecc_per_block(e, 27) == 30,
                        num_ecc_blocks(e, 27) == 12,
                ;
                assert(data_codewords(26, e) == 1370);
                assert(data_codewords(27, e) == 1468);
            },
            QrCodeEcc::Medium => {
                assert(ecc_per_block(e, 26) == 28 && num_ecc_blocks(e, 26) == 23);
                assert(ecc_per_block(e, 26) * num_ecc_blocks(e, 26) == 644) by (nonlinear_arith)
                    requires
                        ecc_per_block(e, 26) == 28,
                        num_ecc_blocks(e, 26) == 23,
                ;
                assert(ecc_per_block(e, 27) == 28 && num_ecc_blocks(e, 27) == 25);
                assert(ecc_per_block(e, 27) * num_ecc_blocks(e, 27) == 700) by (nonlinear_arith)
                    requires
                        ecc_per_block(e, 27) == 28,
                        num_ecc_blocks(e, 27) == 25,
                ;
                assert(data_codewords(26, e) == 1062);
                assert(data_codewords(27, e) == 1128);
            },
            QrCodeEcc::Quartile => {
                assert(ecc_per_block(e, 26) == 28 && num_ecc_blocks(e, 26) == 34);
                assert(ecc_per_block(e, 26) * num_ecc_blocks(e, 26) == 952) by (nonlinear_arith)
                    requires
                        ecc_per_block(e, 26) == 28,
                        num_ecc_blocks(e, 26) == 34,
                ;
                assert(ecc_per_block(e, 27) == 30 && num_ecc_blocks(e, 27) == 34);
                assert(ecc_per_block(e, 27) * num_ecc_blocks(e, 27) == 1020) by (nonlinear_arith)
                    requires
                        ecc_per_block(e, 27) == 30,
                        num_ecc_blocks(e, 27) == 34,
                ;
                assert(data_codewords(26, e) == 754);
                assert(data_codewords(27, e) == 808);
            },
            QrCodeEcc::High => {
                assert(ecc_per_block(e, 26) == 30 && num_ecc_blocks(e, 26) == 37);
                assert(ecc_per_block(e, 26) * num_ecc_blocks(e, 26) == 1110) by (nonlinear_arith)
                    requires
                        ecc_per_block(e, 26) == 30,
                        num_ecc_blocks(e, 26) == 37,
                ;
                assert(ecc_per_block(e, 27) == 30 && num_ecc_blocks(e, 27) == 40);
                assert(ecc_per_block(e, 27) * num_ecc_blocks(e, 27) == 1200) by (nonlinear_arith)
                    requires
                        ecc_per_block(e, 27) == 30,
                        num_ecc_blocks(e, 27) == 40,
                ;
                assert(data_codewords(26, e) == 596);
                assert(data_codewords(27, e) == 628);
            },
        }
    } else if ver == 27 {
        assert(27int / 7 == 3);
        assert((16 * 27int + 128) * 27int + 64 == 15184) by (nonlinear_arith);
        assert((25 * 5int - 10) * 5int - 55 == 520) by (nonlinear_arith);
        assert(raw_data_modules(27) == 14628);
        assert(raw_codewords(27) == 1828);
        assert(28int / 7 == 4);
        assert((16 * 28int + 128) * 28int + 64 == 16192) by (nonlinear_arith);
        assert((25 * 6int - 10) * 6int - 55 == 785) by (nonlinear_arith);
        assert(raw_data_modules(28) == 15371);
        assert(raw_codewords(28) == 1921);
        match e {
            QrCodeEcc::Low => {
                assert(ecc_per_block(e, 27) == 30 && num_ecc_blocks(e, 27) == 12);
                assert(ecc_per_block(e, 27) * num_ecc_blocks(e, 27) == 360) by (nonlinear_arith)
                    requires
                        ecc_per_block(e, 27) == 30,
                        num_ecc_blocks(e, 27) == 12,
                ;
                assert(ecc_per_block(e, 28) == 30 && num_ecc_blocks(e, 28) == 13);
                assert(ecc_per_block(e, 28) * num_ecc_blocks(e, 28) == 390) by (nonlinear_arith)
                    requires
                        ecc_per_block(e, 28) == 30,
                        num_ecc_blocks(e, 28) == 13,
                ;
                assert(data_codewords(27, e) == 1468);
                assert(data_codewords(28, e) == 1531);
            },
            QrCodeEcc::Medium => {
                assert(ecc_per_block(e, 27) == 28 && num_ecc_blocks(e, 27) == 25);
                assert(ecc_per_block(e, 27) * num_ecc_blocks(e, 27) == 700) by (nonlinear_arith)
                    requires
                        ecc_per_block(e, 27) == 28,
                        num_ecc_blocks(e, 27) == 25,
                ;
                assert(ecc_per_block(e, 28) == 28 && num_ecc_blocks(e, 28) == 26);
                assert(ecc_per_block(e, 28) * num_ecc_blocks(e, 28) == 728) by (nonlinear_arith)
                    requires
                        ecc_per_block(e, 28) == 28,
                        num_ecc_blocks(e, 28) == 26,
                ;
                assert(data_codewords(27, e) == 1128);
                assert(data_codewords(28, e) == 1193);
            },
            QrCodeEcc::Quartile => {
                assert(ecc_per_block(e, 27) == 30 && num_ecc_blocks(e, 27) == 34);
                assert(ecc_per_block(e, 27) * num_ecc_blocks(e, 27) == 1020) by (nonlinear_arith)
                    requires
                        ecc_per_block(e, 27) == 30,
                        num_ecc_blocks(e, 27) == 34,
                ;
                assert(ecc_per_block(e, 28) == 30 && num_ecc_blocks(e, 28) == 35);
                assert(ecc_per_block(e, 28) * num_ecc_blocks(e, 28) == 1050) by (nonlinear_arith)
                    requires
                        ecc_per_block(e, 28) == 30,
                        num_ecc_blocks(e, 28) == 35,
                ;
                assert(data_codewords(27, e) == 808);
                assert(data_codewords(28, e) == 871);
            },
            QrCodeEcc::High => {
                assert(ecc_per_block(e, 27) == 30 && num_ecc_blocks(e, 27) == 40);
                assert(ecc_per_block(e, 27) * num_ecc_blocks(e, 27) == 1200) by (nonlinear_arith)
                    requires
                        ecc_per_block(e, 27) == 30,
                        num_ecc_blocks(e, 27) == 40,
                ;
                assert(ecc_per_block(e, 28) == 30 && num_ecc_blocks(e, 28) == 42);
                assert(ecc_per_block(e, 28) * num_ecc_blocks(e, 28) == 1260) by (nonlinear_arith)
                    requires
                        ecc_per_block(e, 28) == 30,
                        num_ecc_blocks(e, 28) == 42,
                ;
                assert(data_codewords(27, e) == 628);
                assert(data_codewords(28, e) == 661);
            },
        }
    } else if ver == 28 {
        assert(28int / 7 == 4);
        assert((16 * 28int + 128) * 28int + 64 == 16192) by (nonlinear_arith);
        assert((25 * 6int - 10) * 6int - 55 == 785) by (nonlinear_arith);
        assert(raw_data_modules(28) == 15371);
        assert(raw_codewords(28) == 1921);
        assert(29int / 7 == 4);
        assert((16 * 29int + 128) * 29int + 64 == 17232) by (nonlinear_arith);
        assert((25 * 6int - 10) * 6int - 55 == 785) by (nonlinear_arith);
        assert(raw_data_modules(29) == 16411);
        assert(raw_codewords(29) == 2051);
        match e {
            QrCodeEcc::Low => {
                assert(ecc_per_block(e, 28) == 30 && num_ecc_blocks(e, 28) == 13);
                assert(ecc_per_block(e, 28) * num_ecc_blocks(e, 28) == 390) by (nonlinear_arith)
                    requires
                        ecc_per_block(e, 28) == 30,
                        num_ecc_blocks(e, 28) == 13,
                ;
                assert(ecc_per_block(e, 29) == 30 && num_ecc_blocks(e, 29) == 14);
                assert(ecc_per_block(e, 29) * num_ecc_blocks(e, 29) == 420) by (nonlinear_arith)
                    requires
                        ecc_per_block(e, 29) == 30,
                        num_ecc_blocks(e, 29) == 14,
                ;
                assert(data_codewords(28, e) == 1531);
                assert(data_codewords(29, e) == 1631);
            },
            QrCodeEcc::Medium => {
                assert(ecc_per_block(e, 28) == 28 && num_ecc_blocks(e, 28) == 26);
                assert(ecc_per_block(e, 28) * num_ecc_blocks(e, 28) == 728) by (nonlinear_arith)
                    requires
                        ecc_per_block(e, 28) == 28,
                        num_ecc_blocks(e, 28) == 26,
                ;
                assert(ecc_per_block(e, 29) == 28 && num_ecc_blocks(e, 29) == 28);
                assert(ecc_per_block(e, 29) * num_ecc_blocks(e, 29) == 784) by (nonlinear_arith)
                    requires
                        ecc_per_block(e, 29) == 28,
                        num_ecc_blocks(e, 29) == 28,
                ;
                assert(data_codewords(28, e) == 1193);
                assert(data_codewords(29, e) == 1267);
            },
            QrCodeEcc::Quartile => {
                assert(ecc_per_block(e, 28) == 30 && num_ecc_blocks(e, 28) == 35);
                assert(ecc_per_block(e, 28) * num_ecc_blocks(e, 28) == 1050) by (nonlinear_arith)
                    requires
                        ecc_per_block(e, 28) == 30,
                        num_ecc_blocks(e, 28) == 35,
                ;
                assert(ecc_per_block(e, 29) == 30 && num_ecc_blocks(e, 29) == 38);
                assert(ecc_per_block(e, 29) * num_ecc_blocks(e, 29) == 1140) by (nonlinear_arith)
                    requires
                        ecc_per_block(e, 29) == 30,
                        num_ecc_blocks(e, 29) == 38,
                ;
                assert(data_codewords(28, e) == 871);
                assert(data_codewords(29, e) == 911);
            },
            QrCodeEcc::High => {
                assert(ecc_per_block(e, 28) == 30 && num_ecc_blocks(e, 28) == 42);
                assert(ecc_per_block(e, 28) * num_ecc_blocks(e, 28) == 1260) by (nonlinear_arith)
                    requires
                        ecc_per_block(e, 28) == 30,
                        num_ecc_blocks(e, 28) == 42,
                ;
                assert(ecc_per_block(e, 29) == 30 && num_ecc_blocks(e, 29) == 45);
                assert(ecc_per_block(e, 29) * num_ecc_blocks(e, 29) == 1350) by (nonlinear_arith)
                    requires
                        ecc_per_block(e, 29) == 30,
                        num_ecc_blocks(e, 29) == 45,
                ;
                assert(data_codewords(28, e) == 661);
                assert(data_codewords(29, e) == 701);
            },
        }
    } else if ver == 29 {
        assert(29int / 7 == 4);
        assert((16 * 29int + 128) * 29int + 64 == 17232) by (nonlinear_arith);
        assert((25 * 6int - 10) * 6int - 55 == 785) by (nonlinear_arith);
        assert(raw_data_modules(29) == 16411);
        assert(raw_codewords(29) == 2051);
        assert(30int / 7 == 4);
        assert((16 * 30int + 128) * 30int + 64 == 18304) by (nonlinear_arith);
        assert((25 * 6int - 10) * 6int - 55 == 785) by (nonlinear_arith);
        assert(raw_data_modules(30) == 17483);
        assert(raw_codewords(30) == 2185);
        match e {
            QrCodeEcc::Low => {
                assert(ecc_per_block(e, 29) == 30 && num_ecc_blocks(e, 29) == 14);
                assert(ecc_per_block(e, 29) * num_ecc_blocks(e, 29) == 420) by (nonlinear_arith)
                    requires
                        ecc_per_block(e, 29) == 30,
                        num_ecc_blocks(e, 29) == 14,
                ;
                assert(ecc_per_block(e, 30) == 30 && num_ecc_blocks(e, 30) == 15);
                assert(ecc_per_block(e, 30) * num_ecc_blocks(e, 30) == 450) by (nonlinear_arith)
                    requires
                        ecc_per_block(e, 30) == 30,
                        num_ecc_blocks(e, 30) == 15,
                ;
                assert(data_codewords(29, e) == 1631);
                assert(data_codewords(30, e) == 1735);
            },
            QrCodeEcc::Medium => {
                assert(ecc_per_block(e, 29) == 28 && num_ecc_blocks(e, 29) == 28);
                assert(ecc_per_block(e, 29) * num_ecc_blocks(e, 29) == 784) by (nonlinear_arith)
                    requires
                        ecc_per_block(e, 29) == 28,
                        num_ecc_blocks(e, 29) == 28,
                ;
                assert(ecc_per_block(e, 30) == 28 && num_ecc_blocks(e, 30) == 29);
                assert(ecc_per_block(e, 30) * num_ecc_blocks(e, 30) == 812) by (nonlinear_arith)
                    requires
                        ecc_per_block(e, 30) == 28,
                        num_ecc_blocks(e, 30) == 29,
                ;
                assert(data_codewords(29, e) == 1267);
                assert(data_codewords(30, e) == 1373);
            },
            QrCodeEcc::Quartile => {
                assert(ecc_per_block(e, 29) == 30 && num_ecc_blocks(e, 29) == 38);
                assert(ecc_per_block(e, 29) * num_ecc_blocks(e, 29) == 1140) by (nonlinear_arith)
                    requires
                        ecc_per_block(e, 29) == 30,
                        num_ecc_blocks(e, 29) == 38,
                ;
                assert(ecc_per_block(e, 30) == 30 && num_ecc_blocks(e, 30) == 40);
                assert(ecc_per_block(e, 30) * num_ecc_blocks(e, 30) == 1200) by (nonlinear_arith)
                    requires
                        ecc_per_block(e, 30) == 30,
                        num_ecc_blocks(e, 30) == 40,
                ;
                assert(data_codewords(29, e) == 911);
                assert(data_codewords(30, e) == 985);
            },
            QrCodeEcc::High => {
                assert(ecc_per_block(e, 29) == 30 && num_ecc_blocks(e, 29) == 45);
                assert(ecc_per_block(e, 29) * num_ecc_blocks(e, 29) == 1350) by (nonlinear_arith)
                    requires
                        ecc_per_block(e, 29) == 30,
                        num_ecc_blocks(e, 29) == 45,
                ;
                assert(ecc_per_block(e, 30) == 30 && num_ecc_blocks(e, 30) == 48);
                assert(ecc_per_block(e, 30) * num_ecc_blocks(e, 30) == 1440) by (nonlinear_arith)
                    requires
                        ecc_per_block(e, 30) == 30,
                        num_ecc_blocks(e, 30) == 48,
                ;
                assert(data_codewords(29, e) == 701);
                assert(data_codewords(30, e) == 745);
            },
        }
    } else if ver == 30 {
        assert(30int / 7 == 4);
        assert((16 * 30int + 128) * 30int + 64 == 18304) by (nonlinear_arith);
        assert((25 * 6int - 10) * 6int - 55 == 785) by (nonlinear_arith);
        assert(raw_data_modules(30) == 17483);
        assert(raw_codewords(30) == 2185);
        assert(31int / 7 == 4);
        assert((16 * 31int + 128) * 31int + 64 == 19408) by (nonlinear_arith);
        assert((25 * 6int - 10) * 6int - 55 == 785) by (nonlinear_arith);
        assert(raw_data_modules(31) == 18587);
        assert(raw_codewords(31) == 2323);
        match e {
            QrCodeEcc::Low => {
                assert(ecc_per_block(e, 30) == 30 && num_ecc_blocks(e, 30) == 15);
                assert(ecc_per_block(e, 30) * num_ecc_blocks(e, 30) == 450) by (nonlinear_arith)
                    requires
                        ecc_per_block(e, 30) == 30,
                        num_ecc_blocks(e, 30) == 15,
                ;
                assert(ecc_per_block(e, 31) == 30 && num_ecc_blocks(e, 31) == 16);
                assert(ecc_per_block(e, 31) * num_ecc_blocks(e, 31) == 480) by (nonlinear_arith)
                    requires
                        ecc_per_block(e, 31) == 30,
                        num_ecc_blocks(e, 31) == 16,
                ;
                assert(data_codewords(30, e) == 1735);
                assert(data_codewords(31, e) == 1843);
            },
            QrCodeEcc::Medium => {
                assert(ecc_per_block(e, 30) == 28 && num_ecc_blocks(e, 30) == 29);
                assert(ecc_per_block(e, 30) * num_ecc_blocks(e, 30) == 812) by (nonlinear_arith)
                    requires
                        ecc_per_block(e, 30) == 28,
                        num_ecc_blocks(e, 30) == 29,
                ;
                assert(ecc_per_block(e, 31) == 28 && num_ecc_blocks(e, 31) == 31);
                assert(ecc_per_block(e, 31) * num_ecc_blocks(e, 31) == 868) by (nonlinear_arith)
                    requires
                        ecc_per_block(e, 31) == 28,
                        num_ecc_blocks(e, 31) == 31,
                ;
                assert(data_codewords(30, e) == 1373);
                assert(data_codewords(31, e) == 1455);
            },
            QrCodeEcc::Quartile => {
                assert(ecc_per_block(e, 30) == 30 && num_ecc_blocks(e, 30) == 40);
                assert(ecc_per_block(e, 30) * num_ecc_blocks(e, 30) == 1200) by (nonlinear_arith)
                    requires
                        ecc_per_block(e, 30) == 30,
                        num_ecc_blocks(e, 30) == 40,
                ;
                assert(ecc_per_block(e, 31) == 30 && num_ecc_blocks(e, 31) == 43);
                assert(ecc_per_block(e, 31) * num_ecc_blocks(e, 31) == 1290) by (nonlinear_arith)
                    requires
                        ecc_per_block(e, 31) == 30,
                        num_ecc_blocks(e, 31) == 43,
                ;
                assert(data_codewords(30, e) == 985);
                assert(data_codewords(31, e) == 1033);
            },
            QrCodeEcc::High => {
                assert(ecc_per_block(e, 30) == 30 && num_ecc_blocks(e, 30) == 48);
                assert(ecc_per_block(e, 30) * num_ecc_blocks(e, 30) == 1440) by (nonlinear_arith)
                    requires
                        ecc_per_block(e, 30) == 30,
                        num_ecc_blocks(e, 30) == 48,
                ;
                assert(ecc_per_block(e, 31) == 30 && num_ecc_blocks(e, 31) == 51);
                assert(ecc_per_block(e, 31) * num_ecc_blocks(e, 31) == 1530) by (nonlinear_arith)
                    requires
                        ecc_per_block(e, 31) == 30,
                        num_ecc_blocks(e, 31) == 51,
                ;
                assert(data_codewords(30, e) == 745);
                assert(data_codewords(31, e) == 793);
            },
        }
    } else if ver == 31 {
        assert(31int / 7 == 4);
        assert((16 * 31int + 128) * 31int + 64 == 19408) by (nonlinear_arith);
        assert((25 * 6int - 10) * 6int - 55 == 785) by (nonlinear_arith);
        assert(raw_data_modules(31) == 18587);
        assert(raw_codewords(31) == 2323);
        assert(32int / 7 == 4);
        assert((16 * 32int + 128) * 32int + 64 == 20544) by (nonlinear_arith);
        assert((25 * 6int - 10) * 6int - 55 == 785) by (nonlinear_arith);
        assert(raw_data_modules(32) == 19723);
        assert(raw_codewords(32) == 2465);
        match e {
            QrCodeEcc::Low => {
                assert(ecc_per_block(e, 31) == 30 && num_ecc_blocks(e, 31) == 16);
                assert(ecc_per_block(e, 31) * num_ecc_blocks(e, 31) == 480) by (nonlinear_arith)
                    requires
                        ecc_per_block(e, 31) == 30,
                        num_ecc_blocks(e, 31) == 16,
                ;
                assert(ecc_per_block(e, 32) == 30 && num_ecc_blocks(e, 32) == 17);
                assert(ecc_per_block(e, 32) * num_ecc_blocks(e, 32) == 510) by (nonlinear_arith)
                    requires
                        ecc_per_block(e, 32) == 30,
                        num_ecc_blocks(e, 32) == 17,
                ;
                assert(data_codewords(31, e) == 1843);
                assert(data_codewords(32, e) == 1955);
            },
            QrCodeEcc::Medium => {
                assert(ecc_per_block(e, 31) == 28 && num_ecc_blocks(e, 31) == 31);
                assert(ecc_per_block(e, 31) * num_ecc_blocks(e, 31) == 868) by (nonlinear_arith)
                    requires
                        ecc_per_block(e, 31) == 28,
                        num_ecc_blocks(e, 31) == 31,
                ;
                assert(ecc_per_block(e, 32) == 28 && num_ecc_blocks(e, 32) == 33);
                assert(ecc_per_block(e, 32) * num_ecc_blocks(e, 32) == 924) by (nonlinear_arith)
                    requires
                        ecc_per_block(e, 32) == 28,
                        num_ecc_blocks(e, 32) == 33,
                ;
                assert(data_codewords(31, e) == 1455);
                assert(data_codewords(32, e) == 1541);
            },
            QrCodeEcc::Quartile => {
                assert(ecc_per_block(e, 31) == 30 && num_ecc_blocks(e, 31) == 43);
                assert(ecc_per_block(e, 31) * num_ecc_blocks(e, 31) == 1290) by (nonlinear_arith)
                    requires
                        ecc_per_block(e, 31) == 30,
                        num_ecc_blocks(e, 31) == 43,
                ;
                assert(ecc_per_block(e, 32) == 30 && num_ecc_blocks(e, 32) == 45);
                assert(ecc_per_block(e, 32) * num_ecc_blocks(e, 32) == 1350) by (nonlinear_arith)
                    requires
                        ecc_per_block(e, 32) == 30,
                        num_ecc_blocks(e, 32) == 45,
                ;
                assert(data_codewords(31, e) == 1033);
                assert(data_codewords(32, e) == 1115);
            },
            QrCodeEcc::High => {
                assert(ecc_per_block(e, 31) == 30 && num_ecc_blocks(e, 31) == 51);
                assert(ecc_per_block(e, 31) * num_ecc_blocks(e, 31) == 1530) by (nonlinear_arith)
                    requires
                        ecc_per_block(e, 31) == 30,
                        num_ecc_blocks(e, 31) == 51,
                ;
                assert(ecc_per_block(e, 32) == 30 && num_ecc_blocks(e, 32) == 54);
                assert(ecc_per_block(e, 32) * num_ecc_blocks(e, 32) == 1620) by (nonlinear_arith)
                    requires
                        ecc_per_block(e, 32) == 30,
                        num_ecc_blocks(e, 32) == 54,
                ;
                assert(data_codewords(31, e) == 793);
                assert(data_codewords(32, e) == 845);
            },
        }
    } else if ver == 32 {
        assert(32int / 7 == 4);
        assert((16 * 32int + 128) * 32int + 64 == 20544) by (nonlinear_arith);
        assert((25 * 6int - 10) * 6int - 55 == 785) by (nonlinear_arith);
        assert(raw_data_modules(32) == 19723);
        assert(raw_codewords(32) == 2465);
        assert(33int / 7 == 4);
        assert((16 * 33int + 128) * 33int + 64 == 21712) by (nonlinear_arith);
        assert((25 * 6int - 10) * 6int - 55 == 785) by (nonlinear_arith);
        assert(raw_data_modules(33) == 20891);
        assert(raw_codewords(33) == 2611);
        match e {
            QrCodeEcc::Low => {
                assert(ecc_per_block(e, 32) == 30 && num_ecc_blocks(e, 32) == 17);
                assert(ecc_per_block(e, 32) * num_ecc_blocks(e, 32) == 510) by (nonlinear_arith)
                    requires
                        ecc_per_block(e, 32) == 30,
                        num_ecc_blocks(e, 32) == 17,
                ;
                assert(ecc_per_block(e, 33) == 30 && num_ecc_blocks(e, 33) == 18);
                assert(ecc_per_block(e, 33) * num_ecc_blocks(e, 33) == 540) by (nonlinear_arith)
                    requires
                        ecc_per_block(e, 33) == 30,
                        num_ecc_blocks(e, 33) == 18,
                ;
                assert(data_codewords(32, e) == 1955);
                assert(data_codewords(33, e) == 2071);
            },
            QrCodeEcc::Medium => {
                assert(ecc_per_block(e, 32) == 28 && num_ecc_blocks(e, 32) == 33);
                assert(ecc_per_block(e, 32) * num_ecc_blocks(e, 32) == 924) by (nonlinear_arith)
                    requires
                        ecc_per_block(e, 32) == 28,
                        num_ecc_blocks(e, 32) == 33,
                ;
                assert(ecc_per_block(e, 33) == 28 && num_ecc_blocks(e, 33) == 35);
                assert(ecc_per_block(e, 33) * num_ecc_blocks(e, 33) == 980) by (nonlinear_arith)
                    requires
                        ecc_per_block(e, 33) == 28,
                        num_ecc_blocks(e, 33) == 35,
                ;
                assert(data_codewords(32, e) == 1541);
                assert(data_codewords(33, e) == 1631);
            },
            QrCodeEcc::Quartile => {
                assert(ecc_per_block(e, 32) == 30 && num_ecc_blocks(e, 32) == 45);
                assert(ecc_per_block(e, 32) * num_ecc_blocks(e, 32) == 1350) by (nonlinear_arith)
                    requires
                        ecc_per_block(e, 32) == 30,
                        num_ecc_blocks(e, 32) == 45,
                ;
                assert(ecc_per_block(e, 33) == 30 && num_ecc_blocks(e, 33) == 48);
                assert(ecc_per_block(e, 33) * num_ecc_blocks(e, 33) == 1440) by (nonlinear_arith)
                    requires
                        ecc_per_block(e, 33) == 30,
                        num_ecc_blocks(e, 33) == 48,
                ;
                assert(data_codewords(32, e) == 1115);
                assert(data_codewords(33, e) == 1171);
            },
            QrCodeEcc::High => {
                assert(ecc_per_block(e, 32) == 30 && num_ecc_blocks(e, 32) == 54);
                assert(ecc_per_block(e, 32) * num_ecc_blocks(e, 32) == 1620) by (nonlinear_arith)
                    requires
                        ecc_per_block(e, 32) == 30,
                        num_ecc_blocks(e, 32) == 54,
                ;
                assert(ecc_per_block(e, 33) == 30 && num_ecc_blocks(e, 33) == 57);
                assert(ecc_per_block(e, 33) * num_ecc_blocks(e, 33) == 1710) by (nonlinear_arith)
                    requires
                        ecc_per_block(e, 33) == 30,
                        num_ecc_blocks(e, 33) == 57,
                ;
                assert(data_codewords(32, e) == 845);
                assert(data_codewords(33, e) == 901);
            },
        }
    } else if ver == 33 {
        assert(33int / 7 == 4);
        assert((16 * 33int + 128) * 33int + 64 == 21712) by (nonlinear_arith);
        assert((25 * 6int - 10) * 6int - 55 == 785) by (nonlinear_arith);
        assert(raw_data_modules(33) == 20891);
        assert(raw_codewords(33) == 2611);
        assert(34int / 7 == 4);
        assert((16 * 34int + 128) * 34int + 64 == 22912) by (nonlinear_arith);
        assert((25 * 6int - 10) * 6int - 55 == 785) by (nonlinear_arith);
        assert(raw_data_modules(34) == 22091);
        assert(raw_codewords(34) == 2761);
        match e {
            QrCodeEcc::Low => {
                assert(ecc_per_block(e, 33) == 30 && num_ecc_blocks(e, 33) == 18);
                assert(ecc_per_block(e, 33) * num_ecc_blocks(e, 33) == 540) by (nonlinear_arith)
                    requires
                        ecc_per_block(e, 33) == 30,
                        num_ecc_blocks(e, 33) == 18,
                ;
                assert(ecc_per_block(e, 34) == 30 && num_ecc_blocks(e, 34) == 19);
                assert(ecc_per_block(e, 34) * num_ecc_blocks(e, 34) == 570) by (nonlinear_arith)
                    requires
                        ecc_per_block(e, 34) == 30,
                        num_ecc_blocks(e, 34) == 19,
                ;
                assert(data_codewords(33, e) == 2071);
                assert(data_codewords(34, e) == 2191);
            },
            QrCodeEcc::Medium => {
                assert(ecc_per_block(e, 33) == 28 && num_ecc_blocks(e, 33) == 35);
                assert(ecc_per_block(e, 33) * num_ecc_blocks(e, 33) == 980) by (nonlinear_arith)
                    requires
                        ecc_per_block(e, 33) == 28,
                        num_ecc_blocks(e, 33) == 35,
                ;
                assert(ecc_per_block(e, 34) == 28 && num_ecc_blocks(e, 34) == 37);
                assert(ecc_per_block(e, 34) * num_ecc_blocks(e, 34) == 1036) by (nonlinear_arith)
                    requires
                        ecc_per_block(e, 34) == 28,
                        num_ecc_blocks(e, 34) == 37,
                ;
                assert(data_codewords(33, e) == 1631);
                assert(data_codewords(34, e) == 1725);
            },
            QrCodeEcc::Quartile => {
                assert(ecc_per_block(e, 33) == 30 && num_ecc_blocks(e, 33) == 48);
                assert(ecc_per_block(e, 33) * num_ecc_blocks(e, 33) == 1440) by (nonlinear_arith)
                    requires
                        ecc_per_block(e, 33) == 30,
                        num_ecc_blocks(e, 33) == 48,
                ;
                assert(ecc_per_block(e, 34) == 30 && num_ecc_blocks(e, 34) == 51);
                assert(ecc_per_block(e, 34) * num_ecc_blocks(e, 34) == 1530) by (nonlinear_arith)
                    requires
                        ecc_per_block(e, 34) == 30,
                        num_ecc_blocks(e, 34) == 51,
                ;
                assert(data_codewords(33, e) == 1171);
                assert(data_codewords(34, e) == 1231);
            },
            QrCodeEcc::High => {
                assert(ecc_per_block(e, 33) == 30 && num_ecc_blocks(e, 33) == 57);
                assert(ecc_per_block(e, 33) * num_ecc_blocks(e, 33) == 1710) by (nonlinear_arith)
                    requires
                        ecc_per_block(e, 33) == 30,
                        num_ecc_blocks(e, 33) == 57,
                ;
                assert(ecc_per_block(e, 34) == 30 && num_ecc_blocks(e, 34) == 60);
                assert(ecc_per_block(e, 34) * num_ecc_blocks(e, 34) == 1800) by (nonlinear_arith)
                    requires
                        ecc_per_block(e, 34) == 30,
                        num_ecc_blocks(e, 34) == 60,
                ;
                assert(data_codewords(33, e) == 901);
                assert(data_codewords(34, e) == 961);
            },
        }
    } else if ver == 34 {
        assert(34int / 7 == 4);
        assert((16 * 34int + 128) * 34int + 64 == 22912) by (nonlinear_arith);
        assert((25 * 6int - 10) * 6int - 55 == 785) by (nonlinear_arith);
        assert(raw_data_modules(34) == 22091);
        assert(raw_codewords(34) == 2761);
        assert(35int / 7 == 5);
        assert((16 * 35int + 128) * 35int + 64 == 24144) by (nonlinear_arith);
        assert((25 * 7int - 10) * 7int - 55 == 1100) by (nonlinear_arith);
        assert(raw_data_modules(35) == 23008);
        assert(raw_codewords(35) == 2876);
        match e {
            QrCodeEcc::Low => {
                assert(ecc_per_block(e, 34) == 30 && num_ecc_blocks(e, 34) == 19);
                assert(ecc_per_block(e, 34) * num_ecc_blocks(e, 34) == 570) by (nonlinear_arith)
                    requires
                        ecc_per_block(e, 34) == 30,
                        num_ecc_blocks(e, 34) == 19,
                ;
                assert(ecc_per_block(e, 35) == 30 && num_ecc_blocks(e, 35) == 19);
                assert(ecc_per_block(e, 35) * num_ecc_blocks(e, 35) == 570) by (nonlinear_arith)
                    requires
                        ecc_per_block(e, 35) == 30,
                        num_ecc_blocks(e, 35) == 19,
                ;
                assert(data_codewords(34, e) == 2191);
                assert(data_codewords(35, e) == 2306);
            },
            QrCodeEcc::Medium => {
                assert(ecc_per_block(e, 34) == 28 && num_ecc_blocks(e, 34) == 37);
                assert(ecc_per_block(e, 34) * num_ecc_blocks(e, 34) == 1036) by (nonlinear_arith)
                    requires
                        ecc_per_block(e, 34) == 28,
                        num_ecc_blocks(e, 34) == 37,
                ;
                assert(ecc_per_block(e, 35) == 28 && num_ecc_blocks(e, 35) == 38);
                assert(ecc_per_block(e, 35) * num_ecc_blocks(e, 35) == 1064) by (nonlinear_arith)
                    requires
                        ecc_per_block(e, 35) == 28,
                        num_ecc_blocks(e, 35) == 38,
                ;
                assert(data_codewords(34, e) == 1725);
                assert(data_codewords(35, e) == 1812);
            },
            QrCodeEcc::Quartile => {
                assert(ecc_per_block(e, 34) == 30 && num_ecc_blocks(e, 34) == 51);
                assert(ecc_per_block(e, 34) * num_ecc_blocks(e, 34) == 1530) by (nonlinear_arith)
                    requires
                        ecc_per_block(e, 34) == 30,
                        num_ecc_blocks(e, 34) == 51,
                ;
                assert(ecc_per_block(e, 35) == 30 && num_ecc_blocks(e, 35) == 53);
                assert(ecc_per_block(e, 35) * num_ecc_blocks(e, 35) == 1590) by (nonlinear_arith)
                    requires
                        ecc_per_block(e, 35) == 30,
                        num_ecc_blocks(e, 35) == 53,
                ;
                assert(data_codewords(34, e) == 1231);
                assert(data_codewords(35, e) == 1286);
            },
            QrCodeEcc::High => {
                assert(ecc_per_block(e, 34) == 30 && num_ecc_blocks(e, 34) == 60);
                assert(ecc_per_block(e, 34) * num_ecc_blocks(e, 34) == 1800) by (nonlinear_arith)
                    requires
                        ecc_per_block(e, 34) == 30,
                        num_ecc_blocks(e, 34) == 60,
                ;
                assert(ecc_per_block(e, 35) == 30 && num_ecc_blocks(e, 35) == 63);
                assert(ecc_per_block(e, 35) * num_ecc_blocks(e, 35) == 1890) by (nonlinear_arith)
                    requires
                        ecc_per_block(e, 35) == 30,
                        num_ecc_blocks(e, 35) == 63,
                ;
                assert(data_codewords(34, e) == 961);
                assert(data_codewords(35, e) == 986);
            },
        }
    } else if ver == 35 {
        assert(35int / 7 == 5);
        assert((16 * 35int + 128) * 35int + 64 == 24144) by (nonlinear_arith);
        assert((25 * 7int - 10) * 7int - 55 == 1100) by (nonlinear_arith);
        assert(raw_data_modules(35) == 23008);
        assert(raw_codewords(35) == 2876);
        assert(36int / 7 == 5);
        assert((16 * 36int + 128) * 36int + 64 == 25408) by (nonlinear_arith);
        assert((25 * 7int - 10) * 7int - 55 == 1100) by (nonlinear_arith);
        assert(raw_data_modules(36) == 24272);
        assert(raw_codewords(36) == 3034);
        match e {
            QrCodeEcc::Low => {
                assert(ecc_per_block(e, 35) == 30 && num_ecc_blocks(e, 35) == 19);
                assert(ecc_per_block(e, 35) * num_ecc_blocks(e, 35) == 570) by (nonlinear_arith)
                    requires
                        ecc_per_block(e, 35) == 30,
                        num_ecc_blocks(e, 35) == 19,
                ;
                assert(ecc_per_block(e, 36) == 30 && num_ecc_blocks(e, 36) == 20);
                assert(ecc_per_block(e, 36) * num_ecc_blocks(e, 36) == 600) by (nonlinear_arith)
                    requires
                        ecc_per_block(e, 36) == 30,
                        num_ecc_blocks(e, 36) == 20,
                ;
                assert(data_codewords(35, e) == 2306);
                assert(data_codewords(36, e) == 2434);
            },
            QrCodeEcc::Medium => {
                assert(ecc_per_block(e, 35) == 28 && num_ecc_blocks(e, 35) == 38);
                assert(ecc_per_block(e, 35) * num_ecc_blocks(e, 35) == 1064) by (nonlinear_arith)
                    requires
                        ecc_per_block(e, 35) == 28,
                        num_ecc_blocks(e, 35) == 38,
                ;
                assert(ecc_per_block(e, 36) == 28 && num_ecc_blocks(e, 36) == 40);
                assert(ecc_per_block(e, 36) * num_ecc_blocks(e, 36) == 1120) by (nonlinear_arith)
                    requires
                        ecc_per_block(e, 36) == 28,
                        num_ecc_blocks(e, 36) == 40,
                ;
                assert(data_codewords(35, e) == 1812);
                assert(data_codewords(36, e) == 1914);
            },
            QrCodeEcc::Quartile => {
                assert(ecc_per_block(e, 35) == 30 && num_ecc_blocks(e, 35) == 53);
                assert(ecc_per_block(e, 35) * num_ecc_blocks(e, 35) == 1590) by (nonlinear_arith)
                    requires
                        ecc_per_block(e, 35) == 30,
                        num_ecc_blocks(e, 35) == 53,
                ;
                assert(ecc_per_block(e, 36) == 30 && num_ecc_blocks(e, 36) == 56);
                assert(ecc_per_block(e, 36) * num_ecc_blocks(e, 36) == 1680) by (nonlinear_arith)
                    requires
                        ecc_per_block(e, 36) == 30,
                        num_ecc_blocks(e, 36) == 56,
                ;
                assert(data_codewords(35, e) == 1286);
                assert(data_codewords(36, e) == 1354);
            },
            QrCodeEcc::High => {
                assert(ecc_per_block(e, 35) == 30 && num_ecc_blocks(e, 35) == 63);
                assert(ecc_per_block(e, 35) * num_ecc_blocks(e, 35) == 1890) by (nonlinear_arith)
                    requires
                        ecc_per_block(e, 35) == 30,
                        num_ecc_blocks(e, 35) == 63,
                ;
                assert(ecc_per_block(e, 36) == 30 && num_ecc_blocks(e, 36) == 66);
                assert(ecc_per_block(e, 36) * num_ecc_blocks(e, 36) == 1980) by (nonlinear_arith)
                    requires
                        ecc_per_block(e, 36) == 30,
                        num_ecc_blocks(e, 36) == 66,
                ;
                assert(data_codewords(35, e) == 986);
                assert(data_codewords(36, e) == 1054);
            },
        }
    } else if ver == 36 {
        assert(36int / 7 == 5);
        assert((16 * 36int + 128) * 36int + 64 == 25408) by (nonlinear_arith);
        assert((25 * 7int - 10) * 7int - 55 == 1100) by (nonlinear_arith);
        assert(raw_data_modules(36) == 24272);
        assert(raw_codewords(36) == 3034);
        assert(37int / 7 == 5);
        assert((16 * 37int + 128) * 37int + 64 == 26704) by (nonlinear_arith);
        assert((25 * 7int - 10) * 7int - 55 == 1100) by (nonlinear_arith);
        assert(raw_data_modules(37) == 25568);
        assert(raw_codewords(37) == 3196);
        match e {
            QrCodeEcc::Low => {
                assert(ecc_per_block(e, 36) == 30 && num_ecc_blocks(e, 36) == 20);
                assert(ecc_per_block(e, 36) * num_ecc_blocks(e, 36) == 600) by (nonlinear_arith)
                    requires
                        ecc_per_block(e, 36) == 30,
                        num_ecc_blocks(e, 36) == 20,
                ;
                assert(ecc_per_block(e, 37) == 30 && num_ecc_blocks(e, 37) == 21);
                assert(ecc_per_block(e, 37) * num_ecc_blocks(e, 37) == 630) by (nonlinear_arith)
                    requires
                        ecc_per_block(e, 37) == 30,
                        num_ecc_blocks(e, 37) == 21,
                ;
                assert(data_codewords(36, e) == 2434);
                assert(data_codewords(37, e) == 2566);
            },
            QrCodeEcc::Medium => {
                assert(ecc_per_block(e, 36) == 28 && num_ecc_blocks(e, 36) == 40);
                assert(ecc_per_block(e, 36) * num_ecc_blocks(e, 36) == 1120) by (nonlinear_arith)
                    requires
                        ecc_per_block(e, 36) == 28,
                        num_ecc_blocks(e, 36) == 40,
                ;
                assert(ecc_per_block(e, 37) == 28 && num_ecc_blocks(e, 37) == 43);
                assert(ecc_per_block(e, 37) * num_ecc_blocks(e, 37) == 1204) by (nonlinear_arith)
                    requires
                        ecc_per_block(e, 37) == 28,
                        num_ecc_blocks(e, 37) == 43,
                ;
                assert(data_codewords(36, e) == 1914);
                assert(data_codewords(37, e) == 1992);
            },
            QrCodeEcc::Quartile => {
                assert(ecc_per_block(e, 36) == 30 && num_ecc_blocks(e, 36) == 56);
                assert(ecc_per_block(e, 36) * num_ecc_blocks(e, 36) == 1680) by (nonlinear_arith)
                    requires
                        ecc_per_block(e, 36) == 30,
                        num_ecc_blocks(e, 36) == 56,
                ;
                assert(ecc_per_block(e, 37) == 30 && num_ecc_blocks(e, 37) == 59);
                assert(ecc_per_block(e, 37) * num_ecc_blocks(e, 37) == 1770) by (nonlinear_arith)
                    requires
                        ecc_per_block(e, 37) == 30,
                        num_ecc_blocks(e, 37) == 59,
                ;
                assert(data_codewords(36, e) == 1354);
                assert(data_codewords(37, e) == 1426);
            },
            QrCodeEcc::High => {
                assert(ecc_per_block(e, 36) == 30 && num_ecc_blocks(e, 36) == 66);
                assert(ecc_per_block(e, 36) * num_ecc_blocks(e, 36) == 1980) by (nonlinear_arith)
                    requires
                        ecc_per_block(e, 36) == 30,
                        num_ecc_blocks(e, 36) == 66,
                ;
                assert(ecc_per_block(e, 37) == 30 && num_ecc_blocks(e, 37) == 70);
                assert(ecc_per_block(e, 37) * num_ecc_blocks(e, 37) == 2100) by (nonlinear_arith)
                    requires
                        ecc_per_block(e, 37) == 30,
                        num_ecc_blocks(e, 37) == 70,
                ;
                assert(data_codewords(36, e) == 1054);
                assert(data_codewords(37, e) == 1096);
            },
        }
    } else if ver == 37 {
        assert(37int / 7 == 5);
        assert((16 * 37int + 128) * 37int + 64 == 26704) by (nonlinear_arith);
        assert((25 * 7int - 10) * 7int - 55 == 1100) by (nonlinear_arith);
        assert(raw_data_modules(37) == 25568);
        assert(raw_codewords(37) == 3196);
        assert(38int / 7 == 5);
        assert((16 * 38int + 128) * 38int + 64 == 28032) by (nonlinear_arith);
        assert((25 * 7int - 10) * 7int - 55 == 1100) by (nonlinear_arith);
        assert(raw_data_modules(38) == 26896);
        assert(raw_codewords(38) == 3362);
        match e {
            QrCodeEcc::Low => {
                assert(ecc_per_block(e, 37) == 30 && num_ecc_blocks(e, 37) == 21);
                assert(ecc_per_block(e, 37) * num_ecc_blocks(e, 37) == 630) by (nonlinear_arith)
                    requires
                        ecc_per_block(e, 37) == 30,
                        num_ecc_blocks(e, 37) == 21,
                ;
                assert(ecc_per_block(e, 38) == 30 && num_ecc_blocks(e, 38) == 22);
                assert(ecc_per_block(e, 38) * num_ecc_blocks(e, 38) == 660) by (nonlinear_arith)
                    requires
                        ecc_per_block(e, 38) == 30,
                        num_ecc_blocks(e, 38) == 22,
                ;
                assert(data_codewords(37, e) == 2566);
                assert(data_codewords(38, e) == 2702);
            },
            QrCodeEcc::Medium => {
                assert(ecc_per_block(e, 37) == 28 && num_ecc_blocks(e, 37) == 43);
                assert(ecc_per_block(e, 37) * num_ecc_blocks(e, 37) == 1204) by (nonlinear_arith)
                    requires
                        ecc_per_block(e, 37) == 28,
                        num_ecc_blocks(e, 37) == 43,
                ;
                assert(ecc_per_block(e, 38) == 28 && num_ecc_blocks(e, 38) == 45);
                assert(ecc_per_block(e, 38) * num_ecc_blocks(e, 38) == 1260) by (nonlinear_arith)
                    requires
                        ecc_per_block(e, 38) == 28,
                        num_ecc_blocks(e, 38) == 45,
                ;
                assert(data_codewords(37, e) == 1992);
                assert(data_codewords(38, e) == 2102);
            },
            QrCodeEcc::Quartile => {
                assert(ecc_per_block(e, 37) == 30 && num_ecc_blocks(e, 37) == 59);
                assert(ecc_per_block(e, 37) * num_ecc_blocks(e, 37) == 1770) by (nonlinear_arith)
                    requires
                        ecc_per_block(e, 37) == 30,
                        num_ecc_blocks(e, 37) == 59,
                ;
                assert(ecc_per_block(e, 38) == 30 && num_ecc_blocks(e, 38) == 62);
                assert(ecc_per_block(e, 38) * num_ecc_blocks(e, 38) == 1860) by (nonlinear_arith)
                    requires
                        ecc_per_block(e, 38) == 30,
                        num_ecc_blocks(e, 38) == 62,
                ;
                assert(data_codewords(37, e) == 1426);
                assert(data_codewords(38, e) == 1502);
            },
            QrCodeEcc::High => {
                assert(ecc_per_block(e, 37) == 30 && num_ecc_blocks(e, 37) == 70);
                assert(ecc_per_block(e, 37) * num_ecc_blocks(e, 37) == 2100) by (nonlinear_arith)
                    requires
                        ecc_per_block(e, 37) == 30,
                        num_ecc_blocks(e, 37) == 70,
                ;
                assert(ecc_per_block(e, 38) == 30 && num_ecc_blocks(e, 38) == 74);
                assert(ecc_per_block(e, 38) * num_ecc_blocks(e, 38) == 2220) by (nonlinear_arith)
                    requires
                        ecc_per_block(e, 38) == 30,
                        num_ecc_blocks(e, 38) == 74,
                ;
                assert(data_codewords(37, e) == 1096);
                assert(data_codewords(38, e) == 1142);
            },
        }
    } else if ver == 38 {
        assert(38int / 7 == 5);
        assert((16 * 38int + 128) * 38int + 64 == 28032) by (nonlinear_arith);
        assert((25 * 7int - 10) * 7int - 55 == 1100) by (nonlinear_arith);
        assert(raw_data_modules(38) == 26896);
        assert(raw_codewords(38) == 3362);
        assert(39int / 7 == 5);
        assert((16 * 39int + 128) * 39int + 64 == 29392) by (nonlinear_arith);
        assert((25 * 7int - 10) * 7int - 55 == 1100) by (nonlinear_arith);
        assert(raw_data_modules(39) == 28256);
        assert(raw_codewords(39) == 3532);
        match e {
            QrCodeEcc::Low => {
                assert(ecc_per_block(e, 38) == 30 && num_ecc_blocks(e, 38) == 22);
                assert(ecc_per_block(e, 38) * num_ecc_blocks(e, 38) == 660) by (nonlinear_arith)
                    requires
                        ecc_per_block(e, 38) == 30,
                        num_ecc_blocks(e, 38) == 22,
                ;
                assert(ecc_per_block(e, 39) == 30 && num_ecc_blocks(e, 39) == 24);
                assert(ecc_per_block(e, 39) * num_ecc_blocks(e, 39) == 720) by (nonlinear_arith)
                    requires
                        ecc_per_block(e, 39) == 30,
                        num_ecc_blocks(e, 39) == 24,
                ;
                assert(data_codewords(38, e) == 2702);
                assert(data_codewords(39, e) == 2812);
            },
            QrCodeEcc::Medium => {
                assert(ecc_per_block(e, 38) == 28 && num_ecc_blocks(e, 38) == 45);
                assert(ecc_per_block(e, 38) * num_ecc_blocks(e, 38) == 1260) by (nonlinear_arith)
                    requires
                        ecc_per_block(e, 38) == 28,
                        num_ecc_blocks(e, 38) == 45,
                ;
                assert(ecc_per_block(e, 39) == 28 && num_ecc_blocks(e, 39) == 47);
                assert(ecc_per_block(e, 39) * num_ecc_blocks(e, 39) == 1316) by (nonlinear_arith)
                    requires
                        ecc_per_block(e, 39) == 28,
                        num_ecc_blocks(e, 39) == 47,
                ;
                assert(data_codewords(38, e) == 2102);
                assert(data_codewords(39, e) == 2216);
            },
            QrCodeEcc::Quartile => {
                assert(ecc_per_block(e, 38) == 30 && num_ecc_blocks(e, 38) == 62);
                assert(ecc_per_block(e, 38) * num_ecc_blocks(e, 38) == 1860) by (nonlinear_arith)
                    requires
                        ecc_per_block(e, 38) == 30,
                        num_ecc_blocks(e, 38) == 62,
                ;
                assert(ecc_per_block(e, 39) == 30 && num_ecc_blocks(e, 39) == 65);
                assert(ecc_per_block(e, 39) * num_ecc_blocks(e, 39) == 1950) by (nonlinear_arith)
                    requires
                        ecc_per_block(e, 39) == 30,
                        num_ecc_blocks(e, 39) == 65,
                ;
                assert(data_codewords(38, e) == 1502);
                assert(data_codewords(39, e) == 1582);
            },
            QrCodeEcc::High => {
                assert(ecc_per_block(e, 38) == 30 && num_ecc_blocks(e, 38) == 74);
                assert(ecc_per_block(e, 38) * num_ecc_blocks(e, 38) == 2220) by (nonlinear_arith)
                    requires
                        ecc_per_block(e, 38) == 30,
                        num_ecc_blocks(e, 38) == 74,
                ;
                assert(ecc_per_block(e, 39) == 30 && num_ecc_blocks(e, 39) == 77);
                assert(ecc_per_block(e, 39) * num_ecc_blocks(e, 39) == 2310) by (nonlinear_arith)
                    requires
                        ecc_per_block(e, 39) == 30,
                        num_ecc_blocks(e, 39) == 77,
                ;
                assert(data_codewords(38, e) == 1142);
                assert(data_codewords(39, e) == 1222);
            },
        }
    } else if ver == 39 {
        assert(39int / 7 == 5);
        assert((16 * 39int + 128) * 39int + 64 == 29392) by (nonlinear_arith);
        assert((25 * 7int - 10) * 7int - 55 == 1100) by (nonlinear_arith);
        assert(raw_data_modules(39) == 28256);
        assert(raw_codewords(39) == 3532);
        assert(40int / 7 == 5);
        assert((16 * 40int + 128) * 40int + 64 == 30784) by (nonlinear_arith);
        assert((25 * 7int - 10) * 7int - 55 == 1100) by (nonlinear_arith);
        assert(raw_data_modules(40) == 29648);
        assert(raw_codewords(40) == 3706);
        match e {
            QrCodeEcc::Low => {
                assert(ecc_per_block(e, 39) == 30 && num_ecc_blocks(e, 39) == 24);
                assert(ecc_per_block(e, 39) * num_ecc_blocks(e, 39) == 720) by (nonlinear_arith)
                    requires
                        ecc_per_block(e, 39) == 30,
                        num_ecc_blocks(e, 39) == 24,
                ;
                assert(ecc_per_block(e, 40) == 30 && num_ecc_blocks(e, 40) == 25);
                assert(ecc_per_block(e, 40) * num_ecc_blocks(e, 40) == 750) by (nonlinear_arith)
                    requires
                        ecc_per_block(e, 40) == 30,
                        num_ecc_blocks(e, 40) == 25,
                ;
                assert(data_codewords(39, e) == 2812);
                assert(data_codewords(40, e) == 2956);
            },
            QrCodeEcc::Medium => {
                assert(ecc_per_block(e, 39) == 28 && num_ecc_blocks(e, 39) == 47);
                assert(ecc_per_block(e, 39) * num_ecc_blocks(e, 39) == 1316) by (nonlinear_arith)
                    requires
                        ecc_per_block(e, 39) == 28,
                        num_ecc_blocks(e, 39) == 47,
                ;
                assert(ecc_per_block(e, 40) == 28 && num_ecc_blocks(e, 40) == 49);
                assert(ecc_per_block(e, 40) * num_ecc_blocks(e, 40) == 1372) by (nonlinear_arith)
                    requires
                        ecc_per_block(e, 40) == 28,
                        num_ecc_blocks(e, 40) == 49,
                ;
                assert(data_codewords(39, e) == 2216);
                assert(data_codewords(40, e) == 2334);
            },
            QrCodeEcc::Quartile => {
                assert(ecc_per_block(e, 39) == 30 && num_ecc_blocks(e, 39) == 65);
                assert(ecc_per_block(e, 39) * num_ecc_blocks(e, 39) == 1950) by (nonlinear_arith)
                    requires
                        ecc_per_block(e, 39) == 30,
                        num_ecc_blocks(e, 39) == 65,
                ;
                assert(ecc_per_block(e, 40) == 30 && num_ecc_blocks(e, 40) == 68);
                assert(ecc_per_block(e, 40) * num_ecc_blocks(e, 40) == 2040) by (nonlinear_arith)
                    requires
                        ecc_per_block(e, 40) == 30,
                        num_ecc_blocks(e, 40) == 68,
                ;
                assert(data_codewords(39, e) == 1582);
                assert(data_codewords(40, e) == 1666);
            },
            QrCodeEcc::High => {
                assert(ecc_per_block(e, 39) == 30 && num_ecc_blocks(e, 39) == 77);
                assert(ecc_per_block(e, 39) * num_ecc_blocks(e, 39) == 2310) by (nonlinear_arith)
                    requires
                        ecc_per_block(e, 39) == 30,
                        num_ecc_blocks(e, 39) == 77,
                ;
                assert(ecc_per_block(e, 40) == 30 && num_ecc_blocks(e, 40) == 81);
                assert(ecc_per_block(e, 40) * num_ecc_blocks(e, 40) == 2430) by (nonlinear_arith)
                    requires
                        ecc_per_block(e, 40) == 30,
                        num_ecc_blocks(e, 40) == 81,
                ;
                assert(data_codewords(39, e) == 1222);
                assert(data_codewords(40, e) == 1276);
            },
        }
    }
}

/// Looks up `ecc_per_block` for a version and a level.
pub(crate) fn ecc_codewords_per_block(ver: Version, ecl: QrCodeEcc) -> (r: usize)
    ensures
        r as int == ecc_per_block(ecl, ver.spec_value()),
        1 <= r <= 81,
{
    let v = ver.value() as usize;
    proof { lemma_table_facts(ecl, v as int); }
    let row: [u8; 41] = match ecl {
        QrCodeEcc::Low => [0, 7, 10, 15, 20, 26, 18, 20, 24, 30, 18, 20, 24, 26, 30, 22, 24, 28, 30, 28, 28, 28, 28, 30, 30, 26, 28, 30, 30, 30, 30, 30, 30, 30, 30, 30, 30, 30, 30, 30, 30],
        QrCodeEcc::Medium => [0, 10, 16, 26, 18, 24, 16, 18, 22, 22, 26, 30, 22, 22, 24, 24, 28, 28, 26, 26, 26, 26, 28, 28, 28, 28, 28, 28, 28, 28, 28, 28, 28, 28, 28, 28, 28, 28, 28, 28, 28],
        QrCodeEcc::Quartile => [0, 13, 22, 18, 26, 18, 24, 18, 22, 20, 24, 28, 26, 24, 20, 30, 24, 28, 28, 26, 30, 28, 30, 30, 30, 30, 28, 30, 30, 30, 30, 30, 30, 30, 30, 30, 30, 30, 30, 30, 30],
        QrCodeEcc::High => [0, 17, 28, 22, 16, 22, 28, 26, 26, 24, 28, 24, 28, 22, 24, 24, 30, 28, 28, 26, 28, 30, 24, 30, 30, 30, 30, 30, 30, 30, 30, 30, 30, 30, 30, 30, 30, 30, 30, 30, 30],
    };
    proof {
        match ecl {
            QrCodeEcc::Low => { assert(row@ =~= seq![0u8, 7, 10, 15, 20, 26, 18, 20, 24, 30, 18, 20, 24, 26, 30, 22, 24, 28, 30, 28, 28, 28, 28, 30, 30, 26, 28, 30, 30, 30, 30, 30, 30, 30, 30, 30, 30, 30, 30, 30, 30]); },
            QrCodeEcc::Medium => { assert(row@ =~= seq![0u8, 10, 16, 26, 18, 24, 16, 18, 22, 22, 26, 30, 22, 22, 24, 24, 28, 28, 26, 26, 26, 26, 28, 28, 28, 28, 28, 28, 28, 28, 28, 28, 28, 28, 28, 28, 28, 28, 28, 28, 28]); },
            QrCodeEcc::Quartile => { assert(row@ =~= seq![0u8, 13, 22, 18, 26, 18, 24, 18, 22, 20, 24, 28, 26, 24, 20, 30, 24, 28, 28, 26, 30, 28, 30, 30, 30, 30, 28, 30, 30, 30, 30, 30, 30, 30, 30, 30, 30, 30, 30, 30, 30]); },
            QrCodeEcc::High => { assert(row@ =~= seq![0u8, 17, 28, 22, 16, 22, 28, 26, 26, 24, 28, 24, 28, 22, 24, 24, 30, 28, 28, 26, 28, 30, 24, 30, 30, 30, 30, 30, 30, 30, 30, 30, 30, 30, 30, 30, 30, 30, 30, 30, 30]); },
        }
    }
    row[v] as usize
}

/// Looks up `num_ecc_blocks` for a version and a level.
pub(crate) fn num_error_correction_blocks(ver: Version, ecl: QrCodeEcc) -> (r: usize)
    ensures
        r as int == num_ecc_blocks(ecl, ver.spec_value()),
        1 <= r <= 81,
{
    let v = ver.value() as usize;
    proof { lemma_table_facts(ecl, v as int); }
    let row: [u8; 41] = match ecl {
        QrCodeEcc::Low => [0, 1, 1, 1, 1, 1, 2, 2, 2, 2, 4, 4, 4, 4, 4, 6, 6, 6, 6, 7, 8, 8, 9, 9, 10, 12, 12, 12, 13, 14, 15, 16, 17, 18, 19, 19, 20, 21, 22, 24, 25],
        QrCodeEcc::Medium => [0, 1, 1, 1, 2, 2, 4, 4, 4, 5, 5, 5, 8, 9, 9, 10, 10, 11, 13, 14, 16, 17, 17, 18, 20, 21, 23, 25, 26, 28, 29, 31, 33, 35, 37, 38, 40, 43, 45, 47, 49],
        QrCodeEcc::Quartile => [0, 1, 1, 2, 2, 4, 4, 6, 6, 8, 8, 8, 10, 12, 16, 12, 17, 16, 18, 21, 20, 23, 23, 25, 27, 29, 34, 34, 35, 38, 40, 43, 45, 48, 51, 53, 56, 59, 62, 65, 68],
        QrCodeEcc::High => [0, 1, 1, 2, 4, 4, 4, 5, 6, 8, 8, 11, 11, 16, 16, 18, 16, 19, 21, 25, 25, 25, 34, 30, 32, 35, 37, 40, 42, 45, 48, 51, 54, 57, 60, 63, 66, 70, 74, 77, 81],
    };
    proof {
        match ecl {
            QrCodeEcc::Low => { assert(row@ =~= seq![0u8, 1, 1, 1, 1, 1, 2, 2, 2, 2, 4, 4, 4, 4, 4, 6, 6, 6, 6, 7, 8, 8, 9, 9, 10, 12, 12, 12, 13, 14, 15, 16, 17, 18, 19, 19, 20, 21, 22, 24, 25]); },
            QrCodeEcc::Medium => { assert(row@ =~= seq![0u8, 1, 1, 1, 2, 2, 4, 4, 4, 5, 5, 5, 8, 9, 9, 10, 10, 11, 13, 14, 16, 17, 17, 18, 20, 21, 23, 25, 26, 28, 29, 31, 33, 35, 37, 38, 40, 43, 45, 47, 49]); },
            QrCodeEcc::Quartile => { assert(row@ =~= seq![0u8, 1, 1, 2, 2, 4, 4, 6, 6, 8, 8, 8, 10, 12, 16, 12, 17, 16, 18, 21, 20, 23, 23, 25, 27, 29, 34, 34, 35, 38, 40, 43, 45, 48, 51, 53, 56, 59, 62, 65, 68]); },
            QrCodeEcc::High => { assert(row@ =~= seq![0u8, 1, 1, 2, 4, 4, 4, 5, 6, 8, 8, 11, 11, 16, 16, 18, 16, 19, 21, 25, 25, 25, 34, 30, 32, 35, 37, 40, 42, 45, 48, 51, 54, 57, 60, 63, 66, 70, 74, 77, 81]); },
        }
    }
    row[v] as usize
}

/// Returns the number of modules that hold codeword bits in a symbol of version `ver`.
pub(crate) fn get_num_raw_data_modules(ver: Version) -> (r: usize)
    ensures
        r as int == raw_data_modules(ver.spec_value()),
        208 <= r <= 29648,
{
    let v = ver.value() as usize;
    proof {
        lemma_table_facts(QrCodeEcc::Low, v as int);
    }
    assert((16 * v + 128) * v + 64 <= 31000) by (nonlinear_arith)
        requires
            0 <= v <= 40,
    ;
    let mut result: usize = (16 * v + 128) * v + 64;
    if v >= 2 {
        let numalign: usize = v / 7 + 2;
        assert(80 <= (25 * numalign - 10) * numalign <= 1165) by (nonlinear_arith)
            requires
                2 <= numalign <= 7,
        ;
        result -= (25 * numalign - 10) * numalign - 55;
        if v >= 7 {
            result -= 36;
        }
    }
    assert(result as int == raw_data_modules(v as int));
    result
}

/// Returns the number of data codewords of a symbol of version `ver` at level `ecl`.
pub(crate) fn get_num_data_codewords(ver: Version, ecl: QrCodeEcc) -> (r: usize)
    ensures
        r as int == data_codewords(ver.spec_value(), ecl),
        1 <= r <= 3706,
{
    let v = ver.value();
    let raw = get_num_raw_data_modules(ver) / 8;
    let ecc = ecc_codewords_per_block(ver, ecl);
    let nb = num_error_correction_blocks(ver, ecl);
    proof {
        lemma_table_facts(ecl, ver.spec_value());
        lemma_blocks_fit(raw as int, nb as int, ecc as int);
    }
    raw - ecc * nb
}

/// `nb` blocks of `raw / nb` codewords, `ecc` of them for error correction in each block,
/// leave at least one data codeword in each block.
pub proof fn lemma_blocks_fit(raw: int, nb: int, ecc: int)
    requires
        nb >= 1,
        ecc >= 0,
        raw >= 0,
        nb * (ecc + 1) <= raw,
    ensures
        ecc * nb + nb <= raw,
        raw / nb >= ecc + 1,
{
    assert(ecc * nb + nb <= raw) by (nonlinear_arith)
        requires
            nb * (ecc + 1) <= raw,
    ;
    assert(raw / nb >= ecc + 1) by (nonlinear_arith)
        requires
            nb * (ecc + 1) <= raw,
            nb >= 1,
            ecc >= 0,
    ;
}

} // verus!
