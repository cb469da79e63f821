use vstd::prelude::*;
use crate::params::{
    data_codewords, ecc_codewords_per_block, ecc_per_block, get_num_raw_data_modules,
    lemma_table_facts, num_ecc_blocks, num_error_correction_blocks, raw_codewords, QrCodeEcc,
    Version,
};
use crate::reed_solomon::{rs_divisor, rs_remainder, ReedSolomonGenerator};

verus! {

/// Blocks with one data codeword less than the others; they come first.
pub open spec fn num_short_blocks(ver: int, e: QrCodeEcc) -> int {
    num_ecc_blocks(e, ver) - raw_codewords(ver) % num_ecc_blocks(e, ver)
}

/// Data codewords of a short block.
pub open spec fn short_block_len(ver: int, e: QrCodeEcc) -> int {
    raw_codewords(ver) / num_ecc_blocks(e, ver) - ecc_per_block(e, ver)
}

/// Data codewords of block `i`.
pub open spec fn block_len(ver: int, e: QrCodeEcc, i: int) -> int {
    short_block_len(ver, e) + if i >= num_short_blocks(ver, e) {
        1int
    } else {
        0
    }
}

/// Index in the data codewords of the first codeword of block `i`.
pub open spec fn block_start(ver: int, e: QrCodeEcc, i: int) -> int {
    i * short_block_len(ver, e) + if i > num_short_blocks(ver, e) {
        i - num_short_blocks(ver, e)
    } else {
        0
    }
}

/// The data codewords of block `i`.
pub open spec fn data_block(data: Seq<u8>, ver: int, e: QrCodeEcc, i: int) -> Seq<u8> {
    data.subrange(block_start(ver, e, i), block_start(ver, e, i) + block_len(ver, e, i))
}

/// The codeword at position `k` of the symbol's codeword sequence: the data codewords of all
/// blocks taken column by column (the long blocks' last codewords after the others), then the
/// error correction codewords of all blocks column by column.
pub open spec fn interleaved_codeword(data: Seq<u8>, ver: int, e: QrCodeEcc, k: int) -> u8 {
    let nb = num_ecc_blocks(e, ver);
    let sbl = short_block_len(ver, e);
    let dl = data.len() as int;
    if k < sbl * nb {
        data_block(data, ver, e, k % nb)[k / nb]
    } else if k < dl {
        data_block(data, ver, e, num_short_blocks(ver, e) + (k - sbl * nb))[sbl]
    } else {
        rs_remainder(data_block(data, ver, e, (k - dl) % nb), rs_divisor(ecc_per_block(e, ver) as nat))[(k
            - dl) / nb]
    }
}

/// The blocks cover the data codewords: short ones, then long ones.
pub proof fn lemma_block_partition(ver: int, e: QrCodeEcc)
    requires
        1 <= ver <= 40,
    ensures
        num_ecc_blocks(e, ver) * short_block_len(ver, e) + num_ecc_blocks(e, ver) - num_short_blocks(
            ver,
            e,
        ) == data_codewords(ver, e),
        1 <= num_short_blocks(ver, e) <= num_ecc_blocks(e, ver),
        short_block_len(ver, e) >= 1,
{
    lemma_table_facts(e, ver);
    let raw = raw_codewords(ver);
    let nb = num_ecc_blocks(e, ver);
    let ecc = ecc_per_block(e, ver);
    crate::params::lemma_blocks_fit(raw, nb, ecc);
    vstd::arithmetic::div_mod::lemma_fundamental_div_mod(raw, nb);
    assert(nb * (raw / nb - ecc) == nb * (raw / nb) - nb * ecc) by (nonlinear_arith);
    assert(nb * ecc == ecc * nb) by (nonlinear_arith);
}

/// Computes the error correction codewords of each block and returns the data and error
/// correction codewords interleaved in the order in which they are placed.
pub(crate) fn add_ecc_and_interleave(data: &[u8], ver: Version, ecl: QrCodeEcc) -> (r: Vec<u8>)
    requires
        data@.len() == data_codewords(ver.spec_value(), ecl),
    ensures
        r@.len() == raw_codewords(ver.spec_value()),
        forall|k: int|
            0 <= k < r@.len() ==> #[trigger] r@[k] == interleaved_codeword(
                data@,
                ver.spec_value(),
                ecl,
                k,
            ),
{
    let ghost v = ver.spec_value();
    let _ = ver.value();
    let numblocks = num_error_correction_blocks(ver, ecl);
    let blockecclen = ecc_codewords_per_block(ver, ecl);
    let rawcodewords = get_num_raw_data_modules(ver) / 8;
    proof {
        lemma_table_facts(ecl, v);
        lemma_block_partition(v, ecl);
    }
    let numshortblocks = numblocks - rawcodewords % numblocks;
    let shortblockdatalen = rawcodewords / numblocks - blockecclen;
    let rs = ReedSolomonGenerator::new(blockecclen);
    let mut blocks: Vec<Vec<u8>> = Vec::new();
    let mut eccs: Vec<Vec<u8>> = Vec::new();
    let mut start: usize = 0;
    assert(numblocks * shortblockdatalen >= shortblockdatalen) by (nonlinear_arith)
        requires
            numblocks >= 1,
            shortblockdatalen >= 0,
    ;
    let mut i: usize = 0;
    while i < numblocks
        invariant
            rs.wf(),
            rs.degree == blockecclen,
            blockecclen as int == ecc_per_block(ecl, v),
            numblocks as int == num_ecc_blocks(ecl, v),
            numshortblocks as int == num_short_blocks(v, ecl),
            shortblockdatalen as int == short_block_len(v, ecl),
            1 <= numshortblocks <= numblocks <= 81,
            numblocks * shortblockdatalen + numblocks - numshortblocks == data@.len(),
            data@.len() <= 3706,
            i <= numblocks,
            start as int == block_start(v, ecl, i as int),
            start <= data@.len(),
            i < numblocks ==> start + block_len(v, ecl, i as int) <= data@.len(),
            blocks@.len() == i,
            eccs@.len() == i,
            forall|t: int| 0 <= t < i ==> (#[trigger] blocks@[t])@ == data_block(data@, v, ecl, t),
            forall|t: int| 0 <= t < i ==> (#[trigger] blocks@[t])@.len() == block_len(v, ecl, t),
            forall|t: int|
                0 <= t < i ==> (#[trigger] eccs@[t])@ == rs_remainder(
                    data_block(data@, v, ecl, t),
                    rs_divisor(blockecclen as nat),
                ),
            forall|t: int| 0 <= t < i ==> (#[trigger] eccs@[t])@.len() == blockecclen,
        decreases numblocks - i,
    {
        let datlen: usize = shortblockdatalen + if i >= numshortblocks {
            1
        } else {
            0
        };
        let mut block: Vec<u8> = Vec::new();
        let mut j: usize = 0;
        while j < datlen
            invariant
                j <= datlen,
                start + datlen <= data@.len(),
                data@.len() <= 3706,
                block@ == data@.subrange(start as int, start + j),
            decreases datlen - j,
        {
            block.push(data[start + j]);
            j += 1;
            assert(block@ =~= data@.subrange(start as int, start + j));
        }
        let ecc = rs.compute_remainder(block.as_slice());
        blocks.push(block);
        eccs.push(ecc);
        proof {
            assert((i + 1) * shortblockdatalen == i * shortblockdatalen + shortblockdatalen)
                by (nonlinear_arith);
            if i + 1 < numblocks {
                assert(numblocks * shortblockdatalen == (i + 1) * shortblockdatalen + (numblocks
                    - i - 1) * shortblockdatalen) by (nonlinear_arith);
                assert((numblocks - i - 1) * shortblockdatalen >= shortblockdatalen)
                    by (nonlinear_arith)
                    requires
                        numblocks - i - 1 >= 1,
                        shortblockdatalen >= 0,
                ;
            } else {
                assert(numblocks * shortblockdatalen == (i + 1) * shortblockdatalen);
            }
        }
        start = start + datlen;
        i += 1;
    }
    let datalen = data.len();
    assert(shortblockdatalen * numblocks == numblocks * shortblockdatalen) by (nonlinear_arith);
    assert(numblocks * blockecclen == blockecclen * numblocks) by (nonlinear_arith);
    let sbn = shortblockdatalen * numblocks;
    let mut result: Vec<u8> = Vec::new();
    let mut k: usize = 0;
    while k < rawcodewords
        invariant
            blockecclen as int == ecc_per_block(ecl, v),
            numblocks as int == num_ecc_blocks(ecl, v),
            numshortblocks as int == num_short_blocks(v, ecl),
            shortblockdatalen as int == short_block_len(v, ecl),
            rawcodewords as int == raw_codewords(v),
            rawcodewords == datalen + numblocks * blockecclen,
            1 <= numshortblocks <= numblocks <= 81,
            sbn == shortblockdatalen * numblocks,
            numblocks * shortblockdatalen + numblocks - numshortblocks == datalen,
            datalen == data@.len(),
            blocks@.len() == numblocks,
            eccs@.len() == numblocks,
            forall|t: int|
                0 <= t < numblocks ==> (#[trigger] blocks@[t])@ == data_block(data@, v, ecl, t),
            forall|t: int|
                0 <= t < numblocks ==> (#[trigger] blocks@[t])@.len() == block_len(v, ecl, t),
            forall|t: int|
                0 <= t < numblocks ==> (#[trigger] eccs@[t])@ == rs_remainder(
                    data_block(data@, v, ecl, t),
                    rs_divisor(blockecclen as nat),
                ),
            forall|t: int| 0 <= t < numblocks ==> (#[trigger] eccs@[t])@.len() == blockecclen,
            k <= rawcodewords,
            result@.len() == k,
            forall|t: int|
                0 <= t < k ==> #[trigger] result@[t] == interleaved_codeword(data@, v, ecl, t),
        decreases rawcodewords - k,
    {
        let c: u8 = if k < sbn {
            let b = k % numblocks;
            let j = k / numblocks;
            assert(j < shortblockdatalen) by (nonlinear_arith)
                requires
                    k < shortblockdatalen * numblocks,
                    numblocks >= 1,
                    j == k / numblocks,
            ;
            blocks[b][j]
        } else if k < datalen {
            let b = numshortblocks + (k - sbn);
            blocks[b][shortblockdatalen]
        } else {
            let e = k - datalen;
            let b = e % numblocks;
            let j = e / numblocks;
            assert(j < blockecclen) by (nonlinear_arith)
                requires
                    e < numblocks * blockecclen,
                    numblocks >= 1,
                    j == e / numblocks,
            ;
            eccs[b][j]
        };
        result.push(c);
        k += 1;
    }
    result
}

} // verus!
