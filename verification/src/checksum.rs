//! The internet checksum: the ones'-complement of the ones'-complement sum
//! of the data taken as big-endian 16-bit words, an odd trailing byte being
//! padded with zero.  Used by the IPv4, ICMP, and UDP headers.

use vstd::prelude::*;

verus! {

/// Ones'-complement addition of two 16-bit quantities: the carry out of the
/// top bit wraps around into the bottom.
pub open spec fn oc_add(a: int, b: int) -> int {
    if a + b >= 0x10000 {
        a + b - 0xFFFF
    } else {
        a + b
    }
}

/// The `i`-th big-endian 16-bit word of `data`, an odd trailing byte padded
/// with zero.
pub open spec fn checksum_word(data: Seq<u8>, i: int) -> int {
    if 2 * i + 1 < data.len() {
        256 * (data[2 * i] as int) + (data[2 * i + 1] as int)
    } else {
        256 * (data[2 * i] as int)
    }
}

/// Number of 16-bit words covering `data`.
pub open spec fn checksum_num_words(data: Seq<u8>) -> int {
    (data.len() as int + 1) / 2
}

/// Ones'-complement sum of the first `n` words of `data`.
pub open spec fn checksum_sum(data: Seq<u8>, n: int) -> int
    decreases n,
{
    if n <= 0 {
        0
    } else {
        oc_add(checksum_sum(data, n - 1), checksum_word(data, n - 1))
    }
}

/// The internet checksum of `data`.
pub open spec fn internet_checksum_spec(data: Seq<u8>) -> int {
    0xFFFF - checksum_sum(data, checksum_num_words(data))
}

/// The sum of any prefix of words stays a 16-bit quantity.
pub proof fn lemma_checksum_sum_bound(data: Seq<u8>, n: int)
    requires
        forall|i: int| 0 <= i < n ==> 0 <= #[trigger] checksum_word(data, i) <= 0xFFFF,
    ensures
        0 <= checksum_sum(data, n) <= 0xFFFF,
    decreases n,
{
    if n > 0 {
        lemma_checksum_sum_bound(data, n - 1);
    }
}

/// Every word of in-range data is a 16-bit quantity.
proof fn lemma_checksum_word_bound(data: Seq<u8>, i: int)
    requires
        0 <= i < checksum_num_words(data),
    ensures
        0 <= checksum_word(data, i) <= 0xFFFF,
{
}

/// Computes the internet checksum of `data`.
pub fn internet_checksum(data: &[u8]) -> (r: u16)
    requires
        data@.len() < 0x10000000,
    ensures
        r == internet_checksum_spec(data@),
{
    let n: usize = data.len();
    let mut sum: u32 = 0;
    let mut i: usize = 0;
    proof {
        assert forall|k: int| 0 <= k < checksum_num_words(data@) implies 0 <= #[trigger]
        checksum_word(data@, k) <= 0xFFFF by {
            lemma_checksum_word_bound(data@, k);
        }
    }
    while i + 1 < n
        invariant
            data@.len() < 0x10000000,
            n == data@.len(),
            i % 2 == 0,
            i <= n + 1,
            sum == checksum_sum(data@, (i as int) / 2),
            0 <= sum <= 0xFFFF,
            forall|k: int|
                0 <= k < checksum_num_words(data@) ==> 0 <= #[trigger] checksum_word(data@, k)
                    <= 0xFFFF,
        decreases n - i,
    {
        let word: u32 = 256 * (data[i] as u32) + (data[i + 1] as u32);
        proof {
            assert(word == checksum_word(data@, (i as int) / 2));
        }
        sum = sum + word;
        if sum >= 0x10000 {
            sum = sum - 0xFFFF;
        }
        proof {
            assert(sum == checksum_sum(data@, (i as int) / 2 + 1));
        }
        i = i + 2;
    }
    if i < n {
        let word: u32 = 256 * (data[i] as u32);
        proof {
            assert(word == checksum_word(data@, (i as int) / 2));
        }
        sum = sum + word;
        if sum >= 0x10000 {
            sum = sum - 0xFFFF;
        }
        proof {
            assert(sum == checksum_sum(data@, (i as int) / 2 + 1));
            assert((i as int) / 2 + 1 == checksum_num_words(data@));
        }
    } else {
        proof {
            assert((i as int) / 2 == checksum_num_words(data@));
        }
    }
    0xFFFFu16 - (sum as u16)
}

} // verus!
