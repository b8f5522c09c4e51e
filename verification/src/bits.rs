//! Validity bitmaps: packing a sequence of booleans into bytes,
//! least-significant bit first, and reading it back.

use vstd::prelude::*;

verus! {

/// Bit `i` of a byte buffer, least-significant bit of each byte first.
pub open spec fn spec_bit(bm: Seq<u8>, i: int) -> bool {
    (bm[i / 8] >> ((i % 8) as u8)) & 1u8 == 1u8
}

/// A byte buffer read as the sequence of its bits.
pub open spec fn spec_bits(bm: Seq<u8>) -> Seq<bool> {
    Seq::new((bm.len() * 8) as nat, |i: int| spec_bit(bm, i))
}

/// A sequence of booleans padded with `false` up to the next byte boundary:
/// the bits that packing it into bytes yields.
pub open spec fn spec_padded_bits(v: Seq<bool>) -> Seq<bool> {
    Seq::new(
        (((v.len() + 7) / 8) * 8) as nat,
        |i: int|
            if 0 <= i < v.len() {
                v[i]
            } else {
                false
            },
    )
}

/// Setting bit `k` of a byte leaves every other bit as it was.
proof fn lemma_set_bit(b: u8, k: u8, j: u8)
    requires
        k < 8,
        j < 8,
    ensures
        ((b | (1u8 << k)) >> j) & 1u8 == if j == k {
            1u8
        } else {
            (b >> j) & 1u8
        },
{
    assert(((b | (1u8 << k)) >> j) & 1u8 == if j == k {
        1u8
    } else {
        (b >> j) & 1u8
    }) by (bit_vector)
        requires
            k < 8,
            j < 8,
    ;
}

/// Every bit of a zero byte is clear.
proof fn lemma_zero_bits(j: u8)
    requires
        j < 8,
    ensures
        (0u8 >> j) & 1u8 == 0u8,
{
    assert((0u8 >> j) & 1u8 == 0u8) by (bit_vector)
        requires
            j < 8,
    ;
}

/// Reads one bit of a bitmap buffer.
pub fn get_bit(bm: &Vec<u8>, i: usize) -> (b: bool)
    requires
        i < bm@.len() * 8,
    ensures
        b == spec_bit(bm@, i as int),
{
    proof {
        assert(i / 8 < bm@.len());
    }
    let byte = bm[i / 8];
    let shift = (i % 8) as u8;
    (byte >> shift) & 1u8 == 1u8
}

/// Packs booleans into a bitmap buffer, least-significant bit first,
/// padding the final byte with clear bits.
pub fn pack_bits(v: &Vec<bool>) -> (r: Vec<u8>)
    ensures
        spec_bits(r@) == spec_padded_bits(v@),
        r@.len() == (v@.len() + 7) / 8,
{
    let n = v.len();
    let nbytes = n / 8 + if n % 8 == 0 {
        0
    } else {
        1
    };
    proof {
        assert(n == 8 * (n as int / 8) + n as int % 8);
        assert(nbytes == (n + 7) / 8);
    }
    let mut r: Vec<u8> = Vec::new();
    while r.len() < nbytes
        invariant
            r@.len() <= nbytes,
            forall|j: int| 0 <= j < r@.len() ==> r@[j] == 0u8,
        decreases nbytes - r@.len(),
    {
        r.push(0u8);
    }
    proof {
        assert forall|j: int| 0 <= j < 8 * nbytes implies spec_bit(r@, j) == false by {
            assert(j / 8 < nbytes);
            assert(r@[j / 8] == 0u8);
            lemma_zero_bits((j % 8) as u8);
        }
    }
    let mut i: usize = 0;
    while i < n
        invariant
            n == v@.len(),
            r@.len() == nbytes,
            nbytes == (n + 7) / 8,
            i <= n,
            forall|j: int| 0 <= j < i ==> spec_bit(r@, j) == v@[j],
            forall|j: int| i <= j < n ==> spec_bit(r@, j) == false,
            forall|j: int| n <= j < 8 * nbytes ==> spec_bit(r@, j) == false,
        decreases n - i,
    {
        if v[i] {
            proof {
                assert(i / 8 < r@.len());
            }
            let idx = i / 8;
            let sh = (i % 8) as u8;
            let b = r[idx];
            let ghost old_r = r@;
            r.set(idx, b | (1u8 << sh));
            proof {
                assert forall|j: int| 0 <= j < 8 * nbytes && j != i implies spec_bit(r@, j)
                    == spec_bit(old_r, j) by {
                    assert(j == 8 * (j / 8) + j % 8);
                    assert(i == 8 * (i as int / 8) + i as int % 8);
                    if j / 8 == idx {
                        assert(r@[j / 8] == b | (1u8 << sh));
                        assert(j % 8 != i as int % 8);
                        assert((j % 8) as u8 != sh);
                        lemma_set_bit(b, sh, (j % 8) as u8);
                    } else {
                        assert(r@[j / 8] == old_r[j / 8]);
                    }
                }
                lemma_set_bit(b, sh, sh);
                assert(r@[i as int / 8] == b | (1u8 << sh));
                assert(spec_bit(r@, i as int) == true);
                assert forall|j: int| 0 <= j < i + 1 implies spec_bit(r@, j) == v@[j] by {
                    if j < i {
                        assert(spec_bit(r@, j) == spec_bit(old_r, j));
                    }
                }
                assert forall|j: int| i + 1 <= j < n implies spec_bit(r@, j) == false by {
                    assert(spec_bit(r@, j) == spec_bit(old_r, j));
                }
                assert forall|j: int| n <= j < 8 * nbytes implies spec_bit(r@, j) == false by {
                    assert(spec_bit(r@, j) == spec_bit(old_r, j));
                }
            }
        }
        i += 1;
    }
    proof {
        assert(spec_bits(r@) =~= spec_padded_bits(v@));
    }
    r
}

/// Reads `count` bits of a bitmap buffer starting at bit `start`.
pub fn unpack_bits(bm: &Vec<u8>, start: usize, count: usize) -> (r: Vec<bool>)
    requires
        start + count <= bm@.len() * 8,
        start + count <= usize::MAX,
    ensures
        r@.len() == count,
        forall|j: int| 0 <= j < count ==> r@[j] == spec_bit(bm@, start + j),
{
    let mut r: Vec<bool> = Vec::new();
    let mut i: usize = 0;
    while i < count
        invariant
            start + count <= bm@.len() * 8,
            start + count <= usize::MAX,
            i <= count,
            r@.len() == i,
            forall|j: int| 0 <= j < i ==> r@[j] == spec_bit(bm@, start + j),
        decreases count - i,
    {
        let b = get_bit(bm, start + i);
        r.push(b);
        i += 1;
    }
    r
}

/// How many entries of a validity sequence are clear: the array's null count.
pub open spec fn spec_null_count(v: Seq<bool>) -> int
    decreases v,
{
    if v.len() == 0 {
        0
    } else {
        (if v[0] {
            0int
        } else {
            1int
        }) + spec_null_count(v.drop_first())
    }
}

/// Counts the clear entries of a validity buffer from position `i` on.
pub fn null_count_from(v: &Vec<bool>, i: usize) -> (n: usize)
    requires
        i <= v.len(),
    ensures
        n == spec_null_count(v@.skip(i as int)),
        n <= v@.len() - i,
    decreases v@.len() - i,
{
    if i == v.len() {
        proof {
            assert(v@.skip(i as int) =~= Seq::<bool>::empty());
        }
        0
    } else {
        proof {
            assert(v@.skip(i as int)[0] == v@[i as int]);
            assert(v@.skip(i as int).drop_first() =~= v@.skip(i as int + 1));
        }
        let rest = null_count_from(v, i + 1);
        if v[i] {
            rest
        } else {
            rest + 1
        }
    }
}

/// Counts the nulls a validity buffer records.
pub fn null_count(v: &Vec<bool>) -> (n: usize)
    ensures
        n == spec_null_count(v@),
        n <= v@.len(),
{
    proof {
        assert(v@.skip(0) =~= v@);
    }
    null_count_from(v, 0)
}

} // verus!
