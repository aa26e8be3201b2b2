//! Bit streams: big-endian bit views of integers, appending bit fields, and
//! packing a bit stream into codewords.

use vstd::prelude::*;

verus! {

/// Bit `k` of `val` (bit 0 is the least significant).
pub open spec fn spec_bit(val: u16, k: u16) -> bool {
    (val >> k) & 1 == 1
}

/// The low `n` bits of `val`, most significant first.
pub open spec fn spec_bits_be(val: u16, n: nat) -> Seq<bool> {
    Seq::new(n, |i: int| spec_bit(val, (n - 1 - i) as u16))
}

/// Appends the low `n` bits of `val` to `out`, most significant first.
pub fn append_bits(out: &mut Vec<bool>, val: u16, n: u16)
    requires
        n <= 16,
        old(out)@.len() + n <= usize::MAX,
    ensures
        final(out)@ == old(out)@ + spec_bits_be(val, n as nat),
{
    let ghost orig = out@;
    proof {
        assert(orig + spec_bits_be(val, n as nat).take(0) =~= orig);
    }
    let mut i: u16 = 0;
    while i < n
        invariant
            i <= n <= 16,
            out@ == orig + spec_bits_be(val, n as nat).take(i as int),
        decreases n - i,
    {
        let k: u16 = n - 1 - i;
        out.push((val >> k) & 1 == 1);
        proof {
            assert(spec_bits_be(val, n as nat).take(i + 1)
                =~= spec_bits_be(val, n as nat).take(i as int).push(spec_bit(val, (n - 1 - i) as u16)));
            assert(orig + spec_bits_be(val, n as nat).take(i + 1)
                =~= (orig + spec_bits_be(val, n as nat).take(i as int)).push(spec_bit(val, (n - 1 - i) as u16)));
        }
        i = i + 1;
    }
    proof {
        assert(spec_bits_be(val, n as nat).take(n as int) =~= spec_bits_be(val, n as nat));
        assert(orig + spec_bits_be(val, n as nat).take(n as int) =~= orig + spec_bits_be(val, n as nat));
    }
}

/// The value of a big-endian bit string, folded from the front:
/// `byte 10110000` reads as 0xB0.
pub open spec fn spec_val_of_bits(s: Seq<bool>) -> int
    decreases s.len(),
{
    if s.len() == 0 {
        0
    } else {
        spec_val_of_bits(s.drop_last()) * 2 + (if s.last() { 1int } else { 0int })
    }
}

/// The value of a bit string is bounded by two to its length.
pub proof fn lemma_val_of_bits_bound(s: Seq<bool>)
    ensures
        0 <= spec_val_of_bits(s) < vstd::arithmetic::power2::pow2(s.len()),
    decreases s.len(),
{
    vstd::arithmetic::power2::lemma_pow2_pos(s.len());
    if s.len() == 0 {
    } else {
        lemma_val_of_bits_bound(s.drop_last());
        vstd::arithmetic::power2::lemma_pow2_unfold(s.len());
    }
}

/// The codewords obtained by packing a byte-aligned bit stream, eight bits
/// per codeword, most significant bit first.
pub open spec fn spec_pack_bits(s: Seq<bool>) -> Seq<u8> {
    Seq::new((s.len() / 8) as nat, |k: int| spec_val_of_bits(s.subrange(8 * k, 8 * k + 8)) as u8)
}

/// Packs a byte-aligned bit stream into codewords.
pub fn pack_bits(s: &Vec<bool>) -> (r: Vec<u8>)
    requires
        s@.len() % 8 == 0,
    ensures
        r@ == spec_pack_bits(s@),
{
    let n = s.len() / 8;
    let mut out: Vec<u8> = Vec::new();
    let mut k: usize = 0;
    while k < n
        invariant
            k <= n,
            n == s@.len() / 8,
            s@.len() % 8 == 0,
            out@.len() == k,
            forall|m: int| 0 <= m < k ==> out@[m] == spec_pack_bits(s@)[m],
        decreases n - k,
    {
        let mut acc: u16 = 0;
        let mut j: usize = 0;
        assert(8 * k + 8 <= s@.len()) by {
            vstd::arithmetic::div_mod::lemma_fundamental_div_mod(s@.len() as int, 8);
        };
        while j < 8
            invariant
                j <= 8,
                k < n,
                8 * k + 8 <= s@.len(),
                acc as int == spec_val_of_bits(s@.subrange(8 * (k as int), 8 * (k as int) + j as int)),
                acc < 256,
            decreases 8 - j,
        {
            proof {
                let pre = s@.subrange(8 * (k as int), 8 * (k as int) + j as int);
                let post = s@.subrange(8 * (k as int), 8 * (k as int) + j + 1);
                assert(post.drop_last() =~= pre);
                assert(post.last() == s@[8 * (k as int) + j as int]);
            }
            acc = acc * 2 + (if s[8 * k + j] { 1 } else { 0 });
            proof {
                let post = s@.subrange(8 * (k as int), 8 * (k as int) + j + 1);
                lemma_val_of_bits_bound(post);
                vstd::arithmetic::power2::lemma2_to64();
            }
            j = j + 1;
        }
        out.push(acc as u8);
        k = k + 1;
    }
    proof {
        assert(out@ =~= spec_pack_bits(s@));
    }
    out
}

} // verus!
