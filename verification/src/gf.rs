//! Arithmetic in GF(256) with the QR standard's reduction polynomial
//! `x^8 + x^4 + x^3 + x^2 + 1` (0x11D), Reed-Solomon generator polynomials
//! and the Reed-Solomon remainder that forms the error-correction codewords.
//!
//! Polynomials are coefficient sequences with the highest degree first.

use vstd::prelude::*;

verus! {

/// Multiplication by `x` in GF(256): double, and reduce by 0x11D when the
/// top bit falls out.
pub open spec fn spec_xtime(a: u8) -> u8 {
    if a >= 0x80 {
        (a << 1) ^ 0x1d
    } else {
        a << 1
    }
}

/// Executable counterpart of `spec_xtime`.
pub fn xtime(a: u8) -> (r: u8)
    ensures
        r == spec_xtime(a),
{
    let d = a << 1u8;
    if a >= 0x80 {
        d ^ 0x1d
    } else {
        d
    }
}

/// The product of `a` and `b` in GF(256), peeling `b` bit by bit: addition is
/// XOR, and each set bit of `b` contributes a shifted copy of `a`.
pub open spec fn spec_gf_mul(a: u8, b: u8) -> u8
    decreases b,
    via spec_gf_mul_decreases
{
    if b == 0 {
        0
    } else {
        (if b & 1 == 1 {
            a
        } else {
            0
        }) ^ spec_gf_mul(spec_xtime(a), b >> 1)
    }
}

#[via_fn]
proof fn spec_gf_mul_decreases(a: u8, b: u8) {
    assert(b != 0 ==> b >> 1 < b) by (bit_vector);
}

/// Executable GF(256) multiplication.
pub fn gf_mul(a: u8, b: u8) -> (r: u8)
    ensures
        r == spec_gf_mul(a, b),
{
    let mut x = a;
    let mut y = b;
    let mut r: u8 = 0;
    proof {
        let z = spec_gf_mul(a, b);
        assert(0u8 ^ z == z) by (bit_vector);
    }
    while y != 0
        invariant
            spec_gf_mul(a, b) == r ^ spec_gf_mul(x, y),
        decreases y,
    {
        let ghost r0 = r;
        let ghost low: u8 = if y & 1 == 1 { x } else { 0u8 };
        if y & 1 == 1 {
            r = r ^ x;
        }
        proof {
            let s = spec_gf_mul(spec_xtime(x), y >> 1);
            assert(spec_gf_mul(x, y) == low ^ s);
            assert(r0 ^ (low ^ s) == (r0 ^ low) ^ s) by (bit_vector);
            assert(r0 ^ 0u8 == r0) by (bit_vector);
            assert(y >> 1 < y) by (bit_vector)
                requires y != 0;
        }
        x = xtime(x);
        y = y >> 1;
    }
    proof {
        assert(r ^ 0u8 == r) by (bit_vector);
    }
    r
}

/// Powers of the field generator 2: `alpha_pow(k)` is `2^k` in GF(256).
pub open spec fn spec_alpha_pow(k: nat) -> u8
    decreases k,
{
    if k == 0 {
        1
    } else {
        spec_xtime(spec_alpha_pow((k - 1) as nat))
    }
}

/// One multiplication step in building a generator polynomial: the product
/// of the monic polynomial `g` with `(x + a)`.
pub open spec fn spec_gen_step(g: Seq<u8>, a: u8) -> Seq<u8> {
    Seq::new(
        g.len() + 1,
        |i: int|
            (if i < g.len() {
                g[i]
            } else {
                0
            }) ^ (if i >= 1 {
                spec_gf_mul(a, g[i - 1])
            } else {
                0
            }),
    )
}

/// The Reed-Solomon generator polynomial with `n` error-correction
/// codewords: the product of `(x + 2^i)` for `i` in `0..n`, monic, highest
/// coefficient first, `n + 1` coefficients in all.
pub open spec fn spec_gen_poly(n: nat) -> Seq<u8>
    decreases n,
{
    if n == 0 {
        seq![1u8]
    } else {
        spec_gen_step(spec_gen_poly((n - 1) as nat), spec_alpha_pow((n - 1) as nat))
    }
}

/// Builds the Reed-Solomon generator polynomial with `n` error-correction
/// codewords.
pub fn gen_poly(n: usize) -> (r: Vec<u8>)
    requires
        n <= 30,
    ensures
        r@ == spec_gen_poly(n as nat),
        r@.len() == n + 1,
{
    let mut g: Vec<u8> = Vec::new();
    g.push(1);
    proof {
        assert(g@ =~= spec_gen_poly(0));
    }
    let mut apow: u8 = 1;
    let mut k: usize = 0;
    while k < n
        invariant
            k <= n <= 30,
            g@ == spec_gen_poly(k as nat),
            g@.len() == k + 1,
            apow == spec_alpha_pow(k as nat),
        decreases n - k,
    {
        let len = g.len();
        let mut h: Vec<u8> = Vec::new();
        let mut i: usize = 0;
        while i < len + 1
            invariant
                i <= len + 1,
                len == g@.len() <= 31,
                h@.len() == i,
                forall|m: int| 0 <= m < i ==> h@[m] == spec_gen_step(g@, apow)[m],
        decreases len + 1 - i,
        {
            let t1: u8 = if i < len { g[i] } else { 0 };
            let t2: u8 = if i >= 1 { gf_mul(apow, g[i - 1]) } else { 0 };
            h.push(t1 ^ t2);
            i = i + 1;
        }
        proof {
            assert(h@ =~= spec_gen_step(g@, apow));
        }
        g = h;
        apow = xtime(apow);
        k = k + 1;
    }
    g
}

/// One step of the Reed-Solomon synthetic division: the remainder after one
/// more data byte `d` has been fed in.
pub open spec fn spec_rs_step(rem: Seq<u8>, gen: Seq<u8>, d: u8) -> Seq<u8> {
    Seq::new(
        rem.len(),
        |j: int|
            (if j + 1 < rem.len() {
                rem[j + 1]
            } else {
                0
            }) ^ spec_gf_mul(gen[j + 1], d ^ rem[0]),
    )
}

/// The Reed-Solomon remainder register after feeding `data`, starting from
/// `rem`.
pub open spec fn spec_rs_from(rem: Seq<u8>, gen: Seq<u8>, data: Seq<u8>) -> Seq<u8>
    decreases data.len(),
{
    if data.len() == 0 {
        rem
    } else {
        spec_rs_from(spec_rs_step(rem, gen, data[0]), gen, data.subrange(1, data.len() as int))
    }
}

/// The `n` Reed-Solomon error-correction codewords of `data`, where `gen`
/// is the generator polynomial with `n + 1` coefficients: the remainder of
/// `data * x^n` divided by `gen`.
pub open spec fn spec_rs_remainder(data: Seq<u8>, gen: Seq<u8>) -> Seq<u8> {
    spec_rs_from(Seq::new((gen.len() - 1) as nat, |j: int| 0u8), gen, data)
}

/// Computes the Reed-Solomon error-correction codewords of `data`.
pub fn rs_remainder(data: &Vec<u8>, gen: &Vec<u8>) -> (r: Vec<u8>)
    requires
        2 <= gen@.len() <= 31,
    ensures
        r@ == spec_rs_remainder(data@, gen@),
        r@.len() == gen@.len() - 1,
{
    let n = gen.len() - 1;
    let mut rem: Vec<u8> = Vec::new();
    let mut z: usize = 0;
    while z < n
        invariant
            z <= n,
            rem@.len() == z,
            forall|m: int| 0 <= m < z ==> rem@[m] == 0u8,
        decreases n - z,
    {
        rem.push(0);
        z = z + 1;
    }
    proof {
        assert(rem@ =~= Seq::new((gen@.len() - 1) as nat, |j: int| 0u8));
        assert(data@.subrange(0, data@.len() as int) =~= data@);
    }
    let mut i: usize = 0;
    while i < data.len()
        invariant
            i <= data@.len(),
            n + 1 == gen@.len() <= 31,
            1 <= n,
            rem@.len() == n,
            spec_rs_remainder(data@, gen@) == spec_rs_from(rem@, gen@, data@.subrange(i as int, data@.len() as int)),
        decreases data@.len() - i,
    {
        let ghost tail = data@.subrange(i as int, data@.len() as int);
        let d = data[i];
        let f = d ^ rem[0];
        let mut next: Vec<u8> = Vec::new();
        let mut j: usize = 0;
        while j < n
            invariant
                j <= n,
                n + 1 == gen@.len(),
                rem@.len() == n,
                next@.len() == j,
                f == d ^ rem@[0],
                forall|m: int| 0 <= m < j ==> next@[m] == spec_rs_step(rem@, gen@, d)[m],
            decreases n - j,
        {
            let shifted: u8 = if j + 1 < n { rem[j + 1] } else { 0 };
            next.push(shifted ^ gf_mul(gen[j + 1], f));
            j = j + 1;
        }
        proof {
            assert(next@ =~= spec_rs_step(rem@, gen@, d));
            assert(tail[0] == d);
            assert(tail.subrange(1, tail.len() as int) =~= data@.subrange(i + 1, data@.len() as int));
        }
        rem = next;
        i = i + 1;
    }
    proof {
        assert(data@.subrange(data@.len() as int, data@.len() as int) =~= Seq::<u8>::empty());
    }
    rem
}

} // verus!
