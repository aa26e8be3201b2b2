//! Version selection, byte-mode data encoding, and error-correction coding:
//! the payload is framed into a bit stream, padded to the version's data
//! capacity, split into blocks, extended with Reed-Solomon codewords and
//! interleaved into the final codeword sequence.

use vstd::prelude::*;
use crate::bits::{append_bits, pack_bits, spec_bits_be, spec_pack_bits};
use crate::gf::{gen_poly, rs_remainder, spec_gen_poly, spec_rs_remainder};
use crate::tables::{
    block_structure, data_codewords, ec_per_block, spec_block_structure, spec_data_codewords,
    spec_ec_per_block,
};
use crate::types::{EcLevel, QrError};

verus! {

/// Width in bits of the character-count field for byte mode.
pub open spec fn spec_cci_bits(v: int) -> int {
    if v <= 9 {
        8
    } else {
        16
    }
}

/// Bits needed to frame an `n`-byte payload in version `v`: mode indicator,
/// character count and the payload itself (the terminator may be truncated).
pub open spec fn spec_needed_bits(n: int, v: int) -> int {
    4 + spec_cci_bits(v) + 8 * n
}

/// Whether an `n`-byte payload fits in version `v` at level `ec`.
pub open spec fn spec_fits(n: int, v: int, ec: int) -> bool {
    spec_needed_bits(n, v) <= 8 * spec_data_codewords(v, ec)
}

/// Executable counterpart of `spec_fits`.
pub fn fits(data_len: usize, v: u8, ec: EcLevel) -> (r: bool)
    requires
        1 <= v <= 40,
    ensures
        r == spec_fits(data_len as int, v as int, ec.spec_index()),
{
    let dc = data_codewords(v, ec);
    let cci: usize = if v <= 9 { 8 } else { 16 };
    if data_len <= 3000 {
        4 + cci + 8 * data_len <= 8 * dc
    } else {
        false
    }
}

/// The default minimum version when none is requested.
pub open spec fn spec_min_version(m: Option<u8>) -> int {
    match m {
        Option::None => 1,
        Option::Some(x) => x as int,
    }
}

/// Whether the requested minimum version is in the standard's range.
pub open spec fn spec_min_version_ok(m: Option<u8>) -> bool {
    match m {
        Option::None => true,
        Option::Some(x) => 1 <= x <= 40,
    }
}

/// Picks the smallest version at least the requested minimum whose byte-mode
/// capacity at level `ec` holds `data_len` bytes.
///
/// Returns `UnsupportedVersion` exactly when the requested minimum is outside
/// 1..=40, `DataTooLong` exactly when no version up to 40 suffices, and
/// otherwise the unique minimal fitting version: no version from the minimum
/// up to the result, the result excluded, has sufficient capacity.
pub fn select_version(data_len: usize, ec: EcLevel, min_version: Option<u8>) -> (r: Result<
    u8,
    QrError,
>)
    ensures
        match r {
            Ok(v) => {
                &&& spec_min_version_ok(min_version)
                &&& spec_min_version(min_version) <= v as int <= 40
                &&& spec_fits(data_len as int, v as int, ec.spec_index())
                &&& forall|w: int|
                    spec_min_version(min_version) <= w < v as int ==> !spec_fits(
                        data_len as int,
                        w,
                        ec.spec_index(),
                    )
            },
            Err(e) => if !spec_min_version_ok(min_version) {
                e == QrError::UnsupportedVersion
            } else {
                &&& e == QrError::DataTooLong
                &&& forall|w: int|
                    spec_min_version(min_version) <= w <= 40 ==> !spec_fits(
                        data_len as int,
                        w,
                        ec.spec_index(),
                    )
            },
        },
{
    let m0: u8 = match min_version {
        Option::None => 1,
        Option::Some(m) => {
            if m < 1 || m > 40 {
                return Err(QrError::UnsupportedVersion);
            }
            m
        },
    };
    let mut v: u8 = m0;
    while v <= 40
        invariant
            m0 <= v <= 41,
            forall|w: int|
                m0 <= w < v as int ==> !spec_fits(data_len as int, w, ec.spec_index()),
        decreases 41 - v,
    {
        if fits(data_len, v, ec) {
            return Ok(v);
        }
        v = v + 1;
    }
    Err(QrError::DataTooLong)
}

/// The payload bytes as a bit stream, each byte most significant bit first.
pub open spec fn spec_payload_bits(data: Seq<u8>) -> Seq<bool>
    decreases data.len(),
{
    if data.len() == 0 {
        Seq::empty()
    } else {
        spec_payload_bits(data.drop_last()) + spec_bits_be(data.last() as u16, 8)
    }
}

/// The payload bit stream has eight bits per byte.
pub proof fn lemma_payload_bits_len(data: Seq<u8>)
    ensures
        spec_payload_bits(data).len() == 8 * data.len(),
    decreases data.len(),
{
    if data.len() > 0 {
        lemma_payload_bits_len(data.drop_last());
    }
}

/// The bit stream of a byte sequence, each byte most significant bit first.
pub fn payload_bits(data: &Vec<u8>) -> (r: Vec<bool>)
    requires
        8 * data@.len() <= usize::MAX,
    ensures
        r@ == spec_payload_bits(data@),
{
    let mut bits: Vec<bool> = Vec::new();
    let n = data.len();
    proof {
        assert(bits@ + spec_payload_bits(data@.take(0)) =~= bits@);
        lemma_payload_bits_len(data@);
    }
    let mut i: usize = 0;
    while i < n
        invariant
            i <= n,
            bits@ == spec_payload_bits(data@.take(i as int)),
            bits@.len() == 8 * i,
        decreases n - i,
    {
        proof {
            lemma_payload_bits_len(data@.take(i as int));
        }
        append_bits(&mut bits, data[i] as u16, 8);
        proof {
            let pre = data@.take(i as int);
            let post = data@.take(i + 1);
            assert(post.drop_last() =~= pre);
            assert(post.last() == data@[i as int]);
            lemma_payload_bits_len(post);
        }
        i = i + 1;
    }
    proof {
        assert(data@.take(n as int) =~= data@);
    }
    bits
}

/// Mode indicator, character count and payload of a byte-mode message.
pub open spec fn spec_message_bits(data: Seq<u8>, v: int) -> Seq<bool> {
    spec_bits_be(4u16, 4) + spec_bits_be(data.len() as u16, spec_cci_bits(v) as nat)
        + spec_payload_bits(data)
}

/// A run of `n` zero bits.
pub open spec fn spec_zeros(n: nat) -> Seq<bool> {
    Seq::new(n, |i: int| false)
}

/// Length of the terminator: four zero bits, truncated at capacity.
pub open spec fn spec_term_len(msg_len: int, cap: int) -> int {
    if cap - msg_len >= 4 {
        4
    } else {
        cap - msg_len
    }
}

/// Zero bits needed to reach the next byte boundary from length `l`.
pub open spec fn spec_pad8(l: int) -> int {
    if l % 8 == 0 {
        0
    } else {
        8 - l % 8
    }
}

/// The message bit stream with terminator and byte-alignment padding.
pub open spec fn spec_padded_bits(data: Seq<u8>, v: int, ec: int) -> Seq<bool> {
    let msg = spec_message_bits(data, v);
    let t = spec_term_len(msg.len() as int, 8 * spec_data_codewords(v, ec));
    msg + spec_zeros(t as nat) + spec_zeros(spec_pad8(msg.len() + t) as nat)
}

/// A zero value has only zero bits.
proof fn lemma_zeros_bits(n: nat)
    ensures
        spec_bits_be(0u16, n) == spec_zeros(n),
{
    assert forall|i: int| 0 <= i < n implies !spec_bits_be(0u16, n)[i] by {
        let k = (n - 1 - i) as u16;
        assert((0u16 >> k) & 1 == 0) by (bit_vector);
    };
    assert(spec_bits_be(0u16, n) =~= spec_zeros(n));
}

/// The alternating pad codewords that fill unused data capacity.
pub open spec fn spec_pad_pattern(i: int) -> u8 {
    if i % 2 == 0 {
        0xec
    } else {
        0x11
    }
}

/// The data codewords of a byte-mode message: the packed, padded bit stream
/// followed by alternating pad codewords up to the version's capacity.
pub open spec fn spec_encode_data(data: Seq<u8>, v: int, ec: int) -> Seq<u8> {
    let cw = spec_pack_bits(spec_padded_bits(data, v, ec));
    cw + Seq::new(
        (spec_data_codewords(v, ec) - cw.len()) as nat,
        |i: int| spec_pad_pattern(i),
    )
}

/// Encodes `data` into the data codewords of version `v` at level `ec`:
/// byte-mode indicator, character count, payload, terminator, and padding up
/// to the version's exact data capacity. Fails with `DataTooLong` exactly
/// when the payload does not fit.
#[verifier::rlimit(100)]
pub fn encode(data: &Vec<u8>, v: u8, ec: EcLevel) -> (r: Result<Vec<u8>, QrError>)
    requires
        1 <= v <= 40,
    ensures
        match r {
            Ok(cw) => {
                &&& spec_fits(data@.len() as int, v as int, ec.spec_index())
                &&& cw@ == spec_encode_data(data@, v as int, ec.spec_index())
                &&& cw@.len() == spec_data_codewords(v as int, ec.spec_index())
            },
            Err(e) => {
                &&& e == QrError::DataTooLong
                &&& !spec_fits(data@.len() as int, v as int, ec.spec_index())
            },
        },
{
    let ghost gv = v as int;
    let ghost ge = ec.spec_index();
    if !fits(data.len(), v, ec) {
        return Err(QrError::DataTooLong);
    }
    let dc = data_codewords(v, ec);
    let cap_bits: usize = 8 * dc;
    let n = data.len();
    proof {
        lemma_payload_bits_len(data@);
    }
    assert(n <= 2954);

    let mut bits: Vec<bool> = Vec::new();
    append_bits(&mut bits, 4, 4);
    let cci: u16 = if v <= 9 { 8 } else { 16 };
    append_bits(&mut bits, n as u16, cci);
    let ghost header = bits@;
    proof {
        assert(header + spec_payload_bits(data@.take(0)) =~= header);
    }
    assert(bits@.len() <= 20);
    let mut i: usize = 0;
    while i < n
        invariant
            i <= n,
            bits@ == header + spec_payload_bits(data@.take(i as int)),
            bits@.len() <= 20 + 8 * i,
        decreases n - i,
    {
        proof {
            lemma_payload_bits_len(data@.take(i as int));
        }
        append_bits(&mut bits, data[i] as u16, 8);
        proof {
            lemma_payload_bits_len(data@.take(i + 1));
            let pre = data@.take(i as int);
            let post = data@.take(i + 1);
            assert(post.drop_last() =~= pre);
            assert(post.last() == data@[i as int]);
            assert(header + spec_payload_bits(post)
                =~= header + spec_payload_bits(pre) + spec_bits_be(data@[i as int] as u16, 8));
        }
        i = i + 1;
    }
    proof {
        assert(data@.take(n as int) =~= data@);
        assert(bits@ =~= spec_message_bits(data@, gv));
        lemma_payload_bits_len(data@);
    }
    assert(bits.len() == 4 + cci + 8 * n);
    assert(bits.len() <= cap_bits);

    // Terminator: four zero bits, truncated at capacity.
    let t: usize = if cap_bits - bits.len() >= 4 {
        4
    } else {
        cap_bits - bits.len()
    };
    let ghost msg = bits@;
    append_bits(&mut bits, 0, t as u16);
    proof {
        lemma_zeros_bits(t as nat);
    }

    // Pad with zero bits to the next byte boundary.
    let ghost lt = bits@.len() as int;
    let p: usize = if bits.len() % 8 == 0 {
        0
    } else {
        8 - bits.len() % 8
    };
    append_bits(&mut bits, 0, p as u16);
    proof {
        lemma_zeros_bits(p as nat);
        assert(bits@ =~= spec_padded_bits(data@, gv, ge));
        // The padded stream is byte aligned and never exceeds the capacity.
        vstd::arithmetic::div_mod::lemma_fundamental_div_mod(lt, 8);
        vstd::arithmetic::div_mod::lemma_mod_multiples_basic(dc as int, 8);
        assert(cap_bits as int % 8 == 0);
        if lt % 8 != 0 {
            vstd::arithmetic::div_mod::lemma_mod_multiples_basic(lt / 8 + 1, 8);
            assert(lt + p == (lt / 8 + 1) * 8);
            assert(bits@.len() % 8 == 0);
            vstd::arithmetic::div_mod::lemma_fundamental_div_mod(cap_bits as int, 8);
            vstd::arithmetic::div_mod::lemma_div_is_ordered(lt, cap_bits as int, 8);
            assert(lt / 8 != cap_bits as int / 8);
            assert(lt + p <= cap_bits);
        } else {
            vstd::arithmetic::div_mod::lemma_mod_multiples_basic(lt / 8, 8);
            assert(lt + p == (lt / 8) * 8);
            assert(bits@.len() % 8 == 0);
        }
    }

    let mut cw = pack_bits(&bits);
    proof {
        vstd::arithmetic::div_mod::lemma_div_is_ordered(bits@.len() as int, 8 * dc as int, 8);
        vstd::arithmetic::div_mod::lemma_div_multiples_vanish(dc as int, 8);
        assert(cw@.len() <= dc);
    }

    // Alternating pad codewords up to the capacity.
    let start = cw.len();
    let ghost packed = cw@;
    while cw.len() < dc
        invariant
            start <= cw@.len() <= dc,
            cw@ == packed + Seq::new((cw@.len() - start) as nat, |m: int| spec_pad_pattern(m)),
        decreases dc - cw@.len(),
    {
        let j = cw.len() - start;
        cw.push(if j % 2 == 0 { 0xec } else { 0x11 });
        proof {
            assert(packed + Seq::new((cw@.len() - start) as nat, |m: int| spec_pad_pattern(m))
                =~= (packed + Seq::new((cw@.len() - 1 - start) as nat, |m: int| spec_pad_pattern(m))).push(
                spec_pad_pattern(j as int)));
        }
    }
    proof {
        assert(cw@ =~= spec_encode_data(data@, gv, ge));
    }
    Ok(cw)
}

/// The first data codeword index of block `b` (group-one blocks first).
pub open spec fn spec_block_off(v: int, ec: int, b: int) -> int {
    let (l1, c1, l2, c2) = spec_block_structure(v, ec);
    if b < c1 {
        b * l1
    } else {
        c1 * l1 + (b - c1) * l2
    }
}

/// The number of data codewords of block `b`.
pub open spec fn spec_block_len(v: int, ec: int, b: int) -> int {
    let (l1, c1, l2, c2) = spec_block_structure(v, ec);
    if b < c1 {
        l1
    } else {
        l2
    }
}

/// The number of blocks of version `v` at level `ec`.
pub open spec fn spec_num_blocks(v: int, ec: int) -> int {
    let (l1, c1, l2, c2) = spec_block_structure(v, ec);
    c1 + c2
}

/// The data codewords of block `b`.
pub open spec fn spec_block_data(cw: Seq<u8>, v: int, ec: int, b: int) -> Seq<u8> {
    cw.subrange(spec_block_off(v, ec, b), spec_block_off(v, ec, b) + spec_block_len(v, ec, b))
}

/// The Reed-Solomon error-correction codewords of block `b`.
pub open spec fn spec_ec_block(cw: Seq<u8>, v: int, ec: int, b: int) -> Seq<u8> {
    spec_rs_remainder(spec_block_data(cw, v, ec, b), spec_gen_poly(spec_ec_per_block(v, ec) as nat))
}

/// Which data codeword stands at position `k` of the interleaved stream:
/// one codeword from each block in round-robin, the shorter group-one blocks
/// exhausted first.
pub open spec fn spec_data_pos(v: int, ec: int, k: int) -> int {
    let (l1, c1, l2, c2) = spec_block_structure(v, ec);
    let bt = c1 + c2;
    if k < l1 * bt {
        spec_block_off(v, ec, k % bt) + k / bt
    } else {
        spec_block_off(v, ec, c1 + (k - l1 * bt)) + l1
    }
}

/// The interleaved data codewords.
pub open spec fn spec_data_interleaved(cw: Seq<u8>, v: int, ec: int) -> Seq<u8> {
    Seq::new(spec_data_codewords(v, ec) as nat, |k: int| cw[spec_data_pos(v, ec, k)])
}

/// The interleaved error-correction codewords: one from each block in
/// round-robin.
pub open spec fn spec_ec_interleaved(cw: Seq<u8>, v: int, ec: int) -> Seq<u8> {
    let bt = spec_num_blocks(v, ec);
    Seq::new(
        (bt * spec_ec_per_block(v, ec)) as nat,
        |k: int| spec_ec_block(cw, v, ec, k % bt)[k / bt],
    )
}

/// The final codeword stream: interleaved data, then interleaved
/// error-correction codewords.
pub open spec fn spec_add_ec(cw: Seq<u8>, v: int, ec: int) -> Seq<u8> {
    spec_data_interleaved(cw, v, ec) + spec_ec_interleaved(cw, v, ec)
}

/// Total number of codewords (data and error correction) of version `v` at
/// level `ec`.
pub open spec fn spec_total_codewords(v: int, ec: int) -> int {
    spec_data_codewords(v, ec) + spec_num_blocks(v, ec) * spec_ec_per_block(v, ec)
}

/// Splits the data codewords into the standard's blocks, computes each
/// block's Reed-Solomon error-correction codewords, and interleaves both in
/// round-robin order into the final codeword stream.
#[verifier::rlimit(100)]
pub fn add_ec(cw: &Vec<u8>, v: u8, ec: EcLevel) -> (r: Vec<u8>)
    requires
        1 <= v <= 40,
        cw@.len() == spec_data_codewords(v as int, ec.spec_index()),
    ensures
        r@ == spec_add_ec(cw@, v as int, ec.spec_index()),
        r@.len() == spec_total_codewords(v as int, ec.spec_index()),
{
    let ghost gv = v as int;
    let ghost ge = ec.spec_index();
    let (l1, c1, l2, c2) = block_structure(v, ec);
    let bt = c1 + c2;
    let e = ec_per_block(v, ec);
    let dc = data_codewords(v, ec);
    let gen = gen_poly(e);
    proof {
        assert(l1 as int * bt as int <= 125 * 162) by (nonlinear_arith)
            requires 0 <= l1 as int <= 125, 0 <= bt as int <= 162,
        ;
        assert(0 <= l1 as int * bt as int) by (nonlinear_arith)
            requires 0 <= l1 as int, 0 <= bt as int,
        ;
        assert(c1 as int * l1 as int <= 81 * 125) by (nonlinear_arith)
            requires 0 <= c1 as int <= 81, 0 <= l1 as int <= 125,
        ;
        assert(0 <= c1 as int * l1 as int) by (nonlinear_arith)
            requires 0 <= c1 as int, 0 <= l1 as int,
        ;
        assert(bt as int * e as int <= 162 * 30) by (nonlinear_arith)
            requires 0 <= bt as int <= 162, 0 <= e as int <= 30,
        ;
        assert(0 <= bt as int * e as int) by (nonlinear_arith)
            requires 0 <= bt as int, 0 <= e as int,
        ;
    }

    assert(dc as int == l1 as int * c1 as int + l2 as int * c2 as int);
    let mut out: Vec<u8> = Vec::new();
    let mut k: usize = 0;
    while k < dc
        invariant
            k <= dc,
            out@.len() == k,
            forall|m: int| 0 <= m < k ==> out@[m] == spec_data_interleaved(cw@, gv, ge)[m],
        decreases dc - k,
    {
        let (b, j) = if k < l1 * bt {
            (k % bt, k / bt)
        } else {
            (c1 + (k - l1 * bt), l1)
        };
        proof {
            lemma_block_index_valid(l1 as int, c1 as int, l2 as int, c2 as int, k as int);
            assert(b as int * l1 as int <= 162 * 125) by (nonlinear_arith)
                requires 0 <= b as int <= 162, 0 <= l1 as int <= 125,
            ;
            assert(0 <= b as int * l1 as int) by (nonlinear_arith)
                requires 0 <= b as int, 0 <= l1 as int,
            ;
            assert(b as int >= c1 as int ==> 0 <= (b as int - c1 as int) * l2 as int <= 162 * 126)
                by (nonlinear_arith)
                requires 0 <= b as int <= 162, 0 <= l2 as int <= 126, 0 <= c1 as int,
            ;
        }
        let off = if b < c1 {
            b * l1
        } else {
            c1 * l1 + (b - c1) * l2
        };
        out.push(cw[off + j]);
        k = k + 1;
    }

    // Error-correction codewords for each block.
    let mut ecb: Vec<Vec<u8>> = Vec::new();
    let mut b: usize = 0;
    while b < bt
        invariant
            b <= bt,
            ecb@.len() == b,
            forall|m: int| 0 <= m < b ==> #[trigger] ecb@[m]@ == spec_ec_block(cw@, gv, ge, m),
            forall|m: int| 0 <= m < b ==> #[trigger] ecb@[m]@.len() == e,
        decreases bt - b,
    {
        proof {
            lemma_block_bounds(l1 as int, c1 as int, l2 as int, c2 as int, b as int);
            assert(b as int * l1 as int <= 162 * 125) by (nonlinear_arith)
                requires 0 <= b as int <= 162, 0 <= l1 as int <= 125,
            ;
            assert(0 <= b as int * l1 as int) by (nonlinear_arith)
                requires 0 <= b as int, 0 <= l1 as int,
            ;
            assert(b as int >= c1 as int ==> 0 <= (b as int - c1 as int) * l2 as int <= 162 * 126)
                by (nonlinear_arith)
                requires 0 <= b as int <= 162, 0 <= l2 as int <= 126, 0 <= c1 as int,
            ;
        }
        let off = if b < c1 {
            b * l1
        } else {
            c1 * l1 + (b - c1) * l2
        };
        let len = if b < c1 {
            l1
        } else {
            l2
        };
        let mut block: Vec<u8> = Vec::new();
        let mut j: usize = 0;
        while j < len
            invariant
                j <= len,
                off + len <= dc,
                block@.len() == j,
                forall|m: int| 0 <= m < j ==> block@[m] == cw@[off + m],
            decreases len - j,
        {
            block.push(cw[off + j]);
            j = j + 1;
        }
        proof {
            assert(block@ =~= spec_block_data(cw@, gv, ge, b as int));
        }
        ecb.push(rs_remainder(&block, &gen));
        b = b + 1;
    }

    // Interleave the error-correction codewords.
    let total = dc + bt * e;
    while k < total
        invariant
            dc <= k <= total,
            total == dc + bt * e,
            out@.len() == k,
            ecb@.len() == bt,
            forall|m: int| 0 <= m < bt ==> #[trigger] ecb@[m]@ == spec_ec_block(cw@, gv, ge, m),
            forall|m: int| 0 <= m < bt ==> #[trigger] ecb@[m]@.len() == e,
            forall|m: int| 0 <= m < dc ==> out@[m] == spec_data_interleaved(cw@, gv, ge)[m],
            forall|m: int|
                dc <= m < k ==> out@[m] == spec_ec_interleaved(cw@, gv, ge)[m - dc],
        decreases total - k,
    {
        let q = k - dc;
        let b2 = q % bt;
        let j2 = q / bt;
        proof {
            vstd::arithmetic::div_mod::lemma_fundamental_div_mod(q as int, bt as int);
            assert(j2 < e) by (nonlinear_arith)
                requires
                    q as int == bt as int * (j2 as int) + b2 as int,
                    0 <= b2 as int,
                    (b2 as int) < bt as int,
                    (q as int) < (bt as int) * (e as int),
                    bt as int > 0,
                    0 <= j2 as int,
            ;
        }
        out.push(ecb[b2][j2]);
        k = k + 1;
    }
    proof {
        assert(out@ =~= spec_add_ec(cw@, gv, ge));
    }
    out
}

/// Every block stands inside the data codewords.
proof fn lemma_block_bounds(l1: int, c1: int, l2: int, c2: int, b: int)
    requires
        0 <= l1,
        1 <= c1,
        0 <= l2,
        0 <= c2,
        c2 == 0 || l2 == l1 + 1,
        0 <= b < c1 + c2,
    ensures
        0 <= (if b < c1 { b * l1 } else { c1 * l1 + (b - c1) * l2 }),
        (if b < c1 { b * l1 } else { c1 * l1 + (b - c1) * l2 })
            + (if b < c1 { l1 } else { l2 }) <= l1 * c1 + l2 * c2,
{
    assert(l1 * c1 + l2 * c2 == c1 * l1 + c2 * l2) by (nonlinear_arith);
    if b < c1 {
        assert(b * l1 >= 0) by (nonlinear_arith)
            requires 0 <= b, 0 <= l1,
        ;
        assert(b * l1 + l1 <= c1 * l1) by (nonlinear_arith)
            requires b + 1 <= c1, 0 <= l1,
        ;
        assert(0 <= c2 * l2) by (nonlinear_arith)
            requires 0 <= c2, 0 <= l2,
        ;
    } else {
        assert((b - c1) * l2 >= 0) by (nonlinear_arith)
            requires b >= c1, 0 <= l2,
        ;
        assert(c1 * l1 >= 0) by (nonlinear_arith)
            requires 0 <= c1, 0 <= l1,
        ;
        assert((b - c1) * l2 + l2 <= c2 * l2) by (nonlinear_arith)
            requires b - c1 + 1 <= c2, 0 <= l2,
        ;
    }
}

/// The round-robin source of interleaved-data position `k` is a valid
/// codeword index, and matches `spec_data_pos`.
proof fn lemma_block_index_valid(l1: int, c1: int, l2: int, c2: int, k: int)
    requires
        0 <= l1,
        1 <= c1,
        0 <= l2,
        0 <= c2,
        c2 == 0 || l2 == l1 + 1,
        0 <= k < l1 * c1 + l2 * c2,
    ensures
        ({
            let bt = c1 + c2;
            let b = if k < l1 * bt { k % bt } else { c1 + (k - l1 * bt) };
            let j = if k < l1 * bt { k / bt } else { l1 };
            &&& 0 <= b < bt
            &&& 0 <= j < (if b < c1 { l1 } else { l2 })
            &&& (if b < c1 { b * l1 } else { c1 * l1 + (b - c1) * l2 }) + j < l1 * c1 + l2 * c2
        }),
{
    let bt = c1 + c2;
    assert(l1 * c1 + l2 * c2 == c1 * l1 + c2 * l2) by (nonlinear_arith);
    if k < l1 * bt {
        let b = k % bt;
        let j = k / bt;
        vstd::arithmetic::div_mod::lemma_fundamental_div_mod(k, bt);
        assert(0 <= b < bt);
        assert(j >= 0) by (nonlinear_arith)
            requires k == bt * j + b, 0 <= b < bt, k >= 0, bt > 0,
        ;
        assert(j < l1) by (nonlinear_arith)
            requires k == bt * j + b, 0 <= b < bt, k < l1 * bt, bt > 0, j >= 0,
        ;
        if b < c1 {
            assert(b * l1 + j < c1 * l1) by (nonlinear_arith)
                requires b + 1 <= c1, 0 <= l1, 0 <= j < l1, 0 <= b,
            ;
            assert(0 <= c2 * l2) by (nonlinear_arith)
                requires 0 <= c2, 0 <= l2,
            ;
        } else {
            assert(c2 > 0);
            assert((b - c1) * l2 + j < c2 * l2) by (nonlinear_arith)
                requires b - c1 + 1 <= c2, 0 <= l2, 0 <= j < l2, b >= c1,
            ;
            assert(c1 * l1 >= 0) by (nonlinear_arith)
                requires 0 <= c1, 0 <= l1,
            ;
        }
    } else {
        // Only the longer group-two blocks still have codewords left.
        assert(c1 * l1 + c2 * l2 == l1 * (c1 + c2) + c2 * (l2 - l1)) by (nonlinear_arith);
        if c2 == 0 {
            assert(false);
        }
        let b = c1 + (k - l1 * bt);
        assert(k - l1 * bt < c2) by (nonlinear_arith)
            requires k < c1 * l1 + c2 * l2, l2 == l1 + 1, bt == c1 + c2,
        ;
        assert((b - c1) * l2 + l1 < c2 * l2) by (nonlinear_arith)
            requires b - c1 + 1 <= c2, l2 == l1 + 1, 0 <= l1, b >= c1,
        ;
        assert(c1 * l1 >= 0) by (nonlinear_arith)
            requires 0 <= c1, 0 <= l1,
        ;
        assert(l1 * bt >= 0) by (nonlinear_arith)
            requires 0 <= l1, bt >= 1,
        ;
    }
}

} // verus!
