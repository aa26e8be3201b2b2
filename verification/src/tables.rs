//! Fixed lookup tables of the QR standard: error-correction block
//! structure, alignment-pattern coordinates, and the precomputed
//! BCH-protected format and version information words.
//!
//! Values follow ISO/IEC 18004, Table 9 (block structure), Annex E
//! (alignment patterns) and Annexes C/D (format and version information).

use vstd::prelude::*;
use crate::types::EcLevel;

verus! {

/// Number of error-correction codewords per block, for `v` in 1..=40 and
/// `ec` the level index (L=0, M=1, Q=2, H=3).
pub closed spec fn spec_ec_per_block(v: int, ec: int) -> int {
    let row =
    if v == 1 {
        (7int, 10int, 13int, 17int)
    } else if v == 2 {
        (10int, 16int, 22int, 28int)
    } else if v == 3 {
        (15int, 26int, 18int, 22int)
    } else if v == 4 {
        (20int, 18int, 26int, 16int)
    } else if v == 5 {
        (26int, 24int, 18int, 22int)
    } else if v == 6 {
        (18int, 16int, 24int, 28int)
    } else if v == 7 {
        (20int, 18int, 18int, 26int)
    } else if v == 8 {
        (24int, 22int, 22int, 26int)
    } else if v == 9 {
        (30int, 22int, 20int, 24int)
    } else if v == 10 {
        (18int, 26int, 24int, 28int)
    } else if v == 11 {
        (20int, 30int, 28int, 24int)
    } else if v == 12 {
        (24int, 22int, 26int, 28int)
    } else if v == 13 {
        (26int, 22int, 24int, 22int)
    } else if v == 14 {
        (30int, 24int, 20int, 24int)
    } else if v == 15 {
        (22int, 24int, 30int, 24int)
    } else if v == 16 {
        (24int, 28int, 24int, 30int)
    } else if v == 17 {
        (28int, 28int, 28int, 28int)
    } else if v == 18 {
        (30int, 26int, 28int, 28int)
    } else if v == 19 {
        (28int, 26int, 26int, 26int)
    } else if v == 20 {
        (28int, 26int, 30int, 28int)
    } else if v == 21 {
        (28int, 26int, 28int, 30int)
    } else if v == 22 {
        (28int, 28int, 30int, 24int)
    } else if v == 23 {
        (30int, 28int, 30int, 30int)
    } else if v == 24 {
        (30int, 28int, 30int, 30int)
    } else if v == 25 {
        (26int, 28int, 30int, 30int)
    } else if v == 26 {
        (28int, 28int, 28int, 30int)
    } else if v == 27 {
        (30int, 28int, 30int, 30int)
    } else if v == 28 {
        (30int, 28int, 30int, 30int)
    } else if v == 29 {
        (30int, 28int, 30int, 30int)
    } else if v == 30 {
        (30int, 28int, 30int, 30int)
    } else if v == 31 {
        (30int, 28int, 30int, 30int)
    } else if v == 32 {
        (30int, 28int, 30int, 30int)
    } else if v == 33 {
        (30int, 28int, 30int, 30int)
    } else if v == 34 {
        (30int, 28int, 30int, 30int)
    } else if v == 35 {
        (30int, 28int, 30int, 30int)
    } else if v == 36 {
        (30int, 28int, 30int, 30int)
    } else if v == 37 {
        (30int, 28int, 30int, 30int)
    } else if v == 38 {
        (30int, 28int, 30int, 30int)
    } else if v == 39 {
        (30int, 28int, 30int, 30int)
    } else if v == 40 {
        (30int, 28int, 30int, 30int)
    } else {
        (0int, 0int, 0int, 0int)
    };
    if ec == 0 { row.0 } else if ec == 1 { row.1 } else if ec == 2 { row.2 } else { row.3 }
}

/// Executable counterpart of `spec_ec_per_block`.
pub fn ec_per_block(v: u8, ec: EcLevel) -> (r: usize)
    requires 1 <= v <= 40,
    ensures
        r as int == spec_ec_per_block(v as int, ec.spec_index()),
        1 <= r <= 30,
{
    let row: (usize, usize, usize, usize) = match v {
        1 => (7, 10, 13, 17),
        2 => (10, 16, 22, 28),
        3 => (15, 26, 18, 22),
        4 => (20, 18, 26, 16),
        5 => (26, 24, 18, 22),
        6 => (18, 16, 24, 28),
        7 => (20, 18, 18, 26),
        8 => (24, 22, 22, 26),
        9 => (30, 22, 20, 24),
        10 => (18, 26, 24, 28),
        11 => (20, 30, 28, 24),
        12 => (24, 22, 26, 28),
        13 => (26, 22, 24, 22),
        14 => (30, 24, 20, 24),
        15 => (22, 24, 30, 24),
        16 => (24, 28, 24, 30),
        17 => (28, 28, 28, 28),
        18 => (30, 26, 28, 28),
        19 => (28, 26, 26, 26),
        20 => (28, 26, 30, 28),
        21 => (28, 26, 28, 30),
        22 => (28, 28, 30, 24),
        23 => (30, 28, 30, 30),
        24 => (30, 28, 30, 30),
        25 => (26, 28, 30, 30),
        26 => (28, 28, 28, 30),
        27 => (30, 28, 30, 30),
        28 => (30, 28, 30, 30),
        29 => (30, 28, 30, 30),
        30 => (30, 28, 30, 30),
        31 => (30, 28, 30, 30),
        32 => (30, 28, 30, 30),
        33 => (30, 28, 30, 30),
        34 => (30, 28, 30, 30),
        35 => (30, 28, 30, 30),
        36 => (30, 28, 30, 30),
        37 => (30, 28, 30, 30),
        38 => (30, 28, 30, 30),
        39 => (30, 28, 30, 30),
        40 => (30, 28, 30, 30),
        _ => (0, 0, 0, 0),
    };
    match ec {
        EcLevel::L => row.0,
        EcLevel::M => row.1,
        EcLevel::Q => row.2,
        EcLevel::H => row.3,
    }
}

/// Data-codeword block structure for `v` in 1..=40 and level index `ec`:
/// `(len1, count1, len2, count2)` means `count1` blocks of `len1` data
/// codewords followed by `count2` blocks of `len2` data codewords.
pub closed spec fn spec_block_structure(v: int, ec: int) -> (int, int, int, int) {
    if v == 1 {
        if ec == 0 { (19int, 1int, 0int, 0int) } else if ec == 1 { (16int, 1int, 0int, 0int) }
        else if ec == 2 { (13int, 1int, 0int, 0int) } else { (9int, 1int, 0int, 0int) }
    } else if v == 2 {
        if ec == 0 { (34int, 1int, 0int, 0int) } else if ec == 1 { (28int, 1int, 0int, 0int) }
        else if ec == 2 { (22int, 1int, 0int, 0int) } else { (16int, 1int, 0int, 0int) }
    } else if v == 3 {
        if ec == 0 { (55int, 1int, 0int, 0int) } else if ec == 1 { (44int, 1int, 0int, 0int) }
        else if ec == 2 { (17int, 2int, 0int, 0int) } else { (13int, 2int, 0int, 0int) }
    } else if v == 4 {
        if ec == 0 { (80int, 1int, 0int, 0int) } else if ec == 1 { (32int, 2int, 0int, 0int) }
        else if ec == 2 { (24int, 2int, 0int, 0int) } else { (9int, 4int, 0int, 0int) }
    } else if v == 5 {
        if ec == 0 { (108int, 1int, 0int, 0int) } else if ec == 1 { (43int, 2int, 0int, 0int) }
        else if ec == 2 { (15int, 2int, 16int, 2int) } else { (11int, 2int, 12int, 2int) }
    } else if v == 6 {
        if ec == 0 { (68int, 2int, 0int, 0int) } else if ec == 1 { (27int, 4int, 0int, 0int) }
        else if ec == 2 { (19int, 4int, 0int, 0int) } else { (15int, 4int, 0int, 0int) }
    } else if v == 7 {
        if ec == 0 { (78int, 2int, 0int, 0int) } else if ec == 1 { (31int, 4int, 0int, 0int) }
        else if ec == 2 { (14int, 2int, 15int, 4int) } else { (13int, 4int, 14int, 1int) }
    } else if v == 8 {
        if ec == 0 { (97int, 2int, 0int, 0int) } else if ec == 1 { (38int, 2int, 39int, 2int) }
        else if ec == 2 { (18int, 4int, 19int, 2int) } else { (14int, 4int, 15int, 2int) }
    } else if v == 9 {
        if ec == 0 { (116int, 2int, 0int, 0int) } else if ec == 1 { (36int, 3int, 37int, 2int) }
        else if ec == 2 { (16int, 4int, 17int, 4int) } else { (12int, 4int, 13int, 4int) }
    } else if v == 10 {
        if ec == 0 { (68int, 2int, 69int, 2int) } else if ec == 1 { (43int, 4int, 44int, 1int) }
        else if ec == 2 { (19int, 6int, 20int, 2int) } else { (15int, 6int, 16int, 2int) }
    } else if v == 11 {
        if ec == 0 { (81int, 4int, 0int, 0int) } else if ec == 1 { (50int, 1int, 51int, 4int) }
        else if ec == 2 { (22int, 4int, 23int, 4int) } else { (12int, 3int, 13int, 8int) }
    } else if v == 12 {
        if ec == 0 { (92int, 2int, 93int, 2int) } else if ec == 1 { (36int, 6int, 37int, 2int) }
        else if ec == 2 { (20int, 4int, 21int, 6int) } else { (14int, 7int, 15int, 4int) }
    } else if v == 13 {
        if ec == 0 { (107int, 4int, 0int, 0int) } else if ec == 1 { (37int, 8int, 38int, 1int) }
        else if ec == 2 { (20int, 8int, 21int, 4int) } else { (11int, 12int, 12int, 4int) }
    } else if v == 14 {
        if ec == 0 { (115int, 3int, 116int, 1int) } else if ec == 1 { (40int, 4int, 41int, 5int) }
        else if ec == 2 { (16int, 11int, 17int, 5int) } else { (12int, 11int, 13int, 5int) }
    } else if v == 15 {
        if ec == 0 { (87int, 5int, 88int, 1int) } else if ec == 1 { (41int, 5int, 42int, 5int) }
        else if ec == 2 { (24int, 5int, 25int, 7int) } else { (12int, 11int, 13int, 7int) }
    } else if v == 16 {
        if ec == 0 { (98int, 5int, 99int, 1int) } else if ec == 1 { (45int, 7int, 46int, 3int) }
        else if ec == 2 { (19int, 15int, 20int, 2int) } else { (15int, 3int, 16int, 13int) }
    } else if v == 17 {
        if ec == 0 { (107int, 1int, 108int, 5int) } else if ec == 1 { (46int, 10int, 47int, 1int) }
        else if ec == 2 { (22int, 1int, 23int, 15int) } else { (14int, 2int, 15int, 17int) }
    } else if v == 18 {
        if ec == 0 { (120int, 5int, 121int, 1int) } else if ec == 1 { (43int, 9int, 44int, 4int) }
        else if ec == 2 { (22int, 17int, 23int, 1int) } else { (14int, 2int, 15int, 19int) }
    } else if v == 19 {
        if ec == 0 { (113int, 3int, 114int, 4int) } else if ec == 1 { (44int, 3int, 45int, 11int) }
        else if ec == 2 { (21int, 17int, 22int, 4int) } else { (13int, 9int, 14int, 16int) }
    } else if v == 20 {
        if ec == 0 { (107int, 3int, 108int, 5int) } else if ec == 1 { (41int, 3int, 42int, 13int) }
        else if ec == 2 { (24int, 15int, 25int, 5int) } else { (15int, 15int, 16int, 10int) }
    } else if v == 21 {
        if ec == 0 { (116int, 4int, 117int, 4int) } else if ec == 1 { (42int, 17int, 0int, 0int) }
        else if ec == 2 { (22int, 17int, 23int, 6int) } else { (16int, 19int, 17int, 6int) }
    } else if v == 22 {
        if ec == 0 { (111int, 2int, 112int, 7int) } else if ec == 1 { (46int, 17int, 0int, 0int) }
        else if ec == 2 { (24int, 7int, 25int, 16int) } else { (13int, 34int, 0int, 0int) }
    } else if v == 23 {
        if ec == 0 { (121int, 4int, 122int, 5int) } else if ec == 1 { (47int, 4int, 48int, 14int) }
        else if ec == 2 { (24int, 11int, 25int, 14int) } else { (15int, 16int, 16int, 14int) }
    } else if v == 24 {
        if ec == 0 { (117int, 6int, 118int, 4int) } else if ec == 1 { (45int, 6int, 46int, 14int) }
        else if ec == 2 { (24int, 11int, 25int, 16int) } else { (16int, 30int, 17int, 2int) }
    } else if v == 25 {
        if ec == 0 { (106int, 8int, 107int, 4int) } else if ec == 1 { (47int, 8int, 48int, 13int) }
        else if ec == 2 { (24int, 7int, 25int, 22int) } else { (15int, 22int, 16int, 13int) }
    } else if v == 26 {
        if ec == 0 { (114int, 10int, 115int, 2int) } else if ec == 1 { (46int, 19int, 47int, 4int) }
        else if ec == 2 { (22int, 28int, 23int, 6int) } else { (16int, 33int, 17int, 4int) }
    } else if v == 27 {
        if ec == 0 { (122int, 8int, 123int, 4int) } else if ec == 1 { (45int, 22int, 46int, 3int) }
        else if ec == 2 { (23int, 8int, 24int, 26int) } else { (15int, 12int, 16int, 28int) }
    } else if v == 28 {
        if ec == 0 { (117int, 3int, 118int, 10int) } else if ec == 1 { (45int, 3int, 46int, 23int) }
        else if ec == 2 { (24int, 4int, 25int, 31int) } else { (15int, 11int, 16int, 31int) }
    } else if v == 29 {
        if ec == 0 { (116int, 7int, 117int, 7int) } else if ec == 1 { (45int, 21int, 46int, 7int) }
        else if ec == 2 { (23int, 1int, 24int, 37int) } else { (15int, 19int, 16int, 26int) }
    } else if v == 30 {
        if ec == 0 { (115int, 5int, 116int, 10int) } else if ec == 1 { (47int, 19int, 48int, 10int) }
        else if ec == 2 { (24int, 15int, 25int, 25int) } else { (15int, 23int, 16int, 25int) }
    } else if v == 31 {
        if ec == 0 { (115int, 13int, 116int, 3int) } else if ec == 1 { (46int, 2int, 47int, 29int) }
        else if ec == 2 { (24int, 42int, 25int, 1int) } else { (15int, 23int, 16int, 28int) }
    } else if v == 32 {
        if ec == 0 { (115int, 17int, 0int, 0int) } else if ec == 1 { (46int, 10int, 47int, 23int) }
        else if ec == 2 { (24int, 10int, 25int, 35int) } else { (15int, 19int, 16int, 35int) }
    } else if v == 33 {
        if ec == 0 { (115int, 17int, 116int, 1int) } else if ec == 1 { (46int, 14int, 47int, 21int) }
        else if ec == 2 { (24int, 29int, 25int, 19int) } else { (15int, 11int, 16int, 46int) }
    } else if v == 34 {
        if ec == 0 { (115int, 13int, 116int, 6int) } else if ec == 1 { (46int, 14int, 47int, 23int) }
        else if ec == 2 { (24int, 44int, 25int, 7int) } else { (16int, 59int, 17int, 1int) }
    } else if v == 35 {
        if ec == 0 { (121int, 12int, 122int, 7int) } else if ec == 1 { (47int, 12int, 48int, 26int) }
        else if ec == 2 { (24int, 39int, 25int, 14int) } else { (15int, 22int, 16int, 41int) }
    } else if v == 36 {
        if ec == 0 { (121int, 6int, 122int, 14int) } else if ec == 1 { (47int, 6int, 48int, 34int) }
        else if ec == 2 { (24int, 46int, 25int, 10int) } else { (15int, 2int, 16int, 64int) }
    } else if v == 37 {
        if ec == 0 { (122int, 17int, 123int, 4int) } else if ec == 1 { (46int, 29int, 47int, 14int) }
        else if ec == 2 { (24int, 49int, 25int, 10int) } else { (15int, 24int, 16int, 46int) }
    } else if v == 38 {
        if ec == 0 { (122int, 4int, 123int, 18int) } else if ec == 1 { (46int, 13int, 47int, 32int) }
        else if ec == 2 { (24int, 48int, 25int, 14int) } else { (15int, 42int, 16int, 32int) }
    } else if v == 39 {
        if ec == 0 { (117int, 20int, 118int, 4int) } else if ec == 1 { (47int, 40int, 48int, 7int) }
        else if ec == 2 { (24int, 43int, 25int, 22int) } else { (15int, 10int, 16int, 67int) }
    } else if v == 40 {
        if ec == 0 { (118int, 19int, 119int, 6int) } else if ec == 1 { (47int, 18int, 48int, 31int) }
        else if ec == 2 { (24int, 34int, 25int, 34int) } else { (15int, 20int, 16int, 61int) }
    } else {
        (0int, 0int, 0int, 0int)
    }
}

/// Executable counterpart of `spec_block_structure`.
pub fn block_structure(v: u8, ec: EcLevel) -> (r: (usize, usize, usize, usize))
    requires 1 <= v <= 40,
    ensures
        (r.0 as int, r.1 as int, r.2 as int, r.3 as int)
            == spec_block_structure(v as int, ec.spec_index()),
        r.0 <= 125 && r.1 <= 81 && r.2 <= 126 && r.3 <= 81,
        r.1 >= 1,
        r.3 == 0 || r.2 == r.0 + 1,
{
    let rows: ((usize, usize, usize, usize), (usize, usize, usize, usize),
        (usize, usize, usize, usize), (usize, usize, usize, usize)) = match v {
        1 => ((19, 1, 0, 0), (16, 1, 0, 0), (13, 1, 0, 0), (9, 1, 0, 0)),
        2 => ((34, 1, 0, 0), (28, 1, 0, 0), (22, 1, 0, 0), (16, 1, 0, 0)),
        3 => ((55, 1, 0, 0), (44, 1, 0, 0), (17, 2, 0, 0), (13, 2, 0, 0)),
        4 => ((80, 1, 0, 0), (32, 2, 0, 0), (24, 2, 0, 0), (9, 4, 0, 0)),
        5 => ((108, 1, 0, 0), (43, 2, 0, 0), (15, 2, 16, 2), (11, 2, 12, 2)),
        6 => ((68, 2, 0, 0), (27, 4, 0, 0), (19, 4, 0, 0), (15, 4, 0, 0)),
        7 => ((78, 2, 0, 0), (31, 4, 0, 0), (14, 2, 15, 4), (13, 4, 14, 1)),
        8 => ((97, 2, 0, 0), (38, 2, 39, 2), (18, 4, 19, 2), (14, 4, 15, 2)),
        9 => ((116, 2, 0, 0), (36, 3, 37, 2), (16, 4, 17, 4), (12, 4, 13, 4)),
        10 => ((68, 2, 69, 2), (43, 4, 44, 1), (19, 6, 20, 2), (15, 6, 16, 2)),
        11 => ((81, 4, 0, 0), (50, 1, 51, 4), (22, 4, 23, 4), (12, 3, 13, 8)),
        12 => ((92, 2, 93, 2), (36, 6, 37, 2), (20, 4, 21, 6), (14, 7, 15, 4)),
        13 => ((107, 4, 0, 0), (37, 8, 38, 1), (20, 8, 21, 4), (11, 12, 12, 4)),
        14 => ((115, 3, 116, 1), (40, 4, 41, 5), (16, 11, 17, 5), (12, 11, 13, 5)),
        15 => ((87, 5, 88, 1), (41, 5, 42, 5), (24, 5, 25, 7), (12, 11, 13, 7)),
        16 => ((98, 5, 99, 1), (45, 7, 46, 3), (19, 15, 20, 2), (15, 3, 16, 13)),
        17 => ((107, 1, 108, 5), (46, 10, 47, 1), (22, 1, 23, 15), (14, 2, 15, 17)),
        18 => ((120, 5, 121, 1), (43, 9, 44, 4), (22, 17, 23, 1), (14, 2, 15, 19)),
        19 => ((113, 3, 114, 4), (44, 3, 45, 11), (21, 17, 22, 4), (13, 9, 14, 16)),
        20 => ((107, 3, 108, 5), (41, 3, 42, 13), (24, 15, 25, 5), (15, 15, 16, 10)),
        21 => ((116, 4, 117, 4), (42, 17, 0, 0), (22, 17, 23, 6), (16, 19, 17, 6)),
        22 => ((111, 2, 112, 7), (46, 17, 0, 0), (24, 7, 25, 16), (13, 34, 0, 0)),
        23 => ((121, 4, 122, 5), (47, 4, 48, 14), (24, 11, 25, 14), (15, 16, 16, 14)),
        24 => ((117, 6, 118, 4), (45, 6, 46, 14), (24, 11, 25, 16), (16, 30, 17, 2)),
        25 => ((106, 8, 107, 4), (47, 8, 48, 13), (24, 7, 25, 22), (15, 22, 16, 13)),
        26 => ((114, 10, 115, 2), (46, 19, 47, 4), (22, 28, 23, 6), (16, 33, 17, 4)),
        27 => ((122, 8, 123, 4), (45, 22, 46, 3), (23, 8, 24, 26), (15, 12, 16, 28)),
        28 => ((117, 3, 118, 10), (45, 3, 46, 23), (24, 4, 25, 31), (15, 11, 16, 31)),
        29 => ((116, 7, 117, 7), (45, 21, 46, 7), (23, 1, 24, 37), (15, 19, 16, 26)),
        30 => ((115, 5, 116, 10), (47, 19, 48, 10), (24, 15, 25, 25), (15, 23, 16, 25)),
        31 => ((115, 13, 116, 3), (46, 2, 47, 29), (24, 42, 25, 1), (15, 23, 16, 28)),
        32 => ((115, 17, 0, 0), (46, 10, 47, 23), (24, 10, 25, 35), (15, 19, 16, 35)),
        33 => ((115, 17, 116, 1), (46, 14, 47, 21), (24, 29, 25, 19), (15, 11, 16, 46)),
        34 => ((115, 13, 116, 6), (46, 14, 47, 23), (24, 44, 25, 7), (16, 59, 17, 1)),
        35 => ((121, 12, 122, 7), (47, 12, 48, 26), (24, 39, 25, 14), (15, 22, 16, 41)),
        36 => ((121, 6, 122, 14), (47, 6, 48, 34), (24, 46, 25, 10), (15, 2, 16, 64)),
        37 => ((122, 17, 123, 4), (46, 29, 47, 14), (24, 49, 25, 10), (15, 24, 16, 46)),
        38 => ((122, 4, 123, 18), (46, 13, 47, 32), (24, 48, 25, 14), (15, 42, 16, 32)),
        39 => ((117, 20, 118, 4), (47, 40, 48, 7), (24, 43, 25, 22), (15, 10, 16, 67)),
        40 => ((118, 19, 119, 6), (47, 18, 48, 31), (24, 34, 25, 34), (15, 20, 16, 61)),
        _ => ((0, 0, 0, 0), (0, 0, 0, 0), (0, 0, 0, 0), (0, 0, 0, 0)),
    };
    match ec {
        EcLevel::L => rows.0,
        EcLevel::M => rows.1,
        EcLevel::Q => rows.2,
        EcLevel::H => rows.3,
    }
}

/// Number of data codewords available in version `v` at level `ec`.
pub open spec fn spec_data_codewords(v: int, ec: int) -> int {
    let (l1, c1, l2, c2) = spec_block_structure(v, ec);
    l1 * c1 + l2 * c2
}

/// Executable counterpart of `spec_data_codewords`.
pub fn data_codewords(v: u8, ec: EcLevel) -> (r: usize)
    requires 1 <= v <= 40,
    ensures
        r as int == spec_data_codewords(v as int, ec.spec_index()),
        1 <= r <= 2956,
{
    let (l1, c1, l2, c2) = block_structure(v, ec);
    assert(l1 * c1 + l2 * c2 == spec_data_codewords(v as int, ec.spec_index()));
    assert(1 <= spec_data_codewords(v as int, ec.spec_index()) <= 2956);
    l1 * c1 + l2 * c2
}

/// Center coordinates of the alignment patterns of version `v` (one axis;
/// the centers are all pairs drawn from this list, less the three that
/// would overlap a finder pattern).
pub closed spec fn spec_align_positions(v: int) -> Seq<int> {
    if v == 1 {
        Seq::<int>::empty()
    } else if v <= 6 {
        seq![6int, 4 * v + 10]
    } else if v == 7 {
        seq![6int, 22int, 38int]
    } else if v == 8 {
        seq![6int, 24int, 42int]
    } else if v == 9 {
        seq![6int, 26int, 46int]
    } else if v == 10 {
        seq![6int, 28int, 50int]
    } else if v == 11 {
        seq![6int, 30int, 54int]
    } else if v == 12 {
        seq![6int, 32int, 58int]
    } else if v == 13 {
        seq![6int, 34int, 62int]
    } else if v == 14 {
        seq![6int, 26int, 46int, 66int]
    } else if v == 15 {
        seq![6int, 26int, 48int, 70int]
    } else if v == 16 {
        seq![6int, 26int, 50int, 74int]
    } else if v == 17 {
        seq![6int, 30int, 54int, 78int]
    } else if v == 18 {
        seq![6int, 30int, 56int, 82int]
    } else if v == 19 {
        seq![6int, 30int, 58int, 86int]
    } else if v == 20 {
        seq![6int, 34int, 62int, 90int]
    } else if v == 21 {
        seq![6int, 28int, 50int, 72int, 94int]
    } else if v == 22 {
        seq![6int, 26int, 50int, 74int, 98int]
    } else if v == 23 {
        seq![6int, 30int, 54int, 78int, 102int]
    } else if v == 24 {
        seq![6int, 28int, 54int, 80int, 106int]
    } else if v == 25 {
        seq![6int, 32int, 58int, 84int, 110int]
    } else if v == 26 {
        seq![6int, 30int, 58int, 86int, 114int]
    } else if v == 27 {
        seq![6int, 34int, 62int, 90int, 118int]
    } else if v == 28 {
        seq![6int, 26int, 50int, 74int, 98int, 122int]
    } else if v == 29 {
        seq![6int, 30int, 54int, 78int, 102int, 126int]
    } else if v == 30 {
        seq![6int, 26int, 52int, 78int, 104int, 130int]
    } else if v == 31 {
        seq![6int, 30int, 56int, 82int, 108int, 134int]
    } else if v == 32 {
        seq![6int, 34int, 60int, 86int, 112int, 138int]
    } else if v == 33 {
        seq![6int, 30int, 58int, 86int, 114int, 142int]
    } else if v == 34 {
        seq![6int, 34int, 62int, 90int, 118int, 146int]
    } else if v == 35 {
        seq![6int, 30int, 54int, 78int, 102int, 126int, 150int]
    } else if v == 36 {
        seq![6int, 24int, 50int, 76int, 102int, 128int, 154int]
    } else if v == 37 {
        seq![6int, 28int, 54int, 80int, 106int, 132int, 158int]
    } else if v == 38 {
        seq![6int, 32int, 58int, 84int, 110int, 136int, 162int]
    } else if v == 39 {
        seq![6int, 26int, 54int, 82int, 110int, 138int, 166int]
    } else if v == 40 {
        seq![6int, 30int, 58int, 86int, 114int, 142int, 170int]
    } else {
        Seq::<int>::empty()
    }
}

/// Executable counterpart of `spec_align_positions`.
pub fn align_positions(v: u8) -> (r: Vec<usize>)
    requires 1 <= v <= 40,
    ensures
        r@.map_values(|x: usize| x as int) == spec_align_positions(v as int),
        forall|i: int| 0 <= i < r@.len() ==> 2 <= #[trigger] r@[i] <= 4 * v + 10,
{
    let mut out: Vec<usize> = Vec::new();
    if v == 1 {
        assert(out@.map_values(|x: usize| x as int) =~= spec_align_positions(v as int));
    } else if v <= 6 {
        out.push(6);
        out.push(4 * (v as usize) + 10);
        assert(out@.map_values(|x: usize| x as int) =~= spec_align_positions(v as int));
    } else if v == 7 {
        out.push(6);
        out.push(22);
        out.push(38);
        assert(out@.map_values(|x: usize| x as int) =~= spec_align_positions(v as int));
    } else if v == 8 {
        out.push(6);
        out.push(24);
        out.push(42);
        assert(out@.map_values(|x: usize| x as int) =~= spec_align_positions(v as int));
    } else if v == 9 {
        out.push(6);
        out.push(26);
        out.push(46);
        assert(out@.map_values(|x: usize| x as int) =~= spec_align_positions(v as int));
    } else if v == 10 {
        out.push(6);
        out.push(28);
        out.push(50);
        assert(out@.map_values(|x: usize| x as int) =~= spec_align_positions(v as int));
    } else if v == 11 {
        out.push(6);
        out.push(30);
        out.push(54);
        assert(out@.map_values(|x: usize| x as int) =~= spec_align_positions(v as int));
    } else if v == 12 {
        out.push(6);
        out.push(32);
        out.push(58);
        assert(out@.map_values(|x: usize| x as int) =~= spec_align_positions(v as int));
    } else if v == 13 {
        out.push(6);
        out.push(34);
        out.push(62);
        assert(out@.map_values(|x: usize| x as int) =~= spec_align_positions(v as int));
    } else if v == 14 {
        out.push(6);
        out.push(26);
        out.push(46);
        out.push(66);
        assert(out@.map_values(|x: usize| x as int) =~= spec_align_positions(v as int));
    } else if v == 15 {
        out.push(6);
        out.push(26);
        out.push(48);
        out.push(70);
        assert(out@.map_values(|x: usize| x as int) =~= spec_align_positions(v as int));
    } else if v == 16 {
        out.push(6);
        out.push(26);
        out.push(50);
        out.push(74);
        assert(out@.map_values(|x: usize| x as int) =~= spec_align_positions(v as int));
    } else if v == 17 {
        out.push(6);
        out.push(30);
        out.push(54);
        out.push(78);
        assert(out@.map_values(|x: usize| x as int) =~= spec_align_positions(v as int));
    } else if v == 18 {
        out.push(6);
        out.push(30);
        out.push(56);
        out.push(82);
        assert(out@.map_values(|x: usize| x as int) =~= spec_align_positions(v as int));
    } else if v == 19 {
        out.push(6);
        out.push(30);
        out.push(58);
        out.push(86);
        assert(out@.map_values(|x: usize| x as int) =~= spec_align_positions(v as int));
    } else if v == 20 {
        out.push(6);
        out.push(34);
        out.push(62);
        out.push(90);
        assert(out@.map_values(|x: usize| x as int) =~= spec_align_positions(v as int));
    } else if v == 21 {
        out.push(6);
        out.push(28);
        out.push(50);
        out.push(72);
        out.push(94);
        assert(out@.map_values(|x: usize| x as int) =~= spec_align_positions(v as int));
    } else if v == 22 {
        out.push(6);
        out.push(26);
        out.push(50);
        out.push(74);
        out.push(98);
        assert(out@.map_values(|x: usize| x as int) =~= spec_align_positions(v as int));
    } else if v == 23 {
        out.push(6);
        out.push(30);
        out.push(54);
        out.push(78);
        out.push(102);
        assert(out@.map_values(|x: usize| x as int) =~= spec_align_positions(v as int));
    } else if v == 24 {
        out.push(6);
        out.push(28);
        out.push(54);
        out.push(80);
        out.push(106);
        assert(out@.map_values(|x: usize| x as int) =~= spec_align_positions(v as int));
    } else if v == 25 {
        out.push(6);
        out.push(32);
        out.push(58);
        out.push(84);
        out.push(110);
        assert(out@.map_values(|x: usize| x as int) =~= spec_align_positions(v as int));
    } else if v == 26 {
        out.push(6);
        out.push(30);
        out.push(58);
        out.push(86);
        out.push(114);
        assert(out@.map_values(|x: usize| x as int) =~= spec_align_positions(v as int));
    } else if v == 27 {
        out.push(6);
        out.push(34);
        out.push(62);
        out.push(90);
        out.push(118);
        assert(out@.map_values(|x: usize| x as int) =~= spec_align_positions(v as int));
    } else if v == 28 {
        out.push(6);
        out.push(26);
        out.push(50);
        out.push(74);
        out.push(98);
        out.push(122);
        assert(out@.map_values(|x: usize| x as int) =~= spec_align_positions(v as int));
    } else if v == 29 {
        out.push(6);
        out.push(30);
        out.push(54);
        out.push(78);
        out.push(102);
        out.push(126);
        assert(out@.map_values(|x: usize| x as int) =~= spec_align_positions(v as int));
    } else if v == 30 {
        out.push(6);
        out.push(26);
        out.push(52);
        out.push(78);
        out.push(104);
        out.push(130);
        assert(out@.map_values(|x: usize| x as int) =~= spec_align_positions(v as int));
    } else if v == 31 {
        out.push(6);
        out.push(30);
        out.push(56);
        out.push(82);
        out.push(108);
        out.push(134);
        assert(out@.map_values(|x: usize| x as int) =~= spec_align_positions(v as int));
    } else if v == 32 {
        out.push(6);
        out.push(34);
        out.push(60);
        out.push(86);
        out.push(112);
        out.push(138);
        assert(out@.map_values(|x: usize| x as int) =~= spec_align_positions(v as int));
    } else if v == 33 {
        out.push(6);
        out.push(30);
        out.push(58);
        out.push(86);
        out.push(114);
        out.push(142);
        assert(out@.map_values(|x: usize| x as int) =~= spec_align_positions(v as int));
    } else if v == 34 {
        out.push(6);
        out.push(34);
        out.push(62);
        out.push(90);
        out.push(118);
        out.push(146);
        assert(out@.map_values(|x: usize| x as int) =~= spec_align_positions(v as int));
    } else if v == 35 {
        out.push(6);
        out.push(30);
        out.push(54);
        out.push(78);
        out.push(102);
        out.push(126);
        out.push(150);
        assert(out@.map_values(|x: usize| x as int) =~= spec_align_positions(v as int));
    } else if v == 36 {
        out.push(6);
        out.push(24);
        out.push(50);
        out.push(76);
        out.push(102);
        out.push(128);
        out.push(154);
        assert(out@.map_values(|x: usize| x as int) =~= spec_align_positions(v as int));
    } else if v == 37 {
        out.push(6);
        out.push(28);
        out.push(54);
        out.push(80);
        out.push(106);
        out.push(132);
        out.push(158);
        assert(out@.map_values(|x: usize| x as int) =~= spec_align_positions(v as int));
    } else if v == 38 {
        out.push(6);
        out.push(32);
        out.push(58);
        out.push(84);
        out.push(110);
        out.push(136);
        out.push(162);
        assert(out@.map_values(|x: usize| x as int) =~= spec_align_positions(v as int));
    } else if v == 39 {
        out.push(6);
        out.push(26);
        out.push(54);
        out.push(82);
        out.push(110);
        out.push(138);
        out.push(166);
        assert(out@.map_values(|x: usize| x as int) =~= spec_align_positions(v as int));
    } else if v == 40 {
        out.push(6);
        out.push(30);
        out.push(58);
        out.push(86);
        out.push(114);
        out.push(142);
        out.push(170);
        assert(out@.map_values(|x: usize| x as int) =~= spec_align_positions(v as int));
    }
    out
}

/// The 15-bit format information word (BCH(15,5)-protected, already XORed
/// with the standard mask 0x5412) for data value `d = ec_bits * 8 + mask`,
/// where the two format bits of the level are L=1, M=0, Q=3, H=2.
pub closed spec fn spec_format_info(d: int) -> int {
    if d == 0 {
        0x5412
    } else if d == 1 {
        0x5125
    } else if d == 2 {
        0x5e7c
    } else if d == 3 {
        0x5b4b
    } else if d == 4 {
        0x45f9
    } else if d == 5 {
        0x40ce
    } else if d == 6 {
        0x4f97
    } else if d == 7 {
        0x4aa0
    } else if d == 8 {
        0x77c4
    } else if d == 9 {
        0x72f3
    } else if d == 10 {
        0x7daa
    } else if d == 11 {
        0x789d
    } else if d == 12 {
        0x662f
    } else if d == 13 {
        0x6318
    } else if d == 14 {
        0x6c41
    } else if d == 15 {
        0x6976
    } else if d == 16 {
        0x1689
    } else if d == 17 {
        0x13be
    } else if d == 18 {
        0x1ce7
    } else if d == 19 {
        0x19d0
    } else if d == 20 {
        0x0762
    } else if d == 21 {
        0x0255
    } else if d == 22 {
        0x0d0c
    } else if d == 23 {
        0x083b
    } else if d == 24 {
        0x355f
    } else if d == 25 {
        0x3068
    } else if d == 26 {
        0x3f31
    } else if d == 27 {
        0x3a06
    } else if d == 28 {
        0x24b4
    } else if d == 29 {
        0x2183
    } else if d == 30 {
        0x2eda
    } else if d == 31 {
        0x2bed
    } else {
        0
    }
}

/// The two-bit code of the level inside the format information.
pub open spec fn spec_ec_format_bits(ec: int) -> int {
    if ec == 0 { 1 } else if ec == 1 { 0 } else if ec == 2 { 3 } else { 2 }
}

/// Executable counterpart of `spec_format_info` for a level and mask index.
pub fn format_info(ec: EcLevel, mask: u8) -> (r: u16)
    requires mask < 8,
    ensures
        r as int == spec_format_info(
            spec_ec_format_bits(ec.spec_index()) * 8 + mask as int),
        r < 0x8000,
{
    let ec_bits: u8 = match ec {
        EcLevel::L => 1,
        EcLevel::M => 0,
        EcLevel::Q => 3,
        EcLevel::H => 2,
    };
    let d: u8 = ec_bits * 8 + mask;
    match d {
        0 => 0x5412,
        1 => 0x5125,
        2 => 0x5e7c,
        3 => 0x5b4b,
        4 => 0x45f9,
        5 => 0x40ce,
        6 => 0x4f97,
        7 => 0x4aa0,
        8 => 0x77c4,
        9 => 0x72f3,
        10 => 0x7daa,
        11 => 0x789d,
        12 => 0x662f,
        13 => 0x6318,
        14 => 0x6c41,
        15 => 0x6976,
        16 => 0x1689,
        17 => 0x13be,
        18 => 0x1ce7,
        19 => 0x19d0,
        20 => 0x0762,
        21 => 0x0255,
        22 => 0x0d0c,
        23 => 0x083b,
        24 => 0x355f,
        25 => 0x3068,
        26 => 0x3f31,
        27 => 0x3a06,
        28 => 0x24b4,
        29 => 0x2183,
        30 => 0x2eda,
        31 => 0x2bed,
        _ => 0,
    }
}

/// The 18-bit version information word (BCH(18,6)-protected) of version
/// `v`, defined for `v` in 7..=40.
pub closed spec fn spec_version_info(v: int) -> int {
    if v == 7 {
        0x07c94
    } else if v == 8 {
        0x085bc
    } else if v == 9 {
        0x09a99
    } else if v == 10 {
        0x0a4d3
    } else if v == 11 {
        0x0bbf6
    } else if v == 12 {
        0x0c762
    } else if v == 13 {
        0x0d847
    } else if v == 14 {
        0x0e60d
    } else if v == 15 {
        0x0f928
    } else if v == 16 {
        0x10b78
    } else if v == 17 {
        0x1145d
    } else if v == 18 {
        0x12a17
    } else if v == 19 {
        0x13532
    } else if v == 20 {
        0x149a6
    } else if v == 21 {
        0x15683
    } else if v == 22 {
        0x168c9
    } else if v == 23 {
        0x177ec
    } else if v == 24 {
        0x18ec4
    } else if v == 25 {
        0x191e1
    } else if v == 26 {
        0x1afab
    } else if v == 27 {
        0x1b08e
    } else if v == 28 {
        0x1cc1a
    } else if v == 29 {
        0x1d33f
    } else if v == 30 {
        0x1ed75
    } else if v == 31 {
        0x1f250
    } else if v == 32 {
        0x209d5
    } else if v == 33 {
        0x216f0
    } else if v == 34 {
        0x228ba
    } else if v == 35 {
        0x2379f
    } else if v == 36 {
        0x24b0b
    } else if v == 37 {
        0x2542e
    } else if v == 38 {
        0x26a64
    } else if v == 39 {
        0x27541
    } else if v == 40 {
        0x28c69
    } else {
        0
    }
}

/// Executable counterpart of `spec_version_info`.
pub fn version_info(v: u8) -> (r: u32)
    requires 7 <= v <= 40,
    ensures
        r as int == spec_version_info(v as int),
        r < 0x40000,
{
    match v {
        7 => 0x07c94,
        8 => 0x085bc,
        9 => 0x09a99,
        10 => 0x0a4d3,
        11 => 0x0bbf6,
        12 => 0x0c762,
        13 => 0x0d847,
        14 => 0x0e60d,
        15 => 0x0f928,
        16 => 0x10b78,
        17 => 0x1145d,
        18 => 0x12a17,
        19 => 0x13532,
        20 => 0x149a6,
        21 => 0x15683,
        22 => 0x168c9,
        23 => 0x177ec,
        24 => 0x18ec4,
        25 => 0x191e1,
        26 => 0x1afab,
        27 => 0x1b08e,
        28 => 0x1cc1a,
        29 => 0x1d33f,
        30 => 0x1ed75,
        31 => 0x1f250,
        32 => 0x209d5,
        33 => 0x216f0,
        34 => 0x228ba,
        35 => 0x2379f,
        36 => 0x24b0b,
        37 => 0x2542e,
        38 => 0x26a64,
        39 => 0x27541,
        40 => 0x28c69,
        _ => 0,
    }
}

} // verus!
