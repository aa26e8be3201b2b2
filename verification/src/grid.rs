//! The module grid: function patterns (finder, separator, timing, alignment,
//! version information, dark module), and the zig-zag placement of the
//! interleaved codeword bits into the remaining cells.
//!
//! Cells are addressed by `(row, col)`; the flat index is `row * size + col`.
//! `true` is a dark module.

use vstd::prelude::*;
use crate::codec::spec_payload_bits;
use crate::tables::{align_positions, spec_align_positions, spec_version_info, version_info};
use crate::types::QrError;

verus! {

/// Side length of a version-`v` symbol.
pub open spec fn spec_size(v: int) -> int {
    17 + 4 * v
}

/// Executable counterpart of `spec_size`.
pub fn grid_size(v: u8) -> (n: usize)
    requires
        1 <= v <= 40,
    ensures
        n as int == spec_size(v as int),
        21 <= n <= 177,
{
    17 + 4 * (v as usize)
}

/// A square module grid under construction or finished.
pub struct ModuleGrid {
    /// The version the grid was built for.
    pub version: u8,
    /// Side length in modules, `17 + 4 * version`.
    pub size: usize,
    /// Module colors, row-major; `true` is dark.
    pub cells: Vec<bool>,
    /// Which cells belong to function patterns (finder, separator, timing,
    /// alignment, format and version areas); these are never touched by data
    /// placement or masking.
    pub func: Vec<bool>,
}

impl ModuleGrid {
    /// Well-formedness: a square grid of the version's size.
    pub open spec fn wf(self) -> bool {
        &&& 1 <= self.version <= 40
        &&& self.size as int == spec_size(self.version as int)
        &&& self.cells@.len() == self.size * self.size
        &&& self.func@.len() == self.size * self.size
    }

    /// The color of cell `(r, c)`.
    pub open spec fn spec_cell(self, r: int, c: int) -> bool {
        self.cells@[r * spec_size(self.version as int) + c]
    }

    /// Reads the color of cell `(r, c)`; `true` is dark.
    pub fn cell(&self, r: usize, c: usize) -> (b: bool)
        requires
            self.wf(),
            r < self.size,
            c < self.size,
        ensures
            b == self.spec_cell(r as int, c as int),
    {
        proof {
            lemma_rc(self.size as int, r as int, c as int);
        }
        self.cells[r * self.size + c]
    }
}

/// Flat row-major indexing round trip.
pub proof fn lemma_rc(n: int, r: int, c: int)
    requires
        0 < n <= 400,
        0 <= r < n,
        0 <= c < n,
    ensures
        0 <= r * n + c < n * n,
        n * n <= 160000,
        (r * n + c) / n == r,
        (r * n + c) % n == c,
{
    vstd::arithmetic::div_mod::lemma_fundamental_div_mod_converse(r * n + c, n, r, c);
    assert(r * n + c < n * n) by (nonlinear_arith)
        requires 0 <= r, r + 1 <= n, 0 <= c < n,
    ;
    assert(0 <= r * n) by (nonlinear_arith)
        requires 0 <= r, 0 < n,
    ;
    assert(n * n <= 160000) by (nonlinear_arith)
        requires 0 < n <= 400,
    ;
}

/// Absolute value.
pub open spec fn abs_i(x: int) -> int {
    if x < 0 {
        -x
    } else {
        x
    }
}

/// Chebyshev distance from a pattern center.
pub open spec fn spec_cheb(dr: int, dc: int) -> int {
    if abs_i(dr) >= abs_i(dc) {
        abs_i(dr)
    } else {
        abs_i(dc)
    }
}

/// Color inside a finder pattern, relative to its center: dark center,
/// light ring, dark border.
pub open spec fn spec_finder_dark(dr: int, dc: int) -> bool {
    spec_cheb(dr, dc) != 2
}

/// Whether centers `i` (column axis) and `j` (row axis) of the alignment
/// list form a drawn pattern: the three combinations overlapping finder
/// patterns are skipped.
pub open spec fn spec_align_combo_ok(len: int, i: int, j: int) -> bool {
    &&& 0 <= i < len
    &&& 0 <= j < len
    &&& !(i == 0 && j == 0)
    &&& !(i == 0 && j == len - 1)
    &&& !(i == len - 1 && j == 0)
}

/// Whether `(r, c)` lies in the alignment pattern with center
/// `(row p[j], col p[i])`.
pub open spec fn spec_in_align_at(p: Seq<int>, i: int, j: int, r: int, c: int) -> bool {
    &&& spec_align_combo_ok(p.len() as int, i, j)
    &&& abs_i(r - p[j]) <= 2
    &&& abs_i(c - p[i]) <= 2
}

/// Whether `(r, c)` lies in some alignment pattern of version `v`.
pub open spec fn spec_in_align(v: int, r: int, c: int) -> bool {
    exists|i: int, j: int| spec_in_align_at(spec_align_positions(v), i, j, r, c)
}

/// Whether `(r, c)` is dark because of an alignment pattern: inside one,
/// anywhere but on its light middle ring.
pub open spec fn spec_align_dark(v: int, r: int, c: int) -> bool {
    exists|i: int, j: int|
        #[trigger] spec_in_align_at(spec_align_positions(v), i, j, r, c) && spec_cheb(
            r - spec_align_positions(v)[j],
            c - spec_align_positions(v)[i],
        ) != 1
}

/// Bit `k` of a version- or format-information word.
pub open spec fn spec_bit_of(val: u32, k: u32) -> bool {
    (val >> k) & 1 == 1
}

/// Whether `(r, c)` is a function-pattern cell of version `v`: finder
/// patterns with separators and format areas, timing lines, alignment
/// patterns, and the version-information blocks.
pub open spec fn spec_is_function(v: int, r: int, c: int) -> bool {
    let n = spec_size(v);
    ||| (r <= 8 && c <= 8)
    ||| (r <= 8 && c >= n - 8)
    ||| (r >= n - 8 && c <= 8)
    ||| r == 6
    ||| c == 6
    ||| spec_in_align(v, r, c)
    ||| (v >= 7 && c <= 5 && n - 11 <= r <= n - 9)
    ||| (v >= 7 && r <= 5 && n - 11 <= c <= n - 9)
}

/// The color of cell `(r, c)` before data placement: function patterns have
/// their fixed colors, format areas and data cells a light placeholder.
pub open spec fn spec_base_cell(v: int, r: int, c: int) -> bool {
    let n = spec_size(v);
    if r <= 6 && c <= 6 {
        spec_finder_dark(r - 3, c - 3)
    } else if r <= 6 && c >= n - 7 {
        spec_finder_dark(r - 3, c - (n - 4))
    } else if r >= n - 7 && c <= 6 {
        spec_finder_dark(r - (n - 4), c - 3)
    } else if r == n - 8 && c == 8 {
        true
    } else if spec_in_align(v, r, c) {
        spec_align_dark(v, r, c)
    } else if v >= 7 && c <= 5 && n - 11 <= r <= n - 9 {
        spec_bit_of(spec_version_info(v) as u32, (17 - ((5 - c) * 3 + (n - 9 - r))) as u32)
    } else if v >= 7 && r <= 5 && n - 11 <= c <= n - 9 {
        spec_bit_of(spec_version_info(v) as u32, (17 - ((5 - r) * 3 + (n - 9 - c))) as u32)
    } else if r == 6 {
        c % 2 == 0
    } else if c == 6 {
        r % 2 == 0
    } else {
        false
    }
}

/// The base grid of version `v` as a flat sequence.
pub open spec fn spec_base_cells(v: int) -> Seq<bool> {
    let n = spec_size(v);
    Seq::new((n * n) as nat, |i: int| spec_base_cell(v, i / n, i % n))
}

/// The function-pattern map of version `v` as a flat sequence.
pub open spec fn spec_func_cells(v: int) -> Seq<bool> {
    let n = spec_size(v);
    Seq::new((n * n) as nat, |i: int| spec_is_function(v, i / n, i % n))
}

/// Distance between two coordinates.
fn abs_diff(a: usize, b: usize) -> (d: usize)
    ensures
        d as int == abs_i(a - b),
{
    if a >= b {
        a - b
    } else {
        b - a
    }
}

/// Scans all alignment patterns of the version for one containing `(r, c)`:
/// returns whether one does, and whether the cell is dark under it.
fn align_probe(p: &Vec<usize>, ghost_v: Ghost<int>, r: usize, c: usize) -> (res: (bool, bool))
    requires
        p@.map_values(|x: usize| x as int) == spec_align_positions(ghost_v@),
    ensures
        res.0 == spec_in_align(ghost_v@, r as int, c as int),
        res.1 == spec_align_dark(ghost_v@, r as int, c as int),
{
    let ghost gp = spec_align_positions(ghost_v@);
    let len = p.len();
    let mut hit = false;
    let mut dark = false;
    let mut i: usize = 0;
    while i < len
        invariant
            i <= len,
            gp.len() == len,
            hit == exists|i0: int, j0: int|
                i0 < i as int && spec_in_align_at(gp, i0, j0, r as int, c as int),
            dark == exists|i0: int, j0: int|
                i0 < i as int && spec_in_align_at(gp, i0, j0, r as int, c as int)
                    && spec_cheb(r - gp[j0], c - gp[i0]) != 1,
        decreases len - i,
    {
        let mut j: usize = 0;
        while j < len
            invariant
                i < len,
                j <= len,
                gp.len() == len,
                hit == exists|i0: int, j0: int|
                    (i0 < i as int || (i0 == i as int && j0 < j as int)) && spec_in_align_at(
                        gp,
                        i0,
                        j0,
                        r as int,
                        c as int,
                    ),
                dark == exists|i0: int, j0: int|
                    (i0 < i as int || (i0 == i as int && j0 < j as int)) && spec_in_align_at(
                        gp,
                        i0,
                        j0,
                        r as int,
                        c as int,
                    ) && spec_cheb(r - gp[j0], c - gp[i0]) != 1,
            decreases len - j,
        {
            let combo_ok = !(i == 0 && j == 0) && !(i == 0 && j == len - 1) && !(i == len - 1 && j
                == 0);
            if combo_ok {
                let dr = abs_diff(r, p[j]);
                let dc = abs_diff(c, p[i]);
                if dr <= 2 && dc <= 2 {
                    proof {
                        assert(gp[j as int] == p@[j as int] as int);
                        assert(gp[i as int] == p@[i as int] as int);
                        assert(spec_in_align_at(gp, i as int, j as int, r as int, c as int));
                    }
                    hit = true;
                    let cheb = if dr >= dc {
                        dr
                    } else {
                        dc
                    };
                    if cheb != 1 {
                        dark = true;
                    }
                }
            }
            proof {
                assert(gp[j as int] == p@[j as int] as int);
                assert(gp[i as int] == p@[i as int] as int);
            }
            j = j + 1;
        }
        i = i + 1;
    }
    (hit, dark)
}

/// Computes whether `(r, c)` is a function cell and its base color.
fn classify_cell(v: u8, n: usize, p: &Vec<usize>, vinfo: u32, r: usize, c: usize) -> (res: (
    bool,
    bool,
))
    requires
        1 <= v <= 40,
        n as int == spec_size(v as int),
        p@.map_values(|x: usize| x as int) == spec_align_positions(v as int),
        v >= 7 ==> vinfo as int == spec_version_info(v as int),
        r < n,
        c < n,
    ensures
        res.0 == spec_is_function(v as int, r as int, c as int),
        res.1 == spec_base_cell(v as int, r as int, c as int),
{
    let (in_align, align_dark) = align_probe(p, Ghost(v as int), r, c);
    let is_func = (r <= 8 && c <= 8) || (r <= 8 && c >= n - 8) || (r >= n - 8 && c <= 8) || r == 6
        || c == 6 || in_align || (v >= 7 && c <= 5 && n - 11 <= r && r <= n - 9) || (v >= 7 && r
        <= 5 && n - 11 <= c && c <= n - 9);
    let color = if r <= 6 && c <= 6 {
        let dr = abs_diff(r, 3);
        let dc = abs_diff(c, 3);
        (if dr >= dc { dr } else { dc }) != 2
    } else if r <= 6 && c >= n - 7 {
        let dr = abs_diff(r, 3);
        let dc = abs_diff(c, n - 4);
        (if dr >= dc { dr } else { dc }) != 2
    } else if r >= n - 7 && c <= 6 {
        let dr = abs_diff(r, n - 4);
        let dc = abs_diff(c, 3);
        (if dr >= dc { dr } else { dc }) != 2
    } else if r == n - 8 && c == 8 {
        true
    } else if in_align {
        align_dark
    } else if v >= 7 && c <= 5 && n - 11 <= r && r <= n - 9 {
        let k = 17 - ((5 - c) * 3 + (n - 9 - r));
        (vinfo >> (k as u32)) & 1 == 1
    } else if v >= 7 && r <= 5 && n - 11 <= c && c <= n - 9 {
        let k = 17 - ((5 - r) * 3 + (n - 9 - c));
        (vinfo >> (k as u32)) & 1 == 1
    } else if r == 6 {
        c % 2 == 0
    } else if c == 6 {
        r % 2 == 0
    } else {
        false
    };
    (is_func, color)
}

/// Builds the base grid of version `v`: all function patterns placed, every
/// mask-eligible cell light, and the function-pattern map filled in.
pub fn build_base(v: u8) -> (g: ModuleGrid)
    requires
        1 <= v <= 40,
    ensures
        g.wf(),
        g.version == v,
        g.cells@ == spec_base_cells(v as int),
        g.func@ == spec_func_cells(v as int),
{
    let n = grid_size(v);
    let p = align_positions(v);
    let vinfo: u32 = if v >= 7 {
        version_info(v)
    } else {
        0
    };
    let mut cells: Vec<bool> = Vec::new();
    let mut func: Vec<bool> = Vec::new();
    let mut r: usize = 0;
    while r < n
        invariant
            r <= n,
            cells@.len() == r * n,
            func@.len() == r * n,
            forall|m: int|
                0 <= m < r * n ==> cells@[m] == spec_base_cell(v as int, m / n as int, m % n as int),
            forall|m: int|
                0 <= m < r * n ==> func@[m] == spec_is_function(v as int, m / n as int, m % n as int),
        decreases n - r,
    {
        let mut c: usize = 0;
        while c < n
            invariant
                r < n,
                c <= n,
                cells@.len() == r * n + c,
                func@.len() == r * n + c,
                forall|m: int|
                    0 <= m < r * n + c ==> cells@[m] == spec_base_cell(
                        v as int,
                        m / n as int,
                        m % n as int,
                    ),
                forall|m: int|
                    0 <= m < r * n + c ==> func@[m] == spec_is_function(
                        v as int,
                        m / n as int,
                        m % n as int,
                    ),
            decreases n - c,
        {
            let (is_func, color) = classify_cell(v, n, &p, vinfo, r, c);
            proof {
                lemma_rc(n as int, r as int, c as int);
            }
            cells.push(color);
            func.push(is_func);
            c = c + 1;
        }
        proof {
            assert((r + 1) * (n as int) == r * (n as int) + n) by (nonlinear_arith);
        }
        r = r + 1;
    }
    proof {
        assert(n * n == (n as int) * (n as int));
        assert(cells@ =~= spec_base_cells(v as int));
        assert(func@ =~= spec_func_cells(v as int));
    }
    ModuleGrid { version: v, size: n, cells, func }
}

/// The candidate cells of one column pair from row step `i` on, in traversal
/// order: right cell then left cell of each row, function cells skipped.
pub open spec fn spec_pair_from(v: int, col: int, up: bool, i: int) -> Seq<(int, int)>
    decreases spec_size(v) - i,
{
    let n = spec_size(v);
    if i < 0 || i >= n {
        Seq::empty()
    } else {
        let row = if up {
            n - 1 - i
        } else {
            i
        };
        (if !spec_is_function(v, row, col) {
            seq![(row, col)]
        } else {
            Seq::empty()
        }) + (if !spec_is_function(v, row, col - 1) {
            seq![(row, col - 1)]
        } else {
            Seq::empty()
        }) + spec_pair_from(v, col, up, i + 1)
    }
}

/// The data-cell coordinates from column pair `col` (its right column)
/// leftwards, alternating direction; the vertical timing column is skipped.
pub open spec fn spec_cols_from(v: int, col: int, up: bool) -> Seq<(int, int)>
    decreases col + 1,
{
    if col < 1 {
        Seq::empty()
    } else {
        let c2 = if col == 6 {
            5int
        } else {
            col
        };
        spec_pair_from(v, c2, up, 0) + spec_cols_from(v, c2 - 2, !up)
    }
}

/// All data-cell coordinates of version `v` in placement order: column pairs
/// from the right edge leftwards, zig-zag.
pub open spec fn spec_data_coords(v: int) -> Seq<(int, int)> {
    spec_cols_from(v, spec_size(v) - 1, true)
}

/// Computes the data-cell coordinates of the grid's version in placement
/// order.
pub fn data_coords(g: &ModuleGrid) -> (coords: Vec<(usize, usize)>)
    requires
        g.wf(),
        g.func@ == spec_func_cells(g.version as int),
    ensures
        coords@.map_values(|t: (usize, usize)| (t.0 as int, t.1 as int)) == spec_data_coords(
            g.version as int,
        ),
        forall|m: int|
            0 <= m < coords@.len() ==> (#[trigger] coords@[m]).0 < g.size && coords@[m].1 < g.size,
{
    let ghost gv = g.version as int;
    let n = g.size;
    let mut coords: Vec<(usize, usize)> = Vec::new();
    let ghost mapper = |t: (usize, usize)| (t.0 as int, t.1 as int);
    proof {
        assert(coords@.map_values(mapper) + spec_cols_from(gv, n - 1, true) =~= spec_data_coords(
            gv,
        ));
    }
    let mut col: isize = (n - 1) as isize;
    let mut up = true;
    while col >= 1
        invariant
            g.wf(),
            n == g.size,
            col <= n - 1,
            spec_data_coords(gv) == coords@.map_values(mapper) + spec_cols_from(
                gv,
                col as int,
                up,
            ),
            forall|m: int|
                0 <= m < coords@.len() ==> (#[trigger] coords@[m]).0 < n && coords@[m].1 < n,
        decreases col + 1,
    {
        let c2: usize = if col == 6 {
            5
        } else {
            col as usize
        };
        let mut i: usize = 0;
        while i < n
            invariant
                g.wf(),
                n == g.size,
                i <= n,
                1 <= c2 <= n - 1,
                spec_data_coords(gv) == coords@.map_values(mapper) + spec_pair_from(
                    gv,
                    c2 as int,
                    up,
                    i as int,
                ) + spec_cols_from(gv, c2 as int - 2, !up),
                forall|m: int|
                    0 <= m < coords@.len() ==> (#[trigger] coords@[m]).0 < n && coords@[m].1 < n,
            decreases n - i,
        {
            let row: usize = if up {
                n - 1 - i
            } else {
                i
            };
            let ghost pre = coords@;
            proof {
                lemma_rc(n as int, row as int, c2 as int);
                lemma_rc(n as int, row as int, c2 as int - 1);
            }
            if !g.func[row * n + c2] {
                coords.push((row, c2));
            }
            if !g.func[row * n + (c2 - 1)] {
                coords.push((row, c2 - 1));
            }
            proof {
                assert(coords@.map_values(mapper) =~= pre.map_values(mapper) + (if !spec_is_function(
                    gv,
                    row as int,
                    c2 as int,
                ) {
                    seq![(row as int, c2 as int)]
                } else {
                    Seq::empty()
                }) + (if !spec_is_function(gv, row as int, c2 as int - 1) {
                    seq![(row as int, c2 as int - 1)]
                } else {
                    Seq::empty()
                }));
                assert(coords@.map_values(mapper) + spec_pair_from(gv, c2 as int, up, i + 1)
                    + spec_cols_from(gv, c2 as int - 2, !up) =~= pre.map_values(mapper)
                    + spec_pair_from(gv, c2 as int, up, i as int) + spec_cols_from(
                    gv,
                    c2 as int - 2,
                    !up,
                ));
            }
            i = i + 1;
        }
        col = (c2 as isize) - 2;
        up = !up;
    }
    proof {
        assert(coords@.map_values(mapper) + spec_cols_from(gv, col as int, up) =~= coords@
            .map_values(mapper));
    }
    coords
}

/// Every coordinate of one column pair's traversal is a non-function cell.
proof fn lemma_pair_from_non_function(v: int, col: int, up: bool, i: int)
    ensures
        forall|k: int|
            0 <= k < spec_pair_from(v, col, up, i).len() ==> !spec_is_function(
                v,
                (#[trigger] spec_pair_from(v, col, up, i)[k]).0,
                spec_pair_from(v, col, up, i)[k].1,
            ),
    decreases spec_size(v) - i,
{
    let n = spec_size(v);
    if i < 0 || i >= n {
    } else {
        lemma_pair_from_non_function(v, col, up, i + 1);
        let row = if up {
            n - 1 - i
        } else {
            i
        };
        let a = if !spec_is_function(v, row, col) {
            seq![(row, col)]
        } else {
            Seq::empty()
        };
        let b = if !spec_is_function(v, row, col - 1) {
            seq![(row, col - 1)]
        } else {
            Seq::empty()
        };
        let rest = spec_pair_from(v, col, up, i + 1);
        let s = spec_pair_from(v, col, up, i);
        assert(s == a + b + rest);
        assert forall|k: int| 0 <= k < s.len() implies !spec_is_function(
            v,
            (#[trigger] s[k]).0,
            s[k].1,
        ) by {
            if k >= a.len() + b.len() {
                assert(s[k] == rest[k - a.len() - b.len()]);
            } else if k >= a.len() {
                assert(s[k] == b[k - a.len()]);
            } else {
                assert(s[k] == a[k]);
            }
        };
    }
}

/// Every coordinate from column pair `col` leftwards is a non-function cell.
proof fn lemma_cols_from_non_function(v: int, col: int, up: bool)
    ensures
        forall|k: int|
            0 <= k < spec_cols_from(v, col, up).len() ==> !spec_is_function(
                v,
                (#[trigger] spec_cols_from(v, col, up)[k]).0,
                spec_cols_from(v, col, up)[k].1,
            ),
    decreases col + 1,
{
    if col < 1 {
    } else {
        let c2 = if col == 6 {
            5int
        } else {
            col
        };
        lemma_pair_from_non_function(v, c2, up, 0);
        lemma_cols_from_non_function(v, c2 - 2, !up);
        let a = spec_pair_from(v, c2, up, 0);
        let rest = spec_cols_from(v, c2 - 2, !up);
        let s = spec_cols_from(v, col, up);
        assert(s == a + rest);
        assert forall|k: int| 0 <= k < s.len() implies !spec_is_function(
            v,
            (#[trigger] s[k]).0,
            s[k].1,
        ) by {
            if k >= a.len() {
                assert(s[k] == rest[k - a.len()]);
            } else {
                assert(s[k] == a[k]);
            }
        };
    }
}

/// Data placement never touches a function-pattern cell: every coordinate
/// of the zig-zag traversal lies outside the function patterns.
pub proof fn lemma_data_coords_non_function(v: int)
    ensures
        forall|k: int|
            0 <= k < spec_data_coords(v).len() ==> !spec_is_function(
                v,
                (#[trigger] spec_data_coords(v)[k]).0,
                spec_data_coords(v)[k].1,
            ),
{
    lemma_cols_from_non_function(v, spec_size(v) - 1, true);
}

/// A sequence updated by a list of `(index, value)` writes, in order.
pub open spec fn spec_apply_writes(cells: Seq<bool>, w: Seq<(int, bool)>) -> Seq<bool>
    decreases w.len(),
{
    if w.len() == 0 {
        cells
    } else {
        spec_apply_writes(cells, w.drop_last()).update(w.last().0, w.last().1)
    }
}

/// Applies a list of `(index, value)` writes to the grid's cells.
pub fn apply_writes(cells: &mut Vec<bool>, w: &Vec<(usize, bool)>)
    requires
        forall|m: int| 0 <= m < w@.len() ==> (#[trigger] w@[m]).0 < old(cells)@.len(),
    ensures
        final(cells)@ == spec_apply_writes(
            old(cells)@,
            w@.map_values(|t: (usize, bool)| (t.0 as int, t.1)),
        ),
        final(cells)@.len() == old(cells)@.len(),
{
    let ghost orig = cells@;
    let ghost mapper = |t: (usize, bool)| (t.0 as int, t.1);
    let mut k: usize = 0;
    while k < w.len()
        invariant
            k <= w@.len(),
            cells@ == spec_apply_writes(orig, w@.map_values(mapper).take(k as int)),
            cells@.len() == orig.len(),
        decreases w@.len() - k,
    {
        let (idx, val) = w[k];
        cells[idx] = val;
        proof {
            let mw = w@.map_values(mapper);
            assert(mw.take(k + 1).drop_last() =~= mw.take(k as int));
            assert(mw.take(k + 1).last() == mw[k as int]);
        }
        k = k + 1;
    }
    proof {
        assert(w@.map_values(mapper).take(w@.len() as int) =~= w@.map_values(mapper));
    }
}

/// The placement writes for a codeword stream: coordinate `k` of the zig-zag
/// order receives bit `k` of the stream, and any leftover remainder cells a
/// light module.
pub open spec fn spec_place_writes(cw: Seq<u8>, v: int) -> Seq<(int, bool)> {
    let coords = spec_data_coords(v);
    let bits = spec_payload_bits(cw);
    Seq::new(
        coords.len(),
        |k: int|
            (
                coords[k].0 * spec_size(v) + coords[k].1,
                k < bits.len() && bits[k],
            ),
    )
}

/// The finished (unmasked) cell sequence of a grid holding `cw`.
pub open spec fn spec_grid_cells(cw: Seq<u8>, v: int) -> Seq<bool> {
    spec_apply_writes(spec_base_cells(v), spec_place_writes(cw, v))
}

/// Builds the version-`v` grid holding the codeword stream `cw`: function
/// patterns first, then every codeword bit placed exactly once along the
/// zig-zag traversal, leftover remainder cells light.
///
/// Fails with `EncodingError` exactly when the codeword bits do not fit the
/// version's data cells; with the shipped tables that never happens.
pub fn build_grid(cw: &Vec<u8>, v: u8) -> (r: Result<ModuleGrid, QrError>)
    requires
        1 <= v <= 40,
    ensures
        match r {
            Ok(g) => {
                &&& 8 * cw@.len() <= spec_data_coords(v as int).len()
                &&& g.wf()
                &&& g.version == v
                &&& g.cells@ == spec_grid_cells(cw@, v as int)
                &&& g.func@ == spec_func_cells(v as int)
            },
            Err(e) => {
                &&& e == QrError::EncodingError
                &&& 8 * cw@.len() > spec_data_coords(v as int).len()
            },
        },
{
    let ghost gv = v as int;
    let mut g = build_base(v);
    let coords = data_coords(&g);
    if cw.len() > coords.len() / 8 {
        proof {
            vstd::arithmetic::div_mod::lemma_fundamental_div_mod(coords@.len() as int, 8);
        }
        return Err(QrError::EncodingError);
    }
    proof {
        vstd::arithmetic::div_mod::lemma_fundamental_div_mod(coords@.len() as int, 8);
        crate::codec::lemma_payload_bits_len(cw@);
    }
    let bits = crate::codec::payload_bits(cw);
    let n = g.size;
    let mut w: Vec<(usize, bool)> = Vec::new();
    let mut k: usize = 0;
    while k < coords.len()
        invariant
            k <= coords@.len(),
            w@.len() == k,
            bits@ == spec_payload_bits(cw@),
            bits@.len() == 8 * cw@.len() <= coords@.len(),
            n as int == spec_size(gv),
            coords@.map_values(|t: (usize, usize)| (t.0 as int, t.1 as int)) == spec_data_coords(
                gv,
            ),
            forall|m: int|
                0 <= m < coords@.len() ==> (#[trigger] coords@[m]).0 < n && coords@[m].1 < n,
            forall|m: int|
                0 <= m < k ==> w@.map_values(|t: (usize, bool)| (t.0 as int, t.1))[m]
                    == spec_place_writes(cw@, gv)[m],
        decreases coords@.len() - k,
    {
        let (row, c) = coords[k];
        let val = if k < bits.len() {
            bits[k]
        } else {
            false
        };
        proof {
            lemma_rc(n as int, row as int, c as int);
        }
        w.push((row * n + c, val));
        k = k + 1;
    }
    proof {
        assert(w@.map_values(|t: (usize, bool)| (t.0 as int, t.1)) =~= spec_place_writes(cw@, gv));
        assert(g.cells@.len() == n * n);
        assert forall|m: int| 0 <= m < w@.len() implies (#[trigger] w@[m]).0 < g.cells@.len() by {
            let mw = w@.map_values(|t: (usize, bool)| (t.0 as int, t.1));
            assert(mw[m] == spec_place_writes(cw@, gv)[m]);
            assert(mw[m].0 == w@[m].0 as int);
            let cm = coords@.map_values(|t: (usize, usize)| (t.0 as int, t.1 as int))[m];
            assert(spec_place_writes(cw@, gv)[m].0 == cm.0 * spec_size(gv) + cm.1);
            assert(cm.0 == coords@[m].0 as int && cm.1 == coords@[m].1 as int);
            lemma_rc(n as int, coords@[m].0 as int, coords@[m].1 as int);
        };
    }
    apply_writes(&mut g.cells, &w);
    Ok(g)
}

} // verus!
