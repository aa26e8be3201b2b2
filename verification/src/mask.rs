//! Masking: the eight standard mask formulas, the four penalty rules that
//! score a masked candidate, the format-information writes, and the
//! selection of the minimum-penalty mask.

use vstd::prelude::*;
use crate::grid::{abs_i, apply_writes, lemma_rc, spec_apply_writes, spec_bit_of, spec_size, ModuleGrid};
use crate::tables::{format_info, spec_ec_format_bits, spec_format_info};
use crate::types::EcLevel;

verus! {

/// Mask formula `m` at `(r, c)`: `true` where the mask flips the cell.
pub open spec fn spec_mask_bit(m: int, r: int, c: int) -> bool {
    if m == 0 {
        (r + c) % 2 == 0
    } else if m == 1 {
        r % 2 == 0
    } else if m == 2 {
        c % 3 == 0
    } else if m == 3 {
        (r + c) % 3 == 0
    } else if m == 4 {
        (r / 2 + c / 3) % 2 == 0
    } else if m == 5 {
        (r * c) % 2 + (r * c) % 3 == 0
    } else if m == 6 {
        ((r * c) % 2 + (r * c) % 3) % 2 == 0
    } else {
        ((r + c) % 2 + (r * c) % 3) % 2 == 0
    }
}

/// Executable counterpart of `spec_mask_bit`.
pub fn mask_bit(m: u8, r: usize, c: usize) -> (b: bool)
    requires
        m < 8,
        r <= 400,
        c <= 400,
    ensures
        b == spec_mask_bit(m as int, r as int, c as int),
{
    proof {
        assert(0 <= r as int * c as int <= 160000) by (nonlinear_arith)
            requires 0 <= r as int <= 400, 0 <= c as int <= 400,
        ;
    }
    match m {
        0 => (r + c) % 2 == 0,
        1 => r % 2 == 0,
        2 => c % 3 == 0,
        3 => (r + c) % 3 == 0,
        4 => (r / 2 + c / 3) % 2 == 0,
        5 => (r * c) % 2 + (r * c) % 3 == 0,
        6 => ((r * c) % 2 + (r * c) % 3) % 2 == 0,
        _ => ((r + c) % 2 + (r * c) % 3) % 2 == 0,
    }
}

/// The cells after XOR-ing mask `m` into every non-function cell.
pub open spec fn spec_masked_cells(cells: Seq<bool>, func: Seq<bool>, n: int, m: int) -> Seq<
    bool,
> {
    Seq::new(
        cells.len(),
        |i: int|
            if func[i] {
                cells[i]
            } else {
                cells[i] != spec_mask_bit(m, i / n, i % n)
            },
    )
}

/// Masking never touches a function-pattern cell: under any mask, every
/// cell the function map claims keeps its color.
pub proof fn lemma_mask_preserves_function_cells(
    cells: Seq<bool>,
    func: Seq<bool>,
    n: int,
    m: int,
)
    ensures
        forall|i: int|
            0 <= i < cells.len() && func[i] ==> spec_masked_cells(cells, func, n, m)[i]
                == cells[i],
{
}

/// Applies mask `m` to every non-function cell of the grid.
pub fn apply_mask(g: &ModuleGrid, m: u8) -> (out: ModuleGrid)
    requires
        g.wf(),
        m < 8,
    ensures
        out.wf(),
        out.version == g.version,
        out.size == g.size,
        out.func@ == g.func@,
        out.cells@ == spec_masked_cells(
            g.cells@,
            g.func@,
            spec_size(g.version as int),
            m as int,
        ),
{
    let n = g.size;
    let mut cells: Vec<bool> = Vec::new();
    let mut r: usize = 0;
    while r < n
        invariant
            r <= n,
            g.wf(),
            m < 8,
            n == g.size,
            cells@.len() == r * n,
            forall|i: int|
                0 <= i < r * n ==> cells@[i] == spec_masked_cells(
                    g.cells@,
                    g.func@,
                    n as int,
                    m as int,
                )[i],
        decreases n - r,
    {
        let mut c: usize = 0;
        while c < n
            invariant
                r < n,
                c <= n,
                cells@.len() == r * n + c,
                forall|i: int|
                    0 <= i < r * n + c ==> cells@[i] == spec_masked_cells(
                        g.cells@,
                        g.func@,
                        n as int,
                        m as int,
                    )[i],
            decreases n - c,
        {
            proof {
                lemma_rc(n as int, r as int, c as int);
            }
            let idx = r * n + c;
            let val = if g.func[idx] {
                g.cells[idx]
            } else {
                g.cells[idx] != mask_bit(m, r, c)
            };
            cells.push(val);
            c = c + 1;
        }
        proof {
            assert((r + 1) * (n as int) == r * (n as int) + n) by (nonlinear_arith);
        }
        r = r + 1;
    }
    proof {
        assert(cells@ =~= spec_masked_cells(g.cells@, g.func@, n as int, m as int));
    }
    ModuleGrid { version: g.version, size: n, cells, func: g.func.clone() }
}

/// The cell `(row, col)` holding bit `14 - (i % 15)` of the format word,
/// for write number `i` in `0..30`: the first copy frames the top-left
/// finder pattern, the second is split between the other two.
pub open spec fn spec_format_coord(n: int, i: int) -> (int, int) {
    if i <= 5 {
        (8, i)
    } else if i == 6 {
        (8, 7)
    } else if i == 7 {
        (8, 8)
    } else if i == 8 {
        (7, 8)
    } else if i <= 14 {
        (14 - i, 8)
    } else if i <= 21 {
        (n - 1 - (i - 15), 8)
    } else {
        (8, n - 15 + (i - 15))
    }
}

/// The format-information writes of level `ec` and mask `m`: both copies of
/// the 15-bit word, most significant bit first.
pub open spec fn spec_format_writes(v: int, ec: int, m: int) -> Seq<(int, bool)> {
    let n = spec_size(v);
    let info = spec_format_info(spec_ec_format_bits(ec) * 8 + m);
    Seq::new(
        30,
        |i: int|
            (
                spec_format_coord(n, i).0 * n + spec_format_coord(n, i).1,
                spec_bit_of(info as u32, (14 - i % 15) as u32),
            ),
    )
}

/// Builds the format-information writes for the grid's version.
fn format_writes(v: u8, n: usize, ec: EcLevel, m: u8) -> (w: Vec<(usize, bool)>)
    requires
        1 <= v <= 40,
        n as int == spec_size(v as int),
        m < 8,
    ensures
        w@.map_values(|t: (usize, bool)| (t.0 as int, t.1)) == spec_format_writes(
            v as int,
            ec.spec_index(),
            m as int,
        ),
        forall|k: int| 0 <= k < w@.len() ==> (#[trigger] w@[k]).0 < n * n,
{
    let info = format_info(ec, m);
    let mut w: Vec<(usize, bool)> = Vec::new();
    let mut i: usize = 0;
    while i < 30
        invariant
            i <= 30,
            n as int == spec_size(v as int),
            21 <= n <= 177,
            w@.len() == i,
            info as int == spec_format_info(spec_ec_format_bits(ec.spec_index()) * 8 + m as int),
            forall|k: int|
                0 <= k < i ==> w@.map_values(|t: (usize, bool)| (t.0 as int, t.1))[k]
                    == spec_format_writes(v as int, ec.spec_index(), m as int)[k],
            forall|k: int| 0 <= k < w@.len() ==> (#[trigger] w@[k]).0 < n * n,
        decreases 30 - i,
    {
        let (row, col): (usize, usize) = if i <= 5 {
            (8, i)
        } else if i == 6 {
            (8, 7)
        } else if i == 7 {
            (8, 8)
        } else if i == 8 {
            (7, 8)
        } else if i <= 14 {
            (14 - i, 8)
        } else if i <= 21 {
            (n - 1 - (i - 15), 8)
        } else {
            (8, n - 15 + (i - 15))
        };
        let k: u32 = 14 - (i as u32 % 15);
        let bit = (info as u32 >> k) & 1 == 1;
        proof {
            lemma_rc(n as int, row as int, col as int);
        }
        w.push((row * n + col, bit));
        i = i + 1;
    }
    proof {
        assert(w@.map_values(|t: (usize, bool)| (t.0 as int, t.1)) =~= spec_format_writes(
            v as int,
            ec.spec_index(),
            m as int,
        ));
    }
    w
}

/// A finished candidate: mask `m` applied, format information written.
pub open spec fn spec_candidate(cells: Seq<bool>, func: Seq<bool>, v: int, ec: int, m: int) -> Seq<
    bool,
> {
    spec_apply_writes(
        spec_masked_cells(cells, func, spec_size(v), m),
        spec_format_writes(v, ec, m),
    )
}

/// Applies mask `m` and writes the format information.
pub fn finalize_mask(g: &ModuleGrid, ec: EcLevel, m: u8) -> (out: ModuleGrid)
    requires
        g.wf(),
        m < 8,
    ensures
        out.wf(),
        out.version == g.version,
        out.size == g.size,
        out.func@ == g.func@,
        out.cells@ == spec_candidate(
            g.cells@,
            g.func@,
            g.version as int,
            ec.spec_index(),
            m as int,
        ),
{
    let mut out = apply_mask(g, m);
    let w = format_writes(g.version, g.size, ec, m);
    apply_writes(&mut out.cells, &w);
    out
}

/// Rule one, over one row or column: each maximal run of five or more
/// same-colored modules scores three points, plus one per extra module.
/// `cur` is the color and `len` the length of the run open at `i`, `acc`
/// the score of the closed runs.
pub open spec fn spec_run_tail(line: Seq<bool>, i: int, cur: bool, len: int, acc: int) -> int
    decreases line.len() - i,
{
    if i < 0 || i >= line.len() {
        acc + if len >= 5 {
            len - 2
        } else {
            0
        }
    } else if line[i] == cur {
        spec_run_tail(line, i + 1, cur, len + 1, acc)
    } else {
        spec_run_tail(
            line,
            i + 1,
            line[i],
            1,
            acc + if len >= 5 {
                len - 2
            } else {
                0
            },
        )
    }
}

/// Rule-one score of one line.
pub open spec fn spec_line_run_pen(line: Seq<bool>) -> int {
    if line.len() == 0 {
        0
    } else {
        spec_run_tail(line, 1, line[0], 1, 0)
    }
}

/// Computes the rule-one score of one line.
fn line_run_pen(line: &Vec<bool>) -> (p: u64)
    requires
        line@.len() <= 400,
    ensures
        p as int == spec_line_run_pen(line@),
        p <= line@.len(),
{
    let n = line.len();
    if n == 0 {
        return 0;
    }
    let mut cur = line[0];
    let mut len: u64 = 1;
    let mut acc: u64 = 0;
    let mut i: usize = 1;
    while i < n
        invariant
            1 <= i <= n == line@.len() <= 400,
            1 <= len,
            acc + len <= i,
            spec_line_run_pen(line@) == spec_run_tail(line@, i as int, cur, len as int, acc as int),
        decreases n - i,
    {
        if line[i] == cur {
            len = len + 1;
        } else {
            if len >= 5 {
                acc = acc + (len - 2);
            }
            cur = line[i];
            len = 1;
        }
        i = i + 1;
    }
    if len >= 5 {
        acc + (len - 2)
    } else {
        acc
    }
}

/// Whether a finder-like pattern (dark-light-dark-dark-dark-light-dark with
/// four light modules before or after) starts at `k`.
pub open spec fn spec_fp_at(line: Seq<bool>, k: int) -> bool {
    ||| (line[k] && !line[k + 1] && line[k + 2] && line[k + 3] && line[k + 4] && !line[k + 5]
        && line[k + 6] && !line[k + 7] && !line[k + 8] && !line[k + 9] && !line[k + 10])
    ||| (!line[k] && !line[k + 1] && !line[k + 2] && !line[k + 3] && line[k + 4] && !line[k + 5]
        && line[k + 6] && line[k + 7] && line[k + 8] && !line[k + 9] && line[k + 10])
}

/// Rule-three score of the first `k` window positions of one line: forty
/// points per finder-like pattern.
pub open spec fn spec_fp_tail(line: Seq<bool>, k: int) -> int
    decreases k,
{
    if k <= 0 {
        0
    } else {
        spec_fp_tail(line, k - 1) + if spec_fp_at(line, k - 1) {
            40int
        } else {
            0int
        }
    }
}

/// Rule-three score of one line.
pub open spec fn spec_line_fp_pen(line: Seq<bool>) -> int {
    spec_fp_tail(line, line.len() - 10)
}

/// Computes the rule-three score of one line.
fn line_fp_pen(line: &Vec<bool>) -> (p: u64)
    requires
        line@.len() <= 400,
    ensures
        p as int == spec_line_fp_pen(line@),
        p <= 40 * line@.len(),
{
    let n = line.len();
    if n < 11 {
        return 0;
    }
    let mut acc: u64 = 0;
    let mut k: usize = 0;
    while k < n - 10
        invariant
            k <= n - 10,
            11 <= n == line@.len() <= 400,
            acc <= 40 * k,
            acc as int == spec_fp_tail(line@, k as int),
        decreases n - 10 - k,
    {
        let hit = (line[k] && !line[k + 1] && line[k + 2] && line[k + 3] && line[k + 4]
            && !line[k + 5] && line[k + 6] && !line[k + 7] && !line[k + 8] && !line[k + 9]
            && !line[k + 10]) || (!line[k] && !line[k + 1] && !line[k + 2] && !line[k + 3]
            && line[k + 4] && !line[k + 5] && line[k + 6] && line[k + 7] && line[k + 8]
            && !line[k + 9] && line[k + 10]);
        if hit {
            acc = acc + 40;
        }
        k = k + 1;
    }
    acc
}

/// Row `r` of a flat cell sequence.
pub open spec fn spec_row_seq(cells: Seq<bool>, n: int, r: int) -> Seq<bool> {
    Seq::new(n as nat, |j: int| cells[r * n + j])
}

/// Column `c` of a flat cell sequence.
pub open spec fn spec_col_seq(cells: Seq<bool>, n: int, c: int) -> Seq<bool> {
    Seq::new(n as nat, |j: int| cells[j * n + c])
}

/// Extracts row `r` of the grid.
fn row_line(g: &ModuleGrid, r: usize) -> (line: Vec<bool>)
    requires
        g.wf(),
        r < g.size,
    ensures
        line@ == spec_row_seq(g.cells@, g.size as int, r as int),
{
    let n = g.size;
    let mut line: Vec<bool> = Vec::new();
    let mut j: usize = 0;
    while j < n
        invariant
            j <= n,
            r < n,
            line@.len() == j,
            forall|t: int| 0 <= t < j ==> line@[t] == g.cells@[r as int * n + t],
        decreases n - j,
    {
        proof {
            lemma_rc(n as int, r as int, j as int);
        }
        line.push(g.cells[r * n + j]);
        j = j + 1;
    }
    proof {
        assert(line@ =~= spec_row_seq(g.cells@, g.size as int, r as int));
    }
    line
}

/// Extracts column `c` of the grid.
fn col_line(g: &ModuleGrid, c: usize) -> (line: Vec<bool>)
    requires
        g.wf(),
        c < g.size,
    ensures
        line@ == spec_col_seq(g.cells@, g.size as int, c as int),
{
    let n = g.size;
    let mut line: Vec<bool> = Vec::new();
    let mut j: usize = 0;
    while j < n
        invariant
            j <= n,
            c < n,
            line@.len() == j,
            forall|t: int| 0 <= t < j ==> line@[t] == g.cells@[t * n + c as int],
        decreases n - j,
    {
        proof {
            lemma_rc(n as int, j as int, c as int);
        }
        line.push(g.cells[j * n + c]);
        j = j + 1;
    }
    proof {
        assert(line@ =~= spec_col_seq(g.cells@, g.size as int, c as int));
    }
    line
}

/// Rule-one score of the first `r` rows.
pub open spec fn spec_rows_run(cells: Seq<bool>, n: int, r: int) -> int
    decreases r,
{
    if r <= 0 {
        0
    } else {
        spec_rows_run(cells, n, r - 1) + spec_line_run_pen(spec_row_seq(cells, n, r - 1))
    }
}

/// Rule-one score of the first `c` columns.
pub open spec fn spec_cols_run(cells: Seq<bool>, n: int, c: int) -> int
    decreases c,
{
    if c <= 0 {
        0
    } else {
        spec_cols_run(cells, n, c - 1) + spec_line_run_pen(spec_col_seq(cells, n, c - 1))
    }
}

/// Rule-three score of the first `r` rows.
pub open spec fn spec_rows_fp(cells: Seq<bool>, n: int, r: int) -> int
    decreases r,
{
    if r <= 0 {
        0
    } else {
        spec_rows_fp(cells, n, r - 1) + spec_line_fp_pen(spec_row_seq(cells, n, r - 1))
    }
}

/// Rule-three score of the first `c` columns.
pub open spec fn spec_cols_fp(cells: Seq<bool>, n: int, c: int) -> int
    decreases c,
{
    if c <= 0 {
        0
    } else {
        spec_cols_fp(cells, n, c - 1) + spec_line_fp_pen(spec_col_seq(cells, n, c - 1))
    }
}

/// Rule-two score of the first `k` positions (row-major over an
/// `(n-1) x (n-1)` window grid): three points per two-by-two block of one
/// color.
pub open spec fn spec_blocks_pen(cells: Seq<bool>, n: int, k: int) -> int
    decreases k,
{
    if k <= 0 {
        0
    } else {
        let r = (k - 1) / (n - 1);
        let c = (k - 1) % (n - 1);
        spec_blocks_pen(cells, n, k - 1) + if cells[r * n + c] == cells[r * n + c + 1]
            && cells[r * n + c] == cells[(r + 1) * n + c] && cells[r * n + c] == cells[(r + 1) * n
            + c + 1] {
            3int
        } else {
            0int
        }
    }
}

/// Number of dark modules among the first `k` cells.
pub open spec fn spec_dark_count(cells: Seq<bool>, k: int) -> int
    decreases k,
{
    if k <= 0 {
        0
    } else {
        spec_dark_count(cells, k - 1) + if cells[k - 1] {
            1int
        } else {
            0int
        }
    }
}

/// Rule-four score: ten points per five percent that the dark-module share
/// deviates from one half.
pub open spec fn spec_balance_pen(cells: Seq<bool>, n: int) -> int {
    let total = n * n;
    let dark = spec_dark_count(cells, total);
    10 * (abs_i(20 * dark - 10 * total) / total)
}

/// The total penalty of a candidate grid: the four standard rules.
pub open spec fn spec_penalty(cells: Seq<bool>, n: int) -> int {
    spec_rows_run(cells, n, n) + spec_cols_run(cells, n, n) + spec_blocks_pen(
        cells,
        n,
        (n - 1) * (n - 1),
    ) + spec_rows_fp(cells, n, n) + spec_cols_fp(cells, n, n) + spec_balance_pen(cells, n)
}

/// Computes the total penalty of a candidate grid.
pub fn penalty(g: &ModuleGrid) -> (p: u64)
    requires
        g.wf(),
    ensures
        p as int == spec_penalty(g.cells@, g.size as int),
{
    let n = g.size;
    let ghost cells = g.cells@;
    let mut run_total: u64 = 0;
    let mut fp_total: u64 = 0;
    let mut r: usize = 0;
    while r < n
        invariant
            r <= n,
            g.wf(),
            n == g.size,
            cells == g.cells@,
            run_total as int == spec_rows_run(cells, n as int, r as int),
            fp_total as int == spec_rows_fp(cells, n as int, r as int),
            run_total <= 400 * r,
            fp_total <= 16000 * r,
        decreases n - r,
    {
        let line = row_line(g, r);
        run_total = run_total + line_run_pen(&line);
        fp_total = fp_total + line_fp_pen(&line);
        r = r + 1;
    }
    let mut c: usize = 0;
    while c < n
        invariant
            c <= n,
            g.wf(),
            n == g.size,
            cells == g.cells@,
            run_total as int == spec_rows_run(cells, n as int, n as int) + spec_cols_run(
                cells,
                n as int,
                c as int,
            ),
            fp_total as int == spec_rows_fp(cells, n as int, n as int) + spec_cols_fp(
                cells,
                n as int,
                c as int,
            ),
            run_total <= 400 * (n + c),
            fp_total <= 16000 * (n + c),
        decreases n - c,
    {
        let line = col_line(g, c);
        run_total = run_total + line_run_pen(&line);
        fp_total = fp_total + line_fp_pen(&line);
        c = c + 1;
    }

    // Rule two: two-by-two blocks of one color.
    let mut blocks: u64 = 0;
    let mut k: usize = 0;
    proof {
        assert(0 <= (n as int - 1) * (n as int - 1) <= 40000) by (nonlinear_arith)
            requires 0 <= n as int - 1 <= 200,
        ;
    }
    let windows = (n - 1) * (n - 1);
    while k < windows
        invariant
            k <= windows,
            g.wf(),
            n == g.size,
            cells == g.cells@,
            windows as int == (n as int - 1) * (n as int - 1),
            windows <= 40000,
            blocks as int == spec_blocks_pen(cells, n as int, k as int),
            blocks <= 3 * k,
        decreases windows - k,
    {
        let wr = k / (n - 1);
        let wc = k % (n - 1);
        proof {
            vstd::arithmetic::div_mod::lemma_fundamental_div_mod(k as int, n as int - 1);
            assert((k as int) / (n as int - 1) < n as int - 1) by (nonlinear_arith)
                requires
                    (k as int) < (n as int - 1) * (n as int - 1),
                    0 < n as int - 1,
                    k as int == (n as int - 1) * ((k as int) / (n as int - 1)) + (k as int) % (
                    n as int - 1),
                    0 <= (k as int) % (n as int - 1),
                    ((k as int) % (n as int - 1)) < n as int - 1,
                    0 <= (k as int) / (n as int - 1),
            ;
            lemma_rc(n as int, wr as int, wc as int);
            lemma_rc(n as int, wr as int, wc as int + 1);
            lemma_rc(n as int, wr as int + 1, wc as int);
            lemma_rc(n as int, wr as int + 1, wc as int + 1);
        }
        let a = g.cells[wr * n + wc];
        let b = g.cells[wr * n + wc + 1];
        let d = g.cells[(wr + 1) * n + wc];
        let e = g.cells[(wr + 1) * n + wc + 1];
        if a == b && a == d && a == e {
            blocks = blocks + 3;
        }
        k = k + 1;
    }

    // Rule four: dark-module balance.
    let mut dark: u64 = 0;
    proof {
        lemma_rc(n as int, 0, 0);
    }
    let total = n * n;
    let mut t: usize = 0;
    while t < total
        invariant
            t <= total,
            g.wf(),
            n == g.size,
            cells == g.cells@,
            total == n * n <= 160000,
            dark as int == spec_dark_count(cells, t as int),
            dark <= t,
        decreases total - t,
    {
        if g.cells[t] {
            dark = dark + 1;
        }
        t = t + 1;
    }
    proof {
        assert(total >= 1) by (nonlinear_arith)
            requires n as int >= 21, total as int == n as int * n as int,
        ;
    }
    let twenty_dark = 20 * dark;
    let ten_total = 10 * (total as u64);
    let diff = if twenty_dark >= ten_total {
        twenty_dark - ten_total
    } else {
        ten_total - twenty_dark
    };
    proof {
        assert(diff as int / total as int <= diff as int) by (nonlinear_arith)
            requires total as int >= 1, diff as int >= 0,
        ;
    }
    let balance = 10 * (diff / (total as u64));
    run_total + fp_total + blocks + balance
}

/// The minimum-penalty mask among `0..k` and its penalty; ties go to the
/// lowest index.
pub open spec fn spec_best_mask_upto(cells: Seq<bool>, func: Seq<bool>, v: int, ec: int, k: int) -> (
    int,
    int,
)
    decreases k,
{
    let n = spec_size(v);
    if k <= 1 {
        (0, spec_penalty(spec_candidate(cells, func, v, ec, 0), n))
    } else {
        let prev = spec_best_mask_upto(cells, func, v, ec, k - 1);
        let p = spec_penalty(spec_candidate(cells, func, v, ec, k - 1), n);
        if p < prev.1 {
            (k - 1, p)
        } else {
            prev
        }
    }
}

/// The mask the encoder selects for a finished (unmasked) grid.
pub open spec fn spec_chosen_mask(cells: Seq<bool>, func: Seq<bool>, v: int, ec: int) -> int {
    spec_best_mask_upto(cells, func, v, ec, 8).0
}

/// Tries all eight masks on the grid, scores each finished candidate with
/// the four penalty rules, and returns the minimum-penalty mask (ties broken
/// by the lowest index) together with its finished grid.
pub fn choose_mask(g: &ModuleGrid, ec: EcLevel) -> (res: (u8, ModuleGrid))
    requires
        g.wf(),
    ensures
        res.0 < 8,
        res.0 as int == spec_chosen_mask(g.cells@, g.func@, g.version as int, ec.spec_index()),
        res.1.wf(),
        res.1.version == g.version,
        res.1.size == g.size,
        res.1.func@ == g.func@,
        res.1.cells@ == spec_candidate(
            g.cells@,
            g.func@,
            g.version as int,
            ec.spec_index(),
            res.0 as int,
        ),
        forall|m2: int|
            0 <= m2 < 8 ==> spec_penalty(
                res.1.cells@,
                spec_size(g.version as int),
            ) <= #[trigger] spec_penalty(
                spec_candidate(g.cells@, g.func@, g.version as int, ec.spec_index(), m2),
                spec_size(g.version as int),
            ),
        forall|m2: int|
            0 <= m2 < 8 && spec_penalty(
                spec_candidate(g.cells@, g.func@, g.version as int, ec.spec_index(), m2),
                spec_size(g.version as int),
            ) == spec_penalty(res.1.cells@, spec_size(g.version as int)) ==> res.0 as int <= m2,
{
    let ghost gv = g.version as int;
    let ghost ge = ec.spec_index();
    let ghost n = spec_size(gv);
    let mut best = finalize_mask(g, ec, 0);
    let mut best_p = penalty(&best);
    let mut best_m: u8 = 0;
    let mut m: u8 = 1;
    while m < 8
        invariant
            1 <= m <= 8,
            best_m < m,
            g.wf(),
            n == spec_size(gv),
            gv == g.version as int,
            ge == ec.spec_index(),
            best.wf(),
            best.version == g.version,
            best.size == g.size,
            best.func@ == g.func@,
            best.cells@ == spec_candidate(g.cells@, g.func@, gv, ge, best_m as int),
            best_p as int == spec_penalty(best.cells@, n),
            (best_m as int, best_p as int) == spec_best_mask_upto(g.cells@, g.func@, gv, ge, m as int),
            forall|m2: int|
                0 <= m2 < m as int ==> best_p as int <= #[trigger] spec_penalty(
                    spec_candidate(g.cells@, g.func@, gv, ge, m2),
                    n,
                ),
            forall|m2: int|
                0 <= m2 < m as int && spec_penalty(
                    spec_candidate(g.cells@, g.func@, gv, ge, m2),
                    n,
                ) == best_p as int ==> best_m as int <= m2,
        decreases 8 - m,
    {
        let cand = finalize_mask(g, ec, m);
        let p = penalty(&cand);
        if p < best_p {
            best = cand;
            best_p = p;
            best_m = m;
        }
        m = m + 1;
    }
    (best_m, best)
}

} // verus!
