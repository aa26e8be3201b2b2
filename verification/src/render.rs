//! The renderer: a finished grid becomes a flat byte buffer, one byte per
//! module, with an optional light quiet-zone margin. Only the least
//! significant bit of each byte is meaningful: one is dark, zero is light.

use vstd::prelude::*;
use crate::grid::{lemma_rc, ModuleGrid};

verus! {

/// The rendered pixel at `(r, c)` of a buffer with symbol size `n` and
/// quiet-zone width `q`: dark cells copy through at an offset of `q`, the
/// border stays light.
pub open spec fn spec_pixel(cells: Seq<bool>, n: int, q: int, r: int, c: int) -> u8 {
    if q <= r < q + n && q <= c < q + n && cells[(r - q) * n + (c - q)] {
        1
    } else {
        0
    }
}

/// Renders the grid into a flat row-major byte buffer of side
/// `size + 2 * quiet`: each module one byte, one for dark, zero for light;
/// every quiet-zone cell is zero. The grid itself is not changed.
pub fn render(g: &ModuleGrid, quiet: usize) -> (buf: Vec<u8>)
    requires
        g.wf(),
        quiet <= 100,
    ensures
        ({
            let n = g.size as int;
            let fs = n + 2 * quiet;
            &&& buf@.len() == fs * fs
            &&& forall|r: int, c: int|
                0 <= r < fs && 0 <= c < fs ==> buf@[r * fs + c] == spec_pixel(
                    g.cells@,
                    n,
                    quiet as int,
                    r,
                    c,
                )
        }),
{
    let n = g.size;
    let fs = n + 2 * quiet;
    let mut buf: Vec<u8> = Vec::new();
    let mut r: usize = 0;
    while r < fs
        invariant
            r <= fs,
            g.wf(),
            n == g.size,
            fs == n + 2 * quiet <= 377,
            buf@.len() == r * fs,
            forall|m: int|
                0 <= m < r * fs ==> buf@[m] == spec_pixel(
                    g.cells@,
                    n as int,
                    quiet as int,
                    m / fs as int,
                    m % fs as int,
                ),
        decreases fs - r,
    {
        let mut c: usize = 0;
        while c < fs
            invariant
                r < fs,
                c <= fs,
                buf@.len() == r * fs + c,
                forall|m: int|
                    0 <= m < r * fs + c ==> buf@[m] == spec_pixel(
                        g.cells@,
                        n as int,
                        quiet as int,
                        m / fs as int,
                        m % fs as int,
                    ),
            decreases fs - c,
        {
            proof {
                lemma_rc(fs as int, r as int, c as int);
            }
            let val: u8 = if r >= quiet && r < quiet + n && c >= quiet && c < quiet + n {
                proof {
                    lemma_rc(n as int, r as int - quiet as int, c as int - quiet as int);
                }
                if g.cells[(r - quiet) * n + (c - quiet)] {
                    1
                } else {
                    0
                }
            } else {
                0
            };
            buf.push(val);
            c = c + 1;
        }
        proof {
            assert((r + 1) * (fs as int) == r * (fs as int) + fs) by (nonlinear_arith);
        }
        r = r + 1;
    }
    proof {
        assert forall|rr: int, cc: int|
            0 <= rr < fs as int && 0 <= cc < fs as int implies buf@[rr * (fs as int) + cc]
            == spec_pixel(g.cells@, g.size as int, quiet as int, rr, cc) by {
            lemma_rc(fs as int, rr, cc);
        };
    }
    buf
}

} // verus!
