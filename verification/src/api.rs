//! The end-to-end encoder: version selection, data encoding, error
//! correction, placement, masking and rendering, composed into one pure
//! function of the payload, the error-correction level and the options.

use vstd::prelude::*;
use crate::codec::{
    add_ec, encode, select_version, spec_add_ec, spec_encode_data, spec_fits, spec_min_version,
    spec_min_version_ok,
};
use crate::grid::{build_grid, spec_data_coords, spec_func_cells, spec_grid_cells, spec_size, ModuleGrid};
use crate::mask::{choose_mask, spec_candidate, spec_chosen_mask};
use crate::render::{render, spec_pixel};
use crate::types::{CenterImage, EcLevel, LocatorStyle, ModuleStyle, QrCodeResult, QrError, QuietZone};

verus! {

/// The smallest version from `w` up that fits an `n`-byte payload at level
/// `ec`, or zero when none up to 40 does.
pub open spec fn spec_best_version(n: int, ec: int, w: int) -> int
    decreases 41 - w,
{
    if w < 1 || w > 40 {
        0
    } else if spec_fits(n, w, ec) {
        w
    } else {
        spec_best_version(n, ec, w + 1)
    }
}

/// A version that fits, below which none from `w` up fits, is the best
/// version from `w`.
proof fn lemma_best_version_is(n: int, ec: int, w: int, v: int)
    requires
        1 <= w <= v <= 40,
        spec_fits(n, v, ec),
        forall|u: int| w <= u < v ==> !spec_fits(n, u, ec),
    ensures
        spec_best_version(n, ec, w) == v,
    decreases v - w,
{
    if w < v {
        lemma_best_version_is(n, ec, w + 1, v);
    }
}

/// When no version from `w` up fits, the best version is zero.
proof fn lemma_best_version_none(n: int, ec: int, w: int)
    requires
        1 <= w <= 41,
        forall|u: int| w <= u <= 40 ==> !spec_fits(n, u, ec),
    ensures
        spec_best_version(n, ec, w) == 0,
    decreases 41 - w,
{
    if w <= 40 {
        lemma_best_version_none(n, ec, w + 1);
    }
}

/// The minimal version is unique: any two versions that fit and below which
/// nothing fits are the same.
pub proof fn lemma_minimal_version_unique(n: int, ec: int, w: int, v1: int, v2: int)
    requires
        w <= v1,
        w <= v2,
        spec_fits(n, v1, ec),
        spec_fits(n, v2, ec),
        forall|u: int| w <= u < v1 ==> !spec_fits(n, u, ec),
        forall|u: int| w <= u < v2 ==> !spec_fits(n, u, ec),
    ensures
        v1 == v2,
{
}

/// The finished symbol for a payload: its version and its cells, or the
/// error. The whole pipeline is a function of the inputs alone.
pub open spec fn spec_generate(data: Seq<u8>, ec: int, minv: Option<u8>) -> Result<
    (int, Seq<bool>),
    QrError,
> {
    if !spec_min_version_ok(minv) {
        Err(QrError::UnsupportedVersion)
    } else {
        let v = spec_best_version(data.len() as int, ec, spec_min_version(minv));
        if v == 0 {
            Err(QrError::DataTooLong)
        } else {
            let cw = spec_add_ec(spec_encode_data(data, v, ec), v, ec);
            if 8 * cw.len() > spec_data_coords(v).len() {
                Err(QrError::EncodingError)
            } else {
                let cells = spec_grid_cells(cw, v);
                let m = spec_chosen_mask(cells, spec_func_cells(v), v, ec);
                Ok((v, spec_candidate(cells, spec_func_cells(v), v, ec, m)))
            }
        }
    }
}

/// Encoding is deterministic: the contract pins the symbol, so two results
/// of the same payload, level and minimum version are identical.
pub proof fn lemma_generate_deterministic(
    a: Result<(int, Seq<bool>), QrError>,
    b: Result<(int, Seq<bool>), QrError>,
    data: Seq<u8>,
    ec: int,
    minv: Option<u8>,
)
    requires
        a == spec_generate(data, ec, minv),
        b == spec_generate(data, ec, minv),
    ensures
        a == b,
{
}

/// Runs the full encoding pipeline: picks the smallest fitting version at
/// least the requested minimum, encodes and error-protects the payload,
/// places it, and masks the grid with the minimum-penalty mask.
///
/// Succeeds exactly when the minimum version is valid, some version fits,
/// and the version's codewords fill its data cells (the shipped tables
/// always fill them).
pub fn generate(data: &Vec<u8>, ec: EcLevel, min_version: Option<u8>) -> (r: Result<
    ModuleGrid,
    QrError,
>)
    ensures
        match r {
            Ok(g) => {
                &&& g.wf()
                &&& g.func@ == spec_func_cells(g.version as int)
                &&& spec_generate(data@, ec.spec_index(), min_version) == Ok::<
                    (int, Seq<bool>),
                    QrError,
                >((g.version as int, g.cells@))
            },
            Err(e) => spec_generate(data@, ec.spec_index(), min_version) == Err::<
                (int, Seq<bool>),
                QrError,
            >(e),
        },
{
    let ghost ge = ec.spec_index();
    let v = match select_version(data.len(), ec, min_version) {
        Ok(v) => v,
        Err(e) => {
            proof {
                if spec_min_version_ok(min_version) {
                    lemma_best_version_none(data@.len() as int, ge, spec_min_version(min_version));
                }
            }
            return Err(e);
        },
    };
    proof {
        lemma_best_version_is(
            data@.len() as int,
            ge,
            spec_min_version(min_version),
            v as int,
        );
    }
    let cw = match encode(data, v, ec) {
        Ok(cw) => cw,
        Err(e) => {
            proof {
                assert(false);
            }
            return Err(e);
        },
    };
    let full = add_ec(&cw, v, ec);
    let g = match build_grid(&full, v) {
        Ok(g) => g,
        Err(e) => {
            return Err(e);
        },
    };
    let (_m, out) = choose_mask(&g, ec);
    Ok(out)
}

/// Quiet-zone width in modules for each policy.
pub open spec fn spec_quiet_width(qz: QuietZone) -> int {
    match qz {
        QuietZone::Included => 4,
        QuietZone::WillBeAddedByClient => 0,
    }
}

/// The symbol that `generate_qr_code_with_options` renders: the encoder is
/// tried with minimum version five first (small symbols leave too little
/// room for a center overlay), and unconstrained when that fails.
pub open spec fn spec_symbol_with_fallback(data: Seq<u8>) -> Result<(int, Seq<bool>), QrError> {
    let first = spec_generate(data, 1, Some(5u8));
    if first is Ok {
        first
    } else {
        spec_generate(data, 1, None)
    }
}

/// Encodes a payload at level M and renders it as a pixel buffer, trying
/// minimum version five first and falling back to unconstrained version
/// selection; the style options only matter to a frontend and do not affect
/// the pixels.
///
/// On success the buffer holds the symbol of `spec_symbol_with_fallback`,
/// one byte per module with the chosen quiet-zone margin around it.
pub fn generate_qr_code_with_options(
    input_data: &Vec<u8>,
    _module_style: ModuleStyle,
    _locator_style: LocatorStyle,
    _center_image: CenterImage,
    quiet_zone: QuietZone,
) -> (r: Result<QrCodeResult, QrError>)
    ensures
        match r {
            Ok(res) => {
                let sym = spec_symbol_with_fallback(input_data@);
                let q = spec_quiet_width(quiet_zone);
                &&& sym is Ok
                &&& {
                    let (v, cells) = sym->Ok_0;
                    let n = spec_size(v);
                    let fs = n + 2 * q;
                    &&& res.original_size == n
                    &&& res.size == fs
                    &&& res.data@.len() == fs * fs
                    &&& forall|rr: int, cc: int|
                        0 <= rr < fs && 0 <= cc < fs ==> res.data@[rr * fs + cc] == spec_pixel(
                            cells,
                            n,
                            q,
                            rr,
                            cc,
                        )
                }
            },
            Err(e) => spec_symbol_with_fallback(input_data@) == Err::<(int, Seq<bool>), QrError>(
                e,
            ),
        },
{
    let g = match generate(input_data, EcLevel::M, Some(5)) {
        Ok(g) => g,
        Err(_) => {
            match generate(input_data, EcLevel::M, None) {
                Ok(g) => g,
                Err(e) => {
                    return Err(e);
                },
            }
        },
    };
    let margin: usize = match quiet_zone {
        QuietZone::Included => 4,
        QuietZone::WillBeAddedByClient => 0,
    };
    let buf = render(&g, margin);
    let final_size = g.size + 2 * margin;
    Ok(QrCodeResult { data: buf, size: final_size, original_size: g.size })
}

} // verus!
