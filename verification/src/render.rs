//! Resampling choices, fit modes and the size budget of magnified crops.
use vstd::prelude::*;

verus! {

/// How an image is resampled when it is scaled.
#[derive(Debug, Clone, Copy, PartialEq, Eq, Structural)]
pub enum Resample {
    Filtered,
    Nearest,
}

impl Resample {
    /// Smooth resampling with antialiasing on, nearest-neighbour without.
    pub fn from_antialias(antialias: bool) -> (r: Resample)
        ensures
            r == (if antialias {
                Resample::Filtered
            } else {
                Resample::Nearest
            }),
    {
        if antialias {
            Resample::Filtered
        } else {
            Resample::Nearest
        }
    }
}

/// How the view fits the image into the window.
#[derive(Debug, Clone, Copy, PartialEq, Eq, Structural)]
pub enum FitMode {
    Fit,
    FitBest,
    Original,
    Free,
}

/// The most bytes a magnified crop may take.
pub const MAGNIFY_BUDGET_BYTES: u64 = 100663296;

/// The bytes of a crop of `px` pixels magnified `f` times in each direction.
pub open spec fn magnified_bytes(px: int, f: int) -> int {
    px * f * f * 4
}

/// Whether a crop of `px` pixels magnified `f` times stays within the budget.
pub open spec fn fits_budget(px: int, f: int) -> bool {
    magnified_bytes(px, f) <= MAGNIFY_BUDGET_BYTES
}

proof fn lemma_magnified_grows(px: int, f: int, g: int)
    requires
        0 <= px,
        1 <= f <= g,
    ensures
        magnified_bytes(px, f) <= magnified_bytes(px, g),
        px <= magnified_bytes(px, f),
{
    assert(f * f <= g * g) by (nonlinear_arith)
        requires
            1 <= f <= g,
    ;
    assert(1 <= f * f) by (nonlinear_arith)
        requires
            1 <= f,
    ;
    assert(px * (f * f) <= px * (g * g)) by (nonlinear_arith)
        requires
            0 <= px,
            f * f <= g * g,
    ;
    assert(px <= px * (f * f)) by (nonlinear_arith)
        requires
            0 <= px,
            1 <= f * f,
    ;
    assert(px * f * f == px * (f * f)) by (nonlinear_arith);
    assert(px * g * g == px * (g * g)) by (nonlinear_arith);
}

fn exceeds_budget(px: u64, f: u32) -> (r: bool)
    requires
        f >= 1,
    ensures
        r == !fits_budget(px as int, f as int),
{
    if px > MAGNIFY_BUDGET_BYTES {
        proof {
            lemma_magnified_grows(px as int, 1, f as int);
            lemma_magnified_grows(px as int, f as int, f as int);
        }
        return true;
    }
    assert((f as int) * (f as int) <= 0xffff_ffff * 0xffff_ffff) by (nonlinear_arith)
        requires
            f <= 0xffff_ffff,
    ;
    let ff: u128 = (f as u128) * (f as u128);
    assert((px as int) * (ff as int) <= 100663296 * 0xffff_ffff * 0xffff_ffff) by (nonlinear_arith)
        requires
            px <= 100663296,
            ff <= 0xffff_ffff * 0xffff_ffff,
    ;
    let m: u128 = (px as u128) * ff;
    assert(m <= 100663296 * (ff as int)) by (nonlinear_arith)
        requires
            m == (px as int) * (ff as int),
            px <= 100663296,
    ;
    let bytes: u128 = m * 4;
    assert(bytes == magnified_bytes(px as int, f as int)) by (nonlinear_arith)
        requires
            bytes == m * 4,
            m == (px as int) * (ff as int),
            ff == (f as int) * (f as int),
    ;
    bytes > MAGNIFY_BUDGET_BYTES as u128
}

/// The largest magnification factor, at most `factor` (and at least 1),
/// at which the crop fits the byte budget; 1 for an empty crop or when even
/// 1 does not fit.
pub fn fit_factor_to_budget(crop: (u32, u32, u32, u32), factor: u32) -> (r: u32)
    ensures
        ({
            let px = (crop.2 as int) * (crop.3 as int);
            let top = if factor < 1 {
                1
            } else {
                factor as int
            };
            &&& 1 <= r <= top
            &&& px == 0 ==> r == 1
            &&& px > 0 ==> (r == 1 || fits_budget(px, r as int))
            &&& px > 0 ==> forall|g: int| r < g <= top ==> !fits_budget(px, g)
        }),
{
    assert((crop.2 as int) * (crop.3 as int) <= 0xffff_ffff * 0xffff_ffff) by (nonlinear_arith)
        requires
            crop.2 <= 0xffff_ffff,
            crop.3 <= 0xffff_ffff,
    ;
    let px: u64 = (crop.2 as u64) * (crop.3 as u64);
    if px == 0 {
        return 1;
    }
    let top: u32 = if factor < 1 {
        1
    } else {
        factor
    };
    let mut f: u32 = top;
    while f > 1 && exceeds_budget(px, f)
        invariant
            1 <= f <= top,
            px > 0,
            forall|g: int| f < g <= top ==> !fits_budget(px as int, g),
        decreases f,
    {
        f = f - 1;
    }
    f
}

} // verus!
