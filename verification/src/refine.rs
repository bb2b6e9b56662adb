use vstd::prelude::*;
use vstd::arithmetic::div_mod::{lemma_mod_multiples_vanish, lemma_truncate_middle};
use crate::basis::Basis;
use crate::field::{
    cell_gray_of, cell_offset, coord, interference, lemma_cell_offset, phase_index, renders, term,
    CHANNELS,
};
use crate::settings::Settings;

verus! {

/// `fine` samples the same two functions as `coarse`, `factor` times as
/// densely: every entry of `coarse` stands in `fine` at `factor` times its place.
pub open spec fn refines(fine: Basis, coarse: Basis, factor: int) -> bool {
    &&& factor >= 1
    &&& fine.side == factor * coarse.side
    &&& forall|k: int|
        0 <= k < 2 * coarse.side ==> #[trigger] fine.sin@[factor * k] == coarse.sin@[k]
    &&& forall|k: int|
        0 <= k < 2 * coarse.side ==> #[trigger] fine.cos@[factor * k] == coarse.cos@[k]
}

/// A common factor of a number and of the modulus comes out of the remainder,
/// for negative numbers too.
pub proof fn lemma_scaled_remainder(a: int, w: int, factor: int)
    requires
        0 < w,
        0 < factor,
    ensures
        0 < factor * w,
        (factor * a) % (factor * w) == factor * (a % w),
{
    let t = if a < 0 {
        -a
    } else {
        0
    };
    let lifted = a + t * w;
    assert(0 <= lifted && 0 < factor * w && (factor * w) * t + factor * a == factor * lifted && w
        * t + a == lifted) by (nonlinear_arith)
        requires
            0 < w,
            0 < factor,
            t >= 0,
            a + t >= 0,
            lifted == a + t * w,
    ;
    lemma_mod_multiples_vanish(t, factor * a, factor * w);
    lemma_truncate_middle(lifted, factor, w);
    lemma_mod_multiples_vanish(t, a, w);
}

/// On a grid `factor` times as fine, position `factor * p` asks for the same
/// phase as position `p` did.
pub proof fn lemma_phase_on_finer_grid(side: int, factor: int, mode: int, p: int)
    requires
        0 < side,
        0 < factor,
    ensures
        phase_index(factor * side, mode, factor * p) == factor * phase_index(side, mode, p),
        0 <= phase_index(side, mode, p) < 2 * side,
{
    let a = mode * coord(side, p);
    assert(mode * coord(factor * side, factor * p) == factor * a && 2 * (factor * side) == factor
        * (2 * side)) by (nonlinear_arith)
        requires
            a == mode * (2 * p - side),
            coord(factor * side, factor * p) == 2 * (factor * p) - factor * side,
    ;
    lemma_scaled_remainder(a, 2 * side, factor);
}

/// Independence of the grid size: where a finer grid has a sample point of the
/// coarser one, both give that cell the same interference value and the same
/// gray level.
pub proof fn lemma_finer_grid_agrees(
    coarse: Basis,
    fine: Basis,
    factor: int,
    settings: Settings,
    px: int,
    py: int,
)
    requires
        coarse.wf(),
        refines(fine, coarse, factor),
    ensures
        interference(fine, settings, factor * px, factor * py) == interference(
            coarse,
            settings,
            px,
            py,
        ),
        cell_gray_of(fine, settings, factor * px, factor * py) == cell_gray_of(
            coarse,
            settings,
            px,
            py,
        ),
{
    let n = settings.n as int;
    let m = settings.m as int;
    lemma_term_on_finer_grid(coarse, fine, factor, settings.cos, n, px);
    lemma_term_on_finer_grid(coarse, fine, factor, settings.cos, m, py);
    lemma_term_on_finer_grid(coarse, fine, factor, settings.cos, m, px);
    lemma_term_on_finer_grid(coarse, fine, factor, settings.cos, n, py);
}

/// Independence of the grid size, of whole pictures: the picture on the finer
/// grid has, at `factor` times the column and row, the bytes that the picture
/// on the coarser grid has at that column and row.
pub proof fn lemma_finer_picture_agrees(
    a: Seq<u8>,
    b: Seq<u8>,
    coarse: Basis,
    fine: Basis,
    factor: int,
    settings: Settings,
    px: int,
    py: int,
    channel: int,
)
    requires
        coarse.wf(),
        refines(fine, coarse, factor),
        renders(a, coarse, settings),
        renders(b, fine, settings),
        0 <= px < coarse.side,
        0 <= py < coarse.side,
        0 <= channel < CHANNELS,
    ensures
        a[cell_offset(coarse.side as int, px, py) + channel] == b[cell_offset(
            fine.side as int,
            factor * px,
            factor * py,
        ) + channel],
{
    let side = coarse.side as int;
    assert(0 <= factor * px < factor * side && 0 <= factor * py < factor * side)
        by (nonlinear_arith)
        requires
            factor >= 1,
            0 <= px < side,
            0 <= py < side,
    ;
    lemma_cell_offset(side, px, py, channel);
    lemma_cell_offset(factor * side, factor * px, factor * py, channel);
    lemma_finer_grid_agrees(coarse, fine, factor, settings, px, py);
    let i = cell_offset(side, px, py) + channel;
    let j = cell_offset(factor * side, factor * px, factor * py) + channel;
    assert(a[i] as int == cell_gray_of(coarse, settings, px, py));
    assert(b[j] as int == cell_gray_of(fine, settings, factor * px, factor * py));
}

/// The finer table holds, for position `factor * p`, the value that the
/// coarser one holds for position `p`.
pub proof fn lemma_term_on_finer_grid(
    coarse: Basis,
    fine: Basis,
    factor: int,
    cos: bool,
    mode: int,
    p: int,
)
    requires
        coarse.wf(),
        refines(fine, coarse, factor),
    ensures
        term(fine, cos, mode, factor * p) == term(coarse, cos, mode, p),
{
    let side = coarse.side as int;
    lemma_phase_on_finer_grid(side, factor, mode, p);
    let k = phase_index(side, mode, p);
    assert(fine.sin@[factor * k] == coarse.sin@[k]);
    assert(fine.cos@[factor * k] == coarse.cos@[k]);
}

} // verus!
