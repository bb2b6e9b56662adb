use vstd::prelude::*;
use vstd::arithmetic::div_mod::{lemma_fundamental_div_mod_converse, lemma_mod_multiples_vanish};
use rayon::iter::{IndexedParallelIterator, ParallelIterator};
use rayon::slice::ParallelSliceMut;
use crate::basis::{Basis, MAX_SIDE, UNIT};
use crate::range::map_range;
use crate::settings::{Settings, MODE_MAX, MODE_MIN};

verus! {

/// The fixed-point value that stands for 1 in an interference value: `UNIT * UNIT`.
pub const UNIT_SQ: i64 = 1_000_000_000_000;

/// Bytes that one cell takes in a buffer: the gray level, once per colour channel.
pub const CHANNELS: usize = 3;

/// The gray level of a buffer that has not been rendered yet.
pub const MID_GRAY: u8 = 128;

/// The position `p` of a grid of side `side`, carried from `[0, side)` to
/// `[-1, 1)` and counted in steps of `1 / side`.
pub open spec fn coord(side: int, p: int) -> int {
    2 * p - side
}

/// The table entry that holds the basis function at phase `mode * pi * x`,
/// where `x` is the coordinate of position `p`. The tables hold one period, so
/// the phase is taken modulo `2 * side`.
pub open spec fn phase_index(side: int, mode: int, p: int) -> int {
    (mode * coord(side, p)) % (2 * side)
}

/// The basis function at phase `mode * pi * x`, for position `p`.
pub open spec fn term(basis: Basis, cos: bool, mode: int, p: int) -> int {
    basis.wave(cos)[phase_index(basis.side as int, mode, p)] as int
}

/// The signed interference value of the cell in column `px` and row `py`, in
/// units of `1 / UNIT_SQ`.
pub open spec fn interference(basis: Basis, settings: Settings, px: int, py: int) -> int {
    term(basis, settings.cos, settings.n as int, px) * term(
        basis,
        settings.cos,
        settings.m as int,
        py,
    ) - term(basis, settings.cos, settings.m as int, px) * term(
        basis,
        settings.cos,
        settings.n as int,
        py,
    )
}

/// The absolute value of `v`.
pub open spec fn magnitude(v: int) -> int {
    if v < 0 {
        -v
    } else {
        v
    }
}

/// The gray level of an interference value: white where the value is zero,
/// darker as its magnitude grows, black from magnitude 1 on.
pub open spec fn gray_of(v: int) -> int {
    let level = magnitude(v) * 255 / (UNIT_SQ as int);
    255 - if level > 255 {
        255
    } else {
        level
    }
}

/// The gray level of the cell in column `px` and row `py`.
pub open spec fn cell_gray_of(basis: Basis, settings: Settings, px: int, py: int) -> int {
    gray_of(interference(basis, settings, px, py))
}

/// `buf` is the picture of `settings`: row after row, three equal bytes per
/// cell, each the gray level of that cell.
pub open spec fn renders(buf: Seq<u8>, basis: Basis, settings: Settings) -> bool {
    &&& buf.len() == CHANNELS * basis.side * basis.side
    &&& forall|i: int|
        0 <= i < buf.len() ==> #[trigger] buf[i] as int == cell_gray_of(
            basis,
            settings,
            (i / 3) % (basis.side as int),
            (i / 3) / (basis.side as int),
        )
}

/// A buffer for a grid of side `side` in which every byte is `MID_GRAY`.
pub open spec fn blank_pixels(side: int) -> Seq<u8> {
    Seq::new((CHANNELS * side * side) as nat, |i: int| MID_GRAY)
}

/// The coordinate of position `p`, in steps of `1 / side`.
pub fn coordinate(side: usize, p: usize) -> (c: i64)
    requires
        0 < side <= MAX_SIDE,
        p < side,
    ensures
        c == coord(side as int, p as int),
        -(side as int) <= c < side as int,
{
    let s: i64 = side as i64;
    let q: i64 = p as i64;
    proof {
        let si = s as int;
        let qi = q as int;
        assert(0 <= qi * (2 * si) < 0x4000_0000 && (qi * (2 * si)) / si == 2 * qi)
            by (nonlinear_arith)
            requires
                0 < si <= 16_384,
                0 <= qi < si,
        ;
    }
    map_range((0i64, s), (-s, s), q)
}

/// The table entry for the phase `mode * pi * x`, where `x` is the coordinate
/// of position `p`.
pub fn phase_slot(side: usize, mode: usize, p: usize) -> (k: usize)
    requires
        0 < side <= MAX_SIDE,
        MODE_MIN <= mode <= MODE_MAX,
        p < side,
    ensures
        k == phase_index(side as int, mode as int, p as int),
        k < 2 * side,
{
    let c: i64 = coordinate(side, p);
    let period: i64 = 2 * (side as i64);
    let turns: i64 = mode as i64;
    proof {
        let t = turns as int;
        let w = period as int;
        let x = c as int;
        assert(-(t * w) <= 2 * (t * x) && t * x < t * w && t * w <= 9 * w && w * t == t * w)
            by (nonlinear_arith)
            requires
                1 <= t <= 9,
                w > 0,
                -w <= 2 * x,
                2 * x < w,
        ;
        lemma_mod_multiples_vanish(t, t * x, w);
    }
    let lifted: i64 = turns * c + turns * period;
    (lifted % period) as usize
}

/// The signed interference value of the cell in column `px` and row `py`, in
/// units of `1 / UNIT_SQ`.
pub fn interference_at(basis: &Basis, settings: Settings, px: usize, py: usize) -> (v: i64)
    requires
        basis.wf(),
        settings.in_range(),
        px < basis.side,
        py < basis.side,
    ensures
        v == interference(*basis, settings, px as int, py as int),
        -2 * UNIT_SQ <= v <= 2 * UNIT_SQ,
{
    let side = basis.side;
    let a: i64 = basis.sin_or_cos(phase_slot(side, settings.n, px), settings.cos) as i64;
    let b: i64 = basis.sin_or_cos(phase_slot(side, settings.m, py), settings.cos) as i64;
    let c: i64 = basis.sin_or_cos(phase_slot(side, settings.m, px), settings.cos) as i64;
    let d: i64 = basis.sin_or_cos(phase_slot(side, settings.n, py), settings.cos) as i64;
    proof {
        lemma_product_of_samples(a as int, b as int);
        lemma_product_of_samples(c as int, d as int);
    }
    a * b - c * d
}

/// The gray level of an interference value given in units of `1 / UNIT_SQ`.
///
/// A magnitude of 1 or more gives black: the level saturates and never wraps.
pub fn gray_level(v: i64) -> (g: u8)
    ensures
        g == gray_of(v as int),
{
    if v <= -UNIT_SQ || v >= UNIT_SQ {
        0
    } else {
        let mag: i64 = if v < 0 {
            -v
        } else {
            v
        };
        let level: i64 = map_range((0i64, UNIT_SQ), (0i64, 255i64), mag);
        255 - (level as u8)
    }
}

/// The gray level of the cell in column `px` and row `py`.
pub fn cell_gray(basis: &Basis, settings: Settings, px: usize, py: usize) -> (g: u8)
    requires
        basis.wf(),
        settings.in_range(),
        px < basis.side,
        py < basis.side,
    ensures
        g == cell_gray_of(*basis, settings, px as int, py as int),
{
    gray_level(interference_at(basis, settings, px, py))
}

/// Writes the gray level of cell number `idx`, counted row after row, to the
/// cell's three channels.
pub fn paint_cell(rgb: &mut [u8], basis: &Basis, settings: Settings, idx: usize)
    requires
        old(rgb)@.len() == CHANNELS,
        basis.wf(),
        settings.in_range(),
        idx < basis.side * basis.side,
    ensures
        final(rgb)@.len() == CHANNELS,
        forall|channel: int|
            0 <= channel < CHANNELS ==> #[trigger] final(rgb)@[channel] as int == cell_gray_of(
                *basis,
                settings,
                (idx as int) % (basis.side as int),
                (idx as int) / (basis.side as int),
            ),
{
    let side = basis.side;
    proof {
        lemma_row_in_grid(idx as int, side as int);
    }
    let g = cell_gray(basis, settings, idx % side, idx / side);
    rgb[0] = g;
    rgb[1] = g;
    rgb[2] = g;
}

/// Paints every cell of `buf` on rayon's thread pool.
///
/// The body is one chain of rayon calls: `par_chunks_exact_mut` cuts the
/// buffer into its cells, `enumerate` numbers them from 0 in the buffer's
/// order, and `for_each` hands each numbered cell to `paint_cell` and returns
/// when all are done. The contract claims that of rayon: every cell is
/// painted, once, under its own number, and the buffer keeps its length.
#[verifier::external_body]
fn paint_cells(buf: &mut Vec<u8>, basis: &Basis, settings: Settings)
    requires
        basis.wf(),
        settings.in_range(),
        old(buf)@.len() == CHANNELS * basis.side * basis.side,
    ensures
        renders(final(buf)@, *basis, settings),
{
    buf.par_chunks_exact_mut(CHANNELS).enumerate().for_each(
        |(idx, rgb)| paint_cell(rgb, basis, settings, idx),
    );
}

/// The picture of `settings` on a grid of side `basis.side`: the gray level of
/// every cell, row after row, written to each of the cell's three channels.
///
/// The cells are independent of each other and are painted in parallel, each
/// by one writer.
pub fn evaluate(basis: &Basis, settings: Settings) -> (buf: Vec<u8>)
    requires
        basis.wf(),
        settings.in_range(),
    ensures
        renders(buf@, *basis, settings),
{
    let mut buf = blank(basis.side);
    paint_cells(&mut buf, basis, settings);
    buf
}

/// The same picture as `evaluate`, computed cell after cell on the calling thread.
pub fn evaluate_serial(basis: &Basis, settings: Settings) -> (buf: Vec<u8>)
    requires
        basis.wf(),
        settings.in_range(),
    ensures
        renders(buf@, *basis, settings),
{
    let side = basis.side;
    proof {
        lemma_square_bound(side as int);
    }
    let cells: usize = side * side;
    let mut buf: Vec<u8> = Vec::new();
    let mut idx: usize = 0;
    while idx < cells
        invariant
            basis.wf(),
            settings.in_range(),
            side == basis.side,
            cells == side * side,
            cells <= 0x1000_0000,
            idx <= cells,
            buf@.len() == CHANNELS * idx,
            forall|i: int|
                0 <= i < buf@.len() ==> #[trigger] buf@[i] as int == cell_gray_of(
                    *basis,
                    settings,
                    (i / 3) % (side as int),
                    (i / 3) / (side as int),
                ),
        decreases cells - idx,
    {
        let px: usize = idx % side;
        let py: usize = idx / side;
        proof {
            lemma_row_in_grid(idx as int, side as int);
        }
        let g = cell_gray(basis, settings, px, py);
        buf.push(g);
        buf.push(g);
        buf.push(g);
        idx += 1;
    }
    proof {
        assert(CHANNELS * side * side == CHANNELS * (side * side)) by (nonlinear_arith);
    }
    buf
}

/// A buffer for a grid of side `side`, not rendered yet: every byte `MID_GRAY`.
pub fn blank(side: usize) -> (buf: Vec<u8>)
    requires
        side <= MAX_SIDE,
    ensures
        buf@ == blank_pixels(side as int),
{
    proof {
        lemma_square_bound(side as int);
    }
    let len: usize = CHANNELS * (side * side);
    let mut buf: Vec<u8> = Vec::new();
    let mut k: usize = 0;
    while k < len
        invariant
            k <= len,
            buf@.len() == k,
            forall|i: int| 0 <= i < k ==> #[trigger] buf@[i] == MID_GRAY,
        decreases len - k,
    {
        buf.push(MID_GRAY);
        k += 1;
    }
    proof {
        assert(CHANNELS * side * side == CHANNELS * (side * side)) by (nonlinear_arith);
        assert(buf@ =~= blank_pixels(side as int));
    }
    buf
}

/// The place in a buffer of the first byte of the cell in column `px` and row `py`.
pub open spec fn cell_offset(side: int, px: int, py: int) -> int {
    CHANNELS * (py * side + px)
}

/// A grid of side at most `MAX_SIDE` has at most `MAX_SIDE * MAX_SIDE` cells.
pub proof fn lemma_square_bound(side: int)
    requires
        0 <= side <= MAX_SIDE,
    ensures
        0 <= side * side <= 0x1000_0000,
{
    assert(0 <= side * side <= 0x1000_0000) by (nonlinear_arith)
        requires
            0 <= side <= 16_384,
    ;
}

/// Cell number `idx`, counted row after row, lies in a row of the grid.
pub proof fn lemma_row_in_grid(idx: int, side: int)
    requires
        0 < side,
        0 <= idx < side * side,
    ensures
        0 <= idx / side < side,
{
    assert(0 <= idx / side < side) by (nonlinear_arith)
        requires
            0 < side,
            0 <= idx < side * side,
    ;
}

/// Each channel of a cell lies inside the buffer, and is a byte of that cell
/// and of no other.
pub proof fn lemma_cell_offset(side: int, px: int, py: int, channel: int)
    requires
        0 <= px < side,
        0 <= py < side,
        0 <= channel < CHANNELS,
    ensures
        0 <= cell_offset(side, px, py) + channel < CHANNELS * side * side,
        ((cell_offset(side, px, py) + channel) / 3) % side == px,
        ((cell_offset(side, px, py) + channel) / 3) / side == py,
{
    let cell = py * side + px;
    assert(0 <= py * side && py * side + side <= side * side && CHANNELS * side * side == 3 * (side
        * side)) by (nonlinear_arith)
        requires
            0 <= py < side,
    ;
    assert((3 * cell + channel) / 3 == cell);
    lemma_fundamental_div_mod_converse(cell, side, py, px);
}

/// Determinism: a grid, a parameter set and the tables have one picture. Two
/// buffers that each render them are equal byte for byte.
pub proof fn lemma_rendering_is_unique(a: Seq<u8>, b: Seq<u8>, basis: Basis, settings: Settings)
    requires
        renders(a, basis, settings),
        renders(b, basis, settings),
    ensures
        a == b,
{
    assert(a =~= b);
}

/// Symmetry of the cells: with the mode numbers exchanged, the cell in column
/// `py` and row `px` has the gray level that the cell in column `px` and row
/// `py` had. The interference value itself is the same, whatever the tables hold.
pub proof fn lemma_swap_and_transpose_cell(basis: Basis, settings: Settings, px: int, py: int)
    ensures
        interference(basis, settings.swapped(), py, px) == interference(basis, settings, px, py),
        cell_gray_of(basis, settings.swapped(), py, px) == cell_gray_of(basis, settings, px, py),
{
    let a = term(basis, settings.cos, settings.n as int, px);
    let b = term(basis, settings.cos, settings.m as int, py);
    let c = term(basis, settings.cos, settings.m as int, px);
    let d = term(basis, settings.cos, settings.n as int, py);
    assert(b * a - d * c == a * b - c * d) by (nonlinear_arith);
}

/// Symmetry of the picture: exchanging the mode numbers and reflecting the
/// buffer across its main diagonal gives the same buffer.
pub proof fn lemma_swap_and_transpose(
    a: Seq<u8>,
    b: Seq<u8>,
    basis: Basis,
    settings: Settings,
    px: int,
    py: int,
    channel: int,
)
    requires
        renders(a, basis, settings),
        renders(b, basis, settings.swapped()),
        0 <= px < basis.side,
        0 <= py < basis.side,
        0 <= channel < CHANNELS,
    ensures
        a[cell_offset(basis.side as int, px, py) + channel] == b[cell_offset(
            basis.side as int,
            py,
            px,
        ) + channel],
{
    let side = basis.side as int;
    lemma_cell_offset(side, px, py, channel);
    lemma_cell_offset(side, py, px, channel);
    lemma_swap_and_transpose_cell(basis, settings, px, py);
    let i = cell_offset(side, px, py) + channel;
    let j = cell_offset(side, py, px) + channel;
    assert(a[i] as int == cell_gray_of(basis, settings, px, py));
    assert(b[j] as int == cell_gray_of(basis, settings.swapped(), py, px));
}

/// Exchanging the mode numbers alone changes the sign of the interference
/// value and nothing in the picture.
pub proof fn lemma_swap_keeps_picture(a: Seq<u8>, b: Seq<u8>, basis: Basis, settings: Settings)
    requires
        renders(a, basis, settings),
        renders(b, basis, settings.swapped()),
    ensures
        a == b,
{
    assert forall|i: int| 0 <= i < a.len() implies a[i] == b[i] by {
        let px = (i / 3) % (basis.side as int);
        let py = (i / 3) / (basis.side as int);
        let p = term(basis, settings.cos, settings.n as int, px);
        let q = term(basis, settings.cos, settings.m as int, py);
        let r = term(basis, settings.cos, settings.m as int, px);
        let s = term(basis, settings.cos, settings.n as int, py);
        assert(r * s - p * q == -(p * q - r * s)) by (nonlinear_arith);
        assert(a[i] as int == cell_gray_of(basis, settings, px, py));
        assert(b[i] as int == cell_gray_of(basis, settings.swapped(), px, py));
    }
    assert(a =~= b);
}

/// Equal mode numbers cancel: the interference value is zero in every cell,
/// for either basis, and every byte of the picture is white.
pub proof fn lemma_equal_modes_are_white(a: Seq<u8>, basis: Basis, settings: Settings)
    requires
        renders(a, basis, settings),
        settings.n == settings.m,
    ensures
        forall|px: int, py: int| interference(basis, settings, px, py) == 0,
        forall|i: int| 0 <= i < a.len() ==> #[trigger] a[i] == 255,
{
    assert forall|i: int| 0 <= i < a.len() implies #[trigger] a[i] == 255 by {
        let px = (i / 3) % (basis.side as int);
        let py = (i / 3) / (basis.side as int);
        assert(a[i] as int == cell_gray_of(basis, settings, px, py));
    }
}

/// Saturation: the gray level is always a byte, it is white exactly on the
/// magnitudes that round down to level 0, and black from magnitude 1 on.
pub proof fn lemma_gray_saturates(v: int)
    ensures
        0 <= gray_of(v) <= 255,
        gray_of(v) == gray_of(-v),
        magnitude(v) >= UNIT_SQ ==> gray_of(v) == 0,
        magnitude(v) < UNIT_SQ ==> gray_of(v) == 255 - magnitude(v) * 255 / (UNIT_SQ as int),
        v == 0 ==> gray_of(v) == 255,
{
}

/// The product of two samples has magnitude at most 1.
pub proof fn lemma_product_of_samples(a: int, b: int)
    requires
        -UNIT <= a <= UNIT,
        -UNIT <= b <= UNIT,
    ensures
        -UNIT_SQ <= a * b <= UNIT_SQ,
{
    assert(-1_000_000_000_000 <= a * b <= 1_000_000_000_000) by (nonlinear_arith)
        requires
            -1_000_000 <= a <= 1_000_000,
            -1_000_000 <= b <= 1_000_000,
    ;
}

} // verus!
