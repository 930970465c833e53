use vstd::prelude::*;

use crate::matrix::{lemma_cell_index, Matrix};
use crate::neighboors::{Dist, Neighboors};

verus! {

/// A red, green and blue value.
pub type Pixel = (u8, u8, u8);

/// What the neighbourhood of one pixel adds up to, kept exact by distance.
///
/// With `w(One) = 1` and `w(Sqrt2) = √2`, the weighted mean of the counted
/// neighbours less the centre is, per channel,
/// `(one + √2·sqrt2) / (n_one + √2·n_sqrt2)`; where no neighbour is counted
/// the mean is taken as zero, so the difference is `-center`.
#[derive(Debug, Clone, Copy, PartialEq, Eq)]
pub struct LocalDiff {
    /// Per channel: the sum, over the counted neighbours at distance `One`,
    /// of their value less the centre's.
    pub one: (i32, i32, i32),
    /// The same over the counted neighbours at distance `Sqrt2`.
    pub sqrt2: (i32, i32, i32),
    /// How many neighbours at distance `One` lie inside the grid.
    pub n_one: u32,
    /// How many neighbours at distance `Sqrt2` lie inside the grid.
    pub n_sqrt2: u32,
    /// The pixel itself.
    pub center: Pixel,
}

/// The row offset of position `k` of the block.
pub open spec fn row_offset(k: int) -> int {
    k / 3 - 1
}

/// The column offset of position `k` of the block.
pub open spec fn col_offset(k: int) -> int {
    k % 3 - 1
}

/// Position `k` of the block around `(x, y)` lies inside a grid of `h` rows
/// and `w` columns.
pub open spec fn in_grid(h: int, w: int, x: int, y: int, k: int) -> bool {
    0 <= x + row_offset(k) < h && 0 <= y + col_offset(k) < w
}

/// Channel `c` (0 red, 1 green, 2 blue) of a pixel.
pub open spec fn channel(p: Pixel, c: int) -> int {
    if c == 0 {
        p.0 as int
    } else if c == 1 {
        p.1 as int
    } else {
        p.2 as int
    }
}

/// Position `k` of the block around `(x, y)` is counted at distance `d`.
pub open spec fn counted(img: Matrix<Pixel>, nb: Seq<Dist>, x: int, y: int, d: Dist, k: int) -> bool {
    in_grid(img.spec_height() as int, img.spec_width() as int, x, y, k) && nb[k] == d
}

/// What position `k` of the block around `(x, y)` adds to channel `c` of the
/// sum at distance `d`.
pub open spec fn term(img: Matrix<Pixel>, nb: Seq<Dist>, x: int, y: int, d: Dist, c: int, k: int) -> int {
    if counted(img, nb, x, y, d, k) {
        channel(img.at(x + row_offset(k), y + col_offset(k)), c) - channel(img.at(x, y), c)
    } else {
        0
    }
}

/// Channel `c` of the sum at distance `d` over the first `n` positions of the block.
pub open spec fn class_diff(img: Matrix<Pixel>, nb: Seq<Dist>, x: int, y: int, d: Dist, c: int, n: nat) -> int
    decreases n,
{
    if n == 0 {
        0
    } else {
        class_diff(img, nb, x, y, d, c, (n - 1) as nat) + term(img, nb, x, y, d, c, n - 1)
    }
}

/// How many of the first `n` positions of the block are counted at distance `d`.
pub open spec fn class_count(img: Matrix<Pixel>, nb: Seq<Dist>, x: int, y: int, d: Dist, n: nat) -> nat
    decreases n,
{
    if n == 0 {
        0
    } else {
        class_count(img, nb, x, y, d, (n - 1) as nat) + if counted(img, nb, x, y, d, n - 1) { 1nat } else { 0nat }
    }
}

/// The local difference of the pixel at row `x`, column `y`.
pub open spec fn local_diff_of(img: Matrix<Pixel>, nb: Seq<Dist>, x: int, y: int) -> LocalDiff {
    LocalDiff {
        one: (
            class_diff(img, nb, x, y, Dist::One, 0, 9) as i32,
            class_diff(img, nb, x, y, Dist::One, 1, 9) as i32,
            class_diff(img, nb, x, y, Dist::One, 2, 9) as i32,
        ),
        sqrt2: (
            class_diff(img, nb, x, y, Dist::Sqrt2, 0, 9) as i32,
            class_diff(img, nb, x, y, Dist::Sqrt2, 1, 9) as i32,
            class_diff(img, nb, x, y, Dist::Sqrt2, 2, 9) as i32,
        ),
        n_one: class_count(img, nb, x, y, Dist::One, 9) as u32,
        n_sqrt2: class_count(img, nb, x, y, Dist::Sqrt2, 9) as u32,
        center: img.at(x, y),
    }
}

/// `r` has the size of `img` and holds the local difference of each of its pixels.
pub open spec fn local_differences_of(img: Matrix<Pixel>, nb: Seq<Dist>, r: Matrix<LocalDiff>) -> bool {
    &&& r.wf()
    &&& r.spec_width() == img.spec_width()
    &&& r.spec_height() == img.spec_height()
    &&& forall|x: int, y: int|
        0 <= x < img.spec_height() && 0 <= y < img.spec_width() ==> #[trigger] r.at(x, y) == local_diff_of(img, nb, x, y)
}

/// Sums, for one distance, the differences between the neighbours of `(x, y)`
/// at that distance and the pixel itself, and counts those neighbours.
///
/// A neighbour's coordinates are found with wrapping arithmetic and kept only
/// where they fall inside the grid: offsets that would leave the grid wrap
/// around to coordinates past its end and are dropped.
fn class_sums(img: &Matrix<Pixel>, nb: &Neighboors, x: usize, y: usize, d: Dist) -> (r: ((i32, i32, i32), u32))
    requires
        img.wf(),
        x < img.spec_height(),
        y < img.spec_width(),
    ensures
        r.0.0 == class_diff(*img, nb@, x as int, y as int, d, 0, 9),
        r.0.1 == class_diff(*img, nb@, x as int, y as int, d, 1, 9),
        r.0.2 == class_diff(*img, nb@, x as int, y as int, d, 2, 9),
        r.1 == class_count(*img, nb@, x as int, y as int, d, 9),
{
    let h: usize = img.height();
    let w: usize = img.width();
    let center: Pixel = *img.get(x, y);
    let mut s0: i32 = 0;
    let mut s1: i32 = 0;
    let mut s2: i32 = 0;
    let mut n: u32 = 0;
    let mut k: usize = 0;
    while k < 9
        invariant
            img.wf(),
            h == img.spec_height(),
            w == img.spec_width(),
            x < h,
            y < w,
            center == img.at(x as int, y as int),
            k <= 9,
            s0 == class_diff(*img, nb@, x as int, y as int, d, 0, k as nat),
            s1 == class_diff(*img, nb@, x as int, y as int, d, 1, k as nat),
            s2 == class_diff(*img, nb@, x as int, y as int, d, 2, k as nat),
            n == class_count(*img, nb@, x as int, y as int, d, k as nat),
            n <= k,
            -255 * k <= s0 <= 255 * k,
            -255 * k <= s1 <= 255 * k,
            -255 * k <= s2 <= 255 * k,
        decreases 9 - k,
    {
        let dx: isize = (k / 3) as isize - 1;
        let dy: isize = (k % 3) as isize - 1;
        let mx: usize = x.wrapping_add_signed(dx);
        let my: usize = y.wrapping_add_signed(dy);
        assert((mx < h && my < w) == in_grid(h as int, w as int, x as int, y as int, k as int));
        if mx < h && my < w && nb.get(k) == d {
            let p: Pixel = *img.get(mx, my);
            s0 = s0 + (p.0 as i32 - center.0 as i32);
            s1 = s1 + (p.1 as i32 - center.1 as i32);
            s2 = s2 + (p.2 as i32 - center.2 as i32);
            n = n + 1;
        }
        k = k + 1;
    }
    ((s0, s1, s2), n)
}

/// The local difference of the pixel at row `x`, column `y`.
pub fn local_diff_at(img: &Matrix<Pixel>, nb: &Neighboors, x: usize, y: usize) -> (r: LocalDiff)
    requires
        img.wf(),
        x < img.spec_height(),
        y < img.spec_width(),
    ensures
        r == local_diff_of(*img, nb@, x as int, y as int),
{
    let (one, n_one) = class_sums(img, nb, x, y, Dist::One);
    let (sqrt2, n_sqrt2) = class_sums(img, nb, x, y, Dist::Sqrt2);
    let center: Pixel = *img.get(x, y);
    LocalDiff { one, sqrt2, n_one, n_sqrt2, center }
}

/// The local difference of every pixel of `img`, in a grid of the same size.
pub fn local_differences(img: &Matrix<Pixel>, nb: &Neighboors) -> (r: Matrix<LocalDiff>)
    requires
        img.wf(),
    ensures
        local_differences_of(*img, nb@, r),
{
    let h: usize = img.height();
    let w: usize = img.width();
    let mut out: Vec<LocalDiff> = Vec::new();
    let mut x: usize = 0;
    while x < h
        invariant
            img.wf(),
            h == img.spec_height(),
            w == img.spec_width(),
            x <= h,
            out@.len() == x * w,
            forall|i: int| 0 <= i < out@.len() ==> #[trigger] out@[i] == local_diff_of(*img, nb@, i / w as int, i % w as int),
        decreases h - x,
    {
        let mut y: usize = 0;
        while y < w
            invariant
                img.wf(),
                h == img.spec_height(),
                w == img.spec_width(),
                x < h,
                y <= w,
                out@.len() == x * w + y,
                forall|i: int| 0 <= i < out@.len() ==> #[trigger] out@[i] == local_diff_of(*img, nb@, i / w as int, i % w as int),
            decreases w - y,
        {
            proof {
                lemma_cell_index(x as int, y as int, w as int, h as int);
            }
            out.push(local_diff_at(img, nb, x, y));
            y = y + 1;
        }
        assert(out@.len() == (x + 1) * w) by (nonlinear_arith)
            requires out@.len() == x * w + w;
        x = x + 1;
    }
    proof {
        assert(out@.len() == w * h) by (nonlinear_arith)
            requires out@.len() == h * w;
    }
    let r = Matrix::new(out, w, h);
    assert forall|x: int, y: int| 0 <= x < h && 0 <= y < w implies #[trigger] r.at(x, y) == local_diff_of(*img, nb@, x, y) by {
        lemma_cell_index(x, y, w as int, h as int);
    }
    r
}

/// Computing the local differences of the same image under the same block
/// twice gives the same grid.
pub proof fn lemma_local_differences_deterministic(img: Matrix<Pixel>, nb: Seq<Dist>, a: Matrix<LocalDiff>, b: Matrix<LocalDiff>)
    requires
        img.wf(),
        local_differences_of(img, nb, a),
        local_differences_of(img, nb, b),
    ensures
        a@ == b@,
        a.spec_width() == b.spec_width(),
        a.spec_height() == b.spec_height(),
{
    let w = img.spec_width() as int;
    let h = img.spec_height() as int;
    assert forall|i: int| 0 <= i < a@.len() implies a@[i] == b@[i] by {
        assert(w > 0) by (nonlinear_arith)
            requires 0 <= i < w * h, h >= 0;
        let x = i / w;
        let y = i % w;
        vstd::arithmetic::div_mod::lemma_fundamental_div_mod(i, w);
        assert(0 <= y < w);
        assert(0 <= x < h && x * w + y == i) by (nonlinear_arith)
            requires i == w * x + y, 0 <= y < w, 0 <= i < w * h, w > 0;
        assert(a.at(x, y) == local_diff_of(img, nb, x, y));
        assert(b.at(x, y) == local_diff_of(img, nb, x, y));
    }
    assert(a@ =~= b@);
}

/// At the corner pixel `(0, 0)` the five positions of the block above or left
/// of it lie outside the grid; only the pixel itself and its neighbours to the
/// right, below and below-right are summed and counted.
pub proof fn lemma_corner_block(img: Matrix<Pixel>, nb: Seq<Dist>, d: Dist, c: int)
    requires
        img.wf(),
        img.spec_height() > 0,
        img.spec_width() > 0,
    ensures
        forall|k: int| #![trigger in_grid(img.spec_height() as int, img.spec_width() as int, 0, 0, k)]
            0 <= k < 9 && (k < 4 || k == 6) ==> !in_grid(img.spec_height() as int, img.spec_width() as int, 0, 0, k),
        class_diff(img, nb, 0, 0, d, c, 9)
            == term(img, nb, 0, 0, d, c, 4) + term(img, nb, 0, 0, d, c, 5)
            + term(img, nb, 0, 0, d, c, 7) + term(img, nb, 0, 0, d, c, 8),
        class_count(img, nb, 0, 0, d, 9)
            == (if counted(img, nb, 0, 0, d, 4) { 1int } else { 0 }) + (if counted(img, nb, 0, 0, d, 5) { 1int } else { 0 })
            + (if counted(img, nb, 0, 0, d, 7) { 1int } else { 0 }) + (if counted(img, nb, 0, 0, d, 8) { 1int } else { 0 }),
{
    reveal_with_fuel(class_diff, 10);
    reveal_with_fuel(class_count, 10);
}

/// Under a block whose every distance is `Inf` no neighbour is counted: both
/// sums and both counts are zero, so the difference of a pixel is minus its
/// own value.
pub proof fn lemma_zero_mask(img: Matrix<Pixel>, nb: Seq<Dist>, x: int, y: int)
    requires
        img.wf(),
        nb.len() == 9,
        forall|k: int| 0 <= k < 9 ==> nb[k] == Dist::Inf,
        0 <= x < img.spec_height(),
        0 <= y < img.spec_width(),
    ensures
        local_diff_of(img, nb, x, y) == (LocalDiff { one: (0, 0, 0), sqrt2: (0, 0, 0), n_one: 0, n_sqrt2: 0, center: img.at(x, y) }),
{
    assert forall|k: int| 0 <= k < 9 implies !(#[trigger] counted(img, nb, x, y, Dist::One, k))
        && !counted(img, nb, x, y, Dist::Sqrt2, k) by {
        assert(nb[k] == Dist::Inf);
    }
    reveal_with_fuel(class_diff, 10);
    reveal_with_fuel(class_count, 10);
}

/// In an image whose pixels are all the same, every counted neighbour equals
/// the centre, so both sums are zero at every pixel, whatever the block.
pub proof fn lemma_uniform_image(img: Matrix<Pixel>, nb: Seq<Dist>, p: Pixel, x: int, y: int)
    requires
        img.wf(),
        forall|i: int| 0 <= i < img@.len() ==> img@[i] == p,
        0 <= x < img.spec_height(),
        0 <= y < img.spec_width(),
    ensures
        local_diff_of(img, nb, x, y).one == (0i32, 0i32, 0i32),
        local_diff_of(img, nb, x, y).sqrt2 == (0i32, 0i32, 0i32),
        local_diff_of(img, nb, x, y).center == p,
{
    let h = img.spec_height() as int;
    let w = img.spec_width() as int;
    assert forall|i: int, j: int| 0 <= i < h && 0 <= j < w implies #[trigger] img.at(i, j) == p by {
        crate::matrix::lemma_cell_index(i, j, w, h);
    }
    assert forall|d: Dist, c: int, k: int| 0 <= k < 9 implies #[trigger] term(img, nb, x, y, d, c, k) == 0 by {
        if counted(img, nb, x, y, d, k) {
            assert(img.at(x + row_offset(k), y + col_offset(k)) == p);
        }
    }
    reveal_with_fuel(class_diff, 10);
}

/// Where `a` and `b` have the same block distances and agree, position by
/// position, on which neighbours of `(x, y)` and `(u, y)` are inside and on
/// their pixels, they give the same sums and counts.
proof fn lemma_same_terms(a: Matrix<Pixel>, b: Matrix<Pixel>, nb: Seq<Dist>, x: int, u: int, y: int, d: Dist, c: int, n: nat)
    requires
        n <= 9,
        forall|k: int| 0 <= k < 9 ==> (#[trigger] counted(a, nb, x, y, d, k)) == counted(b, nb, u, y, d, k),
        forall|k: int| 0 <= k < 9 ==> (#[trigger] term(a, nb, x, y, d, c, k)) == term(b, nb, u, y, d, c, k),
    ensures
        class_diff(a, nb, x, y, d, c, n) == class_diff(b, nb, u, y, d, c, n),
        class_count(a, nb, x, y, d, n) == class_count(b, nb, u, y, d, n),
    decreases n,
{
    if n > 0 {
        lemma_same_terms(a, b, nb, x, u, y, d, c, (n - 1) as nat);
    }
}

/// Row `x` of the local differences depends only on rows `x - 1` to `x + 1`
/// of the image: cut those rows (as far as they exist) out as a grid of their
/// own, and its local differences in the row that was `x` are the same. So
/// the rows can be computed in any order, or apart from one another.
pub proof fn lemma_row_locality(img: Matrix<Pixel>, sub: Matrix<Pixel>, nb: Seq<Dist>, x: int, y: int)
    requires
        img.wf(),
        sub.wf(),
        0 <= x < img.spec_height(),
        0 <= y < img.spec_width(),
        sub.spec_width() == img.spec_width(),
        sub.spec_height() == (if x + 1 < img.spec_height() { x + 1 } else { x })
            - (if x > 0 { x - 1 } else { 0 }) + 1,
        forall|i: int, j: int| 0 <= i < sub.spec_height() && 0 <= j < sub.spec_width()
            ==> #[trigger] sub.at(i, j) == img.at(i + (if x > 0 { x - 1 } else { 0 }), j),
    ensures
        local_diff_of(sub, nb, x - (if x > 0 { x - 1 } else { 0 }), y) == local_diff_of(img, nb, x, y),
{
    let top = if x > 0 { x - 1 } else { 0 };
    let u = x - top;
    assert forall|d: Dist, k: int| 0 <= k < 9 implies
        (#[trigger] counted(sub, nb, u, y, d, k)) == counted(img, nb, x, y, d, k) by {}
    assert forall|d: Dist, c: int, k: int| 0 <= k < 9 implies
        (#[trigger] term(sub, nb, u, y, d, c, k)) == term(img, nb, x, y, d, c, k) by {
        if in_grid(img.spec_height() as int, img.spec_width() as int, x, y, k) {
            assert(sub.at(u + row_offset(k), y + col_offset(k)) == img.at(x + row_offset(k), y + col_offset(k)));
        }
        assert(sub.at(u, y) == img.at(x, y));
    }
    assert forall|d: Dist, c: int| true implies
        #[trigger] class_diff(sub, nb, u, y, d, c, 9) == class_diff(img, nb, x, y, d, c, 9)
        && class_count(sub, nb, u, y, d, 9) == class_count(img, nb, x, y, d, 9) by {
        lemma_same_terms(sub, img, nb, u, x, y, d, c, 9);
    }
    assert(sub.at(u, y) == img.at(x, y));
}

} // verus!
