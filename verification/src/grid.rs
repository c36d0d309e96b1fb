//! The storage of a tensor's samples: a four-axis `ndarray` array, and what
//! is trusted of it.

use vstd::prelude::*;

verus! {

/// A dense four-axis array of fixed-point samples, stored by `ndarray`.
///
/// The array itself is opaque to the verifier. What it holds is named by
/// [`cells`] and its axis lengths by [`extent`]; the functions below that touch
/// the array state their effect on those two names and are trusted to match
/// `ndarray`'s behaviour.
#[verifier::external_body]
pub struct Grid {
    inner: ndarray::Array4<i32>,
}

/// The sample stored at each index `(n, c, h, w)` of a grid.
pub uninterp spec fn cells(g: Grid) -> Map<(int, int, int, int), i32>;

/// The four axis lengths of a grid.
pub uninterp spec fn extent(g: Grid) -> (nat, nat, nat, nat);

impl Grid {
    /// The sample at index `(n, c, h, w)`.
    pub open spec fn at(self, n: int, c: int, h: int, w: int) -> i32 {
        cells(self)[(n, c, h, w)]
    }
}

/// Product of the axis lengths that are not zero.
pub open spec fn nonzero_volume(n: nat, c: nat, h: nat, w: nat) -> nat {
    (if n == 0 { 1 } else { n }) * (if c == 0 { 1 } else { c })
        * (if h == 0 { 1 } else { h }) * (if w == 0 { 1 } else { w })
}

/// Number of cells of a grid with the given axis lengths.
pub open spec fn volume(n: nat, c: nat, h: nat, w: nat) -> nat {
    n * c * h * w
}

/// Whether a grid of the given shape can be allocated: the product of its
/// non-zero axis lengths is at most `isize::MAX`, and so is the size of its
/// cells in bytes, four to a cell.
pub open spec fn allocatable(n: nat, c: nat, h: nat, w: nat) -> bool {
    nonzero_volume(n, c, h, w) <= isize::MAX && 4 * volume(n, c, h, w) <= isize::MAX
}

/// Whether `(n, c, h, w)` indexes a cell of a grid with axis lengths `e`.
pub open spec fn in_extent(e: (nat, nat, nat, nat), n: int, c: int, h: int, w: int) -> bool {
    0 <= n < e.0 && 0 <= c < e.1 && 0 <= h < e.2 && 0 <= w < e.3
}

/// Trusted: `ndarray::Array4::<i32>::zeros`. The call panics when the product
/// of the non-zero axis lengths exceeds `isize::MAX`, and the vector it
/// allocates panics when its bytes do; both are excluded. Otherwise it returns
/// an array of the given shape whose every cell is zero.
#[verifier::external_body]
pub(crate) fn grid_zeros(n: usize, c: usize, h: usize, w: usize) -> (g: Grid)
    requires
        allocatable(n as nat, c as nat, h as nat, w as nat),
    ensures
        extent(g) == (n as nat, c as nat, h as nat, w as nat),
        forall|i: int, j: int, k: int, l: int|
            in_extent(extent(g), i, j, k, l) ==> #[trigger] g.at(i, j, k, l) == 0,
{
    Grid { inner: ndarray::Array4::<i32>::zeros((n, c, h, w)) }
}

/// Trusted: `ndarray::ArrayBase::dim`, which returns the axis lengths. Every
/// array that `ndarray` builds keeps the product of its non-zero axis lengths
/// within `isize::MAX` (its constructors refuse a larger shape), and holds its
/// cells in a vector, which never has more than `isize::MAX` bytes; so the
/// lengths returned are those of a shape that can be allocated.
#[verifier::external_body]
pub(crate) fn grid_dim(g: &Grid) -> (d: (usize, usize, usize, usize))
    ensures
        extent(*g) == (d.0 as nat, d.1 as nat, d.2 as nat, d.3 as nat),
        allocatable(d.0 as nat, d.1 as nat, d.2 as nat, d.3 as nat),
{
    g.inner.dim()
}

/// Trusted: `ndarray`'s `Index` on a four-axis array. It panics out of bounds,
/// which is excluded, and otherwise returns the cell at the index.
#[verifier::external_body]
pub(crate) fn grid_get(g: &Grid, n: usize, c: usize, h: usize, w: usize) -> (v: i32)
    requires
        in_extent(extent(*g), n as int, c as int, h as int, w as int),
    ensures
        v == g.at(n as int, c as int, h as int, w as int),
{
    g.inner[(n, c, h, w)]
}

/// Trusted: `ndarray`'s `IndexMut` on a four-axis array. It panics out of
/// bounds, which is excluded; otherwise the cell at the index becomes `v`, and
/// the shape and every other cell stay as they were.
#[verifier::external_body]
pub(crate) fn grid_set(g: &mut Grid, n: usize, c: usize, h: usize, w: usize, v: i32)
    requires
        in_extent(extent(*old(g)), n as int, c as int, h as int, w as int),
    ensures
        extent(*final(g)) == extent(*old(g)),
        cells(*final(g)) == cells(*old(g)).insert((n as int, c as int, h as int, w as int), v),
{
    g.inner[(n, c, h, w)] = v;
}

/// Trusted: `Clone` for an owned `ndarray` array, which copies shape and cells.
#[verifier::external_body]
pub(crate) fn grid_clone(g: &Grid) -> (r: Grid)
    ensures
        extent(r) == extent(*g),
        cells(r) == cells(*g),
{
    Grid { inner: g.inner.clone() }
}

/// Whether index `a` comes before index `b` in row-major order.
pub open spec fn precedes(a: (int, int, int, int), b: (int, int, int, int)) -> bool {
    a.0 < b.0 || (a.0 == b.0 && (a.1 < b.1 || (a.1 == b.1 && (a.2 < b.2 || (a.2 == b.2 && a.3
        < b.3)))))
}

/// Whether a grid of the given shape can be allocated.
pub fn shape_fits(n: usize, c: usize, h: usize, w: usize) -> (fits: bool)
    ensures
        fits <==> allocatable(n as nat, c as nat, h as nat, w as nat),
{
    let a: u128 = if n == 0 { 1 } else { n as u128 };
    let b: u128 = if c == 0 { 1 } else { c as u128 };
    let x: u128 = if h == 0 { 1 } else { h as u128 };
    let y: u128 = if w == 0 { 1 } else { w as u128 };
    let limit: u128 = isize::MAX as u128;
    assert(nonzero_volume(n as nat, c as nat, h as nat, w as nat) == a * b * x * y);
    assert(a * b <= 0xffff_ffff_ffff_ffff * 0xffff_ffff_ffff_ffff) by (nonlinear_arith)
        requires
            a <= 0xffff_ffff_ffff_ffff,
            b <= 0xffff_ffff_ffff_ffff,
    ;
    let ab: u128 = a * b;
    if ab > limit {
        assert(a * b * x * y >= a * b) by (nonlinear_arith)
            requires
                a * b >= 0,
                x >= 1,
                y >= 1,
        ;
        return false;
    }
    assert(ab * x <= 0x8000_0000_0000_0000 * 0x1_0000_0000_0000_0000) by (nonlinear_arith)
        requires
            ab <= 0x8000_0000_0000_0000,
            x <= 0x1_0000_0000_0000_0000,
    ;
    let abx: u128 = ab * x;
    if abx > limit {
        assert(a * b * x * y >= a * b * x) by (nonlinear_arith)
            requires
                a * b * x >= 0,
                y >= 1,
        ;
        return false;
    }
    assert(abx * y <= 0x8000_0000_0000_0000 * 0x1_0000_0000_0000_0000) by (nonlinear_arith)
        requires
            abx <= 0x8000_0000_0000_0000,
            y <= 0x1_0000_0000_0000_0000,
    ;
    let all: u128 = abx * y;
    if all > limit {
        return false;
    }
    if n == 0 || c == 0 || h == 0 || w == 0 {
        assert(volume(n as nat, c as nat, h as nat, w as nat) == 0) by (nonlinear_arith)
            requires
                n == 0 || c == 0 || h == 0 || w == 0,
                volume(n as nat, c as nat, h as nat, w as nat) == n * c * h * w,
        ;
        true
    } else {
        assert(volume(n as nat, c as nat, h as nat, w as nat) == all);
        4 * all <= limit
    }
}

impl Grid {
    /// A grid of the given shape with every cell zero, or `None` when the
    /// shape cannot be allocated.
    pub fn zeros(n: usize, c: usize, h: usize, w: usize) -> (r: Option<Grid>)
        ensures
            r is Some <==> allocatable(n as nat, c as nat, h as nat, w as nat),
            r matches Some(g) ==> extent(g) == (n as nat, c as nat, h as nat, w as nat)
                && forall|i: int, j: int, k: int, l: int|
                in_extent(extent(g), i, j, k, l) ==> #[trigger] g.at(i, j, k, l) == 0,
    {
        if shape_fits(n, c, h, w) {
            Some(grid_zeros(n, c, h, w))
        } else {
            None
        }
    }

    /// Builds a grid of the given shape whose cell at each index is what `f`
    /// returns for that index. `f` is called once per cell, in row-major order.
    pub fn tabulate<F: Fn(usize, usize, usize, usize) -> i32>(
        n: usize,
        c: usize,
        h: usize,
        w: usize,
        f: F,
    ) -> (g: Grid)
        requires
            allocatable(n as nat, c as nat, h as nat, w as nat),
            forall|i: usize, j: usize, k: usize, l: usize|
                in_extent((n as nat, c as nat, h as nat, w as nat), i as int, j as int, k as int, l as int)
                    ==> #[trigger] call_requires(f, (i, j, k, l)),
        ensures
            extent(g) == (n as nat, c as nat, h as nat, w as nat),
            forall|i: usize, j: usize, k: usize, l: usize|
                in_extent(extent(g), i as int, j as int, k as int, l as int) ==> call_ensures(
                    f,
                    (i, j, k, l),
                    #[trigger] g.at(i as int, j as int, k as int, l as int),
                ),
    {
        let mut g = grid_zeros(n, c, h, w);
        if n == 0 || c == 0 || h == 0 || w == 0 {
            return g;
        }
        let mut i: usize = 0;
        let mut j: usize = 0;
        let mut k: usize = 0;
        let mut l: usize = 0;
        loop
            invariant_except_break
                i < n && j < c && k < h && l < w,
            invariant
                extent(g) == (n as nat, c as nat, h as nat, w as nat),
                n > 0 && c > 0 && h > 0 && w > 0,
                i <= n,
                forall|a: usize, b: usize, x: usize, y: usize|
                    in_extent((n as nat, c as nat, h as nat, w as nat), a as int, b as int, x as int, y as int)
                        ==> #[trigger] call_requires(f, (a, b, x, y)),
                forall|a: usize, b: usize, x: usize, y: usize|
                    in_extent(extent(g), a as int, b as int, x as int, y as int) && precedes(
                        (a as int, b as int, x as int, y as int),
                        (i as int, j as int, k as int, l as int),
                    ) ==> call_ensures(
                        f,
                        (a, b, x, y),
                        #[trigger] g.at(a as int, b as int, x as int, y as int),
                    ),
            ensures
                i == n,
            decreases n - i, c - j, h - k, w - l,
        {
            let v = f(i, j, k, l);
            let ghost before = g;
            let ghost cur = (i as int, j as int, k as int, l as int);
            grid_set(&mut g, i, j, k, l, v);
            proof {
                assert forall|a: usize, b: usize, x: usize, y: usize|
                    in_extent(extent(g), a as int, b as int, x as int, y as int) && (precedes(
                        (a as int, b as int, x as int, y as int),
                        cur,
                    ) || (a as int, b as int, x as int, y as int) == cur) implies call_ensures(
                    f,
                    (a, b, x, y),
                    #[trigger] g.at(a as int, b as int, x as int, y as int),
                ) by {
                    let key = (a as int, b as int, x as int, y as int);
                    if key == cur {
                        assert(a == i && b == j && x == k && y == l);
                        assert(g.at(a as int, b as int, x as int, y as int) == v);
                    } else {
                        assert(g.at(a as int, b as int, x as int, y as int) == before.at(
                            a as int,
                            b as int,
                            x as int,
                            y as int,
                        ));
                    }
                }
            }
            l = l + 1;
            if l == w {
                l = 0;
                k = k + 1;
                if k == h {
                    k = 0;
                    j = j + 1;
                    if j == c {
                        j = 0;
                        i = i + 1;
                        if i == n {
                            break;
                        }
                    }
                }
            }
        }
        g
    }
}

} // verus!
