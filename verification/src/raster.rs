//! Circle rasterization.
//!
//! Given a center `(cx, cy)` and an integer radius `r`, the rasterizer emits
//! the boundary pixels of the circle `(x - cx)^2 + (y - cy)^2 = r^2` in two
//! passes: one driven by `x` over `[cx - r, cx + r)` and one driven by `y`
//! over `[cy - r, cy + r)`. Each step emits a point on the half circle and
//! its mirror across the center line. The offset from the center line is the
//! integer square root (truncation toward zero) of `r^2` minus the squared
//! distance from the center along the driving axis. The passes are not
//! deduplicated: a coordinate may appear twice, and for `r <= 0` nothing is
//! emitted.

use vstd::prelude::*;

verus! {

/// Floor of the square root of `n` (zero for `n <= 0`).
pub open spec fn spec_isqrt(n: int) -> int
    decreases n,
{
    if n <= 0 {
        0
    } else {
        let s = spec_isqrt(n - 1);
        if (s + 1) * (s + 1) <= n {
            s + 1
        } else {
            s
        }
    }
}

/// `spec_isqrt(n)` is the unique nonnegative `s` with `s^2 <= n < (s+1)^2`.
pub proof fn lemma_isqrt_bounds(n: int)
    requires
        n >= 0,
    ensures
        spec_isqrt(n) >= 0,
        spec_isqrt(n) * spec_isqrt(n) <= n,
        n < (spec_isqrt(n) + 1) * (spec_isqrt(n) + 1),
    decreases n,
{
    if n > 0 {
        lemma_isqrt_bounds(n - 1);
        let s = spec_isqrt(n - 1);
        if (s + 1) * (s + 1) <= n {
            assert((s + 1) * (s + 1) < (s + 2) * (s + 2)) by (nonlinear_arith)
                requires
                    s >= 0,
            ;
        }
    }
}

/// Any nonnegative `s` with `s^2 <= n < (s+1)^2` equals `spec_isqrt(n)`.
pub proof fn lemma_isqrt_unique(n: int, s: int)
    requires
        n >= 0,
        s >= 0,
        s * s <= n,
        n < (s + 1) * (s + 1),
    ensures
        s == spec_isqrt(n),
{
    lemma_isqrt_bounds(n);
    let t = spec_isqrt(n);
    if s < t {
        assert((s + 1) * (s + 1) <= t * t) by (nonlinear_arith)
            requires
                0 <= s,
                s + 1 <= t,
        ;
    }
    if t < s {
        assert((t + 1) * (t + 1) <= s * s) by (nonlinear_arith)
            requires
                0 <= t,
                t + 1 <= s,
        ;
    }
}

/// Integer square root by binary search.
pub fn isqrt64(n: u64) -> (r: u64)
    ensures
        r as int == spec_isqrt(n as int),
        r * r <= n,
{
    let mut lo: u64 = 0;
    let mut hi: u64 = 0x1_0000_0000;
    proof {
        assert((hi as int) * (hi as int) > n as int) by (nonlinear_arith)
            requires
                hi == 0x1_0000_0000u64,
                n <= u64::MAX,
        ;
    }
    while lo + 1 < hi
        invariant
            lo < hi <= 0x1_0000_0000u64,
            (lo as int) * (lo as int) <= n as int,
            (n as int) < (hi as int) * (hi as int),
        decreases hi - lo,
    {
        let mid = lo + (hi - lo) / 2;
        proof {
            assert((mid as int) * (mid as int) < 0x1_0000_0000_0000_0000) by (nonlinear_arith)
                requires
                    mid < 0x1_0000_0000u64,
            ;
        }
        if mid * mid <= n {
            lo = mid;
        } else {
            hi = mid;
        }
    }
    proof {
        lemma_isqrt_unique(n as int, lo as int);
        lemma_isqrt_bounds(n as int);
    }
    lo
}

/// The offset from the center line used by a pass at signed distance `d`
/// along the driving axis from the center of a circle of radius `r`.
pub open spec fn spec_offset(r: int, d: int) -> int {
    spec_isqrt(r * r - d * d)
}

/// The pixels emitted by the x-driven pass, in emission order: for the k-th
/// `x` in `[cx - r, cx + r)`, first `(x, cy + spec_offset(r, x - cx))`, then
/// its vertical mirror across `cy`.
pub open spec fn spec_x_pass(cx: int, cy: int, r: int) -> Seq<(int, int)> {
    Seq::new(
        if r > 0 {
            (4 * r) as nat
        } else {
            0
        },
        |i: int|
            {
                let x = cx - r + i / 2;
                let y = cy + spec_offset(r, x - cx);
                if i % 2 == 0 {
                    (x, y)
                } else {
                    (x, 2 * cy - y)
                }
            },
    )
}

/// The pixels emitted by the y-driven pass, in emission order: for the k-th
/// `y` in `[cy - r, cy + r)`, first `(cx + spec_offset(r, y - cy), y)`, then
/// its horizontal mirror across `cx`.
pub open spec fn spec_y_pass(cx: int, cy: int, r: int) -> Seq<(int, int)> {
    Seq::new(
        if r > 0 {
            (4 * r) as nat
        } else {
            0
        },
        |i: int|
            {
                let y = cy - r + i / 2;
                let x = cx + spec_offset(r, y - cy);
                if i % 2 == 0 {
                    (x, y)
                } else {
                    (2 * cx - x, y)
                }
            },
    )
}

/// Everything the rasterizer emits for one circle: the x-driven pass
/// followed by the y-driven pass.
pub open spec fn spec_circle_points(cx: int, cy: int, r: int) -> Seq<(int, int)> {
    spec_x_pass(cx, cy, r) + spec_y_pass(cx, cy, r)
}

/// The mathematical coordinates held by a vector of emitted pixels.
pub open spec fn pixel_seq(v: Seq<(i64, i64)>) -> Seq<(int, int)> {
    v.map_values(|p: (i64, i64)| (p.0 as int, p.1 as int))
}

/// Computes the offset from the center line for one step of a pass.
fn offset64(r: i32, d: i64) -> (s: i64)
    requires
        r > 0,
        -(r as int) <= d <= r as int,
    ensures
        s == spec_offset(r as int, d as int),
        0 <= s <= r,
{
    proof {
        assert(0 < (r as int) * (r as int) <= 0x3fff_ffff_0000_0001) by (nonlinear_arith)
            requires
                0 < r <= 0x7fff_ffff,
        ;
        assert(0 <= (d as int) * (d as int) <= (r as int) * (r as int)) by (nonlinear_arith)
            requires
                -(r as int) <= d as int <= r as int,
        ;
    }
    let rr: i64 = (r as i64) * (r as i64);
    let n: i64 = rr - d * d;
    let s = isqrt64(n as u64);
    proof {
        lemma_isqrt_bounds(n as int);
        assert(spec_isqrt(n as int) <= r as int) by {
            if spec_isqrt(n as int) > r as int {
                assert((r as int + 1) * (r as int + 1) > rr) by (nonlinear_arith)
                    requires
                        rr == (r as int) * (r as int),
                        r > 0,
                ;
                assert(spec_isqrt(n as int) * spec_isqrt(n as int) >= (r as int + 1) * (r as int
                    + 1)) by (nonlinear_arith)
                    requires
                        spec_isqrt(n as int) >= r as int + 1,
                        r > 0,
                ;
            }
        }
    }
    s as i64
}

/// Emits the boundary pixels of the circle with center `(cx, cy)` and radius
/// `r`, in the order the two passes produce them; nothing for `r <= 0`.
pub fn raster_circle(cx: i32, cy: i32, r: i32) -> (pixels: Vec<(i64, i64)>)
    ensures
        pixel_seq(pixels@) == spec_circle_points(cx as int, cy as int, r as int),
        r > 0 ==> pixels@.len() == 8 * r,
        r <= 0 ==> pixels@.len() == 0,
{
    let mut pixels: Vec<(i64, i64)> = Vec::new();
    if r <= 0 {
        proof {
            assert(pixel_seq(pixels@) =~= spec_circle_points(cx as int, cy as int, r as int));
        }
        return pixels;
    }
    let cxw: i64 = cx as i64;
    let cyw: i64 = cy as i64;
    let rw: i64 = r as i64;
    let ghost xp = spec_x_pass(cx as int, cy as int, r as int);
    let ghost yp = spec_y_pass(cx as int, cy as int, r as int);
    let mut k: i64 = 0;
    while k < 2 * rw
        invariant
            r > 0,
            cxw == cx as int,
            cyw == cy as int,
            rw == r as int,
            0 <= k <= 2 * rw,
            xp == spec_x_pass(cx as int, cy as int, r as int),
            pixels@.len() == 2 * k,
            pixel_seq(pixels@) =~= xp.take(2 * k),
        decreases 2 * rw - k,
    {
        let x: i64 = cxw - rw + k;
        let s = offset64(r, x - cxw);
        let y: i64 = cyw + s;
        pixels.push((x, y));
        pixels.push((x, 2 * cyw - y));
        proof {
            assert(xp[2 * k] == (x as int, y as int));
            assert(xp[2 * k + 1] == (x as int, 2 * (cy as int) - y as int));
            assert(pixel_seq(pixels@) =~= xp.take(2 * (k + 1)));
        }
        k = k + 1;
    }
    proof {
        assert(pixel_seq(pixels@) =~= xp);
    }
    let mut k: i64 = 0;
    while k < 2 * rw
        invariant
            r > 0,
            cxw == cx as int,
            cyw == cy as int,
            rw == r as int,
            0 <= k <= 2 * rw,
            xp == spec_x_pass(cx as int, cy as int, r as int),
            yp == spec_y_pass(cx as int, cy as int, r as int),
            pixels@.len() == 4 * rw + 2 * k,
            pixel_seq(pixels@) =~= xp + yp.take(2 * k),
        decreases 2 * rw - k,
    {
        let ghost prev = pixels@;
        let y: i64 = cyw - rw + k;
        let s = offset64(r, y - cyw);
        let x: i64 = cxw + s;
        pixels.push((x, y));
        pixels.push((2 * cxw - x, y));
        proof {
            assert(yp[2 * k] == (x as int, y as int));
            assert(yp[2 * k + 1] == (2 * (cx as int) - x as int, y as int));
            assert(pixels@ == prev.push((x, y)).push(((2 * cxw - x) as i64, y)));
            assert(pixel_seq(pixels@) =~= pixel_seq(prev).push(yp[2 * k]).push(yp[2 * k + 1]));
            assert(pixel_seq(pixels@) =~= xp + yp.take(2 * (k + 1)));
        }
        k = k + 1;
    }
    proof {
        assert(pixel_seq(pixels@) =~= spec_circle_points(cx as int, cy as int, r as int));
    }
    pixels
}

/// Law: every pixel of the x-driven pass lies on the circle up to the
/// truncation of the square root. With `dx` and `dy` its offsets from the
/// center, `dx^2 + dy^2` does not exceed `r^2`, and growing the magnitude of
/// `dy` by one would overshoot it.
pub proof fn lemma_x_pass_on_circle(cx: int, cy: int, r: int, i: int)
    requires
        r > 0,
        0 <= i < 4 * r,
    ensures
        ({
            let p = spec_x_pass(cx, cy, r)[i];
            let dx = p.0 - cx;
            let dy = if p.1 >= cy {
                p.1 - cy
            } else {
                cy - p.1
            };
            dx * dx + dy * dy <= r * r && r * r < dx * dx + (dy + 1) * (dy + 1)
        }),
{
    let p = spec_x_pass(cx, cy, r)[i];
    let x = cx - r + i / 2;
    let dx = x - cx;
    assert(dx * dx <= r * r) by (nonlinear_arith)
        requires
            -r <= dx < r,
            r > 0,
    ;
    lemma_isqrt_bounds(r * r - dx * dx);
    let s = spec_offset(r, dx);
    if i % 2 == 0 {
        assert(p.1 - cy == s);
    } else {
        assert(cy - p.1 == s);
    }
}

/// Law: every pixel of the x-driven pass is emitted together with its
/// vertical mirror across the center: if `(x, y)` stands at position `i`,
/// then `(x, 2*cy - y)` stands at the adjacent position of the same step.
pub proof fn lemma_x_pass_mirror(cx: int, cy: int, r: int, i: int)
    requires
        r > 0,
        0 <= i < 4 * r,
    ensures
        ({
            let p = spec_x_pass(cx, cy, r)[i];
            let j = if i % 2 == 0 {
                i + 1
            } else {
                i - 1
            };
            0 <= j < 4 * r && spec_x_pass(cx, cy, r)[j] == (p.0, 2 * cy - p.1)
        }),
{
    let j = if i % 2 == 0 {
        i + 1
    } else {
        i - 1
    };
    assert(j / 2 == i / 2);
}

/// Law: every pixel of the y-driven pass is emitted together with its
/// horizontal mirror across the center: if `(x, y)` stands at position `i`,
/// then `(2*cx - x, y)` stands at the adjacent position of the same step.
pub proof fn lemma_y_pass_mirror(cx: int, cy: int, r: int, i: int)
    requires
        r > 0,
        0 <= i < 4 * r,
    ensures
        ({
            let p = spec_y_pass(cx, cy, r)[i];
            let j = if i % 2 == 0 {
                i + 1
            } else {
                i - 1
            };
            0 <= j < 4 * r && spec_y_pass(cx, cy, r)[j] == (2 * cx - p.0, p.1)
        }),
{
    let j = if i % 2 == 0 {
        i + 1
    } else {
        i - 1
    };
    assert(j / 2 == i / 2);
}

} // verus!
