//! Drawing below the screen's resolution: the scene renders into an
//! offscreen image at the chosen size (1080p on a 4K TV, say) and one pass
//! stretches it over the screen. This module holds the size arithmetic.

use vstd::prelude::*;

verus! {

/// The size to draw at for a screen of `screen` pixels with at most
/// `max_height` rows: the screen's own when it's no taller, else that
/// height with the width scaled to keep the shape (rounded down, at least
/// one pixel).
pub open spec fn render_dims(screen: (u32, u32), max_height: Option<u32>) -> (int, int) {
    match max_height {
        Some(h) => if screen.1 > h && h > 0 {
            let w = (screen.0 as int * h as int) / screen.1 as int;
            (if w < 1 {
                1
            } else {
                w
            }, h as int)
        } else {
            (screen.0 as int, screen.1 as int)
        },
        None => (screen.0 as int, screen.1 as int),
    }
}

/// The size to draw at for a `screen` of this size: the screen's own when
/// it's no taller than `max_height`, else scaled down to that height
/// (keeping the shape).
pub fn render_size(screen: (u32, u32), max_height: Option<u32>) -> (r: (u32, u32))
    ensures
        (r.0 as int, r.1 as int) == render_dims(screen, max_height),
{
    match max_height {
        Some(h) if screen.1 > h && h > 0 => {
            let den: u64 = if screen.1 > 1 { screen.1 as u64 } else { 1 };
            assert(screen.0 as u64 * h as u64 <= u32::MAX as u64 * u32::MAX as u64) by (nonlinear_arith)
                requires
                    screen.0 <= u32::MAX,
                    h <= u32::MAX,
            ;
            let prod: u64 = screen.0 as u64 * h as u64;
            assert(prod <= screen.0 as u64 * screen.1 as u64) by (nonlinear_arith)
                requires
                    prod == screen.0 as u64 * h as u64,
                    h < screen.1,
            ;
            let w64 = prod / den;
            assert(w64 <= screen.0) by (nonlinear_arith)
                requires
                    w64 == prod / den,
                    prod <= screen.0 * den,
                    den > 0,
            ;
            let w = w64 as u32;
            (if w > 1 { w } else { 1 }, h)
        },
        _ => screen,
    }
}

/// The drawing size is never larger than the screen, never taller than the
/// limit when the screen is taller, and keeps the screen's shape: the width
/// is the screen's width scaled by the same factor as the height, rounded
/// down (but at least one pixel).
pub proof fn law_render_size_never_scales_up(screen: (u32, u32), max_height: Option<u32>)
    ensures
        ({
            let (w, h) = render_dims(screen, max_height);
            &&& h <= screen.1
            &&& screen.0 > 0 ==> 1 <= w <= screen.0
            &&& match max_height {
                Some(m) => m > 0 && screen.1 > m ==> h == m && (w == 1 || (w * screen.1 <= screen.0
                    * m < (w + 1) * screen.1)),
                None => true,
            }
            &&& (max_height is None || max_height == Some(0u32) || screen.1 <= max_height->0)
                ==> (w, h) == (screen.0 as int, screen.1 as int)
        }),
{
    if let Some(m) = max_height {
        if m > 0 && screen.1 > m {
            let x = screen.0 as int * m as int;
            let q = x / screen.1 as int;
            assert(q * screen.1 <= x < (q + 1) * screen.1) by (nonlinear_arith)
                requires
                    q == x / screen.1 as int,
                    screen.1 > 0,
            ;
            assert(x <= screen.0 as int * screen.1 as int) by (nonlinear_arith)
                requires
                    x == screen.0 as int * m as int,
                    m < screen.1,
            ;
            assert(q <= screen.0) by (nonlinear_arith)
                requires
                    q * screen.1 <= x,
                    x <= screen.0 as int * screen.1 as int,
                    screen.1 > 0,
            ;
        }
    }
}

} // verus!
