//! Window geometry: the master/stack tiling, the column tiling, the size a
//! window gets inside its border, and the placement of floating windows.
use vstd::prelude::*;
use crate::wm_core::WindowId;

verus! {

/// Where a window goes and how large it is inside its border.
#[derive(Clone, Copy, Debug, PartialEq, Eq, Structural)]
pub struct Placement {
    pub window: WindowId,
    pub x: u32,
    pub y: u32,
    pub width: u32,
    pub height: u32,
    pub border_width: u32,
}

/// A window and the rectangle it covers (no border).
#[derive(Clone, Copy, Debug, PartialEq, Eq, Structural)]
pub struct Frame {
    pub window: WindowId,
    pub x: u32,
    pub y: u32,
    pub width: u32,
    pub height: u32,
}

/// A rectangle in screen coordinates, as integers.
pub struct Rect {
    pub x: int,
    pub y: int,
    pub width: int,
    pub height: int,
}

/// The size a window gets when `extent` pixels must hold it and a border
/// of `border` pixels on both sides; 1 where the borders take it all.
pub open spec fn inner_extent(extent: int, border: int) -> int {
    if extent > 2 * border {
        extent - 2 * border
    } else {
        1
    }
}

/// The placement of `window` in the rectangle at (`x`, `y`) of `w` by `h`
/// pixels, with a border of `border` pixels.
pub open spec fn spec_placement(window: WindowId, x: int, y: int, w: int, h: int, border: int) -> Placement {
    Placement {
        window,
        x: x as u32,
        y: y as u32,
        width: inner_extent(w, border) as u32,
        height: inner_extent(h, border) as u32,
        border_width: border as u32,
    }
}

/// Fits a window into the rectangle at (`x`, `y`) of `w` by `h` pixels:
/// its size shrinks by the border on both sides, but never below 1.
pub fn client_geometry(window: WindowId, x: u32, y: u32, w: u32, h: u32, border_width: u32) -> (p: Placement)
    requires
        2 * border_width <= u32::MAX,
    ensures
        p == spec_placement(window, x as int, y as int, w as int, h as int, border_width as int),
{
    let double = 2 * border_width;
    let width = if w > double {
        w - double
    } else {
        1
    };
    let height = if h > double {
        h - double
    } else {
        1
    };
    Placement { window, x, y, width, height, border_width }
}

/// The height of the area below the top margin.
pub open spec fn area_height(top: int, sh: int) -> int {
    sh - top
}

/// The height of each window of the stack column, where `n` windows are
/// tiled.
pub open spec fn stack_height(n: int, top: int, sh: int) -> int {
    area_height(top, sh) / (n - 1)
}

/// The rectangle of the `k`-th of `n` tiled windows, borders included, on
/// a screen of `sw` by `sh` pixels, below a top margin of `top` pixels,
/// with gaps of `g` pixels and a master column `mw` pixels wide.
///
/// One window fills the area less the gap on every side. With more, the
/// first takes the master column on the left and the others share the
/// column on the right in equal heights, top to bottom.
pub open spec fn spec_tile(k: int, n: int, top: int, sw: int, sh: int, g: int, mw: int) -> Rect {
    let lh = area_height(top, sh);
    if n == 1 {
        Rect { x: g, y: top + g, width: sw - 2 * g, height: lh - 2 * g }
    } else if k == 0 {
        Rect { x: g, y: top + g, width: mw - (g + g / 2), height: lh - 2 * g }
    } else {
        let h = stack_height(n, top, sh);
        Rect {
            x: mw + g / 2,
            y: top + (k - 1) * h + g,
            width: (sw - mw) - (g + g / 2),
            height: h - 2 * g,
        }
    }
}

/// Whether tiling `n` windows with these settings stays inside the range
/// of `u32` at every step of the computation.
pub open spec fn tiling_fits(n: int, top: int, sw: int, sh: int, g: int, border: int, mw: int) -> bool {
    let lh = area_height(top, sh);
    &&& n >= 1 ==> 2 * border <= u32::MAX
    &&& top <= sh
    &&& n == 1 ==> {
        &&& 2 * g <= sw
        &&& 2 * g <= lh
        &&& top + g <= u32::MAX
    }
    &&& n >= 2 ==> {
        &&& n - 1 <= u32::MAX
        &&& mw <= sw
        &&& g + g / 2 <= mw
        &&& g + g / 2 <= sw - mw
        &&& mw + g / 2 <= u32::MAX
        &&& 2 * g <= lh
        &&& top + g <= u32::MAX
        &&& 2 * g <= stack_height(n, top, sh)
        &&& top + (n - 2) * stack_height(n, top, sh) + g <= u32::MAX
    }
}

/// Whether tiling `n` windows with these settings stays inside the range
/// of `u32` at every step (see `tiling_fits`).
pub fn tiling_fits_check(n: usize, top: u32, sw: u32, sh: u32, g: u32, border: u32, mw: u32) -> (b: bool)
    ensures
        b == tiling_fits(n as int, top as int, sw as int, sh as int, g as int, border as int, mw as int),
{
    if top > sh {
        return false;
    }
    if n == 0 {
        return true;
    }
    if (border as u64) * 2 > u32::MAX as u64 {
        return false;
    }
    let lh = (sh - top) as u64;
    let g64 = g as u64;
    let top64 = top as u64;
    if n == 1 {
        return 2 * g64 <= sw as u64 && 2 * g64 <= lh && top64 + g64 <= u32::MAX as u64;
    }
    if n - 1 > u32::MAX as usize {
        return false;
    }
    let mw64 = mw as u64;
    let sw64 = sw as u64;
    if mw64 > sw64 {
        return false;
    }
    let h = lh / ((n - 1) as u64);
    proof {
        assert((n - 2) * (h as int) <= lh) by (nonlinear_arith)
            requires
                h == (lh as int) / ((n - 1) as int),
                n >= 2,
                lh >= 0,
        ;
    }
    let far = ((n - 2) as u64) * h;
    g64 + g64 / 2 <= mw64 && g64 + g64 / 2 <= sw64 - mw64 && mw64 + g64 / 2 <= u32::MAX as u64 && 2
        * g64 <= lh && top64 + g64 <= u32::MAX as u64 && 2 * g64 <= h && top64 + far + g64
        <= u32::MAX as u64
}

/// The placement of the `k`-th of the tiled windows.
pub open spec fn spec_tiled_placement(
    tiled: Seq<WindowId>,
    k: int,
    top: int,
    sw: int,
    sh: int,
    g: int,
    border: int,
    mw: int,
) -> Placement {
    let r = spec_tile(k, tiled.len() as int, top, sw, sh, g, mw);
    spec_placement(tiled[k], r.x, r.y, r.width, r.height, border)
}

proof fn lemma_stack_offsets(i: int, h: int, lh: int, n: int)
    requires
        n >= 2,
        0 <= i < n - 1,
        h == lh / (n - 1),
        lh >= 0,
    ensures
        0 <= i * h,
        i * h + h <= lh,
        (i + 1) * h == i * h + h,
{
    assert(0 <= i * h) by (nonlinear_arith)
        requires
            0 <= i,
            0 <= h,
    ;
    assert((i + 1) * h == i * h + h) by (nonlinear_arith);
    assert((n - 1) * h <= lh) by (nonlinear_arith)
        requires
            h == lh / (n - 1),
            n - 1 > 0,
            lh >= 0,
    ;
    assert((i + 1) * h <= (n - 1) * h) by (nonlinear_arith)
        requires
            i + 1 <= n - 1,
            h >= 0,
    ;
}

/// Tiles the given windows on a screen of `sw` by `sh` pixels, below a top
/// margin of `top_margin` pixels, with gaps of `gap` pixels, borders of
/// `border_width` pixels and a master column `master_width` pixels wide:
/// one placement per window, in the order of `tiled`.
pub fn tile_windows(
    tiled: &Vec<WindowId>,
    top_margin: u32,
    sw: u32,
    sh: u32,
    gap: u32,
    border_width: u32,
    master_width: u32,
) -> (plan: Vec<Placement>)
    requires
        tiling_fits(
            tiled.len() as int,
            top_margin as int,
            sw as int,
            sh as int,
            gap as int,
            border_width as int,
            master_width as int,
        ),
    ensures
        plan.len() == tiled.len(),
        forall|k: int|
            0 <= k < plan.len() ==> plan[k] == spec_tiled_placement(
                tiled@,
                k,
                top_margin as int,
                sw as int,
                sh as int,
                gap as int,
                border_width as int,
                master_width as int,
            ),
{
    let n = tiled.len();
    let mut plan: Vec<Placement> = Vec::new();
    let g = gap;
    let layout_y = top_margin;
    let layout_height = sh - top_margin;
    if n == 0 {
        return plan;
    }
    if n == 1 {
        plan.push(client_geometry(tiled[0], g, layout_y + g, sw - 2 * g, layout_height - 2 * g, border_width));
        return plan;
    }
    let stack_width = sw - master_width;
    plan.push(
        client_geometry(
            tiled[0],
            g,
            layout_y + g,
            master_width - (g + g / 2),
            layout_height - 2 * g,
            border_width,
        ),
    );
    let stack_count = (n - 1) as u32;
    let stack_h = layout_height / stack_count;
    let mut i: usize = 1;
    while i < n
        invariant
            2 <= n == tiled.len(),
            1 <= i <= n,
            plan.len() == i,
            stack_count == n - 1,
            stack_width == sw - master_width,
            layout_y == top_margin,
            layout_height == sh - top_margin,
            stack_h == stack_height(n as int, top_margin as int, sh as int),
            g == gap,
            tiling_fits(
                n as int,
                top_margin as int,
                sw as int,
                sh as int,
                gap as int,
                border_width as int,
                master_width as int,
            ),
            forall|k: int|
                0 <= k < i ==> plan[k] == spec_tiled_placement(
                    tiled@,
                    k,
                    top_margin as int,
                    sw as int,
                    sh as int,
                    gap as int,
                    border_width as int,
                    master_width as int,
                ),
        decreases n - i,
    {
        let idx = (i - 1) as u32;
        proof {
            lemma_stack_offsets(idx as int, stack_h as int, layout_height as int, n as int);
            assert((idx as int) * (stack_h as int) <= (n - 2) * (stack_h as int)) by (nonlinear_arith)
                requires
                    idx <= n - 2,
                    stack_h >= 0,
            ;
            assert(top_margin + idx * stack_h + g <= u32::MAX);
        }
        let y = idx * stack_h;
        plan.push(
            client_geometry(
                tiled[i],
                master_width + g / 2,
                layout_y + y + g,
                stack_width - (g + g / 2),
                stack_h - 2 * g,
                border_width,
            ),
        );
        i = i + 1;
    }
    plan
}

/// The rectangle of the `k`-th of `n` windows laid out in equal columns
/// across a screen of `sw` by `sh` pixels.
pub open spec fn spec_column(k: int, n: int, sw: int, sh: int) -> Rect {
    let w = sw / n;
    Rect { x: k * w, y: 0, width: w, height: sh }
}

/// Lays the windows out in equal columns from left to right, each as high
/// as the screen.
pub fn column_layout(clients: &Vec<WindowId>, sw: u32, sh: u32) -> (frames: Vec<Frame>)
    requires
        clients.len() <= u32::MAX,
    ensures
        frames.len() == clients.len(),
        forall|k: int|
            #![trigger frames[k]]
            0 <= k < frames.len() ==> {
                let r = spec_column(k, clients.len() as int, sw as int, sh as int);
                frames[k] == Frame {
                    window: clients[k],
                    x: r.x as u32,
                    y: r.y as u32,
                    width: r.width as u32,
                    height: r.height as u32,
                }
            },
{
    let n = clients.len();
    let mut frames: Vec<Frame> = Vec::new();
    if n == 0 {
        return frames;
    }
    let width = sw / (n as u32);
    let mut i: usize = 0;
    while i < n
        invariant
            n == clients.len(),
            1 <= n <= u32::MAX,
            i <= n,
            frames.len() == i,
            width == sw / (n as u32),
            forall|k: int|
                #![trigger frames[k]]
                0 <= k < i ==> {
                    let r = spec_column(k, n as int, sw as int, sh as int);
                    frames[k] == Frame {
                        window: clients[k],
                        x: r.x as u32,
                        y: r.y as u32,
                        width: r.width as u32,
                        height: r.height as u32,
                    }
                },
        decreases n - i,
    {
        proof {
            assert((i as int) * (width as int) <= (n as int) * (width as int)) by (nonlinear_arith)
                requires
                    i <= n,
                    width >= 0,
            ;
            assert((n as int) * (width as int) <= sw) by (nonlinear_arith)
                requires
                    width == (sw as int) / (n as int),
                    n >= 1,
                    sw >= 0,
            ;
        }
        let x = (i as u32) * width;
        frames.push(Frame { window: clients[i], x, y: 0, width, height: sh });
        i = i + 1;
    }
    frames
}

/// The position that centres a `w` by `h` window on a `sw` by `sh` screen.
pub fn centered_origin(sw: u32, sh: u32, w: u32, h: u32) -> (origin: (u32, u32))
    requires
        w <= sw,
        h <= sh,
    ensures
        origin.0 == (sw - w) / 2,
        origin.1 == (sh - h) / 2,
{
    ((sw - w) / 2, (sh - h) / 2)
}

/// The position that centres a `w` by `h` window on a `sw` by `sh` screen,
/// or puts it at the screen's edge along a side where it is larger than
/// the screen.
pub fn centered_origin_saturating(sw: u32, sh: u32, w: u32, h: u32) -> (origin: (u32, u32))
    ensures
        origin.0 == if w <= sw { (sw - w) / 2 } else { 0 },
        origin.1 == if h <= sh { (sh - h) / 2 } else { 0 },
{
    let x = if w <= sw { (sw - w) / 2 } else { 0 };
    let y = if h <= sh { (sh - h) / 2 } else { 0 };
    (x, y)
}

/// The position of a window at (`x`, `y`) after a move by (`dx`, `dy`).
pub fn moved_origin(x: i16, y: i16, dx: i32, dy: i32) -> (origin: (i32, i32))
    requires
        i32::MIN <= x + dx <= i32::MAX,
        i32::MIN <= y + dy <= i32::MAX,
    ensures
        origin.0 == x + dx,
        origin.1 == y + dy,
{
    (x as i32 + dx, y as i32 + dy)
}

/// The extent of a window after growing it by `delta` pixels (shrinking
/// where `delta` is negative), never below 10 pixels.
pub fn resized_extent(extent: u16, delta: i32) -> (r: u32)
    requires
        extent + delta <= i32::MAX,
    ensures
        r == if extent + delta >= 10 { extent + delta } else { 10 },
{
    let v = extent as i32 + delta;
    let m = if v >= 10 { v } else { 10 };
    m as u32
}

/// Tiled windows never leave the screen or overlap: every rectangle of the
/// master/stack tiling lies inside the area below the top margin, and two
/// different windows' rectangles share no pixel.
pub proof fn lemma_tiles_fit_and_do_not_overlap(n: int, top: int, sw: int, sh: int, g: int, mw: int)
    requires
        n >= 1,
        0 <= top <= sh,
        0 <= g,
        0 <= sw,
        n == 1 ==> 2 * g <= sw && 2 * g <= sh - top,
        n >= 2 ==> {
            &&& mw <= sw
            &&& g + g / 2 <= mw
            &&& g + g / 2 <= sw - mw
            &&& 2 * g <= sh - top
            &&& 2 * g <= stack_height(n, top, sh)
        },
    ensures
        forall|k: int|
            #![trigger spec_tile(k, n, top, sw, sh, g, mw)]
            0 <= k < n ==> {
                let r = spec_tile(k, n, top, sw, sh, g, mw);
                &&& 0 <= r.x
                &&& r.x + r.width <= sw
                &&& top <= r.y
                &&& r.y + r.height <= sh
                &&& r.width >= 0
                &&& r.height >= 0
            },
        forall|k: int, l: int|
            #![trigger spec_tile(k, n, top, sw, sh, g, mw), spec_tile(l, n, top, sw, sh, g, mw)]
            0 <= k < l < n ==> {
                let a = spec_tile(k, n, top, sw, sh, g, mw);
                let b = spec_tile(l, n, top, sw, sh, g, mw);
                a.x + a.width <= b.x || b.x + b.width <= a.x || a.y + a.height <= b.y || b.y
                    + b.height <= a.y
            },
{
    let lh = sh - top;
    if n >= 2 {
        let h = stack_height(n, top, sh);
        assert(h >= 0) by (nonlinear_arith)
            requires
                h == lh / (n - 1),
                lh >= 0,
                n >= 2,
        ;
        assert forall|k: int| 1 <= k < n implies {
            let r = #[trigger] spec_tile(k, n, top, sw, sh, g, mw);
            &&& top <= r.y
            &&& r.y + r.height <= sh
        } by {
            lemma_stack_offsets(k - 1, h, lh, n);
        }
        assert forall|k: int, l: int| 1 <= k < l < n implies {
            let a = #[trigger] spec_tile(k, n, top, sw, sh, g, mw);
            let b = #[trigger] spec_tile(l, n, top, sw, sh, g, mw);
            a.y + a.height <= b.y
        } by {
            lemma_stack_offsets(k - 1, h, lh, n);
            assert((l - 1) * h >= (k - 1) * h + h) by (nonlinear_arith)
                requires
                    l - 1 >= k,
                    h >= 0,
                    k * h == (k - 1) * h + h,
            ;
        }
    }
}

/// With two or more windows the master column is the `mw` pixels at the
/// left of the screen and the stack column the rest: the first window runs
/// from a gap after the left edge to half a gap before `mw`, every other
/// window from half a gap after `mw` to a gap before the right edge, and
/// all of them start a gap below the top margin.
pub proof fn lemma_master_column_is_master_width(n: int, top: int, sw: int, sh: int, g: int, mw: int)
    requires
        n >= 2,
        g >= 0,
    ensures
        spec_tile(0, n, top, sw, sh, g, mw).x == g,
        spec_tile(0, n, top, sw, sh, g, mw).x + spec_tile(0, n, top, sw, sh, g, mw).width == mw - g / 2,
        spec_tile(0, n, top, sw, sh, g, mw).y == top + g,
        forall|k: int|
            #![trigger spec_tile(k, n, top, sw, sh, g, mw)]
            1 <= k < n ==> {
                let r = spec_tile(k, n, top, sw, sh, g, mw);
                &&& r.x == mw + g / 2
                &&& r.x + r.width == sw - g
            },
        spec_tile(1, n, top, sw, sh, g, mw).y == top + g,
{
}

/// A wider master column (a larger ratio) widens the first window by as
/// much and narrows every window of the stack by as much.
pub proof fn lemma_wider_master_column(n: int, top: int, sw: int, sh: int, g: int, mw1: int, mw2: int)
    requires
        n >= 2,
        g >= 0,
    ensures
        spec_tile(0, n, top, sw, sh, g, mw2).width - spec_tile(0, n, top, sw, sh, g, mw1).width == mw2
            - mw1,
        forall|k: int|
            #![trigger spec_tile(k, n, top, sw, sh, g, mw2)]
            1 <= k < n ==> spec_tile(k, n, top, sw, sh, g, mw1).width - spec_tile(k, n, top, sw, sh, g, mw2).width
                == mw2 - mw1,
{
}

/// Where the settings fit, the windows that `tile_windows` places after
/// the first stand at half a gap after the master column, and the first at
/// a gap from the left edge, a gap below the top margin.
pub proof fn lemma_tiled_positions(tiled: Seq<WindowId>, top: int, sw: int, sh: int, g: int, border: int, mw: int)
    requires
        tiled.len() >= 2,
        0 <= top,
        0 <= g,
        0 <= mw,
        tiling_fits(tiled.len() as int, top, sw, sh, g, border, mw),
    ensures
        spec_tiled_placement(tiled, 0, top, sw, sh, g, border, mw).x == g,
        spec_tiled_placement(tiled, 0, top, sw, sh, g, border, mw).y == top + g,
        spec_tiled_placement(tiled, 0, top, sw, sh, g, border, mw).window == tiled[0],
        forall|k: int|
            #![trigger spec_tiled_placement(tiled, k, top, sw, sh, g, border, mw)]
            1 <= k < tiled.len() ==> spec_tiled_placement(tiled, k, top, sw, sh, g, border, mw).x == mw
                + g / 2 && spec_tiled_placement(tiled, k, top, sw, sh, g, border, mw).window == tiled[k],
{
}

} // verus!
