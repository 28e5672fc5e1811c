use rustile::layout::{
    centered_origin, centered_origin_saturating, client_geometry, column_layout, moved_origin,
    resized_extent, tile_windows, tiling_fits_check, Frame, Placement,
};

fn p(window: u32, x: u32, y: u32, width: u32, height: u32, border_width: u32) -> Placement {
    Placement { window, x, y, width, height, border_width }
}

#[test]
fn client_geometry_subtracts_borders() {
    assert_eq!(client_geometry(7, 10, 20, 100, 50, 2), p(7, 10, 20, 96, 46, 2));
}

#[test]
fn client_geometry_never_below_one() {
    assert_eq!(client_geometry(7, 0, 0, 4, 3, 2), p(7, 0, 0, 1, 1, 2));
}

#[test]
fn single_window_fills_area_less_gaps() {
    let plan = tile_windows(&vec![1], 0, 1920, 1080, 10, 2, 960);
    assert_eq!(plan, vec![p(1, 10, 10, 1896, 1056, 2)]);
}

#[test]
fn master_and_stack_with_gaps() {
    let plan = tile_windows(&vec![1, 2, 3], 0, 1920, 1080, 10, 2, 960);
    assert_eq!(
        plan,
        vec![
            p(1, 10, 10, 941, 1056, 2),
            p(2, 965, 10, 941, 516, 2),
            p(3, 965, 550, 941, 516, 2),
        ]
    );
}

#[test]
fn top_margin_pushes_windows_down() {
    let plan = tile_windows(&vec![1, 2], 30, 1920, 1080, 10, 2, 960);
    assert_eq!(plan, vec![p(1, 10, 40, 941, 1026, 2), p(2, 965, 40, 941, 1026, 2)]);
}

#[test]
fn tiling_without_gaps() {
    let plan = tile_windows(&vec![4, 5], 0, 1000, 800, 0, 2, 500);
    assert_eq!(plan, vec![p(4, 0, 0, 496, 796, 2), p(5, 500, 0, 496, 796, 2)]);
}

#[test]
fn no_windows_no_plan() {
    assert!(tile_windows(&vec![], 10, 10, 10, 100, 2, 0).is_empty());
}

#[test]
fn columns_share_width() {
    let frames = column_layout(&vec![1, 2, 3], 900, 600);
    assert_eq!(
        frames,
        vec![
            Frame { window: 1, x: 0, y: 0, width: 300, height: 600 },
            Frame { window: 2, x: 300, y: 0, width: 300, height: 600 },
            Frame { window: 3, x: 600, y: 0, width: 300, height: 600 },
        ]
    );
    assert!(column_layout(&vec![], 900, 600).is_empty());
}

#[test]
fn centering() {
    assert_eq!(centered_origin(1920, 1080, 800, 600), (560, 240));
    assert_eq!(centered_origin(1920, 1080, 600, 400), (660, 340));
    assert_eq!(centered_origin_saturating(1920, 1080, 2000, 400), (0, 340));
    assert_eq!(centered_origin_saturating(1921, 1080, 800, 1080), (560, 0));
}

#[test]
fn moving_and_resizing_floating_windows() {
    assert_eq!(moved_origin(10, 20, -5, 5), (5, 25));
    assert_eq!(moved_origin(-10, 0, 0, -20), (-10, -20));
    assert_eq!(resized_extent(100, 20), 120);
    assert_eq!(resized_extent(100, -95), 10);
    assert_eq!(resized_extent(100, -90), 10);
    assert_eq!(resized_extent(100, -89), 11);
}

#[test]
fn tiling_range_checks() {
    assert!(tiling_fits_check(3, 0, 1920, 1080, 10, 2, 960));
    assert!(tiling_fits_check(0, 10, 10, 10, 100, 2, 0));
    assert!(!tiling_fits_check(0, 11, 10, 10, 0, 2, 0));
    assert!(!tiling_fits_check(1, 0, 15, 1080, 10, 2, 960));
    assert!(!tiling_fits_check(2, 0, 1920, 1080, 10, 2, 10));
    assert!(!tiling_fits_check(2, 0, 1920, 1080, 10, 2, 1920));
    assert!(!tiling_fits_check(5, 0, 1920, 60, 10, 2, 960));
    assert!(!tiling_fits_check(1, 0, 100, 100, 0, u32::MAX, 0));
    assert!(tiling_fits_check(0, 0, 100, 100, 0, u32::MAX, 0));
    assert!(tiling_fits_check(2, 0, 1000, 800, 0, 2, 500));
}

fn outer(p: &Placement) -> (u32, u32, u32, u32) {
    (p.x, p.y, p.x + p.width + 2 * p.border_width, p.y + p.height + 2 * p.border_width)
}

#[test]
fn tiles_stay_on_screen_and_apart() {
    for n in 1..7u32 {
        let tiled: Vec<u32> = (1..=n).collect();
        let plan = tile_windows(&tiled, 24, 1920, 1080, 8, 2, 1152);
        let rects: Vec<_> = plan.iter().map(outer).collect();
        for &(x0, y0, x1, y1) in &rects {
            assert!(x1 <= 1920 && y1 <= 1080 && y0 >= 24 && x0 < x1 && y0 < y1);
        }
        for i in 0..rects.len() {
            for j in (i + 1)..rects.len() {
                let (a, b) = (rects[i], rects[j]);
                assert!(a.2 <= b.0 || b.2 <= a.0 || a.3 <= b.1 || b.3 <= a.1);
            }
        }
    }
}
