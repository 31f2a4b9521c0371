use wsclient::geom::tile;
use wsclient::geom::LayoutRect;
use wsclient::schedule::Schedule;

#[test]
fn tile_partitions_into_aligned_cells() {
    let cells = tile((1920, 1080), 2, 2);
    assert_eq!(cells.len(), 4);
    for c in &cells {
        assert_eq!(c.width % 4, 0);
        assert_eq!(c.height % 4, 0);
        assert!(c.x + c.width <= 1920);
        assert!(c.y + c.height <= 1080);
    }
    assert_eq!(cells[0], LayoutRect { x: 0, y: 0, width: 960, height: 540 });
    assert_eq!(cells[1], LayoutRect { x: 960, y: 0, width: 960, height: 540 });
    assert_eq!(cells[2], LayoutRect { x: 0, y: 540, width: 960, height: 540 });
    assert_eq!(cells[3], LayoutRect { x: 960, y: 540, width: 960, height: 540 });
}

#[test]
fn tile_floors_to_multiples_of_four() {
    // 1922 / 3 = 640.67 -> 640; 1081 / 2 = 540.5 -> 540
    let cells = tile((1922, 1081), 2, 3);
    assert_eq!(cells.len(), 6);
    assert_eq!(cells[0].width, 640);
    assert_eq!(cells[0].height, 540);
    // remainder pixels are not distributed
    assert_eq!(cells[5].x + cells[5].width, 1920);
    assert_eq!(cells[5].y + cells[5].height, 1080);
    // cells are pairwise disjoint
    for i in 0..cells.len() {
        for j in 0..cells.len() {
            if i != j {
                let a = &cells[i];
                let b = &cells[j];
                let disjoint = a.x + a.width <= b.x || b.x + b.width <= a.x
                    || a.y + a.height <= b.y || b.y + b.height <= a.y;
                assert!(disjoint);
            }
        }
    }
}

#[test]
fn contains_includes_borders() {
    let r = LayoutRect { x: 10, y: 20, width: 100, height: 50 };
    assert!(r.contains((10, 20)));
    assert!(r.contains((110, 70)));
    assert!(!r.contains((9, 20)));
    assert!(!r.contains((111, 20)));
}

#[test]
fn bitrate_is_exact_at_breakpoints() {
    // 640x480 sits exactly on a table breakpoint: 3.5 MB/s, no
    // interpolation error (rates are in thousandths of a megabyte).
    assert_eq!(Schedule::Default.bitrate((640, 480)), 3500);
    assert_eq!(Schedule::Performance.bitrate((640, 480)), 3500);
    assert_eq!(Schedule::Default.bitrate((320, 240)), 2000);
    assert_eq!(Schedule::Default.bitrate((2560, 1360)), 10000);
}

#[test]
fn bitrate_midway_is_the_mean() {
    // 480x400 = 192000 pixels: exactly halfway between 320x240 (76800) and
    // 640x480 (307200); the rate is the arithmetic mean of 2.0 and 3.5.
    assert_eq!(Schedule::Default.bitrate((480, 400)), 2750);
}

#[test]
fn bitrate_extrapolates_through_origin() {
    // Below the smallest breakpoint the rate scales proportionally:
    // 160x120 is a quarter of 320x240's area.
    assert_eq!(Schedule::Default.bitrate((160, 120)), 500);
    // Beyond the largest breakpoint likewise, from the topmost entry:
    // double the area of 2560x1360 doubles its 10.0 MB/s.
    assert_eq!(Schedule::Default.bitrate((5120, 1360)), 20000);
}

#[test]
fn quality_boosts_by_a_fifth() {
    // Quality uses the base table with a fixed 1.2x boost.
    assert_eq!(Schedule::Quality.bitrate((640, 480)), 4200);
    assert_eq!(Schedule::Quality.scaling((2560, 1360)), 100);
}

#[test]
fn performance_reduces_scaling_at_high_resolutions() {
    assert_eq!(Schedule::Performance.scaling((320, 240)), 100);
    assert_eq!(Schedule::Performance.scaling((640, 480)), 100);
    assert_eq!(Schedule::Performance.scaling((1920, 1080)), 75);
    assert_eq!(Schedule::Performance.scaling((2560, 1360)), 75);
    assert_eq!(Schedule::Default.scaling((2560, 1360)), 100);
}

#[test]
fn get_bin_brackets_the_area() {
    assert_eq!(Schedule::Default.get_bin((640, 480)), (Some(0), 1));
    assert_eq!(Schedule::Default.get_bin((320, 240)), (None, 0));
    assert_eq!(Schedule::Default.get_bin((5120, 1360)), (None, 4));
    assert_eq!(Schedule::Default.get_bin((1000, 1000)), (Some(2), 3));
}
