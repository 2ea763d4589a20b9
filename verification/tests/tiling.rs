use oxidewm::{Workspace, WmRequest};

fn workspace_with_windows(ids: &[u32], x: i32, y: i32, width: u32, height: u32) -> Workspace {
    let mut ws = Workspace::new(1, x, y, width, height);
    for id in ids {
        ws.new_window(*id, *id + 1000);
    }
    ws
}

fn geometries(ws: &Workspace) -> Vec<(i32, i32, u32, u32)> {
    let mut out = Vec::new();
    for w in &ws.windows {
        out.push((w.x, w.y, w.width, w.height));
    }
    out
}

#[test]
fn three_windows_split_the_rectangle_into_equal_columns() {
    let mut ws = workspace_with_windows(&[1, 2, 3], 0, 0, 900, 600);
    ws.remap_windows();
    assert_eq!(
        geometries(&ws),
        vec![(0, 0, 300, 600), (300, 0, 300, 600), (600, 0, 300, 600)]
    );
    for w in &ws.windows {
        assert!(w.visible);
    }
}

#[test]
fn tiled_areas_sum_to_the_reserved_area() {
    let mut ws = workspace_with_windows(&[1, 2, 3], 0, 0, 900, 600);
    ws.remap_windows();
    let total: u64 = ws
        .windows
        .iter()
        .map(|w| w.width as u64 * w.height as u64)
        .sum();
    assert_eq!(total, 900 * 600);
}

#[test]
fn tiled_areas_miss_the_reserved_area_only_by_rounding() {
    let mut ws = workspace_with_windows(&[1, 2, 3], 0, 0, 100, 50);
    ws.remap_windows();
    let total: u64 = ws
        .windows
        .iter()
        .map(|w| w.width as u64 * w.height as u64)
        .sum();
    // 100 / 3 == 33, so each column is 33 wide and one pixel column
    // of the rectangle stays uncovered.
    assert_eq!(geometries(&ws)[0], (0, 0, 33, 50));
    assert_eq!(total, 99 * 50);
    assert_eq!(100 * 50 - total, (100 % 3) * 50);
}

#[test]
fn tiled_rectangles_do_not_overlap() {
    let mut ws = workspace_with_windows(&[1, 2, 3, 4, 5], 10, 20, 777, 333, );
    ws.remap_windows();
    let gs = geometries(&ws);
    for i in 0..gs.len() {
        for j in 0..gs.len() {
            if i != j {
                let (xi, _, wi, _) = gs[i];
                let (xj, _, wj, _) = gs[j];
                let disjoint = xi + wi as i32 <= xj || xj + wj as i32 <= xi;
                assert!(disjoint);
            }
        }
    }
}

#[test]
fn remapping_twice_is_idempotent() {
    let mut ws = workspace_with_windows(&[1, 2, 3], 0, 0, 901, 600);
    let first_reqs = ws.remap_windows();
    let after_first = geometries(&ws);
    let second_reqs = ws.remap_windows();
    let after_second = geometries(&ws);
    assert_eq!(after_first, after_second);
    assert_eq!(first_reqs, second_reqs);
}

#[test]
fn remap_issues_one_configure_and_one_map_per_window() {
    let mut ws = workspace_with_windows(&[7, 9], 0, 0, 800, 600);
    let reqs = ws.remap_windows();
    assert_eq!(
        reqs,
        vec![
            WmRequest::Configure {
                window: 7,
                x: 0,
                y: 0,
                width: 400,
                height: 600
            },
            WmRequest::MapWindow { window: 7 },
            WmRequest::Configure {
                window: 9,
                x: 400,
                y: 0,
                width: 400,
                height: 600
            },
            WmRequest::MapWindow { window: 9 },
        ]
    );
}

#[test]
fn remap_of_an_empty_workspace_issues_nothing() {
    let mut ws = Workspace::new(1, 0, 0, 800, 600);
    let reqs = ws.remap_windows();
    assert!(reqs.is_empty());
    assert!(ws.visible);
}

#[test]
fn unmap_hides_every_window_and_issues_one_unmap_each() {
    let mut ws = workspace_with_windows(&[1, 2], 0, 0, 800, 600);
    ws.remap_windows();
    let reqs = ws.unmap_windows();
    assert_eq!(
        reqs,
        vec![
            WmRequest::UnmapWindow { window: 1 },
            WmRequest::UnmapWindow { window: 2 },
        ]
    );
    for w in &ws.windows {
        assert!(!w.visible);
    }
    assert!(!ws.visible);
}
