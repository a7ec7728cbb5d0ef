use rustcraft::geometry::IVec3;
use rustcraft::surface::{
    build_patches, group_surface_patches, patch_size_range, select_surface_cells, BoundingBox,
    WaterSurfacePatch,
};

/// Surface cells of the given water cells, with solid blocks above the listed positions.
fn detect(water: &Vec<IVec3>, solid: &[IVec3]) -> Vec<IVec3> {
    let solid_above: Vec<bool> = water
        .iter()
        .map(|p| solid.contains(&IVec3::new(p.x, p.y + 1, p.z)))
        .collect();
    select_surface_cells(water, &solid_above)
}

/// Surface cells and their patches, with nothing solid anywhere.
fn detect_open(water: &Vec<IVec3>) -> (Vec<IVec3>, Vec<WaterSurfacePatch>) {
    let cells = detect(water, &[]);
    let patches = build_patches(&cells);
    (cells, patches)
}

#[test]
fn test_surface_detection_single_cell() {
    let (cells, patches) = detect_open(&vec![IVec3::new(5, 10, 5)]);
    assert_eq!(cells.len(), 1);
    assert_eq!(patches.len(), 1);
    assert!(cells.contains(&IVec3::new(5, 10, 5)));
}

#[test]
fn test_surface_detection_covered_water() {
    let water = vec![IVec3::new(5, 10, 5)];
    assert_eq!(detect(&water, &[IVec3::new(5, 11, 5)]).len(), 0);
}

#[test]
fn test_surface_detection_water_on_water() {
    let (cells, _) = detect_open(&vec![IVec3::new(5, 10, 5), IVec3::new(5, 11, 5)]);
    assert_eq!(cells.len(), 1);
    assert!(cells.contains(&IVec3::new(5, 11, 5)));
    assert!(!cells.contains(&IVec3::new(5, 10, 5)));
}

#[test]
fn test_patch_grouping_connected() {
    let (cells, patches) = detect_open(&vec![
        IVec3::new(5, 10, 5),
        IVec3::new(6, 10, 5),
        IVec3::new(5, 10, 6),
        IVec3::new(6, 10, 6),
    ]);
    assert_eq!(cells.len(), 4);
    assert_eq!(patches.len(), 1);
    assert_eq!(patches[0].len(), 4);
}

#[test]
fn test_patch_grouping_disconnected() {
    let (cells, patches) = detect_open(&vec![IVec3::new(2, 10, 2), IVec3::new(12, 10, 12)]);
    assert_eq!(cells.len(), 2);
    assert_eq!(patches.len(), 2);
}

#[test]
fn test_patch_grouping_different_heights() {
    let (cells, patches) = detect_open(&vec![IVec3::new(5, 10, 5), IVec3::new(5, 20, 5)]);
    assert_eq!(cells.len(), 2);
    assert_eq!(patches.len(), 2);
}

#[test]
fn test_stats() {
    let (cells, patches) = detect_open(&vec![
        IVec3::new(2, 10, 2),
        IVec3::new(3, 10, 2),
        IVec3::new(12, 10, 12),
    ]);
    let (largest, smallest) = patch_size_range(&patches);
    assert_eq!(cells.len(), 3);
    assert_eq!(patches.len(), 2);
    assert_eq!(largest, 2);
    assert_eq!(smallest, 1);
}

#[test]
fn test_patch_bounds() {
    let (_, patches) = detect_open(&vec![
        IVec3::new(2, 10, 3),
        IVec3::new(5, 10, 3),
        IVec3::new(3, 10, 3),
        IVec3::new(4, 10, 3),
    ]);
    let bounds = patches[0].bounds.expect("patch should have bounds");
    assert_eq!(bounds.min, IVec3::new(2, 10, 3));
    assert_eq!(bounds.max, IVec3::new(5, 10, 3));
}

#[test]
fn test_empty_patch_bounds() {
    let patch = WaterSurfacePatch::new(0);
    assert_eq!(patch.bounds, None);
    assert_eq!(patch.xz_extent(), (0, 0));
    assert!(patch.is_empty());
}

#[test]
fn connected_square_is_grouped_breadth_first() {
    let cells = vec![
        IVec3::new(5, 10, 5),
        IVec3::new(6, 10, 5),
        IVec3::new(5, 10, 6),
        IVec3::new(6, 10, 6),
    ];
    let patches = group_surface_patches(&cells);
    // Breadth first from the first cell: its +X, then +Z neighbour, then the far corner.
    assert_eq!(
        patches[0],
        vec![IVec3::new(5, 10, 5), IVec3::new(6, 10, 5), IVec3::new(5, 10, 6), IVec3::new(6, 10, 6)]
    );
}

#[test]
fn diagonal_and_stepped_cells_do_not_touch() {
    let cells = vec![IVec3::new(5, 10, 5), IVec3::new(6, 10, 6)];
    assert_eq!(group_surface_patches(&cells).len(), 2);
    let cells = vec![IVec3::new(5, 10, 5), IVec3::new(6, 11, 5)];
    assert_eq!(group_surface_patches(&cells).len(), 2);
}

#[test]
fn patches_are_numbered_in_order_of_their_first_cell() {
    let cells = vec![IVec3::new(12, 10, 12), IVec3::new(2, 10, 2), IVec3::new(3, 10, 2)];
    let patches = build_patches(&cells);
    assert_eq!(patches.len(), 2);
    assert_eq!(patches[0].id, 0);
    assert_eq!(patches[0].cells, vec![IVec3::new(12, 10, 12)]);
    assert_eq!(patches[1].id, 1);
    assert_eq!(patches[1].cells, vec![IVec3::new(2, 10, 2), IVec3::new(3, 10, 2)]);
    assert!(!patches[1].is_stable);
    assert!(patches[1].contains(&IVec3::new(3, 10, 2)));
    assert!(!patches[1].contains(&IVec3::new(12, 10, 12)));
}

#[test]
fn patch_bounds_grow_with_cells() {
    let mut patch = WaterSurfacePatch::new(7);
    patch.add_cell(IVec3::new(2, 10, 3));
    assert_eq!(patch.bounds, Some(BoundingBox::from_point(IVec3::new(2, 10, 3))));
    patch.add_cell(IVec3::new(5, 9, 1));
    let b = patch.bounds.unwrap();
    assert_eq!(b.min, IVec3::new(2, 9, 1));
    assert_eq!(b.max, IVec3::new(5, 10, 3));
    assert_eq!(patch.xz_extent(), (4, 3));
    assert_eq!(patch.len(), 2);
    assert_eq!(patch.id, 7);
}

#[test]
fn no_patches_have_no_size_range() {
    assert_eq!(patch_size_range(&vec![]), (0, 0));
}

#[test]
fn empty_input_has_no_patches() {
    assert!(group_surface_patches(&vec![]).is_empty());
    assert!(select_surface_cells(&vec![], &vec![]).is_empty());
}
