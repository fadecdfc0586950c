use rustux::collision::{CollisionLayer, CollisionObject, CollisionType, SpatialGrid};
use rustux::math::Rect;

fn solid(id: u32, rect: Rect) -> CollisionObject {
    CollisionObject::new(id, rect, CollisionLayer::World, CollisionType::Solid)
}

fn ids(found: &Vec<CollisionObject>) -> Vec<u32> {
    found.iter().map(|o| o.id).collect()
}

#[test]
fn added_object_is_found_once_across_cells() {
    let mut grid = SpatialGrid::new(64_000);
    // Spans three columns and two rows of cells.
    grid.add_object(solid(7, Rect::new(10_000, 10_000, 150_000, 100_000)));
    assert_eq!(grid.object_count(), 1);
    let found = grid.query_rect(&Rect::new(0, 0, 200_000, 200_000));
    assert_eq!(ids(&found), vec![7]);
    let found = grid.query_rect(&Rect::new(100_000, 70_000, 5_000, 5_000));
    assert_eq!(ids(&found), vec![7]);
}

#[test]
fn query_is_exact_not_by_cell() {
    let mut grid = SpatialGrid::new(64_000);
    grid.add_object(solid(1, Rect::new(0, 0, 10_000, 10_000)));
    // Same cell, no overlap.
    let found = grid.query_rect(&Rect::new(20_000, 20_000, 10_000, 10_000));
    assert!(found.is_empty());
    // Touching along an edge is no overlap.
    let found = grid.query_rect(&Rect::new(10_000, 0, 10_000, 10_000));
    assert!(found.is_empty());
}

#[test]
fn query_lists_by_ascending_id() {
    let mut grid = SpatialGrid::new(64_000);
    grid.add_object(solid(9, Rect::new(0, 0, 10_000, 10_000)));
    grid.add_object(solid(3, Rect::new(5_000, 5_000, 10_000, 10_000)));
    grid.add_object(solid(5, Rect::new(-70_000, -70_000, 100_000, 100_000)));
    let found = grid.query_rect(&Rect::new(1_000, 1_000, 8_000, 8_000));
    assert_eq!(ids(&found), vec![3, 5, 9]);
}

#[test]
fn removed_object_is_not_found() {
    let mut grid = SpatialGrid::new(64_000);
    grid.add_object(solid(1, Rect::new(0, 0, 200_000, 10_000)));
    grid.add_object(solid(2, Rect::new(0, 0, 10_000, 10_000)));
    let taken = grid.remove_object(1);
    assert_eq!(taken.map(|o| o.id), Some(1));
    assert_eq!(grid.object_count(), 1);
    let found = grid.query_rect(&Rect::new(-10_000, -10_000, 500_000, 50_000));
    assert_eq!(ids(&found), vec![2]);
    assert!(grid.remove_object(1).is_none());
}

#[test]
fn update_moves_the_object() {
    let mut grid = SpatialGrid::new(64_000);
    grid.add_object(solid(4, Rect::new(0, 0, 10_000, 10_000)));
    grid.update_object(4, Rect::new(500_000, 500_000, 10_000, 10_000));
    assert!(grid.query_rect(&Rect::new(-5_000, -5_000, 30_000, 30_000)).is_empty());
    let found = grid.query_rect(&Rect::new(495_000, 495_000, 10_000, 10_000));
    assert_eq!(found.len(), 1);
    assert_eq!(found[0].rect, Rect::new(500_000, 500_000, 10_000, 10_000));
    // An unknown id changes nothing.
    grid.update_object(99, Rect::new(0, 0, 1_000, 1_000));
    assert_eq!(grid.object_count(), 1);
}

#[test]
fn rect_without_extent_lies_in_one_cell() {
    let mut grid = SpatialGrid::new(64_000);
    grid.add_object(solid(1, Rect::new(70_000, 70_000, 0, 0)));
    let found = grid.query_rect(&Rect::new(65_000, 65_000, 10_000, 10_000));
    assert_eq!(ids(&found), vec![1]);
    let found = grid.query_rect(&Rect::new(0, 0, 60_000, 60_000));
    assert!(found.is_empty());
}

#[test]
fn negative_coordinates_floor_to_cells() {
    let mut grid = SpatialGrid::new(64_000);
    grid.add_object(solid(1, Rect::new(-130_000, -10_000, 20_000, 20_000)));
    let found = grid.query_rect(&Rect::new(-120_000, -5_000, 1_000, 1_000));
    assert_eq!(ids(&found), vec![1]);
}

#[test]
fn inactive_object_is_not_found() {
    let mut grid = SpatialGrid::new(64_000);
    let mut object = solid(1, Rect::new(0, 0, 10_000, 10_000));
    object.active = false;
    grid.add_object(object);
    assert!(grid.query_rect(&Rect::new(0, 0, 10_000, 10_000)).is_empty());
    assert_eq!(grid.object_count(), 1);
}

#[test]
fn adding_under_a_stored_id_replaces() {
    let mut grid = SpatialGrid::new(64_000);
    grid.add_object(solid(1, Rect::new(0, 0, 10_000, 10_000)));
    grid.add_object(solid(1, Rect::new(300_000, 0, 10_000, 10_000)));
    assert_eq!(grid.object_count(), 1);
    assert!(grid.query_rect(&Rect::new(0, 0, 10_000, 10_000)).is_empty());
    assert_eq!(grid.query_rect(&Rect::new(300_000, 0, 10_000, 10_000)).len(), 1);
}

#[test]
fn clear_forgets_everything() {
    let mut grid = SpatialGrid::new(64_000);
    grid.add_object(solid(1, Rect::new(0, 0, 10_000, 10_000)));
    grid.clear();
    assert_eq!(grid.object_count(), 0);
    assert!(grid.query_rect(&Rect::new(0, 0, 10_000, 10_000)).is_empty());
}

#[test]
fn removal_hands_back_the_record_and_lowers_the_count() {
    let mut grid = SpatialGrid::new(64_000);
    for id in 1..=3u32 {
        grid.add_object(CollisionObject::new(
            id,
            Rect::new(10_000 * id as i32, 0, 5_000, 5_000),
            CollisionLayer::World,
            CollisionType::Solid,
        ));
    }
    assert_eq!(grid.object_count(), 3);
    let taken = grid.remove_object(2).expect("stored");
    assert_eq!(taken.id, 2);
    assert_eq!(taken.rect, Rect::new(20_000, 0, 5_000, 5_000));
    assert_eq!(grid.object_count(), 2);
    assert!(grid.remove_object(2).is_none());
    assert_eq!(grid.object_count(), 2);
    let ids: Vec<u32> = grid.query_rect(&Rect::new(0, 0, 100_000, 100_000)).iter().map(|o| o.id).collect();
    assert_eq!(ids, vec![1, 3]);
}
