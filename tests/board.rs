use tasker::board::{
    card_at_offset, card_height, column_at, column_at_x, column_status, offset_below_border, Rect,
};
use tasker::store::TaskStore;
use tasker::task::TaskStatus;

fn columns() -> Vec<Rect> {
    (0..4).map(|i| Rect { x: 10 * i, y: 2, width: 10, height: 20 }).collect()
}

#[test]
fn card_hit_testing_on_three_cards() {
    let heights: Vec<u16> = vec![3, 4, 3];
    for off in 0..=2u16 {
        assert_eq!(card_at_offset(&heights, off), Some(0));
    }
    for off in 3..=6u16 {
        assert_eq!(card_at_offset(&heights, off), Some(1));
    }
    for off in 7..=9u16 {
        assert_eq!(card_at_offset(&heights, off), Some(2));
    }
    for off in 10..=40u16 {
        assert_eq!(card_at_offset(&heights, off), None);
    }
    assert_eq!(card_at_offset(&heights, u16::MAX), None);
}

#[test]
fn card_hit_testing_without_cards() {
    assert_eq!(card_at_offset(&Vec::new(), 0), None);
}

#[test]
fn card_height_depends_on_steps() {
    let mut store = TaskStore::new();
    let a = store.add_task("a".to_string());
    let b = store.add_task("b".to_string());
    store.set_steps(b, vec!["s".to_string()]);
    assert_eq!(card_height(store.get_task(a).unwrap()), 3);
    assert_eq!(card_height(store.get_task(b).unwrap()), 4);
}

#[test]
fn column_lookup_by_point() {
    let areas = columns();
    assert_eq!(column_at(&areas, 0, 2), Some(0));
    assert_eq!(column_at(&areas, 9, 21), Some(0));
    assert_eq!(column_at(&areas, 10, 5), Some(1));
    assert_eq!(column_at(&areas, 39, 5), Some(3));
    assert_eq!(column_at(&areas, 40, 5), None);
    assert_eq!(column_at(&areas, 5, 1), None);
    assert_eq!(column_at(&areas, 5, 22), None);
    assert_eq!(column_at(&Vec::new(), 5, 5), None);
}

#[test]
fn column_lookup_takes_first_match() {
    let areas = vec![
        Rect { x: 0, y: 0, width: 10, height: 10 },
        Rect { x: 5, y: 0, width: 10, height: 10 },
    ];
    assert_eq!(column_at(&areas, 7, 3), Some(0));
    assert_eq!(column_at_x(&areas, 7), Some(0));
    assert_eq!(column_at_x(&areas, 12), Some(1));
    assert_eq!(column_at_x(&areas, 15), None);
}

#[test]
fn column_lookup_near_the_edge_of_the_screen() {
    let areas = vec![Rect { x: 65530, y: 65530, width: 10, height: 10 }];
    assert_eq!(column_at(&areas, 65535, 65535), Some(0));
    assert_eq!(offset_below_border(areas[0], 65535), Some(4));
}

#[test]
fn offset_below_the_top_border() {
    let area = Rect { x: 0, y: 2, width: 10, height: 20 };
    assert_eq!(offset_below_border(area, 2), None);
    assert_eq!(offset_below_border(area, 3), Some(0));
    assert_eq!(offset_below_border(area, 4), Some(1));
    assert_eq!(offset_below_border(area, 13), Some(10));
    assert_eq!(offset_below_border(area, 0), None);
}

#[test]
fn columns_map_to_statuses() {
    assert_eq!(column_status(0), TaskStatus::NotStarted);
    assert_eq!(column_status(1), TaskStatus::InProgress);
    assert_eq!(column_status(2), TaskStatus::Blocked);
    assert_eq!(column_status(3), TaskStatus::Complete);
    assert_eq!(column_status(7), TaskStatus::Complete);
}
