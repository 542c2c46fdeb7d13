use bracket_terminal::zorder::{sort_by_z_order, ZTile};

#[test]
fn sort_is_ascending_and_stable() {
    let mut tiles = vec![
        ZTile { z_order: 3, id: 0 },
        ZTile { z_order: 1, id: 1 },
        ZTile { z_order: 3, id: 2 },
        ZTile { z_order: -2, id: 3 },
        ZTile { z_order: 1, id: 4 },
    ];
    sort_by_z_order(&mut tiles);
    let ids: Vec<usize> = tiles.iter().map(|t| t.id).collect();
    assert_eq!(ids, vec![3, 1, 4, 0, 2]);
}

#[test]
fn sort_of_empty_and_sorted_lists() {
    let mut empty: Vec<ZTile> = Vec::new();
    sort_by_z_order(&mut empty);
    assert!(empty.is_empty());
    let mut sorted = vec![ZTile { z_order: 0, id: 7 }, ZTile { z_order: 5, id: 8 }];
    sort_by_z_order(&mut sorted);
    assert_eq!(sorted, vec![ZTile { z_order: 0, id: 7 }, ZTile { z_order: 5, id: 8 }]);
}
