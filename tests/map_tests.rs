use diffbot::map::{diff_bounds, map_bounds, BoundType, Rect};
use diffbot::map_report::{
    link_base, map_report, map_report_entries, modified_map_entry_list, whole_map_entry_list,
    ModifiedMap, WholeMap,
};
use diffbot::report::CheckOutputs;

fn grid(w: usize, h: usize, v: u64) -> Vec<Vec<u64>> {
    vec![vec![v; w]; h]
}

#[test]
fn identical_grids_have_no_bounds() {
    assert_eq!(diff_bounds(&grid(4, 4, 1), &grid(4, 4, 1)), None);
    assert_eq!(diff_bounds(&Vec::new(), &Vec::new()), None);
}

#[test]
fn single_tile_bounds() {
    let base = grid(5, 5, 0);
    let mut head = base.clone();
    head[2][3] = 9;
    assert_eq!(
        diff_bounds(&base, &head),
        Some(Rect { min_x: 3, min_y: 2, max_x: 3, max_y: 2 })
    );
}

#[test]
fn bounds_are_tight_over_scattered_tiles() {
    let base = grid(10, 10, 0);
    let mut head = base.clone();
    head[1][7] = 1;
    head[6][2] = 1;
    head[4][5] = 1;
    assert_eq!(
        diff_bounds(&base, &head),
        Some(Rect { min_x: 2, min_y: 1, max_x: 7, max_y: 6 })
    );
}

#[test]
fn a_grown_row_counts_as_difference() {
    let base = grid(2, 2, 0);
    let mut head = base.clone();
    head[1].push(0);
    assert_eq!(
        diff_bounds(&base, &head),
        Some(Rect { min_x: 2, min_y: 1, max_x: 2, max_y: 1 })
    );
}

#[test]
fn two_levels_one_changed_three_by_three() {
    let level = grid(8, 8, 5);
    let mut changed = level.clone();
    for y in 3..6 {
        for x in 2..5 {
            changed[y][x] = 6;
        }
    }
    let base = vec![level.clone(), level.clone()];
    let head = vec![changed, level.clone()];
    let bounds = map_bounds(&base, &head);
    let rect = Rect { min_x: 2, min_y: 3, max_x: 4, max_y: 5 };
    assert_eq!(bounds, vec![BoundType::Both(rect), BoundType::Unchanged]);
    assert_eq!(rect.max_x - rect.min_x + 1, 3);
    assert_eq!(rect.max_y - rect.min_y + 1, 3);

    let modified = ModifiedMap::Compared {
        name: "_maps/test.dmm".to_string(),
        dim_x: 8,
        dim_y: 8,
        bounds,
    };
    let entries = modified_map_entry_list("http://host/images/1/2", &modified);
    assert_eq!(entries.len(), 1);
    assert!(entries[0].starts_with("#### _maps/test.dmm (Z-level: 1) (2, 3) to (4, 5)"));
    assert!(entries[0].contains("http://host/images/1/2/m/_maps_test/0-before.png"));
    assert!(entries[0].contains("http://host/images/1/2/m/_maps_test/0-diff.png"));
}

#[test]
fn levels_only_in_one_revision() {
    let base = vec![grid(2, 2, 0)];
    let head = vec![grid(2, 2, 0), grid(2, 2, 0)];
    assert_eq!(map_bounds(&base, &head), vec![BoundType::Unchanged, BoundType::OnlyHead]);
    assert_eq!(map_bounds(&head, &base), vec![BoundType::Unchanged, BoundType::OnlyBase]);
}

#[test]
fn added_map_entries() {
    let map = WholeMap { name: "maps/new.dmm".to_string(), levels: 2 };
    let entries = whole_map_entry_list("L", &map, true);
    assert_eq!(entries.len(), 2);
    assert_eq!(
        entries[1],
        "#### maps/new.dmm (Z-level: 2) [ADDED]\n\n![Added](L/a/maps_new/1-added.png)\n\n"
    );
}

#[test]
fn removed_map_entries() {
    let map = WholeMap { name: "old.dmm".to_string(), levels: 1 };
    let entries = whole_map_entry_list("L", &map, false);
    assert_eq!(
        entries,
        vec!["#### old.dmm (Z-level: 1) [REMOVED]\n\n![Removed](L/r/old/0-removed.png)\n\n".to_string()]
    );
}

#[test]
fn level_added_and_deleted_entries() {
    let m = ModifiedMap::Compared {
        name: "m.dmm".to_string(),
        dim_x: 255,
        dim_y: 100,
        bounds: vec![BoundType::OnlyHead, BoundType::OnlyBase],
    };
    let entries = modified_map_entry_list("L", &m);
    assert_eq!(entries.len(), 2);
    assert!(entries[0].starts_with("#### m.dmm (Z-level: 1) (255, 100, 1)"));
    assert!(entries[0].contains("| Z-LEVEL ADDED | ![If the image doesn't load, use the raw link](L/m/m/0-after.png) | Z-LEVEL ADDED |"));
    assert!(entries[1].contains("| Z-LEVEL DELETED | Z-LEVEL DELETED | Z-LEVEL DELETED |"));
}

#[test]
fn failed_map_gets_error_entry() {
    let m = ModifiedMap::Failed { name: "bad.dmm".to_string(), error: "parse error".to_string() };
    let entries = modified_map_entry_list("L", &m);
    assert_eq!(entries, vec!["#### bad.dmm [ERROR]\n\n```\nparse error\n```\n\n".to_string()]);
}

#[test]
fn entries_come_added_removed_modified() {
    let added = vec![WholeMap { name: "a.dmm".to_string(), levels: 1 }];
    let removed = vec![WholeMap { name: "r.dmm".to_string(), levels: 1 }];
    let modified = vec![ModifiedMap::Failed { name: "m.dmm".to_string(), error: "e".to_string() }];
    let entries = map_report_entries("L", &added, &removed, &modified);
    assert_eq!(entries.len(), 3);
    assert!(entries[0].contains("[ADDED]"));
    assert!(entries[1].contains("[REMOVED]"));
    assert!(entries[2].contains("[ERROR]"));
    match map_report("L", &added, &removed, &modified) {
        Some(CheckOutputs::One(c)) => {
            assert_eq!(c.title, "Map renderings");
            assert_eq!(c.text, entries.concat());
        }
        _ => panic!("expected one chunk"),
    }
    assert!(map_report("L", &Vec::new(), &Vec::new(), &Vec::new()).is_none());
}

#[test]
fn link_base_joins_with_slash() {
    assert_eq!(link_base("https://files.example", "images/1/2"), "https://files.example/images/1/2");
}
