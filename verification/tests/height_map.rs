use state_manager::height_map::{HeightMap, HeightSet};
use state_manager::manifest::{FileInfo, Manifest};

#[test]
fn height_map_keeps_its_entries_in_order() {
    let mut map: HeightMap<&str> = HeightMap::new();
    assert!(map.is_empty());
    assert_eq!(map.first_key(), None);
    assert_eq!(map.last_key(), None);
    assert_eq!(map.insert(5, "five"), None);
    assert_eq!(map.insert(1, "one"), None);
    assert_eq!(map.insert(9, "nine"), None);
    assert_eq!(map.insert(5, "FIVE"), Some("five"));
    assert_eq!(map.len(), 3);
    assert_eq!(map.key_vec(), vec![1, 5, 9]);
    assert_eq!(map.get(5), Some(&"FIVE"));
    assert_eq!(map.get(4), None);
    assert!(map.contains_key(9));
    assert!(!map.contains_key(0));
    assert_eq!(map.position(9), Some(2));
    assert_eq!(map.position(2), None);
    assert_eq!((map.key_at(0), *map.value_at(0)), (1, "one"));
    assert_eq!((map.first_key(), map.last_key()), (Some(1), Some(9)));
    *map.value_at_mut(0) = "ONE";
    assert_eq!(map.get(1), Some(&"ONE"));
    assert_eq!(map.remove(5), Some("FIVE"));
    assert_eq!(map.remove(5), None);
    assert_eq!(map.key_vec(), vec![1, 9]);
}

fn sample() -> HeightMap<u64> {
    let mut map = HeightMap::new();
    for h in [2, 4, 6, 8, 10] {
        map.insert(h, h * 10);
    }
    map
}

#[test]
fn height_map_splits_off_the_upper_part() {
    let mut map = sample();
    let upper = map.split_off(6);
    assert_eq!(map.key_vec(), vec![2, 4]);
    assert_eq!(upper.key_vec(), vec![6, 8, 10]);
    assert_eq!(upper.get(8), Some(&80));
    let mut map = sample();
    assert_eq!(map.split_off(0).len(), 5);
    assert!(map.is_empty());
    let mut map = sample();
    assert!(map.split_off(11).is_empty());
    assert_eq!(map.len(), 5);
}

#[test]
fn height_map_splits_off_what_is_below_and_not_kept() {
    let mut map = sample();
    let keep = HeightSet::from_heights(&vec![4, 7, 4]);
    let removed = map.split_below(8, &keep);
    assert_eq!(map.key_vec(), vec![4, 8, 10]);
    assert_eq!(removed.key_vec(), vec![2, 6]);
    assert_eq!(removed.get(6), Some(&60));
    assert_eq!(map.get(4), Some(&40));
}

#[test]
fn height_set_holds_each_height_once() {
    let mut set = HeightSet::from_heights(&vec![5, 3, 5, 1]);
    assert_eq!(set.to_vec(), vec![1, 3, 5]);
    assert_eq!(set.len(), 3);
    assert!(set.contains(3));
    assert!(!set.contains(4));
    set.insert(4);
    set.insert(4);
    assert_eq!(set.to_vec(), vec![1, 3, 4, 5]);
    assert_eq!(set.element_at(2), 4);
    assert_eq!(HeightSet::new().len(), 0);
}

#[test]
fn state_size_is_the_sum_of_the_file_sizes() {
    let file = |size_bytes| FileInfo { relative_path: "f".to_string(), size_bytes, hash: vec![] };
    let manifest =
        Manifest { version: 1, file_table: vec![file(3), file(4), file(5)], chunk_table: vec![] };
    assert_eq!(manifest.state_size_bytes(), 12);
    let empty = Manifest { version: 1, file_table: vec![], chunk_table: vec![] };
    assert_eq!(empty.state_size_bytes(), 0);
    let huge = Manifest {
        version: 1,
        file_table: vec![file(u64::MAX - 1), file(1), file(7)],
        chunk_table: vec![],
    };
    assert_eq!(huge.state_size_bytes(), u64::MAX);
}
