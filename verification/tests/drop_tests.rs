use nod_krai_gi::combined_drop::CombinedDrop;

fn d(tag: &str, min_level: u32, drop_id: u32) -> CombinedDrop {
    CombinedDrop { index: tag.to_string(), min_level, drop_id, drop_count: 1 }
}

#[test]
fn drop_config_picks_highest_reached_tier() {
    let chest = vec![d("chest", 1, 10), d("chest", 30, 30), d("chest", 15, 20)];
    let monster = vec![d("slime", 1, 100), d("chest", 40, 40)];
    let table = CombinedDrop::combine(chest, monster);
    assert_eq!(CombinedDrop::get_drop_config(&table, "chest".to_string(), 35).unwrap().drop_id, 30);
    assert_eq!(CombinedDrop::get_drop_config(&table, "chest".to_string(), 40).unwrap().drop_id, 40);
    assert_eq!(CombinedDrop::get_drop_config(&table, "chest".to_string(), 14).unwrap().drop_id, 10);
    assert_eq!(CombinedDrop::get_drop_config(&table, "slime".to_string(), 90).unwrap().drop_id, 100);
}

#[test]
fn drop_config_none_below_every_tier_or_unknown_tag() {
    let table = CombinedDrop::combine(vec![d("chest", 5, 10)], vec![]);
    assert!(CombinedDrop::get_drop_config(&table, "chest".to_string(), 4).is_none());
    assert!(CombinedDrop::get_drop_config(&table, "boss".to_string(), 90).is_none());
}

#[test]
fn equal_levels_keep_load_order() {
    let table = CombinedDrop::combine(vec![d("chest", 10, 1)], vec![d("chest", 10, 2)]);
    assert_eq!(CombinedDrop::get_drop_config(&table, "chest".to_string(), 10).unwrap().drop_id, 1);
}

#[test]
fn clone_keeps_every_field() {
    let a = d("chest", 3, 4);
    let b = a.clone();
    assert_eq!(b.index, "chest");
    assert_eq!((b.min_level, b.drop_id, b.drop_count), (3, 4, 1));
}
