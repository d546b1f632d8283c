use webserver_base::asset_table::AssetTable;

fn table_of(pairs: &[(&str, &str)]) -> AssetTable {
    let mut table = AssetTable::new();
    for (key, value) in pairs {
        table.insert(key.to_string(), value.to_string());
    }
    table
}

#[test]
fn new_table_is_empty() {
    let table = AssetTable::new();
    assert_eq!(table.len(), 0);
    assert_eq!(table.get("a"), None);
    assert!(table.to_vec().is_empty());
}

#[test]
fn pairs_come_out_in_the_order_of_their_keys() {
    let table = table_of(&[("b", "2"), ("a", "1"), ("d", "4"), ("c", "3"), ("a.js", "5")]);
    let expected: Vec<(String, String)> =
        [("a", "1"), ("a.js", "5"), ("b", "2"), ("c", "3"), ("d", "4")]
            .iter()
            .map(|(k, v)| (k.to_string(), v.to_string()))
            .collect();
    assert_eq!(table.to_vec(), expected);
    assert_eq!(table.entries(), &expected);
    assert_eq!(table.len(), 5);
    assert_eq!(table.key_at(1), "a.js");
    assert_eq!(table.value_at(1), "5");
}

#[test]
fn a_key_is_held_once() {
    let table = table_of(&[("a", "1"), ("b", "2"), ("a", "3")]);
    assert_eq!(table.len(), 2);
    assert_eq!(table.get("a").map(String::as_str), Some("3"));
    assert_eq!(table.get("b").map(String::as_str), Some("2"));
}

#[test]
fn lookups_hit_and_miss() {
    let table = table_of(&[("m", "1"), ("c", "2"), ("x", "3"), ("a", "4"), ("z", "5")]);
    for (key, value) in [("a", "4"), ("c", "2"), ("m", "1"), ("x", "3"), ("z", "5")] {
        assert_eq!(table.get(key).map(String::as_str), Some(value));
    }
    for key in ["", "0", "b", "n", "y", "zz", "A"] {
        assert_eq!(table.get(key), None);
    }
}

#[test]
fn table_agrees_with_an_ordered_map() {
    let mut table = AssetTable::new();
    let mut map = std::collections::BTreeMap::new();
    let mut seed: u32 = 17;
    for _ in 0..300 {
        seed = seed.wrapping_mul(1103515245).wrapping_add(12345);
        let key = format!("static/{}/f{}.txt", seed % 7, (seed >> 8) % 40);
        let value = format!("v{seed}");
        table.insert(key.clone(), value.clone());
        map.insert(key, value);
    }
    let expected: Vec<(String, String)> = map.into_iter().collect();
    assert_eq!(table.to_vec(), expected);
}
