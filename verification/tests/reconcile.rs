use envlock::kv::{changed_values, get_changes, keys_only_in, EnvMap};

fn map_of(entries: &[(&str, &str)]) -> EnvMap {
    let mut map = EnvMap::new();
    for (k, v) in entries {
        map.insert(k.to_string(), v.to_string());
    }
    map
}

fn strings(items: &[&str]) -> Vec<String> {
    items.iter().map(|s| s.to_string()).collect()
}

fn triple(k: &str, old: &str, new: &str) -> (String, String, String) {
    (k.to_string(), old.to_string(), new.to_string())
}

#[test]
fn reconciles_additions_removals_and_changes() {
    let current = map_of(&[("A", "1"), ("B", "2"), ("C", "3")]);
    let reference = map_of(&[("A", "1"), ("B", "9"), ("D", "4")]);
    let (additions, removals, changes) = get_changes(&current, &reference);
    assert_eq!(additions, strings(&["C"]));
    assert_eq!(removals, strings(&["D"]));
    assert_eq!(changes, vec![triple("B", "9", "2")]);
}

#[test]
fn identical_mappings_show_no_difference() {
    let entries = [("A", "1"), ("B", "2"), ("C", ""), ("", "x")];
    let (additions, removals, changes) = get_changes(&map_of(&entries), &map_of(&entries));
    assert!(additions.is_empty());
    assert!(removals.is_empty());
    assert!(changes.is_empty());
}

#[test]
fn empty_mappings_show_no_difference() {
    let (additions, removals, changes) = get_changes(&EnvMap::new(), &EnvMap::new());
    assert!(additions.is_empty() && removals.is_empty() && changes.is_empty());
}

#[test]
fn everything_is_added_against_the_empty_mapping() {
    let current = map_of(&[("B", "2"), ("A", "1")]);
    let (additions, removals, changes) = get_changes(&current, &EnvMap::new());
    assert_eq!(additions, strings(&["A", "B"]));
    assert!(removals.is_empty());
    assert!(changes.is_empty());
}

#[test]
fn everything_is_removed_from_the_empty_mapping() {
    let reference = map_of(&[("B", "2"), ("A", "1")]);
    let (additions, removals, changes) = get_changes(&EnvMap::new(), &reference);
    assert!(additions.is_empty());
    assert_eq!(removals, strings(&["A", "B"]));
    assert!(changes.is_empty());
}

#[test]
fn order_of_insertion_does_not_matter() {
    let current = map_of(&[("Z", "1"), ("M", "2"), ("A", "3"), ("Q", "4"), ("K", "new")]);
    let shuffled = map_of(&[("K", "new"), ("Q", "4"), ("A", "3"), ("M", "2"), ("Z", "1")]);
    let reference = map_of(&[("K", "old"), ("Y", "1"), ("B", "2"), ("M", "changed")]);
    let first = get_changes(&current, &reference);
    let second = get_changes(&shuffled, &reference);
    assert_eq!(first, second);
    assert_eq!(first.0, strings(&["A", "Q", "Z"]));
    assert_eq!(first.1, strings(&["B", "Y"]));
    assert_eq!(first.2, vec![triple("K", "old", "new"), triple("M", "changed", "2")]);
}

#[test]
fn changes_carry_the_reference_value_before_the_current_one() {
    let current = map_of(&[("TOKEN", "current")]);
    let reference = map_of(&[("TOKEN", "reference")]);
    let (_, _, changes) = get_changes(&current, &reference);
    assert_eq!(changes, vec![triple("TOKEN", "reference", "current")]);
    let (_, _, back) = get_changes(&reference, &current);
    assert_eq!(back, vec![triple("TOKEN", "current", "reference")]);
}

#[test]
fn swapping_the_mappings_swaps_additions_and_removals() {
    let a = map_of(&[("A", "1"), ("B", "2")]);
    let b = map_of(&[("B", "2"), ("C", "3")]);
    let (additions, removals, _) = get_changes(&a, &b);
    let (back_additions, back_removals, _) = get_changes(&b, &a);
    assert_eq!(additions, back_removals);
    assert_eq!(removals, back_additions);
    assert_eq!(additions, strings(&["A"]));
    assert_eq!(removals, strings(&["C"]));
}

#[test]
fn values_differing_in_whitespace_or_case_are_changes() {
    let current = map_of(&[("A", "x "), ("B", "Y"), ("C", "same")]);
    let reference = map_of(&[("A", "x"), ("B", "y"), ("C", "same")]);
    let (_, _, changes) = get_changes(&current, &reference);
    assert_eq!(changes, vec![triple("A", "x", "x "), triple("B", "y", "Y")]);
}

#[test]
fn the_parts_of_a_reconciliation_can_be_had_alone() {
    let current = map_of(&[("A", "1"), ("B", "2"), ("C", "3")]);
    let reference = map_of(&[("A", "1"), ("B", "9"), ("D", "4")]);
    assert_eq!(keys_only_in(&current, &reference), strings(&["C"]));
    assert_eq!(keys_only_in(&reference, &current), strings(&["D"]));
    assert_eq!(changed_values(&current, &reference), vec![triple("B", "9", "2")]);
}

#[test]
fn mapping_holds_one_value_for_each_key() {
    let mut map = EnvMap::new();
    assert!(map.is_empty());
    map.insert("B".to_string(), "1".to_string());
    map.insert("A".to_string(), "2".to_string());
    map.insert("B".to_string(), "3".to_string());
    assert_eq!(map.len(), 2);
    assert!(!map.is_empty());
    assert_eq!(map.keys(), strings(&["A", "B"]));
    assert_eq!(map.get("B"), Some(&"3".to_string()));
    assert_eq!(map.get("A"), Some(&"2".to_string()));
    assert_eq!(map.get("C"), None);
    assert!(map.contains_key("A"));
    assert!(!map.contains_key(""));
}

#[test]
fn mapping_finds_every_key_among_many() {
    let mut map = EnvMap::new();
    for i in (0..200).rev() {
        map.insert(format!("KEY_{:03}", (i * 37) % 200), format!("{}", i));
    }
    assert_eq!(map.len(), 200);
    for i in 0..200 {
        assert_eq!(map.get(&format!("KEY_{:03}", (i * 37) % 200)), Some(&format!("{}", i)));
    }
    let keys = map.keys();
    let mut sorted = keys.clone();
    sorted.sort();
    assert_eq!(keys, sorted);
    assert!(!map.contains_key("KEY_200"));
}
