use envlock::kv::{get_changes, EnvMap};
use envlock::parse::parse_env;
use envlock::report::{diff_report, LineKind};

fn strings(items: &[&str]) -> Vec<String> {
    items.iter().map(|s| s.to_string()).collect()
}

#[test]
fn report_of_no_difference_is_empty() {
    assert!(diff_report(&vec![], &vec![], &vec![]).is_empty());
    let map = parse_env("A=1\nB=2\n");
    let (additions, removals, changes) = get_changes(&map, &map);
    assert!(diff_report(&additions, &removals, &changes).is_empty());
    let (additions, removals, changes) = get_changes(&EnvMap::new(), &EnvMap::new());
    assert!(diff_report(&additions, &removals, &changes).is_empty());
}

#[test]
fn report_lists_additions_then_removals_then_changes() {
    let current = parse_env("A=1\nB=2\nC=3\n");
    let reference = parse_env("A=1\nB=9\nD=4\n");
    let (additions, removals, changes) = get_changes(&current, &reference);
    let lines = diff_report(&additions, &removals, &changes);
    assert_eq!(
        lines,
        vec![
            (LineKind::Added, "+ C added".to_string()),
            (LineKind::Removed, "- D removed".to_string()),
            (LineKind::Changed, "~ changed: B 9 → 2".to_string()),
        ]
    );
}

#[test]
fn report_keeps_the_order_of_each_list() {
    let changes = vec![
        ("K".to_string(), "old".to_string(), "new".to_string()),
        ("M".to_string(), "".to_string(), "x y".to_string()),
    ];
    let lines = diff_report(&strings(&["A", "Q", "Z"]), &strings(&["B", "Y"]), &changes);
    let texts: Vec<&str> = lines.iter().map(|(_, t)| t.as_str()).collect();
    assert_eq!(
        texts,
        vec![
            "+ A added",
            "+ Q added",
            "+ Z added",
            "- B removed",
            "- Y removed",
            "~ changed: K old → new",
            "~ changed: M  → x y",
        ]
    );
    let kinds: Vec<LineKind> = lines.iter().map(|(k, _)| *k).collect();
    assert_eq!(
        kinds,
        vec![
            LineKind::Added,
            LineKind::Added,
            LineKind::Added,
            LineKind::Removed,
            LineKind::Removed,
            LineKind::Changed,
            LineKind::Changed,
        ]
    );
}

#[test]
fn report_keeps_keys_and_values_as_they_are() {
    let changes = vec![("名前".to_string(), "\"q\"".to_string(), "é = ü".to_string())];
    let lines = diff_report(&strings(&[""]), &strings(&["a b"]), &changes);
    assert_eq!(
        lines,
        vec![
            (LineKind::Added, "+  added".to_string()),
            (LineKind::Removed, "- a b removed".to_string()),
            (LineKind::Changed, "~ changed: 名前 \"q\" → é = ü".to_string()),
        ]
    );
}
