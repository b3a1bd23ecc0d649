use envlock::kv::EnvMap;
use envlock::parse::{parse_entry, parse_env};

fn pairs(map: &EnvMap) -> Vec<(String, String)> {
    map.keys()
        .into_iter()
        .map(|k| {
            let v = map.get(&k).unwrap().clone();
            (k, v)
        })
        .collect()
}

fn expect(map: &EnvMap, wanted: &[(&str, &str)]) {
    let wanted: Vec<(String, String)> =
        wanted.iter().map(|(k, v)| (k.to_string(), v.to_string())).collect();
    assert_eq!(pairs(map), wanted);
    assert_eq!(map.len(), wanted.len());
}

fn entry(line: &str) -> Option<(String, String)> {
    let chars: Vec<char> = line.chars().collect();
    parse_entry(&chars, 0, chars.len())
}

#[test]
fn parses_plain_lines() {
    let map = parse_env("A=1\nB=2\nC=3\n");
    expect(&map, &[("A", "1"), ("B", "2"), ("C", "3")]);
    assert_eq!(map.get("B"), Some(&"2".to_string()));
    assert_eq!(map.get("D"), None);
    assert!(map.contains_key("A"));
    assert!(!map.contains_key("a"));
}

#[test]
fn empty_text_gives_the_empty_mapping() {
    assert!(parse_env("").is_empty());
    assert_eq!(parse_env("").len(), 0);
    assert!(parse_env("\n\n\n").is_empty());
    assert!(parse_env("   \n\t\n").is_empty());
}

#[test]
fn text_without_a_final_line_feed_is_read_to_its_end() {
    expect(&parse_env("A=1\nB=2"), &[("A", "1"), ("B", "2")]);
    expect(&parse_env("A=1"), &[("A", "1")]);
}

#[test]
fn trims_lines_keys_and_values() {
    let map = parse_env("  A = 1  \n\tB\t=\t2\t\n C=  spaced  value  \n");
    expect(&map, &[("A", "1"), ("B", "2"), ("C", "spaced  value")]);
}

#[test]
fn skips_blank_lines_and_comments() {
    let map = parse_env("# a comment\n\nA=1\n   \n  # indented comment\nB=2\n#C=3\n");
    expect(&map, &[("A", "1"), ("B", "2")]);
}

#[test]
fn blank_lines_and_comments_change_nothing() {
    let with = "# head\n\nA=1\n\n# about B\nB = two\n   \n#tail\nA=one\n";
    let without = "A=1\nB = two\nA=one\n";
    assert_eq!(pairs(&parse_env(with)), pairs(&parse_env(without)));
    expect(&parse_env(with), &[("A", "one"), ("B", "two")]);
}

#[test]
fn line_without_equals_sign_contributes_nothing() {
    let map = parse_env("A=1\njust some words\nexport\nB=2\n");
    expect(&map, &[("A", "1"), ("B", "2")]);
    assert_eq!(pairs(&parse_env("A=1\nB=2\n")), pairs(&map));
}

#[test]
fn splits_at_the_first_equals_sign_only() {
    let map = parse_env("URL=postgres://u:p@host/db?sslmode=require\nEQ===\n");
    expect(&map, &[("EQ", "=="), ("URL", "postgres://u:p@host/db?sslmode=require")]);
}

#[test]
fn last_occurrence_of_a_key_wins() {
    let map = parse_env("A=1\nB=2\nA=3\nA=4\nB=5\n");
    expect(&map, &[("A", "4"), ("B", "5")]);
}

#[test]
fn quotes_are_kept() {
    let map = parse_env("A=\"quoted value\"\nB='single'\nC=\" padded \"\n");
    expect(&map, &[("A", "\"quoted value\""), ("B", "'single'"), ("C", "\" padded \"")]);
}

#[test]
fn empty_keys_and_values_are_kept() {
    let map = parse_env("A=\n=orphan\nB=   \n");
    expect(&map, &[("", "orphan"), ("A", ""), ("B", "")]);
    expect(&parse_env("="), &[("", "")]);
}

#[test]
fn hash_inside_a_line_is_no_comment() {
    let map = parse_env("A=1 # trailing\nB#=2\n");
    expect(&map, &[("A", "1 # trailing"), ("B#", "2")]);
}

#[test]
fn carriage_returns_are_trimmed_away() {
    let map = parse_env("A=1\r\nB=2\r\n\r\n# c\r\nC=3\r");
    expect(&map, &[("A", "1"), ("B", "2"), ("C", "3")]);
}

#[test]
fn whitespace_beyond_ascii_is_trimmed() {
    let map = parse_env("\u{00a0}A\u{2003}=\u{3000}1\u{2028}\n\u{0085}B=2\u{1680}\n");
    expect(&map, &[("A", "1"), ("B", "2")]);
}

#[test]
fn characters_that_are_no_whitespace_are_kept() {
    let map = parse_env("\u{200b}A=1\u{feff}\n");
    expect(&map, &[("\u{200b}A", "1\u{feff}")]);
}

#[test]
fn text_beyond_ascii_is_kept_as_it_is() {
    let map = parse_env("GRÜSSE=héllo wörld\n名前=日本語 ✓\n");
    expect(&map, &[("GRÜSSE", "héllo wörld"), ("名前", "日本語 ✓")]);
}

#[test]
fn keys_come_out_in_ascending_order() {
    let map = parse_env("b=2\nB=1\na=3\nAB=4\nA=5\n_=6\n");
    expect(&map, &[("A", "5"), ("AB", "4"), ("B", "1"), ("_", "6"), ("a", "3"), ("b", "2")]);
}

#[test]
fn agrees_with_a_reading_by_the_standard_library() {
    let text = "  # c\nA = 1\n\nnoequals\nB==x \r\n A =2\n\u{a0}C\u{a0}=\u{a0}\n=v\nD=é\n";
    let mut wanted = std::collections::BTreeMap::new();
    for line in text.lines() {
        let line = line.trim();
        if line.is_empty() || line.starts_with('#') {
            continue;
        }
        if let Some((k, v)) = line.split_once('=') {
            wanted.insert(k.trim().to_string(), v.trim().to_string());
        }
    }
    let wanted: Vec<(String, String)> = wanted.into_iter().collect();
    assert_eq!(pairs(&parse_env(text)), wanted);
}

#[test]
fn one_line_gives_at_most_one_entry() {
    assert_eq!(entry("A=1"), Some(("A".to_string(), "1".to_string())));
    assert_eq!(entry("  KEY = some value  "), Some(("KEY".to_string(), "some value".to_string())));
    assert_eq!(entry("a=b=c"), Some(("a".to_string(), "b=c".to_string())));
    assert_eq!(entry("="), Some((String::new(), String::new())));
    assert_eq!(entry(""), None);
    assert_eq!(entry("    "), None);
    assert_eq!(entry("# A=1"), None);
    assert_eq!(entry("   #A=1"), None);
    assert_eq!(entry("no equals sign"), None);
}

#[test]
fn an_entry_is_read_from_the_given_range_only() {
    let chars: Vec<char> = "A=1\nB=2\nC=3".chars().collect();
    assert_eq!(parse_entry(&chars, 4, 7), Some(("B".to_string(), "2".to_string())));
    assert_eq!(parse_entry(&chars, 4, 5), None);
    assert_eq!(parse_entry(&chars, 5, 7), Some((String::new(), "2".to_string())));
    assert_eq!(parse_entry(&chars, 11, 11), None);
}
