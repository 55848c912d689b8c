use repo_analyzer::pattern::Searcher;
use repo_analyzer::syntax::{child_by_field, first_named_child, name_of_node, named_sibling_before, parent_of, parse, subtree_ends, text_of_node, Grammar};
use repo_analyzer::table::TextMap;
use repo_analyzer::text;

#[test]
fn trees_are_lists_of_nodes() {
    let src = "fn a() {}\nfn b() {}\n";
    let nodes = parse(Grammar::Rust, src).expect("tree");
    let ends = subtree_ends(&nodes);
    assert_eq!(nodes[0].kind, "source_file");
    assert_eq!(ends[0], nodes.len());
    let b = nodes.iter().rposition(|n| n.kind == "function_item").expect("b");
    assert_eq!(parent_of(&nodes, b), Some(0));
    assert_eq!(parent_of(&nodes, 0), None);
    let a = named_sibling_before(&nodes, b).expect("a");
    assert_eq!(text_of_node(src, &nodes[a]), "fn a() {}");
    let name = child_by_field(&nodes, &ends, b, "name").expect("name");
    assert_eq!(name_of_node(src, &nodes[name]).as_deref(), Some("b"));
    assert_eq!(first_named_child(&nodes, &ends, b), Some(name));
    assert_eq!((nodes[b].start_row, nodes[b].end_row), (1, 1));
}

#[test]
fn searches_give_groups() {
    let s = Searcher::new("(\\w+)=(\\d+)?");
    let m = s.find("x a= b=12").expect("found");
    assert_eq!(m.groups[1].as_deref(), Some("a"));
    assert_eq!(m.groups[2], None);
    assert_eq!(s.find_all("x a= b=12").len(), 2);
    assert!(s.find("nothing").is_none());
}

#[test]
fn maps_keep_their_keys_in_order() {
    let mut m: TextMap<u64> = TextMap::new();
    for (i, k) in ["c", "a", "b", "a"].iter().enumerate() {
        m.insert(k.to_string(), i as u64);
    }
    let keys: Vec<&str> = (0..m.len()).map(|i| m.key_at(i).as_str()).collect();
    assert_eq!(keys, vec!["a", "b", "c"]);
    assert_eq!(m.get("a"), Some(&3));
    assert_eq!(m.get("z"), None);
}

#[test]
fn texts_are_split_and_joined() {
    let s = "a,,b,";
    let parts = text::split(s, ',');
    assert_eq!(parts, vec!["a", "", "b", ""]);
    assert_eq!(text::join_texts(&parts, ","), s);
    assert_eq!(text::lines("a\r\nb\n\n"), vec!["a", "b", ""]);
    assert_eq!(text::trimmed("\u{2003} x \t"), "x");
    assert_eq!(text::replaced("aaa", "aa", "b"), "ba");
    assert_eq!(text::parse_number("-9223372036854775808"), Some(i64::MIN));
    assert_eq!(text::parse_number("+7"), Some(7));
    assert_eq!(text::parse_number("-"), None);
    assert_eq!(text::decimal_signed(i64::MIN), "-9223372036854775808");
}
