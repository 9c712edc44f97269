use crabwalk::registry::{Maybe, Selection, Types};
use crabwalk::Error;

fn strings(items: &[&str]) -> Vec<String> {
    items.iter().map(|s| s.to_string()).collect()
}

fn is_select(s: &Selection, name: &str) -> bool {
    matches!(s, Selection::Select(n) if n == name)
}

#[test]
fn add_then_lookup() {
    let mut t = Types::new();
    t.add("src", "*.rs").unwrap();
    assert!(t.contains("src"));
    assert_eq!(t.get_item("src").unwrap(), strings(&["*.rs"]));
    assert_eq!(t.len(), 1);
}

#[test]
fn add_reserved_name_rejected() {
    let mut t = Types::new();
    assert!(matches!(t.add("all", "*"), Err(Error::InvalidDefinition)));
    assert_eq!(t.len(), 0);
}

#[test]
fn add_hyphenated_name_rejected() {
    let mut t = Types::new();
    assert!(matches!(t.add("x-1", "*"), Err(Error::InvalidDefinition)));
    assert!(matches!(t.add("", "*"), Err(Error::InvalidDefinition)));
    assert!(!t.contains("x-1"));
}

#[test]
fn add_accepts_unicode_letters_and_digits() {
    let mut t = Types::new();
    t.add("größe2", "*.g").unwrap();
    assert!(t.contains("größe2"));
}

#[test]
fn add_appends_without_repeating() {
    let mut t = Types::new();
    t.add("web", "*.html").unwrap();
    t.add("web", "*.css").unwrap();
    t.add("web", "*.html").unwrap();
    assert_eq!(t.get_item("web").unwrap(), strings(&["*.html", "*.css"]));
}

#[test]
fn keys_items_values_in_insertion_order() {
    let mut t = Types::new();
    t.add("zeta", "*.z").unwrap();
    t.add("alpha", "*.a").unwrap();
    t.add("zeta", "*.zz").unwrap();
    assert_eq!(t.keys(), strings(&["zeta", "alpha"]));
    assert_eq!(t.values(), vec![strings(&["*.z", "*.zz"]), strings(&["*.a"])]);
    let items = t.items();
    assert_eq!(items[0], ("zeta".to_string(), strings(&["*.z", "*.zz"])));
    assert_eq!(items[1], ("alpha".to_string(), strings(&["*.a"])));
}

#[test]
fn get_with_default() {
    let mut t = Types::new();
    t.add("c", "*.c").unwrap();
    assert_eq!(t.get("c", None), Some(strings(&["*.c"])));
    assert_eq!(t.get("d", None), None);
    assert_eq!(t.get("d", Some(strings(&["x"]))), Some(strings(&["x"])));
}

#[test]
fn missing_key_reports_its_name() {
    let t = Types::new();
    match t.get_item("nope") {
        Err(Error::KeyNotFound { key }) => assert_eq!(key, "nope"),
        other => panic!("unexpected {:?}", other),
    }
}

#[test]
fn set_item_replaces_and_empty_list_removes() {
    let mut t = Types::new();
    t.add("a", "*.a").unwrap();
    t.set_item("py", &strings(&["*.py", "*.pyi", "*.py"])).unwrap();
    assert_eq!(t.get_item("py").unwrap(), strings(&["*.py", "*.pyi"]));
    t.set_item("a", &strings(&["*.aa"])).unwrap();
    assert_eq!(t.get_item("a").unwrap(), strings(&["*.aa"]));
    assert_eq!(t.keys(), strings(&["a", "py"]));
    t.set_item("a", &Vec::new()).unwrap();
    assert_eq!(t.keys(), strings(&["py"]));
    t.set_item("bad-name", &Vec::new()).unwrap();
    assert!(!t.contains("bad-name"));
    assert!(matches!(t.set_item("bad-name", &strings(&["*"])), Err(Error::InvalidDefinition)));
}

#[test]
fn remove_entry() {
    let mut t = Types::new();
    t.add("a", "*.a").unwrap();
    t.add("b", "*.b").unwrap();
    t.remove("a").unwrap();
    assert_eq!(t.keys(), strings(&["b"]));
    assert!(matches!(t.remove("a"), Err(Error::KeyNotFound { .. })));
}

#[test]
fn pop_present_missing_and_default() {
    let mut t = Types::new();
    t.add("a", "*.a").unwrap();
    assert_eq!(t.pop("a", Maybe::Missing).unwrap(), strings(&["*.a"]));
    assert!(!t.contains("a"));
    assert!(matches!(t.pop("a", Maybe::Missing), Err(Error::KeyNotFound { .. })));
    assert_eq!(t.pop("a", Maybe::Supplied(Vec::new())).unwrap(), Vec::<String>::new());
    assert_eq!(t.pop("a", Maybe::Supplied(strings(&["d"]))).unwrap(), strings(&["d"]));
}

#[test]
fn popitem_takes_last_inserted() {
    let mut t = Types::new();
    t.add("a", "*.a").unwrap();
    t.add("b", "*.b").unwrap();
    assert_eq!(t.popitem().unwrap(), ("b".to_string(), strings(&["*.b"])));
    assert_eq!(t.popitem().unwrap(), ("a".to_string(), strings(&["*.a"])));
    assert!(matches!(t.popitem(), Err(Error::EmptyRegistry)));
}

#[test]
fn clear_keeps_selections() {
    let mut t = Types::new();
    t.add("a", "*.a").unwrap();
    t.select("a");
    t.clear();
    assert_eq!(t.len(), 0);
    assert_eq!(t.selections().len(), 1);
}

#[test]
fn update_sets_each_pair_or_nothing() {
    let mut t = Types::new();
    let good = vec![
        ("a".to_string(), strings(&["*.a"])),
        ("b".to_string(), strings(&["*.b", "*.bb"])),
        ("a".to_string(), strings(&["*.aa"])),
    ];
    t.update(&good).unwrap();
    assert_eq!(t.keys(), strings(&["a", "b"]));
    assert_eq!(t.get_item("a").unwrap(), strings(&["*.aa"]));
    let bad = vec![("c".to_string(), strings(&["*.c"])), ("all".to_string(), strings(&["*"]))];
    assert!(matches!(t.update(&bad), Err(Error::InvalidDefinition)));
    assert!(!t.contains("c"));
}

#[test]
fn setdefault_present_and_absent() {
    let mut t = Types::new();
    t.add("a", "*.a").unwrap();
    assert_eq!(t.setdefault("a", Some(strings(&["x"]))).unwrap(), strings(&["*.a"]));
    assert_eq!(t.setdefault("b", Some(strings(&["*.b"]))).unwrap(), strings(&["*.b"]));
    assert_eq!(t.get_item("b").unwrap(), strings(&["*.b"]));
    assert_eq!(t.setdefault("c", None).unwrap(), Vec::<String>::new());
    assert!(!t.contains("c"));
}

#[test]
fn defaults_include_rust() {
    let mut t = Types::new();
    t.add_defaults().unwrap();
    assert!(t.get_item("rust").unwrap().contains(&"*.rs".to_string()));
    assert!(t.len() > 100);
}

#[test]
fn select_all_expands_at_call_time() {
    let mut t = Types::new();
    t.add("src", "*.rs").unwrap();
    t.add("docs", "*.md").unwrap();
    t.select("all");
    let log = t.selections();
    assert_eq!(log.len(), 2);
    assert!(is_select(&log[0], "src"));
    assert!(is_select(&log[1], "docs"));
    t.add("tests", "*_test.rs").unwrap();
    assert_eq!(t.selections().len(), 2);
}

#[test]
fn negate_records_directive() {
    let mut t = Types::new();
    t.negate("docs");
    t.negate("docs");
    let log = t.selections();
    assert_eq!(log.len(), 2);
    assert!(matches!(&log[1], Selection::Negate(n) if n == "docs"));
}

#[test]
fn state_round_trip_keeps_duplicates() {
    let mut t = Types::new();
    t.add("a", "*.a").unwrap();
    t.select("a");
    t.negate("b");
    t.select("a");
    let state = t.get_state();
    assert_eq!(
        state,
        vec![
            ("select".to_string(), "a".to_string()),
            ("negate".to_string(), "b".to_string()),
            ("select".to_string(), "a".to_string()),
        ]
    );
    let mut u = Types::new();
    u.set_state(&state).unwrap();
    assert_eq!(u.get_state(), state);
}

#[test]
fn set_state_rejects_all() {
    let mut t = Types::new();
    let bad = vec![("select".to_string(), "all".to_string())];
    assert!(matches!(t.set_state(&bad), Err(Error::InvalidState)));
    assert!(t.get_state().is_empty());
}

#[test]
fn registries_can_be_shared_by_copy() {
    let mut t = Types::new();
    t.add("a", "*.a").unwrap();
    let u = t.clone();
    t.add("b", "*.b").unwrap();
    assert_eq!(u.keys(), strings(&["a"]));
}

#[test]
fn set_state_rejects_unknown_word() {
    let mut t = Types::new();
    t.select("a");
    let bad = vec![("pick".to_string(), "a".to_string())];
    assert!(matches!(t.set_state(&bad), Err(Error::InvalidState)));
    assert_eq!(t.get_state(), vec![("select".to_string(), "a".to_string())]);
}

#[test]
fn equality_ignores_selections() {
    let mut a = Types::new();
    let mut b = Types::new();
    a.add("x", "*.x").unwrap();
    a.add("y", "*.y").unwrap();
    b.add("y", "*.y").unwrap();
    b.add("x", "*.x").unwrap();
    a.select("x");
    b.negate("all");
    assert!(a.same_contents(&b));
    b.add("y", "*.yy").unwrap();
    assert!(!a.same_contents(&b));
    let c = Types::new();
    assert!(!a.same_contents(&c));
}

#[test]
fn built_from_items() {
    let items = vec![("md".to_string(), strings(&["*.md"])), ("txt".to_string(), strings(&["*.txt"]))];
    let t = Types::from_items(&items).unwrap();
    assert_eq!(t.items(), items);
    assert!(t.selections().is_empty());
    let bad = vec![("a b".to_string(), strings(&["*"]))];
    assert!(matches!(Types::from_items(&bad), Err(Error::InvalidDefinition)));
}
