use rq::assemble::assemble;
use rq::filter::{FilterSpec, MatchResult};
use rq::query::list_key;
use rq::render::{render_failure, render_listing, render_matches};
use rq::root::split_keyname;
use rq::value::{RegValue, ValueKind};
use rq::walk::{EnumError, NodeListing, WalkReport, Walker};

/// A key of an in-memory tree: child names in enumeration order, and values.
struct Key {
    path: String,
    children: Vec<&'static str>,
    values: Vec<(&'static str, ValueKind, &'static str)>,
    fails: bool,
}

struct Tree {
    keys: Vec<Key>,
}

impl Tree {
    fn new() -> Self {
        Tree { keys: Vec::new() }
    }

    fn add(
        &mut self,
        path: &str,
        children: Vec<&'static str>,
        values: Vec<(&'static str, ValueKind, &'static str)>,
    ) {
        self.keys.push(Key { path: path.to_string(), children, values, fails: false });
    }

    fn add_failing(&mut self, path: &str) {
        self.keys.push(Key {
            path: path.to_string(),
            children: Vec::new(),
            values: Vec::new(),
            fails: true,
        });
    }

    fn list(&self, path: &str) -> Result<NodeListing, EnumError> {
        match self.keys.iter().find(|k| k.path == path) {
            None => Err(EnumError::NotFound),
            Some(k) if k.fails => Err(EnumError::AccessDenied),
            Some(k) => Ok(NodeListing {
                children: k.children.iter().map(|c| c.to_string()).collect(),
                values: k
                    .values
                    .iter()
                    .map(|(n, t, d)| RegValue::new(n.to_string(), *t, d.to_string()))
                    .collect(),
            }),
        }
    }
}

fn filter(key: Option<&str>, value: Option<&str>, data: Option<&str>) -> FilterSpec {
    FilterSpec {
        key: key.map(|s| s.to_string()),
        value: value.map(|s| s.to_string()),
        data: data.map(|s| s.to_string()),
    }
}

fn run(tree: &Tree, path: &str, subkey: &str, f: FilterSpec) -> WalkReport {
    let mut w = Walker::new(path.to_string(), subkey.to_string(), f);
    while let Some(k) = w.next_key() {
        let outcome = tree.list(&k.path);
        w.record(k, outcome);
    }
    assert!(w.is_done());
    w.finish()
}

const BASE: &str = "HKEY_CURRENT_USER\\Software\\rq\\test\\abc";

/// The tree that the command-line tests of the tool are set up with.
fn sample() -> Tree {
    let mut t = Tree::new();
    t.add(BASE, vec!["def", "numbers"], vec![]);
    t.add(&format!("{BASE}\\def"), vec![], vec![("", ValueKind::Str, "default value")]);
    t.add(&format!("{BASE}\\numbers"), vec!["one", "three", "two"], vec![]);
    for (name, n) in [("one", "1"), ("three", "3"), ("two", "2")] {
        t.add(
            &format!("{BASE}\\numbers\\{name}"),
            vec![],
            vec![("amount", ValueKind::Dword, n), ("kind", ValueKind::Str, "number")],
        );
    }
    t
}

fn single(tree: &Tree, path: &str, f: &FilterSpec) -> String {
    let listing = tree.list(path).unwrap();
    render_listing(path, &list_key(f, path, &listing))
}

#[test]
fn test_query() {
    let t = sample();
    let (path, _, _) = split_keyname("HKCU\\Software\\rq\\test\\abc").unwrap();
    assert_eq!(path, BASE);
    let none = filter(None, None, None);
    assert_eq!(single(&t, &path, &none), format!("{path}\\def\n{path}\\numbers\n"));
    let path = format!("{BASE}\\numbers");
    assert_eq!(
        single(&t, &path, &none),
        format!("{path}\\one\n{path}\\three\n{path}\\two\n")
    );
}

#[test]
fn test_query_recurse() {
    let t = sample();
    let path = BASE;
    let report = run(&t, path, "Software\\rq\\test\\abc", filter(None, None, None));
    assert!(report.failures.is_empty());
    let expected = format!(
        r#"{path}

{path}\def
    (Default)    REG_SZ    default value

{path}\numbers

{path}\numbers\one
    amount    REG_DWORD    1
    kind    REG_SZ    number

{path}\numbers\three
    amount    REG_DWORD    3
    kind    REG_SZ    number

{path}\numbers\two
    amount    REG_DWORD    2
    kind    REG_SZ    number

"#
    );
    assert_eq!(render_matches(&report.matches), expected);
}

#[test]
fn test_query_value() {
    let t = sample();
    let path = format!("{BASE}\\numbers\\one");
    let report = run(&t, &path, "x", filter(None, Some("amount"), None));
    assert_eq!(
        render_matches(&report.matches),
        format!("{path}\n    amount    REG_DWORD    1\n\n")
    );
}

#[test]
fn value_filter_recursive_drops_keys_without_match() {
    let t = sample();
    let path = BASE;
    let report = run(&t, path, "", filter(None, Some("amount"), None));
    let expected = format!(
        r#"{path}\numbers\one
    amount    REG_DWORD    1

{path}\numbers\three
    amount    REG_DWORD    3

{path}\numbers\two
    amount    REG_DWORD    2

"#
    );
    assert_eq!(render_matches(&report.matches), expected);
}

fn scenario_tree() -> Tree {
    let mut t = Tree::new();
    t.add("R", vec!["B", "A"], vec![]);
    t.add("R\\A", vec![], vec![("k", ValueKind::Str, "1")]);
    t.add("R\\B", vec![], vec![("k", ValueKind::Str, "2")]);
    t
}

#[test]
fn scenario_name_filter_sorted() {
    let report = run(&scenario_tree(), "R", "", filter(None, Some("k"), None));
    assert_eq!(
        render_matches(&report.matches),
        "R\\A\n    k    REG_SZ    1\n\nR\\B\n    k    REG_SZ    2\n\n"
    );
}

#[test]
fn scenario_name_and_data_filter() {
    let report = run(&scenario_tree(), "R", "", filter(None, Some("k"), Some("2")));
    assert_eq!(report.matches.len(), 1);
    assert_eq!(report.matches[0].path, "R\\B");
    assert_eq!(render_matches(&report.matches), "R\\B\n    k    REG_SZ    2\n\n");
}

#[test]
fn scenario_single_key_lists_children() {
    let t = scenario_tree();
    assert_eq!(single(&t, "R", &filter(None, None, None)), "R\\B\nR\\A\n");
    let mut t2 = Tree::new();
    t2.add("R", vec!["A", "B"], vec![("v", ValueKind::Qword, "7")]);
    assert_eq!(
        single(&t2, "R", &filter(None, None, None)),
        "R\n    v    REG_QWORD    7\n\nR\\A\nR\\B\n"
    );
}

#[test]
fn paths_at_depth_three_and_more() {
    let mut t = Tree::new();
    t.add("R", vec!["a"], vec![]);
    t.add("R\\a", vec!["b"], vec![]);
    t.add("R\\a\\b", vec!["c"], vec![]);
    t.add("R\\a\\b\\c", vec!["d"], vec![]);
    t.add("R\\a\\b\\c\\d", vec![], vec![]);
    let report = run(&t, "R", "", filter(None, None, None));
    let paths: Vec<&str> = report.matches.iter().map(|m| m.path.as_str()).collect();
    assert_eq!(paths, vec!["R", "R\\a", "R\\a\\b", "R\\a\\b\\c", "R\\a\\b\\c\\d"]);
}

#[test]
fn subkeys_follow_the_tree() {
    let mut w = Walker::new("HKEY_USERS\\x".to_string(), "x".to_string(), filter(None, None, None));
    let top = w.next_key().unwrap();
    assert_eq!(top.subkey, "x");
    let listing = NodeListing { children: vec!["y".to_string()], values: vec![] };
    w.record(top, Ok(listing));
    let child = w.next_key().unwrap();
    assert_eq!(child.path, "HKEY_USERS\\x\\y");
    assert_eq!(child.subkey, "x\\y");
    assert!(w.next_key().is_none());

    let mut w = Walker::new("HKEY_USERS\\".to_string(), String::new(), filter(None, None, None));
    let top = w.next_key().unwrap();
    let listing = NodeListing { children: vec!["S-1".to_string()], values: vec![] };
    w.record(top, Ok(listing));
    let child = w.next_key().unwrap();
    assert_eq!(child.path, "HKEY_USERS\\\\S-1");
    assert_eq!(child.subkey, "S-1");
}

#[test]
fn key_filter_restricts_paths() {
    let report = run(&sample(), BASE, "", filter(Some("t"), None, None));
    let paths: Vec<String> = report.matches.iter().map(|m| m.path.clone()).collect();
    // every path contains "test"; the key filter is on the whole path
    assert_eq!(paths.len(), 6);
    let report = run(&sample(), BASE, "", filter(Some("numbers\\t"), None, None));
    let paths: Vec<&str> = report.matches.iter().map(|m| m.path.as_str()).collect();
    assert_eq!(
        paths,
        vec![
            "HKEY_CURRENT_USER\\Software\\rq\\test\\abc\\numbers\\three",
            "HKEY_CURRENT_USER\\Software\\rq\\test\\abc\\numbers\\two"
        ]
    );
    let report = run(&sample(), BASE, "", filter(Some("Numbers"), None, None));
    assert!(report.matches.is_empty());
}

#[test]
fn same_query_twice_and_in_other_orders() {
    let a = render_matches(&run(&sample(), BASE, "", filter(None, None, None)).matches);
    let b = render_matches(&run(&sample(), BASE, "", filter(None, None, None)).matches);
    assert_eq!(a, b);
    // Matches gathered in another order, as a parallel walk may gather them.
    let mut w = Walker::new(BASE.to_string(), String::new(), filter(None, None, None));
    let mut found: Vec<MatchResult> = Vec::new();
    let t = sample();
    while let Some(k) = w.next_key() {
        let outcome = t.list(&k.path);
        w.record(k, outcome);
        found.append(&mut w.matches);
    }
    found.reverse();
    let c = render_matches(&assemble(found));
    assert_eq!(a, c);
}

#[test]
fn failed_branch_leaves_siblings_complete() {
    let mut t = Tree::new();
    t.add("R", vec!["A", "B", "C"], vec![]);
    t.add_failing("R\\A");
    t.add("R\\B", vec!["x"], vec![("k", ValueKind::Str, "b")]);
    t.add("R\\B\\x", vec![], vec![("k", ValueKind::Str, "bx")]);
    t.add("R\\C", vec![], vec![("k", ValueKind::Str, "c")]);
    let report = run(&t, "R", "", filter(None, Some("k"), None));
    let paths: Vec<&str> = report.matches.iter().map(|m| m.path.as_str()).collect();
    assert_eq!(paths, vec!["R\\B", "R\\B\\x", "R\\C"]);
    assert_eq!(report.failures.len(), 1);
    assert_eq!(report.failures[0].path, "R\\A");
    assert!(matches!(report.failures[0].error, EnumError::AccessDenied));
    assert_eq!(render_failure(&report.failures[0]), "ERROR: R\\A: access denied\n");
}

#[test]
fn missing_child_is_a_branch_failure() {
    let mut t = Tree::new();
    t.add("R", vec!["gone", "here"], vec![]);
    t.add("R\\here", vec![], vec![]);
    let report = run(&t, "R", "", filter(None, None, None));
    let paths: Vec<&str> = report.matches.iter().map(|m| m.path.as_str()).collect();
    assert_eq!(paths, vec!["R", "R\\here"]);
    assert_eq!(render_failure(&report.failures[0]), "ERROR: R\\gone: not found\n");
}
