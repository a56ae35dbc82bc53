use std::collections::BTreeMap;

use move_binding::name_map::NameMap;

#[test]
fn keeps_what_a_tree_map_keeps() {
    let names = ["m", "a", "z", "m", "b", "é", "", "aa", "a", "Z", "b"];
    let mut ours: NameMap<usize> = NameMap::new();
    let mut theirs: BTreeMap<String, usize> = BTreeMap::new();
    for (value, name) in names.iter().enumerate() {
        ours.insert(name.to_string(), value);
        theirs.insert(name.to_string(), value);
    }
    let entries: Vec<(String, usize)> = ours.entries().clone();
    let expected: Vec<(String, usize)> = theirs.iter().map(|(k, v)| (k.clone(), *v)).collect();
    assert_eq!(entries, expected);
    for name in ["m", "a", "", "é", "missing"] {
        assert_eq!(ours.get(name), theirs.get(name));
    }
    for name in ["m", "missing", "", "m"] {
        assert_eq!(ours.remove(name), theirs.remove(name));
    }
    assert_eq!(ours.entries().len(), theirs.len());
    assert_eq!(ours.get("m"), None);
    assert_eq!(ours.get("a"), Some(&8));
}
