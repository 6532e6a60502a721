use network_discover::scripts::{ScriptElement, Scripts};

fn element(key: &str, value: &str) -> ScriptElement {
    ScriptElement { key: key.to_string(), value: value.to_string() }
}

#[test]
fn elements_are_kept_by_script() {
    let mut scripts = Scripts::new();
    assert!(scripts.get("a").is_none());
    scripts.add("a", element("k", "1"));
    scripts.add("b", element("k", "2"));
    scripts.add("a", element("k", "3"));
    let a = scripts.get("a").unwrap();
    assert_eq!(a.len(), 2);
    assert_eq!(a[0].value, "1");
    assert_eq!(a[1].value, "3");
    assert_eq!(scripts.get("b").unwrap().len(), 1);
    assert!(scripts.get("").is_none());
    let ids: Vec<&str> = scripts.outputs().iter().map(|o| o.id.as_str()).collect();
    assert_eq!(ids, vec!["a", "b"]);
}

#[test]
fn a_copy_holds_the_same() {
    let mut scripts = Scripts::default();
    scripts.add("a", element("k", "1"));
    let copy = scripts.clone();
    scripts.add("a", element("k", "2"));
    assert_eq!(copy.get("a").unwrap().len(), 1);
    assert_eq!(copy.get("a").unwrap()[0].key, "k");
    assert_eq!(scripts.get("a").unwrap().len(), 2);
}
