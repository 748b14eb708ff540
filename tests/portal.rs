use meek_aria::Portals;

fn listed(p: &Portals<&'static str>, name: Option<&str>) -> Vec<&'static str> {
    p.entries(name.map(|n| n.to_string())).into_iter().copied().collect()
}

#[test]
fn registry_keeps_insertion_order() {
    let mut p = Portals::new();
    let x = Some("x".to_string());
    p.insert(x.clone(), &"e1".to_string(), "one");
    p.insert(x.clone(), &"e2".to_string(), "two");
    p.insert(x.clone(), &"e3".to_string(), "three");
    assert_eq!(listed(&p, Some("x")), vec!["one", "two", "three"]);
    p.remove(x.clone(), "e2".to_string());
    assert_eq!(listed(&p, Some("x")), vec!["one", "three"]);
}

#[test]
fn registry_reinsert_updates_in_place() {
    let mut p = Portals::new();
    p.insert(None, &"a".to_string(), "first");
    p.insert(None, &"b".to_string(), "second");
    p.insert(None, &"a".to_string(), "changed");
    assert_eq!(listed(&p, None), vec!["changed", "second"]);
    assert_eq!(listed(&p, Some("")), vec!["changed", "second"]);
}

#[test]
fn registry_remove_absent_is_no_op() {
    let mut p: Portals<&'static str> = Portals::new();
    p.remove(Some("nowhere".to_string()), "ghost".to_string());
    p.insert(Some("c".to_string()), &"a".to_string(), "A");
    p.remove(Some("c".to_string()), "ghost".to_string());
    p.remove(Some("other".to_string()), "a".to_string());
    assert!(listed(&p, Some("c")).is_empty());
    assert!(listed(&p, Some("unused")).is_empty());
}

#[test]
fn registry_channels_are_separate() {
    let mut p = Portals::new();
    p.insert(Some("left".to_string()), &"l".to_string(), "L");
    p.insert(Some("right".to_string()), &"r".to_string(), "R");
    p.insert(None, &"d".to_string(), "D");
    assert_eq!(listed(&p, Some("left")), vec!["L"]);
    assert_eq!(listed(&p, Some("right")), vec!["R"]);
    assert_eq!(listed(&p, None), vec!["D"]);
}

#[test]
fn registry_known_id_keeps_its_channel() {
    let mut p = Portals::new();
    p.insert(Some("first".to_string()), &"id".to_string(), "v1");
    p.insert(Some("second".to_string()), &"id".to_string(), "v2");
    assert_eq!(listed(&p, Some("first")), vec!["v2"]);
    assert!(listed(&p, Some("second")).is_empty());
}
