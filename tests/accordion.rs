use meek_aria::{AccordianItemState, AccordianState, AccordianType, KeyResponse, NavKey, Orientation};

fn sorted(mut v: Vec<String>) -> Vec<String> {
    v.sort();
    v
}

fn single(collapsible: bool, open: &[&str]) -> AccordianState<u32> {
    AccordianState::new(
        Some(collapsible),
        AccordianType::Single,
        None,
        Some(open.iter().map(|s| s.to_string()).collect()),
    )
}

#[test]
fn non_collapsible_open_section_stays_open() {
    let mut s = single(false, &["a"]);
    s.toggle("a");
    assert_eq!(s.open_values(), vec!["a".to_string()]);
}

#[test]
fn collapsible_open_section_closes() {
    let mut s = single(true, &["a"]);
    s.toggle("a");
    assert!(s.open_values().is_empty());
    assert!(!s.contains("a"));
}

#[test]
fn switching_replaces_open_section() {
    for collapsible in [false, true] {
        let mut s = single(collapsible, &["a"]);
        s.toggle("b");
        assert_eq!(s.open_values(), vec!["b".to_string()]);
    }
}

#[test]
fn single_mode_keeps_at_most_one_open() {
    let mut s = single(true, &[]);
    for v in ["a", "b", "b", "c", "a", "a", "d"] {
        s.toggle(v);
        assert!(s.open_values().len() <= 1);
    }
}

#[test]
fn single_mode_takes_first_default_only() {
    let s = single(false, &["x", "y"]);
    assert_eq!(s.open_values(), vec!["x".to_string()]);
}

#[test]
fn multiple_mode_toggles_independently() {
    let mut s: AccordianState<u32> = AccordianState::new(
        None,
        AccordianType::Multiple,
        None,
        Some(vec!["a".to_string(), "b".to_string(), "a".to_string()]),
    );
    assert_eq!(sorted(s.open_values()), vec!["a".to_string(), "b".to_string()]);
    s.toggle("c");
    assert!(s.contains("a") && s.contains("b") && s.contains("c"));
    s.toggle("a");
    assert!(!s.contains("a"));
    assert!(s.contains("b") && s.contains("c"));
    s.toggle("a");
    assert!(s.contains("a") && s.contains("b") && s.contains("c"));
}

#[test]
fn defaults_when_options_absent() {
    let s: AccordianState<u32> = AccordianState::new(None, AccordianType::Single, None, None);
    assert!(!s.collapsible());
    assert_eq!(s.orientation(), Orientation::Vertical);
    assert_eq!(s.typ(), AccordianType::Single);
    assert!(s.open_values().is_empty());
}

#[test]
fn accordion_scenario_single_non_collapsible() {
    let mut s: AccordianState<u32> = AccordianState::new(Some(false), AccordianType::Single, None, None);
    assert_eq!(s.data_state("item-1"), "closed");
    assert_eq!(s.data_state("item-2"), "closed");
    s.toggle("item-1");
    assert_eq!(s.data_state("item-1"), "open");
    assert_eq!(s.data_state("item-2"), "closed");
    s.toggle("item-2");
    assert_eq!(s.data_state("item-1"), "closed");
    assert_eq!(s.data_state("item-2"), "open");
    s.toggle("item-2");
    assert_eq!(s.data_state("item-1"), "closed");
    assert_eq!(s.data_state("item-2"), "open");
}

fn three_triggers(orientation: Orientation) -> AccordianState<u32> {
    let mut s = AccordianState::new(None, AccordianType::Single, Some(orientation), None);
    s.add_item("t0", 10);
    s.add_item("t1", 11);
    s.add_item("t2", 12);
    s
}

#[test]
fn focus_traversal_bounds() {
    let s = three_triggers(Orientation::Vertical);
    assert_eq!(s.handle_key("t0", NavKey::ArrowUp).focus, None);
    assert_eq!(s.handle_key("t2", NavKey::ArrowDown).focus, None);
    assert_eq!(s.handle_key("t1", NavKey::End).focus, Some(2));
    assert_eq!(*s.trigger(2), 12);
}

#[test]
fn focus_moves_along_orientation_only() {
    let v = three_triggers(Orientation::Vertical);
    assert_eq!(v.handle_key("t1", NavKey::ArrowDown), KeyResponse { prevent_default: true, focus: Some(2) });
    assert_eq!(v.handle_key("t1", NavKey::ArrowUp), KeyResponse { prevent_default: true, focus: Some(0) });
    assert_eq!(v.handle_key("t1", NavKey::ArrowRight), KeyResponse { prevent_default: false, focus: None });
    let h = three_triggers(Orientation::Horizontal);
    assert_eq!(h.handle_key("t1", NavKey::ArrowRight), KeyResponse { prevent_default: true, focus: Some(2) });
    assert_eq!(h.handle_key("t1", NavKey::ArrowLeft), KeyResponse { prevent_default: true, focus: Some(0) });
    assert_eq!(h.handle_key("t0", NavKey::ArrowLeft), KeyResponse { prevent_default: true, focus: None });
    assert_eq!(h.handle_key("t1", NavKey::ArrowDown), KeyResponse { prevent_default: false, focus: None });
}

#[test]
fn home_end_and_other_keys() {
    let s = three_triggers(Orientation::Horizontal);
    assert_eq!(s.handle_key("t2", NavKey::Home).focus, Some(0));
    assert_eq!(s.handle_key("t0", NavKey::Home), KeyResponse { prevent_default: true, focus: None });
    assert_eq!(s.handle_key("t2", NavKey::End), KeyResponse { prevent_default: true, focus: None });
    assert_eq!(s.handle_key("t0", NavKey::Other), KeyResponse { prevent_default: false, focus: None });
    assert_eq!(s.handle_key("missing", NavKey::End), KeyResponse { prevent_default: true, focus: None });
}

#[test]
fn first_registration_wins() {
    let mut s: AccordianState<u32> = AccordianState::new(None, AccordianType::Multiple, None, None);
    s.add_item("a", 1);
    s.add_item("b", 2);
    s.add_item("a", 3);
    assert_eq!(s.trigger_count(), 2);
    assert_eq!(*s.trigger(0), 1);
    assert_eq!(*s.trigger(1), 2);
}

#[test]
fn trigger_disabled_only_for_locked_single_section() {
    let s = single(false, &["a"]);
    assert!(s.trigger_disabled("a"));
    assert!(!s.trigger_disabled("b"));
    let c = single(true, &["a"]);
    assert!(!c.trigger_disabled("a"));
    let m: AccordianState<u32> =
        AccordianState::new(Some(false), AccordianType::Multiple, None, Some(vec!["a".to_string()]));
    assert!(!m.trigger_disabled("a"));
}

#[test]
fn content_role_region_in_single_mode() {
    assert_eq!(single(false, &[]).content_role(), Some("region"));
    let m: AccordianState<u32> = AccordianState::new(None, AccordianType::Multiple, None, None);
    assert_eq!(m.content_role(), None);
}

#[test]
fn accordion_type_parse() {
    assert_eq!(AccordianType::parse("single"), Ok(AccordianType::Single));
    assert_eq!(AccordianType::parse("MULTIPLE"), Ok(AccordianType::Multiple));
    assert_eq!(AccordianType::parse("Single"), Ok(AccordianType::Single));
    assert!(AccordianType::parse("many").is_err());
    assert!(AccordianType::parse("").is_err());
    assert_eq!(AccordianType::default(), AccordianType::Single);
}

#[test]
fn orientation_names() {
    assert_eq!(Orientation::Vertical.as_str(), "vertical");
    assert_eq!(Orientation::Horizontal.as_str(), "horizontal");
    assert!(Orientation::Vertical.is_vertical());
    assert!(Orientation::Horizontal.is_horizontal());
}

#[test]
fn item_ids_from_given_token() {
    let mut item = AccordianItemState::new("item-1", Some("abc".to_string()), true);
    assert_eq!(item.value(), "item-1");
    assert!(item.disabled());
    assert_eq!(item.id(), "meek-accordian-:abc:");
    assert_eq!(item.trigger_id(), "meek-accordian-trigger-abc");
    assert_eq!(item.content_id(), "meek-accordian-content-abc");
    item.set_trigger_id("custom-trigger".to_string());
    item.set_content_id("custom-content".to_string());
    assert_eq!(item.trigger_id(), "custom-trigger");
    assert_eq!(item.content_id(), "custom-content");
}

#[test]
fn item_ids_from_uuid_bits() {
    let a = AccordianItemState::with_uuid("v", None, 0x0123_4567_89ab_cdef_0123_4567_89ab_cdef, false);
    let b = AccordianItemState::with_uuid("v", None, 0x0123_4567_89ab_cdef_0123_4567_89ab_cdee, false);
    let prefix = "meek-accordian-trigger-";
    let ta = a.trigger_id();
    assert!(ta.starts_with(prefix));
    let token = &ta[prefix.len()..];
    assert!(!token.is_empty());
    assert_ne!(token, "0123456789abcdef0123456789abcdef");
    assert_ne!(a.trigger_id(), b.trigger_id());
    let again = AccordianItemState::with_uuid("v", None, 0x0123_4567_89ab_cdef_0123_4567_89ab_cdef, false);
    assert_eq!(a.trigger_id(), again.trigger_id());
}

#[test]
fn random_item_tokens_differ() {
    let a = AccordianItemState::new("v", None, false);
    let b = AccordianItemState::new("v", None, false);
    assert_ne!(a.id(), b.id());
    assert!(!a.disabled());
}
