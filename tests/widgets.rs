use meek_aria::{matches_ignoring_ascii_case, AlertDialogState, CheckboxState, DialogKey, UnknownValue};

#[test]
fn checkbox_attributes() {
    assert_eq!(CheckboxState::On.state(), "checked");
    assert_eq!(CheckboxState::Off.state(), "unchecked");
    assert_eq!(CheckboxState::Intermediate.state(), "intermediate");
    assert_eq!(CheckboxState::On.aria(), "true");
    assert_eq!(CheckboxState::Off.aria(), "false");
    assert_eq!(CheckboxState::Intermediate.aria(), "mixed");
    assert_eq!(CheckboxState::On.value(), "on");
    assert_eq!(CheckboxState::Off.value(), "off");
    assert_eq!(CheckboxState::Intermediate.value(), "intermediate");
}

#[test]
fn checkbox_click_cycle() {
    assert_eq!(CheckboxState::Intermediate.clicked(), CheckboxState::On);
    assert_eq!(CheckboxState::On.clicked(), CheckboxState::Off);
    assert_eq!(CheckboxState::Off.clicked(), CheckboxState::On);
}

#[test]
fn checkbox_parse() {
    assert_eq!(CheckboxState::parse("On"), Ok(CheckboxState::On));
    assert_eq!(CheckboxState::parse("TRUE"), Ok(CheckboxState::On));
    assert_eq!(CheckboxState::parse("off"), Ok(CheckboxState::Off));
    assert_eq!(CheckboxState::parse("false"), Ok(CheckboxState::Off));
    assert_eq!(CheckboxState::parse("Intermediate"), Ok(CheckboxState::Intermediate));
    assert_eq!(CheckboxState::parse("maybe"), Err(UnknownValue));
    assert!(CheckboxState::On.is_on() && CheckboxState::Off.is_off());
    assert!(CheckboxState::Intermediate.is_intermediate());
}

#[test]
fn ascii_case_matching() {
    assert!(matches_ignoring_ascii_case("HeLLo", "hello"));
    assert!(!matches_ignoring_ascii_case("hell", "hello"));
    assert!(!matches_ignoring_ascii_case("h_llo", "hello"));
    assert!(matches_ignoring_ascii_case("", ""));
}

#[test]
fn dialog_ids_and_state() {
    let mut d = AlertDialogState::new("dlg".to_string(), false);
    assert_eq!(d.id(), "dlg");
    assert_eq!(d.data_state(), "closed");
    assert_eq!(d.labelled_by(None), None);
    d.set_title(None);
    d.set_description(Some("desc".to_string()));
    assert_eq!(d.title_id(), Some("dlg:title".to_string()));
    assert_eq!(d.description_id(), Some("desc".to_string()));
    assert_eq!(d.labelled_by(None), Some("dlg:title".to_string()));
    assert_eq!(d.labelled_by(Some("mine".to_string())), Some("mine".to_string()));
    assert_eq!(d.described_by(None), Some("desc".to_string()));
    d.set_description(None);
    assert_eq!(d.description_id(), Some("dlg:description".to_string()));
}

#[test]
fn dialog_open_close_and_escape() {
    let mut d = AlertDialogState::new("x".to_string(), false);
    assert!(d.open());
    assert!(d.is_open());
    assert_eq!(d.data_state(), "open");
    assert_eq!(d.handle_key(DialogKey::Other), None);
    assert!(d.is_open());
    assert_eq!(d.handle_key(DialogKey::Escape), Some(false));
    assert!(!d.is_open());
    assert!(d.set_open(true));
    assert!(!d.close());
    assert!(!d.is_open());
}
