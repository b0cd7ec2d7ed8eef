use dashboards::concurrency::apply_update;
use dashboards::ident::generated_id;
use dashboards::document::{clone_panels, panels_of};
use dashboards::validator::scan_panels;
use dashboards::{validate, Document, Error, Fragment, Kind, Panel, PanelsField, ValidationError};

fn entry(kind: Kind) -> Fragment {
    Fragment { kind, body: "x".to_string() }
}

fn with_panels(title: &str, panels: PanelsField) -> Document {
    Document { id: None, title: title.to_string(), panels }
}

#[test]
fn valid_document_passes() {
    let doc = with_panels("Sales", PanelsField::Sequence(vec![entry(Kind::Object), entry(Kind::Object)]));
    assert_eq!(validate(&doc), Ok(()));
    assert_eq!(validate(&with_panels("Sales", PanelsField::Sequence(Vec::new()))), Ok(()));
}

#[test]
fn empty_title_is_rejected() {
    let doc = with_panels("", PanelsField::Sequence(Vec::new()));
    assert_eq!(validate(&doc), Err(ValidationError::EmptyTitle));
}

#[test]
fn blank_title_is_not_empty() {
    let doc = with_panels(" ", PanelsField::Sequence(Vec::new()));
    assert_eq!(validate(&doc), Ok(()));
}

#[test]
fn missing_panels_are_rejected() {
    assert_eq!(validate(&with_panels("Sales", PanelsField::Missing)), Err(ValidationError::MissingPanels));
}

#[test]
fn panels_that_are_no_sequence_are_rejected() {
    assert_eq!(
        validate(&with_panels("Sales", PanelsField::Malformed)),
        Err(ValidationError::PanelsNotSequence)
    );
}

#[test]
fn every_kind_but_object_is_rejected_as_a_panel() {
    for kind in [Kind::Null, Kind::Boolean, Kind::Number, Kind::Text, Kind::Sequence] {
        let doc = with_panels("Sales", PanelsField::Sequence(vec![entry(Kind::Object), entry(kind)]));
        assert_eq!(validate(&doc), Err(ValidationError::MalformedPanel { index: 1 }));
        assert!(!entry(kind).is_panel());
    }
    assert!(entry(Kind::Object).is_panel());
}

#[test]
fn first_malformed_panel_is_reported() {
    let doc = with_panels(
        "Sales",
        PanelsField::Sequence(vec![
            entry(Kind::Object),
            entry(Kind::Object),
            entry(Kind::Null),
            entry(Kind::Object),
            entry(Kind::Text),
        ]),
    );
    assert_eq!(validate(&doc), Err(ValidationError::MalformedPanel { index: 2 }));
    let doc = with_panels("Sales", PanelsField::Sequence(vec![entry(Kind::Number)]));
    assert_eq!(validate(&doc), Err(ValidationError::MalformedPanel { index: 0 }));
}

#[test]
fn title_is_looked_at_before_panels() {
    assert_eq!(validate(&with_panels("", PanelsField::Missing)), Err(ValidationError::EmptyTitle));
    assert_eq!(validate(&with_panels("", PanelsField::Malformed)), Err(ValidationError::EmptyTitle));
    let doc = with_panels("", PanelsField::Sequence(vec![entry(Kind::Null)]));
    assert_eq!(validate(&doc), Err(ValidationError::EmptyTitle));
}

#[test]
fn panel_content_is_not_looked_at() {
    let doc = with_panels(
        "Sales",
        PanelsField::Sequence(vec![
            Fragment { kind: Kind::Object, body: String::new() },
            Fragment { kind: Kind::Object, body: "{\"query\":\"select nonsense from\"}".to_string() },
        ]),
    );
    assert_eq!(validate(&doc), Ok(()));
}

#[test]
fn scan_finds_the_first_entry_that_is_no_panel() {
    assert_eq!(scan_panels(&Vec::new()), None);
    assert_eq!(scan_panels(&vec![entry(Kind::Object)]), None);
    assert_eq!(scan_panels(&vec![entry(Kind::Object), entry(Kind::Boolean), entry(Kind::Null)]), Some(1));
}

#[test]
fn panels_of_keeps_each_text_in_order() {
    let items = vec![
        Fragment { kind: Kind::Object, body: "{\"a\":1}".to_string() },
        Fragment { kind: Kind::Object, body: "{\"b\":2}".to_string() },
    ];
    let panels = panels_of(&items);
    assert_eq!(
        panels,
        vec![Panel { body: "{\"a\":1}".to_string() }, Panel { body: "{\"b\":2}".to_string() }]
    );
    assert_eq!(clone_panels(&panels), panels);
    assert_eq!(panels_of(&Vec::new()), Vec::new());
}

#[test]
fn clones_are_equal_to_what_they_copy() {
    let fragment = Fragment { kind: Kind::Text, body: "\"hello\"".to_string() };
    assert_eq!(fragment.clone(), fragment);
    let panel = Panel { body: "{\"k\":[1,2]}".to_string() };
    assert_eq!(panel.clone(), panel);
    let document = Document {
        id: Some("main".to_string()),
        title: "Sales".to_string(),
        panels: PanelsField::Sequence(vec![entry(Kind::Object), entry(Kind::Null)]),
    };
    assert_eq!(document.clone(), document);
    assert_eq!(with_panels("T", PanelsField::Missing).clone(), with_panels("T", PanelsField::Missing));
    assert_eq!(PanelsField::Malformed.clone(), PanelsField::Malformed);
}

#[test]
fn matching_version_leads_to_the_next_one() {
    assert_eq!(apply_update(1, 1), Ok(2));
    assert_eq!(apply_update(41, 41), Ok(42));
    assert_eq!(apply_update(u64::MAX - 1, u64::MAX - 1), Ok(u64::MAX));
    assert_eq!(apply_update(0, 0), Ok(1));
}

#[test]
fn any_other_version_is_a_conflict() {
    assert_eq!(apply_update(2, 1), Err(Error::Conflict));
    assert_eq!(apply_update(1, 2), Err(Error::Conflict));
    assert_eq!(apply_update(u64::MAX, 0), Err(Error::Conflict));
    assert_eq!(apply_update(0, u64::MAX), Err(Error::Conflict));
}

#[test]
fn last_version_has_no_next_one() {
    assert_eq!(apply_update(u64::MAX, u64::MAX), Err(Error::InfrastructureFailure));
}

#[test]
fn generated_identifiers_are_d_and_the_number_in_decimal() {
    assert_eq!(generated_id(1), "d1");
    assert_eq!(generated_id(0), "d0");
    assert_eq!(generated_id(9), "d9");
    assert_eq!(generated_id(10), "d10");
    assert_eq!(generated_id(101), "d101");
    assert_eq!(generated_id(1234567890), "d1234567890");
    assert_eq!(generated_id(u64::MAX), "d18446744073709551615");
}
