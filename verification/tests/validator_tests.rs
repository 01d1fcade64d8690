use data_contract_creator::editor::{Model, Msg, Panel};
use data_contract_creator::validator::{
    diagnostic_message, extract_basic_error_messages, Diagnostic, Validation,
};

fn schema(summary: &str, path: &str) -> Diagnostic {
    Diagnostic::JsonSchema { summary: summary.to_string(), path: path.to_string() }
}

const ADVICE: &str = "JsonSchemaError: \"array\" properties must specify \"byteArray\": true. In the dynamic form, just change the property from an array to a string and back to an array again, and resubmit.";

#[test]
fn a_schema_finding_is_worded_with_its_path() {
    assert_eq!(
        diagnostic_message(&schema("\"maxLength\" must be <= 63", "/nft/properties/name")),
        Some("JsonSchemaError: \"maxLength\" must be <= 63, Path: /nft/properties/name".to_string())
    );
    assert_eq!(
        diagnostic_message(&schema("", "")),
        Some("JsonSchemaError: , Path: ".to_string())
    );
}

#[test]
fn a_finding_about_missing_items_is_replaced_by_advice() {
    assert_eq!(
        diagnostic_message(&schema("\"items\" is a required property", "/nft/properties/blob")),
        Some(ADVICE.to_string())
    );
    assert_eq!(
        diagnostic_message(&schema("at blob: \"items\" is a required property here", "")),
        Some(ADVICE.to_string())
    );
    // the words must stand there as they are
    assert_eq!(
        diagnostic_message(&schema("\"items\" is a required propert", "/p")),
        Some("JsonSchemaError: \"items\" is a required propert, Path: /p".to_string())
    );
    assert_eq!(
        diagnostic_message(&schema("items is a required property", "/p")),
        Some("JsonSchemaError: items is a required property, Path: /p".to_string())
    );
}

#[test]
fn another_basic_finding_keeps_its_words() {
    assert_eq!(
        diagnostic_message(&Diagnostic::Basic("Duplicate index name".to_string())),
        Some("Duplicate index name".to_string())
    );
    // the advice is for schema findings only
    assert_eq!(
        diagnostic_message(&Diagnostic::Basic("\"items\" is a required property".to_string())),
        Some("\"items\" is a required property".to_string())
    );
}

#[test]
fn a_finding_that_is_not_basic_gives_no_message() {
    assert_eq!(diagnostic_message(&Diagnostic::Other), None);
    assert!(extract_basic_error_messages(&vec![Diagnostic::Other, Diagnostic::Other]).is_empty());
    assert!(extract_basic_error_messages(&vec![]).is_empty());
}

#[test]
fn every_message_is_shown_once() {
    let found = vec![
        schema("a", "/x"),
        Diagnostic::Other,
        Diagnostic::Basic("b".to_string()),
        schema("a", "/x"),
        schema("\"items\" is a required property", "/one"),
        schema("a", "/y"),
        schema("\"items\" is a required property", "/two"),
        Diagnostic::Basic("b".to_string()),
        Diagnostic::Basic("JsonSchemaError: a, Path: /x".to_string()),
    ];
    let shown = extract_basic_error_messages(&found);
    assert_eq!(
        shown,
        vec![
            "JsonSchemaError: a, Path: /x".to_string(),
            "b".to_string(),
            ADVICE.to_string(),
            "JsonSchemaError: a, Path: /y".to_string(),
        ]
    );
    let mut sorted = shown.clone();
    sorted.sort();
    sorted.dedup();
    assert_eq!(sorted.len(), shown.len());
}

#[test]
fn a_report_fills_the_validation_errors() {
    let mut m = Model::create();
    m.update(Msg::Submit);
    assert_eq!(m.panel(), Panel::Passing);
    let shown = m.validate(Validation::Checked(vec![schema("a", "/x"), schema("a", "/x")]));
    assert_eq!(shown, vec!["JsonSchemaError: a, Path: /x".to_string()]);
    assert!(m.error_messages.is_empty());
    m.update(Msg::ReceiveValidation(Validation::Checked(vec![schema("a", "/x")])));
    assert_eq!(m.error_messages, vec!["JsonSchemaError: a, Path: /x".to_string()]);
    assert!(m.error_messages_ai.is_empty());
    assert_eq!(m.panel(), Panel::Errors);
    m.update(Msg::ReceiveValidation(Validation::Checked(vec![Diagnostic::Other])));
    assert!(m.error_messages.is_empty());
    assert_eq!(m.panel(), Panel::Passing);
}

#[test]
fn a_contract_that_the_validator_cannot_take_goes_to_the_other_errors() {
    let mut m = Model::create();
    m.update(Msg::Submit);
    let before = m.document_types.len();
    m.update(Msg::ReceiveValidation(Validation::Rejected("no documents defined".to_string())));
    assert_eq!(m.error_messages_ai, vec!["no documents defined".to_string()]);
    assert_eq!(m.error_messages, vec!["no documents defined".to_string()]);
    assert_eq!(m.document_types.len(), before);
    m.update(Msg::ReceiveValidation(Validation::Rejected("again".to_string())));
    assert_eq!(
        m.error_messages_ai,
        vec!["no documents defined".to_string(), "again".to_string()]
    );
    assert_eq!(m.error_messages, m.error_messages_ai);
}

#[test]
fn the_advice_takes_the_place_of_the_whole_message() {
    let shown = extract_basic_error_messages(&vec![schema(
        "\"items\" is a required property",
        "/nft/properties/blob",
    )]);
    assert_eq!(shown.len(), 1);
    assert!(shown[0].starts_with("JsonSchemaError: \"array\" properties must specify"));
    assert!(shown[0].contains("byteArray"));
    assert!(!shown[0].contains("\"items\" is a required property"));
    assert!(!shown[0].contains(", Path: "));
    assert!(!shown[0].contains("/nft/properties/blob"));
}
