use data_contract_creator::codec::{parse, render};
use data_contract_creator::editor::{Effect, Model, Msg, Panel, PropertyEdit};
use data_contract_creator::model::{DataType, Property};
use data_contract_creator::validator::{Diagnostic, Validation};

const NFT: &str = "{\"nft\":{\"type\":\"object\",\"properties\":{\"name\":{\"type\":\"string\",\"maxLength\":63}},\"required\":[\"name\"],\"additionalProperties\":false}}";

fn nft_model() -> Model {
    let mut m = Model::create();
    m.update(Msg::UpdateName(0, "nft".to_string()));
    m.update(Msg::AddProperty(0));
    m.update(Msg::UpdateProperty(0, 0, PropertyEdit::Name("name".to_string())));
    m.update(Msg::UpdateProperty(0, 0, PropertyEdit::Required(true)));
    m.update(Msg::UpdateProperty(0, 0, PropertyEdit::MaxLength(Some(63))));
    m
}

#[test]
fn empty_to_one_doc() {
    let mut m = nft_model();
    let effect = m.update(Msg::Submit);
    assert_eq!(m.schema, NFT);
    assert_eq!(effect, Effect::Validate(NFT.to_string()));
    assert_eq!(render(&m.json_object), NFT);
    assert_eq!(m.document_types[0].required, vec!["name".to_string()]);
}

#[test]
fn empty_to_one_doc_from_no_document_type() {
    let mut m = Model::create();
    m.update(Msg::RemoveDocumentType(0));
    m.update(Msg::AddDocumentType);
    m.update(Msg::UpdateName(0, "nft".to_string()));
    m.update(Msg::UpdateProperty(0, 0, PropertyEdit::Name("name".to_string())));
    m.update(Msg::UpdateProperty(0, 0, PropertyEdit::Required(true)));
    m.update(Msg::UpdateProperty(0, 0, PropertyEdit::MaxLength(Some(63))));
    m.update(Msg::Submit);
    assert_eq!(m.schema, NFT);
}

#[test]
fn required_flag_toggle() {
    let mut m = nft_model();
    m.update(Msg::Submit);
    m.update(Msg::UpdateProperty(0, 0, PropertyEdit::Required(false)));
    m.update(Msg::Submit);
    assert_eq!(
        m.schema,
        "{\"nft\":{\"type\":\"object\",\"properties\":{\"name\":{\"type\":\"string\",\"maxLength\":63}},\"additionalProperties\":false}}"
    );
    assert!(!m.schema.contains("\"required\""));
    assert!(m.document_types[0].required.is_empty());
}

#[test]
fn array_byte_array() {
    let mut m = nft_model();
    m.update(Msg::AddProperty(0));
    m.update(Msg::UpdateProperty(0, 1, PropertyEdit::Name("blob".to_string())));
    m.update(Msg::UpdateProperty(0, 1, PropertyEdit::DataType(DataType::Array)));
    m.update(Msg::Submit);
    assert!(m.schema.contains("\"blob\":{\"type\":\"array\",\"byteArray\":true}"));
    assert!(!m.schema.contains("\"items\""));
}

#[test]
fn import_round_trip() {
    let mut m = Model::create();
    m.update(Msg::UpdateImportedJson(NFT.to_string()));
    let effect = m.update(Msg::Import);
    assert_eq!(m.schema, NFT);
    assert_eq!(effect, Effect::Validate(NFT.to_string()));
    assert_eq!(m.imported_json, "");
    let mut built = nft_model();
    built.update(Msg::Submit);
    assert_eq!(m.document_types, built.document_types);
    assert_eq!(m.json_object, built.json_object);
}

#[test]
fn index_sort() {
    let mut m = nft_model();
    m.update(Msg::AddIndex(0));
    m.update(Msg::UpdateIndexName(0, 0, "byName".to_string()));
    m.update(Msg::UpdateIndexProperty(0, 0, 0, "name".to_string()));
    m.update(Msg::Submit);
    assert!(m
        .schema
        .contains("\"indices\":[{\"name\":\"byName\",\"properties\":[{\"name\":\"asc\"}]}]"));
    assert_eq!(
        m.schema,
        "{\"nft\":{\"type\":\"object\",\"properties\":{\"name\":{\"type\":\"string\",\"maxLength\":63}},\"indices\":[{\"name\":\"byName\",\"properties\":[{\"name\":\"asc\"}]}],\"required\":[\"name\"],\"additionalProperties\":false}}"
    );
}

#[test]
fn validator_rewrite() {
    // an array property that lacks the byte array mark
    let mut m = nft_model();
    m.update(Msg::AddProperty(0));
    m.update(Msg::UpdateProperty(0, 1, PropertyEdit::Name("blob".to_string())));
    m.document_types[0].properties[1] = Property {
        name: "blob".to_string(),
        data_type: DataType::Array,
        ..Property::default()
    };
    let effect = m.update(Msg::Submit);
    assert!(m.schema.contains("\"blob\":{\"type\":\"array\"}"));
    assert!(matches!(effect, Effect::Validate(_)));
    // what a validator reports on such a contract
    let report = Validation::Checked(vec![Diagnostic::JsonSchema {
        summary: "\"items\" is a required property".to_string(),
        path: "/documents/nft/properties/blob".to_string(),
    }]);
    m.update(Msg::ReceiveValidation(report));
    assert!(m
        .error_messages
        .iter()
        .any(|e| e.starts_with("JsonSchemaError: \"array\" properties must specify")));
    assert_eq!(m.panel(), Panel::Errors);
}

#[test]
fn parse_reads_what_render_wrote() {
    let j = parse(NFT).unwrap();
    assert_eq!(render(&j), NFT);
    assert!(parse("{\"a\":").is_none());
}
