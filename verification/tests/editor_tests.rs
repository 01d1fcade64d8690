use data_contract_creator::editor::{Effect, Model, Msg, Panel, PropertyEdit};
use data_contract_creator::json::Json;
use data_contract_creator::model::{
    default_additional_properties, DataType, DocumentType, Index, IndexProperties, Property,
};
use data_contract_creator::prompt::{FIRST_PROMPT_PRE, SECOND_PROMPT_PRE};

fn with_property() -> Model {
    let mut m = Model::create();
    m.update(Msg::AddProperty(0));
    m
}

#[test]
fn a_session_begins_with_one_blank_document_type() {
    let m = Model::create();
    assert_eq!(m.document_types, vec![DocumentType::default()]);
    assert_eq!(m.json_object, Json::Object(vec![]));
    assert_eq!(m.imported_json, "");
    assert!(m.error_messages.is_empty());
    assert_eq!(m.prompt, "");
    assert_eq!(m.schema, "");
    assert_eq!(m.temp_prompt, None);
    assert!(m.history.is_empty());
    assert!(!m.loading);
    assert!(m.error_messages_ai.is_empty());
    assert_eq!(m.panel(), Panel::Blank);
    assert!(!m.has_contract());
}

#[test]
fn the_defaults_are_blank() {
    let p = Property::default();
    assert_eq!(p.name, "");
    assert_eq!(p.data_type, DataType::String);
    assert!(!p.required);
    assert_eq!(p.byte_array, None);
    assert_eq!(DataType::default(), DataType::String);
    assert_eq!(IndexProperties::default(), IndexProperties(String::new(), "asc".to_string()));
    assert_eq!(Index::default(), Index { name: String::new(), properties: vec![], unique: false });
    let d = DocumentType::default();
    assert!(d.properties.is_empty() && d.indices.is_empty() && d.required.is_empty());
    assert!(!d.created_at_required && !d.updated_at_required && !d.additional_properties);
}

#[test]
fn a_new_document_type_has_one_blank_property() {
    let mut m = Model::create();
    assert_eq!(m.update(Msg::AddDocumentType), Effect::Nothing);
    assert_eq!(m.document_types.len(), 2);
    assert_eq!(m.document_types[1].properties, vec![Property::default()]);
    m.update(Msg::RemoveDocumentType(0));
    assert_eq!(m.document_types.len(), 1);
    assert_eq!(m.document_types[0].properties.len(), 1);
    m.update(Msg::RemoveDocumentType(1));
    assert_eq!(m.document_types.len(), 1);
}

#[test]
fn names_and_comments_are_set() {
    let mut m = with_property();
    m.update(Msg::UpdateName(0, "nft".to_string()));
    m.update(Msg::UpdateComment(0, "tokens".to_string()));
    m.update(Msg::UpdateProperty(0, 0, PropertyEdit::Name("name".to_string())));
    m.update(Msg::UpdateProperty(0, 0, PropertyEdit::Description("d".to_string())));
    m.update(Msg::UpdateProperty(0, 0, PropertyEdit::Comment("c".to_string())));
    m.update(Msg::UpdateProperty(0, 0, PropertyEdit::Required(true)));
    let d = &m.document_types[0];
    assert_eq!(d.name, "nft");
    assert_eq!(d.comment, "tokens");
    assert_eq!(
        d.properties[0],
        Property {
            name: "name".to_string(),
            required: true,
            description: Some("d".to_string()),
            comment: Some("c".to_string()),
            ..Property::default()
        }
    );
    assert_eq!(m.property(0, 0), Some(&d.properties[0]));
    assert_eq!(m.property(0, 1), None);
    assert_eq!(m.property(1, 0), None);
    assert_eq!(m.document_type(0), Some(d));
    assert_eq!(m.document_type(1), None);
}

#[test]
fn every_field_of_a_property_is_set_and_cleared() {
    let mut m = with_property();
    let edits = vec![
        PropertyEdit::MinLength(Some(1)),
        PropertyEdit::MaxLength(Some(2)),
        PropertyEdit::Pattern("p".to_string()),
        PropertyEdit::Format("f".to_string()),
        PropertyEdit::Minimum(Some(-3)),
        PropertyEdit::Maximum(Some(4)),
        PropertyEdit::MinItems(Some(5)),
        PropertyEdit::MaxItems(Some(6)),
        PropertyEdit::ContentMediaType("m".to_string()),
        PropertyEdit::MinProperties(Some(7)),
        PropertyEdit::MaxProperties(Some(8)),
    ];
    for e in edits {
        m.update(Msg::UpdateProperty(0, 0, e));
    }
    assert_eq!(
        m.document_types[0].properties[0],
        Property {
            min_length: Some(1),
            max_length: Some(2),
            pattern: Some("p".to_string()),
            format: Some("f".to_string()),
            minimum: Some(-3),
            maximum: Some(4),
            min_items: Some(5),
            max_items: Some(6),
            content_media_type: Some("m".to_string()),
            min_properties: Some(7),
            max_properties: Some(8),
            ..Property::default()
        }
    );
    let clears = vec![
        PropertyEdit::MinLength(None),
        PropertyEdit::MaxLength(None),
        PropertyEdit::Minimum(None),
        PropertyEdit::Maximum(None),
        PropertyEdit::MinItems(None),
        PropertyEdit::MaxItems(None),
        PropertyEdit::MinProperties(None),
        PropertyEdit::MaxProperties(None),
    ];
    for e in clears {
        m.update(Msg::UpdateProperty(0, 0, e));
    }
    assert_eq!(
        m.document_types[0].properties[0],
        Property {
            pattern: Some("p".to_string()),
            format: Some("f".to_string()),
            content_media_type: Some("m".to_string()),
            ..Property::default()
        }
    );
}

fn filled() -> Property {
    Property {
        name: "n".to_string(),
        data_type: DataType::Object,
        required: true,
        description: Some("d".to_string()),
        comment: Some("c".to_string()),
        min_length: Some(1),
        max_length: Some(2),
        pattern: Some("p".to_string()),
        format: Some("f".to_string()),
        minimum: Some(3),
        maximum: Some(4),
        byte_array: Some(false),
        min_items: Some(5),
        max_items: Some(6),
        content_media_type: Some("m".to_string()),
        properties: Some(vec![Property::default()]),
        min_properties: Some(7),
        max_properties: Some(8),
        rec_required: Some(vec!["x".to_string()]),
        additional_properties: Some(true),
    }
}

#[test]
fn a_change_of_data_type_resets_what_belongs_to_a_data_type() {
    let mut m = with_property();
    for t in [
        DataType::String,
        DataType::Integer,
        DataType::Array,
        DataType::Object,
        DataType::Number,
        DataType::Boolean,
    ] {
        m.document_types[0].properties[0] = filled();
        m.update(Msg::UpdateProperty(0, 0, PropertyEdit::DataType(t)));
        let want = Property {
            name: "n".to_string(),
            data_type: t,
            required: true,
            description: Some("d".to_string()),
            comment: Some("c".to_string()),
            byte_array: if t == DataType::Array { Some(true) } else { None },
            ..Property::default()
        };
        assert_eq!(m.document_types[0].properties[0], want);
    }
}

#[test]
fn the_defaults_of_each_data_type() {
    for t in [
        DataType::String,
        DataType::Integer,
        DataType::Object,
        DataType::Number,
        DataType::Boolean,
    ] {
        assert_eq!(default_additional_properties(t), Property { data_type: t, ..Property::default() });
    }
    assert_eq!(
        default_additional_properties(DataType::Array),
        Property { data_type: DataType::Array, byte_array: Some(true), ..Property::default() }
    );
    let mut p = Property { name: "n".to_string(), max_length: Some(3), ..Property::default() };
    p.set_data_type(DataType::Array);
    assert_eq!(
        p,
        Property {
            name: "n".to_string(),
            data_type: DataType::Array,
            byte_array: Some(true),
            ..Property::default()
        }
    );
}

#[test]
fn data_types_have_tags_and_labels() {
    let all = [
        (DataType::String, "string", "String"),
        (DataType::Integer, "integer", "Integer"),
        (DataType::Array, "array", "Array"),
        (DataType::Object, "object", "Object"),
        (DataType::Number, "number", "Number"),
        (DataType::Boolean, "boolean", "Boolean"),
    ];
    for (t, tag, label) in all {
        assert_eq!(t.tag(), tag);
        assert_eq!(t.label(), label);
        assert_eq!(DataType::from_tag(tag), Some(t));
        assert_eq!(DataType::from_label(label), Some(t));
        assert_eq!(DataType::from_tag(label), None);
        assert_eq!(DataType::from_label(tag), None);
    }
    assert_eq!(DataType::from_tag(""), None);
    assert_eq!(DataType::from_label("Text"), None);
}

#[test]
fn removing_a_property_takes_its_name_from_the_required_list() {
    let mut m = with_property();
    m.update(Msg::AddProperty(0));
    m.update(Msg::UpdateProperty(0, 0, PropertyEdit::Name("a".to_string())));
    m.update(Msg::UpdateProperty(0, 0, PropertyEdit::Required(true)));
    m.update(Msg::UpdateProperty(0, 1, PropertyEdit::Name("b".to_string())));
    m.update(Msg::UpdateProperty(0, 1, PropertyEdit::Required(true)));
    m.update(Msg::Submit);
    assert_eq!(m.document_types[0].required, vec!["a".to_string(), "b".to_string()]);
    m.update(Msg::RemoveProperty(0, 0));
    assert_eq!(m.document_types[0].properties.len(), 1);
    assert_eq!(m.document_types[0].properties[0].name, "b");
    assert_eq!(m.document_types[0].required, vec!["b".to_string()]);
    m.update(Msg::RemoveProperty(0, 5));
    assert_eq!(m.document_types[0].properties.len(), 1);
    assert_eq!(m.document_types[0].required, vec!["b".to_string()]);
}

#[test]
fn the_system_properties_are_required_by_number() {
    let mut m = Model::create();
    m.update(Msg::UpdateSystemPropertiesRequired(0, 0, true));
    assert!(m.document_types[0].created_at_required);
    assert!(!m.document_types[0].updated_at_required);
    m.update(Msg::UpdateSystemPropertiesRequired(0, 1, true));
    assert!(m.document_types[0].updated_at_required);
    m.update(Msg::UpdateSystemPropertiesRequired(0, 2, false));
    assert!(m.document_types[0].created_at_required);
    assert!(m.document_types[0].updated_at_required);
    m.update(Msg::UpdateSystemPropertiesRequired(0, 0, false));
    assert!(!m.document_types[0].created_at_required);
    m.update(Msg::Submit);
    assert_eq!(
        m.schema,
        "{\"\":{\"type\":\"object\",\"properties\":{},\"required\":[\"$updatedAt\"],\"additionalProperties\":false}}"
    );
}

#[test]
fn indices_are_added_changed_and_removed() {
    let mut m = Model::create();
    m.update(Msg::AddIndex(0));
    assert_eq!(
        m.document_types[0].indices,
        vec![Index {
            name: String::new(),
            properties: vec![IndexProperties::default()],
            unique: false
        }]
    );
    m.update(Msg::UpdateIndexName(0, 0, "ix".to_string()));
    m.update(Msg::UpdateIndexUnique(0, 0, true));
    m.update(Msg::UpdateIndexProperty(0, 0, 0, "a".to_string()));
    m.update(Msg::AddIndexProperty(0, 0));
    m.update(Msg::UpdateIndexProperty(0, 0, 1, "b".to_string()));
    m.update(Msg::AddIndexProperty(0, 0));
    assert_eq!(
        m.document_types[0].indices[0],
        Index {
            name: "ix".to_string(),
            properties: vec![
                IndexProperties("a".to_string(), "asc".to_string()),
                IndexProperties("b".to_string(), "asc".to_string()),
                IndexProperties(String::new(), "asc".to_string()),
            ],
            unique: true,
        }
    );
    assert_eq!(m.index(0, 0), Some(&m.document_types[0].indices[0]));
    assert_eq!(m.index(0, 1), None);
    m.update(Msg::RemoveIndexProperty(0, 0, 0));
    assert_eq!(m.document_types[0].indices[0].properties.len(), 2);
    assert_eq!(m.document_types[0].indices[0].properties[0].0, "b");
    m.update(Msg::RemoveIndexProperty(0, 0, 9));
    assert_eq!(m.document_types[0].indices[0].properties.len(), 2);
    m.update(Msg::AddIndex(0));
    m.update(Msg::RemoveIndex(0, 0));
    assert_eq!(m.document_types[0].indices.len(), 1);
    assert_eq!(m.document_types[0].indices[0].name, "");
}

#[test]
fn inner_properties_are_added_changed_and_removed() {
    let mut m = with_property();
    m.update(Msg::UpdateProperty(0, 0, PropertyEdit::DataType(DataType::Object)));
    m.update(Msg::AddRecProperty(0, 0));
    m.update(Msg::AddRecProperty(0, 0));
    let blank_inner = Property { rec_required: Some(vec![]), ..Property::default() };
    assert_eq!(
        m.document_types[0].properties[0].properties,
        Some(vec![
            Property { rec_required: Some(vec![]), ..Property::default() },
            Property { rec_required: Some(vec![]), ..Property::default() }
        ])
    );
    m.update(Msg::UpdateRecProperty(0, 0, 1, PropertyEdit::Name("in".to_string())));
    m.update(Msg::UpdateRecProperty(0, 0, 1, PropertyEdit::Required(true)));
    m.update(Msg::UpdateRecProperty(0, 0, 1, PropertyEdit::MaxItems(Some(9))));
    m.update(Msg::UpdateRecProperty(0, 0, 1, PropertyEdit::DataType(DataType::Array)));
    m.update(Msg::UpdateRecProperty(0, 0, 1, PropertyEdit::MinItems(Some(2))));
    let want = Property {
        name: "in".to_string(),
        data_type: DataType::Array,
        required: true,
        byte_array: Some(true),
        min_items: Some(2),
        ..Property::default()
    };
    assert_eq!(m.rec_property(0, 0, 1), Some(&want));
    assert_eq!(m.rec_property(0, 0, 0), Some(&blank_inner));
    assert_eq!(m.rec_property(0, 0, 2), None);
    assert_eq!(m.rec_property(0, 1, 0), None);
    m.update(Msg::UpdateRecProperty(0, 0, 2, PropertyEdit::Name("none".to_string())));
    m.update(Msg::RemoveRecProperty(0, 0, 2));
    assert_eq!(m.document_types[0].properties[0].properties.as_ref().unwrap().len(), 2);
    m.update(Msg::RemoveRecProperty(0, 0, 0));
    assert_eq!(m.document_types[0].properties[0].properties, Some(vec![want]));
    m.update(Msg::Submit);
    assert_eq!(
        m.schema,
        "{\"\":{\"type\":\"object\",\"properties\":{\"\":{\"type\":\"object\",\"properties\":{\"in\":{\"type\":\"array\",\"byteArray\":true,\"minItems\":2}},\"required\":[\"in\"],\"additionalProperties\":false}},\"additionalProperties\":false}}"
    );
}

#[test]
fn a_message_for_a_place_that_is_not_there_changes_nothing() {
    let mut m = with_property();
    m.update(Msg::AddIndex(0));
    let messages = vec![
        Msg::RemoveDocumentType(1),
        Msg::AddProperty(1),
        Msg::RemoveProperty(1, 0),
        Msg::RemoveProperty(0, 1),
        Msg::AddIndex(1),
        Msg::RemoveIndex(1, 0),
        Msg::RemoveIndex(0, 1),
        Msg::AddIndexProperty(1, 0),
        Msg::AddIndexProperty(0, 1),
        Msg::RemoveIndexProperty(1, 0, 0),
        Msg::RemoveIndexProperty(0, 1, 0),
        Msg::RemoveIndexProperty(0, 0, 1),
        Msg::UpdateName(1, "x".to_string()),
        Msg::UpdateComment(1, "x".to_string()),
        Msg::UpdateProperty(1, 0, PropertyEdit::Required(true)),
        Msg::UpdateProperty(0, 1, PropertyEdit::Required(true)),
        Msg::UpdateIndexName(1, 0, "x".to_string()),
        Msg::UpdateIndexName(0, 1, "x".to_string()),
        Msg::UpdateIndexUnique(1, 0, true),
        Msg::UpdateIndexUnique(0, 1, true),
        Msg::UpdateSystemPropertiesRequired(1, 0, true),
        Msg::UpdateSystemPropertiesRequired(0, 2, true),
        Msg::UpdateIndexProperty(1, 0, 0, "x".to_string()),
        Msg::UpdateIndexProperty(0, 1, 0, "x".to_string()),
        Msg::UpdateIndexProperty(0, 0, 1, "x".to_string()),
        Msg::AddRecProperty(1, 0),
        Msg::AddRecProperty(0, 1),
        Msg::RemoveRecProperty(1, 0, 0),
        Msg::RemoveRecProperty(0, 1, 0),
        Msg::RemoveRecProperty(0, 0, 0),
        Msg::UpdateRecProperty(1, 0, 0, PropertyEdit::Required(true)),
        Msg::UpdateRecProperty(0, 1, 0, PropertyEdit::Required(true)),
        Msg::UpdateRecProperty(0, 0, 0, PropertyEdit::Required(true)),
        Msg::RemoveDocumentType(usize::MAX),
        Msg::UpdateProperty(usize::MAX, usize::MAX, PropertyEdit::Required(true)),
    ];
    let before = with_index();
    for msg in messages {
        assert_eq!(m.update(msg), Effect::Nothing);
        assert_eq!(m, before);
    }
}

fn with_index() -> Model {
    let mut m = with_property();
    m.update(Msg::AddIndex(0));
    m
}

#[test]
fn pasted_text_is_kept_until_it_is_imported() {
    let mut m = Model::create();
    assert_eq!(m.update(Msg::UpdateImportedJson("{\"a\":{}}".to_string())), Effect::Nothing);
    assert_eq!(m.imported_json, "{\"a\":{}}");
    assert_eq!(m.schema, "{\"a\":{}}");
    assert_eq!(m.panel(), Panel::Blank);
    let effect = m.update(Msg::Import);
    let text = "{\"a\":{\"type\":\"object\",\"properties\":{},\"additionalProperties\":false}}";
    assert_eq!(effect, Effect::Validate(text.to_string()));
    assert_eq!(m.schema, text);
    assert_eq!(m.imported_json, "");
    assert_eq!(m.document_types.len(), 1);
    assert_eq!(m.document_types[0].name, "a");
    assert!(m.has_contract());
    assert_eq!(m.panel(), Panel::Passing);
}

#[test]
fn importing_what_is_no_contract_leaves_no_document_type() {
    let mut m = with_property();
    m.update(Msg::UpdateImportedJson("{\"a\":".to_string()));
    let effect = m.update(Msg::Import);
    assert_eq!(effect, Effect::Validate("{}".to_string()));
    assert!(m.document_types.is_empty());
    assert_eq!(m.schema, "{}");
    assert_eq!(m.json_object, Json::Object(vec![]));
    assert!(!m.has_contract());
    assert_eq!(m.panel(), Panel::Blank);
}

#[test]
fn clear_resets_tree_contract_pasted_text_and_errors() {
    let mut m = with_property();
    m.update(Msg::UpdateName(0, "nft".to_string()));
    m.update(Msg::Submit);
    m.update(Msg::ReceiveValidation(data_contract_creator::validator::Validation::Checked(vec![
        data_contract_creator::validator::Diagnostic::Basic("e".to_string()),
    ])));
    m.update(Msg::UpdateImportedJson("pending".to_string()));
    m.update(Msg::UpdatePrompt("typed".to_string()));
    assert_eq!(m.update(Msg::Clear), Effect::Nothing);
    assert_eq!(m.document_types, vec![DocumentType::default()]);
    assert_eq!(m.json_object, Json::Object(vec![]));
    assert_eq!(m.imported_json, "");
    assert!(m.error_messages.is_empty());
    assert_eq!(m.prompt, "typed");
    assert_eq!(m.schema, "");
    assert_eq!(m.panel(), Panel::Blank);
    // the next request asks for a first draft
    assert_eq!(
        m.update(Msg::GenerateSchema),
        Effect::Ask(format!("{}typed", FIRST_PROMPT_PRE))
    );
}

#[test]
fn a_first_request_asks_with_the_first_preamble() {
    let mut m = Model::create();
    m.error_messages_ai = vec!["old".to_string()];
    m.update(Msg::UpdatePrompt("a shop".to_string()));
    assert_eq!(m.prompt, "a shop");
    let effect = m.update(Msg::GenerateSchema);
    assert_eq!(effect, Effect::Ask(format!("{}a shop", FIRST_PROMPT_PRE)));
    assert!(m.loading);
    assert_eq!(m.temp_prompt, Some("a shop".to_string()));
    assert_eq!(m.prompt, "");
    assert!(m.error_messages_ai.is_empty());
    assert!(m.history.is_empty());
}

#[test]
fn a_request_while_one_is_under_way_is_passed_over() {
    let mut m = Model::create();
    m.update(Msg::UpdatePrompt("first".to_string()));
    m.update(Msg::GenerateSchema);
    m.update(Msg::UpdatePrompt("second".to_string()));
    let before_prompt = m.prompt.clone();
    assert_eq!(m.update(Msg::GenerateSchema), Effect::Nothing);
    assert!(m.loading);
    assert_eq!(m.temp_prompt, Some("first".to_string()));
    assert_eq!(m.prompt, before_prompt);
}

#[test]
fn a_contract_that_comes_back_takes_the_place_of_the_tree() {
    let mut m = with_property();
    m.update(Msg::UpdatePrompt("a shop".to_string()));
    m.update(Msg::GenerateSchema);
    let reply = "{\"item\":{\"type\":\"object\",\"properties\":{\"price\":{\"type\":\"number\"}},\"required\":[\"price\"],\"additionalProperties\":false}}";
    let effect = m.update(Msg::ReceiveSchema(Ok(reply.to_string())));
    assert_eq!(effect, Effect::Validate(reply.to_string()));
    assert!(!m.loading);
    assert_eq!(m.history, vec!["a shop".to_string()]);
    assert_eq!(m.temp_prompt, None);
    assert_eq!(m.schema, reply);
    assert_eq!(m.imported_json, "");
    assert_eq!(m.document_types.len(), 1);
    assert_eq!(m.document_types[0].name, "item");
    assert!(m.document_types[0].properties[0].required);
    // the next request asks for a change of this contract
    m.update(Msg::UpdatePrompt("add a name".to_string()));
    let effect = m.update(Msg::GenerateSchema);
    assert_eq!(effect, Effect::Ask(format!("{}{}\n\nadd a name", SECOND_PROMPT_PRE, reply)));
    m.update(Msg::ReceiveSchema(Ok("{}".to_string())));
    assert_eq!(m.history, vec!["a shop".to_string(), "add a name".to_string()]);
    assert!(m.document_types.is_empty());
}

#[test]
fn a_contract_that_was_not_asked_for_leaves_the_history_alone() {
    let mut m = Model::create();
    m.update(Msg::ReceiveSchema(Ok("{\"a\":{}}".to_string())));
    assert!(m.history.is_empty());
    assert_eq!(m.document_types[0].name, "a");
}

#[test]
fn a_request_that_fails_fills_the_other_errors() {
    let mut m = with_property();
    m.update(Msg::UpdatePrompt("a shop".to_string()));
    m.update(Msg::GenerateSchema);
    let before = with_property().document_types;
    let effect = m.update(Msg::ReceiveSchema(Err("HTTP 500 error from OpenAI: down".to_string())));
    assert_eq!(effect, Effect::Nothing);
    assert!(!m.loading);
    assert_eq!(m.error_messages_ai, vec!["HTTP 500 error from OpenAI: down".to_string()]);
    assert_eq!(m.document_types, before);
    assert!(m.history.is_empty());
    assert_eq!(m.temp_prompt, Some("a shop".to_string()));
    // the next request clears them
    m.update(Msg::GenerateSchema);
    assert!(m.error_messages_ai.is_empty());
}

#[test]
fn the_input_is_cleared() {
    let mut m = Model::create();
    m.update(Msg::UpdatePrompt("typed".to_string()));
    assert_eq!(m.update(Msg::ClearInput), Effect::Nothing);
    assert_eq!(m.prompt, "");
}

#[test]
fn the_panel_shows_errors_only_when_no_pasted_text_is_pending() {
    let mut m = Model::create();
    m.update(Msg::Submit);
    m.error_messages = vec!["e".to_string()];
    assert_eq!(m.panel(), Panel::Errors);
    m.update(Msg::UpdateImportedJson("x".to_string()));
    assert_eq!(m.panel(), Panel::Blank);
    m.error_messages = vec![];
    assert_eq!(m.panel(), Panel::Blank);
    m.imported_json = String::new();
    assert_eq!(m.panel(), Panel::Passing);
    m.json_object = Json::Null;
    assert_eq!(m.panel(), Panel::Blank);
}

#[test]
fn generate_json_object_keeps_the_text_as_the_schema() {
    let mut m = with_property();
    m.update(Msg::UpdateName(0, "d".to_string()));
    m.document_types[0].properties[0].required = true;
    let j = m.generate_json_object();
    assert_eq!(
        m.schema,
        "{\"d\":{\"type\":\"object\",\"properties\":{\"\":{\"type\":\"string\"}},\"required\":[\"\"],\"additionalProperties\":false}}"
    );
    assert_eq!(data_contract_creator::codec::render(&j), m.schema);
    assert_eq!(m.json_object, Json::Object(vec![]));
    assert_eq!(m.document_types[0].required, vec![String::new()]);
}

#[test]
fn parse_imported_json_replaces_the_tree_alone() {
    let mut m = with_property();
    m.imported_json = "{\"a\":{},\"b\":{}}".to_string();
    m.parse_imported_json();
    assert_eq!(m.document_types.len(), 2);
    assert_eq!(m.imported_json, "{\"a\":{},\"b\":{}}");
    assert_eq!(m.schema, "");
    assert_eq!(m.json_object, Json::Object(vec![]));
}

#[test]
fn the_text_of_the_contract_is_there_once_one_was_exported() {
    let mut m = Model::create();
    assert_eq!(m.contract_text(), None);
    m.update(Msg::Submit);
    assert_eq!(
        m.contract_text(),
        Some("{\"\":{\"type\":\"object\",\"properties\":{},\"additionalProperties\":false}}".to_string())
    );
    assert_eq!(m.contract_text().unwrap(), m.schema);
    m.update(Msg::RemoveDocumentType(0));
    m.update(Msg::Submit);
    assert_eq!(m.schema, "{}");
    assert_eq!(m.contract_text(), None);
    m.json_object = Json::Object(vec![("a".to_string(), Json::Real("1.5".to_string()))]);
    assert!(m.has_contract());
    assert_eq!(m.contract_text(), None);
}

#[test]
fn the_other_errors_are_shown_unless_they_are_the_validation_errors() {
    let mut m = Model::create();
    assert!(!m.shows_other_errors());
    m.error_messages_ai = vec!["a".to_string()];
    assert!(m.shows_other_errors());
    m.error_messages = vec!["a".to_string()];
    assert!(!m.shows_other_errors());
    m.error_messages = vec!["b".to_string()];
    assert!(m.shows_other_errors());
    m.error_messages = vec!["a".to_string(), "a".to_string()];
    assert!(m.shows_other_errors());
    m.error_messages_ai = vec![];
    assert!(m.shows_other_errors());
}

#[test]
fn a_required_property_that_is_renamed_is_listed_under_its_new_name_alone() {
    let mut m = with_property();
    m.update(Msg::UpdateProperty(0, 0, PropertyEdit::Name("old".to_string())));
    m.update(Msg::UpdateProperty(0, 0, PropertyEdit::Required(true)));
    m.update(Msg::Submit);
    assert_eq!(m.document_types[0].required, vec!["old".to_string()]);
    m.update(Msg::UpdateProperty(0, 0, PropertyEdit::Name("new".to_string())));
    m.update(Msg::Submit);
    assert_eq!(m.document_types[0].required, vec!["new".to_string()]);
    assert_eq!(
        m.schema,
        "{\"\":{\"type\":\"object\",\"properties\":{\"new\":{\"type\":\"string\"}},\"required\":[\"new\"],\"additionalProperties\":false}}"
    );
}

#[test]
fn an_inner_property_that_is_renamed_or_removed_is_not_listed() {
    let mut m = with_property();
    m.update(Msg::UpdateProperty(0, 0, PropertyEdit::DataType(DataType::Object)));
    m.update(Msg::AddRecProperty(0, 0));
    m.update(Msg::AddRecProperty(0, 0));
    m.update(Msg::UpdateRecProperty(0, 0, 0, PropertyEdit::Name("a".to_string())));
    m.update(Msg::UpdateRecProperty(0, 0, 0, PropertyEdit::Required(true)));
    m.update(Msg::UpdateRecProperty(0, 0, 1, PropertyEdit::Name("b".to_string())));
    m.update(Msg::UpdateRecProperty(0, 0, 1, PropertyEdit::Required(true)));
    m.update(Msg::Submit);
    assert_eq!(
        m.document_types[0].properties[0].rec_required,
        Some(vec!["a".to_string(), "b".to_string()])
    );
    m.update(Msg::RemoveRecProperty(0, 0, 0));
    assert_eq!(m.document_types[0].properties[0].rec_required, Some(vec!["b".to_string()]));
    m.update(Msg::UpdateRecProperty(0, 0, 0, PropertyEdit::Name("c".to_string())));
    m.update(Msg::Submit);
    assert_eq!(m.document_types[0].properties[0].rec_required, Some(vec!["c".to_string()]));
    assert!(m.schema.contains("\"required\":[\"c\"]"));
    m.update(Msg::RemoveRecProperty(0, 0, 0));
    m.update(Msg::Submit);
    assert_eq!(m.document_types[0].properties[0].rec_required, None);
    assert_eq!(
        m.schema,
        "{\"\":{\"type\":\"object\",\"properties\":{\"\":{\"type\":\"object\",\"properties\":{},\"additionalProperties\":false}},\"additionalProperties\":false}}"
    );
}
