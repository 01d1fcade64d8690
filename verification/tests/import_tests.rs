use data_contract_creator::codec::{parse, render};
use data_contract_creator::export::export_contract;
use data_contract_creator::import::{
    import_contract, import_document, import_index, import_inner_property, import_property,
    import_text,
};
use data_contract_creator::json::Json;
use data_contract_creator::model::{
    DataType, DocumentType, Index, IndexProperties, Property,
};

fn members(text: &str) -> Vec<(String, Json)> {
    match parse(text).unwrap() {
        Json::Object(m) => m,
        _ => panic!("no object"),
    }
}

#[test]
fn a_text_that_is_no_contract_gives_no_document_type() {
    assert!(import_text("").is_empty());
    assert!(import_text("{\"a\":").is_empty());
    assert!(import_text("[1,2]").is_empty());
    assert!(import_text("\"nft\"").is_empty());
    assert!(import_text("{}").is_empty());
}

#[test]
fn a_member_that_is_no_object_gives_no_document_type() {
    let docs = import_text("{\"a\":1,\"b\":{},\"c\":[]}");
    assert_eq!(docs.len(), 1);
    assert_eq!(docs[0], DocumentType { name: "b".to_string(), ..DocumentType::default() });
}

#[test]
fn document_types_come_in_the_order_of_the_text() {
    let docs = import_text("{\"z\":{},\"a\":{},\"m\":{}}");
    let names: Vec<&str> = docs.iter().map(|d| d.name.as_str()).collect();
    assert_eq!(names, vec!["z", "a", "m"]);
}

#[test]
fn every_field_of_a_property_is_read() {
    let body = parse(
        "{\"type\":\"string\",\"description\":\"d\",\"minLength\":1,\"maxLength\":2,\"pattern\":\"^a$\",\"format\":\"uri\",\"minimum\":-3,\"maximum\":4,\"byteArray\":false,\"minItems\":5,\"maxItems\":6,\"contentMediaType\":\"text/plain\",\"minProperties\":7,\"maxProperties\":8,\"$comment\":\"c\",\"else\":1}",
    )
    .unwrap();
    let p = import_property("p", true, &body).unwrap();
    assert_eq!(
        p,
        Property {
            name: "p".to_string(),
            data_type: DataType::String,
            required: true,
            description: Some("d".to_string()),
            comment: Some("c".to_string()),
            min_length: Some(1),
            max_length: Some(2),
            pattern: Some("^a$".to_string()),
            format: Some("uri".to_string()),
            minimum: Some(-3),
            maximum: Some(4),
            byte_array: Some(false),
            min_items: Some(5),
            max_items: Some(6),
            content_media_type: Some("text/plain".to_string()),
            properties: None,
            min_properties: Some(7),
            max_properties: Some(8),
            rec_required: None,
            additional_properties: None,
        }
    );
    assert_eq!(import_inner_property("p", true, &body), Some(p));
}

#[test]
fn each_tag_gives_its_data_type() {
    let cases = [
        ("string", DataType::String),
        ("integer", DataType::Integer),
        ("array", DataType::Array),
        ("object", DataType::Object),
        ("number", DataType::Number),
        ("boolean", DataType::Boolean),
    ];
    for (tag, t) in cases {
        let body = parse(&format!("{{\"type\":\"{}\"}}", tag)).unwrap();
        assert_eq!(import_property("x", false, &body).unwrap().data_type, t);
    }
}

#[test]
fn a_property_without_a_type_is_a_string() {
    let body = parse("{\"maxLength\":3}").unwrap();
    let p = import_property("x", false, &body).unwrap();
    assert_eq!(p.data_type, DataType::String);
    assert_eq!(p.max_length, Some(3));
}

#[test]
fn a_property_with_an_unknown_type_is_left_out() {
    assert_eq!(import_property("x", false, &parse("{\"type\":\"date\"}").unwrap()), None);
    assert_eq!(import_property("x", false, &parse("{\"type\":5}").unwrap()), None);
    assert_eq!(import_property("x", false, &parse("{\"type\":\"String\"}").unwrap()), None);
    assert_eq!(import_inner_property("x", false, &parse("{\"type\":\"date\"}").unwrap()), None);
    let docs = import_text(
        "{\"d\":{\"properties\":{\"a\":{\"type\":\"string\"},\"b\":{\"type\":\"date\"},\"c\":{\"type\":\"object\",\"properties\":{\"i\":{\"type\":\"x\"},\"j\":{\"type\":\"number\"}}}}}}",
    );
    let names: Vec<&str> = docs[0].properties.iter().map(|p| p.name.as_str()).collect();
    assert_eq!(names, vec!["a", "c"]);
    let inner = docs[0].properties[1].properties.as_ref().unwrap();
    assert_eq!(inner.len(), 1);
    assert_eq!(inner[0].name, "j");
}

#[test]
fn a_property_whose_value_is_no_object_is_left_out() {
    assert_eq!(import_property("x", true, &Json::Integer(1)), None);
    assert_eq!(import_property("x", false, &Json::Text("string".to_string())), None);
    assert_eq!(import_property("x", false, &Json::Array(vec![])), None);
    assert_eq!(import_inner_property("x", true, &Json::Integer(1)), None);
    let docs = import_text("{\"d\":{\"properties\":{\"a\":1,\"b\":{},\"c\":null},\"required\":[\"a\"]}}");
    assert_eq!(docs[0].properties, vec![Property { name: "b".to_string(), ..Property::default() }]);
}

#[test]
fn numbers_out_of_range_become_zero_and_what_is_no_integer_stays_unset() {
    let body = parse(
        "{\"minLength\":4294967295,\"maxLength\":4294967296,\"minItems\":-1,\"maxItems\":1.5,\"minProperties\":\"3\",\"maxProperties\":18446744073709551615,\"minimum\":-2147483649,\"maximum\":2147483648}",
    )
    .unwrap();
    let p = import_property("x", false, &body).unwrap();
    assert_eq!(p.min_length, Some(u32::MAX));
    assert_eq!(p.max_length, Some(0));
    assert_eq!(p.min_items, None);
    assert_eq!(p.max_items, None);
    assert_eq!(p.min_properties, None);
    assert_eq!(p.max_properties, Some(0));
    assert_eq!(p.minimum, Some(0));
    assert_eq!(p.maximum, Some(0));
    let body = parse(
        "{\"minimum\":-2147483648,\"maximum\":2147483647,\"minLength\":0}",
    )
    .unwrap();
    let p = import_property("x", false, &body).unwrap();
    assert_eq!(p.minimum, Some(i32::MIN));
    assert_eq!(p.maximum, Some(i32::MAX));
    assert_eq!(p.min_length, Some(0));
    let body = parse("{\"minimum\":9223372036854775808,\"maximum\":0.5}").unwrap();
    let p = import_property("x", false, &body).unwrap();
    assert_eq!(p.minimum, None);
    assert_eq!(p.maximum, None);
}

#[test]
fn fields_of_another_kind_stay_unset() {
    let body = parse(
        "{\"description\":1,\"$comment\":null,\"pattern\":[],\"format\":{},\"contentMediaType\":true,\"byteArray\":\"true\"}",
    )
    .unwrap();
    let p = import_property("x", false, &body).unwrap();
    assert_eq!(p, Property { name: "x".to_string(), ..Property::default() });
}

#[test]
fn required_flags_come_from_the_list_beside_the_properties() {
    let docs = import_text(
        "{\"d\":{\"properties\":{\"a\":{},\"b\":{},\"$createdAt\":{}},\"required\":[\"b\",\"$createdAt\",7,\"zz\"]}}",
    );
    let d = &docs[0];
    assert!(!d.properties[0].required);
    assert!(d.properties[1].required);
    assert!(d.properties[2].required);
    assert!(d.created_at_required);
    assert!(!d.updated_at_required);
    assert!(d.required.is_empty());
}

#[test]
fn a_required_that_is_no_array_counts_as_absent() {
    let docs = import_text(
        "{\"d\":{\"properties\":{\"a\":{}},\"required\":\"a\"},\"e\":{\"properties\":{\"$updatedAt\":{}},\"required\":{\"$updatedAt\":true}}}",
    );
    assert!(!docs[0].properties[0].required);
    assert!(!docs[0].created_at_required);
    assert!(!docs[1].properties[0].required);
    assert!(!docs[1].updated_at_required);
}

#[test]
fn inner_properties_are_read_one_level_deep() {
    let docs = import_text(
        "{\"d\":{\"properties\":{\"o\":{\"type\":\"object\",\"properties\":{\"a\":{\"type\":\"string\",\"maxLength\":5},\"b\":{\"type\":\"object\",\"properties\":{\"deep\":{\"type\":\"string\"}},\"required\":[\"deep\"]},\"c\":3},\"required\":[\"a\"],\"additionalProperties\":false}}}}",
    );
    let o = &docs[0].properties[0];
    assert_eq!(o.data_type, DataType::Object);
    assert_eq!(o.rec_required, None);
    assert_eq!(o.additional_properties, None);
    let inner = o.properties.as_ref().unwrap();
    assert_eq!(inner.len(), 2);
    assert_eq!(
        inner[0],
        Property {
            name: "a".to_string(),
            required: true,
            max_length: Some(5),
            ..Property::default()
        }
    );
    assert_eq!(
        inner[1],
        Property { name: "b".to_string(), data_type: DataType::Object, ..Property::default() }
    );
}

#[test]
fn properties_that_are_no_object_give_no_inner_list() {
    let p = import_property("x", false, &parse("{\"type\":\"object\",\"properties\":[]}").unwrap())
        .unwrap();
    assert_eq!(p.properties, None);
    let p = import_property("x", false, &parse("{\"type\":\"string\",\"properties\":{}}").unwrap())
        .unwrap();
    assert_eq!(p.properties, Some(vec![]));
}

#[test]
fn an_index_is_read_with_its_fields() {
    let ix = import_index(&members(
        "{\"name\":\"byName\",\"properties\":[{\"name\":\"asc\"},{\"age\":\"desc\"},5,{},{\"a\":\"asc\",\"b\":\"asc\"},{\"c\":1}],\"unique\":true}",
    ));
    assert_eq!(
        ix,
        Index {
            name: "byName".to_string(),
            properties: vec![
                IndexProperties("name".to_string(), "asc".to_string()),
                IndexProperties("age".to_string(), "asc".to_string()),
                IndexProperties("".to_string(), "asc".to_string()),
                IndexProperties("b".to_string(), "asc".to_string()),
                IndexProperties("c".to_string(), "asc".to_string()),
            ],
            unique: true,
        }
    );
}

#[test]
fn an_index_without_its_members_is_blank() {
    assert_eq!(import_index(&members("{}")), Index::default());
    assert_eq!(
        import_index(&members("{\"name\":1,\"unique\":\"yes\",\"properties\":{}}")),
        Index::default()
    );
}

#[test]
fn indices_and_comment_are_read_from_a_document_type() {
    let d = import_document(
        "d",
        &members(
            "{\"type\":\"object\",\"indices\":[{\"name\":\"i\",\"properties\":[{\"a\":\"asc\"}]},7],\"$comment\":\"note\",\"additionalProperties\":true}",
        ),
    );
    assert_eq!(
        d,
        DocumentType {
            name: "d".to_string(),
            indices: vec![Index {
                name: "i".to_string(),
                properties: vec![IndexProperties("a".to_string(), "asc".to_string())],
                unique: false,
            }],
            comment: "note".to_string(),
            ..DocumentType::default()
        }
    );
    // the comment does not depend on there being indices
    let d = import_document("d", &members("{\"$comment\":\"alone\"}"));
    assert_eq!(d.comment, "alone");
    let d = import_document("d", &members("{\"$comment\":5,\"indices\":{}}"));
    assert_eq!(d.comment, "");
    assert!(d.indices.is_empty());
}

#[test]
fn what_was_exported_is_read_back() {
    let text = "{\"nft\":{\"type\":\"object\",\"properties\":{\"name\":{\"type\":\"string\",\"description\":\"Name of the NFT token\",\"maxLength\":63},\"imageHash\":{\"type\":\"array\",\"description\":\"hash\",\"byteArray\":true,\"minItems\":32,\"maxItems\":32},\"price\":{\"type\":\"number\",\"minimum\":0},\"meta\":{\"type\":\"object\",\"properties\":{\"k\":{\"type\":\"string\"}},\"required\":[\"k\"],\"additionalProperties\":false}},\"indices\":[{\"name\":\"price\",\"properties\":[{\"price\":\"asc\"}]},{\"name\":\"both\",\"properties\":[{\"price\":\"asc\"},{\"name\":\"asc\"}],\"unique\":true}],\"required\":[\"name\",\"price\",\"$createdAt\"],\"additionalProperties\":false,\"$comment\":\"tokens\"}}";
    let mut docs = import_contract(&parse(text).unwrap());
    assert_eq!(render(&export_contract(&mut docs)), text);
    let mut again = import_text(text);
    assert_eq!(render(&export_contract(&mut again)), text);
}

#[test]
fn an_index_field_that_is_read_in_is_sorted_upwards_and_written_so() {
    let text = "{\"d\":{\"type\":\"object\",\"properties\":{\"name\":{\"type\":\"string\"}},\"indices\":[{\"name\":\"byName\",\"properties\":[{\"name\":\"desc\"}]}],\"additionalProperties\":false}}";
    let mut docs = import_text(text);
    assert_eq!(
        docs[0].indices[0].properties,
        vec![IndexProperties("name".to_string(), "asc".to_string())]
    );
    assert_eq!(render(&export_contract(&mut docs)), text.replace("desc", "asc"));
}
