use data_contract_creator::editor::PropertyEdit;
use data_contract_creator::model::{
    copy_texts, DataType, DocumentType, Index, IndexProperties, Property,
};
use data_contract_creator::names::{add_name, drop_name, has_name};

fn names(v: &[&str]) -> Vec<String> {
    v.iter().map(|s| s.to_string()).collect()
}

#[test]
fn a_name_is_found_in_a_list() {
    let list = names(&["a", "b", ""]);
    assert!(has_name(&list, "a"));
    assert!(has_name(&list, "b"));
    assert!(has_name(&list, ""));
    assert!(!has_name(&list, "c"));
    assert!(!has_name(&list, "A"));
    assert!(!has_name(&Vec::new(), "a"));
}

#[test]
fn a_name_is_taken_out_wherever_it_stands() {
    let mut list = names(&["a", "b", "a", "c", "a"]);
    drop_name(&mut list, "a");
    assert_eq!(list, names(&["b", "c"]));
    drop_name(&mut list, "z");
    assert_eq!(list, names(&["b", "c"]));
    drop_name(&mut list, "c");
    drop_name(&mut list, "b");
    assert!(list.is_empty());
    drop_name(&mut list, "b");
    assert!(list.is_empty());
}

#[test]
fn a_wanted_name_is_added_once_and_at_the_end() {
    let mut list = names(&["a"]);
    add_name(&mut list, "b", true);
    assert_eq!(list, names(&["a", "b"]));
    add_name(&mut list, "a", true);
    assert_eq!(list, names(&["a", "b"]));
    add_name(&mut list, "c", false);
    assert_eq!(list, names(&["a", "b"]));
    add_name(&mut list, "a", false);
    assert_eq!(list, names(&["a", "b"]));
    let mut none: Vec<String> = Vec::new();
    add_name(&mut none, "", true);
    assert_eq!(none, names(&[""]));
}

#[test]
fn a_list_of_texts_is_copied() {
    let list = names(&["x", "", "y"]);
    assert_eq!(copy_texts(&list), list);
    assert_eq!(copy_texts(&Vec::new()), Vec::<String>::new());
}

fn rich() -> Property {
    Property {
        name: "o".to_string(),
        data_type: DataType::Object,
        required: true,
        description: Some("d".to_string()),
        comment: Some(String::new()),
        min_length: Some(1),
        max_length: None,
        pattern: Some("p".to_string()),
        format: None,
        minimum: Some(-1),
        maximum: Some(1),
        byte_array: Some(true),
        min_items: Some(2),
        max_items: Some(3),
        content_media_type: Some("m".to_string()),
        properties: Some(vec![
            Property { name: "in".to_string(), rec_required: Some(vec![]), ..Property::default() },
            Property {
                name: "deep".to_string(),
                data_type: DataType::Object,
                properties: Some(vec![Property::default()]),
                ..Property::default()
            },
        ]),
        min_properties: Some(4),
        max_properties: Some(5),
        rec_required: Some(names(&["in"])),
        additional_properties: Some(false),
    }
}

#[test]
fn a_copy_of_a_property_is_equal_and_apart() {
    let p = rich();
    let mut q = p.clone();
    assert_eq!(q, p);
    assert_eq!(p.duplicate(), p);
    q.apply(PropertyEdit::Name("other".to_string()));
    q.apply_inner(0, PropertyEdit::Required(true));
    assert_eq!(p, rich());
    assert_ne!(q, p);
    assert_eq!(q.name, "other");
    assert!(q.properties.as_ref().unwrap()[0].required);
}

#[test]
fn a_copy_of_a_document_type_is_equal() {
    let d = DocumentType {
        name: "d".to_string(),
        properties: vec![rich(), Property::default()],
        indices: vec![
            Index {
                name: "ix".to_string(),
                properties: vec![
                    IndexProperties("a".to_string(), "asc".to_string()),
                    IndexProperties("b".to_string(), "desc".to_string()),
                ],
                unique: true,
            },
            Index::default(),
        ],
        required: names(&["o", "$createdAt"]),
        created_at_required: true,
        updated_at_required: false,
        additional_properties: true,
        comment: "c".to_string(),
    };
    assert_eq!(d.clone(), d);
    assert_eq!(d.indices[0].clone(), d.indices[0]);
    assert_eq!(d.indices[0].properties[1].clone(), d.indices[0].properties[1]);
}

#[test]
fn inner_properties_are_reached_and_changed_through_their_property() {
    let mut p = Property::default();
    assert_eq!(p.inner(0), None);
    p.remove_inner(0);
    p.apply_inner(0, PropertyEdit::Required(true));
    assert_eq!(p, Property::default());
    p.add_inner();
    p.add_inner();
    let blank = Property { rec_required: Some(vec![]), ..Property::default() };
    assert_eq!(p.properties, Some(vec![blank.clone(), blank.clone()]));
    p.apply_inner(1, PropertyEdit::Name("second".to_string()));
    p.apply_inner(2, PropertyEdit::Name("third".to_string()));
    assert_eq!(p.inner(0), Some(&blank));
    assert_eq!(p.inner(1).unwrap().name, "second");
    assert_eq!(p.inner(2), None);
    p.remove_inner(0);
    assert_eq!(p.properties.as_ref().unwrap().len(), 1);
    assert_eq!(p.inner(0).unwrap().name, "second");
    p.remove_inner(1);
    assert_eq!(p.properties.as_ref().unwrap().len(), 1);
    p.remove_inner(0);
    assert_eq!(p.properties, Some(vec![]));
}
