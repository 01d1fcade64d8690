//! From the typed tree to the JSON of a contract.
//!
//! An export writes the tree out and leaves in it the `required` lists that
//! it wrote. These lists are made anew from the flags of the properties each
//! time: what the tree held in them before does not count. The spec functions
//! of this module say what is written; the executable ones write it.

use crate::json::{
    items_view, lemma_array_view, lemma_object_view, members_view, set_member, with_member, Json,
    JsonValue, Members,
};
use crate::model::{
    documents_view, indices_view, lemma_inner_view, properties_view, text_view, texts_view,
    type_tag, DataType, DocumentType, DocumentTypeView, Index, IndexProperties, IndexPropertiesView,
    IndexView, Property, PropertyView,
};
use crate::names::{add_name, with_name};
use vstd::prelude::*;

verus! {

/// `m` with `value` added under `key` at the end, where there is a value.
pub open spec fn put(m: Members, key: Seq<char>, value: Option<JsonValue>) -> Members {
    match value {
        Some(v) => m.push((key, v)),
        None => m,
    }
}

/// A text as it is written: not at all where it is absent or empty.
pub open spec fn text_value(t: Option<Seq<char>>) -> Option<JsonValue> {
    match t {
        Some(s) => if s.len() > 0 {
            Some(JsonValue::Text(s))
        } else {
            None
        },
        None => None,
    }
}

/// A count as it is written: not at all where it is unset.
pub open spec fn count_value(n: Option<u32>) -> Option<JsonValue> {
    match n {
        Some(n) => Some(JsonValue::Integer(n as int)),
        None => None,
    }
}

/// A bound as it is written: not at all where it is unset.
pub open spec fn int_value(n: Option<i32>) -> Option<JsonValue> {
    match n {
        Some(n) => Some(JsonValue::Integer(n as int)),
        None => None,
    }
}

/// A flag as it is written: not at all where it is unset.
pub open spec fn flag_value(b: Option<bool>) -> Option<JsonValue> {
    match b {
        Some(b) => Some(JsonValue::Bool(b)),
        None => None,
    }
}

/// A list of names as an array of texts.
pub open spec fn names_json(names: Seq<Seq<char>>) -> JsonValue {
    JsonValue::Array(Seq::new(names.len(), |i: int| JsonValue::Text(names[i])))
}

/// A list of names as it is written: not at all where it is empty.
pub open spec fn names_value(names: Seq<Seq<char>>) -> Option<JsonValue> {
    if names.len() > 0 {
        Some(names_json(names))
    } else {
        None
    }
}

/// What stands for the properties of an object inside an object: the tree
/// goes two levels deep, and below that one fixed string property is written.
pub open spec fn placeholder_json() -> JsonValue {
    JsonValue::Object(
        seq![
            (
                "some_property"@,
                JsonValue::Object(seq![("type"@, JsonValue::Text("string"@))]),
            ),
        ],
    )
}

/// The members of the body of a property. `inner` is written under
/// `"properties"` if the property is an object, and `required` under
/// `"required"` if it is not empty.
pub open spec fn property_members(
    p: PropertyView,
    inner: JsonValue,
    required: Seq<Seq<char>>,
) -> Members {
    let object = p.data_type == DataType::Object;
    let m = seq![("type"@, JsonValue::Text(type_tag(p.data_type)))];
    let m = put(m, "description"@, text_value(p.description));
    let m = put(m, "minLength"@, count_value(p.min_length));
    let m = put(m, "maxLength"@, count_value(p.max_length));
    let m = put(m, "pattern"@, text_value(p.pattern));
    let m = put(m, "format"@, text_value(p.format));
    let m = put(m, "minimum"@, int_value(p.minimum));
    let m = put(m, "maximum"@, int_value(p.maximum));
    let m = put(m, "byteArray"@, flag_value(p.byte_array));
    let m = put(m, "minItems"@, count_value(p.min_items));
    let m = put(m, "maxItems"@, count_value(p.max_items));
    let m = put(m, "contentMediaType"@, text_value(p.content_media_type));
    let m = put(
        m,
        "properties"@,
        if object {
            Some(inner)
        } else {
            None
        },
    );
    let m = put(m, "minProperties"@, count_value(p.min_properties));
    let m = put(m, "maxProperties"@, count_value(p.max_properties));
    let m = put(m, "required"@, names_value(required));
    let m = put(
        m,
        "additionalProperties"@,
        if object {
            Some(JsonValue::Bool(false))
        } else {
            None
        },
    );
    put(m, "$comment"@, text_value(p.comment))
}

/// The body of a property inside an object property.
pub open spec fn inner_property_json(p: PropertyView) -> JsonValue {
    JsonValue::Object(property_members(p, placeholder_json(), Seq::empty()))
}

/// The properties inside an object property, each body under its name. Of two
/// properties with one name the later one is written, in the place of the
/// earlier.
pub open spec fn inner_properties_json(props: Seq<PropertyView>) -> Members
    decreases props.len(),
{
    if props.len() == 0 {
        Seq::empty()
    } else {
        with_member(
            inner_properties_json(props.drop_last()),
            props.last().name,
            inner_property_json(props.last()),
        )
    }
}

/// What a property holds under `"properties"` if it is an object.
pub open spec fn inner_json(p: PropertyView) -> JsonValue {
    match p.properties {
        Some(props) => JsonValue::Object(inner_properties_json(props)),
        None => JsonValue::Object(Seq::empty()),
    }
}

/// The names of the required properties of a list, each once, in the order in
/// which they first stand.
pub open spec fn required_names(props: Seq<PropertyView>) -> Seq<Seq<char>>
    decreases props.len(),
{
    if props.len() == 0 {
        Seq::empty()
    } else {
        with_name(required_names(props.drop_last()), props.last().name, props.last().required)
    }
}

/// The names of the required properties inside a property.
pub open spec fn inner_names(p: PropertyView) -> Seq<Seq<char>> {
    match p.properties {
        Some(props) => required_names(props),
        None => Seq::empty(),
    }
}

/// What a property lists under `"required"`: the names of its required inner
/// properties if it is an object, and nothing otherwise.
pub open spec fn inner_required(p: PropertyView) -> Seq<Seq<char>> {
    if p.data_type == DataType::Object {
        inner_names(p)
    } else {
        Seq::empty()
    }
}

/// The body of a property of a document type.
pub open spec fn property_json(p: PropertyView) -> JsonValue {
    JsonValue::Object(property_members(p, inner_json(p), inner_required(p)))
}

/// The properties of a document type, each body under its name.
pub open spec fn properties_json(props: Seq<PropertyView>) -> Members
    decreases props.len(),
{
    if props.len() == 0 {
        Seq::empty()
    } else {
        with_member(
            properties_json(props.drop_last()),
            props.last().name,
            property_json(props.last()),
        )
    }
}

/// One field of an index: `"asc"` under the name of the field. No other order
/// is written, whatever the tree holds.
pub open spec fn index_property_json(p: IndexPropertiesView) -> JsonValue {
    JsonValue::Object(seq![(p.field, JsonValue::Text("asc"@))])
}

/// An index: its name, its fields, and `"unique": true` where it is unique.
pub open spec fn index_json(ix: IndexView) -> JsonValue {
    let m = seq![
        ("name"@, JsonValue::Text(ix.name)),
        (
            "properties"@,
            JsonValue::Array(
                Seq::new(ix.properties.len(), |i: int| index_property_json(ix.properties[i])),
            ),
        ),
    ];
    JsonValue::Object(
        put(
            m,
            "unique"@,
            if ix.unique {
                Some(JsonValue::Bool(true))
            } else {
                None
            },
        ),
    )
}

/// The indices of a document type as it is written: not at all where there is
/// none.
pub open spec fn indices_value(indices: Seq<IndexView>) -> Option<JsonValue> {
    if indices.len() > 0 {
        Some(JsonValue::Array(Seq::new(indices.len(), |i: int| index_json(indices[i]))))
    } else {
        None
    }
}

/// The members of the body of a document type.
pub open spec fn document_members(d: DocumentTypeView) -> Members {
    let m = seq![
        ("type"@, JsonValue::Text("object"@)),
        ("properties"@, JsonValue::Object(properties_json(d.properties))),
    ];
    let m = put(m, "indices"@, indices_value(d.indices));
    let m = put(m, "required"@, names_value(derived_required(d)));
    let m = m.push(("additionalProperties"@, JsonValue::Bool(false)));
    put(
        m,
        "$comment"@,
        if d.comment.len() > 0 {
            Some(JsonValue::Text(d.comment))
        } else {
            None
        },
    )
}

/// The body of a document type.
pub open spec fn document_json(d: DocumentTypeView) -> JsonValue {
    JsonValue::Object(document_members(d))
}

/// The document types of a contract, each body under its name.
pub open spec fn documents_json(docs: Seq<DocumentTypeView>) -> Members
    decreases docs.len(),
{
    if docs.len() == 0 {
        Seq::empty()
    } else {
        with_member(documents_json(docs.drop_last()), docs.last().name, document_json(docs.last()))
    }
}

/// The contract that a list of document types is written as.
pub open spec fn contract_json(docs: Seq<DocumentTypeView>) -> JsonValue {
    JsonValue::Object(documents_json(docs))
}

/// A list of names as a property keeps it: absent where it is empty.
pub open spec fn some_names(names: Seq<Seq<char>>) -> Option<Seq<Seq<char>>> {
    if names.len() > 0 {
        Some(names)
    } else {
        None
    }
}

/// A property with its list of required inner names made anew.
pub open spec fn inner_listed(p: PropertyView) -> PropertyView {
    PropertyView { rec_required: some_names(inner_names(p)), ..p }
}

/// A property as an export leaves it: it holds the list of required inner
/// names that was written for it, which is none unless it is an object.
pub open spec fn derived_property(p: PropertyView) -> PropertyView {
    if p.data_type == DataType::Object {
        inner_listed(p)
    } else {
        PropertyView { rec_required: None, ..p }
    }
}

/// The `required` list that is written for a document type: the names of its
/// required properties, then `$createdAt` and `$updatedAt` where they are
/// required, each name once.
pub open spec fn derived_required(d: DocumentTypeView) -> Seq<Seq<char>> {
    let names = required_names(d.properties);
    let names = with_name(names, "$createdAt"@, d.created_at_required);
    with_name(names, "$updatedAt"@, d.updated_at_required)
}

/// A document type as an export leaves it.
pub open spec fn derived_document(d: DocumentTypeView) -> DocumentTypeView {
    DocumentTypeView {
        properties: Seq::new(d.properties.len(), |i: int| derived_property(d.properties[i])),
        required: derived_required(d),
        ..d
    }
}

/// A list of document types as an export leaves it.
pub open spec fn derived_contract(docs: Seq<DocumentTypeView>) -> Seq<DocumentTypeView> {
    Seq::new(docs.len(), |i: int| derived_document(docs[i]))
}

/// What an export of `docs` writes.
pub open spec fn exported(docs: Seq<DocumentTypeView>) -> JsonValue {
    contract_json(docs)
}

fn put_json(m: &mut Vec<(String, Json)>, key: &str, value: Json)
    ensures
        members_view(final(m)@) == members_view(old(m)@).push((key@, value@)),
{
    let ghost before = members_view(m@);
    let ghost v = value@;
    m.push((key.to_owned(), value));
    assert(members_view(m@) =~= before.push((key@, v)));
}

fn put_text(m: &mut Vec<(String, Json)>, key: &str, value: &Option<String>)
    ensures
        members_view(final(m)@) == put(members_view(old(m)@), key@, text_value(text_view(*value))),
{
    match value {
        Some(s) => {
            if !s.as_str().is_empty() {
                put_json(m, key, Json::Text(s.clone()));
            }
        },
        None => {},
    }
}

fn put_count(m: &mut Vec<(String, Json)>, key: &str, value: Option<u32>)
    ensures
        members_view(final(m)@) == put(members_view(old(m)@), key@, count_value(value)),
{
    match value {
        Some(n) => {
            put_json(m, key, Json::Integer(n as i128));
        },
        None => {},
    }
}

fn put_int(m: &mut Vec<(String, Json)>, key: &str, value: Option<i32>)
    ensures
        members_view(final(m)@) == put(members_view(old(m)@), key@, int_value(value)),
{
    match value {
        Some(n) => {
            put_json(m, key, Json::Integer(n as i128));
        },
        None => {},
    }
}

fn put_flag(m: &mut Vec<(String, Json)>, key: &str, value: Option<bool>)
    ensures
        members_view(final(m)@) == put(members_view(old(m)@), key@, flag_value(value)),
{
    match value {
        Some(b) => {
            put_json(m, key, Json::Bool(b));
        },
        None => {},
    }
}

/// A list of names as an array of texts.
fn export_names(names: &Vec<String>) -> (j: Json)
    ensures
        j@ == names_json(texts_view(names@)),
{
    let mut items: Vec<Json> = Vec::new();
    let mut i: usize = 0;
    while i < names.len()
        invariant
            i <= names.len(),
            items.len() == i,
            forall|k: int| 0 <= k < i ==> items[k]@ == JsonValue::Text(names[k]@),
        decreases names.len() - i,
    {
        items.push(Json::Text(names[i].clone()));
        i = i + 1;
    }
    proof {
        lemma_array_view(items);
        assert(items_view(items@) =~= Seq::new(
            texts_view(names@).len(),
            |i: int| JsonValue::Text(texts_view(names@)[i]),
        ));
    }
    Json::Array(items)
}

fn put_names(m: &mut Vec<(String, Json)>, key: &str, names: &Vec<String>)
    ensures
        members_view(final(m)@) == put(members_view(old(m)@), key@, names_value(texts_view(names@))),
{
    if names.len() > 0 {
        put_json(m, key, export_names(names));
    }
}

/// What stands for the properties of an object inside an object.
fn placeholder() -> (j: Json)
    ensures
        j@ == placeholder_json(),
{
    let mut leaf: Vec<(String, Json)> = Vec::new();
    put_json(&mut leaf, "type", Json::Text("string".to_owned()));
    let mut m: Vec<(String, Json)> = Vec::new();
    proof {
        lemma_object_view(leaf);
        assert(members_view(leaf@) =~= seq![("type"@, JsonValue::Text("string"@))]);
    }
    put_json(&mut m, "some_property", Json::Object(leaf));
    proof {
        lemma_object_view(m);
        assert(members_view(m@) =~= seq![
            ("some_property"@, JsonValue::Object(seq![("type"@, JsonValue::Text("string"@))])),
        ]);
    }
    Json::Object(m)
}

/// The body of a property, with `inner` under `"properties"` if it is an
/// object and `required` under `"required"` if that list is not empty.
fn property_body(p: &Property, inner: Json, required: &Vec<String>) -> (j: Json)
    ensures
        j@ == JsonValue::Object(property_members(p@, inner@, texts_view(required@))),
{
    let object = match p.data_type {
        DataType::Object => true,
        _ => false,
    };
    let mut m: Vec<(String, Json)> = Vec::new();
    put_json(&mut m, "type", Json::Text(p.data_type.tag().to_owned()));
    assert(members_view(m@) =~= seq![("type"@, JsonValue::Text(type_tag(p.data_type)))]);
    put_text(&mut m, "description", &p.description);
    put_count(&mut m, "minLength", p.min_length);
    put_count(&mut m, "maxLength", p.max_length);
    put_text(&mut m, "pattern", &p.pattern);
    put_text(&mut m, "format", &p.format);
    put_int(&mut m, "minimum", p.minimum);
    put_int(&mut m, "maximum", p.maximum);
    put_flag(&mut m, "byteArray", p.byte_array);
    put_count(&mut m, "minItems", p.min_items);
    put_count(&mut m, "maxItems", p.max_items);
    put_text(&mut m, "contentMediaType", &p.content_media_type);
    if object {
        put_json(&mut m, "properties", inner);
    }
    put_count(&mut m, "minProperties", p.min_properties);
    put_count(&mut m, "maxProperties", p.max_properties);
    put_names(&mut m, "required", required);
    if object {
        put_json(&mut m, "additionalProperties", Json::Bool(false));
    }
    put_text(&mut m, "$comment", &p.comment);
    proof {
        lemma_object_view(m);
    }
    Json::Object(m)
}

/// Writes the body of a property inside an object property.
pub fn export_inner_property(p: &Property) -> (j: Json)
    ensures
        j@ == inner_property_json(p@),
{
    let none: Vec<String> = Vec::new();
    assert(texts_view(none@) =~= Seq::empty());
    property_body(p, placeholder(), &none)
}

/// The names of the required properties of a list, each once.
pub fn required_names_of(props: &Vec<Property>) -> (r: Vec<String>)
    ensures
        texts_view(r@) == required_names(properties_view(props@)),
{
    let ghost all = properties_view(props@);
    let mut names: Vec<String> = Vec::new();
    let mut i: usize = 0;
    proof {
        assert(all.take(0) =~= Seq::empty());
        assert(texts_view(names@) =~= Seq::empty());
    }
    while i < props.len()
        invariant
            i <= props.len(),
            all == properties_view(props@),
            texts_view(names@) == required_names(all.take(i as int)),
        decreases props.len() - i,
    {
        proof {
            assert(all.take(i + 1).drop_last() =~= all.take(i as int));
            assert(all.take(i + 1).last() == props@[i as int]@);
        }
        add_name(&mut names, props[i].name.as_str(), props[i].required);
        i = i + 1;
    }
    assert(all.take(i as int) =~= all);
    names
}

/// Writes the properties inside `prop`, each body under its name, and leaves
/// in `prop` the list of its required inner names, made anew.
pub fn generate_nested_properties(prop: &mut Property) -> (j: Json)
    ensures
        final(prop)@ == inner_listed(old(prop)@),
        j@ == inner_json(old(prop)@),
{
    let mut m: Vec<(String, Json)> = Vec::new();
    let mut names: Vec<String> = Vec::new();
    proof {
        lemma_inner_view(*old(prop));
        assert(members_view(m@) =~= Seq::empty());
        assert(texts_view(names@) =~= Seq::empty());
    }
    match &prop.properties {
        Some(inner) => {
            let ghost props = properties_view(inner@);
            let mut i: usize = 0;
            assert(props.take(0) =~= Seq::empty());
            while i < inner.len()
                invariant
                    i <= inner.len(),
                    props == properties_view(inner@),
                    members_view(m@) == inner_properties_json(props.take(i as int)),
                decreases inner.len() - i,
            {
                proof {
                    assert(props.take(i + 1).drop_last() =~= props.take(i as int));
                    assert(props.take(i + 1).last() == inner@[i as int]@);
                }
                let q = &inner[i];
                set_member(&mut m, q.name.clone(), export_inner_property(q));
                i = i + 1;
            }
            assert(props.take(i as int) =~= props);
            names = required_names_of(inner);
        },
        None => {},
    }
    prop.rec_required = if names.len() > 0 {
        Some(names)
    } else {
        None
    };
    proof {
        lemma_object_view(m);
    }
    Json::Object(m)
}

/// Writes the body of a property of a document type, and leaves in it the
/// list of required inner names that was written.
pub fn export_property(p: &mut Property) -> (j: Json)
    ensures
        final(p)@ == derived_property(old(p)@),
        j@ == property_json(old(p)@),
{
    let inner = match p.data_type {
        DataType::Object => generate_nested_properties(p),
        _ => {
            p.rec_required = None;
            Json::Null
        },
    };
    let none: Vec<String> = Vec::new();
    assert(texts_view(none@) =~= Seq::empty());
    match &p.rec_required {
        Some(names) => property_body(p, inner, names),
        None => property_body(p, inner, &none),
    }
}

/// Writes one field of an index.
pub fn export_index_property(p: &IndexProperties) -> (j: Json)
    ensures
        j@ == index_property_json(p@),
{
    let mut m: Vec<(String, Json)> = Vec::new();
    m.push((p.0.clone(), Json::Text("asc".to_owned())));
    proof {
        lemma_object_view(m);
        assert(members_view(m@) =~= seq![(p@.field, JsonValue::Text("asc"@))]);
    }
    Json::Object(m)
}

/// Writes an index.
pub fn export_index(ix: &Index) -> (j: Json)
    ensures
        j@ == index_json(ix@),
{
    let mut fields: Vec<Json> = Vec::new();
    let mut i: usize = 0;
    while i < ix.properties.len()
        invariant
            i <= ix.properties.len(),
            fields.len() == i,
            forall|k: int| 0 <= k < i ==> fields[k]@ == index_property_json(ix.properties[k]@),
        decreases ix.properties.len() - i,
    {
        fields.push(export_index_property(&ix.properties[i]));
        i = i + 1;
    }
    proof {
        lemma_array_view(fields);
        assert(items_view(fields@) =~= Seq::new(
            ix@.properties.len(),
            |i: int| index_property_json(ix@.properties[i]),
        ));
    }
    let mut m: Vec<(String, Json)> = Vec::new();
    put_json(&mut m, "name", Json::Text(ix.name.clone()));
    put_json(&mut m, "properties", Json::Array(fields));
    assert(members_view(m@) =~= seq![
        ("name"@, JsonValue::Text(ix@.name)),
        (
            "properties"@,
            JsonValue::Array(
                Seq::new(ix@.properties.len(), |i: int| index_property_json(ix@.properties[i])),
            ),
        ),
    ]);
    if ix.unique {
        put_json(&mut m, "unique", Json::Bool(true));
    }
    proof {
        lemma_object_view(m);
    }
    Json::Object(m)
}

/// Writes the indices of a document type, if it has any.
fn put_indices(m: &mut Vec<(String, Json)>, indices: &Vec<Index>)
    ensures
        members_view(final(m)@) == put(
            members_view(old(m)@),
            "indices"@,
            indices_value(indices_view(indices@)),
        ),
{
    if indices.len() > 0 {
        let mut items: Vec<Json> = Vec::new();
        let mut i: usize = 0;
        while i < indices.len()
            invariant
                i <= indices.len(),
                items.len() == i,
                forall|k: int| 0 <= k < i ==> items[k]@ == index_json(indices[k]@),
            decreases indices.len() - i,
        {
            items.push(export_index(&indices[i]));
            i = i + 1;
        }
        proof {
            let all = indices_view(indices@);
            lemma_array_view(items);
            assert(items_view(items@) =~= Seq::new(all.len(), |i: int| index_json(all[i])));
        }
        put_json(m, "indices", Json::Array(items));
    }
}

/// Writes the body of a document type, and leaves in the document type and
/// in its properties the `required` lists that were written.
pub fn export_document(d: &mut DocumentType) -> (j: Json)
    ensures
        final(d)@ == derived_document(old(d)@),
        j@ == document_json(old(d)@),
{
    let ghost before = d@;
    let mut names = required_names_of(&d.properties);
    add_name(&mut names, "$createdAt", d.created_at_required);
    add_name(&mut names, "$updatedAt", d.updated_at_required);
    let mut props: Vec<(String, Json)> = Vec::new();
    let mut i: usize = 0;
    proof {
        assert(members_view(props@) =~= Seq::empty());
        assert(before.properties.take(0) =~= Seq::empty());
    }
    while i < d.properties.len()
        invariant
            i <= d.properties.len(),
            before == old(d)@,
            d.properties.len() == before.properties.len(),
            d.name == old(d).name,
            d.indices == old(d).indices,
            d.created_at_required == old(d).created_at_required,
            d.updated_at_required == old(d).updated_at_required,
            d.additional_properties == old(d).additional_properties,
            d.comment == old(d).comment,
            forall|k: int|
                0 <= k < i ==> d.properties[k]@ == derived_property(before.properties[k]),
            forall|k: int| i <= k < d.properties.len() ==> d.properties[k]@ == before.properties[k],
            members_view(props@) == properties_json(before.properties.take(i as int)),
        decreases d.properties.len() - i,
    {
        proof {
            assert(before.properties.take(i + 1).drop_last() =~= before.properties.take(i as int));
            assert(before.properties.take(i + 1).last() == before.properties[i as int]);
        }
        let body = export_property(&mut d.properties[i]);
        set_member(&mut props, d.properties[i].name.clone(), body);
        i = i + 1;
    }
    proof {
        assert(before.properties.take(i as int) =~= before.properties);
        assert(properties_view(d.properties@) =~= derived_document(before).properties);
        lemma_object_view(props);
    }
    let mut m: Vec<(String, Json)> = Vec::new();
    put_json(&mut m, "type", Json::Text("object".to_owned()));
    put_json(&mut m, "properties", Json::Object(props));
    assert(members_view(m@) =~= seq![
        ("type"@, JsonValue::Text("object"@)),
        ("properties"@, JsonValue::Object(properties_json(before.properties))),
    ]);
    put_indices(&mut m, &d.indices);
    put_names(&mut m, "required", &names);
    put_json(&mut m, "additionalProperties", Json::Bool(false));
    if !d.comment.as_str().is_empty() {
        put_json(&mut m, "$comment", Json::Text(d.comment.clone()));
    }
    d.required = names;
    proof {
        lemma_object_view(m);
    }
    Json::Object(m)
}

/// Writes a contract: the body of each document type under its name. The
/// `required` lists that were written are left in the tree.
pub fn export_contract(docs: &mut Vec<DocumentType>) -> (j: Json)
    ensures
        documents_view(final(docs)@) == derived_contract(documents_view(old(docs)@)),
        j@ == exported(documents_view(old(docs)@)),
{
    let ghost before = documents_view(docs@);
    let mut m: Vec<(String, Json)> = Vec::new();
    let mut i: usize = 0;
    proof {
        assert(members_view(m@) =~= Seq::empty());
        assert(before.take(0) =~= Seq::empty());
    }
    while i < docs.len()
        invariant
            i <= docs.len(),
            docs.len() == before.len(),
            forall|k: int| 0 <= k < i ==> docs[k]@ == derived_document(before[k]),
            forall|k: int| i <= k < docs.len() ==> docs[k]@ == before[k],
            members_view(m@) == documents_json(before.take(i as int)),
        decreases docs.len() - i,
    {
        proof {
            assert(before.take(i + 1).drop_last() =~= before.take(i as int));
            assert(before.take(i + 1).last() == before[i as int]);
        }
        let body = export_document(&mut docs[i]);
        set_member(&mut m, docs[i].name.clone(), body);
        i = i + 1;
    }
    proof {
        assert(before.take(i as int) =~= before);
        assert(documents_view(docs@) =~= derived_contract(before));
        lemma_object_view(m);
    }
    Json::Object(m)
}

} // verus!
