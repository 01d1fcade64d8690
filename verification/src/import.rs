//! From the JSON of a contract to the typed tree.
//!
//! Reading is lenient: what the tree has no place for is passed over, what is
//! missing stays unset, and a property that is no object, or whose `"type"`
//! is no data type, is left out. The spec functions of this module say what is read; the executable
//! ones read it.

use crate::codec::{parse, parsed_json};
use crate::json::{
    find_member, items_view, json_view, lookup, members_view, Json, JsonValue, Members,
};
use crate::model::{
    documents_view, indices_view, lemma_inner_view, properties_view, tag_type,
    text_view, DataType, DocumentType, DocumentTypeView, Index, IndexProperties,
    IndexPropertiesView, IndexView, Property, PropertyView,
};
use crate::text::same_text;
use vstd::prelude::*;

verus! {

/// A count as it is read: a number from 0 to `u64::MAX`, and 0 in place of
/// one that is above `u32::MAX`.
pub open spec fn count_of(j: JsonValue) -> Option<u32> {
    match j.as_u64() {
        Some(n) => if n <= u32::MAX {
            Some(n as u32)
        } else {
            Some(0)
        },
        None => None,
    }
}

/// A bound as it is read: a number from `i64::MIN` to `i64::MAX`, and 0 in
/// place of one that is outside `i32`.
pub open spec fn int_of(j: JsonValue) -> Option<i32> {
    match j.as_i64() {
        Some(n) => if i32::MIN <= n <= i32::MAX {
            Some(n as i32)
        } else {
            Some(0)
        },
        None => None,
    }
}

/// The count under `key`, if there is one.
pub open spec fn member_count(body: Members, key: Seq<char>) -> Option<u32> {
    match lookup(body, key) {
        Some(j) => count_of(j),
        None => None,
    }
}

/// The bound under `key`, if there is one.
pub open spec fn member_int(body: Members, key: Seq<char>) -> Option<i32> {
    match lookup(body, key) {
        Some(j) => int_of(j),
        None => None,
    }
}

/// The text under `key`, if there is one.
pub open spec fn member_text(body: Members, key: Seq<char>) -> Option<Seq<char>> {
    match lookup(body, key) {
        Some(j) => j.as_text(),
        None => None,
    }
}

/// The flag under `key`, if there is one.
pub open spec fn member_flag(body: Members, key: Seq<char>) -> Option<bool> {
    match lookup(body, key) {
        Some(j) => j.as_bool(),
        None => None,
    }
}

/// The text under `key`, empty where there is none.
pub open spec fn member_text_or_empty(body: Members, key: Seq<char>) -> Seq<char> {
    match member_text(body, key) {
        Some(s) => s,
        None => Seq::empty(),
    }
}

/// Whether `required` is an array that holds the text `name`.
pub open spec fn listed(required: Option<JsonValue>, name: Seq<char>) -> bool {
    match required {
        Some(JsonValue::Array(items)) => items.contains(JsonValue::Text(name)),
        _ => false,
    }
}

/// The data type of a property body: that of its `"type"`, a string where it
/// has none, and `None` where its `"type"` is no data type.
pub open spec fn body_type(body: Members) -> Option<DataType> {
    match lookup(body, "type"@) {
        Some(JsonValue::Text(tag)) => tag_type(tag),
        Some(_) => None,
        None => Some(DataType::String),
    }
}

/// The property that is read from a body, given its name, its place in the
/// list of required names, its data type and its inner properties.
pub open spec fn imported_fields(
    name: Seq<char>,
    required: bool,
    body: Members,
    data_type: DataType,
    properties: Option<Seq<PropertyView>>,
) -> PropertyView {
    PropertyView {
        name,
        data_type,
        required,
        description: member_text(body, "description"@),
        comment: member_text(body, "$comment"@),
        min_length: member_count(body, "minLength"@),
        max_length: member_count(body, "maxLength"@),
        pattern: member_text(body, "pattern"@),
        format: member_text(body, "format"@),
        minimum: member_int(body, "minimum"@),
        maximum: member_int(body, "maximum"@),
        byte_array: member_flag(body, "byteArray"@),
        min_items: member_count(body, "minItems"@),
        max_items: member_count(body, "maxItems"@),
        content_media_type: member_text(body, "contentMediaType"@),
        properties,
        min_properties: member_count(body, "minProperties"@),
        max_properties: member_count(body, "maxProperties"@),
        rec_required: None,
        additional_properties: None,
    }
}

/// The property inside an object property that is read from `value`: none
/// unless `value` is an object whose `"type"`, if it has one, is a data type.
pub open spec fn imported_inner_property(
    name: Seq<char>,
    required: bool,
    value: JsonValue,
) -> Option<PropertyView> {
    match value {
        JsonValue::Object(body) => match body_type(body) {
            Some(t) => Some(imported_fields(name, required, body, t, None)),
            None => None,
        },
        _ => None,
    }
}

/// The properties that are read from the members of a `"properties"` object
/// inside a property, in their order. `required` is what stands beside it
/// under `"required"`.
pub open spec fn imported_inner_properties(
    members: Members,
    required: Option<JsonValue>,
) -> Seq<PropertyView>
    decreases members.len(),
{
    if members.len() == 0 {
        Seq::empty()
    } else {
        let front = imported_inner_properties(members.drop_last(), required);
        let (name, value) = members.last();
        match imported_inner_property(name, listed(required, name), value) {
            Some(p) => front.push(p),
            None => front,
        }
    }
}

/// The inner properties that are read from a property body: those of its
/// `"properties"`, if that is an object.
pub open spec fn imported_inner(body: Members) -> Option<Seq<PropertyView>> {
    match lookup(body, "properties"@) {
        Some(JsonValue::Object(members)) => Some(
            imported_inner_properties(members, lookup(body, "required"@)),
        ),
        _ => None,
    }
}

/// The property of a document type that is read from `value`: none unless
/// `value` is an object whose `"type"`, if it has one, is a data type.
pub open spec fn imported_property(
    name: Seq<char>,
    required: bool,
    value: JsonValue,
) -> Option<PropertyView> {
    match value {
        JsonValue::Object(body) => match body_type(body) {
            Some(t) => Some(imported_fields(name, required, body, t, imported_inner(body))),
            None => None,
        },
        _ => None,
    }
}

/// The properties that are read from the members of the `"properties"` of a
/// document type, in their order.
pub open spec fn imported_properties(members: Members, required: Option<JsonValue>) -> Seq<
    PropertyView,
>
    decreases members.len(),
{
    if members.len() == 0 {
        Seq::empty()
    } else {
        let front = imported_properties(members.drop_last(), required);
        let (name, value) = members.last();
        match imported_property(name, listed(required, name), value) {
            Some(p) => front.push(p),
            None => front,
        }
    }
}

/// The field of an index that is read from the members of one entry: the name
/// of the last member, without a name where there is no member. Its order is
/// `"asc"`, whatever the entry holds.
pub open spec fn imported_index_field(members: Members) -> IndexPropertiesView {
    IndexPropertiesView {
        field: if members.len() > 0 {
            members.last().0
        } else {
            Seq::empty()
        },
        order: "asc"@,
    }
}

/// The fields of an index that are read from the items of its `"properties"`:
/// one for each item that is an object.
pub open spec fn imported_index_fields(items: Seq<JsonValue>) -> Seq<IndexPropertiesView>
    decreases items.len(),
{
    if items.len() == 0 {
        Seq::empty()
    } else {
        let front = imported_index_fields(items.drop_last());
        match items.last() {
            JsonValue::Object(members) => front.push(imported_index_field(members)),
            _ => front,
        }
    }
}

/// The index that is read from the members of one entry of `"indices"`.
pub open spec fn imported_index(members: Members) -> IndexView {
    IndexView {
        name: member_text_or_empty(members, "name"@),
        properties: match lookup(members, "properties"@) {
            Some(JsonValue::Array(items)) => imported_index_fields(items),
            _ => Seq::empty(),
        },
        unique: match member_flag(members, "unique"@) {
            Some(b) => b,
            None => false,
        },
    }
}

/// The indices that are read from the items of `"indices"`: one for each item
/// that is an object.
pub open spec fn imported_indices(items: Seq<JsonValue>) -> Seq<IndexView>
    decreases items.len(),
{
    if items.len() == 0 {
        Seq::empty()
    } else {
        let front = imported_indices(items.drop_last());
        match items.last() {
            JsonValue::Object(members) => front.push(imported_index(members)),
            _ => front,
        }
    }
}

/// The document type that is read from the members of its body.
pub open spec fn imported_document(name: Seq<char>, body: Members) -> DocumentTypeView {
    let required = lookup(body, "required"@);
    DocumentTypeView {
        name,
        properties: match lookup(body, "properties"@) {
            Some(JsonValue::Object(members)) => imported_properties(members, required),
            _ => Seq::empty(),
        },
        indices: match lookup(body, "indices"@) {
            Some(JsonValue::Array(items)) => imported_indices(items),
            _ => Seq::empty(),
        },
        required: Seq::empty(),
        created_at_required: listed(required, "$createdAt"@),
        updated_at_required: listed(required, "$updatedAt"@),
        additional_properties: false,
        comment: member_text_or_empty(body, "$comment"@),
    }
}

/// The document types that are read from the members of a contract: one for
/// each member whose value is an object, in their order.
pub open spec fn imported_documents(members: Members) -> Seq<DocumentTypeView>
    decreases members.len(),
{
    if members.len() == 0 {
        Seq::empty()
    } else {
        let front = imported_documents(members.drop_last());
        let (name, value) = members.last();
        match value {
            JsonValue::Object(body) => front.push(imported_document(name, body)),
            _ => front,
        }
    }
}

/// The document types that are read from a contract: none unless it is an
/// object.
pub open spec fn imported(contract: JsonValue) -> Seq<DocumentTypeView> {
    match contract {
        JsonValue::Object(members) => imported_documents(members),
        _ => Seq::empty(),
    }
}

/// The document types that are read from a text: none where the text is not
/// JSON.
pub open spec fn imported_text(text: Seq<char>) -> Seq<DocumentTypeView> {
    match parsed_json(text) {
        Some(contract) => imported(contract),
        None => Seq::empty(),
    }
}

/// What a list of properties that may be absent stands for.
pub open spec fn inner_view(v: Option<Vec<Property>>) -> Option<Seq<PropertyView>> {
    match v {
        Some(v) => Some(properties_view(v@)),
        None => None,
    }
}

fn read_member<'a>(body: &'a Vec<(String, Json)>, key: &str) -> (r: Option<&'a Json>)
    ensures
        json_view(r) == lookup(members_view(body@), key@),
{
    find_member(body, key)
}

fn read_count(body: &Vec<(String, Json)>, key: &str) -> (r: Option<u32>)
    ensures
        r == member_count(members_view(body@), key@),
{
    match read_member(body, key) {
        Some(j) => match j.as_u64() {
            Some(n) => if n <= 0xffff_ffff {
                Some(n as u32)
            } else {
                Some(0)
            },
            None => None,
        },
        None => None,
    }
}

fn read_int(body: &Vec<(String, Json)>, key: &str) -> (r: Option<i32>)
    ensures
        r == member_int(members_view(body@), key@),
{
    match read_member(body, key) {
        Some(j) => match j.as_i64() {
            Some(n) => if -0x8000_0000 <= n && n <= 0x7fff_ffff {
                Some(n as i32)
            } else {
                Some(0)
            },
            None => None,
        },
        None => None,
    }
}

fn read_text(body: &Vec<(String, Json)>, key: &str) -> (r: Option<String>)
    ensures
        text_view(r) == member_text(members_view(body@), key@),
{
    match read_member(body, key) {
        Some(j) => match j.as_text() {
            Some(s) => Some(s.clone()),
            None => None,
        },
        None => None,
    }
}

fn read_text_or_empty(body: &Vec<(String, Json)>, key: &str) -> (r: String)
    ensures
        r@ == member_text_or_empty(members_view(body@), key@),
{
    match read_text(body, key) {
        Some(s) => s,
        None => String::new(),
    }
}

fn read_flag(body: &Vec<(String, Json)>, key: &str) -> (r: Option<bool>)
    ensures
        r == member_flag(members_view(body@), key@),
{
    match read_member(body, key) {
        Some(j) => j.as_bool(),
        None => None,
    }
}

fn read_type(body: &Vec<(String, Json)>) -> (r: Option<DataType>)
    ensures
        r == body_type(members_view(body@)),
{
    match read_member(body, "type") {
        Some(j) => match j.as_text() {
            Some(tag) => DataType::from_tag(tag.as_str()),
            None => None,
        },
        None => Some(DataType::String),
    }
}

/// Whether `required` is an array that holds the text `name`.
fn is_listed(required: Option<&Json>, name: &str) -> (r: bool)
    ensures
        r == listed(json_view(required), name@),
{
    match required {
        Some(j) => match j.as_array() {
            Some(items) => {
                let ghost all = items_view(items@);
                let mut i: usize = 0;
                while i < items.len()
                    invariant
                        i <= items.len(),
                        all == items_view(items@),
                        json_view(required) == Some(JsonValue::Array(all)),
                        forall|k: int| 0 <= k < i ==> all[k] != JsonValue::Text(name@),
                    decreases items.len() - i,
                {
                    match items[i].as_text() {
                        Some(s) => {
                            if same_text(s.as_str(), name) {
                                assert(all[i as int] == JsonValue::Text(name@));
                                return true;
                            }
                        },
                        None => {},
                    }
                    i = i + 1;
                }
                false
            },
            None => false,
        },
        None => false,
    }
}

fn import_fields(
    name: &str,
    required: bool,
    body: &Vec<(String, Json)>,
    data_type: DataType,
    properties: Option<Vec<Property>>,
) -> (p: Property)
    ensures
        p@ == imported_fields(
            name@,
            required,
            members_view(body@),
            data_type,
            inner_view(properties),
        ),
{
    let p = Property {
        name: name.to_owned(),
        data_type,
        required,
        description: read_text(body, "description"),
        comment: read_text(body, "$comment"),
        min_length: read_count(body, "minLength"),
        max_length: read_count(body, "maxLength"),
        pattern: read_text(body, "pattern"),
        format: read_text(body, "format"),
        minimum: read_int(body, "minimum"),
        maximum: read_int(body, "maximum"),
        byte_array: read_flag(body, "byteArray"),
        min_items: read_count(body, "minItems"),
        max_items: read_count(body, "maxItems"),
        content_media_type: read_text(body, "contentMediaType"),
        properties,
        min_properties: read_count(body, "minProperties"),
        max_properties: read_count(body, "maxProperties"),
        rec_required: None,
        additional_properties: None,
    };
    proof {
        lemma_inner_view(p);
    }
    p
}

/// Reads a property inside an object property.
pub fn import_inner_property(name: &str, required: bool, value: &Json) -> (r: Option<Property>)
    ensures
        match r {
            Some(p) => imported_inner_property(name@, required, value@) == Some(p@),
            None => imported_inner_property(name@, required, value@) is None,
        },
{
    match value.as_object() {
        Some(body) => match read_type(body) {
            Some(t) => Some(import_fields(name, required, body, t, None)),
            None => None,
        },
        None => None,
    }
}

fn import_inner_properties(members: &Vec<(String, Json)>, required: Option<&Json>) -> (r: Vec<
    Property,
>)
    ensures
        properties_view(r@) == imported_inner_properties(members_view(members@), json_view(required)),
{
    let ghost all = members_view(members@);
    let mut out: Vec<Property> = Vec::new();
    let mut i: usize = 0;
    proof {
        assert(all.take(0) =~= Seq::empty());
        assert(properties_view(out@) =~= Seq::empty());
    }
    while i < members.len()
        invariant
            i <= members.len(),
            all == members_view(members@),
            properties_view(out@) == imported_inner_properties(
                all.take(i as int),
                json_view(required),
            ),
        decreases members.len() - i,
    {
        proof {
            assert(all.take(i + 1).drop_last() =~= all.take(i as int));
            assert(all.take(i + 1).last() == all[i as int]);
        }
        let name = members[i].0.as_str();
        let listed = is_listed(required, name);
        match import_inner_property(name, listed, &members[i].1) {
            Some(p) => {
                let ghost before = properties_view(out@);
                let ghost pv = p@;
                out.push(p);
                assert(properties_view(out@) =~= before.push(pv));
            },
            None => {},
        }
        i = i + 1;
    }
    assert(all.take(i as int) =~= all);
    out
}

/// Reads a property of a document type.
pub fn import_property(name: &str, required: bool, value: &Json) -> (r: Option<Property>)
    ensures
        match r {
            Some(p) => imported_property(name@, required, value@) == Some(p@),
            None => imported_property(name@, required, value@) is None,
        },
{
    match value.as_object() {
        Some(body) => match read_type(body) {
            Some(t) => {
                let inner = match read_member(body, "properties") {
                    Some(j) => match j.as_object() {
                        Some(members) => Some(
                            import_inner_properties(members, read_member(body, "required")),
                        ),
                        None => None,
                    },
                    None => None,
                };
                Some(import_fields(name, required, body, t, inner))
            },
            None => None,
        },
        None => None,
    }
}

fn import_properties(members: &Vec<(String, Json)>, required: Option<&Json>) -> (r: Vec<Property>)
    ensures
        properties_view(r@) == imported_properties(members_view(members@), json_view(required)),
{
    let ghost all = members_view(members@);
    let mut out: Vec<Property> = Vec::new();
    let mut i: usize = 0;
    proof {
        assert(all.take(0) =~= Seq::empty());
        assert(properties_view(out@) =~= Seq::empty());
    }
    while i < members.len()
        invariant
            i <= members.len(),
            all == members_view(members@),
            properties_view(out@) == imported_properties(all.take(i as int), json_view(required)),
        decreases members.len() - i,
    {
        proof {
            assert(all.take(i + 1).drop_last() =~= all.take(i as int));
            assert(all.take(i + 1).last() == all[i as int]);
        }
        let name = members[i].0.as_str();
        let listed = is_listed(required, name);
        match import_property(name, listed, &members[i].1) {
            Some(p) => {
                let ghost before = properties_view(out@);
                let ghost pv = p@;
                out.push(p);
                assert(properties_view(out@) =~= before.push(pv));
            },
            None => {},
        }
        i = i + 1;
    }
    assert(all.take(i as int) =~= all);
    out
}

fn import_index_field(members: &Vec<(String, Json)>) -> (r: IndexProperties)
    ensures
        r@ == imported_index_field(members_view(members@)),
{
    let mut out = IndexProperties::default();
    if members.len() > 0 {
        out.0 = members[members.len() - 1].0.clone();
    }
    out
}

fn import_index_fields(items: &Vec<Json>) -> (r: Vec<IndexProperties>)
    ensures
        Seq::new(r@.len(), |i: int| r@[i]@) == imported_index_fields(items_view(items@)),
{
    let ghost all = items_view(items@);
    let mut out: Vec<IndexProperties> = Vec::new();
    let mut i: usize = 0;
    proof {
        assert(all.take(0) =~= Seq::empty());
        assert(Seq::new(out@.len(), |i: int| out@[i]@) =~= Seq::<IndexPropertiesView>::empty());
    }
    while i < items.len()
        invariant
            i <= items.len(),
            all == items_view(items@),
            Seq::new(out@.len(), |i: int| out@[i]@) == imported_index_fields(all.take(i as int)),
        decreases items.len() - i,
    {
        proof {
            assert(all.take(i + 1).drop_last() =~= all.take(i as int));
            assert(all.take(i + 1).last() == all[i as int]);
        }
        match items[i].as_object() {
            Some(members) => {
                let ghost before = Seq::new(out@.len(), |i: int| out@[i]@);
                let f = import_index_field(members);
                let ghost fv = f@;
                out.push(f);
                assert(Seq::new(out@.len(), |i: int| out@[i]@) =~= before.push(fv));
            },
            None => {},
        }
        i = i + 1;
    }
    assert(all.take(i as int) =~= all);
    out
}

/// Reads an index from the members of one entry of `"indices"`.
pub fn import_index(members: &Vec<(String, Json)>) -> (r: Index)
    ensures
        r@ == imported_index(members_view(members@)),
{
    let properties = match read_member(members, "properties") {
        Some(j) => match j.as_array() {
            Some(items) => import_index_fields(items),
            None => Vec::new(),
        },
        None => Vec::new(),
    };
    let unique = match read_flag(members, "unique") {
        Some(b) => b,
        None => false,
    };
    let r = Index { name: read_text_or_empty(members, "name"), properties, unique };
    assert(r@.properties =~= imported_index(members_view(members@)).properties);
    r
}

fn import_indices(items: &Vec<Json>) -> (r: Vec<Index>)
    ensures
        indices_view(r@) == imported_indices(items_view(items@)),
{
    let ghost all = items_view(items@);
    let mut out: Vec<Index> = Vec::new();
    let mut i: usize = 0;
    proof {
        assert(all.take(0) =~= Seq::empty());
        assert(indices_view(out@) =~= Seq::empty());
    }
    while i < items.len()
        invariant
            i <= items.len(),
            all == items_view(items@),
            indices_view(out@) == imported_indices(all.take(i as int)),
        decreases items.len() - i,
    {
        proof {
            assert(all.take(i + 1).drop_last() =~= all.take(i as int));
            assert(all.take(i + 1).last() == all[i as int]);
        }
        match items[i].as_object() {
            Some(members) => {
                let ghost before = indices_view(out@);
                let ix = import_index(members);
                let ghost iv = ix@;
                out.push(ix);
                assert(indices_view(out@) =~= before.push(iv));
            },
            None => {},
        }
        i = i + 1;
    }
    assert(all.take(i as int) =~= all);
    out
}

/// Reads a document type from the members of its body.
pub fn import_document(name: &str, body: &Vec<(String, Json)>) -> (r: DocumentType)
    ensures
        r@ == imported_document(name@, members_view(body@)),
{
    let required = read_member(body, "required");
    let properties = match read_member(body, "properties") {
        Some(j) => match j.as_object() {
            Some(members) => import_properties(members, required),
            None => Vec::new(),
        },
        None => Vec::new(),
    };
    let indices = match read_member(body, "indices") {
        Some(j) => match j.as_array() {
            Some(items) => import_indices(items),
            None => Vec::new(),
        },
        None => Vec::new(),
    };
    let r = DocumentType {
        name: name.to_owned(),
        properties,
        indices,
        required: Vec::new(),
        created_at_required: is_listed(required, "$createdAt"),
        updated_at_required: is_listed(required, "$updatedAt"),
        additional_properties: false,
        comment: read_text_or_empty(body, "$comment"),
    };
    proof {
        let want = imported_document(name@, members_view(body@));
        assert(r@.properties =~= want.properties);
        assert(r@.indices =~= want.indices);
        assert(r@.required =~= want.required);
    }
    r
}

/// Reads the document types of a contract.
pub fn import_contract(contract: &Json) -> (r: Vec<DocumentType>)
    ensures
        documents_view(r@) == imported(contract@),
{
    let mut out: Vec<DocumentType> = Vec::new();
    proof {
        assert(documents_view(out@) =~= Seq::empty());
    }
    match contract.as_object() {
        Some(members) => {
            let ghost all = members_view(members@);
            let mut i: usize = 0;
            proof {
                assert(all.take(0) =~= Seq::empty());
            }
            while i < members.len()
                invariant
                    i <= members.len(),
                    all == members_view(members@),
                    documents_view(out@) == imported_documents(all.take(i as int)),
                decreases members.len() - i,
            {
                proof {
                    assert(all.take(i + 1).drop_last() =~= all.take(i as int));
                    assert(all.take(i + 1).last() == all[i as int]);
                }
                match members[i].1.as_object() {
                    Some(body) => {
                        let ghost before = documents_view(out@);
                        let d = import_document(members[i].0.as_str(), body);
                        let ghost dv = d@;
                        out.push(d);
                        assert(documents_view(out@) =~= before.push(dv));
                    },
                    None => {},
                }
                i = i + 1;
            }
            assert(all.take(i as int) =~= all);
            out
        },
        None => out,
    }
}

/// Reads the document types of a contract from its text. A text that is not
/// JSON, or not an object, gives no document type.
pub fn import_text(text: &str) -> (r: Vec<DocumentType>)
    ensures
        documents_view(r@) == imported_text(text@),
{
    match parse(text) {
        Some(contract) => import_contract(&contract),
        None => {
            let out: Vec<DocumentType> = Vec::new();
            assert(documents_view(out@) =~= Seq::empty());
            out
        },
    }
}

} // verus!
