//! The shape of what an export writes: which keys an object has, in which
//! order, and that the whole can be written out as text.

use crate::export::{
    contract_json, count_value, derived_required, document_json, document_members, documents_json, flag_value,
    index_json, index_property_json, indices_value, inner_json, inner_properties_json,
    inner_property_json, inner_required, int_value, names_json, names_value, placeholder_json,
    properties_json, property_json, property_members, put, text_value,
};
use crate::json::{
    distinct_keys, key_index, lemma_key_index, lookup, with_member, JsonValue, Members,
};
use crate::model::{type_tag, DataType, DocumentTypeView, IndexView, PropertyView};
use vstd::prelude::*;

verus! {

/// The place of a key among the keys that an export writes into the body of a
/// document type, of a property or of an index; -1 for any other text. Where
/// two of these keys stand in one object, the one with the lower place comes
/// first.
spec fn key_rank(key: Seq<char>) -> int {
    if key == "type"@ {
        0
    } else if key == "description"@ {
        1
    } else if key == "minLength"@ {
        2
    } else if key == "maxLength"@ {
        3
    } else if key == "pattern"@ {
        4
    } else if key == "format"@ {
        5
    } else if key == "minimum"@ {
        6
    } else if key == "maximum"@ {
        7
    } else if key == "byteArray"@ {
        8
    } else if key == "minItems"@ {
        9
    } else if key == "maxItems"@ {
        10
    } else if key == "contentMediaType"@ {
        11
    } else if key == "name"@ {
        12
    } else if key == "properties"@ {
        13
    } else if key == "indices"@ {
        14
    } else if key == "unique"@ {
        15
    } else if key == "minProperties"@ {
        16
    } else if key == "maxProperties"@ {
        17
    } else if key == "required"@ {
        18
    } else if key == "additionalProperties"@ {
        19
    } else if key == "$comment"@ {
        20
    } else {
        -1
    }
}

/// The keys of `m` stand in the order of their places, all below `bound`.
spec fn ranked_below(m: Members, bound: int) -> bool {
    &&& forall|i: int| 0 <= i < m.len() ==> 0 <= key_rank((#[trigger] m[i]).0) < bound
    &&& forall|i: int, j: int|
        0 <= i < j < m.len() ==> key_rank((#[trigger] m[i]).0) < key_rank((#[trigger] m[j]).0)
}

/// The length of a text and its first two characters: texts that differ in
/// these are different texts.
spec fn marks(s: Seq<char>) -> (nat, char, char) {
    (s.len(), s[0], s[1])
}

/// Each key has the place that [`key_rank`] lists it at.
proof fn lemma_key_ranks()
    ensures
        key_rank("type"@) == 0,
        key_rank("description"@) == 1,
        key_rank("minLength"@) == 2,
        key_rank("maxLength"@) == 3,
        key_rank("pattern"@) == 4,
        key_rank("format"@) == 5,
        key_rank("minimum"@) == 6,
        key_rank("maximum"@) == 7,
        key_rank("byteArray"@) == 8,
        key_rank("minItems"@) == 9,
        key_rank("maxItems"@) == 10,
        key_rank("contentMediaType"@) == 11,
        key_rank("name"@) == 12,
        key_rank("properties"@) == 13,
        key_rank("indices"@) == 14,
        key_rank("unique"@) == 15,
        key_rank("minProperties"@) == 16,
        key_rank("maxProperties"@) == 17,
        key_rank("required"@) == 18,
        key_rank("additionalProperties"@) == 19,
        key_rank("$comment"@) == 20,
        key_rank("items"@) == -1,
{
    reveal_strlit("items");
    assert(marks("items"@) == (5nat, 'i', 't'));
    reveal_strlit("type");
    reveal_strlit("description");
    reveal_strlit("minLength");
    reveal_strlit("maxLength");
    reveal_strlit("pattern");
    reveal_strlit("format");
    reveal_strlit("minimum");
    reveal_strlit("maximum");
    reveal_strlit("byteArray");
    reveal_strlit("minItems");
    reveal_strlit("maxItems");
    reveal_strlit("contentMediaType");
    reveal_strlit("name");
    reveal_strlit("properties");
    reveal_strlit("indices");
    reveal_strlit("unique");
    reveal_strlit("minProperties");
    reveal_strlit("maxProperties");
    reveal_strlit("required");
    reveal_strlit("additionalProperties");
    reveal_strlit("$comment");
    assert(marks("type"@) == (4nat, 't', 'y'));
    assert(marks("description"@) == (11nat, 'd', 'e'));
    assert(marks("minLength"@) == (9nat, 'm', 'i'));
    assert(marks("maxLength"@) == (9nat, 'm', 'a'));
    assert(marks("pattern"@) == (7nat, 'p', 'a'));
    assert(marks("format"@) == (6nat, 'f', 'o'));
    assert(marks("minimum"@) == (7nat, 'm', 'i'));
    assert(marks("maximum"@) == (7nat, 'm', 'a'));
    assert(marks("byteArray"@) == (9nat, 'b', 'y'));
    assert(marks("minItems"@) == (8nat, 'm', 'i'));
    assert(marks("maxItems"@) == (8nat, 'm', 'a'));
    assert(marks("contentMediaType"@) == (16nat, 'c', 'o'));
    assert(marks("name"@) == (4nat, 'n', 'a'));
    assert(marks("properties"@) == (10nat, 'p', 'r'));
    assert(marks("indices"@) == (7nat, 'i', 'n'));
    assert(marks("unique"@) == (6nat, 'u', 'n'));
    assert(marks("minProperties"@) == (13nat, 'm', 'i'));
    assert(marks("maxProperties"@) == (13nat, 'm', 'a'));
    assert(marks("required"@) == (8nat, 'r', 'e'));
    assert(marks("additionalProperties"@) == (20nat, 'a', 'd'));
    assert(marks("$comment"@) == (8nat, '$', 'c'));
}

/// Every value of `m` can be written out.
spec fn all_representable(m: Members) -> bool {
    forall|i: int| 0 <= i < m.len() ==> (#[trigger] m[i]).1.representable()
}

/// A value that may be absent can be written out where it is there.
spec fn representable_if_some(value: Option<JsonValue>) -> bool {
    match value {
        Some(v) => v.representable(),
        None => true,
    }
}

/// Keys that stand in the order of their places are all different.
proof fn lemma_ranked_distinct(m: Members, bound: int)
    requires
        ranked_below(m, bound),
    ensures
        distinct_keys(m),
{
}

/// A key whose place is above all that stand in `m` may be put behind them.
proof fn lemma_put_shape(m: Members, key: Seq<char>, value: Option<JsonValue>, bound: int)
    requires
        ranked_below(m, bound),
        all_representable(m),
        0 <= bound <= key_rank(key),
        representable_if_some(value),
    ensures
        ranked_below(put(m, key, value), key_rank(key) + 1),
        all_representable(put(m, key, value)),
{
    let r = put(m, key, value);
    assert forall|i: int| 0 <= i < r.len() implies 0 <= key_rank((#[trigger] r[i]).0) < key_rank(
        key,
    ) + 1 by {
        if i < m.len() {
            assert(key_rank(m[i].0) < bound);
        }
    }
    assert forall|i: int, j: int| 0 <= i < j < r.len() implies key_rank((#[trigger] r[i]).0)
        < key_rank((#[trigger] r[j]).0) by {
        assert(key_rank(m[i].0) < bound);
        if j < m.len() {
            assert(key_rank(m[i].0) < key_rank(m[j].0));
        }
    }
    assert forall|i: int| 0 <= i < r.len() implies (#[trigger] r[i]).1.representable() by {
        if i < m.len() {
            assert(m[i].1.representable());
        }
    }
}

/// Putting a value under a key keeps the keys different and the values fit to
/// be written out.
proof fn lemma_with_member_shape(m: Members, key: Seq<char>, value: JsonValue)
    requires
        distinct_keys(m),
        all_representable(m),
        value.representable(),
    ensures
        distinct_keys(with_member(m, key, value)),
        all_representable(with_member(m, key, value)),
{
    lemma_key_index(m, key);
    let i = key_index(m, key);
    let r = with_member(m, key, value);
    if i >= 0 {
        assert forall|a: int, b: int| 0 <= a < b < r.len() implies (#[trigger] r[a]).0 != (
        #[trigger] r[b]).0 by {
            assert(m[a].0 != m[b].0);
        }
        assert forall|a: int| 0 <= a < r.len() implies (#[trigger] r[a]).1.representable() by {
            if a != i {
                assert(m[a].1.representable());
            }
        }
    } else {
        assert forall|a: int, b: int| 0 <= a < b < r.len() implies (#[trigger] r[a]).0 != (
        #[trigger] r[b]).0 by {
            if b < m.len() {
                assert(m[a].0 != m[b].0);
            } else {
                assert(m[a].0 != key);
            }
        }
        assert forall|a: int| 0 <= a < r.len() implies (#[trigger] r[a]).1.representable() by {
            if a < m.len() {
                assert(m[a].1.representable());
            }
        }
    }
}

/// A list of names can be written out.
proof fn lemma_names_shape(names: Seq<Seq<char>>)
    ensures
        names_json(names).representable(),
        representable_if_some(names_value(names)),
{
    let items = names_json(names)->Array_0;
    assert forall|i: int| 0 <= i < items.len() implies (#[trigger] items[i]).representable() by {}
}

/// The body of a property has its keys in the order of their places, and can
/// be written out if what stands under `"properties"` can.
proof fn lemma_property_shape(p: PropertyView, inner: JsonValue, required: Seq<Seq<char>>)
    requires
        inner.representable(),
    ensures
        ranked_below(property_members(p, inner, required), 21),
        all_representable(property_members(p, inner, required)),
        JsonValue::Object(property_members(p, inner, required)).representable(),
{
    lemma_key_ranks();
    lemma_names_shape(required);
    let object = p.data_type == DataType::Object;
    let m = seq![("type"@, JsonValue::Text(type_tag(p.data_type)))];
    assert(ranked_below(m, 1));
    assert(all_representable(m));
    lemma_put_shape(m, "description"@, text_value(p.description), 1);
    let m = put(m, "description"@, text_value(p.description));
    lemma_put_shape(m, "minLength"@, count_value(p.min_length), 2);
    let m = put(m, "minLength"@, count_value(p.min_length));
    lemma_put_shape(m, "maxLength"@, count_value(p.max_length), 3);
    let m = put(m, "maxLength"@, count_value(p.max_length));
    lemma_put_shape(m, "pattern"@, text_value(p.pattern), 4);
    let m = put(m, "pattern"@, text_value(p.pattern));
    lemma_put_shape(m, "format"@, text_value(p.format), 5);
    let m = put(m, "format"@, text_value(p.format));
    lemma_put_shape(m, "minimum"@, int_value(p.minimum), 6);
    let m = put(m, "minimum"@, int_value(p.minimum));
    lemma_put_shape(m, "maximum"@, int_value(p.maximum), 7);
    let m = put(m, "maximum"@, int_value(p.maximum));
    lemma_put_shape(m, "byteArray"@, flag_value(p.byte_array), 8);
    let m = put(m, "byteArray"@, flag_value(p.byte_array));
    lemma_put_shape(m, "minItems"@, count_value(p.min_items), 9);
    let m = put(m, "minItems"@, count_value(p.min_items));
    lemma_put_shape(m, "maxItems"@, count_value(p.max_items), 10);
    let m = put(m, "maxItems"@, count_value(p.max_items));
    lemma_put_shape(m, "contentMediaType"@, text_value(p.content_media_type), 11);
    let m = put(m, "contentMediaType"@, text_value(p.content_media_type));
    let v = if object {
        Some(inner)
    } else {
        None
    };
    lemma_put_shape(m, "properties"@, v, 12);
    let m = put(m, "properties"@, v);
    lemma_put_shape(m, "minProperties"@, count_value(p.min_properties), 14);
    let m = put(m, "minProperties"@, count_value(p.min_properties));
    lemma_put_shape(m, "maxProperties"@, count_value(p.max_properties), 17);
    let m = put(m, "maxProperties"@, count_value(p.max_properties));
    lemma_put_shape(m, "required"@, names_value(required), 18);
    let m = put(m, "required"@, names_value(required));
    let v = if object {
        Some(JsonValue::Bool(false))
    } else {
        None
    };
    lemma_put_shape(m, "additionalProperties"@, v, 19);
    let m = put(m, "additionalProperties"@, v);
    lemma_put_shape(m, "$comment"@, text_value(p.comment), 20);
    let m = put(m, "$comment"@, text_value(p.comment));
    assert(m == property_members(p, inner, required));
    lemma_ranked_distinct(m, 21);
}

/// What stands for the properties of an object inside an object can be
/// written out.
proof fn lemma_placeholder_shape()
    ensures
        placeholder_json().representable(),
{
    let leaf = seq![("type"@, JsonValue::Text("string"@))];
    assert(distinct_keys(leaf));
    assert(leaf[0].1.representable());
    assert(JsonValue::Object(leaf).representable());
    let m = placeholder_json()->Object_0;
    assert(m.len() == 1);
    assert(m[0].1 == JsonValue::Object(leaf));
    assert(distinct_keys(m));
}

/// The properties inside an object property can be written out.
proof fn lemma_inner_properties_shape(props: Seq<PropertyView>)
    ensures
        distinct_keys(inner_properties_json(props)),
        all_representable(inner_properties_json(props)),
    decreases props.len(),
{
    if props.len() > 0 {
        lemma_inner_properties_shape(props.drop_last());
        lemma_placeholder_shape();
        lemma_property_shape(props.last(), placeholder_json(), Seq::empty());
        lemma_with_member_shape(
            inner_properties_json(props.drop_last()),
            props.last().name,
            inner_property_json(props.last()),
        );
    }
}

/// The body of a property of a document type can be written out.
proof fn lemma_property_json_shape(p: PropertyView)
    ensures
        property_json(p).representable(),
{
    match p.properties {
        Some(props) => {
            lemma_inner_properties_shape(props);
        },
        None => {
            assert(distinct_keys(Seq::<(Seq<char>, JsonValue)>::empty()));
        },
    }
    assert(inner_json(p).representable());
    lemma_property_shape(p, inner_json(p), inner_required(p));
}

/// The properties of a document type can be written out.
proof fn lemma_properties_shape(props: Seq<PropertyView>)
    ensures
        distinct_keys(properties_json(props)),
        all_representable(properties_json(props)),
    decreases props.len(),
{
    if props.len() > 0 {
        lemma_properties_shape(props.drop_last());
        lemma_property_json_shape(props.last());
        lemma_with_member_shape(
            properties_json(props.drop_last()),
            props.last().name,
            property_json(props.last()),
        );
    }
}

/// An index can be written out.
proof fn lemma_index_shape(ix: IndexView)
    ensures
        index_json(ix).representable(),
{
    lemma_key_ranks();
    let fields = Seq::new(ix.properties.len(), |i: int| index_property_json(ix.properties[i]));
    assert forall|i: int| 0 <= i < fields.len() implies (#[trigger] fields[i]).representable() by {
        let m = seq![(ix.properties[i].field, JsonValue::Text("asc"@))];
        assert(distinct_keys(m));
        assert(m[0].1.representable());
        assert(fields[i] == JsonValue::Object(m));
    }
    assert(JsonValue::Array(fields).representable());
    let m = seq![("name"@, JsonValue::Text(ix.name)), ("properties"@, JsonValue::Array(fields))];
    assert(ranked_below(m, 14));
    assert(all_representable(m));
    let v = if ix.unique {
        Some(JsonValue::Bool(true))
    } else {
        None
    };
    lemma_put_shape(m, "unique"@, v, 14);
    lemma_ranked_distinct(put(m, "unique"@, v), 16);
}

/// The body of a document type has its keys in the order of their places, and
/// can be written out.
proof fn lemma_document_shape(d: DocumentTypeView)
    ensures
        ranked_below(document_members(d), 21),
        document_json(d).representable(),
{
    lemma_key_ranks();
    lemma_properties_shape(d.properties);
    lemma_names_shape(derived_required(d));
    let m = seq![
        ("type"@, JsonValue::Text("object"@)),
        ("properties"@, JsonValue::Object(properties_json(d.properties))),
    ];
    assert(ranked_below(m, 14));
    assert(all_representable(m));
    match indices_value(d.indices) {
        Some(v) => {
            let items = v->Array_0;
            assert forall|i: int| 0 <= i < items.len() implies (
            #[trigger] items[i]).representable() by {
                lemma_index_shape(d.indices[i]);
            }
        },
        None => {},
    }
    lemma_put_shape(m, "indices"@, indices_value(d.indices), 14);
    let m = put(m, "indices"@, indices_value(d.indices));
    lemma_put_shape(m, "required"@, names_value(derived_required(d)), 15);
    let m = put(m, "required"@, names_value(derived_required(d)));
    lemma_put_shape(m, "additionalProperties"@, Some(JsonValue::Bool(false)), 19);
    let m = put(m, "additionalProperties"@, Some(JsonValue::Bool(false)));
    let v = if d.comment.len() > 0 {
        Some(JsonValue::Text(d.comment))
    } else {
        None
    };
    lemma_put_shape(m, "$comment"@, v, 20);
    let m = put(m, "$comment"@, v);
    assert(m == document_members(d));
    lemma_ranked_distinct(m, 21);
}

/// The document types of a contract can be written out.
proof fn lemma_documents_shape(docs: Seq<DocumentTypeView>)
    ensures
        distinct_keys(documents_json(docs)),
        all_representable(documents_json(docs)),
    decreases docs.len(),
{
    if docs.len() > 0 {
        lemma_documents_shape(docs.drop_last());
        lemma_document_shape(docs.last());
        lemma_with_member_shape(
            documents_json(docs.drop_last()),
            docs.last().name,
            document_json(docs.last()),
        );
    }
}

/// Whatever the tree, the contract that is written for it is fit to be
/// written out as text.
pub proof fn lemma_contract_representable(docs: Seq<DocumentTypeView>)
    ensures
        contract_json(docs).representable(),
{
    lemma_documents_shape(docs);
}

/// Looking a key up behind a [`put`]: the value that was put, where the key is
/// the one that was put under and there was a value; else what was there
/// before.
proof fn lemma_lookup_put(m: Members, key: Seq<char>, value: Option<JsonValue>, k: Seq<char>)
    ensures
        lookup(put(m, key, value), k) == if key == k && value is Some {
            value
        } else {
            lookup(m, k)
        },
{
    match value {
        Some(v) => {
            lemma_key_index(m, k);
            assert(m.push((key, v)).drop_last() =~= m);
        },
        None => {},
    }
}

/// The step of [`lemma_lookup_put`] for every key at once.
proof fn lemma_lookup_step(m: Members, key: Seq<char>, value: Option<JsonValue>)
    ensures
        forall|k: Seq<char>| #[trigger]
            lookup(put(m, key, value), k) == if key == k && value is Some {
                value
            } else {
                lookup(m, k)
            },
{
    assert forall|k: Seq<char>| #[trigger]
        lookup(put(m, key, value), k) == if key == k && value is Some {
            value
        } else {
            lookup(m, k)
        } by {
        lemma_lookup_put(m, key, value, k);
    }
}

/// What is found under each key of the body of a property.
pub proof fn lemma_property_lookup(p: PropertyView, inner: JsonValue, required: Seq<Seq<char>>)
    ensures
        ({
            let m = property_members(p, inner, required);
            let object = p.data_type == DataType::Object;
            &&& lookup(m, "type"@) == Some(JsonValue::Text(type_tag(p.data_type)))
            &&& lookup(m, "description"@) == text_value(p.description)
            &&& lookup(m, "minLength"@) == count_value(p.min_length)
            &&& lookup(m, "maxLength"@) == count_value(p.max_length)
            &&& lookup(m, "pattern"@) == text_value(p.pattern)
            &&& lookup(m, "format"@) == text_value(p.format)
            &&& lookup(m, "minimum"@) == int_value(p.minimum)
            &&& lookup(m, "maximum"@) == int_value(p.maximum)
            &&& lookup(m, "byteArray"@) == flag_value(p.byte_array)
            &&& lookup(m, "minItems"@) == count_value(p.min_items)
            &&& lookup(m, "maxItems"@) == count_value(p.max_items)
            &&& lookup(m, "contentMediaType"@) == text_value(p.content_media_type)
            &&& lookup(m, "properties"@) == if object {
                Some(inner)
            } else {
                None
            }
            &&& lookup(m, "minProperties"@) == count_value(p.min_properties)
            &&& lookup(m, "maxProperties"@) == count_value(p.max_properties)
            &&& lookup(m, "required"@) == names_value(required)
            &&& lookup(m, "additionalProperties"@) == if object {
                Some(JsonValue::Bool(false))
            } else {
                None
            }
            &&& lookup(m, "$comment"@) == text_value(p.comment)
        }),
{
    lemma_key_ranks();
    let object = p.data_type == DataType::Object;
    let m0 = Seq::<(Seq<char>, JsonValue)>::empty();
    let t = Some(JsonValue::Text(type_tag(p.data_type)));
    let m = put(m0, "type"@, t);
    assert(m =~= seq![("type"@, JsonValue::Text(type_tag(p.data_type)))]);
    assert forall|k: Seq<char>| #[trigger] lookup(m0, k) is None by {}
    lemma_lookup_step(m0, "type"@, t);
    lemma_lookup_step(m, "description"@, text_value(p.description));
    let m = put(m, "description"@, text_value(p.description));
    lemma_lookup_step(m, "minLength"@, count_value(p.min_length));
    let m = put(m, "minLength"@, count_value(p.min_length));
    lemma_lookup_step(m, "maxLength"@, count_value(p.max_length));
    let m = put(m, "maxLength"@, count_value(p.max_length));
    lemma_lookup_step(m, "pattern"@, text_value(p.pattern));
    let m = put(m, "pattern"@, text_value(p.pattern));
    lemma_lookup_step(m, "format"@, text_value(p.format));
    let m = put(m, "format"@, text_value(p.format));
    lemma_lookup_step(m, "minimum"@, int_value(p.minimum));
    let m = put(m, "minimum"@, int_value(p.minimum));
    lemma_lookup_step(m, "maximum"@, int_value(p.maximum));
    let m = put(m, "maximum"@, int_value(p.maximum));
    lemma_lookup_step(m, "byteArray"@, flag_value(p.byte_array));
    let m = put(m, "byteArray"@, flag_value(p.byte_array));
    lemma_lookup_step(m, "minItems"@, count_value(p.min_items));
    let m = put(m, "minItems"@, count_value(p.min_items));
    lemma_lookup_step(m, "maxItems"@, count_value(p.max_items));
    let m = put(m, "maxItems"@, count_value(p.max_items));
    lemma_lookup_step(m, "contentMediaType"@, text_value(p.content_media_type));
    let m = put(m, "contentMediaType"@, text_value(p.content_media_type));
    let v = if object {
        Some(inner)
    } else {
        None
    };
    lemma_lookup_step(m, "properties"@, v);
    let m = put(m, "properties"@, v);
    lemma_lookup_step(m, "minProperties"@, count_value(p.min_properties));
    let m = put(m, "minProperties"@, count_value(p.min_properties));
    lemma_lookup_step(m, "maxProperties"@, count_value(p.max_properties));
    let m = put(m, "maxProperties"@, count_value(p.max_properties));
    lemma_lookup_step(m, "required"@, names_value(required));
    let m = put(m, "required"@, names_value(required));
    let v = if object {
        Some(JsonValue::Bool(false))
    } else {
        None
    };
    lemma_lookup_step(m, "additionalProperties"@, v);
    let m = put(m, "additionalProperties"@, v);
    lemma_lookup_step(m, "$comment"@, text_value(p.comment));
    let m = put(m, "$comment"@, text_value(p.comment));
    assert(m == property_members(p, inner, required));
}

/// What is found under each key of an index.
pub proof fn lemma_index_lookup(ix: IndexView)
    ensures
        ({
            let m = index_json(ix)->Object_0;
            &&& index_json(ix) is Object
            &&& lookup(m, "name"@) == Some(JsonValue::Text(ix.name))
            &&& lookup(m, "properties"@) == Some(
                JsonValue::Array(
                    Seq::new(ix.properties.len(), |i: int| index_property_json(ix.properties[i])),
                ),
            )
            &&& lookup(m, "unique"@) == if ix.unique {
                Some(JsonValue::Bool(true))
            } else {
                None
            }
        }),
{
    lemma_key_ranks();
    let fields = JsonValue::Array(
        Seq::new(ix.properties.len(), |i: int| index_property_json(ix.properties[i])),
    );
    let m0 = Seq::<(Seq<char>, JsonValue)>::empty();
    assert forall|k: Seq<char>| #[trigger] lookup(m0, k) is None by {}
    lemma_lookup_step(m0, "name"@, Some(JsonValue::Text(ix.name)));
    let m = put(m0, "name"@, Some(JsonValue::Text(ix.name)));
    lemma_lookup_step(m, "properties"@, Some(fields));
    let m = put(m, "properties"@, Some(fields));
    assert(m =~= seq![("name"@, JsonValue::Text(ix.name)), ("properties"@, fields)]);
    let v = if ix.unique {
        Some(JsonValue::Bool(true))
    } else {
        None
    };
    lemma_lookup_step(m, "unique"@, v);
}

/// What is found under each key of the body of a document type.
pub proof fn lemma_document_lookup(d: DocumentTypeView)
    ensures
        ({
            let m = document_members(d);
            &&& lookup(m, "type"@) == Some(JsonValue::Text("object"@))
            &&& lookup(m, "properties"@) == Some(JsonValue::Object(properties_json(d.properties)))
            &&& lookup(m, "indices"@) == indices_value(d.indices)
            &&& lookup(m, "required"@) == names_value(derived_required(d))
            &&& lookup(m, "additionalProperties"@) == Some(JsonValue::Bool(false))
            &&& lookup(m, "$comment"@) == if d.comment.len() > 0 {
                Some(JsonValue::Text(d.comment))
            } else {
                None
            }
        }),
{
    lemma_key_ranks();
    let props = JsonValue::Object(properties_json(d.properties));
    let m0 = Seq::<(Seq<char>, JsonValue)>::empty();
    assert forall|k: Seq<char>| #[trigger] lookup(m0, k) is None by {}
    lemma_lookup_step(m0, "type"@, Some(JsonValue::Text("object"@)));
    let m = put(m0, "type"@, Some(JsonValue::Text("object"@)));
    lemma_lookup_step(m, "properties"@, Some(props));
    let m = put(m, "properties"@, Some(props));
    assert(m =~= seq![("type"@, JsonValue::Text("object"@)), ("properties"@, props)]);
    lemma_lookup_step(m, "indices"@, indices_value(d.indices));
    let m = put(m, "indices"@, indices_value(d.indices));
    lemma_lookup_step(m, "required"@, names_value(derived_required(d)));
    let m = put(m, "required"@, names_value(derived_required(d)));
    lemma_lookup_step(m, "additionalProperties"@, Some(JsonValue::Bool(false)));
    let m = put(m, "additionalProperties"@, Some(JsonValue::Bool(false)));
    let v = if d.comment.len() > 0 {
        Some(JsonValue::Text(d.comment))
    } else {
        None
    };
    lemma_lookup_step(m, "$comment"@, v);
    let m = put(m, "$comment"@, v);
    assert(m == document_members(d));
}

/// The body of a property has no member `"items"`.
pub proof fn lemma_property_without_items(
    p: PropertyView,
    inner: JsonValue,
    required: Seq<Seq<char>>,
)
    requires
        inner.representable(),
    ensures
        lookup(property_members(p, inner, required), "items"@) is None,
{
    lemma_key_ranks();
    lemma_property_shape(p, inner, required);
    let m = property_members(p, inner, required);
    lemma_key_index(m, "items"@);
    if key_index(m, "items"@) >= 0 {
        assert(key_rank(m[key_index(m, "items"@)].0) >= 0);
    }
}

/// What stands under `"properties"` in the body of a property, on either
/// level, can be written out.
pub proof fn lemma_property_written_out(p: PropertyView)
    ensures
        inner_json(p).representable(),
        placeholder_json().representable(),
{
    lemma_placeholder_shape();
    match p.properties {
        Some(props) => {
            lemma_inner_properties_shape(props);
        },
        None => {
            assert(distinct_keys(Seq::<(Seq<char>, JsonValue)>::empty()));
        },
    }
}

} // verus!
