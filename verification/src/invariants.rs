//! What stays true of a session, whatever messages it takes.

use crate::codec::parsed_json;
use crate::editor::{after, edited, initial, tree_after, ModelView, MsgView, PropertyEditView};
use crate::export::{
    documents_json, exported, inner_json, inner_properties_json, inner_property_json,
    inner_required, placeholder_json, properties_json, property_json,
};
use crate::import::{
    imported_document, imported_documents, imported_index, imported_index_fields,
    imported_indices, imported_text,
};
use crate::json::{distinct_keys, key_index, lemma_key_index, lookup, JsonValue, Members};
use crate::laws::{document_upwards, index_upwards, lemma_byte_array_written, sorted_upwards};
use crate::model::{blank_document, lemma_tag_type, DataType, DocumentTypeView, PropertyView};
use crate::shape::{lemma_contract_representable, lemma_document_lookup, lemma_property_lookup};
use vstd::prelude::*;

verus! {

/// No change that is made to the tree by hand gives a field of an index
/// another order than upwards.
pub proof fn lemma_tree_keeps_order(docs: Seq<DocumentTypeView>, msg: MsgView)
    requires
        sorted_upwards(docs),
    ensures
        sorted_upwards(tree_after(docs, msg)),
{
    let now = tree_after(docs, msg);
    assert forall|i: int| 0 <= i < now.len() implies document_upwards(#[trigger] now[i]) by {
        match msg {
            MsgView::AddDocumentType => {
                if i < docs.len() {
                    assert(document_upwards(docs[i]));
                }
            },
            MsgView::RemoveDocumentType(r) => {
                if r < docs.len() && i >= r {
                    assert(document_upwards(docs[i + 1]));
                } else {
                    assert(document_upwards(docs[i]));
                }
            },
            _ => {
                assert(document_upwards(docs[i]));
                let d = docs[i];
                let e = now[i];
                assert forall|j: int| 0 <= j < e.indices.len() implies index_upwards(
                    #[trigger] e.indices[j],
                ) by {
                    match msg {
                        MsgView::RemoveIndex(_, r) => {
                            if e.indices.len() < d.indices.len() && j >= r {
                                assert(index_upwards(d.indices[j + 1]));
                            } else {
                                assert(index_upwards(d.indices[j]));
                            }
                        },
                        MsgView::AddIndex(_) => {
                            if j < d.indices.len() {
                                assert(index_upwards(d.indices[j]));
                            }
                        },
                        _ => {
                            assert(index_upwards(d.indices[j]));
                            let ix = d.indices[j];
                            let iy = e.indices[j];
                            assert forall|k: int| 0 <= k < iy.properties.len() implies (
                            #[trigger] iy.properties[k]).order == "asc"@ by {
                                match msg {
                                    MsgView::RemoveIndexProperty(_, _, r) => {
                                        if iy.properties.len() < ix.properties.len() && k >= r {
                                            assert(ix.properties[k + 1].order == "asc"@);
                                        } else {
                                            assert(ix.properties[k].order == "asc"@);
                                        }
                                    },
                                    MsgView::AddIndexProperty(_, _) => {
                                        if k < ix.properties.len() {
                                            assert(ix.properties[k].order == "asc"@);
                                        }
                                    },
                                    _ => {
                                        assert(ix.properties[k].order == "asc"@);
                                    },
                                }
                            }
                        },
                    }
                }
            },
        }
    }
}

/// Every field of every index that is read in is sorted upwards.
proof fn lemma_imported_indices_upwards(items: Seq<JsonValue>)
    ensures
        forall|j: int|
            0 <= j < imported_indices(items).len() ==> index_upwards(
                #[trigger] imported_indices(items)[j],
            ),
    decreases items.len(),
{
    if items.len() > 0 {
        let front = imported_indices(items.drop_last());
        let all = imported_indices(items);
        lemma_imported_indices_upwards(items.drop_last());
        match items.last() {
            JsonValue::Object(members) => {
                match lookup(members, "properties"@) {
                    Some(JsonValue::Array(fields)) => {
                        lemma_imported_fields_upwards(fields);
                    },
                    _ => {},
                }
                assert(index_upwards(imported_index(members)));
            },
            _ => {},
        }
        assert forall|j: int| 0 <= j < all.len() implies index_upwards(#[trigger] all[j]) by {
            if j < front.len() {
                assert(index_upwards(front[j]));
            }
        }
    }
}

/// Every field of an index that is read in is sorted upwards.
proof fn lemma_imported_fields_upwards(items: Seq<JsonValue>)
    ensures
        forall|k: int|
            0 <= k < imported_index_fields(items).len() ==> (
            #[trigger] imported_index_fields(items)[k]).order == "asc"@,
    decreases items.len(),
{
    if items.len() > 0 {
        let front = imported_index_fields(items.drop_last());
        let all = imported_index_fields(items);
        lemma_imported_fields_upwards(items.drop_last());
        assert forall|k: int| 0 <= k < all.len() implies (#[trigger] all[k]).order == "asc"@ by {
            if k < front.len() {
                assert(front[k].order == "asc"@);
            }
        }
    }
}

/// Every field of every index of a tree that is read in is sorted upwards.
proof fn lemma_imported_upwards(members: Members)
    ensures
        sorted_upwards(imported_documents(members)),
    decreases members.len(),
{
    if members.len() > 0 {
        lemma_imported_upwards(members.drop_last());
        let (name, value) = members.last();
        match value {
            JsonValue::Object(body) => {
                match lookup(body, "indices"@) {
                    Some(JsonValue::Array(items)) => {
                        lemma_imported_indices_upwards(items);
                    },
                    _ => {},
                }
                assert(document_upwards(imported_document(name, body)));
            },
            _ => {},
        }
        let front = imported_documents(members.drop_last());
        let all = imported_documents(members);
        assert forall|i: int| 0 <= i < all.len() implies document_upwards(#[trigger] all[i]) by {
            if i < front.len() {
                assert(document_upwards(front[i]));
            }
        }
    }
}

/// Every field of every index of a tree that is read in from a text is
/// sorted upwards.
pub proof fn lemma_imported_text_upwards(text: Seq<char>)
    ensures
        sorted_upwards(imported_text(text)),
{
    match parsed_json(text) {
        Some(JsonValue::Object(members)) => {
            lemma_imported_upwards(members);
        },
        _ => {},
    }
}

/// A session begins with every field of every index sorted upwards, and
/// stays so under every message.
pub proof fn lemma_editor_keeps_order(m: ModelView, msg: MsgView)
    requires
        sorted_upwards(m.document_types),
    ensures
        sorted_upwards(initial().document_types),
        sorted_upwards(after(m, msg).document_types),
{
    lemma_tree_keeps_order(m.document_types, msg);
    let now = after(m, msg).document_types;
    assert(blank_document().indices.len() == 0);
    assert forall|i: int| 0 <= i < now.len() implies document_upwards(#[trigger] now[i]) by {
        match msg {
            MsgView::Submit => {
                assert(document_upwards(m.document_types[i]));
            },
            MsgView::Import => {
                lemma_imported_text_upwards(m.imported_json);
                assert(document_upwards(imported_text(m.imported_json)[i]));
            },
            MsgView::ReceiveSchema(Ok(text)) => {
                lemma_imported_text_upwards(text);
                assert(document_upwards(imported_text(text)[i]));
            },
            MsgView::Clear => {},
            _ => {
                if now == m.document_types {
                    assert(document_upwards(m.document_types[i]));
                } else {
                    assert(now == tree_after(m.document_types, msg));
                }
            },
        }
    }
}

/// The property is a byte array if it is an array, and so is every property
/// inside it.
pub open spec fn array_marked(p: PropertyView) -> bool {
    &&& p.data_type == DataType::Array ==> p.byte_array == Some(true)
    &&& p.properties matches Some(inner) ==> forall|k: int|
        0 <= k < inner.len() ==> (#[trigger] inner[k]).data_type == DataType::Array
            ==> inner[k].byte_array == Some(true)
}

/// Every array of the document type is a byte array.
pub open spec fn document_marked(d: DocumentTypeView) -> bool {
    forall|j: int| 0 <= j < d.properties.len() ==> array_marked(#[trigger] d.properties[j])
}

/// Every array of the tree is a byte array.
pub open spec fn arrays_marked(docs: Seq<DocumentTypeView>) -> bool {
    forall|i: int| 0 <= i < docs.len() ==> document_marked(#[trigger] docs[i])
}

/// A change of one field leaves a property that is an array a byte array.
proof fn lemma_edit_keeps_arrays(p: PropertyView, e: PropertyEditView)
    requires
        array_marked(p),
    ensures
        array_marked(edited(p, e)),
{
}

/// No change that is made to the tree by hand leaves an array that is not a
/// byte array.
pub proof fn lemma_tree_keeps_arrays(docs: Seq<DocumentTypeView>, msg: MsgView)
    requires
        arrays_marked(docs),
    ensures
        arrays_marked(tree_after(docs, msg)),
{
    let now = tree_after(docs, msg);
    assert forall|i: int| 0 <= i < now.len() implies document_marked(#[trigger] now[i]) by {
        match msg {
            MsgView::AddDocumentType => {
                if i < docs.len() {
                    assert(document_marked(docs[i]));
                }
            },
            MsgView::RemoveDocumentType(r) => {
                if r < docs.len() && i >= r {
                    assert(document_marked(docs[i + 1]));
                } else {
                    assert(document_marked(docs[i]));
                }
            },
            _ => {
                assert(document_marked(docs[i]));
                let d = docs[i];
                let e = now[i];
                assert forall|j: int| 0 <= j < e.properties.len() implies array_marked(
                    #[trigger] e.properties[j],
                ) by {
                    match msg {
                        MsgView::RemoveProperty(_, r) => {
                            if e.properties.len() < d.properties.len() && j >= r {
                                assert(array_marked(d.properties[j + 1]));
                            } else {
                                assert(array_marked(d.properties[j]));
                            }
                        },
                        MsgView::AddProperty(_) => {
                            if j < d.properties.len() {
                                assert(array_marked(d.properties[j]));
                            }
                        },
                        _ => {
                            assert(array_marked(d.properties[j]));
                            let p = d.properties[j];
                            let q = e.properties[j];
                            match q.properties {
                                Some(inner) => {
                                    assert forall|k: int| 0 <= k < inner.len() implies (
                                    #[trigger] inner[k]).data_type == DataType::Array
                                        ==> inner[k].byte_array == Some(true) by {
                                        match msg {
                                            MsgView::RemoveRecProperty(_, _, r) => {
                                                let was = p.properties.unwrap();
                                                if inner.len() < was.len() && k >= r {
                                                    assert(was[k + 1].data_type == DataType::Array
                                                        ==> was[k + 1].byte_array == Some(true));
                                                } else {
                                                    assert(was[k].data_type == DataType::Array
                                                        ==> was[k].byte_array == Some(true));
                                                }
                                            },
                                            MsgView::AddRecProperty(_, _) => {
                                                if p.properties is Some && k
                                                    < p.properties.unwrap().len() {
                                                    let was = p.properties.unwrap();
                                                    assert(was[k].data_type == DataType::Array
                                                        ==> was[k].byte_array == Some(true));
                                                }
                                            },
                                            _ => {
                                                if p.properties is Some && k
                                                    < p.properties.unwrap().len() {
                                                    let was = p.properties.unwrap();
                                                    assert(was[k].data_type == DataType::Array
                                                        ==> was[k].byte_array == Some(true));
                                                }
                                            },
                                        }
                                    }
                                },
                                None => {},
                            }
                        },
                    }
                }
            },
        }
    }
}

/// A session begins with every array a byte array, and stays so under every
/// message but those that read a contract in.
pub proof fn lemma_editor_keeps_arrays(m: ModelView, msg: MsgView)
    requires
        arrays_marked(m.document_types),
        !(msg is Import),
        !(msg matches MsgView::ReceiveSchema(Ok(_))),
    ensures
        arrays_marked(initial().document_types),
        arrays_marked(after(m, msg).document_types),
{
    lemma_tree_keeps_arrays(m.document_types, msg);
    let now = after(m, msg).document_types;
    assert(blank_document().properties.len() == 0);
    assert forall|i: int| 0 <= i < now.len() implies document_marked(#[trigger] now[i]) by {
        match msg {
            MsgView::Submit => {
                let d = m.document_types[i];
                assert(document_marked(d));
                assert forall|j: int| 0 <= j < now[i].properties.len() implies array_marked(
                    #[trigger] now[i].properties[j],
                ) by {
                    assert(array_marked(d.properties[j]));
                }
            },
            MsgView::Clear => {},
            _ => {
                if now == m.document_types {
                    assert(document_marked(m.document_types[i]));
                } else {
                    assert(now == tree_after(m.document_types, msg));
                }
            },
        }
    }
}

/// The body of a property, as it is written, is that of a byte array if it is
/// that of an array: it has `"byteArray": true` and no `"items"`.
pub open spec fn body_marked(body: JsonValue) -> bool {
    body.get("type"@) == Some(JsonValue::Text("array"@)) ==> body.get("byteArray"@) == Some(
        JsonValue::Bool(true),
    ) && body.get("items"@) is None
}

/// Every body among the members is that of a byte array if it is that of an
/// array.
pub open spec fn members_marked(m: Members) -> bool {
    forall|i: int| 0 <= i < m.len() ==> body_marked((#[trigger] m[i]).1)
}

/// Every body under the `"properties"` of a body is that of a byte array if
/// it is that of an array.
pub open spec fn inner_marked(body: JsonValue) -> bool {
    match body.get("properties"@) {
        Some(JsonValue::Object(inner)) => members_marked(inner),
        _ => true,
    }
}

/// Every member is the body of a property that is written with byte arrays
/// for arrays, itself and the properties inside it.
pub open spec fn properties_marked(m: Members) -> bool {
    members_marked(m) && forall|i: int| 0 <= i < m.len() ==> inner_marked((#[trigger] m[i]).1)
}

/// Every array in a contract, as it is written, is a byte array: in every
/// document type, on either level of properties.
pub open spec fn export_marked(contract: JsonValue) -> bool {
    contract matches JsonValue::Object(docs) && forall|i: int|
        0 <= i < docs.len() ==> ((#[trigger] docs[i]).1.get("properties"@) matches Some(
            JsonValue::Object(props),
        ) && properties_marked(props))
}

/// A property that is a byte array if it is an array is written so, on
/// either level.
proof fn lemma_body_marked(p: PropertyView)
    requires
        p.data_type == DataType::Array ==> p.byte_array == Some(true),
    ensures
        body_marked(property_json(p)),
        body_marked(inner_property_json(p)),
{
    lemma_property_lookup(p, inner_json(p), inner_required(p));
    lemma_property_lookup(p, placeholder_json(), Seq::empty());
    lemma_tag_type(p.data_type);
    lemma_tag_type(DataType::Array);
    if p.data_type == DataType::Array {
        lemma_byte_array_written(p);
    }
}

/// Inner properties that are byte arrays where they are arrays are written
/// so.
proof fn lemma_inner_marked(inner: Seq<PropertyView>)
    requires
        forall|k: int|
            0 <= k < inner.len() ==> (#[trigger] inner[k]).data_type == DataType::Array
                ==> inner[k].byte_array == Some(true),
    ensures
        members_marked(inner_properties_json(inner)),
    decreases inner.len(),
{
    if inner.len() > 0 {
        let front = inner.drop_last();
        let last = inner.last();
        assert forall|k: int| 0 <= k < front.len() implies (#[trigger] front[k]).data_type
            == DataType::Array ==> front[k].byte_array == Some(true) by {
            assert(inner[k].data_type == DataType::Array ==> inner[k].byte_array == Some(true));
        }
        lemma_inner_marked(front);
        assert(inner[inner.len() - 1].data_type == DataType::Array ==> last.byte_array == Some(
            true,
        ));
        lemma_body_marked(last);
        let m = inner_properties_json(front);
        let r = inner_properties_json(inner);
        lemma_key_index(m, last.name);
        assert forall|i: int| 0 <= i < r.len() implies body_marked((#[trigger] r[i]).1) by {
            if i < m.len() && i != key_index(m, last.name) {
                assert(body_marked(m[i].1));
            }
        }
    }
}

/// Properties that are byte arrays where they are arrays, they and the
/// properties inside them, are written so.
proof fn lemma_properties_marked(props: Seq<PropertyView>)
    requires
        forall|j: int| 0 <= j < props.len() ==> array_marked(#[trigger] props[j]),
    ensures
        properties_marked(properties_json(props)),
    decreases props.len(),
{
    if props.len() > 0 {
        let front = props.drop_last();
        let last = props.last();
        assert forall|j: int| 0 <= j < front.len() implies array_marked(#[trigger] front[j]) by {
            assert(array_marked(props[j]));
        }
        lemma_properties_marked(front);
        assert(array_marked(props[props.len() - 1]));
        lemma_body_marked(last);
        lemma_property_lookup(last, inner_json(last), inner_required(last));
        match last.properties {
            Some(inner) => {
                lemma_inner_marked(inner);
            },
            None => {},
        }
        assert(inner_marked(property_json(last)));
        let m = properties_json(front);
        let r = properties_json(props);
        lemma_key_index(m, last.name);
        assert forall|i: int| 0 <= i < r.len() implies body_marked((#[trigger] r[i]).1)
            && inner_marked(r[i].1) by {
            if i < m.len() && i != key_index(m, last.name) {
                assert(body_marked(m[i].1) && inner_marked(m[i].1));
            }
        }
    }
}

/// Document types whose arrays are byte arrays are written so.
proof fn lemma_documents_marked(docs: Seq<DocumentTypeView>)
    requires
        arrays_marked(docs),
    ensures
        export_marked(JsonValue::Object(documents_json(docs))),
    decreases docs.len(),
{
    if docs.len() > 0 {
        let front = docs.drop_last();
        let last = docs.last();
        assert(arrays_marked(front)) by {
            assert forall|i: int| 0 <= i < front.len() implies document_marked(
                #[trigger] front[i],
            ) by {
                assert(document_marked(docs[i]));
            }
        }
        lemma_documents_marked(front);
        assert(document_marked(docs[docs.len() - 1]));
        lemma_properties_marked(last.properties);
        lemma_document_lookup(last);
        let m = documents_json(front);
        let r = documents_json(docs);
        lemma_key_index(m, last.name);
        assert forall|i: int| 0 <= i < r.len() implies ((#[trigger] r[i]).1.get("properties"@)
            matches Some(JsonValue::Object(props)) && properties_marked(props)) by {
            if i < m.len() && i != key_index(m, last.name) {
                assert(m[i].1.get("properties"@) matches Some(JsonValue::Object(props))
                    && properties_marked(props));
            }
        }
    }
}

/// Where every array of the tree is a byte array, as a session keeps it while
/// no contract is read in, every property body of type `"array"` in the
/// whole export has `"byteArray": true` and no `"items"`.
pub proof fn lemma_arrays_written(docs: Seq<DocumentTypeView>)
    requires
        arrays_marked(docs),
    ensures
        export_marked(exported(docs)),
{
    lemma_documents_marked(docs);
}

/// A session begins with a contract that can be written out as text, and has
/// one under every message.
pub proof fn lemma_editor_keeps_contract_writable(m: ModelView, msg: MsgView)
    requires
        m.json_object.representable(),
    ensures
        initial().json_object.representable(),
        after(m, msg).json_object.representable(),
{
    assert(distinct_keys(Seq::<(Seq<char>, JsonValue)>::empty()));
    match msg {
        MsgView::Submit => {
            lemma_contract_representable(m.document_types);
        },
        MsgView::Import => {
            lemma_contract_representable(imported_text(m.imported_json));
        },
        MsgView::ReceiveSchema(Ok(text)) => {
            lemma_contract_representable(imported_text(text));
        },
        _ => {},
    }
}

} // verus!
