//! An export that is read back gives the tree again.
//!
//! The tree comes back as [`settled`] describes it: without what an export
//! does not write and without the lists that an export makes. This holds of
//! a tree in [`editor_form`].

use crate::codec::{json_text, parsed_json};
use crate::export::{
    derived_required, document_json, document_members, documents_json, exported, index_json,
    index_property_json, inner_json, inner_properties_json, inner_property_json, inner_required,
    names_json, names_value, placeholder_json, properties_json, property_json, property_members,
    required_names,
};
use crate::import::{
    body_type, imported, imported_document, imported_documents, imported_fields, imported_index,
    imported_index_field, imported_index_fields, imported_indices, imported_inner,
    imported_inner_properties, imported_inner_property, imported_properties, imported_property,
    imported_text, listed,
};
use crate::json::{has_key, lemma_key_index, with_member, JsonValue};
use crate::laws::{
    distinct_names, document_upwards, index_upwards, lemma_required_exact,
    lemma_required_names_contains, requires_property, sorted_upwards, system_name,
};
use crate::model::{
    lemma_tag_type, DataType, DocumentTypeView, IndexPropertiesView, IndexView, PropertyView,
};
use crate::shape::{lemma_document_lookup, lemma_index_lookup, lemma_property_lookup};
use vstd::prelude::*;

verus! {

/// A text as it comes back: absent where it was empty.
pub open spec fn settled_text(t: Option<Seq<char>>) -> Option<Seq<char>> {
    match t {
        Some(s) => if s.len() > 0 {
            Some(s)
        } else {
            None
        },
        None => None,
    }
}

/// A property as it comes back, given the inner properties that come back
/// with it: its empty texts are absent, and so are the list of required inner
/// names, which an export derives, and the field `additional_properties`,
/// which an export does not write.
pub open spec fn settled_fields(
    p: PropertyView,
    properties: Option<Seq<PropertyView>>,
) -> PropertyView {
    PropertyView {
        description: settled_text(p.description),
        comment: settled_text(p.comment),
        pattern: settled_text(p.pattern),
        format: settled_text(p.format),
        content_media_type: settled_text(p.content_media_type),
        properties,
        rec_required: None,
        additional_properties: None,
        ..p
    }
}

/// A property inside an object property as it comes back.
pub open spec fn settled_inner_property(q: PropertyView) -> PropertyView {
    settled_fields(q, None)
}

/// A property of a document type as it comes back. An object has a list of
/// inner properties, which is empty where it had none.
pub open spec fn settled_property(p: PropertyView) -> PropertyView {
    settled_fields(
        p,
        if p.data_type == DataType::Object {
            Some(
                match p.properties {
                    Some(inner) => Seq::new(inner.len(), |i: int| settled_inner_property(inner[i])),
                    None => Seq::empty(),
                },
            )
        } else {
            None
        },
    )
}

/// A document type as it comes back: its list of required names, which an
/// export derives, is empty, and `additional_properties`, which an export
/// writes as `false` whatever it is, is `false`.
pub open spec fn settled_document(d: DocumentTypeView) -> DocumentTypeView {
    DocumentTypeView {
        properties: Seq::new(d.properties.len(), |i: int| settled_property(d.properties[i])),
        required: Seq::empty(),
        additional_properties: false,
        ..d
    }
}

/// A tree as it comes back.
pub open spec fn settled(docs: Seq<DocumentTypeView>) -> Seq<DocumentTypeView> {
    Seq::new(docs.len(), |i: int| settled_document(docs[i]))
}

/// A property has inner properties only if it is an object; these have
/// different names and no inner properties of their own.
pub open spec fn two_levels(p: PropertyView) -> bool {
    match p.properties {
        Some(inner) => {
            &&& p.data_type == DataType::Object
            &&& distinct_names(inner)
            &&& forall|i: int| 0 <= i < inner.len() ==> (#[trigger] inner[i]).properties is None
        },
        None => true,
    }
}

/// The properties of a document type have different names, none of them that
/// of a system property, and go two levels deep.
pub open spec fn document_form(d: DocumentTypeView) -> bool {
    &&& distinct_names(d.properties)
    &&& forall|j: int|
        0 <= j < d.properties.len() ==> !system_name((#[trigger] d.properties[j]).name)
            && two_levels(d.properties[j])
}

/// The form of a tree that a form with two levels of properties builds, once
/// everything in it has a name of its own: the document types have different
/// names, each of them is in [`document_form`], and every field of every
/// index is sorted upwards, as a session keeps it.
pub open spec fn editor_form(docs: Seq<DocumentTypeView>) -> bool {
    &&& forall|i: int, j: int|
        0 <= i < j < docs.len() ==> (#[trigger] docs[i]).name != (#[trigger] docs[j]).name
    &&& forall|i: int| 0 <= i < docs.len() ==> document_form(#[trigger] docs[i])
    &&& sorted_upwards(docs)
}

/// A name is found in a written list of names exactly if the list holds it.
proof fn lemma_listed(names: Seq<Seq<char>>, n: Seq<char>)
    ensures
        listed(names_value(names), n) == names.contains(n),
{
    if names.len() > 0 {
        let items = names_json(names)->Array_0;
        if names.contains(n) {
            let i = choose|i: int| 0 <= i < names.len() && names[i] == n;
            assert(items[i] == JsonValue::Text(n));
        }
        if items.contains(JsonValue::Text(n)) {
            let i = choose|i: int| 0 <= i < items.len() && items[i] == JsonValue::Text(n);
            assert(names[i] == n);
        }
    }
}

/// The fields of a property come back from its body.
proof fn lemma_fields_back(
    p: PropertyView,
    inner: JsonValue,
    required: Seq<Seq<char>>,
    properties: Option<Seq<PropertyView>>,
)
    ensures
        body_type(property_members(p, inner, required)) == Some(p.data_type),
        imported_fields(
            p.name,
            p.required,
            property_members(p, inner, required),
            p.data_type,
            properties,
        ) == settled_fields(p, properties),
{
    lemma_property_lookup(p, inner, required);
    lemma_tag_type(p.data_type);
}

/// A property inside an object property comes back from its body.
proof fn lemma_inner_property_back(q: PropertyView)
    ensures
        imported_inner_property(q.name, q.required, inner_property_json(q)) == Some(
            settled_inner_property(q),
        ),
{
    lemma_fields_back(q, placeholder_json(), Seq::empty(), None);
}

/// Inner properties with different names are written one behind the other,
/// each under its name.
proof fn lemma_inner_written(props: Seq<PropertyView>)
    requires
        distinct_names(props),
    ensures
        inner_properties_json(props) == Seq::new(
            props.len(),
            |i: int| (props[i].name, inner_property_json(props[i])),
        ),
    decreases props.len(),
{
    let want = Seq::new(props.len(), |i: int| (props[i].name, inner_property_json(props[i])));
    if props.len() > 0 {
        let front = props.drop_last();
        let last = props.last();
        assert forall|i: int, j: int| 0 <= i < j < front.len() implies (#[trigger] front[i]).name
            != (#[trigger] front[j]).name by {
            assert(props[i].name != props[j].name);
        }
        lemma_inner_written(front);
        let m = inner_properties_json(front);
        lemma_key_index(m, last.name);
        if has_key(m, last.name) {
            let i = choose|i: int| 0 <= i < m.len() && (#[trigger] m[i]).0 == last.name;
            assert(props[i].name != props[props.len() - 1].name);
        }
        assert(with_member(m, last.name, inner_property_json(last)) =~= want);
    } else {
        assert(inner_properties_json(props) =~= want);
    }
}

/// Properties with different names are written one behind the other, each
/// under its name.
proof fn lemma_properties_written(props: Seq<PropertyView>)
    requires
        distinct_names(props),
    ensures
        properties_json(props) == Seq::new(
            props.len(),
            |i: int| (props[i].name, property_json(props[i])),
        ),
    decreases props.len(),
{
    let want = Seq::new(props.len(), |i: int| (props[i].name, property_json(props[i])));
    if props.len() > 0 {
        let front = props.drop_last();
        let last = props.last();
        assert forall|i: int, j: int| 0 <= i < j < front.len() implies (#[trigger] front[i]).name
            != (#[trigger] front[j]).name by {
            assert(props[i].name != props[j].name);
        }
        lemma_properties_written(front);
        let m = properties_json(front);
        lemma_key_index(m, last.name);
        if has_key(m, last.name) {
            let i = choose|i: int| 0 <= i < m.len() && (#[trigger] m[i]).0 == last.name;
            assert(props[i].name != props[props.len() - 1].name);
        }
        assert(with_member(m, last.name, property_json(last)) =~= want);
    } else {
        assert(properties_json(props) =~= want);
    }
}

/// Document types with different names are written one behind the other,
/// each under its name.
proof fn lemma_documents_written(docs: Seq<DocumentTypeView>)
    requires
        forall|i: int, j: int|
            0 <= i < j < docs.len() ==> (#[trigger] docs[i]).name != (#[trigger] docs[j]).name,
    ensures
        documents_json(docs) == Seq::new(docs.len(), |i: int| (docs[i].name, document_json(docs[i]))),
    decreases docs.len(),
{
    let want = Seq::new(docs.len(), |i: int| (docs[i].name, document_json(docs[i])));
    if docs.len() > 0 {
        let front = docs.drop_last();
        let last = docs.last();
        assert forall|i: int, j: int| 0 <= i < j < front.len() implies (#[trigger] front[i]).name
            != (#[trigger] front[j]).name by {
            assert(docs[i].name != docs[j].name);
        }
        lemma_documents_written(front);
        let m = documents_json(front);
        lemma_key_index(m, last.name);
        if has_key(m, last.name) {
            let i = choose|i: int| 0 <= i < m.len() && (#[trigger] m[i]).0 == last.name;
            assert(docs[i].name != docs[docs.len() - 1].name);
        }
        assert(with_member(m, last.name, document_json(last)) =~= want);
    } else {
        assert(documents_json(docs) =~= want);
    }
}

/// The inner properties of an object property come back from what was
/// written for them, where each is listed as required exactly if it is.
proof fn lemma_inner_list_back(props: Seq<PropertyView>, required: Option<JsonValue>)
    requires
        distinct_names(props),
        forall|i: int|
            0 <= i < props.len() ==> listed(required, (#[trigger] props[i]).name)
                == props[i].required,
    ensures
        imported_inner_properties(inner_properties_json(props), required) == Seq::new(
            props.len(),
            |i: int| settled_inner_property(props[i]),
        ),
    decreases props.len(),
{
    lemma_inner_written(props);
    let want = Seq::new(props.len(), |i: int| settled_inner_property(props[i]));
    let m = inner_properties_json(props);
    if props.len() > 0 {
        let front = props.drop_last();
        let last = props.last();
        assert forall|i: int, j: int| 0 <= i < j < front.len() implies (#[trigger] front[i]).name
            != (#[trigger] front[j]).name by {
            assert(props[i].name != props[j].name);
        }
        assert forall|i: int| 0 <= i < front.len() implies listed(
            required,
            (#[trigger] front[i]).name,
        ) == front[i].required by {
            assert(listed(required, props[i].name) == props[i].required);
        }
        lemma_inner_list_back(front, required);
        lemma_inner_written(front);
        assert(m.drop_last() =~= inner_properties_json(front));
        assert(m.last() == (last.name, inner_property_json(last)));
        assert(listed(required, props[props.len() - 1].name) == last.required);
        lemma_inner_property_back(last);
        assert(imported_inner_properties(m, required) =~= want);
    } else {
        assert(imported_inner_properties(m, required) =~= want);
    }
}

/// The written list of required inner names lists an inner property exactly
/// if it is required.
proof fn lemma_inner_flags(p: PropertyView, i: int)
    requires
        p.data_type == DataType::Object,
        p.properties matches Some(inner) && distinct_names(inner) && 0 <= i < inner.len(),
    ensures
        listed(names_value(inner_required(p)), p.properties.unwrap()[i].name)
            == p.properties.unwrap()[i].required,
{
    let inner = p.properties.unwrap();
    let n = inner[i].name;
    lemma_required_names_contains(inner, n);
    lemma_listed(inner_required(p), n);
    if requires_property(inner, n) {
        let k = choose|k: int|
            0 <= k < inner.len() && (#[trigger] inner[k]).name == n && inner[k].required;
        if k < i {
            assert(inner[k].name != inner[i].name);
        }
        if i < k {
            assert(inner[i].name != inner[k].name);
        }
    }
}

/// A property of a document type comes back from what an export writes for
/// it.
proof fn lemma_property_back(p: PropertyView)
    requires
        two_levels(p),
    ensures
        imported_property(p.name, p.required, property_json(p)) == Some(settled_property(p)),
{
    let body = property_members(p, inner_json(p), inner_required(p));
    lemma_property_lookup(p, inner_json(p), inner_required(p));
    if p.data_type == DataType::Object {
        match p.properties {
            Some(inner) => {
                let required = names_value(inner_required(p));
                assert forall|i: int| 0 <= i < inner.len() implies listed(
                    required,
                    (#[trigger] inner[i]).name,
                ) == inner[i].required by {
                    lemma_inner_flags(p, i);
                }
                lemma_inner_list_back(inner, required);
            },
            None => {
                assert(imported_inner(body) == Some(Seq::<PropertyView>::empty()));
            },
        }
    }
    lemma_fields_back(p, inner_json(p), inner_required(p), imported_inner(body));
}

/// The written list of required names lists a property exactly if it is
/// required.
proof fn lemma_flags(d: DocumentTypeView, j: int)
    requires
        distinct_names(d.properties),
        0 <= j < d.properties.len(),
        !system_name(d.properties[j].name),
    ensures
        listed(names_value(derived_required(d)), d.properties[j].name) == d.properties[j].required,
{
    let props = d.properties;
    let n = props[j].name;
    lemma_required_exact(d, n);
    lemma_listed(derived_required(d), n);
    if requires_property(props, n) {
        let k = choose|k: int|
            0 <= k < props.len() && (#[trigger] props[k]).name == n && props[k].required;
        if k < j {
            assert(props[k].name != props[j].name);
        }
        if j < k {
            assert(props[j].name != props[k].name);
        }
    }
}

/// The written list of required names lists a system property exactly if it
/// is required, where no property has its name.
proof fn lemma_system_flags(d: DocumentTypeView)
    requires
        forall|j: int| 0 <= j < d.properties.len() ==> !system_name((#[trigger] d.properties[j]).name),
    ensures
        listed(names_value(derived_required(d)), "$createdAt"@) == d.created_at_required,
        listed(names_value(derived_required(d)), "$updatedAt"@) == d.updated_at_required,
{
    reveal_strlit("$createdAt");
    reveal_strlit("$updatedAt");
    assert("$createdAt"@[1] != "$updatedAt"@[1]);
    lemma_required_exact(d, "$createdAt"@);
    lemma_required_exact(d, "$updatedAt"@);
    lemma_listed(derived_required(d), "$createdAt"@);
    lemma_listed(derived_required(d), "$updatedAt"@);
    if requires_property(d.properties, "$createdAt"@) {
        let k = choose|k: int|
            0 <= k < d.properties.len() && (#[trigger] d.properties[k]).name == "$createdAt"@
                && d.properties[k].required;
        assert(!system_name(d.properties[k].name));
    }
    if requires_property(d.properties, "$updatedAt"@) {
        let k = choose|k: int|
            0 <= k < d.properties.len() && (#[trigger] d.properties[k]).name == "$updatedAt"@
                && d.properties[k].required;
        assert(!system_name(d.properties[k].name));
    }
}

/// The properties of a document type come back from what an export writes
/// for them, where each is listed as required exactly if it is.
proof fn lemma_property_list_back(props: Seq<PropertyView>, required: Option<JsonValue>)
    requires
        distinct_names(props),
        forall|i: int| 0 <= i < props.len() ==> two_levels(#[trigger] props[i]),
        forall|i: int|
            0 <= i < props.len() ==> listed(required, (#[trigger] props[i]).name)
                == props[i].required,
    ensures
        imported_properties(properties_json(props), required) == Seq::new(
            props.len(),
            |i: int| settled_property(props[i]),
        ),
    decreases props.len(),
{
    lemma_properties_written(props);
    let want = Seq::new(props.len(), |i: int| settled_property(props[i]));
    let m = properties_json(props);
    if props.len() > 0 {
        let front = props.drop_last();
        let last = props.last();
        assert forall|i: int, j: int| 0 <= i < j < front.len() implies (#[trigger] front[i]).name
            != (#[trigger] front[j]).name by {
            assert(props[i].name != props[j].name);
        }
        assert forall|i: int| 0 <= i < front.len() implies two_levels(#[trigger] front[i]) by {
            assert(two_levels(props[i]));
        }
        assert forall|i: int| 0 <= i < front.len() implies listed(
            required,
            (#[trigger] front[i]).name,
        ) == front[i].required by {
            assert(listed(required, props[i].name) == props[i].required);
        }
        lemma_property_list_back(front, required);
        lemma_properties_written(front);
        assert(m.drop_last() =~= properties_json(front));
        assert(m.last() == (last.name, property_json(last)));
        assert(listed(required, props[props.len() - 1].name) == last.required);
        assert(two_levels(props[props.len() - 1]));
        lemma_property_back(last);
        assert(imported_properties(m, required) =~= want);
    } else {
        assert(imported_properties(m, required) =~= want);
    }
}

/// The fields of an index that are sorted upwards come back from what is
/// written for them.
proof fn lemma_index_fields_back(fields: Seq<IndexPropertiesView>)
    requires
        forall|k: int| 0 <= k < fields.len() ==> (#[trigger] fields[k]).order == "asc"@,
    ensures
        imported_index_fields(Seq::new(fields.len(), |i: int| index_property_json(fields[i])))
            == fields,
    decreases fields.len(),
{
    let items = Seq::new(fields.len(), |i: int| index_property_json(fields[i]));
    if fields.len() > 0 {
        let front = fields.drop_last();
        let last = fields.last();
        assert forall|k: int| 0 <= k < front.len() implies (#[trigger] front[k]).order == "asc"@ by {
            assert(fields[k].order == "asc"@);
        }
        lemma_index_fields_back(front);
        assert(items.drop_last() =~= Seq::new(front.len(), |i: int| index_property_json(front[i])));
        let m = seq![(last.field, JsonValue::Text("asc"@))];
        assert(items.last() == JsonValue::Object(m));
        assert(fields[fields.len() - 1].order == "asc"@);
        assert(imported_index_field(m) == last);
        assert(imported_index_fields(items) =~= fields);
    } else {
        assert(imported_index_fields(items) =~= fields);
    }
}

/// An index whose fields are sorted upwards comes back from what is written
/// for it.
proof fn lemma_index_back(ix: IndexView)
    requires
        index_upwards(ix),
    ensures
        index_json(ix) is Object,
        imported_index(index_json(ix)->Object_0) == ix,
{
    lemma_index_lookup(ix);
    lemma_index_fields_back(ix.properties);
}

/// The indices of a document type come back from what is written for them.
proof fn lemma_indices_back(indices: Seq<IndexView>)
    requires
        forall|j: int| 0 <= j < indices.len() ==> index_upwards(#[trigger] indices[j]),
    ensures
        imported_indices(Seq::new(indices.len(), |i: int| index_json(indices[i]))) == indices,
    decreases indices.len(),
{
    let items = Seq::new(indices.len(), |i: int| index_json(indices[i]));
    if indices.len() > 0 {
        let front = indices.drop_last();
        assert forall|j: int| 0 <= j < front.len() implies index_upwards(#[trigger] front[j]) by {
            assert(index_upwards(indices[j]));
        }
        lemma_indices_back(front);
        assert(items.drop_last() =~= Seq::new(front.len(), |i: int| index_json(front[i])));
        assert(index_upwards(indices[indices.len() - 1]));
        lemma_index_back(indices.last());
        assert(items.last() == index_json(indices.last()));
        assert(imported_indices(items) =~= indices);
    } else {
        assert(imported_indices(items) =~= indices);
    }
}

/// A document type comes back from what an export writes for it.
proof fn lemma_document_back(d: DocumentTypeView)
    requires
        document_form(d),
        document_upwards(d),
    ensures
        imported_document(d.name, document_members(d)) == settled_document(d),
{
    let body = document_members(d);
    let required = names_value(derived_required(d));
    lemma_document_lookup(d);
    lemma_system_flags(d);
    assert forall|i: int| 0 <= i < d.properties.len() implies listed(
        required,
        (#[trigger] d.properties[i]).name,
    ) == d.properties[i].required by {
        lemma_flags(d, i);
    }
    lemma_property_list_back(d.properties, required);
    lemma_indices_back(d.indices);
    let got = imported_document(d.name, body);
    assert(got.properties == settled_document(d).properties);
    assert(got.indices == d.indices) by {
        if d.indices.len() == 0 {
            assert(got.indices =~= d.indices);
        }
    }
    assert(got.comment =~= d.comment);
}

/// The document types of a tree come back from what an export writes for
/// them.
proof fn lemma_documents_back(docs: Seq<DocumentTypeView>)
    requires
        editor_form(docs),
    ensures
        imported_documents(documents_json(docs)) == settled(docs),
    decreases docs.len(),
{
    lemma_documents_written(docs);
    let m = documents_json(docs);
    if docs.len() > 0 {
        let front = docs.drop_last();
        let last = docs.last();
        assert(editor_form(front)) by {
            assert forall|i: int, j: int| 0 <= i < j < front.len() implies (
            #[trigger] front[i]).name != (#[trigger] front[j]).name by {
                assert(docs[i].name != docs[j].name);
            }
            assert forall|i: int| 0 <= i < front.len() implies document_form(
                #[trigger] front[i],
            ) && document_upwards(front[i]) by {
                assert(document_form(docs[i]));
                assert(document_upwards(docs[i]));
            }
        }
        lemma_documents_back(front);
        lemma_documents_written(front);
        assert(m.drop_last() =~= documents_json(front));
        assert(m.last() == (last.name, document_json(last)));
        assert(document_form(docs[docs.len() - 1]));
        assert(document_upwards(docs[docs.len() - 1]));
        lemma_document_back(last);
        assert(imported_documents(m) =~= settled(docs));
    } else {
        assert(imported_documents(m) =~= settled(docs));
    }
}

/// Reading back what an export wrote gives the tree again, as [`settled`]
/// describes it: every property and every index in its place, with the texts
/// and numbers that it had, its empty texts absent.
///
/// This holds of a tree in [`editor_form`].
pub proof fn lemma_round_trip(docs: Seq<DocumentTypeView>)
    requires
        editor_form(docs),
    ensures
        imported(exported(docs)) == settled(docs),
{
    lemma_documents_back(docs);
}

/// A tree that came back is in the form of the tree that was written.
proof fn lemma_settled_form(docs: Seq<DocumentTypeView>)
    requires
        editor_form(docs),
    ensures
        editor_form(settled(docs)),
{
    let back = settled(docs);
    assert forall|i: int, j: int| 0 <= i < j < back.len() implies (#[trigger] back[i]).name != (
    #[trigger] back[j]).name by {
        assert(docs[i].name != docs[j].name);
    }
    assert forall|i: int| 0 <= i < back.len() implies document_form(#[trigger] back[i])
        && document_upwards(back[i]) by {
        let d = docs[i];
        let e = back[i];
        assert(document_form(d));
        assert(document_upwards(d));
        assert forall|a: int, b: int| 0 <= a < b < e.properties.len() implies (
        #[trigger] e.properties[a]).name != (#[trigger] e.properties[b]).name by {
            assert(d.properties[a].name != d.properties[b].name);
        }
        assert forall|j: int| 0 <= j < e.properties.len() implies !system_name(
            (#[trigger] e.properties[j]).name,
        ) && two_levels(e.properties[j]) by {
            let p = d.properties[j];
            let q = e.properties[j];
            assert(!system_name(p.name) && two_levels(p));
            match (p.properties, q.properties) {
                (Some(was), Some(now)) => {
                    assert forall|a: int, b: int| 0 <= a < b < now.len() implies (
                    #[trigger] now[a]).name != (#[trigger] now[b]).name by {
                        assert(was[a].name != was[b].name);
                    }
                },
                _ => {},
            }
        }
    }
}

/// What came back comes back unchanged.
proof fn lemma_settled_twice(docs: Seq<DocumentTypeView>)
    ensures
        settled(settled(docs)) == settled(docs),
{
    let once = settled(docs);
    let twice = settled(once);
    assert forall|i: int| 0 <= i < once.len() implies twice[i] == once[i] by {
        let d = once[i];
        let e = twice[i];
        assert forall|j: int| 0 <= j < d.properties.len() implies e.properties[j]
            == d.properties[j] by {
            let p = d.properties[j];
            let q = e.properties[j];
            match (p.properties, q.properties) {
                (Some(was), Some(now)) => {
                    assert(now =~= was);
                },
                _ => {},
            }
        }
        assert(e.properties =~= d.properties);
    }
    assert(twice =~= once);
}

/// Inner properties are written as they are written once they came back.
proof fn lemma_inner_same(props: Seq<PropertyView>)
    ensures
        ({
            let back = Seq::new(props.len(), |i: int| settled_inner_property(props[i]));
            &&& inner_properties_json(back) == inner_properties_json(props)
            &&& required_names(back) == required_names(props)
        }),
    decreases props.len(),
{
    let back = Seq::new(props.len(), |i: int| settled_inner_property(props[i]));
    if props.len() > 0 {
        let front = props.drop_last();
        lemma_inner_same(front);
        assert(back.drop_last() =~= Seq::new(front.len(), |i: int| settled_inner_property(front[i])));
        assert(back.last() == settled_inner_property(props.last()));
        assert(inner_property_json(settled_inner_property(props.last())) == inner_property_json(
            props.last(),
        ));
    } else {
        assert(back =~= props);
    }
}

/// A property is written as it is written once it came back.
proof fn lemma_property_same(p: PropertyView)
    ensures
        property_json(settled_property(p)) == property_json(p),
{
    let s = settled_property(p);
    if p.data_type == DataType::Object {
        match p.properties {
            Some(inner) => {
                lemma_inner_same(inner);
            },
            None => {},
        }
        assert(inner_json(s) == inner_json(p));
        assert(inner_required(s) == inner_required(p));
    }
    assert(property_members(s, inner_json(s), inner_required(s)) == property_members(
        p,
        inner_json(p),
        inner_required(p),
    ));
}

/// Properties are written and listed as they are once they came back.
proof fn lemma_properties_same(props: Seq<PropertyView>)
    ensures
        ({
            let back = Seq::new(props.len(), |i: int| settled_property(props[i]));
            &&& properties_json(back) == properties_json(props)
            &&& required_names(back) == required_names(props)
        }),
    decreases props.len(),
{
    let back = Seq::new(props.len(), |i: int| settled_property(props[i]));
    if props.len() > 0 {
        let front = props.drop_last();
        lemma_properties_same(front);
        assert(back.drop_last() =~= Seq::new(front.len(), |i: int| settled_property(front[i])));
        assert(back.last() == settled_property(props.last()));
        lemma_property_same(props.last());
    } else {
        assert(back =~= props);
    }
}

/// Document types are written as they are written once they came back.
proof fn lemma_documents_same(docs: Seq<DocumentTypeView>)
    ensures
        documents_json(settled(docs)) == documents_json(docs),
    decreases docs.len(),
{
    let back = settled(docs);
    if docs.len() > 0 {
        let front = docs.drop_last();
        lemma_documents_same(front);
        assert(back.drop_last() =~= settled(front));
        assert(back.last() == settled_document(docs.last()));
        lemma_properties_same(docs.last().properties);
        assert(document_members(settled_document(docs.last())) == document_members(docs.last()));
    } else {
        assert(back =~= docs);
    }
}

/// Reading back and writing again is stable: what an export wrote is written
/// again once it was read back, and the tree that came back comes back from
/// its own export unchanged.
///
/// This holds of a tree in [`editor_form`].
pub proof fn lemma_round_trip_stable(docs: Seq<DocumentTypeView>)
    requires
        editor_form(docs),
    ensures
        exported(imported(exported(docs))) == exported(docs),
        ({
            let back = imported(exported(docs));
            imported(exported(back)) == back
        }),
{
    lemma_round_trip(docs);
    lemma_settled_form(docs);
    lemma_round_trip(settled(docs));
    lemma_settled_twice(docs);
    lemma_documents_same(docs);
}

/// Through text: where the text that is written for an export is read as the
/// contract that was written, reading that text gives the tree again, as
/// [`settled`] describes it. Whether a text is read as the document it was
/// written for is up to the reader and writer of JSON text; [`reads_back`]
/// tests it.
///
/// This holds of a tree in [`editor_form`].
///
/// [`reads_back`]: crate::codec::reads_back
pub proof fn lemma_round_trip_through_text(docs: Seq<DocumentTypeView>)
    requires
        editor_form(docs),
    ensures
        parsed_json(json_text(exported(docs))) == Some(exported(docs)) ==> imported_text(
            json_text(exported(docs)),
        ) == settled(docs),
{
    lemma_round_trip(docs);
}

} // verus!
