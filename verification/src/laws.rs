//! What holds of every export and of every change of the tree.

use crate::codec::json_text;
use crate::editor::{
    after, edited, effect_of, EffectView, ModelView, MsgView, PropertyEditView,
};
use crate::export::{
    derived_contract, derived_document, derived_property, derived_required, document_json,
    document_members, documents_json, exported, index_json, index_property_json, inner_json,
    inner_properties_json, inner_property_json, inner_required, names_value, placeholder_json,
    properties_json, property_json, required_names,
};
use crate::json::{lemma_key_index_is, lookup, JsonValue};
use crate::model::{DataType, DocumentTypeView, IndexPropertiesView, IndexView, PropertyView};
use crate::names::{lemma_with_name_contains, lemma_with_name_distinct, with_name};
use crate::shape::{
    lemma_document_lookup, lemma_index_lookup, lemma_property_lookup, lemma_property_without_items,
    lemma_property_written_out,
};
use crate::text::occurs_in;
use crate::validator::{
    begins_with, byte_array_advice, items_missing, lemma_advice_words, lemma_once_each_contains,
    lemma_once_each_distinct, message_of, messages_of, once_each, shown, DiagnosticView,
};
use vstd::prelude::*;

verus! {

/// No two properties of the list have one name.
pub open spec fn distinct_names(props: Seq<PropertyView>) -> bool {
    forall|i: int, j: int|
        0 <= i < j < props.len() ==> (#[trigger] props[i]).name != (#[trigger] props[j]).name
}

/// Some property of the list has the name `n` and is required.
pub open spec fn requires_property(props: Seq<PropertyView>, n: Seq<char>) -> bool {
    exists|j: int| 0 <= j < props.len() && (#[trigger] props[j]).name == n && props[j].required
}

/// A name that stands for a system property.
pub open spec fn system_name(n: Seq<char>) -> bool {
    n == "$createdAt"@ || n == "$updatedAt"@
}

/// The names of required properties are listed, and no others.
pub proof fn lemma_required_names_contains(props: Seq<PropertyView>, n: Seq<char>)
    ensures
        required_names(props).contains(n) <==> requires_property(props, n),
    decreases props.len(),
{
    if props.len() > 0 {
        let front = props.drop_last();
        let last = props.last();
        lemma_required_names_contains(front, n);
        lemma_with_name_contains(required_names(front), last.name, last.required, n);
        if requires_property(front, n) {
            let k = choose|k: int|
                0 <= k < front.len() && (#[trigger] front[k]).name == n && front[k].required;
            assert(props[k].name == n && props[k].required);
        }
        if requires_property(props, n) {
            let k = choose|k: int|
                0 <= k < props.len() && (#[trigger] props[k]).name == n && props[k].required;
            if k < front.len() {
                assert(front[k].name == n && front[k].required);
            }
        }
        if last.required && last.name == n {
            assert(props[props.len() - 1].name == n && props[props.len() - 1].required);
        }
    } else {
        assert(!Seq::<Seq<char>>::empty().contains(n));
    }
}

/// No name is listed twice.
pub proof fn lemma_required_names_distinct(props: Seq<PropertyView>)
    ensures
        required_names(props).no_duplicates(),
    decreases props.len(),
{
    if props.len() > 0 {
        lemma_required_names_distinct(props.drop_last());
        lemma_with_name_distinct(
            required_names(props.drop_last()),
            props.last().name,
            props.last().required,
        );
    }
}

/// The names of a list that may be absent.
pub open spec fn or_empty(names: Option<Seq<Seq<char>>>) -> Seq<Seq<char>> {
    match names {
        Some(s) => s,
        None => Seq::empty(),
    }
}

/// The `required` list that an export writes for a document type holds
/// exactly the names of its required properties and of the system properties
/// that are required, each once, whatever the tree held in its list before.
/// It is what stands under `"required"` in the body, which has no such member
/// where the list is empty, and it is the list that the export leaves in the
/// tree.
pub proof fn lemma_required_exact(d: DocumentTypeView, n: Seq<char>)
    ensures
        derived_required(d).contains(n) <==> (requires_property(d.properties, n) || (
        d.created_at_required && n == "$createdAt"@) || (d.updated_at_required && n
            == "$updatedAt"@)),
        derived_required(d).no_duplicates(),
        lookup(document_members(d), "required"@) == names_value(derived_required(d)),
        names_value(derived_required(d)) is None <==> derived_required(d).len() == 0,
        derived_document(d).required == derived_required(d),
{
    let names = required_names(d.properties);
    let c = with_name(names, "$createdAt"@, d.created_at_required);
    lemma_required_names_contains(d.properties, n);
    lemma_required_names_distinct(d.properties);
    lemma_with_name_contains(names, "$createdAt"@, d.created_at_required, n);
    lemma_with_name_contains(c, "$updatedAt"@, d.updated_at_required, n);
    lemma_with_name_distinct(names, "$createdAt"@, d.created_at_required);
    lemma_with_name_distinct(c, "$updatedAt"@, d.updated_at_required);
    lemma_document_lookup(d);
}

/// The list of required inner names that an export writes for a property
/// holds exactly the names of its required inner properties if it is an
/// object, and nothing otherwise, each name once, whatever the tree held in
/// its list before. It is what stands under `"required"` in the body of the
/// property, which has no such member where the list is empty, and it is the
/// list that the export leaves in the tree.
pub proof fn lemma_inner_required_exact(p: PropertyView, n: Seq<char>)
    ensures
        inner_required(p).contains(n) <==> (p.data_type == DataType::Object && match p.properties {
            Some(inner) => requires_property(inner, n),
            None => false,
        }),
        inner_required(p).no_duplicates(),
        property_json(p).get("required"@) == names_value(inner_required(p)),
        names_value(inner_required(p)) is None <==> inner_required(p).len() == 0,
        or_empty(derived_property(p).rec_required) == inner_required(p),
{
    match p.properties {
        Some(inner) => {
            lemma_required_names_contains(inner, n);
            lemma_required_names_distinct(inner);
        },
        None => {},
    }
    assert(!Seq::<Seq<char>>::empty().contains(n));
    lemma_property_lookup(p, inner_json(p), inner_required(p));
}

/// An export writes one contract for one tree, and one text for it.
pub proof fn lemma_export_deterministic(a: Seq<DocumentTypeView>, b: Seq<DocumentTypeView>)
    requires
        a == b,
    ensures
        exported(a) == exported(b),
        json_text(exported(a)) == json_text(exported(b)),
{
}

/// An array property that is a byte array is written with `"byteArray":
/// true` and without `"items"`, on either level.
pub proof fn lemma_byte_array_written(p: PropertyView)
    requires
        p.data_type == DataType::Array,
        p.byte_array == Some(true),
    ensures
        property_json(p).get("byteArray"@) == Some(JsonValue::Bool(true)),
        property_json(p).get("items"@) is None,
        inner_property_json(p).get("byteArray"@) == Some(JsonValue::Bool(true)),
        inner_property_json(p).get("items"@) is None,
{
    lemma_property_lookup(p, inner_json(p), inner_required(p));
    lemma_property_lookup(p, placeholder_json(), Seq::empty());
    lemma_property_written_out(p);
    lemma_property_without_items(p, inner_json(p), inner_required(p));
    lemma_property_without_items(p, placeholder_json(), Seq::empty());
}

/// A property that was made an array is written with `"byteArray": true`.
pub proof fn lemma_new_array_written(p: PropertyView)
    ensures
        property_json(edited(p, PropertyEditView::DataType(DataType::Array))).get("byteArray"@)
            == Some(JsonValue::Bool(true)),
        inner_property_json(edited(p, PropertyEditView::DataType(DataType::Array))).get(
            "byteArray"@,
        ) == Some(JsonValue::Bool(true)),
{
    lemma_byte_array_written(edited(p, PropertyEditView::DataType(DataType::Array)));
}

/// Every field of an index is written as its name with `"asc"`, whatever
/// order the tree holds for it.
pub proof fn lemma_index_order_written(f: IndexPropertiesView)
    ensures
        index_property_json(f) == JsonValue::Object(seq![(f.field, JsonValue::Text("asc"@))]),
        index_property_json(f).get(f.field) == Some(JsonValue::Text("asc"@)),
{
    let m = seq![(f.field, JsonValue::Text("asc"@))];
    assert(m.drop_last().len() == 0);
    lemma_key_index_is(m, f.field, 0);
}

/// A change of data type keeps name, required flag, description and comment
/// of a property, and leaves every other field as the new data type starts
/// with it: unset, but for an array, which is a byte array.
pub proof fn lemma_type_change(p: PropertyView, t: DataType)
    ensures
        ({
            let q = edited(p, PropertyEditView::DataType(t));
            &&& q.name == p.name
            &&& q.required == p.required
            &&& q.description == p.description
            &&& q.comment == p.comment
            &&& q.data_type == t
            &&& q.min_length is None
            &&& q.max_length is None
            &&& q.pattern is None
            &&& q.format is None
            &&& q.minimum is None
            &&& q.maximum is None
            &&& q.byte_array == if t == DataType::Array {
                Some(true)
            } else {
                None
            }
            &&& q.min_items is None
            &&& q.max_items is None
            &&& q.content_media_type is None
            &&& q.properties is None
            &&& q.min_properties is None
            &&& q.max_properties is None
            &&& q.rec_required is None
            &&& q.additional_properties is None
        }),
{
}

/// What is shown of the findings of the validator holds no message twice,
/// and holds every message that a basic finding gives.
pub proof fn lemma_shown_once(found: Seq<DiagnosticView>, m: Seq<char>)
    ensures
        shown(found).no_duplicates(),
        shown(found).contains(m) <==> messages_of(found).contains(m),
{
    lemma_once_each_distinct(messages_of(found));
    lemma_once_each_contains(messages_of(found), m);
}

/// Every field of the index is sorted upwards.
pub open spec fn index_upwards(ix: IndexView) -> bool {
    forall|k: int| 0 <= k < ix.properties.len() ==> (#[trigger] ix.properties[k]).order == "asc"@
}

/// Every field of every index of the document type is sorted upwards.
pub open spec fn document_upwards(d: DocumentTypeView) -> bool {
    forall|j: int| 0 <= j < d.indices.len() ==> index_upwards(#[trigger] d.indices[j])
}

/// Every field of every index of the tree is sorted upwards.
pub open spec fn sorted_upwards(docs: Seq<DocumentTypeView>) -> bool {
    forall|i: int| 0 <= i < docs.len() ==> document_upwards(#[trigger] docs[i])
}

/// An index is written with one entry for each of its fields, in their order,
/// each the name of the field with `"asc"`.
pub proof fn lemma_index_orders_written(ix: IndexView, k: int)
    requires
        0 <= k < ix.properties.len(),
    ensures
        index_json(ix).get("properties"@) matches Some(JsonValue::Array(fields))
            && fields.len() == ix.properties.len() && fields[k] == JsonValue::Object(
            seq![(ix.properties[k].field, JsonValue::Text("asc"@))],
        ),
{
    lemma_index_lookup(ix);
    lemma_index_order_written(ix.properties[k]);
}

/// Properties are listed and written alike before and after an export: the
/// lists that an export leaves in them do not count.
proof fn lemma_properties_export_twice(props: Seq<PropertyView>)
    ensures
        ({
            let once = Seq::new(props.len(), |i: int| derived_property(props[i]));
            &&& required_names(once) == required_names(props)
            &&& properties_json(once) == properties_json(props)
        }),
    decreases props.len(),
{
    let once = Seq::new(props.len(), |i: int| derived_property(props[i]));
    if props.len() > 0 {
        let front = props.drop_last();
        lemma_properties_export_twice(front);
        assert(once.drop_last() =~= Seq::new(front.len(), |i: int| derived_property(front[i])));
        assert(once.last() == derived_property(props.last()));
        assert(property_json(derived_property(props.last())) == property_json(props.last()));
    } else {
        assert(once =~= props);
    }
}

/// A document type that was exported is exported again as it is, and is
/// written the same again.
pub proof fn lemma_export_twice(d: DocumentTypeView)
    ensures
        derived_document(derived_document(d)) == derived_document(d),
        document_json(derived_document(d)) == document_json(d),
{
    let once = derived_document(d);
    let twice = derived_document(once);
    lemma_properties_export_twice(d.properties);
    assert(once.properties =~= Seq::new(d.properties.len(), |i: int| derived_property(d.properties[i])));
    assert(twice.properties =~= once.properties);
}

/// A tree that was exported is exported again as it is, and is written the
/// same again: a second export of one model gives what the first gave.
pub proof fn lemma_export_contract_twice(docs: Seq<DocumentTypeView>)
    ensures
        derived_contract(derived_contract(docs)) == derived_contract(docs),
        exported(derived_contract(docs)) == exported(docs),
        json_text(exported(derived_contract(docs))) == json_text(exported(docs)),
{
    let once = derived_contract(docs);
    assert forall|i: int| 0 <= i < docs.len() implies derived_document(once[i]) == once[i] by {
        lemma_export_twice(docs[i]);
    }
    assert(derived_contract(once) =~= once);
    lemma_documents_export_twice(docs);
}

/// Document types are written alike before and after an export.
proof fn lemma_documents_export_twice(docs: Seq<DocumentTypeView>)
    ensures
        documents_json(derived_contract(docs)) == documents_json(docs),
    decreases docs.len(),
{
    let once = derived_contract(docs);
    if docs.len() > 0 {
        let front = docs.drop_last();
        lemma_documents_export_twice(front);
        assert(once.drop_last() =~= derived_contract(front));
        assert(once.last() == derived_document(docs.last()));
        lemma_export_twice(docs.last());
    } else {
        assert(once =~= docs);
    }
}

/// A finding on the schema that holds the words about missing `"items"` is
/// shown as the advice and as nothing else: the advice takes the place of
/// the whole message, begins as a message on the schema does, names the byte
/// array, and holds neither the words of the finding nor the mark of a path.
pub proof fn lemma_items_finding_replaced(summary: Seq<char>, path: Seq<char>)
    requires
        occurs_in(items_missing(), summary),
    ensures
        message_of(DiagnosticView::JsonSchema { summary, path }) == Some(byte_array_advice()),
        shown(seq![DiagnosticView::JsonSchema { summary, path }]) == seq![byte_array_advice()],
        begins_with(byte_array_advice(), "JsonSchemaError: \"array\" properties must specify"@),
        occurs_in("byteArray"@, byte_array_advice()),
        !occurs_in(items_missing(), byte_array_advice()),
        !occurs_in(", Path: "@, byte_array_advice()),
{
    lemma_advice_words();
    let found = seq![DiagnosticView::JsonSchema { summary, path }];
    assert(found.drop_last() =~= Seq::<DiagnosticView>::empty());
    assert(messages_of(found.drop_last()) =~= Seq::<Seq<char>>::empty());
    let messages = messages_of(found);
    assert(messages =~= seq![byte_array_advice()]);
    assert(messages.drop_last() =~= Seq::<Seq<char>>::empty());
    assert(once_each(messages.drop_last()) =~= Seq::<Seq<char>>::empty());
    assert(!Seq::<Seq<char>>::empty().contains(byte_array_advice()));
    assert(shown(found) =~= seq![byte_array_advice()]);
}

/// Among any findings, one on the schema that holds the words about missing
/// `"items"` has the advice shown.
pub proof fn lemma_items_finding_shown(found: Seq<DiagnosticView>, k: int)
    requires
        0 <= k < found.len(),
        found[k] matches DiagnosticView::JsonSchema { summary, .. } && occurs_in(
            items_missing(),
            summary,
        ),
    ensures
        shown(found).contains(byte_array_advice()),
{
    lemma_message_listed(found, k);
    lemma_once_each_contains(messages_of(found), byte_array_advice());
}

/// The message of a finding that has one is among the messages of the list.
proof fn lemma_message_listed(found: Seq<DiagnosticView>, k: int)
    requires
        0 <= k < found.len(),
        message_of(found[k]) is Some,
    ensures
        messages_of(found).contains(message_of(found[k])->0),
    decreases found.len(),
{
    let front = messages_of(found.drop_last());
    let all = messages_of(found);
    let m = message_of(found[k])->0;
    if k == found.len() - 1 {
        assert(all[front.len() as int] == m);
    } else {
        lemma_message_listed(found.drop_last(), k);
        let i = choose|i: int| 0 <= i < front.len() && front[i] == m;
        assert(all[i] == m);
    }
}

/// A request for a contract while one is under way is passed over: nothing
/// changes, and nothing is asked.
pub proof fn lemma_request_under_way(m: ModelView)
    requires
        m.loading,
    ensures
        after(m, MsgView::GenerateSchema) == m,
        effect_of(m, MsgView::GenerateSchema) == EffectView::Nothing,
{
}

/// A property without the lists that an export makes, on either level.
pub open spec fn bare_property(p: PropertyView) -> PropertyView {
    PropertyView {
        rec_required: None,
        properties: match p.properties {
            Some(inner) => Some(
                Seq::new(inner.len(), |i: int| PropertyView { rec_required: None, ..inner[i] }),
            ),
            None => None,
        },
        ..p
    }
}

/// A tree without the lists that an export makes: what is left is names,
/// properties, indices, flags and comments.
pub open spec fn bare(docs: Seq<DocumentTypeView>) -> Seq<DocumentTypeView> {
    Seq::new(
        docs.len(),
        |i: int|
            DocumentTypeView {
                required: Seq::empty(),
                properties: Seq::new(
                    docs[i].properties.len(),
                    |j: int| bare_property(docs[i].properties[j]),
                ),
                ..docs[i]
            },
    )
}

/// Inner properties are written and listed alike with and without their
/// lists.
proof fn lemma_bare_inner(inner: Seq<PropertyView>)
    ensures
        ({
            let b = Seq::new(inner.len(), |i: int| PropertyView { rec_required: None, ..inner[i] });
            &&& inner_properties_json(b) == inner_properties_json(inner)
            &&& required_names(b) == required_names(inner)
        }),
    decreases inner.len(),
{
    let b = Seq::new(inner.len(), |i: int| PropertyView { rec_required: None, ..inner[i] });
    if inner.len() > 0 {
        let front = inner.drop_last();
        lemma_bare_inner(front);
        assert(b.drop_last() =~= Seq::new(
            front.len(),
            |i: int| PropertyView { rec_required: None, ..front[i] },
        ));
        assert(inner_property_json(b.last()) == inner_property_json(inner.last()));
    } else {
        assert(b =~= inner);
    }
}

/// Properties are written and listed alike with and without their lists.
proof fn lemma_bare_properties(props: Seq<PropertyView>)
    ensures
        ({
            let b = Seq::new(props.len(), |j: int| bare_property(props[j]));
            &&& properties_json(b) == properties_json(props)
            &&& required_names(b) == required_names(props)
        }),
    decreases props.len(),
{
    let b = Seq::new(props.len(), |j: int| bare_property(props[j]));
    if props.len() > 0 {
        let front = props.drop_last();
        let p = props.last();
        lemma_bare_properties(front);
        assert(b.drop_last() =~= Seq::new(front.len(), |j: int| bare_property(front[j])));
        assert(b.last() == bare_property(p));
        match p.properties {
            Some(inner) => {
                lemma_bare_inner(inner);
            },
            None => {},
        }
        assert(inner_json(bare_property(p)) == inner_json(p));
        assert(inner_required(bare_property(p)) == inner_required(p));
        assert(property_json(bare_property(p)) == property_json(p));
    } else {
        assert(b =~= props);
    }
}

/// Document types are written alike with and without their lists.
proof fn lemma_bare_documents(docs: Seq<DocumentTypeView>)
    ensures
        documents_json(bare(docs)) == documents_json(docs),
    decreases docs.len(),
{
    let b = bare(docs);
    if docs.len() > 0 {
        let front = docs.drop_last();
        lemma_bare_documents(front);
        assert(b.drop_last() =~= bare(front));
        lemma_bare_properties(docs.last().properties);
        assert(document_members(b.last()) == document_members(docs.last()));
    } else {
        assert(b =~= docs);
    }
}

/// What an export writes depends on nothing but names, properties, indices,
/// flags and comments: two trees that differ only in the lists that an
/// export makes are written as one contract and one text.
pub proof fn lemma_export_of_tree_alone(a: Seq<DocumentTypeView>, b: Seq<DocumentTypeView>)
    requires
        bare(a) == bare(b),
    ensures
        exported(a) == exported(b),
        json_text(exported(a)) == json_text(exported(b)),
{
    lemma_bare_documents(a);
    lemma_bare_documents(b);
}

} // verus!
