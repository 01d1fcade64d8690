//! The state of an editing session and the messages that change it.
//!
//! [`Model::update`] takes one message and says what is to be done outside
//! the library: a contract to be validated or a prompt to be sent. What came
//! of that is handed back as another message.

use crate::codec::{json_text, render, render_checked};
use crate::export::{derived_contract, export_contract, exported};
use crate::import::{import_text, imported_text};
use crate::json::{lemma_object_view, members_view, Json, JsonValue};
use crate::model::{
    blank_document, blank_property, copy_texts, documents_view, indices_view, lemma_inner_view,
    properties_view, retyped, text_view, texts_view, DataType, DocumentType, DocumentTypeView,
    Index, IndexProperties, IndexPropertiesView, IndexView, Property, PropertyView,
};
use crate::names::{drop_name, without};
use crate::prompt::{compose_prompt, composed};
use crate::shape::lemma_contract_representable;
use crate::text::same_text;
use crate::validator::{extract_basic_error_messages, shown, Validation, ValidationView};
use vstd::prelude::*;

verus! {

/// A change of one field of a property.
#[derive(Clone, Debug, PartialEq, Eq)]
pub enum PropertyEdit {
    Name(String),
    /// A new data type, which resets every field that belongs to a data type.
    DataType(DataType),
    Required(bool),
    Description(String),
    Comment(String),
    MinLength(Option<u32>),
    MaxLength(Option<u32>),
    Pattern(String),
    Format(String),
    Minimum(Option<i32>),
    Maximum(Option<i32>),
    MinItems(Option<u32>),
    MaxItems(Option<u32>),
    ContentMediaType(String),
    MinProperties(Option<u32>),
    MaxProperties(Option<u32>),
}

/// What a [`PropertyEdit`] stands for.
pub enum PropertyEditView {
    Name(Seq<char>),
    DataType(DataType),
    Required(bool),
    Description(Seq<char>),
    Comment(Seq<char>),
    MinLength(Option<u32>),
    MaxLength(Option<u32>),
    Pattern(Seq<char>),
    Format(Seq<char>),
    Minimum(Option<i32>),
    Maximum(Option<i32>),
    MinItems(Option<u32>),
    MaxItems(Option<u32>),
    ContentMediaType(Seq<char>),
    MinProperties(Option<u32>),
    MaxProperties(Option<u32>),
}

impl View for PropertyEdit {
    type V = PropertyEditView;

    open spec fn view(&self) -> PropertyEditView {
        match self {
            PropertyEdit::Name(s) => PropertyEditView::Name(s@),
            PropertyEdit::DataType(t) => PropertyEditView::DataType(*t),
            PropertyEdit::Required(b) => PropertyEditView::Required(*b),
            PropertyEdit::Description(s) => PropertyEditView::Description(s@),
            PropertyEdit::Comment(s) => PropertyEditView::Comment(s@),
            PropertyEdit::MinLength(n) => PropertyEditView::MinLength(*n),
            PropertyEdit::MaxLength(n) => PropertyEditView::MaxLength(*n),
            PropertyEdit::Pattern(s) => PropertyEditView::Pattern(s@),
            PropertyEdit::Format(s) => PropertyEditView::Format(s@),
            PropertyEdit::Minimum(n) => PropertyEditView::Minimum(*n),
            PropertyEdit::Maximum(n) => PropertyEditView::Maximum(*n),
            PropertyEdit::MinItems(n) => PropertyEditView::MinItems(*n),
            PropertyEdit::MaxItems(n) => PropertyEditView::MaxItems(*n),
            PropertyEdit::ContentMediaType(s) => PropertyEditView::ContentMediaType(s@),
            PropertyEdit::MinProperties(n) => PropertyEditView::MinProperties(*n),
            PropertyEdit::MaxProperties(n) => PropertyEditView::MaxProperties(*n),
        }
    }
}

/// The property `p` after the change `e`.
pub open spec fn edited(p: PropertyView, e: PropertyEditView) -> PropertyView {
    match e {
        PropertyEditView::Name(s) => PropertyView { name: s, ..p },
        PropertyEditView::DataType(t) => retyped(p, t),
        PropertyEditView::Required(b) => PropertyView { required: b, ..p },
        PropertyEditView::Description(s) => PropertyView { description: Some(s), ..p },
        PropertyEditView::Comment(s) => PropertyView { comment: Some(s), ..p },
        PropertyEditView::MinLength(n) => PropertyView { min_length: n, ..p },
        PropertyEditView::MaxLength(n) => PropertyView { max_length: n, ..p },
        PropertyEditView::Pattern(s) => PropertyView { pattern: Some(s), ..p },
        PropertyEditView::Format(s) => PropertyView { format: Some(s), ..p },
        PropertyEditView::Minimum(n) => PropertyView { minimum: n, ..p },
        PropertyEditView::Maximum(n) => PropertyView { maximum: n, ..p },
        PropertyEditView::MinItems(n) => PropertyView { min_items: n, ..p },
        PropertyEditView::MaxItems(n) => PropertyView { max_items: n, ..p },
        PropertyEditView::ContentMediaType(s) => PropertyView { content_media_type: Some(s), ..p },
        PropertyEditView::MinProperties(n) => PropertyView { min_properties: n, ..p },
        PropertyEditView::MaxProperties(n) => PropertyView { max_properties: n, ..p },
    }
}

impl Property {
    /// Makes one change to the property.
    pub fn apply(&mut self, e: PropertyEdit)
        ensures
            final(self)@ == edited(old(self)@, e@),
    {
        match e {
            PropertyEdit::Name(s) => {
                self.name = s;
            },
            PropertyEdit::DataType(t) => {
                self.set_data_type(t);
            },
            PropertyEdit::Required(b) => {
                self.required = b;
            },
            PropertyEdit::Description(s) => {
                self.description = Some(s);
            },
            PropertyEdit::Comment(s) => {
                self.comment = Some(s);
            },
            PropertyEdit::MinLength(n) => {
                self.min_length = n;
            },
            PropertyEdit::MaxLength(n) => {
                self.max_length = n;
            },
            PropertyEdit::Pattern(s) => {
                self.pattern = Some(s);
            },
            PropertyEdit::Format(s) => {
                self.format = Some(s);
            },
            PropertyEdit::Minimum(n) => {
                self.minimum = n;
            },
            PropertyEdit::Maximum(n) => {
                self.maximum = n;
            },
            PropertyEdit::MinItems(n) => {
                self.min_items = n;
            },
            PropertyEdit::MaxItems(n) => {
                self.max_items = n;
            },
            PropertyEdit::ContentMediaType(s) => {
                self.content_media_type = Some(s);
            },
            PropertyEdit::MinProperties(n) => {
                self.min_properties = n;
            },
            PropertyEdit::MaxProperties(n) => {
                self.max_properties = n;
            },
        }
    }
}

/// `docs` with `d` in the place `i`; unchanged where there is no such place.
pub open spec fn set_document(
    docs: Seq<DocumentTypeView>,
    i: int,
    d: DocumentTypeView,
) -> Seq<DocumentTypeView> {
    if 0 <= i < docs.len() {
        docs.update(i, d)
    } else {
        docs
    }
}

/// `d` with `p` as its property `j`; unchanged where it has no such property.
pub open spec fn set_property(d: DocumentTypeView, j: int, p: PropertyView) -> DocumentTypeView {
    if 0 <= j < d.properties.len() {
        DocumentTypeView { properties: d.properties.update(j, p), ..d }
    } else {
        d
    }
}

/// `p` with `q` as its inner property `k`; unchanged where it has no such
/// inner property.
pub open spec fn set_inner(p: PropertyView, k: int, q: PropertyView) -> PropertyView {
    match p.properties {
        Some(inner) => if 0 <= k < inner.len() {
            PropertyView { properties: Some(inner.update(k, q)), ..p }
        } else {
            p
        },
        None => p,
    }
}

/// `d` with `ix` as its index `j`; unchanged where it has no such index.
pub open spec fn set_index(d: DocumentTypeView, j: int, ix: IndexView) -> DocumentTypeView {
    if 0 <= j < d.indices.len() {
        DocumentTypeView { indices: d.indices.update(j, ix), ..d }
    } else {
        d
    }
}

/// `ix` with `f` as its field `k`; unchanged where it has no such field.
pub open spec fn set_field(ix: IndexView, k: int, f: IndexPropertiesView) -> IndexView {
    if 0 <= k < ix.properties.len() {
        IndexView { properties: ix.properties.update(k, f), ..ix }
    } else {
        ix
    }
}

/// The field that a new index starts with, and that is added to an index:
/// no name yet, sorted upwards.
pub open spec fn blank_field() -> IndexPropertiesView {
    IndexPropertiesView { field: Seq::empty(), order: "asc"@ }
}

/// The index that is added to a document type: one blank field.
pub open spec fn blank_index() -> IndexView {
    IndexView { name: Seq::empty(), properties: seq![blank_field()], unique: false }
}

/// The document type that is added to a contract: one blank property.
pub open spec fn added_document() -> DocumentTypeView {
    DocumentTypeView { properties: seq![blank_property()], ..blank_document() }
}

/// The property that is added inside an object property.
pub open spec fn blank_inner() -> PropertyView {
    PropertyView { rec_required: Some(Seq::empty()), ..blank_property() }
}

/// `p` with one more inner property.
pub open spec fn inner_added(p: PropertyView) -> PropertyView {
    PropertyView {
        properties: match p.properties {
            Some(inner) => Some(inner.push(blank_inner())),
            None => Some(seq![blank_inner()]),
        },
        ..p
    }
}

/// A list of names that may be absent, without any occurrence of `name`.
pub open spec fn without_in(names: Option<Seq<Seq<char>>>, name: Seq<char>) -> Option<
    Seq<Seq<char>>,
> {
    match names {
        Some(s) => Some(without(s, name)),
        None => None,
    }
}

/// `p` without its inner property `k`, whose name also leaves the list of
/// required inner names; unchanged where it has no such inner property.
pub open spec fn inner_removed(p: PropertyView, k: int) -> PropertyView {
    match p.properties {
        Some(inner) => if 0 <= k < inner.len() {
            PropertyView {
                properties: Some(inner.remove(k)),
                rec_required: without_in(p.rec_required, inner[k].name),
                ..p
            }
        } else {
            p
        },
        None => p,
    }
}

/// `d` without its property `j`, whose name also leaves the list of required
/// names; unchanged where it has no such property.
pub open spec fn property_removed(d: DocumentTypeView, j: int) -> DocumentTypeView {
    if 0 <= j < d.properties.len() {
        DocumentTypeView {
            properties: d.properties.remove(j),
            required: without(d.required, d.properties[j].name),
            ..d
        }
    } else {
        d
    }
}

/// `d` with one of the two system properties required or not: 0 stands for
/// `$createdAt`, 1 for `$updatedAt`, and any other number for nothing.
pub open spec fn system_required(
    d: DocumentTypeView,
    which: int,
    required: bool,
) -> DocumentTypeView {
    if which == 0 {
        DocumentTypeView { created_at_required: required, ..d }
    } else if which == 1 {
        DocumentTypeView { updated_at_required: required, ..d }
    } else {
        d
    }
}

/// A message to the editor.
#[derive(Debug, PartialEq, Eq)]
pub enum Msg {
    /// Export the tree and have the contract validated.
    Submit,
    AddDocumentType,
    RemoveDocumentType(usize),
    AddProperty(usize),
    RemoveProperty(usize, usize),
    AddIndex(usize),
    RemoveIndex(usize, usize),
    AddIndexProperty(usize, usize),
    RemoveIndexProperty(usize, usize, usize),
    UpdateName(usize, String),
    UpdateComment(usize, String),
    /// Change the property `.1` of the document type `.0`.
    UpdateProperty(usize, usize, PropertyEdit),
    UpdateIndexName(usize, usize, String),
    UpdateIndexUnique(usize, usize, bool),
    /// Require or release `$createdAt` (0) or `$updatedAt` (1).
    UpdateSystemPropertiesRequired(usize, usize, bool),
    /// Name the field `.2` of the index `.1` of the document type `.0`.
    UpdateIndexProperty(usize, usize, usize, String),
    AddRecProperty(usize, usize),
    RemoveRecProperty(usize, usize, usize),
    /// Change the inner property `.2` of the property `.1` of the document
    /// type `.0`.
    UpdateRecProperty(usize, usize, usize, PropertyEdit),
    /// Read the pasted text as a contract, export it and have it validated.
    Import,
    UpdateImportedJson(String),
    /// Begin anew: one blank document type, no contract, no pasted text, no
    /// schema and no validation errors.
    Clear,
    UpdatePrompt(String),
    /// Ask the language model for a contract. While a request is under way
    /// this is passed over.
    GenerateSchema,
    /// What came of asking: the text of a contract, or what went wrong.
    ReceiveSchema(Result<String, String>),
    ClearInput,
    /// What the validator reports on the contract that was handed out.
    ReceiveValidation(Validation),
}

/// What a [`Msg`] stands for.
pub enum MsgView {
    Submit,
    AddDocumentType,
    RemoveDocumentType(usize),
    AddProperty(usize),
    RemoveProperty(usize, usize),
    AddIndex(usize),
    RemoveIndex(usize, usize),
    AddIndexProperty(usize, usize),
    RemoveIndexProperty(usize, usize, usize),
    UpdateName(usize, Seq<char>),
    UpdateComment(usize, Seq<char>),
    UpdateProperty(usize, usize, PropertyEditView),
    UpdateIndexName(usize, usize, Seq<char>),
    UpdateIndexUnique(usize, usize, bool),
    UpdateSystemPropertiesRequired(usize, usize, bool),
    UpdateIndexProperty(usize, usize, usize, Seq<char>),
    AddRecProperty(usize, usize),
    RemoveRecProperty(usize, usize, usize),
    UpdateRecProperty(usize, usize, usize, PropertyEditView),
    Import,
    UpdateImportedJson(Seq<char>),
    Clear,
    UpdatePrompt(Seq<char>),
    GenerateSchema,
    ReceiveSchema(Result<Seq<char>, Seq<char>>),
    ClearInput,
    ReceiveValidation(ValidationView),
}

impl View for Msg {
    type V = MsgView;

    open spec fn view(&self) -> MsgView {
        match self {
            Msg::Submit => MsgView::Submit,
            Msg::AddDocumentType => MsgView::AddDocumentType,
            Msg::RemoveDocumentType(i) => MsgView::RemoveDocumentType(*i),
            Msg::AddProperty(i) => MsgView::AddProperty(*i),
            Msg::RemoveProperty(i, j) => MsgView::RemoveProperty(*i, *j),
            Msg::AddIndex(i) => MsgView::AddIndex(*i),
            Msg::RemoveIndex(i, j) => MsgView::RemoveIndex(*i, *j),
            Msg::AddIndexProperty(i, j) => MsgView::AddIndexProperty(*i, *j),
            Msg::RemoveIndexProperty(i, j, k) => MsgView::RemoveIndexProperty(*i, *j, *k),
            Msg::UpdateName(i, s) => MsgView::UpdateName(*i, s@),
            Msg::UpdateComment(i, s) => MsgView::UpdateComment(*i, s@),
            Msg::UpdateProperty(i, j, e) => MsgView::UpdateProperty(*i, *j, e@),
            Msg::UpdateIndexName(i, j, s) => MsgView::UpdateIndexName(*i, *j, s@),
            Msg::UpdateIndexUnique(i, j, b) => MsgView::UpdateIndexUnique(*i, *j, *b),
            Msg::UpdateSystemPropertiesRequired(i, w, b) => MsgView::UpdateSystemPropertiesRequired(
                *i,
                *w,
                *b,
            ),
            Msg::UpdateIndexProperty(i, j, k, s) => MsgView::UpdateIndexProperty(*i, *j, *k, s@),
            Msg::AddRecProperty(i, j) => MsgView::AddRecProperty(*i, *j),
            Msg::RemoveRecProperty(i, j, k) => MsgView::RemoveRecProperty(*i, *j, *k),
            Msg::UpdateRecProperty(i, j, k, e) => MsgView::UpdateRecProperty(*i, *j, *k, e@),
            Msg::Import => MsgView::Import,
            Msg::UpdateImportedJson(s) => MsgView::UpdateImportedJson(s@),
            Msg::Clear => MsgView::Clear,
            Msg::UpdatePrompt(s) => MsgView::UpdatePrompt(s@),
            Msg::GenerateSchema => MsgView::GenerateSchema,
            Msg::ReceiveSchema(r) => MsgView::ReceiveSchema(
                match r {
                    Ok(s) => Ok(s@),
                    Err(e) => Err(e@),
                },
            ),
            Msg::ClearInput => MsgView::ClearInput,
            Msg::ReceiveValidation(v) => MsgView::ReceiveValidation(v@),
        }
    }
}

/// The tree after a message that changes the tree alone; the tree as it was
/// after any other message.
pub open spec fn tree_after(docs: Seq<DocumentTypeView>, msg: MsgView) -> Seq<DocumentTypeView> {
    match msg {
        MsgView::AddDocumentType => docs.push(added_document()),
        MsgView::RemoveDocumentType(i) => if i < docs.len() {
            docs.remove(i as int)
        } else {
            docs
        },
        MsgView::AddProperty(i) => set_document(
            docs,
            i as int,
            DocumentTypeView {
                properties: docs[i as int].properties.push(blank_property()),
                ..docs[i as int]
            },
        ),
        MsgView::RemoveProperty(i, j) => set_document(
            docs,
            i as int,
            property_removed(docs[i as int], j as int),
        ),
        MsgView::AddIndex(i) => set_document(
            docs,
            i as int,
            DocumentTypeView { indices: docs[i as int].indices.push(blank_index()), ..docs[i as int] },
        ),
        MsgView::RemoveIndex(i, j) => set_document(
            docs,
            i as int,
            if j < docs[i as int].indices.len() {
                DocumentTypeView { indices: docs[i as int].indices.remove(j as int), ..docs[i as int] }
            } else {
                docs[i as int]
            },
        ),
        MsgView::AddIndexProperty(i, j) => {
            let ix = docs[i as int].indices[j as int];
            set_document(
                docs,
                i as int,
                set_index(
                    docs[i as int],
                    j as int,
                    IndexView { properties: ix.properties.push(blank_field()), ..ix },
                ),
            )
        },
        MsgView::RemoveIndexProperty(i, j, k) => {
            let ix = docs[i as int].indices[j as int];
            set_document(
                docs,
                i as int,
                set_index(
                    docs[i as int],
                    j as int,
                    if k < ix.properties.len() {
                        IndexView { properties: ix.properties.remove(k as int), ..ix }
                    } else {
                        ix
                    },
                ),
            )
        },
        MsgView::UpdateName(i, name) => set_document(
            docs,
            i as int,
            DocumentTypeView { name, ..docs[i as int] },
        ),
        MsgView::UpdateComment(i, comment) => set_document(
            docs,
            i as int,
            DocumentTypeView { comment, ..docs[i as int] },
        ),
        MsgView::UpdateProperty(i, j, e) => set_document(
            docs,
            i as int,
            set_property(docs[i as int], j as int, edited(docs[i as int].properties[j as int], e)),
        ),
        MsgView::UpdateIndexName(i, j, name) => set_document(
            docs,
            i as int,
            set_index(
                docs[i as int],
                j as int,
                IndexView { name, ..docs[i as int].indices[j as int] },
            ),
        ),
        MsgView::UpdateIndexUnique(i, j, unique) => set_document(
            docs,
            i as int,
            set_index(
                docs[i as int],
                j as int,
                IndexView { unique, ..docs[i as int].indices[j as int] },
            ),
        ),
        MsgView::UpdateSystemPropertiesRequired(i, which, required) => set_document(
            docs,
            i as int,
            system_required(docs[i as int], which as int, required),
        ),
        MsgView::UpdateIndexProperty(i, j, k, field) => {
            let ix = docs[i as int].indices[j as int];
            set_document(
                docs,
                i as int,
                set_index(
                    docs[i as int],
                    j as int,
                    set_field(
                        ix,
                        k as int,
                        IndexPropertiesView { field, ..ix.properties[k as int] },
                    ),
                ),
            )
        },
        MsgView::AddRecProperty(i, j) => set_document(
            docs,
            i as int,
            set_property(docs[i as int], j as int, inner_added(docs[i as int].properties[j as int])),
        ),
        MsgView::RemoveRecProperty(i, j, k) => set_document(
            docs,
            i as int,
            set_property(
                docs[i as int],
                j as int,
                inner_removed(docs[i as int].properties[j as int], k as int),
            ),
        ),
        MsgView::UpdateRecProperty(i, j, k, e) => {
            let p = docs[i as int].properties[j as int];
            set_document(
                docs,
                i as int,
                set_property(
                    docs[i as int],
                    j as int,
                    set_inner(p, k as int, edited(p.properties.unwrap()[k as int], e)),
                ),
            )
        },
        _ => docs,
    }
}

/// Where one document type of a list changes, the list stands for the same
/// with what that document type now stands for in its place.
proof fn lemma_documents_set(before: Seq<DocumentType>, after: Seq<DocumentType>, i: int)
    requires
        0 <= i < before.len(),
        after.len() == before.len(),
        forall|k: int| 0 <= k < before.len() && k != i ==> after[k] == before[k],
    ensures
        documents_view(after) == documents_view(before).update(i, after[i]@),
{
    assert(documents_view(after) =~= documents_view(before).update(i, after[i]@));
}

proof fn lemma_properties_set(before: Seq<Property>, after: Seq<Property>, j: int)
    requires
        0 <= j < before.len(),
        after.len() == before.len(),
        forall|k: int| 0 <= k < before.len() && k != j ==> after[k] == before[k],
    ensures
        properties_view(after) == properties_view(before).update(j, after[j]@),
{
    assert(properties_view(after) =~= properties_view(before).update(j, after[j]@));
}

proof fn lemma_indices_set(before: Seq<Index>, after: Seq<Index>, j: int)
    requires
        0 <= j < before.len(),
        after.len() == before.len(),
        forall|k: int| 0 <= k < before.len() && k != j ==> after[k] == before[k],
    ensures
        indices_view(after) == indices_view(before).update(j, after[j]@),
{
    assert(indices_view(after) =~= indices_view(before).update(j, after[j]@));
}

fn add_document_type(docs: &mut Vec<DocumentType>)
    ensures
        documents_view(final(docs)@) == documents_view(old(docs)@).push(added_document()),
{
    let mut d = DocumentType::default();
    d.properties.push(Property::default());
    assert(d@.properties =~= seq![blank_property()]);
    let ghost before = documents_view(docs@);
    docs.push(d);
    assert(documents_view(docs@) =~= before.push(added_document()));
}

fn remove_document_type(docs: &mut Vec<DocumentType>, i: usize)
    ensures
        documents_view(final(docs)@) == tree_after(
            documents_view(old(docs)@),
            MsgView::RemoveDocumentType(i),
        ),
{
    if i < docs.len() {
        let ghost before = documents_view(docs@);
        docs.remove(i);
        assert(documents_view(docs@) =~= before.remove(i as int));
    }
}

fn add_property(docs: &mut Vec<DocumentType>, i: usize)
    ensures
        documents_view(final(docs)@) == tree_after(documents_view(old(docs)@), MsgView::AddProperty(i)),
{
    if i < docs.len() {
        let ghost before = docs@;
        docs[i].properties.push(Property::default());
        proof {
            assert(docs[i as int]@.properties =~= before[i as int]@.properties.push(
                blank_property(),
            ));
            lemma_documents_set(before, docs@, i as int);
        }
    }
}

fn remove_property(docs: &mut Vec<DocumentType>, i: usize, j: usize)
    ensures
        documents_view(final(docs)@) == tree_after(
            documents_view(old(docs)@),
            MsgView::RemoveProperty(i, j),
        ),
{
    if i < docs.len() {
        let ghost before = docs@;
        if j < docs[i].properties.len() {
            let gone = docs[i].properties.remove(j);
            drop_name(&mut docs[i].required, gone.name.as_str());
            proof {
                assert(docs[i as int]@.properties =~= before[i as int]@.properties.remove(j as int));
                lemma_documents_set(before, docs@, i as int);
            }
        } else {
            assert(documents_view(docs@) =~= documents_view(before).update(
                i as int,
                before[i as int]@,
            ));
        }
    }
}

fn add_index(docs: &mut Vec<DocumentType>, i: usize)
    ensures
        documents_view(final(docs)@) == tree_after(documents_view(old(docs)@), MsgView::AddIndex(i)),
{
    if i < docs.len() {
        let ghost before = docs@;
        let mut ix = Index::default();
        ix.properties.push(IndexProperties::default());
        assert(ix@.properties =~= seq![blank_field()]);
        docs[i].indices.push(ix);
        proof {
            assert(docs[i as int]@.indices =~= before[i as int]@.indices.push(blank_index()));
            lemma_documents_set(before, docs@, i as int);
        }
    }
}

fn remove_index(docs: &mut Vec<DocumentType>, i: usize, j: usize)
    ensures
        documents_view(final(docs)@) == tree_after(
            documents_view(old(docs)@),
            MsgView::RemoveIndex(i, j),
        ),
{
    if i < docs.len() {
        let ghost before = docs@;
        if j < docs[i].indices.len() {
            docs[i].indices.remove(j);
            proof {
                assert(docs[i as int]@.indices =~= before[i as int]@.indices.remove(j as int));
                lemma_documents_set(before, docs@, i as int);
            }
        } else {
            assert(documents_view(docs@) =~= documents_view(before).update(
                i as int,
                before[i as int]@,
            ));
        }
    }
}

/// The fields of an index, each as what it stands for.
spec fn fields_view(v: Seq<IndexProperties>) -> Seq<IndexPropertiesView> {
    Seq::new(v.len(), |i: int| v[i]@)
}

fn add_index_property(docs: &mut Vec<DocumentType>, i: usize, j: usize)
    ensures
        documents_view(final(docs)@) == tree_after(
            documents_view(old(docs)@),
            MsgView::AddIndexProperty(i, j),
        ),
{
    if i < docs.len() {
        let ghost before = docs@;
        if j < docs[i].indices.len() {
            docs[i].indices[j].properties.push(IndexProperties::default());
            proof {
                let was = before[i as int].indices[j as int];
                let now = docs[i as int].indices[j as int];
                assert(now@.properties =~= was@.properties.push(blank_field()));
                lemma_indices_set(before[i as int].indices@, docs[i as int].indices@, j as int);
                lemma_documents_set(before, docs@, i as int);
            }
        } else {
            assert(documents_view(docs@) =~= documents_view(before).update(
                i as int,
                before[i as int]@,
            ));
        }
    }
}

fn remove_index_property(docs: &mut Vec<DocumentType>, i: usize, j: usize, k: usize)
    ensures
        documents_view(final(docs)@) == tree_after(
            documents_view(old(docs)@),
            MsgView::RemoveIndexProperty(i, j, k),
        ),
{
    if i < docs.len() {
        let ghost before = docs@;
        if j < docs[i].indices.len() {
            if k < docs[i].indices[j].properties.len() {
                docs[i].indices[j].properties.remove(k);
                proof {
                    let was = before[i as int].indices[j as int];
                    let now = docs[i as int].indices[j as int];
                    assert(now@.properties =~= was@.properties.remove(k as int));
                    lemma_indices_set(before[i as int].indices@, docs[i as int].indices@, j as int);
                    lemma_documents_set(before, docs@, i as int);
                }
            } else {
                proof {
                    let d = before[i as int]@;
                    assert(d.indices.update(j as int, d.indices[j as int]) =~= d.indices);
                    assert(documents_view(docs@) =~= documents_view(before).update(i as int, d));
                }
            }
        } else {
            assert(documents_view(docs@) =~= documents_view(before).update(
                i as int,
                before[i as int]@,
            ));
        }
    }
}

fn update_name(docs: &mut Vec<DocumentType>, i: usize, name: String)
    ensures
        documents_view(final(docs)@) == tree_after(
            documents_view(old(docs)@),
            MsgView::UpdateName(i, name@),
        ),
{
    if i < docs.len() {
        let ghost before = docs@;
        docs[i].name = name;
        proof {
            lemma_documents_set(before, docs@, i as int);
        }
    }
}

fn update_comment(docs: &mut Vec<DocumentType>, i: usize, comment: String)
    ensures
        documents_view(final(docs)@) == tree_after(
            documents_view(old(docs)@),
            MsgView::UpdateComment(i, comment@),
        ),
{
    if i < docs.len() {
        let ghost before = docs@;
        docs[i].comment = comment;
        proof {
            lemma_documents_set(before, docs@, i as int);
        }
    }
}

fn update_property(docs: &mut Vec<DocumentType>, i: usize, j: usize, e: PropertyEdit)
    ensures
        documents_view(final(docs)@) == tree_after(
            documents_view(old(docs)@),
            MsgView::UpdateProperty(i, j, e@),
        ),
{
    if i < docs.len() {
        let ghost before = docs@;
        if j < docs[i].properties.len() {
            docs[i].properties[j].apply(e);
            proof {
                lemma_properties_set(
                    before[i as int].properties@,
                    docs[i as int].properties@,
                    j as int,
                );
                lemma_documents_set(before, docs@, i as int);
            }
        } else {
            assert(documents_view(docs@) =~= documents_view(before).update(
                i as int,
                before[i as int]@,
            ));
        }
    }
}

fn update_index_name(docs: &mut Vec<DocumentType>, i: usize, j: usize, name: String)
    ensures
        documents_view(final(docs)@) == tree_after(
            documents_view(old(docs)@),
            MsgView::UpdateIndexName(i, j, name@),
        ),
{
    if i < docs.len() {
        let ghost before = docs@;
        if j < docs[i].indices.len() {
            docs[i].indices[j].name = name;
            proof {
                lemma_indices_set(before[i as int].indices@, docs[i as int].indices@, j as int);
                lemma_documents_set(before, docs@, i as int);
            }
        } else {
            assert(documents_view(docs@) =~= documents_view(before).update(
                i as int,
                before[i as int]@,
            ));
        }
    }
}

fn update_index_unique(docs: &mut Vec<DocumentType>, i: usize, j: usize, unique: bool)
    ensures
        documents_view(final(docs)@) == tree_after(
            documents_view(old(docs)@),
            MsgView::UpdateIndexUnique(i, j, unique),
        ),
{
    if i < docs.len() {
        let ghost before = docs@;
        if j < docs[i].indices.len() {
            docs[i].indices[j].unique = unique;
            proof {
                lemma_indices_set(before[i as int].indices@, docs[i as int].indices@, j as int);
                lemma_documents_set(before, docs@, i as int);
            }
        } else {
            assert(documents_view(docs@) =~= documents_view(before).update(
                i as int,
                before[i as int]@,
            ));
        }
    }
}

fn update_system_properties_required(
    docs: &mut Vec<DocumentType>,
    i: usize,
    which: usize,
    required: bool,
)
    ensures
        documents_view(final(docs)@) == tree_after(
            documents_view(old(docs)@),
            MsgView::UpdateSystemPropertiesRequired(i, which, required),
        ),
{
    if i < docs.len() {
        let ghost before = docs@;
        if which == 0 {
            docs[i].created_at_required = required;
        } else if which == 1 {
            docs[i].updated_at_required = required;
        }
        proof {
            lemma_documents_set(before, docs@, i as int);
        }
    }
}

fn update_index_property(docs: &mut Vec<DocumentType>, i: usize, j: usize, k: usize, field: String)
    ensures
        documents_view(final(docs)@) == tree_after(
            documents_view(old(docs)@),
            MsgView::UpdateIndexProperty(i, j, k, field@),
        ),
{
    if i < docs.len() {
        let ghost before = docs@;
        if j < docs[i].indices.len() {
            if k < docs[i].indices[j].properties.len() {
                docs[i].indices[j].properties[k].0 = field;
                proof {
                    let was = before[i as int].indices[j as int];
                    let now = docs[i as int].indices[j as int];
                    assert(now@.properties =~= was@.properties.update(
                        k as int,
                        IndexPropertiesView { field: field@, ..was@.properties[k as int] },
                    ));
                    lemma_indices_set(before[i as int].indices@, docs[i as int].indices@, j as int);
                    lemma_documents_set(before, docs@, i as int);
                }
            } else {
                proof {
                    let d = before[i as int]@;
                    assert(d.indices.update(j as int, d.indices[j as int]) =~= d.indices);
                    assert(documents_view(docs@) =~= documents_view(before).update(i as int, d));
                }
            }
        } else {
            assert(documents_view(docs@) =~= documents_view(before).update(
                i as int,
                before[i as int]@,
            ));
        }
    }
}

impl Property {
    /// Adds a property inside this one.
    pub fn add_inner(&mut self)
        ensures
            final(self)@ == inner_added(old(self)@),
    {
        let mut q = Property::default();
        let none: Vec<String> = Vec::new();
        assert(texts_view(none@) =~= Seq::empty());
        q.rec_required = Some(none);
        proof {
            lemma_inner_view(*old(self));
        }
        let mut inner = match self.properties.take() {
            Some(v) => v,
            None => Vec::new(),
        };
        let ghost before = properties_view(inner@);
        inner.push(q);
        assert(properties_view(inner@) =~= before.push(blank_inner()));
        self.properties = Some(inner);
        proof {
            lemma_inner_view(*self);
            if old(self).properties is None {
                assert(before.push(blank_inner()) =~= seq![blank_inner()]);
            }
        }
    }

    /// Takes the inner property `k` out of this one, if there is such a
    /// property.
    pub fn remove_inner(&mut self, k: usize)
        ensures
            final(self)@ == inner_removed(old(self)@, k as int),
    {
        proof {
            lemma_inner_view(*old(self));
        }
        match self.properties.take() {
            Some(mut inner) => {
                let ghost before = properties_view(inner@);
                if k < inner.len() {
                    let gone = inner.remove(k);
                    assert(properties_view(inner@) =~= before.remove(k as int));
                    match self.rec_required.take() {
                        Some(mut names) => {
                            drop_name(&mut names, gone.name.as_str());
                            self.rec_required = Some(names);
                        },
                        None => {},
                    }
                }
                self.properties = Some(inner);
                proof {
                    lemma_inner_view(*self);
                }
            },
            None => {},
        }
    }

    /// Makes one change to the inner property `k` of this one, if there is
    /// such a property.
    pub fn apply_inner(&mut self, k: usize, e: PropertyEdit)
        ensures
            final(self)@ == set_inner(
                old(self)@,
                k as int,
                edited(old(self)@.properties.unwrap()[k as int], e@),
            ),
    {
        proof {
            lemma_inner_view(*old(self));
        }
        match self.properties.take() {
            Some(mut inner) => {
                let ghost before = inner@;
                if k < inner.len() {
                    inner[k].apply(e);
                    proof {
                        lemma_properties_set(before, inner@, k as int);
                    }
                }
                self.properties = Some(inner);
                proof {
                    lemma_inner_view(*self);
                }
            },
            None => {},
        }
    }
}

fn add_rec_property(docs: &mut Vec<DocumentType>, i: usize, j: usize)
    ensures
        documents_view(final(docs)@) == tree_after(
            documents_view(old(docs)@),
            MsgView::AddRecProperty(i, j),
        ),
{
    if i < docs.len() {
        let ghost before = docs@;
        if j < docs[i].properties.len() {
            docs[i].properties[j].add_inner();
            proof {
                lemma_properties_set(
                    before[i as int].properties@,
                    docs[i as int].properties@,
                    j as int,
                );
                lemma_documents_set(before, docs@, i as int);
            }
        } else {
            assert(documents_view(docs@) =~= documents_view(before).update(
                i as int,
                before[i as int]@,
            ));
        }
    }
}

fn remove_rec_property(docs: &mut Vec<DocumentType>, i: usize, j: usize, k: usize)
    ensures
        documents_view(final(docs)@) == tree_after(
            documents_view(old(docs)@),
            MsgView::RemoveRecProperty(i, j, k),
        ),
{
    if i < docs.len() {
        let ghost before = docs@;
        if j < docs[i].properties.len() {
            docs[i].properties[j].remove_inner(k);
            proof {
                lemma_properties_set(
                    before[i as int].properties@,
                    docs[i as int].properties@,
                    j as int,
                );
                lemma_documents_set(before, docs@, i as int);
            }
        } else {
            assert(documents_view(docs@) =~= documents_view(before).update(
                i as int,
                before[i as int]@,
            ));
        }
    }
}

fn update_rec_property(docs: &mut Vec<DocumentType>, i: usize, j: usize, k: usize, e: PropertyEdit)
    ensures
        documents_view(final(docs)@) == tree_after(
            documents_view(old(docs)@),
            MsgView::UpdateRecProperty(i, j, k, e@),
        ),
{
    if i < docs.len() {
        let ghost before = docs@;
        if j < docs[i].properties.len() {
            docs[i].properties[j].apply_inner(k, e);
            proof {
                lemma_properties_set(
                    before[i as int].properties@,
                    docs[i as int].properties@,
                    j as int,
                );
                lemma_documents_set(before, docs@, i as int);
            }
        } else {
            assert(documents_view(docs@) =~= documents_view(before).update(
                i as int,
                before[i as int]@,
            ));
        }
    }
}

/// What is to be done outside the library after a message.
#[derive(Clone, Debug, PartialEq, Eq)]
pub enum Effect {
    Nothing,
    /// Have the validator check the contract with this text, and hand its
    /// report back as [`Msg::ReceiveValidation`].
    Validate(String),
    /// Send this prompt to the language model, and hand what came of it back
    /// as [`Msg::ReceiveSchema`].
    Ask(String),
}

/// What an [`Effect`] stands for.
pub enum EffectView {
    Nothing,
    Validate(Seq<char>),
    Ask(Seq<char>),
}

impl View for Effect {
    type V = EffectView;

    open spec fn view(&self) -> EffectView {
        match self {
            Effect::Nothing => EffectView::Nothing,
            Effect::Validate(text) => EffectView::Validate(text@),
            Effect::Ask(prompt) => EffectView::Ask(prompt@),
        }
    }
}

/// The state of an editing session.
#[derive(Clone, Debug, PartialEq, Eq)]
pub struct Model {
    /// The tree that the form shows and changes.
    pub document_types: Vec<DocumentType>,
    /// The contract as it was last exported; an object without members where
    /// nothing was exported yet.
    pub json_object: Json,
    /// The text that was pasted to be imported.
    pub imported_json: String,
    /// What the validator found in the contract that was last exported.
    pub error_messages: Vec<String>,
    /// What was typed for the language model.
    pub prompt: String,
    /// The text of the current contract, which a prompt for a change holds.
    pub schema: String,
    /// The prompt of the request that is under way.
    pub temp_prompt: Option<String>,
    /// The prompts that led to a contract.
    pub history: Vec<String>,
    /// Whether a request to the language model is under way.
    pub loading: bool,
    /// What went wrong with the language model or with taking the contract to
    /// the validator.
    pub error_messages_ai: Vec<String>,
}

/// What a [`Model`] stands for.
pub struct ModelView {
    pub document_types: Seq<DocumentTypeView>,
    pub json_object: JsonValue,
    pub imported_json: Seq<char>,
    pub error_messages: Seq<Seq<char>>,
    pub prompt: Seq<char>,
    pub schema: Seq<char>,
    pub temp_prompt: Option<Seq<char>>,
    pub history: Seq<Seq<char>>,
    pub loading: bool,
    pub error_messages_ai: Seq<Seq<char>>,
}

impl View for Model {
    type V = ModelView;

    open spec fn view(&self) -> ModelView {
        ModelView {
            document_types: documents_view(self.document_types@),
            json_object: self.json_object@,
            imported_json: self.imported_json@,
            error_messages: texts_view(self.error_messages@),
            prompt: self.prompt@,
            schema: self.schema@,
            temp_prompt: text_view(self.temp_prompt),
            history: texts_view(self.history@),
            loading: self.loading,
            error_messages_ai: texts_view(self.error_messages_ai@),
        }
    }
}

/// A contract without document types.
pub open spec fn no_contract() -> JsonValue {
    JsonValue::Object(Seq::empty())
}

/// The state in which a session begins: one blank document type, and nothing
/// else.
pub open spec fn initial() -> ModelView {
    ModelView {
        document_types: seq![blank_document()],
        json_object: no_contract(),
        imported_json: Seq::empty(),
        error_messages: Seq::empty(),
        prompt: Seq::empty(),
        schema: Seq::empty(),
        temp_prompt: None,
        history: Seq::empty(),
        loading: false,
        error_messages_ai: Seq::empty(),
    }
}

/// The state after an export: the `required` lists of the tree are up to
/// date, the contract and its text are those of the tree, and no pasted text
/// is pending.
pub open spec fn submitted(m: ModelView) -> ModelView {
    ModelView {
        document_types: derived_contract(m.document_types),
        json_object: exported(m.document_types),
        schema: json_text(exported(m.document_types)),
        imported_json: Seq::empty(),
        ..m
    }
}

/// The state after the report of the validator came in: its basic findings
/// are the validation errors; where it could not take the contract, what it
/// says is added to the other errors, and those are shown in place of
/// validation errors.
pub open spec fn validated(m: ModelView, v: ValidationView) -> ModelView {
    match v {
        ValidationView::Checked(found) => ModelView { error_messages: shown(found), ..m },
        ValidationView::Rejected(why) => ModelView {
            error_messages: m.error_messages_ai.push(why),
            error_messages_ai: m.error_messages_ai.push(why),
            ..m
        },
    }
}

/// The state after a message.
pub open spec fn after(m: ModelView, msg: MsgView) -> ModelView {
    match msg {
        MsgView::Submit => submitted(m),
        MsgView::Import => submitted(
            ModelView { document_types: imported_text(m.imported_json), ..m },
        ),
        MsgView::UpdateImportedJson(text) => ModelView { imported_json: text, schema: text, ..m },
        MsgView::Clear => ModelView {
            document_types: seq![blank_document()],
            json_object: no_contract(),
            imported_json: Seq::empty(),
            error_messages: Seq::empty(),
            schema: Seq::empty(),
            ..m
        },
        MsgView::UpdatePrompt(text) => ModelView { prompt: text, ..m },
        MsgView::GenerateSchema => if m.loading {
            m
        } else {
            ModelView {
                temp_prompt: Some(m.prompt),
                error_messages_ai: Seq::empty(),
                loading: true,
                prompt: Seq::empty(),
                ..m
            }
        },
        MsgView::ReceiveSchema(Ok(text)) => submitted(
            ModelView {
                document_types: imported_text(text),
                history: match m.temp_prompt {
                    Some(p) => m.history.push(p),
                    None => m.history,
                },
                temp_prompt: None,
                loading: false,
                ..m
            },
        ),
        MsgView::ReceiveSchema(Err(why)) => ModelView {
            error_messages_ai: seq![why],
            loading: false,
            ..m
        },
        MsgView::ClearInput => ModelView { prompt: Seq::empty(), ..m },
        MsgView::ReceiveValidation(v) => validated(m, v),
        _ => ModelView { document_types: tree_after(m.document_types, msg), ..m },
    }
}

/// What is to be done outside the library after a message, in the state that
/// the message met.
pub open spec fn effect_of(m: ModelView, msg: MsgView) -> EffectView {
    match msg {
        MsgView::Submit => EffectView::Validate(after(m, msg).schema),
        MsgView::Import => EffectView::Validate(after(m, msg).schema),
        MsgView::ReceiveSchema(Ok(_)) => EffectView::Validate(after(m, msg).schema),
        MsgView::GenerateSchema => if m.loading {
            EffectView::Nothing
        } else {
            EffectView::Ask(composed(m.schema, m.prompt))
        },
        _ => EffectView::Nothing,
    }
}

impl Model {
    /// The state in which a session begins.
    pub fn create() -> (r: Model)
        ensures
            r@ == initial(),
    {
        let mut document_types: Vec<DocumentType> = Vec::new();
        document_types.push(DocumentType::default());
        let members: Vec<(String, Json)> = Vec::new();
        let r = Model {
            document_types,
            json_object: Json::Object(members),
            imported_json: String::new(),
            error_messages: Vec::new(),
            prompt: String::new(),
            schema: String::new(),
            temp_prompt: None,
            history: Vec::new(),
            loading: false,
            error_messages_ai: Vec::new(),
        };
        proof {
            lemma_object_view(members);
            assert(members_view(members@) =~= Seq::empty());
            assert(r@.document_types =~= seq![blank_document()]);
            assert(r@.error_messages =~= Seq::empty());
            assert(r@.history =~= Seq::empty());
            assert(r@.error_messages_ai =~= Seq::empty());
        }
        r
    }

    /// Exports the tree: makes its `required` lists anew, returns the
    /// contract and keeps its text as the current schema.
    pub fn generate_json_object(&mut self) -> (j: Json)
        ensures
            j@ == exported(old(self)@.document_types),
            final(self)@ == (ModelView {
                document_types: derived_contract(old(self)@.document_types),
                schema: json_text(exported(old(self)@.document_types)),
                ..old(self)@
            }),
    {
        let j = export_contract(&mut self.document_types);
        proof {
            lemma_contract_representable(old(self)@.document_types);
        }
        self.schema = render(&j);
        j
    }

    /// Reads the pasted text as a contract, which takes the place of the
    /// tree. A text that is no contract leaves a tree without document types.
    pub fn parse_imported_json(&mut self)
        ensures
            final(self)@ == (ModelView {
                document_types: imported_text(old(self)@.imported_json),
                ..old(self)@
            }),
    {
        self.document_types = import_text(self.imported_json.as_str());
    }

    /// Takes in the report of the validator on the contract that was last
    /// exported, and returns what a user is shown as validation errors.
    pub fn validate(&mut self, report: Validation) -> (r: Vec<String>)
        ensures
            texts_view(r@) == validated(old(self)@, report@).error_messages,
            final(self)@ == (ModelView {
                error_messages: old(self)@.error_messages,
                ..validated(old(self)@, report@)
            }),
    {
        match report {
            Validation::Checked(found) => extract_basic_error_messages(&found),
            Validation::Rejected(why) => {
                let ghost before = texts_view(self.error_messages_ai@);
                let ghost w = why@;
                self.error_messages_ai.push(why);
                assert(texts_view(self.error_messages_ai@) =~= before.push(w));
                copy_texts(&self.error_messages_ai)
            },
        }
    }

    fn submit(&mut self)
        ensures
            final(self)@ == submitted(old(self)@),
    {
        let j = self.generate_json_object();
        self.json_object = j;
        self.imported_json = String::new();
    }

    /// Takes one message: changes the state as the message says, and returns
    /// what is to be done outside the library. A message for a place that the
    /// tree does not have changes nothing.
    pub fn update(&mut self, msg: Msg) -> (effect: Effect)
        ensures
            final(self)@ == after(old(self)@, msg@),
            effect@ == effect_of(old(self)@, msg@),
    {
        match msg {
            Msg::Submit => {
                self.submit();
                Effect::Validate(self.schema.clone())
            },
            Msg::AddDocumentType => {
                add_document_type(&mut self.document_types);
                Effect::Nothing
            },
            Msg::RemoveDocumentType(i) => {
                remove_document_type(&mut self.document_types, i);
                Effect::Nothing
            },
            Msg::AddProperty(i) => {
                add_property(&mut self.document_types, i);
                Effect::Nothing
            },
            Msg::RemoveProperty(i, j) => {
                remove_property(&mut self.document_types, i, j);
                Effect::Nothing
            },
            Msg::AddIndex(i) => {
                add_index(&mut self.document_types, i);
                Effect::Nothing
            },
            Msg::RemoveIndex(i, j) => {
                remove_index(&mut self.document_types, i, j);
                Effect::Nothing
            },
            Msg::AddIndexProperty(i, j) => {
                add_index_property(&mut self.document_types, i, j);
                Effect::Nothing
            },
            Msg::RemoveIndexProperty(i, j, k) => {
                remove_index_property(&mut self.document_types, i, j, k);
                Effect::Nothing
            },
            Msg::UpdateName(i, name) => {
                update_name(&mut self.document_types, i, name);
                Effect::Nothing
            },
            Msg::UpdateComment(i, comment) => {
                update_comment(&mut self.document_types, i, comment);
                Effect::Nothing
            },
            Msg::UpdateProperty(i, j, e) => {
                update_property(&mut self.document_types, i, j, e);
                Effect::Nothing
            },
            Msg::UpdateIndexName(i, j, name) => {
                update_index_name(&mut self.document_types, i, j, name);
                Effect::Nothing
            },
            Msg::UpdateIndexUnique(i, j, unique) => {
                update_index_unique(&mut self.document_types, i, j, unique);
                Effect::Nothing
            },
            Msg::UpdateSystemPropertiesRequired(i, which, required) => {
                update_system_properties_required(&mut self.document_types, i, which, required);
                Effect::Nothing
            },
            Msg::UpdateIndexProperty(i, j, k, field) => {
                update_index_property(&mut self.document_types, i, j, k, field);
                Effect::Nothing
            },
            Msg::AddRecProperty(i, j) => {
                add_rec_property(&mut self.document_types, i, j);
                Effect::Nothing
            },
            Msg::RemoveRecProperty(i, j, k) => {
                remove_rec_property(&mut self.document_types, i, j, k);
                Effect::Nothing
            },
            Msg::UpdateRecProperty(i, j, k, e) => {
                update_rec_property(&mut self.document_types, i, j, k, e);
                Effect::Nothing
            },
            Msg::Import => {
                self.parse_imported_json();
                self.submit();
                Effect::Validate(self.schema.clone())
            },
            Msg::UpdateImportedJson(text) => {
                self.imported_json = text.clone();
                self.schema = text;
                Effect::Nothing
            },
            Msg::Clear => {
                let fresh = Model::create();
                self.document_types = fresh.document_types;
                self.json_object = fresh.json_object;
                self.imported_json = String::new();
                self.schema = String::new();
                self.error_messages = Vec::new();
                assert(self@.error_messages =~= Seq::empty());
                Effect::Nothing
            },
            Msg::UpdatePrompt(text) => {
                self.prompt = text;
                Effect::Nothing
            },
            Msg::GenerateSchema => {
                if self.loading {
                    Effect::Nothing
                } else {
                    let prompt = compose_prompt(self.schema.as_str(), self.prompt.as_str());
                    let mut typed = String::new();
                    core::mem::swap(&mut typed, &mut self.prompt);
                    self.temp_prompt = Some(typed);
                    self.error_messages_ai = Vec::new();
                    assert(self@.error_messages_ai =~= Seq::empty());
                    self.loading = true;
                    Effect::Ask(prompt)
                }
            },
            Msg::ReceiveSchema(result) => {
                match result {
                    Ok(text) => {
                        match self.temp_prompt.take() {
                            Some(p) => {
                                let ghost before = texts_view(self.history@);
                                let ghost pv = p@;
                                self.history.push(p);
                                assert(texts_view(self.history@) =~= before.push(pv));
                            },
                            None => {},
                        }
                        self.imported_json = text;
                        self.parse_imported_json();
                        self.submit();
                        self.loading = false;
                        Effect::Validate(self.schema.clone())
                    },
                    Err(why) => {
                        let mut errors: Vec<String> = Vec::new();
                        let ghost w = why@;
                        errors.push(why);
                        assert(texts_view(errors@) =~= seq![w]);
                        self.error_messages_ai = errors;
                        self.loading = false;
                        Effect::Nothing
                    },
                }
            },
            Msg::ClearInput => {
                self.prompt = String::new();
                Effect::Nothing
            },
            Msg::ReceiveValidation(report) => {
                let shown = self.validate(report);
                self.error_messages = shown;
                Effect::Nothing
            },
        }
    }
}

/// What the panel for the validation shows.
#[derive(Clone, Copy, Debug, PartialEq, Eq, Structural)]
pub enum Panel {
    /// The validation errors.
    Errors,
    /// That the contract passes.
    Passing,
    /// Nothing.
    Blank,
}

/// Whether a contract was exported that has a document type.
pub open spec fn has_contract(m: ModelView) -> bool {
    m.json_object matches JsonValue::Object(members) && members.len() > 0
}

/// What the panel for the validation shows: the errors, if there are any and
/// no pasted text is pending; that the contract passes, if there are none, no
/// pasted text is pending and a contract was exported; else nothing.
pub open spec fn panel_of(m: ModelView) -> Panel {
    if m.imported_json.len() == 0 && m.error_messages.len() > 0 {
        Panel::Errors
    } else if m.imported_json.len() == 0 && m.error_messages.len() == 0 && has_contract(m) {
        Panel::Passing
    } else {
        Panel::Blank
    }
}

/// The property `k` inside `p`, if there is one.
pub open spec fn inner_at(p: PropertyView, k: int) -> Option<PropertyView> {
    match p.properties {
        Some(inner) => if 0 <= k < inner.len() {
            Some(inner[k])
        } else {
            None
        },
        None => None,
    }
}

impl Property {
    /// The property `k` inside this one, if there is one.
    pub fn inner(&self, k: usize) -> (r: Option<&Property>)
        ensures
            match r {
                Some(q) => inner_at(self@, k as int) == Some(q@),
                None => inner_at(self@, k as int) is None,
            },
    {
        proof {
            lemma_inner_view(*self);
        }
        match &self.properties {
            Some(inner) => if k < inner.len() {
                Some(&inner[k])
            } else {
                None
            },
            None => None,
        }
    }
}

/// Whether two lists hold the same texts in the same order.
fn same_texts(a: &Vec<String>, b: &Vec<String>) -> (r: bool)
    ensures
        r == (texts_view(a@) == texts_view(b@)),
{
    if a.len() != b.len() {
        assert(texts_view(a@).len() != texts_view(b@).len());
        return false;
    }
    let mut i: usize = 0;
    while i < a.len()
        invariant
            i <= a.len(),
            a.len() == b.len(),
            forall|k: int| 0 <= k < i ==> a[k]@ == b[k]@,
        decreases a.len() - i,
    {
        if !same_text(a[i].as_str(), b[i].as_str()) {
            assert(texts_view(a@)[i as int] != texts_view(b@)[i as int]);
            return false;
        }
        i = i + 1;
    }
    assert(texts_view(a@) =~= texts_view(b@));
    true
}

impl Model {
    /// Whether the errors beside the validation errors are shown: they are,
    /// unless the two lists are the same.
    pub fn shows_other_errors(&self) -> (r: bool)
        ensures
            r == (self@.error_messages_ai != self@.error_messages),
    {
        !same_texts(&self.error_messages_ai, &self.error_messages)
    }

    /// The text of the contract that was last exported, if one was exported
    /// that has a document type.
    pub fn contract_text(&self) -> (r: Option<String>)
        ensures
            match r {
                Some(text) => has_contract(self@) && self@.json_object.representable() && text@
                    == json_text(self@.json_object),
                None => !has_contract(self@) || !self@.json_object.representable(),
            },
    {
        if self.has_contract() {
            render_checked(&self.json_object)
        } else {
            None
        }
    }

    /// Whether a contract was exported that has a document type.
    pub fn has_contract(&self) -> (r: bool)
        ensures
            r == has_contract(self@),
    {
        match &self.json_object {
            Json::Object(members) => {
                proof {
                    lemma_object_view(*members);
                }
                members.len() > 0
            },
            _ => false,
        }
    }

    /// What the panel for the validation shows.
    pub fn panel(&self) -> (r: Panel)
        ensures
            r == panel_of(self@),
    {
        if self.imported_json.as_str().is_empty() && self.error_messages.len() > 0 {
            Panel::Errors
        } else if self.imported_json.as_str().is_empty() && self.error_messages.len() == 0
            && self.has_contract() {
            Panel::Passing
        } else {
            Panel::Blank
        }
    }

    /// The document type `i`, if there is one.
    pub fn document_type(&self, i: usize) -> (r: Option<&DocumentType>)
        ensures
            match r {
                Some(d) => i < self@.document_types.len() && self@.document_types[i as int] == d@,
                None => i >= self@.document_types.len(),
            },
    {
        if i < self.document_types.len() {
            Some(&self.document_types[i])
        } else {
            None
        }
    }

    /// The property `j` of the document type `i`, if there is one.
    pub fn property(&self, i: usize, j: usize) -> (r: Option<&Property>)
        ensures
            match r {
                Some(p) => i < self@.document_types.len() && j
                    < self@.document_types[i as int].properties.len()
                    && self@.document_types[i as int].properties[j as int] == p@,
                None => i >= self@.document_types.len() || j
                    >= self@.document_types[i as int].properties.len(),
            },
    {
        if i < self.document_types.len() && j < self.document_types[i].properties.len() {
            Some(&self.document_types[i].properties[j])
        } else {
            None
        }
    }

    /// The property `k` inside the property `j` of the document type `i`, if
    /// there is one.
    pub fn rec_property(&self, i: usize, j: usize, k: usize) -> (r: Option<&Property>)
        ensures
            match r {
                Some(q) => i < self@.document_types.len() && j
                    < self@.document_types[i as int].properties.len() && inner_at(
                    self@.document_types[i as int].properties[j as int],
                    k as int,
                ) == Some(q@),
                None => i >= self@.document_types.len() || j
                    >= self@.document_types[i as int].properties.len() || inner_at(
                    self@.document_types[i as int].properties[j as int],
                    k as int,
                ) is None,
            },
    {
        match self.property(i, j) {
            Some(p) => p.inner(k),
            None => None,
        }
    }

    /// The index `j` of the document type `i`, if there is one.
    pub fn index(&self, i: usize, j: usize) -> (r: Option<&Index>)
        ensures
            match r {
                Some(ix) => i < self@.document_types.len() && j
                    < self@.document_types[i as int].indices.len()
                    && self@.document_types[i as int].indices[j as int] == ix@,
                None => i >= self@.document_types.len() || j
                    >= self@.document_types[i as int].indices.len(),
            },
    {
        if i < self.document_types.len() && j < self.document_types[i].indices.len() {
            Some(&self.document_types[i].indices[j])
        } else {
            None
        }
    }
}

} // verus!
