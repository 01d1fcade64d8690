//! The typed tree of a data contract: document types, their properties and
//! indices, and what each of them stands for.

use crate::text::same_text;
use vstd::prelude::*;

verus! {

/// The kinds of value that a property can hold.
#[derive(Clone, Copy, Debug, PartialEq, Eq, Structural)]
pub enum DataType {
    String,
    Integer,
    Array,
    Object,
    Number,
    Boolean,
}

/// The word that stands for a data type under `"type"` in a contract.
pub open spec fn type_tag(t: DataType) -> Seq<char> {
    match t {
        DataType::String => "string"@,
        DataType::Integer => "integer"@,
        DataType::Array => "array"@,
        DataType::Object => "object"@,
        DataType::Number => "number"@,
        DataType::Boolean => "boolean"@,
    }
}

/// The data type that a word under `"type"` stands for.
pub open spec fn tag_type(tag: Seq<char>) -> Option<DataType> {
    if tag == "string"@ {
        Some(DataType::String)
    } else if tag == "integer"@ {
        Some(DataType::Integer)
    } else if tag == "array"@ {
        Some(DataType::Array)
    } else if tag == "object"@ {
        Some(DataType::Object)
    } else if tag == "number"@ {
        Some(DataType::Number)
    } else if tag == "boolean"@ {
        Some(DataType::Boolean)
    } else {
        None
    }
}

/// The name under which a form offers a data type.
pub open spec fn type_label(t: DataType) -> Seq<char> {
    match t {
        DataType::String => "String"@,
        DataType::Integer => "Integer"@,
        DataType::Array => "Array"@,
        DataType::Object => "Object"@,
        DataType::Number => "Number"@,
        DataType::Boolean => "Boolean"@,
    }
}

/// The data type that a form offers under a name.
pub open spec fn label_type(label: Seq<char>) -> Option<DataType> {
    if label == "String"@ {
        Some(DataType::String)
    } else if label == "Integer"@ {
        Some(DataType::Integer)
    } else if label == "Array"@ {
        Some(DataType::Array)
    } else if label == "Object"@ {
        Some(DataType::Object)
    } else if label == "Number"@ {
        Some(DataType::Number)
    } else if label == "Boolean"@ {
        Some(DataType::Boolean)
    } else {
        None
    }
}

/// Each data type is found again from its tag.
pub proof fn lemma_tag_type(t: DataType)
    ensures
        tag_type(type_tag(t)) == Some(t),
{
    reveal_strlit("string");
    reveal_strlit("integer");
    reveal_strlit("array");
    reveal_strlit("object");
    reveal_strlit("number");
    reveal_strlit("boolean");
    assert("array"@[0] != "object"@[0]);
    assert("array"@[0] != "number"@[0]);
    assert("string"@[0] != "object"@[0]);
    assert("string"@[0] != "number"@[0]);
    assert("object"@[0] != "number"@[0]);
    assert("integer"@[0] != "boolean"@[0]);
}

/// Each data type is found again from the name that a form gives it.
pub proof fn lemma_label_type(t: DataType)
    ensures
        label_type(type_label(t)) == Some(t),
{
    reveal_strlit("String");
    reveal_strlit("Integer");
    reveal_strlit("Array");
    reveal_strlit("Object");
    reveal_strlit("Number");
    reveal_strlit("Boolean");
    assert("Array"@[0] != "Object"@[0]);
    assert("Array"@[0] != "Number"@[0]);
    assert("String"@[0] != "Object"@[0]);
    assert("String"@[0] != "Number"@[0]);
    assert("Object"@[0] != "Number"@[0]);
    assert("Integer"@[0] != "Boolean"@[0]);
}

impl DataType {
    /// The word that stands for this data type in a contract.
    pub fn tag(self) -> (r: &'static str)
        ensures
            r@ == type_tag(self),
    {
        match self {
            DataType::String => "string",
            DataType::Integer => "integer",
            DataType::Array => "array",
            DataType::Object => "object",
            DataType::Number => "number",
            DataType::Boolean => "boolean",
        }
    }

    /// The data type that `tag` stands for in a contract, if it is one.
    pub fn from_tag(tag: &str) -> (r: Option<DataType>)
        ensures
            r == tag_type(tag@),
    {
        if same_text(tag, "string") {
            Some(DataType::String)
        } else if same_text(tag, "integer") {
            Some(DataType::Integer)
        } else if same_text(tag, "array") {
            Some(DataType::Array)
        } else if same_text(tag, "object") {
            Some(DataType::Object)
        } else if same_text(tag, "number") {
            Some(DataType::Number)
        } else if same_text(tag, "boolean") {
            Some(DataType::Boolean)
        } else {
            None
        }
    }

    /// The name under which a form offers this data type.
    pub fn label(self) -> (r: &'static str)
        ensures
            r@ == type_label(self),
    {
        match self {
            DataType::String => "String",
            DataType::Integer => "Integer",
            DataType::Array => "Array",
            DataType::Object => "Object",
            DataType::Number => "Number",
            DataType::Boolean => "Boolean",
        }
    }

    /// The data type that a form offers under `label`, if it offers one.
    pub fn from_label(label: &str) -> (r: Option<DataType>)
        ensures
            r == label_type(label@),
    {
        if same_text(label, "String") {
            Some(DataType::String)
        } else if same_text(label, "Integer") {
            Some(DataType::Integer)
        } else if same_text(label, "Array") {
            Some(DataType::Array)
        } else if same_text(label, "Object") {
            Some(DataType::Object)
        } else if same_text(label, "Number") {
            Some(DataType::Number)
        } else if same_text(label, "Boolean") {
            Some(DataType::Boolean)
        } else {
            None
        }
    }
}

impl Default for DataType {
    fn default() -> (r: DataType)
        ensures
            r == DataType::String,
    {
        DataType::String
    }
}

/// A property of a document type, or of an object property.
///
/// The fields from `min_length` on belong to one data type each; a property
/// keeps whatever it was given, and a change of its data type resets them.
#[derive(Debug, PartialEq, Eq)]
pub struct Property {
    pub name: String,
    pub data_type: DataType,
    pub required: bool,
    pub description: Option<String>,
    pub comment: Option<String>,
    pub min_length: Option<u32>,
    pub max_length: Option<u32>,
    pub pattern: Option<String>,
    pub format: Option<String>,
    pub minimum: Option<i32>,
    pub maximum: Option<i32>,
    pub byte_array: Option<bool>,
    pub min_items: Option<u32>,
    pub max_items: Option<u32>,
    pub content_media_type: Option<String>,
    /// The properties inside an object property.
    pub properties: Option<Vec<Property>>,
    pub min_properties: Option<u32>,
    pub max_properties: Option<u32>,
    /// The names of the required inner properties, as the last export wrote
    /// them. An export makes the list anew.
    pub rec_required: Option<Vec<String>>,
    pub additional_properties: Option<bool>,
}

/// What a [`Property`] stands for.
pub struct PropertyView {
    pub name: Seq<char>,
    pub data_type: DataType,
    pub required: bool,
    pub description: Option<Seq<char>>,
    pub comment: Option<Seq<char>>,
    pub min_length: Option<u32>,
    pub max_length: Option<u32>,
    pub pattern: Option<Seq<char>>,
    pub format: Option<Seq<char>>,
    pub minimum: Option<i32>,
    pub maximum: Option<i32>,
    pub byte_array: Option<bool>,
    pub min_items: Option<u32>,
    pub max_items: Option<u32>,
    pub content_media_type: Option<Seq<char>>,
    pub properties: Option<Seq<PropertyView>>,
    pub min_properties: Option<u32>,
    pub max_properties: Option<u32>,
    pub rec_required: Option<Seq<Seq<char>>>,
    pub additional_properties: Option<bool>,
}

/// The characters of a text that may be absent.
pub open spec fn text_view(t: Option<String>) -> Option<Seq<char>> {
    match t {
        Some(s) => Some(s@),
        None => None,
    }
}

/// The characters of each text of a list.
pub open spec fn texts_view(v: Seq<String>) -> Seq<Seq<char>> {
    Seq::new(v.len(), |i: int| v[i]@)
}

/// What a property stands for.
pub open spec fn property_value(p: Property) -> PropertyView
    decreases p,
{
    PropertyView {
        name: p.name@,
        data_type: p.data_type,
        required: p.required,
        description: text_view(p.description),
        comment: text_view(p.comment),
        min_length: p.min_length,
        max_length: p.max_length,
        pattern: text_view(p.pattern),
        format: text_view(p.format),
        minimum: p.minimum,
        maximum: p.maximum,
        byte_array: p.byte_array,
        min_items: p.min_items,
        max_items: p.max_items,
        content_media_type: text_view(p.content_media_type),
        properties: match p.properties {
            Some(v) => Some(
                Seq::new(
                    v@.len(),
                    |i: int|
                        if 0 <= i < v@.len() {
                            property_value(v@[i])
                        } else {
                            arbitrary()
                        },
                ),
            ),
            None => None,
        },
        min_properties: p.min_properties,
        max_properties: p.max_properties,
        rec_required: match p.rec_required {
            Some(v) => Some(texts_view(v@)),
            None => None,
        },
        additional_properties: p.additional_properties,
    }
}

impl View for Property {
    type V = PropertyView;

    open spec fn view(&self) -> PropertyView {
        property_value(*self)
    }
}

/// What each property of a list stands for.
pub open spec fn properties_view(v: Seq<Property>) -> Seq<PropertyView> {
    Seq::new(v.len(), |i: int| v[i]@)
}

/// The inner properties of a property stand for what each of them stands for.
pub proof fn lemma_inner_view(p: Property)
    ensures
        p@.properties == match p.properties {
            Some(v) => Some(properties_view(v@)),
            None => None::<Seq<PropertyView>>,
        },
{
    match p.properties {
        Some(v) => {
            assert(p@.properties->0 =~= properties_view(v@));
        },
        None => {},
    }
}

/// One field of an index with the order in which it is sorted. The only
/// order is `"asc"`: every field is read and written with it.
#[derive(Debug, PartialEq, Eq)]
pub struct IndexProperties(pub String, pub String);

/// What an [`IndexProperties`] stands for.
pub struct IndexPropertiesView {
    pub field: Seq<char>,
    pub order: Seq<char>,
}

impl View for IndexProperties {
    type V = IndexPropertiesView;

    open spec fn view(&self) -> IndexPropertiesView {
        IndexPropertiesView { field: self.0@, order: self.1@ }
    }
}

/// An index of a document type.
#[derive(Debug, PartialEq, Eq)]
pub struct Index {
    pub name: String,
    pub properties: Vec<IndexProperties>,
    pub unique: bool,
}

/// What an [`Index`] stands for.
pub struct IndexView {
    pub name: Seq<char>,
    pub properties: Seq<IndexPropertiesView>,
    pub unique: bool,
}

impl View for Index {
    type V = IndexView;

    open spec fn view(&self) -> IndexView {
        IndexView {
            name: self.name@,
            properties: Seq::new(self.properties@.len(), |i: int| self.properties@[i]@),
            unique: self.unique,
        }
    }
}

/// What each index of a list stands for.
pub open spec fn indices_view(v: Seq<Index>) -> Seq<IndexView> {
    Seq::new(v.len(), |i: int| v[i]@)
}

/// A document type of a contract.
#[derive(Debug, PartialEq, Eq)]
pub struct DocumentType {
    pub name: String,
    pub properties: Vec<Property>,
    pub indices: Vec<Index>,
    /// The names that the last export wrote as required. An export makes the
    /// list anew.
    pub required: Vec<String>,
    pub created_at_required: bool,
    pub updated_at_required: bool,
    pub additional_properties: bool,
    pub comment: String,
}

/// What a [`DocumentType`] stands for.
pub struct DocumentTypeView {
    pub name: Seq<char>,
    pub properties: Seq<PropertyView>,
    pub indices: Seq<IndexView>,
    pub required: Seq<Seq<char>>,
    pub created_at_required: bool,
    pub updated_at_required: bool,
    pub additional_properties: bool,
    pub comment: Seq<char>,
}

impl View for DocumentType {
    type V = DocumentTypeView;

    open spec fn view(&self) -> DocumentTypeView {
        DocumentTypeView {
            name: self.name@,
            properties: properties_view(self.properties@),
            indices: indices_view(self.indices@),
            required: texts_view(self.required@),
            created_at_required: self.created_at_required,
            updated_at_required: self.updated_at_required,
            additional_properties: self.additional_properties,
            comment: self.comment@,
        }
    }
}

/// What each document type of a list stands for.
pub open spec fn documents_view(v: Seq<DocumentType>) -> Seq<DocumentTypeView> {
    Seq::new(v.len(), |i: int| v[i]@)
}

/// A property as a form first shows it: a string property without a name, with
/// nothing set.
pub open spec fn blank_property() -> PropertyView {
    PropertyView {
        name: Seq::empty(),
        data_type: DataType::String,
        required: false,
        description: None,
        comment: None,
        min_length: None,
        max_length: None,
        pattern: None,
        format: None,
        minimum: None,
        maximum: None,
        byte_array: None,
        min_items: None,
        max_items: None,
        content_media_type: None,
        properties: None,
        min_properties: None,
        max_properties: None,
        rec_required: None,
        additional_properties: None,
    }
}

/// The property that carries what a newly chosen data type starts with: an
/// array is a byte array, and nothing else is set.
pub open spec fn type_defaults(t: DataType) -> PropertyView {
    PropertyView {
        data_type: t,
        byte_array: if t == DataType::Array {
            Some(true)
        } else {
            None
        },
        ..blank_property()
    }
}

/// `p` with another data type: name, required flag, description and comment
/// stay, every field that belongs to a data type becomes what the new type
/// starts with.
pub open spec fn retyped(p: PropertyView, t: DataType) -> PropertyView {
    PropertyView {
        name: p.name,
        required: p.required,
        description: p.description,
        comment: p.comment,
        ..type_defaults(t)
    }
}

impl Default for Property {
    fn default() -> (r: Property)
        ensures
            r@ == blank_property(),
    {
        Property {
            name: String::new(),
            data_type: DataType::String,
            required: false,
            description: None,
            comment: None,
            min_length: None,
            max_length: None,
            pattern: None,
            format: None,
            minimum: None,
            maximum: None,
            byte_array: None,
            min_items: None,
            max_items: None,
            content_media_type: None,
            properties: None,
            min_properties: None,
            max_properties: None,
            rec_required: None,
            additional_properties: None,
        }
    }
}

/// The property that carries what a newly chosen data type starts with.
pub fn default_additional_properties(data_type: DataType) -> (r: Property)
    ensures
        r@ == type_defaults(data_type),
{
    let mut p = Property::default();
    p.data_type = data_type;
    match data_type {
        DataType::Array => {
            p.byte_array = Some(true);
        },
        _ => {},
    }
    p
}

impl Property {
    /// Gives the property another data type and resets what belonged to the old
    /// one.
    pub fn set_data_type(&mut self, data_type: DataType)
        ensures
            final(self)@ == retyped(old(self)@, data_type),
            final(self).name == old(self).name,
            final(self).description == old(self).description,
            final(self).comment == old(self).comment,
    {
        let fresh = default_additional_properties(data_type);
        self.data_type = fresh.data_type;
        self.min_length = fresh.min_length;
        self.max_length = fresh.max_length;
        self.pattern = fresh.pattern;
        self.format = fresh.format;
        self.minimum = fresh.minimum;
        self.maximum = fresh.maximum;
        self.byte_array = fresh.byte_array;
        self.min_items = fresh.min_items;
        self.max_items = fresh.max_items;
        self.content_media_type = fresh.content_media_type;
        self.properties = fresh.properties;
        self.min_properties = fresh.min_properties;
        self.max_properties = fresh.max_properties;
        self.rec_required = fresh.rec_required;
        self.additional_properties = fresh.additional_properties;
    }
}

impl Default for IndexProperties {
    fn default() -> (r: IndexProperties)
        ensures
            r@.field == Seq::<char>::empty(),
            r@.order == "asc"@,
    {
        IndexProperties(String::new(), "asc".to_owned())
    }
}

impl Default for Index {
    fn default() -> (r: Index)
        ensures
            r@ == (IndexView { name: Seq::empty(), properties: Seq::empty(), unique: false }),
    {
        let r = Index { name: String::new(), properties: Vec::new(), unique: false };
        assert(r@.properties =~= Seq::empty());
        r
    }
}

/// A document type without a name, with nothing in it.
pub open spec fn blank_document() -> DocumentTypeView {
    DocumentTypeView {
        name: Seq::empty(),
        properties: Seq::empty(),
        indices: Seq::empty(),
        required: Seq::empty(),
        created_at_required: false,
        updated_at_required: false,
        additional_properties: false,
        comment: Seq::empty(),
    }
}

impl Default for DocumentType {
    fn default() -> (r: DocumentType)
        ensures
            r@ == blank_document(),
    {
        let r = DocumentType {
            name: String::new(),
            properties: Vec::new(),
            indices: Vec::new(),
            required: Vec::new(),
            created_at_required: false,
            updated_at_required: false,
            additional_properties: false,
            comment: String::new(),
        };
        assert(r@.properties =~= Seq::empty());
        assert(r@.indices =~= Seq::empty());
        assert(r@.required =~= Seq::empty());
        r
    }
}

/// A copy of a list of texts.
pub fn copy_texts(v: &Vec<String>) -> (r: Vec<String>)
    ensures
        texts_view(r@) == texts_view(v@),
{
    let mut out: Vec<String> = Vec::new();
    let mut i: usize = 0;
    while i < v.len()
        invariant
            i <= v.len(),
            out.len() == i,
            forall|k: int| 0 <= k < i ==> out[k]@ == v[k]@,
        decreases v.len() - i,
    {
        out.push(v[i].clone());
        i = i + 1;
    }
    assert(texts_view(out@) =~= texts_view(v@));
    out
}

fn copy_text(t: &Option<String>) -> (r: Option<String>)
    ensures
        text_view(r) == text_view(*t),
{
    match t {
        Some(s) => Some(s.clone()),
        None => None,
    }
}

impl Property {
    /// A copy of the property, with copies of the properties inside it.
    pub fn duplicate(&self) -> (r: Property)
        ensures
            r@ == self@,
        decreases self,
    {
        proof {
            lemma_inner_view(*self);
        }
        let properties = match &self.properties {
            Some(inner) => {
                let mut out: Vec<Property> = Vec::new();
                let mut k: usize = 0;
                while k < inner.len()
                    invariant
                        k <= inner.len(),
                        out.len() == k,
                        self.properties == Some(*inner),
                        self@.properties == Some(properties_view(inner@)),
                        forall|a: int| 0 <= a < k ==> out[a]@ == inner[a]@,
                    decreases inner.len() - k,
                {
                    proof {
                        vstd::std_specs::vec::axiom_vec_index_decreases(*inner, k as int);
                    }
                    let q = inner[k].duplicate();
                    out.push(q);
                    k = k + 1;
                }
                assert(properties_view(out@) =~= properties_view(inner@));
                Some(out)
            },
            None => None,
        };
        let rec_required = match &self.rec_required {
            Some(names) => Some(copy_texts(names)),
            None => None,
        };
        let r = Property {
            name: self.name.clone(),
            data_type: self.data_type,
            required: self.required,
            description: copy_text(&self.description),
            comment: copy_text(&self.comment),
            min_length: self.min_length,
            max_length: self.max_length,
            pattern: copy_text(&self.pattern),
            format: copy_text(&self.format),
            minimum: self.minimum,
            maximum: self.maximum,
            byte_array: self.byte_array,
            min_items: self.min_items,
            max_items: self.max_items,
            content_media_type: copy_text(&self.content_media_type),
            properties,
            min_properties: self.min_properties,
            max_properties: self.max_properties,
            rec_required,
            additional_properties: self.additional_properties,
        };
        proof {
            lemma_inner_view(r);
        }
        r
    }
}

impl Clone for Property {
    fn clone(&self) -> (r: Property)
        ensures
            r@ == self@,
    {
        self.duplicate()
    }
}

impl Clone for IndexProperties {
    fn clone(&self) -> (r: IndexProperties)
        ensures
            r@ == self@,
    {
        IndexProperties(self.0.clone(), self.1.clone())
    }
}

impl Clone for Index {
    fn clone(&self) -> (r: Index)
        ensures
            r@ == self@,
    {
        let mut properties: Vec<IndexProperties> = Vec::new();
        let mut k: usize = 0;
        while k < self.properties.len()
            invariant
                k <= self.properties.len(),
                properties.len() == k,
                forall|a: int| 0 <= a < k ==> properties[a]@ == self.properties[a]@,
            decreases self.properties.len() - k,
        {
            properties.push(self.properties[k].clone());
            k = k + 1;
        }
        let r = Index { name: self.name.clone(), properties, unique: self.unique };
        assert(r@.properties =~= self@.properties);
        r
    }
}

impl Clone for DocumentType {
    fn clone(&self) -> (r: DocumentType)
        ensures
            r@ == self@,
    {
        let mut properties: Vec<Property> = Vec::new();
        let mut k: usize = 0;
        while k < self.properties.len()
            invariant
                k <= self.properties.len(),
                properties.len() == k,
                forall|a: int| 0 <= a < k ==> properties[a]@ == self.properties[a]@,
            decreases self.properties.len() - k,
        {
            properties.push(self.properties[k].clone());
            k = k + 1;
        }
        let mut indices: Vec<Index> = Vec::new();
        let mut k: usize = 0;
        while k < self.indices.len()
            invariant
                k <= self.indices.len(),
                indices.len() == k,
                forall|a: int| 0 <= a < k ==> indices[a]@ == self.indices[a]@,
            decreases self.indices.len() - k,
        {
            indices.push(self.indices[k].clone());
            k = k + 1;
        }
        let r = DocumentType {
            name: self.name.clone(),
            properties,
            indices,
            required: copy_texts(&self.required),
            created_at_required: self.created_at_required,
            updated_at_required: self.updated_at_required,
            additional_properties: self.additional_properties,
            comment: self.comment.clone(),
        };
        proof {
            assert(r@.properties =~= self@.properties);
            assert(r@.indices =~= self@.indices);
        }
        r
    }
}

} // verus!
