//! Schema nodes of an API description, and their mathematical views.
//!
//! A schema is a tree whose leaves may point, by name, at the schemas that the
//! document keeps in its component table. The executable types own their
//! strings; every contract of the crate speaks of the views declared here,
//! in which a string is a `Seq<char>` and a list is a `Seq`.

use vstd::prelude::*;

verus! {

/// A schema given in place, or the textual reference to a named one.
#[derive(Debug)]
pub enum SchemaRef {
    Item(Box<Schema>),
    Reference(String),
}

/// An inline schema: its documentation and what it describes.
#[derive(Debug)]
pub struct Schema {
    pub description: Option<String>,
    pub kind: SchemaKind,
}

/// Whether a schema describes one plain type or is composed of several.
#[derive(Debug)]
pub enum SchemaKind {
    Type(SchemaType),
    /// A union, intersection, negation or untyped schema.
    Composite,
}

/// The six kinds of plain schema nodes.
#[derive(Debug)]
pub enum SchemaType {
    /// A string; the list holds the permitted values, if it is restricted.
    String(Vec<Option<String>>),
    Number,
    Integer,
    Boolean,
    /// An array; the schema of its items may be absent.
    Array(Option<SchemaRef>),
    Object(ObjectType),
}

/// The shape of an object schema.
#[derive(Debug)]
pub struct ObjectType {
    /// The properties in the order of their declaration.
    pub properties: Vec<(String, SchemaRef)>,
    /// The names of the properties that must be present.
    pub required: Vec<String>,
    pub additional_properties: AdditionalProperties,
}

/// What an object schema says of properties that it does not name.
#[derive(Debug)]
pub enum AdditionalProperties {
    /// Nothing is said.
    Absent,
    /// A plain yes or no.
    Any(bool),
    /// Every further property follows the schema.
    Schema(Box<SchemaRef>),
}

pub ghost enum SchemaRefView {
    Item(Box<SchemaView>),
    Reference(Seq<char>),
}

pub ghost struct SchemaView {
    pub description: Option<Seq<char>>,
    pub kind: SchemaKindView,
}

pub ghost enum SchemaKindView {
    Type(SchemaTypeView),
    Composite,
}

pub ghost enum SchemaTypeView {
    String(Seq<Option<Seq<char>>>),
    Number,
    Integer,
    Boolean,
    Array(Option<SchemaRefView>),
    Object(ObjectTypeView),
}

pub ghost struct ObjectTypeView {
    pub properties: Seq<(Seq<char>, SchemaRefView)>,
    pub required: Seq<Seq<char>>,
    pub additional_properties: AdditionalPropertiesView,
}

pub ghost enum AdditionalPropertiesView {
    Absent,
    Any(bool),
    Schema(Box<SchemaRefView>),
}

/// The text of an optional string.
pub open spec fn option_text(o: Option<String>) -> Option<Seq<char>> {
    match o {
        Some(s) => Some(s@),
        None => None,
    }
}

/// The texts of a list of strings.
pub open spec fn texts(v: Vec<String>) -> Seq<Seq<char>> {
    Seq::new(v@.len(), |i: int| v@[i]@)
}

pub open spec fn schema_ref_view(r: SchemaRef) -> SchemaRefView
    decreases r,
{
    match r {
        SchemaRef::Item(s) => SchemaRefView::Item(Box::new(schema_view(*s))),
        SchemaRef::Reference(target) => SchemaRefView::Reference(target@),
    }
}

pub open spec fn schema_view(s: Schema) -> SchemaView
    decreases s,
{
    SchemaView { description: option_text(s.description), kind: schema_kind_view(s.kind) }
}

pub open spec fn schema_kind_view(k: SchemaKind) -> SchemaKindView
    decreases k,
{
    match k {
        SchemaKind::Type(t) => SchemaKindView::Type(schema_type_view(t)),
        SchemaKind::Composite => SchemaKindView::Composite,
    }
}

pub open spec fn schema_type_view(t: SchemaType) -> SchemaTypeView
    decreases t,
{
    match t {
        SchemaType::String(values) => SchemaTypeView::String(
            Seq::new(values@.len(), |i: int| option_text(values@[i])),
        ),
        SchemaType::Number => SchemaTypeView::Number,
        SchemaType::Integer => SchemaTypeView::Integer,
        SchemaType::Boolean => SchemaTypeView::Boolean,
        SchemaType::Array(None) => SchemaTypeView::Array(None),
        SchemaType::Array(Some(items)) => SchemaTypeView::Array(Some(schema_ref_view(items))),
        SchemaType::Object(obj) => SchemaTypeView::Object(object_type_view(obj)),
    }
}

pub open spec fn object_type_view(obj: ObjectType) -> ObjectTypeView
    decreases obj,
{
    ObjectTypeView {
        properties: Seq::new(
            obj.properties@.len(),
            |i: int|
                if 0 <= i < obj.properties@.len() {
                    (obj.properties@[i].0@, schema_ref_view(obj.properties@[i].1))
                } else {
                    (Seq::empty(), SchemaRefView::Reference(Seq::empty()))
                },
        ),
        required: texts(obj.required),
        additional_properties: additional_properties_view(obj.additional_properties),
    }
}

pub open spec fn additional_properties_view(a: AdditionalProperties) -> AdditionalPropertiesView
    decreases a,
{
    match a {
        AdditionalProperties::Absent => AdditionalPropertiesView::Absent,
        AdditionalProperties::Any(b) => AdditionalPropertiesView::Any(b),
        AdditionalProperties::Schema(r) => AdditionalPropertiesView::Schema(
            Box::new(schema_ref_view(*r)),
        ),
    }
}

impl View for SchemaRef {
    type V = SchemaRefView;

    open spec fn view(&self) -> SchemaRefView {
        schema_ref_view(*self)
    }
}

impl View for Schema {
    type V = SchemaView;

    open spec fn view(&self) -> SchemaView {
        schema_view(*self)
    }
}

impl View for SchemaKind {
    type V = SchemaKindView;

    open spec fn view(&self) -> SchemaKindView {
        schema_kind_view(*self)
    }
}

impl View for SchemaType {
    type V = SchemaTypeView;

    open spec fn view(&self) -> SchemaTypeView {
        schema_type_view(*self)
    }
}

impl View for ObjectType {
    type V = ObjectTypeView;

    open spec fn view(&self) -> ObjectTypeView {
        object_type_view(*self)
    }
}

impl View for AdditionalProperties {
    type V = AdditionalPropertiesView;

    open spec fn view(&self) -> AdditionalPropertiesView {
        additional_properties_view(*self)
    }
}

} // verus!
