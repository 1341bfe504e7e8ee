//! The API description that the generator reads, and its view.

use crate::schema::{option_text, texts, SchemaRef, SchemaRefView};
use vstd::prelude::*;

verus! {

/// Where a parameter travels in a request.
#[derive(Copy, Clone, Debug, PartialEq, Eq, Structural)]
pub enum ParameterLocation {
    Query,
    Header,
    Path,
    Cookie,
}

/// How the value of a parameter is described.
#[derive(Debug)]
pub enum ParameterFormat {
    Schema(SchemaRef),
    /// The parameter is described by media types instead of a schema.
    Content,
}

/// One declared parameter of an operation.
#[derive(Debug)]
pub struct Parameter {
    pub location: ParameterLocation,
    /// The name on the wire.
    pub name: String,
    pub description: Option<String>,
    pub required: bool,
    pub format: ParameterFormat,
}

/// A parameter given in place, or a reference to a shared one.
#[derive(Debug)]
pub enum ParameterRef {
    Reference,
    Item(Parameter),
}

/// A request body or a response given in place, or a reference to a shared
/// one. In place it lists, by media type, the schema of its content.
#[derive(Debug)]
pub enum PayloadRef {
    Reference,
    Item(Vec<(String, Option<SchemaRef>)>),
}

/// The key of a response: one status code, or a class of them.
#[derive(Copy, Clone, Debug, PartialEq, Eq, Structural)]
pub enum StatusCode {
    Code(u16),
    Range(u16),
}

/// One verb on one path.
#[derive(Debug)]
pub struct Operation {
    pub path: String,
    pub method: String,
    pub tags: Vec<String>,
    pub operation_id: Option<String>,
    pub description: Option<String>,
    pub parameters: Vec<ParameterRef>,
    pub request_body: Option<PayloadRef>,
    pub responses: Vec<(StatusCode, PayloadRef)>,
    /// The declared security requirements: each maps scheme names to scopes.
    pub security: Option<Vec<Vec<(String, Vec<String>)>>>,
}

/// The parsed description: declared tags, operations in document order and
/// the table of named schemas.
#[derive(Debug)]
pub struct Document {
    pub tags: Vec<String>,
    pub operations: Vec<Operation>,
    pub schemas: Vec<(String, SchemaRef)>,
}

pub ghost enum ParameterFormatView {
    Schema(SchemaRefView),
    Content,
}

pub ghost struct ParameterView {
    pub location: ParameterLocation,
    pub name: Seq<char>,
    pub description: Option<Seq<char>>,
    pub required: bool,
    pub format: ParameterFormatView,
}

pub ghost enum ParameterRefView {
    Reference,
    Item(ParameterView),
}

pub ghost enum PayloadRefView {
    Reference,
    Item(Seq<(Seq<char>, Option<SchemaRefView>)>),
}

pub ghost struct OperationView {
    pub path: Seq<char>,
    pub method: Seq<char>,
    pub tags: Seq<Seq<char>>,
    pub operation_id: Option<Seq<char>>,
    pub description: Option<Seq<char>>,
    pub parameters: Seq<ParameterRefView>,
    pub request_body: Option<PayloadRefView>,
    pub responses: Seq<(StatusCode, PayloadRefView)>,
    pub security: Option<Seq<Seq<(Seq<char>, Seq<Seq<char>>)>>>,
}

pub ghost struct DocumentView {
    pub tags: Seq<Seq<char>>,
    pub operations: Seq<OperationView>,
    pub schemas: Seq<(Seq<char>, SchemaRefView)>,
}

/// The view of an optional schema reference.
pub open spec fn option_schema_ref_view(o: Option<SchemaRef>) -> Option<SchemaRefView> {
    match o {
        Some(r) => Some(r@),
        None => None,
    }
}

/// The view of a list of named schema references.
pub open spec fn named_schemas_view(v: Vec<(String, SchemaRef)>) -> Seq<
    (Seq<char>, SchemaRefView),
> {
    Seq::new(v@.len(), |i: int| (v@[i].0@, v@[i].1@))
}

/// The view of the content list of a payload.
pub open spec fn content_view(v: Vec<(String, Option<SchemaRef>)>) -> Seq<
    (Seq<char>, Option<SchemaRefView>),
> {
    Seq::new(v@.len(), |i: int| (v@[i].0@, option_schema_ref_view(v@[i].1)))
}

/// The view of one security requirement.
pub open spec fn requirement_view(v: Vec<(String, Vec<String>)>) -> Seq<
    (Seq<char>, Seq<Seq<char>>),
> {
    Seq::new(v@.len(), |i: int| (v@[i].0@, texts(v@[i].1)))
}

impl View for ParameterFormat {
    type V = ParameterFormatView;

    open spec fn view(&self) -> ParameterFormatView {
        match self {
            ParameterFormat::Schema(r) => ParameterFormatView::Schema(r@),
            ParameterFormat::Content => ParameterFormatView::Content,
        }
    }
}

impl View for Parameter {
    type V = ParameterView;

    open spec fn view(&self) -> ParameterView {
        ParameterView {
            location: self.location,
            name: self.name@,
            description: option_text(self.description),
            required: self.required,
            format: self.format@,
        }
    }
}

impl View for ParameterRef {
    type V = ParameterRefView;

    open spec fn view(&self) -> ParameterRefView {
        match self {
            ParameterRef::Reference => ParameterRefView::Reference,
            ParameterRef::Item(p) => ParameterRefView::Item(p@),
        }
    }
}

impl View for PayloadRef {
    type V = PayloadRefView;

    open spec fn view(&self) -> PayloadRefView {
        match self {
            PayloadRef::Reference => PayloadRefView::Reference,
            PayloadRef::Item(content) => PayloadRefView::Item(content_view(*content)),
        }
    }
}

impl View for Operation {
    type V = OperationView;

    open spec fn view(&self) -> OperationView {
        OperationView {
            path: self.path@,
            method: self.method@,
            tags: texts(self.tags),
            operation_id: option_text(self.operation_id),
            description: option_text(self.description),
            parameters: Seq::new(self.parameters@.len(), |i: int| self.parameters@[i]@),
            request_body: match self.request_body {
                Some(b) => Some(b@),
                None => None,
            },
            responses: Seq::new(
                self.responses@.len(),
                |i: int| (self.responses@[i].0, self.responses@[i].1@),
            ),
            security: match self.security {
                Some(s) => Some(Seq::new(s@.len(), |i: int| requirement_view(s@[i]))),
                None => None,
            },
        }
    }
}

impl View for Document {
    type V = DocumentView;

    open spec fn view(&self) -> DocumentView {
        DocumentView {
            tags: texts(self.tags),
            operations: Seq::new(self.operations@.len(), |i: int| self.operations@[i]@),
            schemas: named_schemas_view(self.schemas),
        }
    }
}

} // verus!
