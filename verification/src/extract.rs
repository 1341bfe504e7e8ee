//! Building the canonical model of namespaces, methods and parameters
//! from a document.

use crate::classify::{body_kind, classify_body, classify_query, option_str_text, query_kind};
use crate::document::{
    Document, Operation, OperationView, Parameter, ParameterFormat, ParameterFormatView,
    ParameterLocation, ParameterRef, ParameterRefView, ParameterView, PayloadRef, PayloadRefView,
    StatusCode,
};
use crate::error::{outcome, result_view, Error};
use crate::kind::ParamKind;
use crate::resolve::{resolve, resolve_reference_schema};
use crate::schema::{
    ObjectType, ObjectTypeView, SchemaKind, SchemaKindView, SchemaRef, SchemaRefView, SchemaType,
    SchemaTypeView,
};
use crate::text::{is_listed, lower_camel_case, str_eq, to_lower_camel_case};
use vstd::prelude::*;
use vstd::string::*;

verus! {

/// The namespaces of a document, in the order in which they were first
/// named, each under its camel-cased tag.
#[derive(Debug)]
pub struct Extract<'o> {
    pub namespaces: Vec<(String, ExtractNamespace<'o>)>,
}

/// The methods of one namespace in document order.
#[derive(Debug)]
pub struct ExtractNamespace<'o> {
    pub methods: Vec<ExtractNamespaceMethod<'o>>,
}

/// One operation of the document in canonical form.
#[derive(Debug)]
pub struct ExtractNamespaceMethod<'o> {
    pub name: String,
    pub path: &'o str,
    pub method: &'o str,
    pub description: Option<&'o str>,
    /// Query parameters first, then body properties, each in the order
    /// of declaration; no identifier occurs twice.
    pub parameters: Vec<ExtractNamespaceMethodParam<'o>>,
    pub ret: Option<&'o ObjectType>,
    pub download: bool,
    pub requires_scopes: Option<Vec<&'o str>>,
}

/// One parameter of a method.
#[derive(Debug)]
pub struct ExtractNamespaceMethodParam<'o> {
    /// The normalized identifier.
    pub id: String,
    /// The name on the wire.
    pub name: String,
    pub ty: &'o SchemaType,
    pub description: Option<&'o str>,
    pub optional: bool,
    pub kind: ParamKind,
}

pub ghost struct ParamView {
    pub id: Seq<char>,
    pub name: Seq<char>,
    pub ty: SchemaTypeView,
    pub description: Option<Seq<char>>,
    pub optional: bool,
    pub kind: ParamKind,
}

pub ghost struct MethodView {
    pub name: Seq<char>,
    pub path: Seq<char>,
    pub method: Seq<char>,
    pub description: Option<Seq<char>>,
    pub parameters: Seq<ParamView>,
    pub ret: Option<ObjectTypeView>,
    pub download: bool,
    pub requires_scopes: Option<Seq<Seq<char>>>,
}

pub ghost struct NamespaceView {
    pub methods: Seq<MethodView>,
}

pub ghost struct ExtractView {
    pub namespaces: Seq<(Seq<char>, NamespaceView)>,
}

impl<'o> View for ExtractNamespaceMethodParam<'o> {
    type V = ParamView;

    open spec fn view(&self) -> ParamView {
        ParamView {
            id: self.id@,
            name: self.name@,
            ty: self.ty@,
            description: option_str_text(self.description),
            optional: self.optional,
            kind: self.kind,
        }
    }
}

/// The view of a list of parameters.
pub open spec fn params_view(v: Vec<ExtractNamespaceMethodParam<'_>>) -> Seq<ParamView> {
    Seq::new(v@.len(), |i: int| v@[i]@)
}

/// The view of a list of borrowed parameters.
pub open spec fn param_refs_view(v: Vec<&ExtractNamespaceMethodParam<'_>>) -> Seq<ParamView> {
    Seq::new(v@.len(), |i: int| v@[i]@)
}

/// The texts of a list of string slices.
pub open spec fn str_texts(v: Vec<&str>) -> Seq<Seq<char>> {
    Seq::new(v@.len(), |i: int| v@[i]@)
}

impl<'o> View for ExtractNamespaceMethod<'o> {
    type V = MethodView;

    open spec fn view(&self) -> MethodView {
        MethodView {
            name: self.name@,
            path: self.path@,
            method: self.method@,
            description: option_str_text(self.description),
            parameters: params_view(self.parameters),
            ret: match self.ret {
                Some(obj) => Some(obj@),
                None => None,
            },
            download: self.download,
            requires_scopes: match self.requires_scopes {
                Some(scopes) => Some(str_texts(scopes)),
                None => None,
            },
        }
    }
}

impl<'o> View for ExtractNamespace<'o> {
    type V = NamespaceView;

    open spec fn view(&self) -> NamespaceView {
        NamespaceView { methods: Seq::new(self.methods@.len(), |i: int| self.methods@[i]@) }
    }
}

/// The view of a list of named namespaces.
pub open spec fn namespaces_view(v: Vec<(String, ExtractNamespace<'_>)>) -> Seq<
    (Seq<char>, NamespaceView),
> {
    Seq::new(v@.len(), |i: int| (v@[i].0@, v@[i].1@))
}

impl<'o> View for Extract<'o> {
    type V = ExtractView;

    open spec fn view(&self) -> ExtractView {
        ExtractView { namespaces: namespaces_view(self.namespaces) }
    }
}

/// Whether no identifier occurs twice among the parameters.
pub open spec fn distinct_ids(params: Seq<ParamView>) -> bool {
    forall|i: int, j: int|
        0 <= i < params.len() && 0 <= j < params.len() && i != j ==> params[i].id != params[j].id
}

/// Whether a parameter with the identifier is among `params`.
pub open spec fn has_id(params: Seq<ParamView>, id: Seq<char>) -> bool {
    exists|i: int| 0 <= i < params.len() && #[trigger] params[i].id == id
}

/// Whether no name occurs twice among the namespaces.
pub open spec fn distinct_names(namespaces: Seq<(Seq<char>, NamespaceView)>) -> bool {
    forall|i: int, j: int|
        0 <= i < namespaces.len() && 0 <= j < namespaces.len() && i != j ==> namespaces[i].0
            != namespaces[j].0
}

impl MethodView {
    /// A method is well formed when its parameters have distinct identifiers.
    pub open spec fn wf(self) -> bool {
        distinct_ids(self.parameters)
    }
}

impl ExtractView {
    /// A model is well formed when its namespaces have distinct names and
    /// all its methods are well formed.
    pub open spec fn wf(self) -> bool {
        &&& distinct_names(self.namespaces)
        &&& forall|i: int, j: int|
            0 <= i < self.namespaces.len() && 0 <= j < self.namespaces[i].1.methods.len()
                ==> #[trigger] self.namespaces[i].1.methods[j].wf()
    }
}

/// The plain type that describes a parameter.
pub open spec fn pulled_type(format: ParameterFormatView) -> Result<SchemaTypeView, Error> {
    match format {
        ParameterFormatView::Content => Err(Error::UnsupportedParameterContent),
        ParameterFormatView::Schema(SchemaRefView::Reference(_)) => Err(
            Error::UnsupportedReference,
        ),
        ParameterFormatView::Schema(SchemaRefView::Item(schema)) => match schema.kind {
            SchemaKindView::Composite => Err(Error::UnsupportedSchema),
            SchemaKindView::Type(ty) => Ok(ty),
        },
    }
}

/// The canonical form of a declared parameter: only query parameters with
/// an inline schema of one plain type have one.
pub open spec fn query_param(p: ParameterView) -> Result<ParamView, Error> {
    if p.location != ParameterLocation::Query {
        Err(Error::UnsupportedParameterLocation)
    } else {
        match pulled_type(p.format) {
            Err(e) => Err(e),
            Ok(ty) => Ok(
                ParamView {
                    id: lower_camel_case(p.name),
                    name: p.name,
                    ty,
                    description: p.description,
                    optional: !p.required,
                    kind: query_kind(p.name, p.description, ty is String),
                },
            ),
        }
    }
}

/// The canonical form of a property of the request body.
pub open spec fn body_param(
    name: Seq<char>,
    prop: SchemaRefView,
    required: Seq<Seq<char>>,
) -> Result<ParamView, Error> {
    match prop {
        SchemaRefView::Reference(_) => Err(Error::UnsupportedReference),
        SchemaRefView::Item(schema) => match schema.kind {
            SchemaKindView::Composite => Err(Error::UnsupportedSchema),
            SchemaKindView::Type(ty) => Ok(
                ParamView {
                    id: lower_camel_case(name),
                    name,
                    ty,
                    description: schema.description,
                    optional: !required.contains(name),
                    kind: body_kind(name, schema.description, ty is String),
                },
            ),
        },
    }
}

/// The parameters with one more: an identifier that is already taken is
/// refused.
pub open spec fn inserted(params: Seq<ParamView>, p: ParamView) -> Result<Seq<ParamView>, Error> {
    if has_id(params, p.id) {
        Err(Error::DuplicateParameterId)
    } else {
        Ok(params.push(p))
    }
}

/// The parameters `acc` with the declared query parameters from index
/// `from` on. References to shared parameters are passed over.
pub open spec fn with_query_params(
    acc: Seq<ParamView>,
    declared: Seq<ParameterRefView>,
    from: int,
) -> Result<Seq<ParamView>, Error>
    decreases declared.len() - from,
{
    if from < 0 || from >= declared.len() {
        Ok(acc)
    } else {
        match declared[from] {
            ParameterRefView::Reference => with_query_params(acc, declared, from + 1),
            ParameterRefView::Item(p) => match query_param(p) {
                Err(e) => Err(e),
                Ok(q) => match inserted(acc, q) {
                    Err(e) => Err(e),
                    Ok(next) => with_query_params(next, declared, from + 1),
                },
            },
        }
    }
}

/// The parameters `acc` with the properties of a body object from index
/// `from` on.
pub open spec fn with_properties(acc: Seq<ParamView>, obj: ObjectTypeView, from: int) -> Result<
    Seq<ParamView>,
    Error,
>
    decreases obj.properties.len() - from,
{
    if from < 0 || from >= obj.properties.len() {
        Ok(acc)
    } else {
        match body_param(obj.properties[from].0, obj.properties[from].1, obj.required) {
            Err(e) => Err(e),
            Ok(q) => match inserted(acc, q) {
                Err(e) => Err(e),
                Ok(next) => with_properties(next, obj, from + 1),
            },
        }
    }
}

/// The schema that a payload declares for a media type, searched from
/// index `from` on: nothing where the media type is not offered.
pub open spec fn media_schema_from(
    content: Seq<(Seq<char>, Option<SchemaRefView>)>,
    media_type: Seq<char>,
    from: int,
) -> Option<Option<SchemaRefView>>
    decreases content.len() - from,
{
    if from < 0 || from >= content.len() {
        None
    } else if content[from].0 == media_type {
        Some(content[from].1)
    } else {
        media_schema_from(content, media_type, from + 1)
    }
}

/// The schema that a payload declares for JSON.
pub open spec fn json_schema(content: Seq<(Seq<char>, Option<SchemaRefView>)>) -> Option<
    Option<SchemaRefView>,
> {
    media_schema_from(content, "application/json"@, 0)
}

/// The object schema behind the JSON content of a payload.
pub open spec fn json_object(
    schemas: Seq<(Seq<char>, SchemaRefView)>,
    declared: Option<SchemaRefView>,
    otherwise: Error,
) -> Result<ObjectTypeView, Error> {
    match declared {
        None => Err(Error::MissingSchema),
        Some(r) => match resolve(schemas, r) {
            None => Err(Error::UnresolvedReference),
            Some(schema) => match schema.kind {
                SchemaKindView::Composite => Err(Error::UnsupportedSchema),
                SchemaKindView::Type(SchemaTypeView::Object(obj)) => Ok(obj),
                SchemaKindView::Type(_) => Err(otherwise),
            },
        },
    }
}

/// The parameters `acc` with the properties of a request body.
pub open spec fn with_body_params(
    acc: Seq<ParamView>,
    schemas: Seq<(Seq<char>, SchemaRefView)>,
    body: PayloadRefView,
) -> Result<Seq<ParamView>, Error> {
    match body {
        PayloadRefView::Reference => Err(Error::UnsupportedReference),
        PayloadRefView::Item(content) => match json_schema(content) {
            None => Err(Error::NonJsonRequestBody),
            Some(declared) => match json_object(schemas, declared, Error::NonObjectRequestBody) {
                Err(e) => Err(e),
                Ok(obj) => with_properties(acc, obj, 0),
            },
        },
    }
}

/// The parameters of an operation: its query parameters, then the
/// properties of its request body.
pub open spec fn params_of(schemas: Seq<(Seq<char>, SchemaRefView)>, op: OperationView) -> Result<
    Seq<ParamView>,
    Error,
> {
    match with_query_params(Seq::empty(), op.parameters, 0) {
        Err(e) => Err(e),
        Ok(params) => match op.request_body {
            None => Ok(params),
            Some(body) => with_body_params(params, schemas, body),
        },
    }
}

/// The response that an operation declares for the status 200, searched
/// from index `from` on.
pub open spec fn success_from(responses: Seq<(StatusCode, PayloadRefView)>, from: int) -> Option<
    PayloadRefView,
>
    decreases responses.len() - from,
{
    if from < 0 || from >= responses.len() {
        None
    } else if responses[from].0 == StatusCode::Code(200) {
        Some(responses[from].1)
    } else {
        success_from(responses, from + 1)
    }
}

/// The object that an operation returns: the JSON schema of its response
/// for the status 200, where it has one.
pub open spec fn response_of(schemas: Seq<(Seq<char>, SchemaRefView)>, op: OperationView) -> Result<
    Option<ObjectTypeView>,
    Error,
> {
    match success_from(op.responses, 0) {
        None => Ok(None),
        Some(PayloadRefView::Reference) => Err(Error::UnsupportedReference),
        Some(PayloadRefView::Item(content)) => match json_schema(content) {
            None => Ok(None),
            Some(declared) => match json_object(schemas, declared, Error::NonObjectResponseSchema) {
                Err(e) => Err(e),
                Ok(obj) => Ok(Some(obj)),
            },
        },
    }
}

/// Whether an operation answers with a payload that is not JSON: its
/// response for the status 200 is given in place and offers no JSON.
pub open spec fn is_download(op: OperationView) -> bool {
    match success_from(op.responses, 0) {
        Some(PayloadRefView::Item(content)) => json_schema(content) is None,
        _ => false,
    }
}

/// The scopes `acc` with those that one security requirement names,
/// scheme by scheme from index `from` on.
pub open spec fn with_requirement(
    acc: Seq<Seq<char>>,
    requirement: Seq<(Seq<char>, Seq<Seq<char>>)>,
    from: int,
) -> Seq<Seq<char>>
    decreases requirement.len() - from,
{
    if from < 0 || from >= requirement.len() {
        acc
    } else {
        with_requirement(acc + requirement[from].1, requirement, from + 1)
    }
}

/// The scopes `acc` with those of the security requirements from index
/// `from` on.
pub open spec fn with_requirements(
    acc: Seq<Seq<char>>,
    requirements: Seq<Seq<(Seq<char>, Seq<Seq<char>>)>>,
    from: int,
) -> Seq<Seq<char>>
    decreases requirements.len() - from,
{
    if from < 0 || from >= requirements.len() {
        acc
    } else {
        with_requirements(
            with_requirement(acc, requirements[from], 0),
            requirements,
            from + 1,
        )
    }
}

/// The scopes that the security requirements of an operation name, in
/// order; nothing where they name none.
pub open spec fn scopes_of(op: OperationView) -> Option<Seq<Seq<char>>> {
    match op.security {
        None => None,
        Some(requirements) => {
            let all = with_requirements(Seq::empty(), requirements, 0);
            if all.len() == 0 {
                None
            } else {
                Some(all)
            }
        },
    }
}

/// The namespace and the method that an operation gives.
pub open spec fn method_of(schemas: Seq<(Seq<char>, SchemaRefView)>, op: OperationView) -> Result<
    (Seq<char>, MethodView),
    Error,
> {
    if op.tags.len() == 0 {
        Err(Error::MissingTag)
    } else {
        match op.operation_id {
            None => Err(Error::MissingOperationId),
            Some(id) => match params_of(schemas, op) {
                Err(e) => Err(e),
                Ok(parameters) => match response_of(schemas, op) {
                    Err(e) => Err(e),
                    Ok(ret) => Ok(
                        (
                            lower_camel_case(op.tags[0]),
                            MethodView {
                                name: lower_camel_case(id),
                                path: op.path,
                                method: op.method,
                                description: op.description,
                                parameters,
                                ret,
                                download: is_download(op),
                                requires_scopes: None,
                            },
                        ),
                    ),
                },
            },
        }
    }
}

/// The index of the namespace of the given name, searched from `from` on.
pub open spec fn find_namespace(
    namespaces: Seq<(Seq<char>, NamespaceView)>,
    name: Seq<char>,
    from: int,
) -> Option<int>
    decreases namespaces.len() - from,
{
    if from < 0 || from >= namespaces.len() {
        None
    } else if namespaces[from].0 == name {
        Some(from)
    } else {
        find_namespace(namespaces, name, from + 1)
    }
}

/// The namespaces with an empty one of the given name added at the end,
/// unless the name is taken.
pub open spec fn declared(namespaces: Seq<(Seq<char>, NamespaceView)>, name: Seq<char>) -> Seq<
    (Seq<char>, NamespaceView),
> {
    match find_namespace(namespaces, name, 0) {
        Some(_) => namespaces,
        None => namespaces.push((name, NamespaceView { methods: Seq::empty() })),
    }
}

/// The namespaces with the method added at the end of the namespace of
/// the given name, which is created where it is missing.
pub open spec fn with_method(
    namespaces: Seq<(Seq<char>, NamespaceView)>,
    name: Seq<char>,
    method: MethodView,
) -> Seq<(Seq<char>, NamespaceView)> {
    match find_namespace(namespaces, name, 0) {
        Some(i) => namespaces.update(
            i,
            (namespaces[i].0, NamespaceView { methods: namespaces[i].1.methods.push(method) }),
        ),
        None => namespaces.push((name, NamespaceView { methods: seq![method] })),
    }
}

/// The namespaces with one declared for each tag from index `from` on.
pub open spec fn with_tags(
    namespaces: Seq<(Seq<char>, NamespaceView)>,
    tags: Seq<Seq<char>>,
    from: int,
) -> Seq<(Seq<char>, NamespaceView)>
    decreases tags.len() - from,
{
    if from < 0 || from >= tags.len() {
        namespaces
    } else {
        with_tags(declared(namespaces, lower_camel_case(tags[from])), tags, from + 1)
    }
}

/// The namespaces with the methods of the operations from index `from` on.
pub open spec fn with_operations(
    namespaces: Seq<(Seq<char>, NamespaceView)>,
    schemas: Seq<(Seq<char>, SchemaRefView)>,
    operations: Seq<OperationView>,
    from: int,
) -> Result<Seq<(Seq<char>, NamespaceView)>, Error>
    decreases operations.len() - from,
{
    if from < 0 || from >= operations.len() {
        Ok(namespaces)
    } else {
        match method_of(schemas, operations[from]) {
            Err(e) => Err(e),
            Ok((name, method)) => with_operations(
                with_method(namespaces, name, method),
                schemas,
                operations,
                from + 1,
            ),
        }
    }
}

/// The canonical model of a document: one namespace for every declared
/// tag, then every operation as a method of the namespace of its first
/// tag. The first operation that falls outside the dialect decides the
/// error.
pub open spec fn extracted(doc: crate::document::DocumentView) -> Result<ExtractView, Error> {
    match with_operations(
        with_tags(Seq::empty(), doc.tags, 0),
        doc.schemas,
        doc.operations,
        0,
    ) {
        Err(e) => Err(e),
        Ok(namespaces) => Ok(ExtractView { namespaces }),
    }
}

/// The view of an optional borrowed object schema.
pub open spec fn option_object_view(o: Option<&ObjectType>) -> Option<ObjectTypeView> {
    match o {
        Some(obj) => Some(obj@),
        None => None,
    }
}

/// The plain type that describes a parameter.
pub fn pull_type<'o>(format: &'o ParameterFormat) -> (r: Result<&'o SchemaType, Error>)
    ensures
        result_view(r) == pulled_type(format@),
{
    match format {
        ParameterFormat::Content => Err(Error::UnsupportedParameterContent),
        ParameterFormat::Schema(SchemaRef::Reference(_)) => Err(Error::UnsupportedReference),
        ParameterFormat::Schema(SchemaRef::Item(schema)) => match &schema.kind {
            SchemaKind::Composite => Err(Error::UnsupportedSchema),
            SchemaKind::Type(ty) => Ok(ty),
        },
    }
}

fn as_str_option<'o>(o: &'o Option<String>) -> (r: Option<&'o str>)
    ensures
        option_str_text(r) == crate::schema::option_text(*o),
{
    match o {
        Some(s) => Some(s.as_str()),
        None => None,
    }
}

fn is_string(ty: &SchemaType) -> (r: bool)
    ensures
        r == (ty@ is String),
{
    match ty {
        SchemaType::String(_) => true,
        _ => false,
    }
}

fn holds_id(params: &Vec<ExtractNamespaceMethodParam<'_>>, id: &str) -> (r: bool)
    ensures
        r == has_id(params_view(*params), id@),
{
    let mut i: usize = 0;
    while i < params.len()
        invariant
            i <= params.len(),
            forall|k: int| 0 <= k < i ==> params_view(*params)[k].id != id@,
        decreases params.len() - i,
    {
        if str_eq(params[i].id.as_str(), id) {
            assert(params_view(*params)[i as int].id == id@);
            return true;
        }
        i += 1;
    }
    false
}

/// Adds a parameter at the end, unless its identifier is taken.
fn insert_param<'o>(
    params: &mut Vec<ExtractNamespaceMethodParam<'o>>,
    p: ExtractNamespaceMethodParam<'o>,
) -> (r: Result<(), Error>)
    ensures
        inserted(params_view(*old(params)), p@) == outcome(r, params_view(*final(params))),
{
    if holds_id(params, p.id.as_str()) {
        return Err(Error::DuplicateParameterId);
    }
    let ghost before = params_view(*params);
    let ghost added = p@;
    params.push(p);
    assert(params_view(*params) =~= before.push(added));
    Ok(())
}

impl<'o> ExtractNamespaceMethodParam<'o> {
    /// The canonical form of a declared query parameter.
    pub fn extract_query(param: &'o Parameter) -> (r: Result<Self, Error>)
        ensures
            result_view(r) == query_param(param@),
    {
        match param.location {
            ParameterLocation::Query => {},
            _ => {
                return Err(Error::UnsupportedParameterLocation);
            },
        }
        let id = to_lower_camel_case(param.name.as_str());
        let ty = match pull_type(&param.format) {
            Ok(ty) => ty,
            Err(e) => {
                return Err(e);
            },
        };
        let description = as_str_option(&param.description);
        let kind = classify_query(param.name.as_str(), description, is_string(ty));
        Ok(
            ExtractNamespaceMethodParam {
                id,
                name: param.name.clone(),
                description,
                optional: !param.required,
                ty,
                kind,
            },
        )
    }

    /// The canonical form of a property of the request body.
    pub fn extract_property(name: &'o String, prop: &'o SchemaRef, required: &Vec<String>) -> (r:
        Result<Self, Error>)
        ensures
            result_view(r) == body_param(name@, prop@, crate::schema::texts(*required)),
    {
        let schema = match prop {
            SchemaRef::Reference(_) => {
                return Err(Error::UnsupportedReference);
            },
            SchemaRef::Item(schema) => schema,
        };
        let ty = match &schema.kind {
            SchemaKind::Composite => {
                return Err(Error::UnsupportedSchema);
            },
            SchemaKind::Type(ty) => ty,
        };
        let id = to_lower_camel_case(name.as_str());
        let description = as_str_option(&schema.description);
        let kind = classify_body(name.as_str(), description, is_string(ty));
        Ok(
            ExtractNamespaceMethodParam {
                id,
                name: name.clone(),
                description,
                optional: !is_listed(required, name.as_str()),
                ty,
                kind,
            },
        )
    }

    /// Adds the properties of a request body to the parameters of a
    /// method. The first property that cannot be added decides the error.
    pub fn extract_body(params: &mut Vec<Self>, req: &'o PayloadRef, api: &'o Document) -> (r:
        Result<(), Error>)
        ensures
            with_body_params(params_view(*old(params)), api@.schemas, req@) == outcome(
                r,
                params_view(*final(params)),
            ),
    {
        let content = match req {
            PayloadRef::Reference => {
                return Err(Error::UnsupportedReference);
            },
            PayloadRef::Item(content) => content,
        };
        let declared = match json_content(content) {
            None => {
                return Err(Error::NonJsonRequestBody);
            },
            Some(declared) => declared,
        };
        let obj = match json_object_of(declared, api, Error::NonObjectRequestBody) {
            Err(e) => {
                return Err(e);
            },
            Ok(obj) => obj,
        };
        let ghost goal = with_body_params(params_view(*old(params)), api@.schemas, req@);
        let mut i: usize = 0;
        while i < obj.properties.len()
            invariant
                i <= obj.properties.len(),
                goal == with_body_params(params_view(*old(params)), api@.schemas, req@),
                goal == with_properties(params_view(*params), obj@, i as int),
            decreases obj.properties.len() - i,
        {
            let entry = &obj.properties[i];
            assert(obj@.properties[i as int] == (entry.0@, entry.1@));
            assert(obj@.required == crate::schema::texts(obj.required));
            assert(obj@.properties.len() == obj.properties.len());
            let p = match Self::extract_property(&entry.0, &entry.1, &obj.required) {
                Err(e) => {
                    return Err(e);
                },
                Ok(p) => p,
            };
            match insert_param(params, p) {
                Err(e) => {
                    return Err(e);
                },
                Ok(()) => {},
            }
            i += 1;
        }
        Ok(())
    }
}

/// The schema that a payload declares for JSON.
fn json_content<'o>(content: &'o Vec<(String, Option<SchemaRef>)>) -> (r: Option<
    &'o Option<SchemaRef>,
>)
    ensures
        match r {
            Some(declared) => json_schema(crate::document::content_view(*content)) == Some(
                crate::document::option_schema_ref_view(*declared),
            ),
            None => json_schema(crate::document::content_view(*content)) is None,
        },
{
    let mut i: usize = 0;
    while i < content.len()
        invariant
            i <= content.len(),
            json_schema(crate::document::content_view(*content)) == media_schema_from(
                crate::document::content_view(*content),
                "application/json"@,
                i as int,
            ),
        decreases content.len() - i,
    {
        let entry = &content[i];
        if str_eq(entry.0.as_str(), "application/json") {
            return Some(&entry.1);
        }
        i += 1;
    }
    None
}

/// The object schema behind the JSON content of a payload.
fn json_object_of<'o>(declared: &'o Option<SchemaRef>, api: &'o Document, otherwise: Error) -> (r:
    Result<&'o ObjectType, Error>)
    ensures
        result_view(r) == json_object(
            api@.schemas,
            crate::document::option_schema_ref_view(*declared),
            otherwise,
        ),
{
    let schema_ref = match declared {
        None => {
            return Err(Error::MissingSchema);
        },
        Some(r) => r,
    };
    let schema = match resolve_reference_schema(schema_ref, api) {
        None => {
            return Err(Error::UnresolvedReference);
        },
        Some(schema) => schema,
    };
    match &schema.kind {
        SchemaKind::Composite => Err(Error::UnsupportedSchema),
        SchemaKind::Type(SchemaType::Object(obj)) => Ok(obj),
        SchemaKind::Type(_) => Err(otherwise),
    }
}

/// The response that an operation declares for the status 200.
fn success_response<'o>(op: &'o Operation) -> (r: Option<&'o PayloadRef>)
    ensures
        match r {
            Some(found) => success_from(op@.responses, 0) == Some(found@),
            None => success_from(op@.responses, 0) is None,
        },
{
    let mut i: usize = 0;
    while i < op.responses.len()
        invariant
            i <= op.responses.len(),
            success_from(op@.responses, 0) == success_from(op@.responses, i as int),
        decreases op.responses.len() - i,
    {
        let entry = &op.responses[i];
        assert(op@.responses[i as int] == (entry.0, entry.1@));
        let hit = match entry.0 {
            StatusCode::Code(code) => code == 200,
            StatusCode::Range(_) => false,
        };
        if hit {
            return Some(&entry.1);
        }
        i += 1;
    }
    None
}

impl<'o> Extract<'o> {
    /// The object that an operation returns.
    pub fn extract_response(op: &'o Operation, api: &'o Document) -> (r: Result<
        Option<&'o ObjectType>,
        Error,
    >)
        ensures
            response_of(api@.schemas, op@) == (match r {
                Ok(ret) => Ok(option_object_view(ret)),
                Err(e) => Err(e),
            }),
    {
        let content = match success_response(op) {
            None => {
                return Ok(None);
            },
            Some(PayloadRef::Reference) => {
                return Err(Error::UnsupportedReference);
            },
            Some(PayloadRef::Item(content)) => content,
        };
        let declared = match json_content(content) {
            None => {
                return Ok(None);
            },
            Some(declared) => declared,
        };
        match json_object_of(declared, api, Error::NonObjectResponseSchema) {
            Err(e) => Err(e),
            Ok(obj) => Ok(Some(obj)),
        }
    }

    /// The scopes that the security requirements of an operation name.
    /// The document is known to declare them inaccurately, so no method
    /// is given them.
    pub fn extract_scopes(op: &'o Operation) -> (r: Option<Vec<&'o str>>)
        ensures
            (match r {
                Some(scopes) => Some(str_texts(scopes)),
                None => None,
            }) == scopes_of(op@),
    {
        let requirements = match &op.security {
            None => {
                return None;
            },
            Some(requirements) => requirements,
        };
        let ghost all = op@.security->Some_0;
        let mut out: Vec<&'o str> = Vec::new();
        assert(str_texts(out) =~= Seq::empty());
        let mut i: usize = 0;
        while i < requirements.len()
            invariant
                i <= requirements.len(),
                all.len() == requirements.len(),
                forall|k: int|
                    0 <= k < all.len() ==> all[k] == crate::document::requirement_view(
                        #[trigger] requirements@[k],
                    ),
                with_requirements(Seq::empty(), all, 0) == with_requirements(
                    str_texts(out),
                    all,
                    i as int,
                ),
            decreases requirements.len() - i,
        {
            let requirement = &requirements[i];
            let ghost one = all[i as int];
            assert(one == crate::document::requirement_view(*requirement));
            let ghost goal = with_requirement(str_texts(out), one, 0);
            let mut j: usize = 0;
            while j < requirement.len()
                invariant
                    j <= requirement.len(),
                    one == crate::document::requirement_view(*requirement),
                    goal == with_requirement(str_texts(out), one, j as int),
                decreases requirement.len() - j,
            {
                let scopes = &requirement[j].1;
                let ghost start = str_texts(out);
                let ghost names = crate::schema::texts(*scopes);
                assert(one[j as int].1 == names);
                let mut k: usize = 0;
                while k < scopes.len()
                    invariant
                        k <= scopes.len(),
                        names == crate::schema::texts(*scopes),
                        str_texts(out) == start + names.take(k as int),
                    decreases scopes.len() - k,
                {
                    let ghost before = str_texts(out);
                    out.push(scopes[k].as_str());
                    assert(str_texts(out) =~= before.push(names[k as int]));
                    assert(names.take(k + 1) =~= names.take(k as int).push(names[k as int]));
                    k += 1;
                }
                assert(names.take(scopes.len() as int) =~= names);
                j += 1;
            }
            i += 1;
        }
        if out.len() == 0 {
            None
        } else {
            Some(out)
        }
    }

    /// Whether an operation answers with a payload that is not JSON.
    pub fn extract_download(op: &Operation) -> (r: bool)
        ensures
            r == is_download(op@),
    {
        match success_response(op) {
            Some(PayloadRef::Item(content)) => json_content(content).is_none(),
            _ => false,
        }
    }

    /// The parameters of an operation: its query parameters, then the
    /// properties of its request body.
    pub fn extract_params(op: &'o Operation, api: &'o Document) -> (r: Result<
        Vec<ExtractNamespaceMethodParam<'o>>,
        Error,
    >)
        ensures
            params_of(api@.schemas, op@) == (match r {
                Ok(params) => Ok(params_view(params)),
                Err(e) => Err(e),
            }),
    {
        let mut parameters: Vec<ExtractNamespaceMethodParam<'o>> = Vec::new();
        assert(params_view(parameters) =~= Seq::empty());
        let mut i: usize = 0;
        while i < op.parameters.len()
            invariant
                i <= op.parameters.len(),
                with_query_params(Seq::empty(), op@.parameters, 0) == with_query_params(
                    params_view(parameters),
                    op@.parameters,
                    i as int,
                ),
            decreases op.parameters.len() - i,
        {
            match &op.parameters[i] {
                ParameterRef::Reference => {},
                ParameterRef::Item(param) => {
                    let p = match ExtractNamespaceMethodParam::extract_query(param) {
                        Err(e) => {
                            return Err(e);
                        },
                        Ok(p) => p,
                    };
                    match insert_param(&mut parameters, p) {
                        Err(e) => {
                            return Err(e);
                        },
                        Ok(()) => {},
                    }
                },
            }
            i += 1;
        }
        match &op.request_body {
            None => Ok(parameters),
            Some(req) => {
                match ExtractNamespaceMethodParam::extract_body(&mut parameters, req, api) {
                    Err(e) => Err(e),
                    Ok(()) => Ok(parameters),
                }
            },
        }
    }
}

/// Whether some parameter appears in the public request shape.
pub open spec fn has_active(params: Seq<ParamView>) -> bool {
    exists|i: int| 0 <= i < params.len() && #[trigger] params[i].kind.spec_is_active()
}

/// Whether some parameter travels in the request body.
pub open spec fn has_body_kind(params: Seq<ParamView>) -> bool {
    exists|i: int| 0 <= i < params.len() && #[trigger] params[i].kind.spec_is_body()
}

/// The parameters that travel in the request body, in order.
pub open spec fn body_of(params: Seq<ParamView>) -> Seq<ParamView> {
    params.filter(|p: ParamView| p.kind.spec_is_body())
}

/// The parameters that travel in the query, in order.
pub open spec fn query_of(params: Seq<ParamView>) -> Seq<ParamView> {
    params.filter(|p: ParamView| !p.kind.spec_is_body())
}

impl<'o> ExtractNamespaceMethod<'o> {
    /// Whether some parameter appears in the public request shape.
    #[must_use]
    pub fn has_active_params(&self) -> (r: bool)
        ensures
            r == has_active(self@.parameters),
    {
        let mut i: usize = 0;
        while i < self.parameters.len()
            invariant
                i <= self.parameters.len(),
                forall|k: int| 0 <= k < i ==> !self@.parameters[k].kind.spec_is_active(),
            decreases self.parameters.len() - i,
        {
            if self.parameters[i].kind.is_active() {
                assert(self@.parameters[i as int].kind.spec_is_active());
                return true;
            }
            i += 1;
        }
        false
    }

    /// Whether some parameter travels in the request body.
    #[must_use]
    pub fn has_body(&self) -> (r: bool)
        ensures
            r == has_body_kind(self@.parameters),
    {
        let mut i: usize = 0;
        while i < self.parameters.len()
            invariant
                i <= self.parameters.len(),
                forall|k: int| 0 <= k < i ==> !self@.parameters[k].kind.spec_is_body(),
            decreases self.parameters.len() - i,
        {
            if self.parameters[i].kind.is_body() {
                assert(self@.parameters[i as int].kind.spec_is_body());
                return true;
            }
            i += 1;
        }
        false
    }

    /// The parameters of which `body` says whether they travel in the body.
    fn params_on_side<'a>(&'a self, body: bool) -> (r: Vec<&'a ExtractNamespaceMethodParam<'o>>)
        ensures
            param_refs_view(r) == self@.parameters.filter(
                |p: ParamView| p.kind.spec_is_body() == body,
            ),
    {
        let ghost pred = |p: ParamView| p.kind.spec_is_body() == body;
        let mut out: Vec<&'a ExtractNamespaceMethodParam<'o>> = Vec::new();
        let mut i: usize = 0;
        assert(self@.parameters.take(0) =~= Seq::empty());
        assert(param_refs_view(out) =~= Seq::empty());
        while i < self.parameters.len()
            invariant
                i <= self.parameters.len(),
                pred == |p: ParamView| p.kind.spec_is_body() == body,
                param_refs_view(out) == self@.parameters.take(i as int).filter(pred),
            decreases self.parameters.len() - i,
        {
            let p = &self.parameters[i];
            let ghost before = param_refs_view(out);
            proof {
                assert(self@.parameters.take(i + 1).drop_last() =~= self@.parameters.take(
                    i as int,
                ));
                assert(self@.parameters.take(i + 1).last() == p@);
                reveal(Seq::filter);
            }
            if p.kind.is_body() == body {
                out.push(p);
                assert(param_refs_view(out) =~= before.push(p@));
            }
            i += 1;
        }
        assert(self@.parameters.take(self.parameters.len() as int) =~= self@.parameters);
        out
    }

    /// The parameters that travel in the request body, in order.
    pub fn body_params<'a>(&'a self) -> (r: Vec<&'a ExtractNamespaceMethodParam<'o>>)
        ensures
            param_refs_view(r) == body_of(self@.parameters),
    {
        let r = self.params_on_side(true);
        assert(body_of(self@.parameters) == self@.parameters.filter(
            |p: ParamView| p.kind.spec_is_body() == true,
        )) by {
            assert((|p: ParamView| p.kind.spec_is_body()) =~= (|p: ParamView|
                p.kind.spec_is_body() == true));
        }
        r
    }

    /// The parameters that travel in the query, in order.
    pub fn query_params<'a>(&'a self) -> (r: Vec<&'a ExtractNamespaceMethodParam<'o>>)
        ensures
            param_refs_view(r) == query_of(self@.parameters),
    {
        let r = self.params_on_side(false);
        assert(query_of(self@.parameters) == self@.parameters.filter(
            |p: ParamView| p.kind.spec_is_body() == false,
        )) by {
            assert((|p: ParamView| !p.kind.spec_is_body()) =~= (|p: ParamView|
                p.kind.spec_is_body() == false));
        }
        r
    }
}

pub proof fn lemma_find_namespace(
    namespaces: Seq<(Seq<char>, NamespaceView)>,
    name: Seq<char>,
    from: int,
)
    requires
        0 <= from,
    ensures
        match find_namespace(namespaces, name, from) {
            Some(i) => from <= i < namespaces.len() && namespaces[i].0 == name,
            None => forall|k: int| from <= k < namespaces.len() ==> namespaces[k].0 != name,
        },
    decreases namespaces.len() - from,
{
    if from < namespaces.len() && namespaces[from].0 != name {
        lemma_find_namespace(namespaces, name, from + 1);
    }
}

impl<'o> Extract<'o> {
    /// The index of the namespace of the given name.
    fn find(&self, name: &str) -> (r: Option<usize>)
        ensures
            match r {
                Some(i) => i < self.namespaces.len() && find_namespace(
                    self@.namespaces,
                    name@,
                    0,
                ) == Some(i as int),
                None => find_namespace(self@.namespaces, name@, 0) is None,
            },
    {
        let mut i: usize = 0;
        while i < self.namespaces.len()
            invariant
                i <= self.namespaces.len(),
                find_namespace(self@.namespaces, name@, 0) == find_namespace(
                    self@.namespaces,
                    name@,
                    i as int,
                ),
            decreases self.namespaces.len() - i,
        {
            if str_eq(self.namespaces[i].0.as_str(), name) {
                return Some(i);
            }
            i += 1;
        }
        None
    }

    /// Makes sure that a namespace of the given name exists.
    fn declare(&mut self, name: String)
        ensures
            final(self)@.namespaces == declared(old(self)@.namespaces, name@),
    {
        if self.find(name.as_str()).is_none() {
            let ghost before = self@.namespaces;
            let ghost text = name@;
            let ns = ExtractNamespace { methods: Vec::new() };
            assert(ns@.methods =~= Seq::empty());
            self.namespaces.push((name, ns));
            assert(self@.namespaces =~= before.push(
                (text, NamespaceView { methods: Seq::empty() }),
            ));
        }
    }

    /// Adds a method at the end of the namespace of the given name.
    fn add_method(&mut self, name: String, method: ExtractNamespaceMethod<'o>)
        ensures
            final(self)@.namespaces == with_method(old(self)@.namespaces, name@, method@),
    {
        let ghost before = self@.namespaces;
        let ghost text = name@;
        let ghost added = method@;
        match self.find(name.as_str()) {
            Some(i) => {
                let mut entry = self.namespaces.remove(i);
                let ghost methods = entry.1@.methods;
                entry.1.methods.push(method);
                assert(entry.1@.methods =~= methods.push(added));
                self.namespaces.insert(i, entry);
                assert(self@.namespaces =~= before.update(
                    i as int,
                    (before[i as int].0, NamespaceView { methods: methods.push(added) }),
                ));
            },
            None => {
                let mut methods: Vec<ExtractNamespaceMethod<'o>> = Vec::new();
                methods.push(method);
                let ns = ExtractNamespace { methods };
                assert(ns@.methods =~= seq![added]);
                self.namespaces.push((name, ns));
                assert(self@.namespaces =~= before.push(
                    (text, NamespaceView { methods: seq![added] }),
                ));
            },
        }
    }

    /// Takes the namespace of the given name out of the model.
    pub fn remove(&mut self, name: &str) -> (r: Option<ExtractNamespace<'o>>)
        ensures
            match find_namespace(old(self)@.namespaces, name@, 0) {
                Some(i) => r matches Some(ns) && ns@ == old(self)@.namespaces[i].1
                    && final(self)@.namespaces == old(self)@.namespaces.remove(i),
                None => r is None && final(self)@ == old(self)@,
            },
            old(self)@.wf() ==> final(self)@.wf(),
    {
        match self.find(name) {
            Some(i) => {
                let ghost before = self@.namespaces;
                let entry = self.namespaces.remove(i);
                assert(self@.namespaces =~= before.remove(i as int));
                proof {
                    if old(self)@.wf() {
                        lemma_remove_wf(before, i as int);
                    }
                }
                Some(entry.1)
            },
            None => None,
        }
    }

    /// Adds the method that an operation gives to the namespace of its
    /// first tag. An operation outside the dialect leaves the model as
    /// it is.
    pub fn extract_op(&mut self, op: &'o Operation, api: &'o Document) -> (r: Result<(), Error>)
        ensures
            match method_of(api@.schemas, op@) {
                Ok((name, method)) => r is Ok && final(self)@.namespaces == with_method(
                    old(self)@.namespaces,
                    name,
                    method,
                ),
                Err(e) => r == Err::<(), Error>(e) && final(self)@ == old(self)@,
            },
            old(self)@.wf() ==> final(self)@.wf(),
    {
        proof {
            lemma_method_ids_are_distinct(api@.schemas, op@);
            if old(self)@.wf() {
                if let Ok((name, method)) = method_of(api@.schemas, op@) {
                    lemma_with_method_wf(old(self)@.namespaces, name, method);
                }
            }
        }
        if op.tags.len() == 0 {
            return Err(Error::MissingTag);
        }
        let namespace_name = to_lower_camel_case(op.tags[0].as_str());
        let name = match &op.operation_id {
            None => {
                return Err(Error::MissingOperationId);
            },
            Some(id) => to_lower_camel_case(id.as_str()),
        };
        let parameters = match Self::extract_params(op, api) {
            Err(e) => {
                return Err(e);
            },
            Ok(parameters) => parameters,
        };
        let ret = match Self::extract_response(op, api) {
            Err(e) => {
                return Err(e);
            },
            Ok(ret) => ret,
        };
        let method = ExtractNamespaceMethod {
            name,
            path: op.path.as_str(),
            method: op.method.as_str(),
            description: as_str_option(&op.description),
            requires_scopes: None,
            parameters,
            ret,
            download: Self::extract_download(op),
        };
        self.add_method(namespace_name, method);
        Ok(())
    }

    /// Builds the canonical model of a document.
    pub fn new(api: &'o Document) -> (r: Result<Self, Error>)
        ensures
            result_view(r) == extracted(api@),
            r matches Ok(model) ==> model@.wf(),
    {
        let mut this = Extract { namespaces: Vec::new() };
        assert(this@.namespaces =~= Seq::empty());
        let mut i: usize = 0;
        while i < api.tags.len()
            invariant
                i <= api.tags.len(),
                with_tags(Seq::empty(), api@.tags, 0) == with_tags(
                    this@.namespaces,
                    api@.tags,
                    i as int,
                ),
            decreases api.tags.len() - i,
        {
            this.declare(to_lower_camel_case(api.tags[i].as_str()));
            i += 1;
        }
        let mut j: usize = 0;
        while j < api.operations.len()
            invariant
                j <= api.operations.len(),
                with_operations(
                    with_tags(Seq::empty(), api@.tags, 0),
                    api@.schemas,
                    api@.operations,
                    0,
                ) == with_operations(this@.namespaces, api@.schemas, api@.operations, j as int),
            decreases api.operations.len() - j,
        {
            match this.extract_op(&api.operations[j], api) {
                Err(e) => {
                    return Err(e);
                },
                Ok(()) => {},
            }
            j += 1;
        }
        proof {
            lemma_extracted_is_well_formed(api@);
        }
        Ok(this)
    }
}

/// Extraction gives every parameter the role that classification
/// assigns to its wire name, its description and its type, and keeps the
/// parameters of the query and those of the body on their sides.
pub proof fn lemma_extracted_roles(
    p: ParameterView,
    name: Seq<char>,
    prop: SchemaRefView,
    required: Seq<Seq<char>>,
)
    ensures
        query_param(p) matches Ok(q) ==> q.kind == query_kind(p.name, p.description, q.ty is String)
            && !q.kind.spec_is_body() && q.name == p.name,
        body_param(name, prop, required) matches Ok(q) ==> q.kind == body_kind(
            name,
            q.description,
            q.ty is String,
        ) && q.kind.spec_is_body() && q.name == name,
{
}

/// Adding a parameter keeps the identifiers distinct.
pub proof fn lemma_inserted_keeps_ids_distinct(params: Seq<ParamView>, p: ParamView)
    requires
        distinct_ids(params),
    ensures
        inserted(params, p) matches Ok(next) ==> distinct_ids(next),
        inserted(params, p) is Err <==> has_id(params, p.id),
{
}

proof fn lemma_with_query_params_distinct(
    acc: Seq<ParamView>,
    declared: Seq<ParameterRefView>,
    from: int,
)
    requires
        distinct_ids(acc),
    ensures
        with_query_params(acc, declared, from) matches Ok(params) ==> distinct_ids(params),
    decreases declared.len() - from,
{
    if 0 <= from < declared.len() {
        match declared[from] {
            ParameterRefView::Reference => {
                lemma_with_query_params_distinct(acc, declared, from + 1);
            },
            ParameterRefView::Item(p) => {
                if let Ok(q) = query_param(p) {
                    lemma_inserted_keeps_ids_distinct(acc, q);
                    if let Ok(next) = inserted(acc, q) {
                        lemma_with_query_params_distinct(next, declared, from + 1);
                    }
                }
            },
        }
    }
}

proof fn lemma_with_properties_distinct(acc: Seq<ParamView>, obj: ObjectTypeView, from: int)
    requires
        distinct_ids(acc),
    ensures
        with_properties(acc, obj, from) matches Ok(params) ==> distinct_ids(params),
    decreases obj.properties.len() - from,
{
    if 0 <= from < obj.properties.len() {
        if let Ok(q) = body_param(obj.properties[from].0, obj.properties[from].1, obj.required) {
            lemma_inserted_keeps_ids_distinct(acc, q);
            if let Ok(next) = inserted(acc, q) {
                lemma_with_properties_distinct(next, obj, from + 1);
            }
        }
    }
}

/// The parameters of every method have distinct identifiers, over query
/// and body together: an operation in which two parameters would share
/// one has no method.
pub proof fn lemma_method_ids_are_distinct(
    schemas: Seq<(Seq<char>, SchemaRefView)>,
    op: OperationView,
)
    ensures
        params_of(schemas, op) matches Ok(params) ==> distinct_ids(params),
        method_of(schemas, op) matches Ok((_, method)) ==> method.wf(),
{
    lemma_with_query_params_distinct(Seq::empty(), op.parameters, 0);
    if let Ok(params) = with_query_params(Seq::empty(), op.parameters, 0) {
        if let Some(PayloadRefView::Item(content)) = op.request_body {
            if let Some(declared) = json_schema(content) {
                if let Ok(obj) = json_object(schemas, declared, Error::NonObjectRequestBody) {
                    lemma_with_properties_distinct(params, obj, 0);
                }
            }
        }
    }
}

proof fn lemma_declared_wf(namespaces: Seq<(Seq<char>, NamespaceView)>, name: Seq<char>)
    requires
        (ExtractView { namespaces }).wf(),
    ensures
        (ExtractView { namespaces: declared(namespaces, name) }).wf(),
{
    lemma_find_namespace(namespaces, name, 0);
}

proof fn lemma_with_method_wf(
    namespaces: Seq<(Seq<char>, NamespaceView)>,
    name: Seq<char>,
    method: MethodView,
)
    requires
        (ExtractView { namespaces }).wf(),
        method.wf(),
    ensures
        (ExtractView { namespaces: with_method(namespaces, name, method) }).wf(),
{
    lemma_find_namespace(namespaces, name, 0);
    let next = with_method(namespaces, name, method);
    assert forall|i: int, j: int|
        0 <= i < next.len() && 0 <= j < next[i].1.methods.len() implies #[trigger] next[i].1
            .methods[j].wf() by {
        match find_namespace(namespaces, name, 0) {
            Some(k) => {
                if i == k {
                    if j < namespaces[i].1.methods.len() {
                        assert(next[i].1.methods[j] == namespaces[i].1.methods[j]);
                    }
                } else {
                    assert(next[i].1.methods[j] == namespaces[i].1.methods[j]);
                }
            },
            None => {
                if i < namespaces.len() {
                    assert(next[i].1.methods[j] == namespaces[i].1.methods[j]);
                }
            },
        }
    }
}

proof fn lemma_remove_wf(namespaces: Seq<(Seq<char>, NamespaceView)>, i: int)
    requires
        (ExtractView { namespaces }).wf(),
        0 <= i < namespaces.len(),
    ensures
        (ExtractView { namespaces: namespaces.remove(i) }).wf(),
{
    let next = namespaces.remove(i);
    assert forall|a: int, b: int|
        0 <= a < next.len() && 0 <= b < next.len() && a != b implies next[a].0 != next[b].0 by {
        let x = if a < i {
            a
        } else {
            a + 1
        };
        let y = if b < i {
            b
        } else {
            b + 1
        };
        assert(next[a] == namespaces[x] && next[b] == namespaces[y]);
    }
    assert forall|a: int, j: int|
        0 <= a < next.len() && 0 <= j < next[a].1.methods.len() implies #[trigger] next[a].1
            .methods[j].wf() by {
        let x = if a < i {
            a
        } else {
            a + 1
        };
        assert(next[a] == namespaces[x]);
        assert(namespaces[x].1.methods[j].wf());
    }
}

proof fn lemma_with_tags_wf(
    namespaces: Seq<(Seq<char>, NamespaceView)>,
    tags: Seq<Seq<char>>,
    from: int,
)
    requires
        (ExtractView { namespaces }).wf(),
    ensures
        (ExtractView { namespaces: with_tags(namespaces, tags, from) }).wf(),
    decreases tags.len() - from,
{
    if 0 <= from < tags.len() {
        lemma_declared_wf(namespaces, lower_camel_case(tags[from]));
        lemma_with_tags_wf(declared(namespaces, lower_camel_case(tags[from])), tags, from + 1);
    }
}

proof fn lemma_with_operations_wf(
    namespaces: Seq<(Seq<char>, NamespaceView)>,
    schemas: Seq<(Seq<char>, SchemaRefView)>,
    operations: Seq<OperationView>,
    from: int,
)
    requires
        (ExtractView { namespaces }).wf(),
    ensures
        with_operations(namespaces, schemas, operations, from) matches Ok(all) ==> (ExtractView {
            namespaces: all,
        }).wf(),
    decreases operations.len() - from,
{
    if 0 <= from < operations.len() {
        if let Ok((name, method)) = method_of(schemas, operations[from]) {
            lemma_method_ids_are_distinct(schemas, operations[from]);
            lemma_with_method_wf(namespaces, name, method);
            lemma_with_operations_wf(
                with_method(namespaces, name, method),
                schemas,
                operations,
                from + 1,
            );
        }
    }
}

/// Every model that extraction yields is well formed: no namespace name
/// and, within a method, no parameter identifier occurs twice.
pub proof fn lemma_extracted_is_well_formed(doc: crate::document::DocumentView)
    ensures
        extracted(doc) matches Ok(model) ==> model.wf(),
{
    let none: Seq<(Seq<char>, NamespaceView)> = Seq::empty();
    assert((ExtractView { namespaces: none }).wf());
    lemma_with_tags_wf(none, doc.tags, 0);
    lemma_with_operations_wf(with_tags(none, doc.tags, 0), doc.schemas, doc.operations, 0);
}

} // verus!
