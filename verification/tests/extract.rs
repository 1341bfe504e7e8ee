use twitch_bindgen::document::{
    Document, Operation, Parameter, ParameterFormat, ParameterLocation, ParameterRef, PayloadRef,
    StatusCode,
};
use twitch_bindgen::error::Error;
use twitch_bindgen::extract::{pull_type, Extract, ExtractNamespaceMethodParam};
use twitch_bindgen::kind::ParamKind;
use twitch_bindgen::resolve::resolve_reference_schema;
use twitch_bindgen::schema::{
    AdditionalProperties, ObjectType, Schema, SchemaKind, SchemaRef, SchemaType,
};

const PHRASE: &str = "The ID must match the user ID in the access token.";

fn schema(ty: SchemaType) -> Schema {
    Schema { description: None, kind: SchemaKind::Type(ty) }
}

fn described(description: &str, ty: SchemaType) -> Schema {
    Schema { description: Some(description.to_string()), kind: SchemaKind::Type(ty) }
}

fn item(s: Schema) -> SchemaRef {
    SchemaRef::Item(Box::new(s))
}

fn reference(name: &str) -> SchemaRef {
    SchemaRef::Reference(format!("#/components/schemas/{}", name))
}

fn string() -> SchemaType {
    SchemaType::String(Vec::new())
}

fn object(properties: Vec<(&str, SchemaRef)>, required: Vec<&str>) -> SchemaType {
    SchemaType::Object(ObjectType {
        properties: properties.into_iter().map(|(n, s)| (n.to_string(), s)).collect(),
        required: required.into_iter().map(|n| n.to_string()).collect(),
        additional_properties: AdditionalProperties::Absent,
    })
}

fn query(name: &str, required: bool, description: Option<&str>, ty: SchemaType) -> Parameter {
    Parameter {
        location: ParameterLocation::Query,
        name: name.to_string(),
        description: description.map(|d| d.to_string()),
        required,
        format: ParameterFormat::Schema(item(schema(ty))),
    }
}

fn json(schema: Option<SchemaRef>) -> PayloadRef {
    PayloadRef::Item(vec![("application/json".to_string(), schema)])
}

fn operation(tag: &str, id: &str) -> Operation {
    Operation {
        path: "/things".to_string(),
        method: "get".to_string(),
        tags: vec![tag.to_string()],
        operation_id: Some(id.to_string()),
        description: None,
        parameters: Vec::new(),
        request_body: None,
        responses: Vec::new(),
        security: None,
    }
}

fn document(operations: Vec<Operation>) -> Document {
    Document { tags: Vec::new(), operations, schemas: Vec::new() }
}

fn error_of(doc: &Document) -> Error {
    match Extract::new(doc) {
        Ok(_) => panic!("extraction succeeded"),
        Err(e) => e,
    }
}

#[test]
fn resolver_returns_inline_schema() {
    let doc = document(Vec::new());
    let r = item(described("inline", string()));
    let s = resolve_reference_schema(&r, &doc).unwrap();
    assert_eq!(s.description.as_deref(), Some("inline"));
}

#[test]
fn resolver_follows_chains_of_references() {
    let mut doc = document(Vec::new());
    doc.schemas = vec![
        ("A".to_string(), reference("B")),
        ("B".to_string(), reference("C")),
        ("C".to_string(), item(described("the end", string()))),
    ];
    let r = reference("A");
    let s = resolve_reference_schema(&r, &doc).unwrap();
    assert_eq!(s.description.as_deref(), Some("the end"));
}

#[test]
fn resolver_fails_on_missing_name_foreign_prefix_and_circle() {
    let mut doc = document(Vec::new());
    doc.schemas = vec![
        ("A".to_string(), reference("B")),
        ("B".to_string(), reference("A")),
        ("C".to_string(), item(schema(string()))),
    ];
    assert!(resolve_reference_schema(&reference("Missing"), &doc).is_none());
    assert!(resolve_reference_schema(&reference("A"), &doc).is_none());
    let foreign = SchemaRef::Reference("#/components/responses/C".to_string());
    assert!(resolve_reference_schema(&foreign, &doc).is_none());
    assert!(resolve_reference_schema(&reference("C"), &doc).is_some());
}

#[test]
fn resolver_takes_the_first_entry_of_a_name() {
    let mut doc = document(Vec::new());
    doc.schemas = vec![
        ("A".to_string(), item(described("first", string()))),
        ("A".to_string(), item(described("second", string()))),
    ];
    let r = reference("A");
    let s = resolve_reference_schema(&r, &doc).unwrap();
    assert_eq!(s.description.as_deref(), Some("first"));
}

#[test]
fn pull_type_accepts_inline_plain_types_only() {
    let ok = ParameterFormat::Schema(item(schema(SchemaType::Integer)));
    assert!(matches!(pull_type(&ok), Ok(SchemaType::Integer)));
    let content = ParameterFormat::Content;
    assert_eq!(pull_type(&content).unwrap_err(), Error::UnsupportedParameterContent);
    let by_ref = ParameterFormat::Schema(reference("A"));
    assert_eq!(pull_type(&by_ref).unwrap_err(), Error::UnsupportedReference);
    let composite = ParameterFormat::Schema(item(Schema {
        description: None,
        kind: SchemaKind::Composite,
    }));
    assert_eq!(pull_type(&composite).unwrap_err(), Error::UnsupportedSchema);
}

#[test]
fn query_parameter_is_normalized() {
    let p = query("started_at", false, Some("When it started."), string());
    let e = ExtractNamespaceMethodParam::extract_query(&p).unwrap();
    assert_eq!(e.id, "startedAt");
    assert_eq!(e.name, "started_at");
    assert_eq!(e.description, Some("When it started."));
    assert!(e.optional);
    assert_eq!(e.kind, ParamKind::Query);
    assert!(matches!(e.ty, SchemaType::String(_)));
}

#[test]
fn query_parameter_roles() {
    let p = query("broadcaster_id", true, None, string());
    let e = ExtractNamespaceMethodParam::extract_query(&p).unwrap();
    assert_eq!(e.kind, ParamKind::QueryUserToken);
    assert!(!e.optional);
    let p = query("broadcaster_id", true, Some(PHRASE), string());
    let e = ExtractNamespaceMethodParam::extract_query(&p).unwrap();
    assert_eq!(e.kind, ParamKind::QueryCurrentUserToken);
    let p = query("user_id", true, Some(PHRASE), SchemaType::Array(None));
    let e = ExtractNamespaceMethodParam::extract_query(&p).unwrap();
    assert_eq!(e.kind, ParamKind::QueryUserToken);
    let p = query("moderator_id", true, None, string());
    let e = ExtractNamespaceMethodParam::extract_query(&p).unwrap();
    assert_eq!(e.kind, ParamKind::Query);
}

#[test]
fn other_parameter_locations_are_refused() {
    for location in
        [ParameterLocation::Header, ParameterLocation::Path, ParameterLocation::Cookie]
    {
        let mut p = query("x", true, None, string());
        p.location = location;
        assert_eq!(
            ExtractNamespaceMethodParam::extract_query(&p).unwrap_err(),
            Error::UnsupportedParameterLocation
        );
    }
}

#[test]
fn body_property_roles() {
    let required = vec!["title".to_string()];
    let name = "moderator_id".to_string();
    let prop = item(schema(string()));
    let e = ExtractNamespaceMethodParam::extract_property(&name, &prop, &required).unwrap();
    assert_eq!(e.kind, ParamKind::BodyUserToken);
    assert_eq!(e.id, "moderatorId");
    assert!(e.optional);
    let prop = item(described(PHRASE, string()));
    let e = ExtractNamespaceMethodParam::extract_property(&name, &prop, &required).unwrap();
    assert_eq!(e.kind, ParamKind::BodyCurrentUserToken);
    assert_eq!(e.description, Some(PHRASE));
    let name = "title".to_string();
    let prop = item(schema(string()));
    let e = ExtractNamespaceMethodParam::extract_property(&name, &prop, &required).unwrap();
    assert_eq!(e.kind, ParamKind::Body);
    assert!(!e.optional);
}

#[test]
fn body_property_must_be_inline_and_plain() {
    let required = Vec::new();
    let name = "x".to_string();
    let prop = reference("A");
    assert_eq!(
        ExtractNamespaceMethodParam::extract_property(&name, &prop, &required).unwrap_err(),
        Error::UnsupportedReference
    );
    let prop = item(Schema { description: None, kind: SchemaKind::Composite });
    assert_eq!(
        ExtractNamespaceMethodParam::extract_property(&name, &prop, &required).unwrap_err(),
        Error::UnsupportedSchema
    );
}

#[test]
fn namespaces_come_from_tags_in_order() {
    let mut doc = document(vec![operation("Ads", "start-commercial"), operation("Bits", "getBits")]);
    doc.tags = vec!["Bits".to_string(), "Channel Points".to_string(), "Bits".to_string()];
    let model = Extract::new(&doc).unwrap();
    let names: Vec<&str> = model.namespaces.iter().map(|n| n.0.as_str()).collect();
    assert_eq!(names, vec!["bits", "channelPoints", "ads"]);
    assert_eq!(model.namespaces[0].1.methods.len(), 1);
    assert_eq!(model.namespaces[0].1.methods[0].name, "getBits");
    assert_eq!(model.namespaces[1].1.methods.len(), 0);
    assert_eq!(model.namespaces[2].1.methods[0].name, "startCommercial");
    assert_eq!(model.namespaces[2].1.methods[0].path, "/things");
    assert_eq!(model.namespaces[2].1.methods[0].method, "get");
    assert!(model.namespaces[2].1.methods[0].requires_scopes.is_none());
}

#[test]
fn methods_of_one_namespace_keep_document_order() {
    let doc = document(vec![
        operation("Bits", "b"),
        operation("Ads", "x"),
        operation("Bits", "a"),
    ]);
    let model = Extract::new(&doc).unwrap();
    assert_eq!(model.namespaces.len(), 2);
    let bits: Vec<&str> = model.namespaces[0].1.methods.iter().map(|m| m.name.as_str()).collect();
    assert_eq!(bits, vec!["b", "a"]);
}

#[test]
fn operation_without_tag_or_id_is_fatal() {
    let mut op = operation("Ads", "x");
    op.tags = Vec::new();
    assert_eq!(error_of(&document(vec![op])), Error::MissingTag);
    let mut op = operation("Ads", "x");
    op.operation_id = None;
    assert_eq!(error_of(&document(vec![op])), Error::MissingOperationId);
    let mut op = operation("Ads", "x");
    op.tags = Vec::new();
    op.operation_id = None;
    assert_eq!(error_of(&document(vec![op])), Error::MissingTag);
}

#[test]
fn parameters_are_query_then_body_in_declaration_order() {
    let mut op = operation("Ads", "x");
    op.parameters = vec![
        ParameterRef::Item(query("b_b", true, None, string())),
        ParameterRef::Reference,
        ParameterRef::Item(query("a_a", false, None, SchemaType::Integer)),
    ];
    op.request_body = Some(json(Some(item(schema(object(
        vec![("z_z", item(schema(string()))), ("y_y", item(schema(SchemaType::Boolean)))],
        vec!["y_y"],
    ))))));
    let doc = document(vec![op]);
    let model = Extract::new(&doc).unwrap();
    let m = &model.namespaces[0].1.methods[0];
    let ids: Vec<&str> = m.parameters.iter().map(|p| p.id.as_str()).collect();
    assert_eq!(ids, vec!["bB", "aA", "zZ", "yY"]);
    let kinds: Vec<ParamKind> = m.parameters.iter().map(|p| p.kind).collect();
    assert_eq!(kinds, vec![ParamKind::Query, ParamKind::Query, ParamKind::Body, ParamKind::Body]);
    let optional: Vec<bool> = m.parameters.iter().map(|p| p.optional).collect();
    assert_eq!(optional, vec![false, true, true, false]);
    assert!(m.has_active_params());
    assert!(m.has_body());
    let body: Vec<&str> = m.body_params().iter().map(|p| p.name.as_str()).collect();
    assert_eq!(body, vec!["z_z", "y_y"]);
    let queries: Vec<&str> = m.query_params().iter().map(|p| p.name.as_str()).collect();
    assert_eq!(queries, vec!["b_b", "a_a"]);
}

#[test]
fn colliding_identifiers_are_fatal() {
    let mut op = operation("Ads", "x");
    op.parameters = vec![ParameterRef::Item(query("user_name", true, None, string()))];
    op.request_body = Some(json(Some(item(schema(object(
        vec![("userName", item(schema(string())))],
        vec![],
    ))))));
    assert_eq!(error_of(&document(vec![op])), Error::DuplicateParameterId);

    let mut op = operation("Ads", "x");
    op.parameters = vec![
        ParameterRef::Item(query("user_name", true, None, string())),
        ParameterRef::Item(query("user-name", true, None, string())),
    ];
    assert_eq!(error_of(&document(vec![op])), Error::DuplicateParameterId);

    let mut op = operation("Ads", "x");
    op.request_body = Some(json(Some(item(schema(object(
        vec![("a_b", item(schema(string()))), ("a-b", item(schema(string())))],
        vec![],
    ))))));
    assert_eq!(error_of(&document(vec![op])), Error::DuplicateParameterId);
}

#[test]
fn same_identifier_in_two_methods_is_fine() {
    let mut a = operation("Ads", "a");
    a.parameters = vec![ParameterRef::Item(query("id", true, None, string()))];
    let mut b = operation("Ads", "b");
    b.parameters = vec![ParameterRef::Item(query("id", true, None, string()))];
    assert!(Extract::new(&document(vec![a, b])).is_ok());
}

#[test]
fn request_body_errors() {
    let mut op = operation("Ads", "x");
    op.request_body = Some(PayloadRef::Reference);
    assert_eq!(error_of(&document(vec![op])), Error::UnsupportedReference);

    let mut op = operation("Ads", "x");
    op.request_body = Some(PayloadRef::Item(vec![("text/plain".to_string(), None)]));
    assert_eq!(error_of(&document(vec![op])), Error::NonJsonRequestBody);

    let mut op = operation("Ads", "x");
    op.request_body = Some(json(None));
    assert_eq!(error_of(&document(vec![op])), Error::MissingSchema);

    let mut op = operation("Ads", "x");
    op.request_body = Some(json(Some(reference("Nowhere"))));
    assert_eq!(error_of(&document(vec![op])), Error::UnresolvedReference);

    let mut op = operation("Ads", "x");
    op.request_body = Some(json(Some(item(schema(string())))));
    assert_eq!(error_of(&document(vec![op])), Error::NonObjectRequestBody);

    let mut op = operation("Ads", "x");
    op.request_body =
        Some(json(Some(item(Schema { description: None, kind: SchemaKind::Composite }))));
    assert_eq!(error_of(&document(vec![op])), Error::UnsupportedSchema);
}

#[test]
fn request_body_may_be_a_named_schema() {
    let mut op = operation("Ads", "x");
    op.request_body = Some(json(Some(reference("Body"))));
    let mut doc = document(vec![op]);
    doc.schemas = vec![(
        "Body".to_string(),
        item(schema(object(vec![("broadcaster_id", item(schema(string())))], vec![]))),
    )];
    let model = Extract::new(&doc).unwrap();
    let m = &model.namespaces[0].1.methods[0];
    assert_eq!(m.parameters.len(), 1);
    assert_eq!(m.parameters[0].kind, ParamKind::BodyUserToken);
}

#[test]
fn response_is_the_json_object_of_status_200() {
    let mut op = operation("Ads", "x");
    op.responses = vec![
        (StatusCode::Code(400), json(Some(item(schema(string()))))),
        (StatusCode::Range(2), json(Some(item(schema(string()))))),
        (
            StatusCode::Code(200),
            json(Some(item(schema(object(vec![("data", item(schema(string())))], vec![]))))),
        ),
    ];
    let doc = document(vec![op]);
    let model = Extract::new(&doc).unwrap();
    let m = &model.namespaces[0].1.methods[0];
    assert_eq!(m.ret.unwrap().properties[0].0, "data");
    assert!(!m.download);
}

#[test]
fn response_without_json_is_a_download() {
    let mut op = operation("Ads", "x");
    op.responses =
        vec![(StatusCode::Code(200), PayloadRef::Item(vec![("text/csv".to_string(), None)]))];
    let doc = document(vec![op]);
    let model = Extract::new(&doc).unwrap();
    let m = &model.namespaces[0].1.methods[0];
    assert!(m.ret.is_none());
    assert!(m.download);
    assert!(Extract::extract_download(&doc.operations[0]));
}

#[test]
fn operation_without_success_response_returns_nothing() {
    let mut op = operation("Ads", "x");
    op.responses = vec![(StatusCode::Code(204), PayloadRef::Item(Vec::new()))];
    let doc = document(vec![op]);
    let model = Extract::new(&doc).unwrap();
    let m = &model.namespaces[0].1.methods[0];
    assert!(m.ret.is_none());
    assert!(!m.download);
    assert!(!m.has_active_params());
    assert!(!m.has_body());
}

#[test]
fn response_errors() {
    let mut op = operation("Ads", "x");
    op.responses = vec![(StatusCode::Code(200), PayloadRef::Reference)];
    assert_eq!(error_of(&document(vec![op])), Error::UnsupportedReference);

    let mut op = operation("Ads", "x");
    op.responses = vec![(StatusCode::Code(200), json(None))];
    assert_eq!(error_of(&document(vec![op])), Error::MissingSchema);

    let mut op = operation("Ads", "x");
    op.responses = vec![(StatusCode::Code(200), json(Some(reference("Nowhere"))))];
    assert_eq!(error_of(&document(vec![op])), Error::UnresolvedReference);

    let mut op = operation("Ads", "x");
    op.responses = vec![(StatusCode::Code(200), json(Some(item(schema(SchemaType::Array(None))))))];
    assert_eq!(error_of(&document(vec![op])), Error::NonObjectResponseSchema);
}

#[test]
fn parameter_errors_come_before_response_errors() {
    let mut op = operation("Ads", "x");
    let mut p = query("x", true, None, string());
    p.format = ParameterFormat::Content;
    op.parameters = vec![ParameterRef::Item(p)];
    op.responses = vec![(StatusCode::Code(200), PayloadRef::Reference)];
    assert_eq!(error_of(&document(vec![op])), Error::UnsupportedParameterContent);
}

#[test]
fn failed_operation_leaves_the_model_unchanged() {
    let doc = document(vec![operation("Ads", "x")]);
    let mut bad = operation("Bits", "y");
    bad.operation_id = None;
    let mut model = Extract::new(&doc).unwrap();
    assert_eq!(model.extract_op(&bad, &doc), Err(Error::MissingOperationId));
    assert_eq!(model.namespaces.len(), 1);
    assert_eq!(model.namespaces[0].1.methods.len(), 1);
}

#[test]
fn removing_a_namespace() {
    let doc = document(vec![operation("EventSub", "a"), operation("Ads", "b")]);
    let mut model = Extract::new(&doc).unwrap();
    assert!(model.remove("nothing").is_none());
    assert_eq!(model.namespaces.len(), 2);
    let removed = model.remove("eventSub").unwrap();
    assert_eq!(removed.methods[0].name, "a");
    assert_eq!(model.namespaces.len(), 1);
    assert_eq!(model.namespaces[0].0, "ads");
}

#[test]
fn scopes_are_flattened_in_order() {
    let mut op = operation("Ads", "x");
    assert!(Extract::extract_scopes(&op).is_none());
    op.security = Some(Vec::new());
    assert!(Extract::extract_scopes(&op).is_none());
    op.security = Some(vec![vec![("oauth".to_string(), Vec::new())]]);
    assert!(Extract::extract_scopes(&op).is_none());
    op.security = Some(vec![
        vec![
            ("oauth".to_string(), vec!["a:read".to_string(), "b:write".to_string()]),
            ("app".to_string(), vec!["c".to_string()]),
        ],
        Vec::new(),
        vec![("oauth".to_string(), vec!["a:read".to_string()])],
    ]);
    assert_eq!(Extract::extract_scopes(&op), Some(vec!["a:read", "b:write", "c", "a:read"]));
}

#[test]
fn error_messages() {
    assert_eq!(Error::DuplicateParameterId.message(), "duplicate parameter id");
    assert_eq!(Error::UnexpectedTokenType.message(), "unexpected base type for user token");
    assert_eq!(
        Error::NonJsonRequestBody.message(),
        "request body does not have a json content type"
    );
}
