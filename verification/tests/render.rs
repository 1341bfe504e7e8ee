use twitch_bindgen::document::{
    Document, Operation, Parameter, ParameterFormat, ParameterLocation, ParameterRef, PayloadRef,
    StatusCode,
};
use twitch_bindgen::error::Error;
use twitch_bindgen::extract::{
    Extract, ExtractNamespace, ExtractNamespaceMethod, ExtractNamespaceMethodParam,
};
use twitch_bindgen::generate::{generate, EXCLUDED_NAMESPACE};
use twitch_bindgen::kind::ParamKind;
use twitch_bindgen::render::method::plain_name;
use twitch_bindgen::render::response::should_transform_properties;
use twitch_bindgen::render::{enter, render, render_index, Render, FILE_NOTICE};
use twitch_bindgen::schema::{
    AdditionalProperties, ObjectType, Schema, SchemaKind, SchemaRef, SchemaType,
};

fn schema(ty: SchemaType) -> Schema {
    Schema { description: None, kind: SchemaKind::Type(ty) }
}

fn described(description: &str, ty: SchemaType) -> Schema {
    Schema { description: Some(description.to_string()), kind: SchemaKind::Type(ty) }
}

fn item(s: Schema) -> SchemaRef {
    SchemaRef::Item(Box::new(s))
}

fn reference(name: &str) -> SchemaRef {
    SchemaRef::Reference(format!("#/components/schemas/{}", name))
}

fn string() -> SchemaType {
    SchemaType::String(Vec::new())
}

fn object_type(
    properties: Vec<(&str, SchemaRef)>,
    required: Vec<&str>,
    additional_properties: AdditionalProperties,
) -> ObjectType {
    ObjectType {
        properties: properties.into_iter().map(|(n, s)| (n.to_string(), s)).collect(),
        required: required.into_iter().map(|n| n.to_string()).collect(),
        additional_properties,
    }
}

fn object(properties: Vec<(&str, SchemaRef)>, required: Vec<&str>) -> SchemaType {
    SchemaType::Object(object_type(properties, required, AdditionalProperties::Absent))
}

fn empty_document() -> Document {
    Document { tags: Vec::new(), operations: Vec::new(), schemas: Vec::new() }
}

fn type_of(doc: &Document, token: bool, ty: &SchemaType) -> Result<String, Error> {
    let mut r = Render::new(doc);
    r.render_type(token, ty)?;
    assert_eq!(r.depth, 0);
    assert_eq!(r.hops, doc.schemas.len());
    Ok(r.writer)
}

fn validator_of(doc: &Document, ty: &SchemaType) -> Result<String, Error> {
    let mut r = Render::new(doc);
    r.render_response_type(ty)?;
    assert_eq!(r.depth, 0);
    assert_eq!(r.hops, doc.schemas.len());
    Ok(r.writer)
}

fn param<'o>(
    name: &str,
    id: &str,
    ty: &'o SchemaType,
    optional: bool,
    kind: ParamKind,
) -> ExtractNamespaceMethodParam<'o> {
    ExtractNamespaceMethodParam {
        id: id.to_string(),
        name: name.to_string(),
        ty,
        description: None,
        optional,
        kind,
    }
}

fn method<'o>(
    name: &str,
    parameters: Vec<ExtractNamespaceMethodParam<'o>>,
) -> ExtractNamespaceMethod<'o> {
    ExtractNamespaceMethod {
        name: name.to_string(),
        path: "/things",
        method: "patch",
        description: Some("Updates a thing."),
        parameters,
        ret: None,
        download: false,
        requires_scopes: None,
    }
}

#[test]
fn plain_types() {
    let doc = empty_document();
    assert_eq!(type_of(&doc, false, &string()).unwrap(), "string");
    assert_eq!(type_of(&doc, false, &SchemaType::Number).unwrap(), "number");
    assert_eq!(type_of(&doc, false, &SchemaType::Integer).unwrap(), "number");
    assert_eq!(type_of(&doc, false, &SchemaType::Boolean).unwrap(), "boolean");
}

#[test]
fn restricted_string_is_a_union_of_literals() {
    let doc = empty_document();
    let ty = SchemaType::String(vec![
        Some("a".to_string()),
        None,
        Some("b\"c".to_string()),
    ]);
    assert_eq!(type_of(&doc, false, &ty).unwrap(), "| \"a\"| \"b\\\"c\"");
    assert_eq!(validator_of(&doc, &ty).unwrap(), "z.enum([\"a\", \"b\\\"c\"])");
    let ty = SchemaType::String(vec![None, Some("x".to_string())]);
    assert_eq!(validator_of(&doc, &ty).unwrap(), "z.enum([\"x\"])");
    let ty = SchemaType::String(vec![None]);
    assert_eq!(type_of(&doc, false, &ty).unwrap(), "");
    assert_eq!(validator_of(&doc, &ty).unwrap(), "z.enum([])");
}

#[test]
fn arrays() {
    let mut doc = empty_document();
    doc.schemas = vec![
        ("Name".to_string(), item(schema(string()))),
        ("Union".to_string(), item(Schema { description: None, kind: SchemaKind::Composite })),
    ];
    let ty = SchemaType::Array(None);
    assert_eq!(type_of(&doc, false, &ty).unwrap(), "unknown[]");
    assert_eq!(validator_of(&doc, &ty).unwrap(), "z.unknown().array()");
    let ty = SchemaType::Array(Some(reference("Missing")));
    assert_eq!(type_of(&doc, false, &ty).unwrap(), "unknown[]");
    assert_eq!(validator_of(&doc, &ty).unwrap(), "z.unknown().array()");
    let ty = SchemaType::Array(Some(reference("Name")));
    assert_eq!(type_of(&doc, false, &ty).unwrap(), "string[]");
    assert_eq!(validator_of(&doc, &ty).unwrap(), "z.string().array()");
    let ty = SchemaType::Array(Some(item(schema(SchemaType::Array(Some(item(schema(
        SchemaType::Integer,
    ))))))));
    assert_eq!(type_of(&doc, false, &ty).unwrap(), "number[][]");
    assert_eq!(validator_of(&doc, &ty).unwrap(), "z.number().array().array()");
    let ty = SchemaType::Array(Some(reference("Union")));
    assert_eq!(type_of(&doc, false, &ty), Err(Error::UnsupportedSchema));
    assert_eq!(validator_of(&doc, &ty), Err(Error::UnsupportedSchema));
}

#[test]
fn user_identifiers_are_strings_whatever_the_schema() {
    let doc = empty_document();
    let restricted = SchemaType::String(vec![Some("a".to_string())]);
    assert_eq!(type_of(&doc, true, &restricted).unwrap(), "string");
    let numbers = SchemaType::Array(Some(item(schema(SchemaType::Integer))));
    assert_eq!(type_of(&doc, true, &numbers).unwrap(), "string[]");
}

#[test]
fn user_identifier_of_another_shape_is_fatal() {
    let doc = empty_document();
    assert_eq!(type_of(&doc, true, &SchemaType::Integer), Err(Error::UnexpectedTokenType));
    assert_eq!(type_of(&doc, true, &SchemaType::Number), Err(Error::UnexpectedTokenType));
    assert_eq!(type_of(&doc, true, &SchemaType::Boolean), Err(Error::UnexpectedTokenType));
    assert_eq!(type_of(&doc, true, &object(vec![], vec![])), Err(Error::UnexpectedTokenType));
}

#[test]
fn object_type_with_comment_optional_mark_and_open_signature() {
    let doc = empty_document();
    let ty = SchemaType::Object(object_type(
        vec![
            ("user_name", item(described("The name.", string()))),
            ("count", item(schema(SchemaType::Integer))),
        ],
        vec!["count"],
        AdditionalProperties::Any(true),
    ));
    assert_eq!(
        type_of(&doc, false, &ty).unwrap(),
        "{\n  /**\n   * The name.\n   */\n  userName?: string,\n  count: number  [_ in string]: unknown, \n\n}"
    );
}

#[test]
fn index_signature_follows_additional_properties() {
    let doc = empty_document();
    let with = |a: AdditionalProperties| SchemaType::Object(object_type(vec![], vec![], a));
    assert_eq!(type_of(&doc, false, &with(AdditionalProperties::Absent)).unwrap(), "{\n\n}");
    assert_eq!(type_of(&doc, false, &with(AdditionalProperties::Any(false))).unwrap(), "{\n\n}");
    assert_eq!(
        type_of(&doc, false, &with(AdditionalProperties::Any(true))).unwrap(),
        "{\n  [_ in string]: unknown, \n\n}"
    );
    assert_eq!(
        type_of(
            &doc,
            false,
            &with(AdditionalProperties::Schema(Box::new(item(schema(SchemaType::Number)))))
        )
        .unwrap(),
        "{\n  [_: string]: number\n}"
    );
    assert_eq!(
        type_of(
            &doc,
            false,
            &with(AdditionalProperties::Schema(Box::new(item(described(
                "Any other.",
                SchemaType::Array(Some(item(schema(string()))))
            )))))
        )
        .unwrap(),
        "{\n  /**\n   * Any other.\n   */\n  [_: string]: string[]\n}"
    );
}

#[test]
fn catch_all_follows_additional_properties() {
    let doc = empty_document();
    let with = |a: AdditionalProperties| SchemaType::Object(object_type(vec![], vec![], a));
    assert_eq!(validator_of(&doc, &with(AdditionalProperties::Absent)).unwrap(), "z.object({})");
    assert_eq!(
        validator_of(&doc, &with(AdditionalProperties::Any(false))).unwrap(),
        "z.object({})"
    );
    assert_eq!(
        validator_of(&doc, &with(AdditionalProperties::Any(true))).unwrap(),
        "z.object({}).catchall(z.unknown())\n"
    );
    assert_eq!(
        validator_of(
            &doc,
            &with(AdditionalProperties::Schema(Box::new(item(schema(SchemaType::Integer)))))
        )
        .unwrap(),
        "z.object({}).catchall(z.number())"
    );
    assert_eq!(
        validator_of(
            &doc,
            &with(AdditionalProperties::Schema(Box::new(item(described("Rest.", string())))))
        )
        .unwrap(),
        "z.object({})/**\n * Rest.\n */\n.catchall(z.string())"
    );
}

#[test]
fn nested_objects_indent_by_depth() {
    let doc = empty_document();
    let ty = object(
        vec![("outer", item(schema(object(vec![("inner", item(schema(string())))], vec![]))))],
        vec!["outer"],
    );
    assert_eq!(
        type_of(&doc, false, &ty).unwrap(),
        "{\n  outer: {\n    inner?: string\n  }\n}"
    );
}

#[test]
fn validator_without_underscore_has_inline_comments_and_no_transform() {
    let doc = empty_document();
    let ty = object(
        vec![
            ("id", item(described("The ID.", string()))),
            ("count", item(schema(SchemaType::Integer))),
        ],
        vec!["id"],
    );
    assert_eq!(
        validator_of(&doc, &ty).unwrap(),
        "z.object({\n  /**\n   * The ID.\n   */\n  \"id\": z.string(),\n  \"count\": z.number().optional()\n})"
    );
}

#[test]
fn validator_with_underscore_has_transform_with_comments() {
    let doc = empty_document();
    let ty = object(
        vec![("user_id", item(described("The ID.", string()))), ("title", item(schema(string())))],
        vec!["user_id", "title"],
    );
    assert_eq!(
        validator_of(&doc, &ty).unwrap(),
        "z.object({\n  \"user_id\": z.string(),\n  \"title\": z.string()\n}).transform((it) => ({\n  /**\n   * The ID.\n   */\n  \"userId\": it[\"user_id\"],\n  \"title\": it[\"title\"],\n\n}))"
    );
}

#[test]
fn both_paths_hold_the_same_validators() {
    let doc = empty_document();
    let fields = |name: &str| {
        object(
            vec![
                (name, item(schema(SchemaType::String(vec![Some("x".to_string())])))),
                ("n", item(schema(SchemaType::Array(Some(item(schema(SchemaType::Boolean))))))),
            ],
            vec!["n"],
        )
    };
    let plain = validator_of(&doc, &fields("ab")).unwrap();
    let transformed = validator_of(&doc, &fields("a_b")).unwrap();
    assert_eq!(
        plain,
        "z.object({\n  \"ab\": z.enum([\"x\"]).optional(),\n  \"n\": z.boolean().array()\n})"
    );
    assert!(transformed.starts_with(
        "z.object({\n  \"a_b\": z.enum([\"x\"]).optional(),\n  \"n\": z.boolean().array()\n}).transform("
    ));
}

#[test]
fn every_object_decides_on_its_own_transform() {
    let doc = empty_document();
    let ty = object(
        vec![("inner", item(schema(object(vec![("a_b", item(schema(string())))], vec!["a_b"]))))],
        vec!["inner"],
    );
    assert_eq!(
        validator_of(&doc, &ty).unwrap(),
        "z.object({\n  \"inner\": z.object({\n    \"a_b\": z.string()\n  }).transform((it) => ({\n    \"aB\": it[\"a_b\"],\n\n  }))\n})"
    );
    let obj = object_type(vec![("inner", item(schema(string())))], vec![], AdditionalProperties::Absent);
    assert!(!should_transform_properties(&obj));
    let obj = object_type(vec![("a", item(schema(string()))), ("_", item(schema(string())))], vec![], AdditionalProperties::Absent);
    assert!(should_transform_properties(&obj));
    let obj = object_type(vec![], vec![], AdditionalProperties::Absent);
    assert!(!should_transform_properties(&obj));
}

#[test]
fn unresolved_property_is_fatal() {
    let doc = empty_document();
    let ty = object(vec![("a", reference("Missing"))], vec![]);
    assert_eq!(type_of(&doc, false, &ty), Err(Error::UnresolvedReference));
    assert_eq!(validator_of(&doc, &ty), Err(Error::UnresolvedReference));
    let ty = SchemaType::Object(object_type(
        vec![],
        vec![],
        AdditionalProperties::Schema(Box::new(reference("Missing"))),
    ));
    assert_eq!(type_of(&doc, false, &ty), Err(Error::UnresolvedReference));
    assert_eq!(validator_of(&doc, &ty), Err(Error::UnresolvedReference));
}

#[test]
fn composite_property_is_fatal() {
    let doc = empty_document();
    let ty = object(
        vec![("a", item(Schema { description: None, kind: SchemaKind::Composite }))],
        vec![],
    );
    assert_eq!(type_of(&doc, false, &ty), Err(Error::UnsupportedSchema));
    assert_eq!(validator_of(&doc, &ty), Err(Error::UnsupportedSchema));
}

#[test]
fn named_schemas_are_followed() {
    let mut doc = empty_document();
    doc.schemas = vec![
        ("A".to_string(), item(schema(object(vec![("b", reference("B"))], vec!["b"])))),
        ("B".to_string(), reference("C")),
        ("C".to_string(), item(described("The end.", SchemaType::Boolean))),
    ];
    let ty = object(vec![("a", reference("A"))], vec!["a"]);
    assert_eq!(
        type_of(&doc, false, &ty).unwrap(),
        "{\n  a: {\n    /**\n     * The end.\n     */\n    b: boolean\n  }\n}"
    );
}

#[test]
fn a_chain_through_every_schema_is_followed_to_its_end() {
    let mut doc = empty_document();
    doc.schemas = vec![
        ("S0".to_string(), item(schema(object(vec![("next", reference("S1"))], vec!["next"])))),
        ("S1".to_string(), item(schema(object(vec![("next", reference("S2"))], vec!["next"])))),
        ("S2".to_string(), reference("S3")),
        ("S3".to_string(), item(schema(SchemaType::Array(Some(reference("S4")))))),
        ("S4".to_string(), item(schema(SchemaType::Boolean))),
    ];
    let ty = object(vec![("first", reference("S0"))], vec!["first"]);
    assert_eq!(
        type_of(&doc, false, &ty).unwrap(),
        "{\n  first: {\n    next: {\n      next: boolean[]\n    }\n  }\n}"
    );
    assert_eq!(
        validator_of(&doc, &ty).unwrap(),
        "z.object({\n  \"first\": z.object({\n    \"next\": z.object({\n      \"next\": z.boolean().array()\n    })\n  })\n})"
    );
}

#[test]
fn schemas_that_refer_to_themselves_are_fatal() {
    let mut doc = empty_document();
    doc.schemas =
        vec![("Node".to_string(), item(schema(object(vec![("next", reference("Node"))], vec![]))))];
    let ty = object(vec![("first", reference("Node"))], vec![]);
    assert_eq!(type_of(&doc, false, &ty), Err(Error::NestingTooDeep));
    assert_eq!(validator_of(&doc, &ty), Err(Error::NestingTooDeep));
    let ty = SchemaType::Array(Some(reference("Node")));
    assert_eq!(type_of(&doc, false, &ty), Err(Error::NestingTooDeep));
}

#[test]
fn entering_counts_named_schemas_only() {
    let mut doc = empty_document();
    doc.schemas = vec![("A".to_string(), item(schema(string())))];
    let inline = item(schema(string()));
    let (_, left) = enter(&doc, &inline, 0).unwrap().unwrap();
    assert_eq!(left, 0);
    let named = reference("A");
    let (_, left) = enter(&doc, &named, 3).unwrap().unwrap();
    assert_eq!(left, 2);
    assert_eq!(enter(&doc, &named, 0).unwrap_err(), Error::NestingTooDeep);
    let missing = reference("B");
    assert!(enter(&doc, &missing, 0).unwrap().is_none());
}

#[test]
fn nesting_beyond_the_counter_is_fatal() {
    let doc = empty_document();
    let ty = object(vec![], vec![]);
    let mut r = Render::new(&doc);
    r.depth = usize::MAX;
    assert_eq!(r.render_type(false, &ty), Err(Error::NestingTooDeep));
    let mut r = Render::new(&doc);
    r.depth = usize::MAX;
    assert_eq!(r.render_response_type(&ty), Err(Error::NestingTooDeep));
}

#[test]
fn schema_comment_budget_shrinks_with_depth() {
    let doc = empty_document();
    let text = format!("{} {}", "a".repeat(35), "b".repeat(35));
    let s = described(&text, string());
    let mut r = Render::new(&doc);
    r.write_schema_comment(&s);
    assert_eq!(r.writer, format!("/**\n * {}\n */\n", text));
    let mut r = Render::new(&doc);
    r.depth = 1;
    r.write_schema_comment(&s);
    assert_eq!(
        r.writer,
        format!("  /**\n   * {}\n   * {}\n   */\n", "a".repeat(35), "b".repeat(35))
    );
    let mut r = Render::new(&doc);
    r.depth = 36;
    r.write_schema_comment(&described("ab cd", string()));
    let pad = " ".repeat(72);
    assert_eq!(r.writer, format!("{pad}/**\n{pad} * ab \n{pad} * cd\n{pad} */\n"));
    let mut r = Render::new(&doc);
    r.write_schema_comment(&schema(string()));
    assert_eq!(r.writer, "");
}

#[test]
fn member_comment_wraps_at_74() {
    let doc = empty_document();
    let fits = format!("{} {}", "a".repeat(36), "b".repeat(37));
    let mut r = Render::new(&doc);
    r.write_member_comment(Some(&fits));
    assert_eq!(r.writer, format!("  /**\n   * {}\n   */\n", fits));
    let long = format!("{} {}", "a".repeat(37), "b".repeat(37));
    let mut r = Render::new(&doc);
    r.write_member_comment(Some(&long));
    assert_eq!(
        r.writer,
        format!("  /**\n   * {}\n   * {}\n   */\n", "a".repeat(37), "b".repeat(37))
    );
    let mut r = Render::new(&doc);
    r.write_member_comment(None);
    assert_eq!(r.writer, "  /**\n   * \n   */\n");
}

#[test]
fn method_with_query_and_body_parameters() {
    let doc = empty_document();
    let text = string();
    let list = SchemaType::Array(None);
    let m = method(
        "updateThing",
        vec![
            param("broadcaster_id", "broadcasterId", &text, false, ParamKind::QueryCurrentUserToken),
            param("id", "ids", &list, true, ParamKind::Query),
            param("after", "after", &text, true, ParamKind::Query),
            param("user_id", "userId", &list, false, ParamKind::QueryUserToken),
            param("title", "title", &text, false, ParamKind::Body),
            param("moderator_id", "moderatorId", &text, false, ParamKind::BodyCurrentUserToken),
            param("content-type", "contentType", &text, true, ParamKind::Body),
            param("user_id2", "userId2", &text, true, ParamKind::BodyUserToken),
        ],
    );
    let mut r = Render::new(&doc);
    r.render_method(&m);
    let expected = "  /**\n   * Updates a thing.\n   */\n  async updateThing(options: UpdateThingRequest): Promise<void> {\n    const snapshot = await this.#twitch.snapshot();\n    const url = new URL(\"/things\", this.#twitch.base);\n    url.searchParams.append(\"broadcaster_id\", snapshot.userId);\n    if (options.ids) {\n      for (const value of options.ids) {\n      url.searchParams.append(\"id\", value.toString());\n    }\n    }\n    if (options.after) {\n      url.searchParams.append(\"after\", options.after.toString());\n    }\n    for (const value of options.userId) {\n      url.searchParams.append(\"user_id\", value.toString());\n    }\n    const opts: RequestInit = { method: 'PATCH' };\n\n    const body: Record<string, unknown> = {};\n\n    body.title = options.title;\n    body.moderator_id = snapshot.userId;\n    body[\"content-type\"] = options.contentType;\n    body[\"user_id2\"] = options.userId2;\n    opts.body = JSON.stringify(body);\n    await this.#twitch.request(url, opts);\n  }\n";
    assert_eq!(r.writer, expected);
}

#[test]
fn request_shape_leaves_out_the_current_user() {
    let doc = empty_document();
    let text = string();
    let list = SchemaType::Array(Some(item(schema(SchemaType::Integer))));
    let number = SchemaType::Integer;
    let mut params = vec![
        param("broadcaster_id", "broadcasterId", &text, false, ParamKind::QueryCurrentUserToken),
        param("id", "ids", &list, true, ParamKind::Query),
        param("user_id", "userId", &list, false, ParamKind::QueryUserToken),
        param("moderator_id", "moderatorId", &text, false, ParamKind::BodyCurrentUserToken),
        param("count", "count", &number, false, ParamKind::Body),
    ];
    params[1].description = Some("The IDs.");
    let m = method("updateThing", params);
    let mut r = Render::new(&doc);
    r.render_requests(&m).unwrap();
    assert_eq!(
        r.writer,
        "export interface UpdateThingRequest {\n  /**\n   * The IDs.\n   */\n  ids?: number[],\n  /**\n   * \n   */\n  userId: string[],\n  /**\n   * \n   */\n  count: number,\n}\n"
    );
}

#[test]
fn request_shape_refuses_odd_user_identifier() {
    let doc = empty_document();
    let number = SchemaType::Integer;
    let m = method(
        "updateThing",
        vec![param("user_id", "userId", &number, false, ParamKind::QueryUserToken)],
    );
    let mut r = Render::new(&doc);
    assert_eq!(r.render_requests(&m), Err(Error::UnexpectedTokenType));
}

#[test]
fn method_without_active_parameters_takes_no_options() {
    let doc = empty_document();
    let text = string();
    let mut m = method(
        "getMe",
        vec![param("user_id", "userId", &text, false, ParamKind::QueryCurrentUserToken)],
    );
    m.method = "get";
    m.description = None;
    m.download = true;
    let mut r = Render::new(&doc);
    r.render_method(&m);
    assert_eq!(
        r.writer,
        "  /**\n   * \n   */\n  async getMe(): Promise<Response> {\n    const snapshot = await this.#twitch.snapshot();\n    const url = new URL(\"/things\", this.#twitch.base);\n    url.searchParams.append(\"user_id\", snapshot.userId);\n    const opts: RequestInit = { method: 'GET' };\n\n    return await this.#twitch.requestDownload(url, opts);\n  }\n"
    );
}

#[test]
fn method_with_response_returns_the_validated_object() {
    let doc = empty_document();
    let ret = object_type(vec![("id", item(schema(string())))], vec!["id"], AdditionalProperties::Absent);
    let mut m = method("get-thing", Vec::new());
    m.ret = Some(&ret);
    m.path = "/a\"b";
    let mut r = Render::new(&doc);
    r.render_method_body(&m);
    assert_eq!(
        r.writer,
        "    const snapshot = await this.#twitch.snapshot();\n    const url = new URL(\"/a\\\"b\", this.#twitch.base);\n    const opts: RequestInit = { method: 'PATCH' };\n\n    return await this.#twitch.request(url, opts, GetThingResponse);\n"
    );
    let mut r = Render::new(&doc);
    r.render_response(&m).unwrap();
    assert_eq!(
        r.writer,
        "export const GetThingResponse = z.object({\n  \"id\": z.string()\n});\nexport interface GetThingResponse extends z.infer<typeof GetThingResponse> {}\n\n"
    );
    m.ret = None;
    let mut r = Render::new(&doc);
    r.render_response(&m).unwrap();
    assert_eq!(r.writer, "");
}

#[test]
fn required_scopes_are_checked_before_the_call() {
    let doc = empty_document();
    let mut m = method("getThing", Vec::new());
    m.requires_scopes = Some(vec!["a:read", "b\"c"]);
    let mut r = Render::new(&doc);
    r.render_method_body(&m);
    assert_eq!(
        r.writer,
        "    const snapshot = await this.#twitch.snapshot();\n    const requiredScopes = [\"a:read\", \"b\\\"c\"];\n    const missingScopes = requiredScopes.filter((scope) => !snapshot.scopes.includes(scope));\n    if (missingScopes.length > 0) {\n      throw new Error(`missing required scopes: ${missingScopes.join(', ')}`);\n    }\n    const url = new URL(\"/things\", this.#twitch.base);\n    const opts: RequestInit = { method: 'PATCH' };\n\n    await this.#twitch.request(url, opts);\n"
    );
}

#[test]
fn names_behind_a_dot_hold_letters_and_underscores() {
    assert!(plain_name("user_id"));
    assert!(plain_name("été"));
    assert!(plain_name(""));
    assert!(!plain_name("user-id"));
    assert!(!plain_name("user2"));
    assert!(!plain_name("a b"));
}

fn channel_document() -> Document {
    Document {
        tags: vec!["Channels".to_string()],
        operations: vec![Operation {
            path: "/channels".to_string(),
            method: "get".to_string(),
            tags: vec!["Channels".to_string()],
            operation_id: Some("getChannel".to_string()),
            description: None,
            parameters: vec![ParameterRef::Item(Parameter {
                location: ParameterLocation::Query,
                name: "broadcaster_id".to_string(),
                description: None,
                required: true,
                format: ParameterFormat::Schema(item(schema(string()))),
            })],
            request_body: None,
            responses: vec![(
                StatusCode::Code(200),
                PayloadRef::Item(vec![(
                    "application/json".to_string(),
                    Some(item(schema(object(
                        vec![
                            ("broadcaster_id", item(schema(string()))),
                            ("title", item(schema(string()))),
                        ],
                        vec!["broadcaster_id", "title"],
                    )))),
                )]),
            )],
            security: None,
        }],
        schemas: Vec::new(),
    }
}

#[test]
fn channel_example_end_to_end() {
    let doc = channel_document();
    let out = generate(&doc).unwrap();
    assert_eq!(out.units.len(), 1);
    assert_eq!(out.units[0].0, "channels");
    let expected = format!(
        "{}\n{}{}{}{}",
        FILE_NOTICE,
        "export interface GetChannelRequest {\n  /**\n   * \n   */\n  broadcasterId: string,\n}\n",
        "export const GetChannelResponse = z.object({\n  \"broadcaster_id\": z.string(),\n  \"title\": z.string()\n}).transform((it) => ({\n  \"broadcasterId\": it[\"broadcaster_id\"],\n  \"title\": it[\"title\"],\n\n}));\nexport interface GetChannelResponse extends z.infer<typeof GetChannelResponse> {}\n\n",
        "\n\nexport class Channels {\n  readonly #twitch: Twitch;\n\n  constructor(twitch: Twitch) {\n    this.#twitch = twitch;\n  }\n\n",
        "  /**\n   * \n   */\n  async getChannel(options: GetChannelRequest): Promise<GetChannelResponse> {\n    const snapshot = await this.#twitch.snapshot();\n    const url = new URL(\"/channels\", this.#twitch.base);\n    url.searchParams.append(\"broadcaster_id\", options.broadcasterId.toString());\n    const opts: RequestInit = { method: 'GET' };\n\n    return await this.#twitch.request(url, opts, GetChannelResponse);\n  }\n}\n",
    );
    assert_eq!(out.units[0].1, expected);
    assert_eq!(out.index, format!("{}\nexport * from \"./channels\";\n", FILE_NOTICE));
}

#[test]
fn generation_is_repeatable() {
    let a = generate(&channel_document()).unwrap();
    let b = generate(&channel_document()).unwrap();
    assert_eq!(a.units, b.units);
    assert_eq!(a.index, b.index);
}

#[test]
fn notice_opens_every_unit() {
    assert!(FILE_NOTICE.starts_with("\n/***"));
    assert!(FILE_NOTICE.ends_with("import { z } from \"zod\";\n"));
    let mut doc = channel_document();
    doc.tags = vec!["Ads".to_string(), "Channels".to_string()];
    let out = generate(&doc).unwrap();
    assert_eq!(out.units.len(), 2);
    assert_eq!(out.units[0].0, "ads");
    assert_eq!(
        out.units[0].1,
        format!(
            "{}\n\n\nexport class Ads {{\n  readonly #twitch: Twitch;\n\n  constructor(twitch: Twitch) {{\n    this.#twitch = twitch;\n  }}\n\n}}\n",
            FILE_NOTICE
        )
    );
    assert_eq!(
        out.index,
        format!("{}\nexport * from \"./ads\";\nexport * from \"./channels\";\n", FILE_NOTICE)
    );
}

#[test]
fn excluded_namespace_is_never_emitted() {
    assert_eq!(EXCLUDED_NAMESPACE, "eventSub");
    let mut doc = channel_document();
    doc.tags = vec!["EventSub".to_string()];
    doc.operations[0].tags = vec!["EventSub".to_string()];
    let out = generate(&doc).unwrap();
    assert_eq!(out.units.len(), 0);
    assert_eq!(out.index, format!("{}\n", FILE_NOTICE));
    let model = Extract::new(&doc).unwrap();
    let all = render(&model, &doc).unwrap();
    assert_eq!(all.units.len(), 1);
    assert_eq!(all.units[0].0, "eventSub");
    assert_eq!(render_index(&model), format!("{}\nexport * from \"./eventSub\";\n", FILE_NOTICE));
}

#[test]
fn generation_fails_with_the_first_error() {
    let mut doc = channel_document();
    doc.operations[0].operation_id = None;
    assert_eq!(generate(&doc).map(|_| ()), Err(Error::MissingOperationId));
    let mut doc = channel_document();
    doc.operations[0].parameters = vec![ParameterRef::Item(Parameter {
        location: ParameterLocation::Query,
        name: "broadcaster_id".to_string(),
        description: None,
        required: true,
        format: ParameterFormat::Schema(item(schema(SchemaType::Integer))),
    })];
    assert_eq!(generate(&doc).map(|_| ()), Err(Error::UnexpectedTokenType));
}

#[test]
fn unit_of_an_empty_namespace() {
    let doc = empty_document();
    let ns = ExtractNamespace { methods: Vec::new() };
    let mut r = Render::new(&doc);
    r.render("channel points", &ns).unwrap();
    assert_eq!(
        r.writer,
        format!(
            "{}\n\n\nexport class ChannelPoints {{\n  readonly #twitch: Twitch;\n\n  constructor(twitch: Twitch) {{\n    this.#twitch = twitch;\n  }}\n\n}}\n",
            FILE_NOTICE
        )
    );
}
