//! Response schemas as runtime validators.
//!
//! The static type of a response is never written out: it is declared as
//! what its validator infers. An object with a property whose name holds
//! an underscore gets a second stage that rebuilds it under camel-cased
//! keys; every object decides this for itself.

use crate::error::Error;
use crate::extract::{ExtractNamespaceMethod, MethodView};
use crate::render::{
    enter, escaped, lemma_prepend_step, prepend, push_escaped, schema_comment, target, Render,
};
use crate::resolve::{resolve, resolve_reference_schema};
use crate::schema::{
    option_text, texts, AdditionalProperties, AdditionalPropertiesView, ObjectType,
    ObjectTypeView, SchemaKind, SchemaKindView, SchemaRefView, SchemaType, SchemaTypeView,
};
use crate::text::{
    has_char, indent, is_listed, lemma_concat_assoc, lemma_concat_empty, lower_camel_case,
    push_indent, to_lower_camel_case, to_upper_camel_case, upper_camel_case,
};
use vstd::prelude::*;
use vstd::string::*;

verus! {

/// The permitted values of a restricted string from index `from` on, as
/// string literals separated by commas. Entries without a value are
/// passed over; `first` says that no value has been listed yet.
pub open spec fn enum_list(values: Seq<Option<Seq<char>>>, from: int, first: bool) -> Seq<char>
    decreases values.len() - from,
{
    if from < 0 || from >= values.len() {
        Seq::empty()
    } else {
        match values[from] {
            None => enum_list(values, from + 1, first),
            Some(v) => (if first {
                ""@
            } else {
                ", "@
            }) + "\""@ + escaped(v) + "\""@ + enum_list(values, from + 1, false),
        }
    }
}

/// Whether the name of some property holds an underscore.
pub open spec fn should_transform(properties: Seq<(Seq<char>, SchemaRefView)>) -> bool {
    exists|i: int| 0 <= i < properties.len() && (#[trigger] properties[i]).0.contains('_')
}

/// The validator of a schema at a depth of nesting.
pub open spec fn validator_text(
    schemas: Seq<(Seq<char>, SchemaRefView)>,
    ty: SchemaTypeView,
    depth: nat,
    hops: nat,
) -> Result<Seq<char>, Error>
    decreases hops, ty, 0nat,
{
    match ty {
        SchemaTypeView::String(values) => Ok(
            if values.len() == 0 {
                "z.string()"@
            } else {
                "z.enum(["@ + enum_list(values, 0, true) + "])"@
            },
        ),
        SchemaTypeView::Number => Ok("z.number()"@),
        SchemaTypeView::Integer => Ok("z.number()"@),
        SchemaTypeView::Boolean => Ok("z.boolean()"@),
        SchemaTypeView::Array(None) => Ok("z.unknown()"@ + ".array()"@),
        SchemaTypeView::Array(Some(items)) => match target(schemas, items, hops) {
            Err(e) => Err(e),
            Ok(None) => Ok("z.unknown()"@ + ".array()"@),
            Ok(Some((schema, left))) => match schema.kind {
                SchemaKindView::Composite => Err(Error::UnsupportedSchema),
                SchemaKindView::Type(item) => match validator_text(schemas, item, depth, left) {
                    Err(e) => Err(e),
                    Ok(text) => Ok(text + ".array()"@),
                },
            },
        },
        SchemaTypeView::Object(obj) => object_validator_text(schemas, obj, depth, hops),
    }
}

/// The validator of one property, which says what values the property
/// may hold: that of its schema, optional where the property is not
/// required.
pub open spec fn property_validator_text(
    schemas: Seq<(Seq<char>, SchemaRefView)>,
    name: Seq<char>,
    prop: SchemaRefView,
    required: Seq<Seq<char>>,
    depth: nat,
    hops: nat,
) -> Result<Seq<char>, Error>
    decreases hops, prop, 0nat,
{
    match target(schemas, prop, hops) {
        Err(e) => Err(e),
        Ok(None) => Err(Error::UnresolvedReference),
        Ok(Some((schema, left))) => match schema.kind {
            SchemaKindView::Composite => Err(Error::UnsupportedSchema),
            SchemaKindView::Type(ty) => match validator_text(schemas, ty, depth, left) {
                Err(e) => Err(e),
                Ok(text) => Ok(
                    text + (if required.contains(name) {
                        ""@
                    } else {
                        ".optional()"@
                    }),
                ),
            },
        },
    }
}

/// The documentation of the schema behind a property.
pub open spec fn property_comment(
    schemas: Seq<(Seq<char>, SchemaRefView)>,
    prop: SchemaRefView,
    depth: nat,
) -> Seq<char> {
    match resolve(schemas, prop) {
        Some(schema) => schema_comment(schema.description, depth),
        None => Seq::empty(),
    }
}

/// The key of a field of an object validator: the wire name of the
/// property.
pub open spec fn field_label(name: Seq<char>, depth: nat) -> Seq<char> {
    indent(depth) + "\""@ + name + "\": "@
}

/// One field of an object validator: under its wire name, with its
/// comment where `comments` is set.
pub open spec fn field_text(
    schemas: Seq<(Seq<char>, SchemaRefView)>,
    name: Seq<char>,
    prop: SchemaRefView,
    required: Seq<Seq<char>>,
    comments: bool,
    depth: nat,
    hops: nat,
) -> Result<Seq<char>, Error>
    decreases hops, prop, 1nat,
{
    match property_validator_text(schemas, name, prop, required, depth, hops) {
        Err(e) => Err(e),
        Ok(validator) => Ok(
            (if comments {
                property_comment(schemas, prop, depth)
            } else {
                Seq::empty()
            }) + field_label(name, depth) + validator,
        ),
    }
}

/// The fields of an object validator from index `from` on, separated by
/// commas.
pub open spec fn fields_text(
    schemas: Seq<(Seq<char>, SchemaRefView)>,
    obj: ObjectTypeView,
    from: int,
    comments: bool,
    depth: nat,
    hops: nat,
) -> Result<Seq<char>, Error>
    decreases hops, obj, obj.properties.len() - from,
{
    if from < 0 || from >= obj.properties.len() {
        Ok(Seq::empty())
    } else {
        match field_text(
            schemas,
            obj.properties[from].0,
            obj.properties[from].1,
            obj.required,
            comments,
            depth,
            hops,
        ) {
            Err(e) => Err(e),
            Ok(first) => match fields_text(schemas, obj, from + 1, comments, depth, hops) {
                Err(e) => Err(e),
                Ok(rest) => Ok(
                    (if from == 0 {
                        ""@
                    } else {
                        ",\n"@
                    }) + first + rest,
                ),
            },
        }
    }
}

/// One entry of the transform stage: it maps a wire name to its
/// camel-cased identifier.
pub open spec fn mapping_text(name: Seq<char>, depth: nat) -> Seq<char> {
    indent(depth) + "\""@ + lower_camel_case(name) + "\": it[\""@ + name + "\"],\n"@
}

/// The entries of the transform stage from index `from` on, each under
/// the comment of its property.
pub open spec fn mappings_text(
    schemas: Seq<(Seq<char>, SchemaRefView)>,
    properties: Seq<(Seq<char>, SchemaRefView)>,
    from: int,
    depth: nat,
) -> Seq<char>
    decreases properties.len() - from,
{
    if from < 0 || from >= properties.len() {
        Seq::empty()
    } else {
        property_comment(schemas, properties[from].1, depth) + mapping_text(
            properties[from].0,
            depth,
        ) + mappings_text(schemas, properties, from + 1, depth)
    }
}

/// What a validator says of properties that the object does not name:
/// nothing where the schema says nothing of them or refuses them, that
/// they are unknown where it admits them, and their validator where it
/// gives their schema.
pub open spec fn catch_all_text(
    schemas: Seq<(Seq<char>, SchemaRefView)>,
    additional: AdditionalPropertiesView,
    depth: nat,
    hops: nat,
) -> Result<Seq<char>, Error>
    decreases hops, additional, 0nat,
{
    match additional {
        AdditionalPropertiesView::Absent => Ok(Seq::empty()),
        AdditionalPropertiesView::Any(false) => Ok(Seq::empty()),
        AdditionalPropertiesView::Any(true) => Ok(".catchall(z.unknown())\n"@),
        AdditionalPropertiesView::Schema(r) => match target(schemas, *r, hops) {
            Err(e) => Err(e),
            Ok(None) => Err(Error::UnresolvedReference),
            Ok(Some((schema, left))) => match schema.kind {
                SchemaKindView::Composite => Err(Error::UnsupportedSchema),
                SchemaKindView::Type(ty) => match validator_text(schemas, ty, depth + 1, left) {
                    Err(e) => Err(e),
                    Ok(text) => Ok(
                        schema_comment(schema.description, depth) + ".catchall("@ + text + ")"@,
                    ),
                },
            },
        },
    }
}

/// The end of an object validator behind its fields: the closing of the
/// object, and before it the transform stage where the object has one.
pub open spec fn closing_text(
    schemas: Seq<(Seq<char>, SchemaRefView)>,
    properties: Seq<(Seq<char>, SchemaRefView)>,
    depth: nat,
) -> Seq<char> {
    if should_transform(properties) {
        "\n"@ + indent(depth) + "}).transform((it) => ({\n"@ + mappings_text(
            schemas,
            properties,
            0,
            depth + 1,
        ) + "\n"@ + indent(depth) + "}))"@
    } else {
        "\n"@ + indent(depth) + "})"@
    }
}

/// The validator of an object.
pub open spec fn object_validator_text(
    schemas: Seq<(Seq<char>, SchemaRefView)>,
    obj: ObjectTypeView,
    depth: nat,
    hops: nat,
) -> Result<Seq<char>, Error>
    decreases hops, obj, obj.properties.len() + 1,
{
    if depth >= usize::MAX {
        Err(Error::NestingTooDeep)
    } else {
        match (if obj.properties.len() == 0 {
            Ok("z.object({})"@)
        } else {
            match fields_text(
                schemas,
                obj,
                0,
                !should_transform(obj.properties),
                depth + 1,
                hops,
            ) {
                Err(e) => Err(e),
                Ok(fields) => Ok(
                    "z.object({\n"@ + fields + closing_text(schemas, obj.properties, depth),
                ),
            }
        }) {
            Err(e) => Err(e),
            Ok(object) => match catch_all_text(schemas, obj.additional_properties, depth, hops) {
                Err(e) => Err(e),
                Ok(catch_all) => Ok(object + catch_all),
            },
        }
    }
}

/// The name under which the response of a method is declared.
pub open spec fn response_name(method: Seq<char>) -> Seq<char> {
    upper_camel_case(method + "Response"@)
}

/// The opening of the declaration of a validator.
pub open spec fn declaration_head(name: Seq<char>) -> Seq<char> {
    "export const "@ + name + " = "@
}

/// The declaration of the type of a response as what its validator
/// infers.
pub open spec fn inferred_type_text(name: Seq<char>) -> Seq<char> {
    "export interface "@ + name + " extends z.infer<typeof "@ + name + "> {}\n\n"@
}

/// The declaration of the response of a method: its validator, and the
/// type that the validator infers. Nothing where the method returns no
/// object.
pub open spec fn response_text(
    schemas: Seq<(Seq<char>, SchemaRefView)>,
    method: MethodView,
    depth: nat,
    hops: nat,
) -> Result<Seq<char>, Error> {
    match method.ret {
        None => Ok(Seq::empty()),
        Some(obj) => match object_validator_text(schemas, obj, depth, hops) {
            Err(e) => Err(e),
            Ok(validator) => Ok(
                declaration_head(response_name(method.name)) + validator + ";\n"@
                    + inferred_type_text(response_name(method.name)),
            ),
        },
    }
}

/// An object with properties has a transform stage exactly if some name
/// holds an underscore. Without the stage the fields carry the comments;
/// with it the entries of the stage carry them.
pub proof fn lemma_transform_stage(
    schemas: Seq<(Seq<char>, SchemaRefView)>,
    obj: ObjectTypeView,
    depth: nat,
    hops: nat,
)
    requires
        obj.properties.len() > 0,
        depth < usize::MAX,
    ensures
        !should_transform(obj.properties) ==> object_validator_text(schemas, obj, depth, hops) == (
        match fields_text(schemas, obj, 0, true, depth + 1, hops) {
            Err(e) => Err(e),
            Ok(fields) => match catch_all_text(schemas, obj.additional_properties, depth, hops) {
                Err(e) => Err(e),
                Ok(catch_all) => Ok(
                    "z.object({\n"@ + fields + ("\n"@ + indent(depth) + "})"@) + catch_all,
                ),
            },
        }),
        should_transform(obj.properties) ==> object_validator_text(schemas, obj, depth, hops) == (
        match fields_text(schemas, obj, 0, false, depth + 1, hops) {
            Err(e) => Err(e),
            Ok(fields) => match catch_all_text(schemas, obj.additional_properties, depth, hops) {
                Err(e) => Err(e),
                Ok(catch_all) => Ok(
                    "z.object({\n"@ + fields + ("\n"@ + indent(depth)
                        + "}).transform((it) => ({\n"@ + mappings_text(
                        schemas,
                        obj.properties,
                        0,
                        depth + 1,
                    ) + "\n"@ + indent(depth) + "}))"@) + catch_all,
                ),
            },
        }),
{
}

/// Where the schema says nothing of further properties or refuses them,
/// the validator has no catch-all; where it admits them, the catch-all
/// takes unknown values; where it gives their schema, the catch-all is
/// the validator of that schema, rendered as any other.
pub proof fn lemma_catch_all(
    schemas: Seq<(Seq<char>, SchemaRefView)>,
    additional: AdditionalPropertiesView,
    depth: nat,
    hops: nat,
)
    ensures
        additional is Absent || additional == AdditionalPropertiesView::Any(false)
            ==> catch_all_text(schemas, additional, depth, hops) == Ok::<Seq<char>, Error>(
            Seq::empty(),
        ),
        additional == AdditionalPropertiesView::Any(true) ==> catch_all_text(
            schemas,
            additional,
            depth,
            hops,
        ) == Ok::<Seq<char>, Error>(".catchall(z.unknown())\n"@),
        additional matches AdditionalPropertiesView::Schema(r) ==> (target(schemas, *r, hops)
            matches Ok(Some((schema, left))) ==> (schema.kind matches SchemaKindView::Type(ty)
            ==> catch_all_text(schemas, additional, depth, hops) == (match validator_text(
            schemas,
            ty,
            depth + 1,
            left,
        ) {
            Err(e) => Err(e),
            Ok(text) => Ok(schema_comment(schema.description, depth) + ".catchall("@ + text + ")"@),
        }))),
{
}

/// With or without comments, a field holds the same validator: the two
/// forms of a field differ in the comment alone, and the fields of an
/// object fail in one form exactly if they fail in the other, with the
/// same error.
pub proof fn lemma_fields_hold_same_validators(
    schemas: Seq<(Seq<char>, SchemaRefView)>,
    obj: ObjectTypeView,
    from: int,
    depth: nat,
    hops: nat,
)
    ensures
        0 <= from < obj.properties.len() ==> (match property_validator_text(
            schemas,
            obj.properties[from].0,
            obj.properties[from].1,
            obj.required,
            depth,
            hops,
        ) {
            Err(e) => field_text(
                schemas,
                obj.properties[from].0,
                obj.properties[from].1,
                obj.required,
                true,
                depth,
                hops,
            ) == Err::<Seq<char>, Error>(e) && field_text(
                schemas,
                obj.properties[from].0,
                obj.properties[from].1,
                obj.required,
                false,
                depth,
                hops,
            ) == Err::<Seq<char>, Error>(e),
            Ok(validator) => field_text(
                schemas,
                obj.properties[from].0,
                obj.properties[from].1,
                obj.required,
                true,
                depth,
                hops,
            ) == Ok::<Seq<char>, Error>(
                property_comment(schemas, obj.properties[from].1, depth) + field_label(
                    obj.properties[from].0,
                    depth,
                ) + validator,
            ) && field_text(
                schemas,
                obj.properties[from].0,
                obj.properties[from].1,
                obj.required,
                false,
                depth,
                hops,
            ) == Ok::<Seq<char>, Error>(
                Seq::empty() + field_label(obj.properties[from].0, depth) + validator,
            ),
        }),
        match fields_text(schemas, obj, from, true, depth, hops) {
            Err(e) => fields_text(schemas, obj, from, false, depth, hops) == Err::<
                Seq<char>,
                Error,
            >(e),
            Ok(_) => fields_text(schemas, obj, from, false, depth, hops) is Ok,
        },
    decreases obj.properties.len() - from,
{
    if 0 <= from < obj.properties.len() {
        lemma_fields_hold_same_validators(schemas, obj, from + 1, depth, hops);
    }
}

/// Whether the name of some property holds an underscore.
pub fn should_transform_properties(obj: &ObjectType) -> (r: bool)
    ensures
        r == should_transform(obj@.properties),
{
    let mut i: usize = 0;
    while i < obj.properties.len()
        invariant
            i <= obj.properties.len(),
            obj@.properties.len() == obj.properties.len(),
            forall|k: int| 0 <= k < i ==> !(#[trigger] obj@.properties[k]).0.contains('_'),
        decreases obj.properties.len() - i,
    {
        assert(obj@.properties[i as int].0 == obj.properties[i as int].0@);
        if has_char(obj.properties[i].0.as_str(), '_') {
            return true;
        }
        i += 1;
    }
    false
}

impl<'o> Render<'o> {
    /// Writes the permitted values of a restricted string.
    fn render_enum_list(&mut self, values: &Vec<Option<String>>)
        ensures
            final(self).same_context(old(self)),
            final(self).writer@ == old(self).writer@ + enum_list(
                Seq::new(values@.len(), |i: int| option_text(values@[i])),
                0,
                true,
            ),
    {
        let ghost all = Seq::new(values@.len(), |i: int| option_text(values@[i]));
        let ghost goal = old(self).writer@ + enum_list(all, 0, true);
        let mut first = true;
        let mut i: usize = 0;
        while i < values.len()
            invariant
                i <= values.len(),
                self.same_context(old(self)),
                all == Seq::new(values@.len(), |i: int| option_text(values@[i])),
                goal == self.writer@ + enum_list(all, i as int, first),
            decreases values.len() - i,
        {
            match &values[i] {
                Some(v) => {
                    if first {
                        proof {
                            lemma_concat_empty(self.writer@);
                        }
                    } else {
                        self.writer.append(", ");
                    }
                    self.writer.append("\"");
                    push_escaped(&mut self.writer, v.as_str());
                    self.writer.append("\"");
                    assert(all[i as int] == Some(v@));
                    assert(goal =~= self.writer@ + enum_list(all, i + 1, false));
                    first = false;
                },
                None => {
                    assert(all[i as int] == None::<Seq<char>>);
                },
            }
            i += 1;
        }
        assert(self.writer@ + Seq::<char>::empty() =~= self.writer@);
    }

    /// Writes the validator of a schema.
    pub fn render_response_type(&mut self, ty: &SchemaType) -> (r: Result<(), Error>)
        ensures
            final(self).wrote(
                old(self),
                r,
                validator_text(
                    old(self).api@.schemas,
                    ty@,
                    old(self).depth as nat,
                    old(self).hops as nat,
                ),
            ),
        decreases old(self).hops, ty, 0nat,
    {
        let api = self.api;
        let ghost before = self.writer@;
        match ty {
            SchemaType::String(values) => {
                assert(ty@->String_0 =~= Seq::new(
                    values@.len(),
                    |i: int| option_text(values@[i]),
                ));
                if values.len() == 0 {
                    self.writer.append("z.string()");
                } else {
                    self.writer.append("z.enum([");
                    self.render_enum_list(values);
                    self.writer.append("])");
                    assert(self.writer@ =~= before + ("z.enum(["@ + enum_list(
                        ty@->String_0,
                        0,
                        true,
                    ) + "])"@));
                }
                Ok(())
            },
            SchemaType::Number => {
                self.writer.append("z.number()");
                Ok(())
            },
            SchemaType::Integer => {
                self.writer.append("z.number()");
                Ok(())
            },
            SchemaType::Boolean => {
                self.writer.append("z.boolean()");
                Ok(())
            },
            SchemaType::Array(items) => {
                let ghost mut inner: Seq<char> = "z.unknown()"@;
                match items {
                    None => {
                        self.writer.append("z.unknown()");
                    },
                    Some(item_ref) => match enter(api, item_ref, self.hops) {
                        Err(e) => {
                            return Err(e);
                        },
                        Ok(None) => {
                            self.writer.append("z.unknown()");
                        },
                        Ok(Some((schema, left))) => match &schema.kind {
                            SchemaKind::Composite => {
                                return Err(Error::UnsupportedSchema);
                            },
                            SchemaKind::Type(item) => {
                                let saved = self.hops;
                                self.hops = left;
                                proof {
                                    if left == saved {
                                        assert(ty->Array_0->Some_0 == *item_ref);
                                        assert(*item_ref->Item_0 == *schema);
                                        assert(schema.kind->Type_0 == *item);
                                        assert(decreases_to!(ty => item));
                                    }
                                }
                                match self.render_response_type(item) {
                                    Err(e) => {
                                        return Err(e);
                                    },
                                    Ok(()) => {},
                                }
                                self.hops = saved;
                                proof {
                                    inner = validator_text(
                                        api@.schemas,
                                        item@,
                                        self.depth as nat,
                                        left as nat,
                                    )->Ok_0;
                                }
                            },
                        },
                    },
                }
                self.writer.append(".array()");
                assert(self.writer@ =~= before + (inner + ".array()"@));
                Ok(())
            },
            SchemaType::Object(obj) => self.render_response_object(obj),
        }
    }

    /// Writes the key of a field of an object validator.
    fn write_field_label(&mut self, name: &str)
        ensures
            final(self).same_context(old(self)),
            final(self).writer@ == old(self).writer@ + field_label(name@, old(self).depth as nat),
    {
        let ghost before = self.writer@;
        push_indent(&mut self.writer, self.depth);
        self.writer.append("\"");
        self.writer.append(name);
        self.writer.append("\": ");
        assert(self.writer@ =~= before + (indent(self.depth as nat) + "\""@ + name@ + "\": "@));
    }

    /// Writes the comment of a field where `comments` is set.
    fn write_field_comment(&mut self, schema: &crate::schema::Schema, comments: bool)
        ensures
            final(self).same_context(old(self)),
            final(self).writer@ == old(self).writer@ + (if comments {
                schema_comment(schema@.description, old(self).depth as nat)
            } else {
                Seq::empty()
            }),
    {
        if comments {
            self.write_schema_comment(schema);
        } else {
            proof {
                lemma_concat_empty(self.writer@);
            }
        }
    }

    /// Writes the mark of an optional field.
    fn write_optional_mark(&mut self, optional: bool)
        ensures
            final(self).same_context(old(self)),
            final(self).writer@ == old(self).writer@ + (if optional {
                ".optional()"@
            } else {
                ""@
            }),
    {
        if optional {
            self.writer.append(".optional()");
        } else {
            proof {
                lemma_concat_empty(self.writer@);
            }
        }
    }

    /// Writes one field of an object validator.
    fn render_field(&mut self, obj: &ObjectType, i: usize, comments: bool) -> (r: Result<
        (),
        Error,
    >)
        requires
            i < obj.properties.len(),
        ensures
            final(self).wrote(
                old(self),
                r,
                field_text(
                    old(self).api@.schemas,
                    obj@.properties[i as int].0,
                    obj@.properties[i as int].1,
                    obj@.required,
                    comments,
                    old(self).depth as nat,
                    old(self).hops as nat,
                ),
            ),
        decreases old(self).hops, obj, 0nat,
    {
        let api = self.api;
        let ghost before = self.writer@;
        let ghost d = self.depth as nat;
        let entry = &obj.properties[i];
        assert(obj@.properties[i as int] == (entry.0@, entry.1@));
        assert(obj@.required == texts(obj.required));
        let (schema, left) = match enter(api, &entry.1, self.hops) {
            Err(e) => {
                return Err(e);
            },
            Ok(None) => {
                return Err(Error::UnresolvedReference);
            },
            Ok(Some(found)) => found,
        };
        let optional = !is_listed(&obj.required, entry.0.as_str());
        self.write_field_comment(schema, comments);
        let ghost comment = if comments {
            property_comment(api@.schemas, entry.1@, d)
        } else {
            Seq::empty()
        };
        let ghost label = field_label(entry.0@, d);
        self.write_field_label(entry.0.as_str());
        let ghost labelled = self.writer@;
        match &schema.kind {
            SchemaKind::Composite => Err(Error::UnsupportedSchema),
            SchemaKind::Type(ty) => {
                let saved = self.hops;
                self.hops = left;
                proof {
                    if left == saved {
                        assert(obj.properties[i as int].1 == entry.1);
                        assert(*entry.1->Item_0 == *schema);
                        assert(schema.kind->Type_0 == *ty);
                        vstd::std_specs::vec::axiom_vec_index_decreases(obj.properties, i as int);
                        assert(decreases_to!(obj => obj.properties));
                        assert(decreases_to!(obj.properties => obj.properties[i as int]));
                        assert(decreases_to!(obj => ty));
                    }
                }
                match self.render_response_type(ty) {
                    Err(e) => {
                        return Err(e);
                    },
                    Ok(()) => {},
                }
                self.hops = saved;
                self.write_optional_mark(optional);
                proof {
                    let text = validator_text(api@.schemas, ty@, d, left as nat)->Ok_0;
                    let mark = if optional {
                        ".optional()"@
                    } else {
                        ""@
                    };
                    lemma_concat_assoc(before, comment, label);
                    lemma_concat_assoc(labelled, text, mark);
                    lemma_concat_assoc(before, comment + label, text + mark);
                }
                Ok(())
            },
        }
    }

    /// Writes one entry of the transform stage.
    fn write_mapping(&mut self, name: &str)
        ensures
            final(self).same_context(old(self)),
            final(self).writer@ == old(self).writer@ + mapping_text(name@, old(self).depth as nat),
    {
        let ghost before = self.writer@;
        push_indent(&mut self.writer, self.depth);
        self.writer.append("\"");
        let id = to_lower_camel_case(name);
        self.writer.append(id.as_str());
        self.writer.append("\": it[\"");
        self.writer.append(name);
        self.writer.append("\"],\n");
        assert(self.writer@ =~= before + (indent(self.depth as nat) + "\""@ + lower_camel_case(
            name@,
        ) + "\": it[\""@ + name@ + "\"],\n"@));
    }

    /// Writes the entries of the transform stage of an object.
    fn render_mappings(&mut self, obj: &ObjectType)
        ensures
            final(self).same_context(old(self)),
            final(self).writer@ == old(self).writer@ + mappings_text(
                old(self).api@.schemas,
                obj@.properties,
                0,
                old(self).depth as nat,
            ),
    {
        let api = self.api;
        let ghost d = self.depth as nat;
        let ghost goal = self.writer@ + mappings_text(api@.schemas, obj@.properties, 0, d);
        let mut i: usize = 0;
        while i < obj.properties.len()
            invariant
                i <= obj.properties.len(),
                obj@.properties.len() == obj.properties.len(),
                self.same_context(old(self)),
                api == self.api,
                d == self.depth as nat,
                goal == self.writer@ + mappings_text(api@.schemas, obj@.properties, i as int, d),
            decreases obj.properties.len() - i,
        {
            let ghost before = self.writer@;
            let entry = &obj.properties[i];
            assert(obj@.properties[i as int] == (entry.0@, entry.1@));
            match resolve_reference_schema(&entry.1, api) {
                Some(schema) => {
                    self.write_schema_comment(schema);
                },
                None => {
                    proof {
                        lemma_concat_empty(before);
                    }
                },
            }
            self.write_mapping(entry.0.as_str());
            proof {
                let comment = property_comment(api@.schemas, entry.1@, d);
                let mapping = mapping_text(entry.0@, d);
                lemma_concat_assoc(before, comment, mapping);
                lemma_concat_assoc(
                    before,
                    comment + mapping,
                    mappings_text(api@.schemas, obj@.properties, i + 1, d),
                );
            }
            i += 1;
        }
        assert(self.writer@ + Seq::<char>::empty() =~= self.writer@);
    }

    /// Writes what a validator says of properties that the object does
    /// not name.
    fn render_catch_all(&mut self, obj: &ObjectType) -> (r: Result<(), Error>)
        requires
            old(self).depth < usize::MAX,
        ensures
            final(self).wrote(
                old(self),
                r,
                catch_all_text(
                    old(self).api@.schemas,
                    obj@.additional_properties,
                    old(self).depth as nat,
                    old(self).hops as nat,
                ),
            ),
        decreases old(self).hops, obj, 0nat,
    {
        let api = self.api;
        let ghost before = self.writer@;
        let ghost d = self.depth as nat;
        match &obj.additional_properties {
            AdditionalProperties::Absent => {
                assert(self.writer@ =~= before + Seq::<char>::empty());
                Ok(())
            },
            AdditionalProperties::Any(false) => {
                assert(self.writer@ =~= before + Seq::<char>::empty());
                Ok(())
            },
            AdditionalProperties::Any(true) => {
                self.writer.append(".catchall(z.unknown())\n");
                Ok(())
            },
            AdditionalProperties::Schema(r) => {
                let (schema, left) = match enter(api, r, self.hops) {
                    Err(e) => {
                        return Err(e);
                    },
                    Ok(None) => {
                        return Err(Error::UnresolvedReference);
                    },
                    Ok(Some(found)) => found,
                };
                match &schema.kind {
                    SchemaKind::Composite => Err(Error::UnsupportedSchema),
                    SchemaKind::Type(ty) => {
                        self.write_schema_comment(schema);
                        self.writer.append(".catchall(");
                        let saved = self.hops;
                        self.hops = left;
                        self.depth += 1;
                        proof {
                            if left == saved {
                                assert(obj.additional_properties->Schema_0 == *r);
                                assert(*r->Item_0 == *schema);
                                assert(schema.kind->Type_0 == *ty);
                                assert(decreases_to!(obj => ty));
                            }
                        }
                        match self.render_response_type(ty) {
                            Err(e) => {
                                return Err(e);
                            },
                            Ok(()) => {},
                        }
                        self.depth -= 1;
                        self.hops = saved;
                        self.writer.append(")");
                        proof {
                            let text = validator_text(api@.schemas, ty@, d + 1, left as nat)->Ok_0;
                            assert(self.writer@ =~= before + (schema_comment(
                                schema@.description,
                                d,
                            ) + ".catchall("@ + text + ")"@));
                        }
                        Ok(())
                    },
                }
            },
        }
    }

    /// Writes the fields of an object validator, one level deeper.
    fn render_fields(&mut self, obj: &ObjectType, comments: bool) -> (r: Result<(), Error>)
        requires
            old(self).depth < usize::MAX,
        ensures
            final(self).wrote(
                old(self),
                r,
                fields_text(
                    old(self).api@.schemas,
                    obj@,
                    0,
                    comments,
                    (old(self).depth + 1) as nat,
                    old(self).hops as nat,
                ),
            ),
        decreases old(self).hops, obj, 1nat,
    {
        let ghost before = self.writer@;
        let ghost schemas = self.api@.schemas;
        let ghost d = (self.depth + 1) as nat;
        let ghost h = self.hops as nat;
        let ghost whole = fields_text(schemas, obj@, 0, comments, d, h);
        let ghost acc: Seq<char> = Seq::empty();
        self.depth += 1;
        let mut i: usize = 0;
        while i < obj.properties.len()
            invariant
                i <= obj.properties.len(),
                obj@.properties.len() == obj.properties.len(),
                self.api == old(self).api,
                self.hops == old(self).hops,
                self.depth == old(self).depth + 1,
                schemas == self.api@.schemas,
                d == self.depth as nat,
                h == self.hops as nat,
                self.writer@ == before + acc,
                whole == fields_text(schemas, obj@, 0, comments, d, h),
                whole == prepend(acc, fields_text(schemas, obj@, i as int, comments, d, h)),
            decreases obj.properties.len() - i,
        {
            if i > 0 {
                self.writer.append(",\n");
            } else {
                proof {
                    lemma_concat_empty(self.writer@);
                }
            }
            match self.render_field(obj, i, comments) {
                Err(e) => {
                    return Err(e);
                },
                Ok(()) => {},
            }
            proof {
                let sep = if i == 0 {
                    ""@
                } else {
                    ",\n"@
                };
                let first = field_text(
                    schemas,
                    obj@.properties[i as int].0,
                    obj@.properties[i as int].1,
                    obj@.required,
                    comments,
                    d,
                    h,
                )->Ok_0;
                lemma_concat_assoc(before + acc, sep, first);
                lemma_concat_assoc(before, acc, sep + first);
                lemma_prepend_step(
                    acc,
                    sep + first,
                    fields_text(schemas, obj@, i + 1, comments, d, h),
                );
                acc = acc + (sep + first);
            }
            i += 1;
        }
        self.depth -= 1;
        assert(acc + Seq::<char>::empty() =~= acc);
        Ok(())
    }

    /// Writes the end of an object validator behind its fields.
    fn render_closing(&mut self, obj: &ObjectType, transforms: bool)
        requires
            old(self).depth < usize::MAX,
            transforms == should_transform(obj@.properties),
        ensures
            final(self).same_context(old(self)),
            final(self).writer@ == old(self).writer@ + closing_text(
                old(self).api@.schemas,
                obj@.properties,
                old(self).depth as nat,
            ),
    {
        let ghost before = self.writer@;
        let ghost d = self.depth as nat;
        let ghost schemas = self.api@.schemas;
        if transforms {
            self.writer.append("\n");
            push_indent(&mut self.writer, self.depth);
            self.writer.append("}).transform((it) => ({\n");
            self.depth += 1;
            self.render_mappings(obj);
            self.depth -= 1;
            self.writer.append("\n");
            push_indent(&mut self.writer, self.depth);
            self.writer.append("}))");
            assert(self.writer@ =~= before + ("\n"@ + indent(d) + "}).transform((it) => ({\n"@
                + mappings_text(schemas, obj@.properties, 0, d + 1) + "\n"@ + indent(d) + "}))"@));
        } else {
            self.writer.append("\n");
            push_indent(&mut self.writer, self.depth);
            self.writer.append("})");
            assert(self.writer@ =~= before + ("\n"@ + indent(d) + "})"@));
        }
    }

    /// Writes the validator of an object.
    pub fn render_response_object(&mut self, obj: &ObjectType) -> (r: Result<(), Error>)
        ensures
            final(self).wrote(
                old(self),
                r,
                object_validator_text(
                    old(self).api@.schemas,
                    obj@,
                    old(self).depth as nat,
                    old(self).hops as nat,
                ),
            ),
        decreases old(self).hops, obj, 2nat,
    {
        if self.depth == usize::MAX {
            return Err(Error::NestingTooDeep);
        }
        let ghost before = self.writer@;
        let ghost schemas = self.api@.schemas;
        let ghost d = self.depth as nat;
        let ghost h = self.hops as nat;
        let ghost object: Seq<char>;
        assert(obj@.properties.len() == obj.properties.len());
        if obj.properties.len() > 0 {
            let transforms = should_transform_properties(obj);
            self.writer.append("z.object({\n");
            match self.render_fields(obj, !transforms) {
                Err(e) => {
                    return Err(e);
                },
                Ok(()) => {},
            }
            self.render_closing(obj, transforms);
            proof {
                let fields = fields_text(schemas, obj@, 0, !transforms, d + 1, h)->Ok_0;
                object = "z.object({\n"@ + fields + closing_text(schemas, obj@.properties, d);
                assert(self.writer@ =~= before + object);
            }
        } else {
            self.writer.append("z.object({})");
            proof {
                object = "z.object({})"@;
            }
        }
        match self.render_catch_all(obj) {
            Err(e) => {
                return Err(e);
            },
            Ok(()) => {},
        }
        proof {
            let catch_all = catch_all_text(schemas, obj@.additional_properties, d, h)->Ok_0;
            assert(self.writer@ =~= before + (object + catch_all));
        }
        Ok(())
    }

    /// Writes the opening of the declaration of a validator.
    fn write_declaration_head(&mut self, name: &str)
        ensures
            final(self).same_context(old(self)),
            final(self).writer@ == old(self).writer@ + declaration_head(name@),
    {
        let ghost before = self.writer@;
        self.writer.append("export const ");
        self.writer.append(name);
        self.writer.append(" = ");
        assert(self.writer@ =~= before + ("export const "@ + name@ + " = "@));
    }

    /// Writes the declaration of a type as what its validator infers.
    fn write_inferred_type(&mut self, name: &str)
        ensures
            final(self).same_context(old(self)),
            final(self).writer@ == old(self).writer@ + inferred_type_text(name@),
    {
        let ghost before = self.writer@;
        self.writer.append("export interface ");
        self.writer.append(name);
        self.writer.append(" extends z.infer<typeof ");
        self.writer.append(name);
        self.writer.append("> {}\n\n");
        assert(self.writer@ =~= before + ("export interface "@ + name@
            + " extends z.infer<typeof "@ + name@ + "> {}\n\n"@));
    }

    /// Writes the declaration of the response of a method.
    pub fn render_response(&mut self, method: &ExtractNamespaceMethod<'_>) -> (r: Result<
        (),
        Error,
    >)
        ensures
            final(self).wrote(
                old(self),
                r,
                response_text(
                    old(self).api@.schemas,
                    method@,
                    old(self).depth as nat,
                    old(self).hops as nat,
                ),
            ),
    {
        let ghost before = self.writer@;
        match method.ret {
            None => {
                proof {
                    lemma_concat_empty(before);
                }
                Ok(())
            },
            Some(ret) => {
                let mut full = method.name.clone();
                full.append("Response");
                let name = to_upper_camel_case(full.as_str());
                self.write_declaration_head(name.as_str());
                match self.render_response_object(ret) {
                    Err(e) => {
                        return Err(e);
                    },
                    Ok(()) => {},
                }
                self.writer.append(";\n");
                self.write_inferred_type(name.as_str());
                proof {
                    let validator = object_validator_text(
                        self.api@.schemas,
                        ret@,
                        self.depth as nat,
                        self.hops as nat,
                    )->Ok_0;
                    let n = response_name(method@.name);
                    let head = declaration_head(n);
                    lemma_concat_assoc(before, head, validator);
                    lemma_concat_assoc(before, head + validator, ";\n"@);
                    lemma_concat_assoc(
                        before,
                        head + validator + ";\n"@,
                        inferred_type_text(n),
                    );
                }
                Ok(())
            },
        }
    }
}

} // verus!
