//! Schemas as static type expressions.

use crate::error::Error;
use crate::render::{
    enter, escaped, lemma_prepend_step, prepend, push_escaped, schema_comment, target, Render,
};
use crate::schema::{
    texts, AdditionalProperties, AdditionalPropertiesView, ObjectType, ObjectTypeView, SchemaKind,
    SchemaKindView, SchemaRefView, SchemaType, SchemaTypeView,
};
use crate::text::{
    indent, is_listed, lemma_concat_assoc, lemma_concat_empty, lower_camel_case, push_indent,
    to_lower_camel_case,
};
use vstd::prelude::*;
use vstd::string::*;

verus! {

/// The alternatives of a restricted string from index `from` on: each
/// permitted value as a string literal behind a bar. Entries without a value
/// are passed over.
pub open spec fn enum_alternatives(values: Seq<Option<Seq<char>>>, from: int) -> Seq<char>
    decreases values.len() - from,
{
    if from < 0 || from >= values.len() {
        Seq::empty()
    } else {
        (match values[from] {
            Some(v) => "| \""@ + escaped(v) + "\""@,
            None => Seq::empty(),
        }) + enum_alternatives(values, from + 1)
    }
}

/// The type of a user identifier, whatever its schema says in detail: a
/// string, or an array of strings.
pub open spec fn token_type_text(ty: SchemaTypeView) -> Result<Seq<char>, Error> {
    match ty {
        SchemaTypeView::Array(_) => Ok("string[]"@),
        SchemaTypeView::String(_) => Ok("string"@),
        _ => Err(Error::UnexpectedTokenType),
    }
}

/// The type expression of a schema at a depth of nesting.
pub open spec fn type_text(
    schemas: Seq<(Seq<char>, SchemaRefView)>,
    ty: SchemaTypeView,
    depth: nat,
    hops: nat,
) -> Result<Seq<char>, Error>
    decreases hops, ty, 0nat,
{
    match ty {
        SchemaTypeView::String(values) => Ok(
            if values.len() == 0 {
                "string"@
            } else {
                enum_alternatives(values, 0)
            },
        ),
        SchemaTypeView::Number => Ok("number"@),
        SchemaTypeView::Integer => Ok("number"@),
        SchemaTypeView::Boolean => Ok("boolean"@),
        SchemaTypeView::Array(None) => Ok("unknown"@ + "[]"@),
        SchemaTypeView::Array(Some(items)) => match target(schemas, items, hops) {
            Err(e) => Err(e),
            Ok(None) => Ok("unknown"@ + "[]"@),
            Ok(Some((schema, left))) => match schema.kind {
                SchemaKindView::Composite => Err(Error::UnsupportedSchema),
                SchemaKindView::Type(item) => match type_text(schemas, item, depth, left) {
                    Err(e) => Err(e),
                    Ok(text) => Ok(text + "[]"@),
                },
            },
        },
        SchemaTypeView::Object(obj) => match object_type_text(schemas, obj, depth, hops) {
            Err(e) => Err(e),
            Ok(body) => Ok("{\n"@ + body + "\n"@ + indent(depth) + "}"@),
        },
    }
}

/// The name of a property of an object type: its camel-cased identifier,
/// with the mark of an optional property.
pub open spec fn property_label(name: Seq<char>, required: Seq<Seq<char>>, depth: nat) -> Seq<
    char,
> {
    indent(depth) + lower_camel_case(name) + (if required.contains(name) {
        ""@
    } else {
        "?"@
    }) + ": "@
}

/// One property of an object type: its comment, its name and its type.
pub open spec fn property_text(
    schemas: Seq<(Seq<char>, SchemaRefView)>,
    name: Seq<char>,
    prop: SchemaRefView,
    required: Seq<Seq<char>>,
    depth: nat,
    hops: nat,
) -> Result<Seq<char>, Error>
    decreases hops, prop, 0nat,
{
    match target(schemas, prop, hops) {
        Err(e) => Err(e),
        Ok(None) => Err(Error::UnresolvedReference),
        Ok(Some((schema, left))) => match schema.kind {
            SchemaKindView::Composite => Err(Error::UnsupportedSchema),
            SchemaKindView::Type(ty) => match type_text(schemas, ty, depth, left) {
                Err(e) => Err(e),
                Ok(text) => Ok(
                    schema_comment(schema.description, depth) + property_label(
                        name,
                        required,
                        depth,
                    ) + text,
                ),
            },
        },
    }
}

/// The properties of an object type from index `from` on, separated by
/// commas.
pub open spec fn properties_text(
    schemas: Seq<(Seq<char>, SchemaRefView)>,
    obj: ObjectTypeView,
    from: int,
    depth: nat,
    hops: nat,
) -> Result<Seq<char>, Error>
    decreases hops, obj, obj.properties.len() - from,
{
    if from < 0 || from >= obj.properties.len() {
        Ok(Seq::empty())
    } else {
        match property_text(
            schemas,
            obj.properties[from].0,
            obj.properties[from].1,
            obj.required,
            depth,
            hops,
        ) {
            Err(e) => Err(e),
            Ok(first) => match properties_text(schemas, obj, from + 1, depth, hops) {
                Err(e) => Err(e),
                Ok(rest) => Ok(
                    (if from == 0 {
                        ""@
                    } else {
                        ",\n"@
                    }) + first + rest,
                ),
            },
        }
    }
}

/// The index signature of an object type: none where the schema says
/// nothing of further properties or refuses them, one of unknown values
/// where it admits them, and one typed by their schema where it gives one.
pub open spec fn index_signature_text(
    schemas: Seq<(Seq<char>, SchemaRefView)>,
    additional: AdditionalPropertiesView,
    depth: nat,
    hops: nat,
) -> Result<Seq<char>, Error>
    decreases hops, additional, 0nat,
{
    match additional {
        AdditionalPropertiesView::Absent => Ok(Seq::empty()),
        AdditionalPropertiesView::Any(false) => Ok(Seq::empty()),
        AdditionalPropertiesView::Any(true) => Ok(indent(depth) + "[_ in string]: unknown, \n"@),
        AdditionalPropertiesView::Schema(r) => match target(schemas, *r, hops) {
            Err(e) => Err(e),
            Ok(None) => Err(Error::UnresolvedReference),
            Ok(Some((schema, left))) => match schema.kind {
                SchemaKindView::Composite => Err(Error::UnsupportedSchema),
                SchemaKindView::Type(ty) => match type_text(schemas, ty, depth, left) {
                    Err(e) => Err(e),
                    Ok(text) => Ok(
                        schema_comment(schema.description, depth) + indent(depth)
                            + "[_: string]: "@ + text,
                    ),
                },
            },
        },
    }
}

/// The inside of an object type: its properties and its index signature,
/// one level deeper than the braces around them.
pub open spec fn object_type_text(
    schemas: Seq<(Seq<char>, SchemaRefView)>,
    obj: ObjectTypeView,
    depth: nat,
    hops: nat,
) -> Result<Seq<char>, Error>
    decreases hops, obj, obj.properties.len() + 1,
{
    if depth >= usize::MAX {
        Err(Error::NestingTooDeep)
    } else {
        match properties_text(schemas, obj, 0, depth + 1, hops) {
            Err(e) => Err(e),
            Ok(properties) => match index_signature_text(
                schemas,
                obj.additional_properties,
                depth + 1,
                hops,
            ) {
                Err(e) => Err(e),
                Ok(signature) => Ok(properties + signature),
            },
        }
    }
}

/// Where the schema says nothing of further properties or refuses them,
/// the type has no index signature; where it admits them, the signature
/// takes unknown values; where it gives their schema, the signature is
/// typed by that schema, rendered as any other.
pub proof fn lemma_index_signature(
    schemas: Seq<(Seq<char>, SchemaRefView)>,
    additional: AdditionalPropertiesView,
    depth: nat,
    hops: nat,
)
    ensures
        additional is Absent || additional == AdditionalPropertiesView::Any(false)
            ==> index_signature_text(schemas, additional, depth, hops) == Ok::<Seq<char>, Error>(
            Seq::empty(),
        ),
        additional == AdditionalPropertiesView::Any(true) ==> index_signature_text(
            schemas,
            additional,
            depth,
            hops,
        ) == Ok::<Seq<char>, Error>(indent(depth) + "[_ in string]: unknown, \n"@),
        additional matches AdditionalPropertiesView::Schema(r) ==> (target(schemas, *r, hops)
            matches Ok(Some((schema, left))) ==> (schema.kind matches SchemaKindView::Type(ty)
            ==> index_signature_text(schemas, additional, depth, hops) == (match type_text(
            schemas,
            ty,
            depth,
            left,
        ) {
            Err(e) => Err(e),
            Ok(text) => Ok(
                schema_comment(schema.description, depth) + indent(depth) + "[_: string]: "@
                    + text,
            ),
        }))),
{
}

/// The type expression by which a parameter or property is declared:
/// that of a user identifier where it is one, that of its schema otherwise.
pub open spec fn rendered_type(
    schemas: Seq<(Seq<char>, SchemaRefView)>,
    is_token_id: bool,
    ty: SchemaTypeView,
    depth: nat,
    hops: nat,
) -> Result<Seq<char>, Error> {
    if is_token_id {
        token_type_text(ty)
    } else {
        type_text(schemas, ty, depth, hops)
    }
}

impl<'o> Render<'o> {
    /// Writes the alternatives of a restricted string.
    fn render_alternatives(&mut self, values: &Vec<Option<String>>)
        ensures
            final(self).same_context(old(self)),
            final(self).writer@ == old(self).writer@ + enum_alternatives(
                Seq::new(values@.len(), |i: int| crate::schema::option_text(values@[i])),
                0,
            ),
    {
        let ghost all = Seq::new(values@.len(), |i: int| crate::schema::option_text(values@[i]));
        let ghost goal = old(self).writer@ + enum_alternatives(all, 0);
        let mut i: usize = 0;
        while i < values.len()
            invariant
                i <= values.len(),
                self.same_context(old(self)),
                all == Seq::new(values@.len(), |i: int| crate::schema::option_text(values@[i])),
                goal == self.writer@ + enum_alternatives(all, i as int),
            decreases values.len() - i,
        {
            match &values[i] {
                Some(v) => {
                    self.writer.append("| \"");
                    push_escaped(&mut self.writer, v.as_str());
                    self.writer.append("\"");
                    assert(all[i as int] == Some(v@));
                    assert(goal =~= self.writer@ + enum_alternatives(all, i + 1));
                },
                None => {
                    assert(all[i as int] == None::<Seq<char>>);
                    assert(goal =~= self.writer@ + enum_alternatives(all, i + 1));
                },
            }
            i += 1;
        }
        assert(self.writer@ + Seq::<char>::empty() =~= self.writer@);
    }

    /// Writes the type expression of a schema: that of a user
    /// identifier where `is_token_id` is set.
    pub fn render_type(&mut self, is_token_id: bool, ty: &SchemaType) -> (r: Result<(), Error>)
        ensures
            final(self).wrote(
                old(self),
                r,
                rendered_type(
                    old(self).api@.schemas,
                    is_token_id,
                    ty@,
                    old(self).depth as nat,
                    old(self).hops as nat,
                ),
            ),
        decreases old(self).hops, ty, 0nat,
    {
        let api = self.api;
        let ghost before = self.writer@;
        if is_token_id {
            match ty {
                SchemaType::Array(_) => {
                    self.writer.append("string[]");
                    return Ok(());
                },
                SchemaType::String(_) => {
                    self.writer.append("string");
                    return Ok(());
                },
                _ => {
                    return Err(Error::UnexpectedTokenType);
                },
            }
        }
        match ty {
            SchemaType::String(values) => {
                assert(ty@->String_0 =~= Seq::new(
                    values@.len(),
                    |i: int| crate::schema::option_text(values@[i]),
                ));
                if values.len() == 0 {
                    self.writer.append("string");
                } else {
                    self.render_alternatives(values);
                }
                Ok(())
            },
            SchemaType::Number => {
                self.writer.append("number");
                Ok(())
            },
            SchemaType::Integer => {
                self.writer.append("number");
                Ok(())
            },
            SchemaType::Boolean => {
                self.writer.append("boolean");
                Ok(())
            },
            SchemaType::Array(items) => {
                let ghost mut inner: Seq<char> = "unknown"@;
                match items {
                    None => {
                        self.writer.append("unknown");
                    },
                    Some(item_ref) => match enter(api, item_ref, self.hops) {
                        Err(e) => {
                            return Err(e);
                        },
                        Ok(None) => {
                            self.writer.append("unknown");
                        },
                        Ok(Some((schema, left))) => match &schema.kind {
                            SchemaKind::Composite => {
                                return Err(Error::UnsupportedSchema);
                            },
                            SchemaKind::Type(item) => {
                                let saved = self.hops;
                                self.hops = left;
                                proof {
                                    if left == saved {
                                        assert(ty->Array_0->Some_0 == *item_ref);
                                        assert(*item_ref->Item_0 == *schema);
                                        assert(schema.kind->Type_0 == *item);
                                        assert(decreases_to!(ty => item));
                                    }
                                }
                                match self.render_type(false, item) {
                                    Err(e) => {
                                        return Err(e);
                                    },
                                    Ok(()) => {},
                                }
                                self.hops = saved;
                                proof {
                                    inner = type_text(
                                        api@.schemas,
                                        item@,
                                        self.depth as nat,
                                        left as nat,
                                    )->Ok_0;
                                }
                            },
                        },
                    },
                }
                self.writer.append("[]");
                assert(self.writer@ =~= before + (inner + "[]"@));
                Ok(())
            },
            SchemaType::Object(obj) => {
                self.writer.append("{\n");
                match self.render_object_type(obj) {
                    Err(e) => {
                        return Err(e);
                    },
                    Ok(()) => {},
                }
                self.writer.append("\n");
                push_indent(&mut self.writer, self.depth);
                self.writer.append("}");
                proof {
                    let body = object_type_text(
                        api@.schemas,
                        obj@,
                        self.depth as nat,
                        self.hops as nat,
                    )->Ok_0;
                    assert(self.writer@ =~= before + ("{\n"@ + body + "\n"@ + indent(
                        self.depth as nat,
                    ) + "}"@));
                }
                Ok(())
            },
        }
    }

    /// Writes the name of a property of an object type.
    fn write_property_label(&mut self, name: &str, required: &Vec<String>)
        ensures
            final(self).same_context(old(self)),
            final(self).writer@ == old(self).writer@ + property_label(
                name@,
                texts(*required),
                old(self).depth as nat,
            ),
    {
        let ghost before = self.writer@;
        let optional = !is_listed(required, name);
        push_indent(&mut self.writer, self.depth);
        let id = to_lower_camel_case(name);
        self.writer.append(id.as_str());
        if optional {
            self.writer.append("?");
        } else {
            proof {
                lemma_concat_empty(self.writer@);
            }
        }
        self.writer.append(": ");
        assert(self.writer@ =~= before + property_label(
            name@,
            texts(*required),
            self.depth as nat,
        ));
    }

    /// Writes one property of an object type.
    fn render_property(&mut self, obj: &ObjectType, i: usize) -> (r: Result<(), Error>)
        requires
            i < obj.properties.len(),
        ensures
            final(self).wrote(
                old(self),
                r,
                property_text(
                    old(self).api@.schemas,
                    obj@.properties[i as int].0,
                    obj@.properties[i as int].1,
                    obj@.required,
                    old(self).depth as nat,
                    old(self).hops as nat,
                ),
            ),
        decreases old(self).hops, obj, 0nat,
    {
        let api = self.api;
        let ghost before = self.writer@;
        let ghost d = self.depth as nat;
        let entry = &obj.properties[i];
        assert(obj@.properties[i as int] == (entry.0@, entry.1@));
        assert(obj@.required == texts(obj.required));
        let (schema, left) = match enter(api, &entry.1, self.hops) {
            Err(e) => {
                return Err(e);
            },
            Ok(None) => {
                return Err(Error::UnresolvedReference);
            },
            Ok(Some(found)) => found,
        };
        self.write_schema_comment(schema);
        self.write_property_label(entry.0.as_str(), &obj.required);
        let ghost comment = schema_comment(schema@.description, d);
        let ghost label = property_label(entry.0@, obj@.required, d);
        match &schema.kind {
            SchemaKind::Composite => Err(Error::UnsupportedSchema),
            SchemaKind::Type(ty) => {
                let saved = self.hops;
                self.hops = left;
                proof {
                    if left == saved {
                        assert(obj.properties[i as int].1 == entry.1);
                        assert(*entry.1->Item_0 == *schema);
                        assert(schema.kind->Type_0 == *ty);
                        vstd::std_specs::vec::axiom_vec_index_decreases(obj.properties, i as int);
                        assert(decreases_to!(obj => obj.properties));
                        assert(decreases_to!(obj.properties => obj.properties[i as int]));
                        assert(decreases_to!(obj => ty));
                    }
                }
                match self.render_type(false, ty) {
                    Err(e) => {
                        return Err(e);
                    },
                    Ok(()) => {},
                }
                self.hops = saved;
                proof {
                    let text = type_text(api@.schemas, ty@, d, left as nat)->Ok_0;
                    lemma_concat_assoc(before, comment, label);
                    lemma_concat_assoc(before, comment + label, text);
                }
                Ok(())
            },
        }
    }

    /// Writes the index signature of an object type.
    fn render_index_signature(&mut self, obj: &ObjectType) -> (r: Result<(), Error>)
        ensures
            final(self).wrote(
                old(self),
                r,
                index_signature_text(
                    old(self).api@.schemas,
                    obj@.additional_properties,
                    old(self).depth as nat,
                    old(self).hops as nat,
                ),
            ),
        decreases old(self).hops, obj, 0nat,
    {
        let api = self.api;
        let ghost before = self.writer@;
        let ghost d = self.depth as nat;
        match &obj.additional_properties {
            AdditionalProperties::Absent => {
                assert(self.writer@ =~= before + Seq::<char>::empty());
                Ok(())
            },
            AdditionalProperties::Any(false) => {
                assert(self.writer@ =~= before + Seq::<char>::empty());
                Ok(())
            },
            AdditionalProperties::Any(true) => {
                push_indent(&mut self.writer, self.depth);
                self.writer.append("[_ in string]: unknown, \n");
                assert(self.writer@ =~= before + (indent(d) + "[_ in string]: unknown, \n"@));
                Ok(())
            },
            AdditionalProperties::Schema(r) => {
                let (schema, left) = match enter(api, r, self.hops) {
                    Err(e) => {
                        return Err(e);
                    },
                    Ok(None) => {
                        return Err(Error::UnresolvedReference);
                    },
                    Ok(Some(found)) => found,
                };
                match &schema.kind {
                    SchemaKind::Composite => Err(Error::UnsupportedSchema),
                    SchemaKind::Type(ty) => {
                        self.write_schema_comment(schema);
                        push_indent(&mut self.writer, self.depth);
                        self.writer.append("[_: string]: ");
                        let saved = self.hops;
                        self.hops = left;
                        proof {
                            if left == saved {
                                assert(obj.additional_properties->Schema_0 == *r);
                                assert(*r->Item_0 == *schema);
                                assert(schema.kind->Type_0 == *ty);
                                assert(decreases_to!(obj => ty));
                            }
                        }
                        match self.render_type(false, ty) {
                            Err(e) => {
                                return Err(e);
                            },
                            Ok(()) => {},
                        }
                        self.hops = saved;
                        proof {
                            let text = type_text(api@.schemas, ty@, d, left as nat)->Ok_0;
                            assert(self.writer@ =~= before + (schema_comment(
                                schema@.description,
                                d,
                            ) + indent(d) + "[_: string]: "@ + text));
                        }
                        Ok(())
                    },
                }
            },
        }
    }

    /// Writes the inside of an object type, one level deeper.
    pub fn render_object_type(&mut self, obj: &ObjectType) -> (r: Result<(), Error>)
        ensures
            final(self).wrote(
                old(self),
                r,
                object_type_text(
                    old(self).api@.schemas,
                    obj@,
                    old(self).depth as nat,
                    old(self).hops as nat,
                ),
            ),
        decreases old(self).hops, obj, 1nat,
    {
        if self.depth == usize::MAX {
            return Err(Error::NestingTooDeep);
        }
        let ghost before = self.writer@;
        let ghost schemas = self.api@.schemas;
        let ghost d = (self.depth + 1) as nat;
        let ghost h = self.hops as nat;
        let ghost whole = properties_text(schemas, obj@, 0, d, h);
        let ghost acc: Seq<char> = Seq::empty();
        self.depth += 1;
        let mut i: usize = 0;
        while i < obj.properties.len()
            invariant
                i <= obj.properties.len(),
                obj@.properties.len() == obj.properties.len(),
                self.api == old(self).api,
                self.hops == old(self).hops,
                self.depth == old(self).depth + 1,
                schemas == self.api@.schemas,
                d == self.depth as nat,
                h == self.hops as nat,
                self.writer@ == before + acc,
                whole == properties_text(schemas, obj@, 0, d, h),
                whole == prepend(acc, properties_text(schemas, obj@, i as int, d, h)),
            decreases obj.properties.len() - i,
        {
            if i > 0 {
                self.writer.append(",\n");
            } else {
                proof {
                    lemma_concat_empty(self.writer@);
                }
            }
            match self.render_property(obj, i) {
                Err(e) => {
                    return Err(e);
                },
                Ok(()) => {},
            }
            proof {
                let sep = if i == 0 {
                    ""@
                } else {
                    ",\n"@
                };
                let first = property_text(
                    schemas,
                    obj@.properties[i as int].0,
                    obj@.properties[i as int].1,
                    obj@.required,
                    d,
                    h,
                )->Ok_0;
                lemma_concat_assoc(before + acc, sep, first);
                lemma_concat_assoc(before, acc, sep + first);
                lemma_prepend_step(acc, sep + first, properties_text(schemas, obj@, i + 1, d, h));
                acc = acc + (sep + first);
            }
            i += 1;
        }
        assert(acc + Seq::<char>::empty() =~= acc);
        match self.render_index_signature(obj) {
            Err(e) => {
                return Err(e);
            },
            Ok(()) => {},
        }
        self.depth -= 1;
        proof {
            let signature = index_signature_text(schemas, obj@.additional_properties, d, h)->Ok_0;
            assert(self.writer@ =~= before + (acc + signature));
        }
        Ok(())
    }
}

} // verus!
