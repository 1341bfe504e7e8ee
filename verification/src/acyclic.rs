//! Tables of schemas whose references do not run in a circle.
//!
//! Rendering counts the named schemas that it enters on a way down, and
//! resolution counts its look-ups; both stop at the number of entries of
//! the table. Where the names of a table can be ranked so that every
//! entry refers to names of lower rank only, neither count is ever
//! exhausted: a larger one finds and renders the same.

use crate::render::response::{
    catch_all_text, field_text, fields_text, object_validator_text, property_validator_text,
    validator_text,
};
use crate::extract::{MethodView, NamespaceView, ParamView};
use crate::render::{
    request_field_text, request_fields_text, request_text, requests_text, responses_text,
    unit_text,
};
use crate::render::response::response_text;
use crate::render::types::{
    index_signature_text, object_type_text, properties_text, property_text, type_text,
};
use crate::resolve::{lookup, resolve, resolve_within, schema_prefix};
use crate::schema::{
    AdditionalPropertiesView, ObjectTypeView, SchemaKindView, SchemaRefView, SchemaTypeView,
};
use crate::text::has_prefix;
use vstd::prelude::*;

verus! {

/// The name of the entry that a reference names.
pub open spec fn referenced_name(target: Seq<char>) -> Seq<char> {
    target.skip(schema_prefix().len() as int)
}

/// Whether a reference names an entry of the table.
pub open spec fn points_into(schemas: Seq<(Seq<char>, SchemaRefView)>, target: Seq<char>) -> bool {
    has_prefix(target, schema_prefix()) && lookup(schemas, referenced_name(target)) is Some
}

/// Whether every reference into the table that occurs in `r` names an
/// entry of a rank below `bound`.
pub open spec fn ref_below(
    schemas: Seq<(Seq<char>, SchemaRefView)>,
    rank: spec_fn(Seq<char>) -> nat,
    r: SchemaRefView,
    bound: nat,
) -> bool
    decreases r,
{
    match r {
        SchemaRefView::Reference(t) => points_into(schemas, t) ==> rank(referenced_name(t))
            < bound,
        SchemaRefView::Item(s) => match s.kind {
            SchemaKindView::Type(ty) => type_below(schemas, rank, ty, bound),
            SchemaKindView::Composite => true,
        },
    }
}

/// Whether every reference into the table that occurs in `ty` names an
/// entry of a rank below `bound`.
pub open spec fn type_below(
    schemas: Seq<(Seq<char>, SchemaRefView)>,
    rank: spec_fn(Seq<char>) -> nat,
    ty: SchemaTypeView,
    bound: nat,
) -> bool
    decreases ty,
{
    match ty {
        SchemaTypeView::Array(Some(items)) => ref_below(schemas, rank, items, bound),
        SchemaTypeView::Object(obj) => object_below(schemas, rank, obj, bound),
        _ => true,
    }
}

/// Whether every reference into the table that occurs in `obj` names an
/// entry of a rank below `bound`.
pub open spec fn object_below(
    schemas: Seq<(Seq<char>, SchemaRefView)>,
    rank: spec_fn(Seq<char>) -> nat,
    obj: ObjectTypeView,
    bound: nat,
) -> bool
    decreases obj,
{
    &&& forall|i: int|
        0 <= i < obj.properties.len() ==> ref_below(
            schemas,
            rank,
            (#[trigger] obj.properties[i]).1,
            bound,
        )
    &&& match obj.additional_properties {
        AdditionalPropertiesView::Schema(r) => ref_below(schemas, rank, *r, bound),
        _ => true,
    }
}

/// Whether `rank` orders the names of the table so that every entry
/// refers to names of lower rank only, with all ranks below the number
/// of entries.
pub open spec fn ranked(
    schemas: Seq<(Seq<char>, SchemaRefView)>,
    rank: spec_fn(Seq<char>) -> nat,
) -> bool {
    forall|name: Seq<char>|
        (#[trigger] lookup(schemas, name)) matches Some(entry) ==> rank(name) < schemas.len()
            && ref_below(schemas, rank, entry, rank(name))
}

/// Whether the references of a table do not run in a circle.
pub open spec fn acyclic(schemas: Seq<(Seq<char>, SchemaRefView)>) -> bool {
    exists|rank: spec_fn(Seq<char>) -> nat| ranked(schemas, rank)
}

proof fn lemma_ref_below_weakens(
    schemas: Seq<(Seq<char>, SchemaRefView)>,
    rank: spec_fn(Seq<char>) -> nat,
    r: SchemaRefView,
    bound: nat,
    wider: nat,
)
    requires
        ref_below(schemas, rank, r, bound),
        bound <= wider,
    ensures
        ref_below(schemas, rank, r, wider),
    decreases r,
{
    if let SchemaRefView::Item(s) = r {
        if let SchemaKindView::Type(ty) = s.kind {
            lemma_type_below_weakens(schemas, rank, ty, bound, wider);
        }
    }
}

proof fn lemma_type_below_weakens(
    schemas: Seq<(Seq<char>, SchemaRefView)>,
    rank: spec_fn(Seq<char>) -> nat,
    ty: SchemaTypeView,
    bound: nat,
    wider: nat,
)
    requires
        type_below(schemas, rank, ty, bound),
        bound <= wider,
    ensures
        type_below(schemas, rank, ty, wider),
    decreases ty,
{
    match ty {
        SchemaTypeView::Array(Some(items)) => {
            lemma_ref_below_weakens(schemas, rank, items, bound, wider);
        },
        SchemaTypeView::Object(obj) => {
            assert forall|i: int| 0 <= i < obj.properties.len() implies ref_below(
                schemas,
                rank,
                (#[trigger] obj.properties[i]).1,
                wider,
            ) by {
                lemma_ref_below_weakens(schemas, rank, obj.properties[i].1, bound, wider);
            }
            if let AdditionalPropertiesView::Schema(r) = obj.additional_properties {
                lemma_ref_below_weakens(schemas, rank, *r, bound, wider);
            }
        },
        _ => {},
    }
}

proof fn lemma_ref_is_below_all(
    schemas: Seq<(Seq<char>, SchemaRefView)>,
    rank: spec_fn(Seq<char>) -> nat,
    r: SchemaRefView,
)
    requires
        ranked(schemas, rank),
    ensures
        ref_below(schemas, rank, r, schemas.len()),
    decreases r,
{
    if let SchemaRefView::Item(s) = r {
        if let SchemaKindView::Type(ty) = s.kind {
            lemma_type_is_below_all(schemas, rank, ty);
        }
    }
}

proof fn lemma_type_is_below_all(
    schemas: Seq<(Seq<char>, SchemaRefView)>,
    rank: spec_fn(Seq<char>) -> nat,
    ty: SchemaTypeView,
)
    requires
        ranked(schemas, rank),
    ensures
        type_below(schemas, rank, ty, schemas.len()),
    decreases ty,
{
    match ty {
        SchemaTypeView::Array(Some(items)) => {
            lemma_ref_is_below_all(schemas, rank, items);
        },
        SchemaTypeView::Object(obj) => {
            assert forall|i: int| 0 <= i < obj.properties.len() implies ref_below(
                schemas,
                rank,
                (#[trigger] obj.properties[i]).1,
                schemas.len(),
            ) by {
                lemma_ref_is_below_all(schemas, rank, obj.properties[i].1);
            }
            if let AdditionalPropertiesView::Schema(r) = obj.additional_properties {
                lemma_ref_is_below_all(schemas, rank, *r);
            }
        },
        _ => {},
    }
}

/// With enough look-ups for the rank of what a reference names, further
/// look-ups find the same.
proof fn lemma_resolve_is_stable(
    schemas: Seq<(Seq<char>, SchemaRefView)>,
    rank: spec_fn(Seq<char>) -> nat,
    r: SchemaRefView,
    bound: nat,
    m1: nat,
    m2: nat,
)
    requires
        ranked(schemas, rank),
        ref_below(schemas, rank, r, bound),
        m1 >= bound,
        m2 >= bound,
    ensures
        resolve_within(schemas, r, m1) == resolve_within(schemas, r, m2),
    decreases bound,
{
    if let SchemaRefView::Reference(t) = r {
        if has_prefix(t, schema_prefix()) {
            let name = referenced_name(t);
            if let Some(next) = lookup(schemas, name) {
                assert(points_into(schemas, t));
                lemma_resolve_is_stable(
                    schemas,
                    rank,
                    next,
                    rank(name),
                    (m1 - 1) as nat,
                    (m2 - 1) as nat,
                );
            }
        }
    }
}

/// The schema that a reference stands for refers to names of lower rank
/// than the reference itself.
proof fn lemma_resolved_is_below(
    schemas: Seq<(Seq<char>, SchemaRefView)>,
    rank: spec_fn(Seq<char>) -> nat,
    r: SchemaRefView,
    bound: nat,
    m: nat,
)
    requires
        ranked(schemas, rank),
        ref_below(schemas, rank, r, bound),
        resolve_within(schemas, r, m) is Some,
    ensures
        r is Reference ==> bound >= 1,
        resolve_within(schemas, r, m)->Some_0.kind matches SchemaKindView::Type(ty)
            ==> type_below(
            schemas,
            rank,
            ty,
            if r is Reference {
                (bound - 1) as nat
            } else {
                bound
            },
        ),
    decreases m,
{
    if let SchemaRefView::Reference(t) = r {
        let name = referenced_name(t);
        let next = lookup(schemas, name)->Some_0;
        assert(points_into(schemas, t));
        lemma_resolved_is_below(schemas, rank, next, rank(name), (m - 1) as nat);
        if let SchemaKindView::Type(ty) = resolve_within(schemas, r, m)->Some_0.kind {
            let inner = if next is Reference {
                (rank(name) - 1) as nat
            } else {
                rank(name)
            };
            lemma_type_below_weakens(schemas, rank, ty, inner, (bound - 1) as nat);
        }
    }
}

proof fn lemma_type_text_is_stable(
    schemas: Seq<(Seq<char>, SchemaRefView)>,
    rank: spec_fn(Seq<char>) -> nat,
    ty: SchemaTypeView,
    depth: nat,
    bound: nat,
    h1: nat,
    h2: nat,
)
    requires
        ranked(schemas, rank),
        type_below(schemas, rank, ty, bound),
        h1 >= bound,
        h2 >= bound,
    ensures
        type_text(schemas, ty, depth, h1) == type_text(schemas, ty, depth, h2),
    decreases bound, ty, 0nat,
{
    match ty {
        SchemaTypeView::Array(Some(items)) => {
            match items {
                SchemaRefView::Item(s) => {
                    if let SchemaKindView::Type(item) = s.kind {
                        lemma_type_text_is_stable(schemas, rank, item, depth, bound, h1, h2);
                    }
                },
                SchemaRefView::Reference(_) => {
                    if let Some(s) = resolve(schemas, items) {
                        lemma_resolved_is_below(schemas, rank, items, bound, schemas.len());
                        if let SchemaKindView::Type(item) = s.kind {
                            lemma_type_text_is_stable(
                                schemas,
                                rank,
                                item,
                                depth,
                                (bound - 1) as nat,
                                (h1 - 1) as nat,
                                (h2 - 1) as nat,
                            );
                        }
                    }
                },
            }
        },
        SchemaTypeView::Object(obj) => {
            lemma_object_type_text_is_stable(schemas, rank, obj, depth, bound, h1, h2);
        },
        _ => {},
    }
}

proof fn lemma_property_text_is_stable(
    schemas: Seq<(Seq<char>, SchemaRefView)>,
    rank: spec_fn(Seq<char>) -> nat,
    name: Seq<char>,
    prop: SchemaRefView,
    required: Seq<Seq<char>>,
    depth: nat,
    bound: nat,
    h1: nat,
    h2: nat,
)
    requires
        ranked(schemas, rank),
        ref_below(schemas, rank, prop, bound),
        h1 >= bound,
        h2 >= bound,
    ensures
        property_text(schemas, name, prop, required, depth, h1) == property_text(
            schemas,
            name,
            prop,
            required,
            depth,
            h2,
        ),
    decreases bound, prop, 0nat,
{
    match prop {
        SchemaRefView::Item(s) => {
            if let SchemaKindView::Type(ty) = s.kind {
                lemma_type_text_is_stable(schemas, rank, ty, depth, bound, h1, h2);
            }
        },
        SchemaRefView::Reference(_) => {
            if let Some(s) = resolve(schemas, prop) {
                lemma_resolved_is_below(schemas, rank, prop, bound, schemas.len());
                if let SchemaKindView::Type(ty) = s.kind {
                    lemma_type_text_is_stable(
                        schemas,
                        rank,
                        ty,
                        depth,
                        (bound - 1) as nat,
                        (h1 - 1) as nat,
                        (h2 - 1) as nat,
                    );
                }
            }
        },
    }
}

proof fn lemma_properties_text_is_stable(
    schemas: Seq<(Seq<char>, SchemaRefView)>,
    rank: spec_fn(Seq<char>) -> nat,
    obj: ObjectTypeView,
    from: int,
    depth: nat,
    bound: nat,
    h1: nat,
    h2: nat,
)
    requires
        ranked(schemas, rank),
        object_below(schemas, rank, obj, bound),
        h1 >= bound,
        h2 >= bound,
    ensures
        properties_text(schemas, obj, from, depth, h1) == properties_text(
            schemas,
            obj,
            from,
            depth,
            h2,
        ),
    decreases bound, obj, obj.properties.len() - from,
{
    if 0 <= from < obj.properties.len() {
        assert(ref_below(schemas, rank, obj.properties[from].1, bound));
        lemma_property_text_is_stable(
            schemas,
            rank,
            obj.properties[from].0,
            obj.properties[from].1,
            obj.required,
            depth,
            bound,
            h1,
            h2,
        );
        lemma_properties_text_is_stable(schemas, rank, obj, from + 1, depth, bound, h1, h2);
    }
}

proof fn lemma_index_signature_is_stable(
    schemas: Seq<(Seq<char>, SchemaRefView)>,
    rank: spec_fn(Seq<char>) -> nat,
    additional: AdditionalPropertiesView,
    depth: nat,
    bound: nat,
    h1: nat,
    h2: nat,
)
    requires
        ranked(schemas, rank),
        additional matches AdditionalPropertiesView::Schema(r) ==> ref_below(
            schemas,
            rank,
            *r,
            bound,
        ),
        h1 >= bound,
        h2 >= bound,
    ensures
        index_signature_text(schemas, additional, depth, h1) == index_signature_text(schemas, additional, depth, h2),
    decreases bound, additional, 0nat,
{
    if let AdditionalPropertiesView::Schema(r) = additional {
        match *r {
            SchemaRefView::Item(s) => {
                if let SchemaKindView::Type(ty) = s.kind {
                    lemma_type_text_is_stable(schemas, rank, ty, depth, bound, h1, h2);
                }
            },
            SchemaRefView::Reference(_) => {
                if let Some(s) = resolve(schemas, *r) {
                    lemma_resolved_is_below(schemas, rank, *r, bound, schemas.len());
                    if let SchemaKindView::Type(ty) = s.kind {
                        lemma_type_text_is_stable(
                            schemas,
                            rank,
                            ty,
                            depth,
                            (bound - 1) as nat,
                            (h1 - 1) as nat,
                            (h2 - 1) as nat,
                        );
                    }
                }
            },
        }
    }
}

proof fn lemma_object_type_text_is_stable(
    schemas: Seq<(Seq<char>, SchemaRefView)>,
    rank: spec_fn(Seq<char>) -> nat,
    obj: ObjectTypeView,
    depth: nat,
    bound: nat,
    h1: nat,
    h2: nat,
)
    requires
        ranked(schemas, rank),
        object_below(schemas, rank, obj, bound),
        h1 >= bound,
        h2 >= bound,
    ensures
        object_type_text(schemas, obj, depth, h1) == object_type_text(schemas, obj, depth, h2),
    decreases bound, obj, obj.properties.len() + 1,
{
    lemma_properties_text_is_stable(schemas, rank, obj, 0, depth + 1, bound, h1, h2);
    lemma_index_signature_is_stable(schemas, rank, obj.additional_properties, depth + 1, bound, h1, h2);
}

proof fn lemma_validator_text_is_stable(
    schemas: Seq<(Seq<char>, SchemaRefView)>,
    rank: spec_fn(Seq<char>) -> nat,
    ty: SchemaTypeView,
    depth: nat,
    bound: nat,
    h1: nat,
    h2: nat,
)
    requires
        ranked(schemas, rank),
        type_below(schemas, rank, ty, bound),
        h1 >= bound,
        h2 >= bound,
    ensures
        validator_text(schemas, ty, depth, h1) == validator_text(schemas, ty, depth, h2),
    decreases bound, ty, 0nat,
{
    match ty {
        SchemaTypeView::Array(Some(items)) => {
            match items {
                SchemaRefView::Item(s) => {
                    if let SchemaKindView::Type(item) = s.kind {
                        lemma_validator_text_is_stable(schemas, rank, item, depth, bound, h1, h2);
                    }
                },
                SchemaRefView::Reference(_) => {
                    if let Some(s) = resolve(schemas, items) {
                        lemma_resolved_is_below(schemas, rank, items, bound, schemas.len());
                        if let SchemaKindView::Type(item) = s.kind {
                            lemma_validator_text_is_stable(
                                schemas,
                                rank,
                                item,
                                depth,
                                (bound - 1) as nat,
                                (h1 - 1) as nat,
                                (h2 - 1) as nat,
                            );
                        }
                    }
                },
            }
        },
        SchemaTypeView::Object(obj) => {
            lemma_object_validator_is_stable(schemas, rank, obj, depth, bound, h1, h2);
        },
        _ => {},
    }
}

proof fn lemma_property_validator_is_stable(
    schemas: Seq<(Seq<char>, SchemaRefView)>,
    rank: spec_fn(Seq<char>) -> nat,
    name: Seq<char>,
    prop: SchemaRefView,
    required: Seq<Seq<char>>,
    depth: nat,
    bound: nat,
    h1: nat,
    h2: nat,
)
    requires
        ranked(schemas, rank),
        ref_below(schemas, rank, prop, bound),
        h1 >= bound,
        h2 >= bound,
    ensures
        property_validator_text(schemas, name, prop, required, depth, h1) == property_validator_text(
            schemas,
            name,
            prop,
            required,
            depth,
            h2,
        ),
    decreases bound, prop, 0nat,
{
    match prop {
        SchemaRefView::Item(s) => {
            if let SchemaKindView::Type(ty) = s.kind {
                lemma_validator_text_is_stable(schemas, rank, ty, depth, bound, h1, h2);
            }
        },
        SchemaRefView::Reference(_) => {
            if let Some(s) = resolve(schemas, prop) {
                lemma_resolved_is_below(schemas, rank, prop, bound, schemas.len());
                if let SchemaKindView::Type(ty) = s.kind {
                    lemma_validator_text_is_stable(
                        schemas,
                        rank,
                        ty,
                        depth,
                        (bound - 1) as nat,
                        (h1 - 1) as nat,
                        (h2 - 1) as nat,
                    );
                }
            }
        },
    }
}

proof fn lemma_fields_text_is_stable(
    schemas: Seq<(Seq<char>, SchemaRefView)>,
    rank: spec_fn(Seq<char>) -> nat,
    obj: ObjectTypeView,
    from: int,
    comments: bool,
    depth: nat,
    bound: nat,
    h1: nat,
    h2: nat,
)
    requires
        ranked(schemas, rank),
        object_below(schemas, rank, obj, bound),
        h1 >= bound,
        h2 >= bound,
    ensures
        fields_text(schemas, obj, from, comments, depth, h1) == fields_text(
            schemas,
            obj,
            from,
            comments,
            depth,
            h2,
        ),
    decreases bound, obj, obj.properties.len() - from,
{
    if 0 <= from < obj.properties.len() {
        assert(ref_below(schemas, rank, obj.properties[from].1, bound));
        lemma_property_validator_is_stable(
            schemas,
            rank,
            obj.properties[from].0,
            obj.properties[from].1,
            obj.required,
            depth,
            bound,
            h1,
            h2,
        );
        assert(field_text(
            schemas,
            obj.properties[from].0,
            obj.properties[from].1,
            obj.required,
            comments,
            depth,
            h1,
        ) == field_text(
            schemas,
            obj.properties[from].0,
            obj.properties[from].1,
            obj.required,
            comments,
            depth,
            h2,
        ));
        lemma_fields_text_is_stable(schemas, rank, obj, from + 1, comments, depth, bound, h1, h2);
    }
}

proof fn lemma_catch_all_is_stable(
    schemas: Seq<(Seq<char>, SchemaRefView)>,
    rank: spec_fn(Seq<char>) -> nat,
    additional: AdditionalPropertiesView,
    depth: nat,
    bound: nat,
    h1: nat,
    h2: nat,
)
    requires
        ranked(schemas, rank),
        additional matches AdditionalPropertiesView::Schema(r) ==> ref_below(
            schemas,
            rank,
            *r,
            bound,
        ),
        h1 >= bound,
        h2 >= bound,
    ensures
        catch_all_text(schemas, additional, depth, h1) == catch_all_text(schemas, additional, depth, h2),
    decreases bound, additional, 0nat,
{
    if let AdditionalPropertiesView::Schema(r) = additional {
        match *r {
            SchemaRefView::Item(s) => {
                if let SchemaKindView::Type(ty) = s.kind {
                    lemma_validator_text_is_stable(schemas, rank, ty, (depth + 1) as nat, bound, h1, h2);
                }
            },
            SchemaRefView::Reference(_) => {
                if let Some(s) = resolve(schemas, *r) {
                    lemma_resolved_is_below(schemas, rank, *r, bound, schemas.len());
                    if let SchemaKindView::Type(ty) = s.kind {
                        lemma_validator_text_is_stable(
                            schemas,
                            rank,
                            ty,
                            (depth + 1) as nat,
                            (bound - 1) as nat,
                            (h1 - 1) as nat,
                            (h2 - 1) as nat,
                        );
                    }
                }
            },
        }
    }
}

proof fn lemma_object_validator_is_stable(
    schemas: Seq<(Seq<char>, SchemaRefView)>,
    rank: spec_fn(Seq<char>) -> nat,
    obj: ObjectTypeView,
    depth: nat,
    bound: nat,
    h1: nat,
    h2: nat,
)
    requires
        ranked(schemas, rank),
        object_below(schemas, rank, obj, bound),
        h1 >= bound,
        h2 >= bound,
    ensures
        object_validator_text(schemas, obj, depth, h1) == object_validator_text(schemas, obj, depth, h2),
    decreases bound, obj, obj.properties.len() + 1,
{
    lemma_fields_text_is_stable(schemas, rank, obj, 0, true, depth + 1, bound, h1, h2);
    lemma_fields_text_is_stable(schemas, rank, obj, 0, false, depth + 1, bound, h1, h2);
    lemma_catch_all_is_stable(schemas, rank, obj.additional_properties, depth, bound, h1, h2);
}

/// On a table without circles, the counts that bound resolution and
/// rendering are never what decides: with any count of at least the
/// number of entries, a reference resolves to the same schema, and a
/// schema renders to the same type and the same validator, or fails with
/// the same error.
pub proof fn lemma_bounds_do_not_decide(
    schemas: Seq<(Seq<char>, SchemaRefView)>,
    r: SchemaRefView,
    ty: SchemaTypeView,
    depth: nat,
    count: nat,
)
    requires
        acyclic(schemas),
        count >= schemas.len(),
    ensures
        resolve_within(schemas, r, count) == resolve(schemas, r),
        type_text(schemas, ty, depth, count) == type_text(schemas, ty, depth, schemas.len()),
        validator_text(schemas, ty, depth, count) == validator_text(
            schemas,
            ty,
            depth,
            schemas.len(),
        ),
{
    let rank = choose|rank: spec_fn(Seq<char>) -> nat| ranked(schemas, rank);
    lemma_ref_is_below_all(schemas, rank, r);
    lemma_type_is_below_all(schemas, rank, ty);
    lemma_resolve_is_stable(schemas, rank, r, schemas.len(), count, schemas.len());
    lemma_type_text_is_stable(schemas, rank, ty, depth, schemas.len(), count, schemas.len());
    lemma_validator_text_is_stable(schemas, rank, ty, depth, schemas.len(), count, schemas.len());
}

proof fn lemma_request_fields_are_stable(
    schemas: Seq<(Seq<char>, SchemaRefView)>,
    rank: spec_fn(Seq<char>) -> nat,
    params: Seq<ParamView>,
    from: int,
    depth: nat,
    count: nat,
)
    requires
        ranked(schemas, rank),
        count >= schemas.len(),
    ensures
        request_fields_text(schemas, params, from, depth, count) == request_fields_text(
            schemas,
            params,
            from,
            depth,
            schemas.len(),
        ),
    decreases params.len() - from,
{
    if 0 <= from < params.len() {
        lemma_type_is_below_all(schemas, rank, params[from].ty);
        lemma_type_text_is_stable(
            schemas,
            rank,
            params[from].ty,
            depth,
            schemas.len(),
            count,
            schemas.len(),
        );
        assert(request_field_text(schemas, params[from], depth, count) == request_field_text(
            schemas,
            params[from],
            depth,
            schemas.len(),
        ));
        lemma_request_fields_are_stable(schemas, rank, params, from + 1, depth, count);
    }
}

proof fn lemma_requests_are_stable(
    schemas: Seq<(Seq<char>, SchemaRefView)>,
    rank: spec_fn(Seq<char>) -> nat,
    methods: Seq<MethodView>,
    from: int,
    depth: nat,
    count: nat,
)
    requires
        ranked(schemas, rank),
        count >= schemas.len(),
    ensures
        requests_text(schemas, methods, from, depth, count) == requests_text(
            schemas,
            methods,
            from,
            depth,
            schemas.len(),
        ),
    decreases methods.len() - from,
{
    if 0 <= from < methods.len() {
        lemma_request_fields_are_stable(schemas, rank, methods[from].parameters, 0, depth, count);
        assert(request_text(schemas, methods[from], depth, count) == request_text(
            schemas,
            methods[from],
            depth,
            schemas.len(),
        ));
        lemma_requests_are_stable(schemas, rank, methods, from + 1, depth, count);
    }
}

proof fn lemma_responses_are_stable(
    schemas: Seq<(Seq<char>, SchemaRefView)>,
    rank: spec_fn(Seq<char>) -> nat,
    methods: Seq<MethodView>,
    from: int,
    depth: nat,
    count: nat,
)
    requires
        ranked(schemas, rank),
        count >= schemas.len(),
    ensures
        responses_text(schemas, methods, from, depth, count) == responses_text(
            schemas,
            methods,
            from,
            depth,
            schemas.len(),
        ),
    decreases methods.len() - from,
{
    if 0 <= from < methods.len() {
        if let Some(obj) = methods[from].ret {
            lemma_type_is_below_all(schemas, rank, SchemaTypeView::Object(obj));
            lemma_object_validator_is_stable(
                schemas,
                rank,
                obj,
                depth,
                schemas.len(),
                count,
                schemas.len(),
            );
        }
        assert(response_text(schemas, methods[from], depth, count) == response_text(
            schemas,
            methods[from],
            depth,
            schemas.len(),
        ));
        lemma_responses_are_stable(schemas, rank, methods, from + 1, depth, count);
    }
}

/// On a table without circles, the unit of a namespace is the same with
/// any count of at least the number of entries: what is emitted does not
/// depend on the bound.
pub proof fn lemma_units_do_not_depend_on_bound(
    schemas: Seq<(Seq<char>, SchemaRefView)>,
    name: Seq<char>,
    ns: NamespaceView,
    depth: nat,
    count: nat,
)
    requires
        acyclic(schemas),
        count >= schemas.len(),
    ensures
        unit_text(schemas, name, ns, depth, count) == unit_text(
            schemas,
            name,
            ns,
            depth,
            schemas.len(),
        ),
{
    let rank = choose|rank: spec_fn(Seq<char>) -> nat| ranked(schemas, rank);
    lemma_requests_are_stable(schemas, rank, ns.methods, 0, depth, count);
    lemma_responses_are_stable(schemas, rank, ns.methods, 0, depth, count);
}

} // verus!
