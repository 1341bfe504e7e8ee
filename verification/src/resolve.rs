//! Following schema references to the schema they stand for.

use crate::document::Document;
use crate::schema::{Schema, SchemaRef, SchemaRefView, SchemaView};
use crate::text::{has_prefix, str_eq, strip_prefix};
use vstd::prelude::*;
use vstd::string::*;

verus! {

/// The path under which a document keeps its named schemas.
pub open spec fn schema_prefix() -> Seq<char> {
    "#/components/schemas/"@
}

/// The entry of the schema table with the given name, searched from index
/// `from` upward: the first one counts.
pub open spec fn lookup_from(
    schemas: Seq<(Seq<char>, SchemaRefView)>,
    name: Seq<char>,
    from: int,
) -> Option<SchemaRefView>
    decreases schemas.len() - from,
{
    if from < 0 || from >= schemas.len() {
        None
    } else if schemas[from].0 == name {
        Some(schemas[from].1)
    } else {
        lookup_from(schemas, name, from + 1)
    }
}

/// The entry of the schema table with the given name.
pub open spec fn lookup(schemas: Seq<(Seq<char>, SchemaRefView)>, name: Seq<char>) -> Option<
    SchemaRefView,
> {
    lookup_from(schemas, name, 0)
}

/// The inline schema reached from `r` by at most `limit` look-ups.
pub open spec fn resolve_within(
    schemas: Seq<(Seq<char>, SchemaRefView)>,
    r: SchemaRefView,
    limit: nat,
) -> Option<SchemaView>
    decreases limit,
{
    match r {
        SchemaRefView::Item(s) => Some(*s),
        SchemaRefView::Reference(target) => {
            if limit == 0 || !has_prefix(target, schema_prefix()) {
                None
            } else {
                match lookup(schemas, target.skip(schema_prefix().len() as int)) {
                    None => None,
                    Some(next) => resolve_within(schemas, next, (limit - 1) as nat),
                }
            }
        },
    }
}

/// The inline schema that `r` stands for. A reference is followed through
/// the table as long as it leads to further references; a chain that takes
/// more look-ups than the table has entries runs in a circle and resolves
/// to nothing, as does a reference to a name that the table lacks.
pub open spec fn resolve(schemas: Seq<(Seq<char>, SchemaRefView)>, r: SchemaRefView) -> Option<
    SchemaView,
> {
    resolve_within(schemas, r, schemas.len())
}

/// The view of an optional borrowed schema.
pub open spec fn option_schema_view(o: Option<&Schema>) -> Option<SchemaView> {
    match o {
        Some(s) => Some(s@),
        None => None,
    }
}

/// Finds the named entry of the schema table.
fn find_schema<'o>(api: &'o Document, name: &str) -> (r: Option<&'o SchemaRef>)
    ensures
        match r {
            Some(found) => lookup(api@.schemas, name@) == Some(found@),
            None => lookup(api@.schemas, name@) is None,
        },
{
    let mut i: usize = 0;
    while i < api.schemas.len()
        invariant
            i <= api.schemas.len(),
            lookup(api@.schemas, name@) == lookup_from(api@.schemas, name@, i as int),
        decreases api.schemas.len() - i,
    {
        let entry = &api.schemas[i];
        assert(api@.schemas[i as int] == (entry.0@, entry.1@));
        if str_eq(entry.0.as_str(), name) {
            return Some(&entry.1);
        }
        i += 1;
    }
    None
}

/// Follows a possibly indirect schema reference to the inline schema it
/// stands for.
pub fn resolve_reference_schema<'o>(schema: &'o SchemaRef, api: &'o Document) -> (r: Option<
    &'o Schema,
>)
    ensures
        option_schema_view(r) == resolve(api@.schemas, schema@),
{
    let mut current: &'o SchemaRef = schema;
    let mut limit: usize = api.schemas.len();
    loop
        invariant
            limit <= api.schemas.len(),
            resolve(api@.schemas, schema@) == resolve_within(
                api@.schemas,
                current@,
                limit as nat,
            ),
        decreases limit,
    {
        match current {
            SchemaRef::Item(s) => {
                return Some(&**s);
            },
            SchemaRef::Reference(target) => {
                if limit == 0 {
                    return None;
                }
                match strip_prefix(target.as_str(), "#/components/schemas/") {
                    None => {
                        return None;
                    },
                    Some(name) => {
                        match find_schema(api, name.as_str()) {
                            None => {
                                return None;
                            },
                            Some(next) => {
                                current = next;
                                limit = limit - 1;
                            },
                        }
                    },
                }
            },
        }
    }
}

} // verus!
