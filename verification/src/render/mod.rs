//! Rendering of the canonical model as source text.

pub mod method;
pub mod response;
pub mod types;

use crate::document::Document;
use crate::error::Error;
use crate::extract::{
    has_active, Extract, ExtractNamespace, ExtractNamespaceMethod, ExtractNamespaceMethodParam,
    ExtractView, MethodView, NamespaceView, ParamView,
};
use crate::render::method::{method_text, request_name};
use crate::render::response::response_text;
use crate::render::types::rendered_type;
use crate::text::{to_upper_camel_case, upper_camel_case};
use crate::resolve::{resolve, resolve_reference_schema};
use crate::schema::{Schema, SchemaRef, SchemaRefView, SchemaView};
use crate::text::{
    chars_of, indent, lemma_concat_assoc, lemma_concat_empty, push_char, push_indent,
};
use crate::wrap::{comment_body, push_comment_body};
use vstd::prelude::*;
use vstd::string::*;

verus! {

/// The text that opens every emitted unit.
pub const FILE_NOTICE: &'static str =
    "\n/******************************************************************************\n *\n * !!!WARNING!!!\n *\n * This file is automatically generated. Do not edit this file directly.\n *\n * This file was generated using the twitch generation script, found in the\n * `scripts/twitch` directory of the repository.\n *\n *****************************************************************************/\n\nimport type { Twitch } from \"../index\";\nimport type { TokenId } from \"../types\";\nimport { z } from \"zod\";\n";

/// The state of a rendering: the text written so far, the document whose
/// schemas are followed, the depth of nesting and the number of named
/// schemas that may still be entered on the way down.
#[derive(Debug)]
pub struct Render<'o> {
    pub writer: String,
    pub api: &'o Document,
    pub depth: usize,
    pub hops: usize,
}

/// The hexadecimal digit of a value below sixteen.
pub open spec fn hex_digit(d: nat) -> char {
    if d == 0 {
        '0'
    } else if d == 1 {
        '1'
    } else if d == 2 {
        '2'
    } else if d == 3 {
        '3'
    } else if d == 4 {
        '4'
    } else if d == 5 {
        '5'
    } else if d == 6 {
        '6'
    } else if d == 7 {
        '7'
    } else if d == 8 {
        '8'
    } else if d == 9 {
        '9'
    } else if d == 10 {
        'a'
    } else if d == 11 {
        'b'
    } else if d == 12 {
        'c'
    } else if d == 13 {
        'd'
    } else if d == 14 {
        'e'
    } else {
        'f'
    }
}

/// A number in hexadecimal digits, without leading zeros.
pub open spec fn hex_digits(n: nat) -> Seq<char>
    decreases n,
{
    if n < 16 {
        seq![hex_digit(n)]
    } else {
        hex_digits(n / 16).push(hex_digit(n % 16))
    }
}

/// A character as it may stand in a string literal: tab, carriage return,
/// line feed, both quotes and the backslash behind a backslash, printable
/// ASCII as it is, everything else by its code point.
pub open spec fn escaped_char(c: char) -> Seq<char> {
    if c == '\t' {
        seq!['\\', 't']
    } else if c == '\r' {
        seq!['\\', 'r']
    } else if c == '\n' {
        seq!['\\', 'n']
    } else if c == '\'' || c == '"' || c == '\\' {
        seq!['\\', c]
    } else if 0x20 <= (c as u32) <= 0x7e {
        seq![c]
    } else {
        seq!['\\', 'u', '{'] + hex_digits((c as u32) as nat) + seq!['}']
    }
}

/// A text with every character escaped.
pub open spec fn escaped(s: Seq<char>) -> Seq<char>
    decreases s.len(),
{
    if s.len() == 0 {
        Seq::empty()
    } else {
        escaped(s.drop_last()) + escaped_char(s.last())
    }
}

fn digit_of(d: u32) -> (r: char)
    requires
        d < 16,
    ensures
        r == hex_digit(d as nat),
{
    if d == 0 {
        '0'
    } else if d == 1 {
        '1'
    } else if d == 2 {
        '2'
    } else if d == 3 {
        '3'
    } else if d == 4 {
        '4'
    } else if d == 5 {
        '5'
    } else if d == 6 {
        '6'
    } else if d == 7 {
        '7'
    } else if d == 8 {
        '8'
    } else if d == 9 {
        '9'
    } else if d == 10 {
        'a'
    } else if d == 11 {
        'b'
    } else if d == 12 {
        'c'
    } else if d == 13 {
        'd'
    } else if d == 14 {
        'e'
    } else {
        'f'
    }
}

fn push_hex(out: &mut String, n: u32)
    ensures
        final(out)@ == old(out)@ + hex_digits(n as nat),
    decreases n,
{
    if n < 16 {
        push_char(out, digit_of(n));
        assert(out@ =~= old(out)@ + seq![hex_digit(n as nat)]);
    } else {
        push_hex(out, n / 16);
        push_char(out, digit_of(n % 16));
        assert(out@ =~= old(out)@ + hex_digits((n / 16) as nat).push(hex_digit((n % 16) as nat)));
    }
}

fn push_escaped_char(out: &mut String, c: char)
    ensures
        final(out)@ == old(out)@ + escaped_char(c),
{
    let u: u32 = c as u32;
    if c == '\t' {
        push_char(out, '\\');
        push_char(out, 't');
        assert(out@ =~= old(out)@ + seq!['\\', 't']);
    } else if c == '\r' {
        push_char(out, '\\');
        push_char(out, 'r');
        assert(out@ =~= old(out)@ + seq!['\\', 'r']);
    } else if c == '\n' {
        push_char(out, '\\');
        push_char(out, 'n');
        assert(out@ =~= old(out)@ + seq!['\\', 'n']);
    } else if c == '\'' || c == '"' || c == '\\' {
        push_char(out, '\\');
        push_char(out, c);
        assert(out@ =~= old(out)@ + seq!['\\', c]);
    } else if 0x20 <= u && u <= 0x7e {
        push_char(out, c);
        assert(out@ =~= old(out)@ + seq![c]);
    } else {
        push_char(out, '\\');
        push_char(out, 'u');
        push_char(out, '{');
        push_hex(out, u);
        push_char(out, '}');
        assert(out@ =~= old(out)@ + (seq!['\\', 'u', '{'] + hex_digits(u as nat) + seq!['}']));
    }
}

/// Appends a text to `out` with every character escaped.
pub fn push_escaped(out: &mut String, s: &str)
    ensures
        final(out)@ == old(out)@ + escaped(s@),
{
    let v = chars_of(s);
    let mut i: usize = 0;
    assert(v@.take(0) =~= Seq::empty());
    while i < v.len()
        invariant
            i <= v.len(),
            v@ == s@,
            out@ == old(out)@ + escaped(v@.take(i as int)),
        decreases v.len() - i,
    {
        push_escaped_char(out, v[i]);
        assert(v@.take(i + 1).drop_last() =~= v@.take(i as int));
        assert(out@ =~= old(out)@ + escaped(v@.take(i + 1)));
        i += 1;
    }
    assert(v@.take(v.len() as int) =~= v@);
}

/// The budget of bytes per line of a documentation comment at a depth.
pub open spec fn comment_width(depth: nat) -> nat {
    if 2 * depth <= 71 {
        (71 - 2 * depth) as nat
    } else {
        0
    }
}

/// The documentation comment of a schema at a depth: nothing where the
/// schema has no description.
pub open spec fn schema_comment(description: Option<Seq<char>>, depth: nat) -> Seq<char> {
    match description {
        None => Seq::empty(),
        Some(d) => indent(depth) + "/**\n"@ + comment_body(
            d,
            comment_width(depth),
            indent(depth) + " * "@,
        ) + indent(depth) + " */\n"@,
    }
}

/// The description of a member, or the empty text where it has none.
pub open spec fn description_or_empty(description: Option<Seq<char>>) -> Seq<char> {
    match description {
        Some(d) => d,
        None => ""@,
    }
}

/// The documentation comment of a member of a declaration: the
/// description wrapped to 74 bytes per line.
pub open spec fn member_comment(description: Option<Seq<char>>) -> Seq<char> {
    "  /**\n"@ + comment_body(description_or_empty(description), 74, "   * "@) + "   */\n"@
}

/// The schema that rendering enters through a reference from within
/// another one, with the number of named schemas that may be entered
/// from there: nothing where the reference resolves to nothing. An
/// inline schema is entered freely; a named one only while the count
/// lasts, which bounds the descent through a table whose entries refer
/// to each other in a circle.
pub open spec fn target(
    schemas: Seq<(Seq<char>, SchemaRefView)>,
    r: SchemaRefView,
    hops: nat,
) -> Result<Option<(SchemaView, nat)>, Error> {
    match r {
        SchemaRefView::Item(s) => Ok(Some((*s, hops))),
        SchemaRefView::Reference(_) => match resolve(schemas, r) {
            None => Ok(None),
            Some(s) => if hops == 0 {
                Err(Error::NestingTooDeep)
            } else {
                Ok(Some((s, (hops - 1) as nat)))
            },
        },
    }
}

/// The view of what `enter` returns.
pub open spec fn entered_view(r: Result<Option<(&Schema, usize)>, Error>) -> Result<
    Option<(SchemaView, nat)>,
    Error,
> {
    match r {
        Ok(Some((s, h))) => Ok(Some((s@, h as nat))),
        Ok(None) => Ok(None),
        Err(e) => Err(e),
    }
}

/// The schema behind a reference, and the number of named schemas that
/// may be entered from there.
pub fn enter<'a>(api: &'a Document, r: &'a SchemaRef, hops: usize) -> (res: Result<
    Option<(&'a Schema, usize)>,
    Error,
>)
    ensures
        entered_view(res) == target(api@.schemas, r@, hops as nat),
        res matches Ok(Some((s, h))) ==> h <= hops && (h == hops ==> (r is Item && *r->Item_0
            == *s)),
{
    match r {
        SchemaRef::Item(s) => Ok(Some((&**s, hops))),
        SchemaRef::Reference(_) => match resolve_reference_schema(r, api) {
            None => Ok(None),
            Some(s) => if hops == 0 {
                Err(Error::NestingTooDeep)
            } else {
                Ok(Some((s, hops - 1)))
            },
        },
    }
}

/// A text behind what was written before, where there is a text.
pub open spec fn prepend(acc: Seq<char>, r: Result<Seq<char>, Error>) -> Result<Seq<char>, Error> {
    match r {
        Ok(t) => Ok(acc + t),
        Err(e) => Err(e),
    }
}

/// Writing the first part of a text and then the rest gives the text.
pub proof fn lemma_prepend_step(acc: Seq<char>, first: Seq<char>, rest: Result<Seq<char>, Error>)
    ensures
        prepend(
            acc,
            match rest {
                Ok(r) => Ok(first + r),
                Err(e) => Err(e),
            },
        ) == prepend(acc + first, rest),
{
    if let Ok(r) = rest {
        lemma_concat_assoc(acc, first, r);
    }
}

impl<'o> Render<'o> {
    /// A rendering of nothing yet, at depth 0, that may enter as many
    /// named schemas on a way down as the document has.
    pub fn new(api: &'o Document) -> (r: Self)
        ensures
            r.writer@ == Seq::<char>::empty(),
            r.api == api,
            r.depth == 0,
            r.hops == api.schemas.len(),
    {
        Render { writer: String::new(), api, depth: 0, hops: api.schemas.len() }
    }

    /// Whether two states differ in the text written at most.
    pub open spec fn same_context(&self, other: &Self) -> bool {
        self.api == other.api && self.depth == other.depth && self.hops == other.hops
    }

    /// Whether a step wrote `text` and changed nothing else, or failed
    /// with the error that stands in its place.
    pub open spec fn wrote(
        &self,
        before: &Self,
        r: Result<(), Error>,
        text: Result<Seq<char>, Error>,
    ) -> bool {
        match text {
            Ok(t) => r is Ok && self.same_context(before) && self.writer@ == before.writer@ + t,
            Err(e) => r == Err::<(), Error>(e),
        }
    }

    /// Writes the documentation comment of a member of a declaration.
    pub fn write_member_comment(&mut self, description: Option<&str>)
        ensures
            final(self).same_context(old(self)),
            final(self).writer@ == old(self).writer@ + member_comment(
                crate::classify::option_str_text(description),
            ),
    {
        let ghost before = self.writer@;
        let text = match description {
            Some(d) => d,
            None => "",
        };
        self.writer.append("  /**\n");
        push_comment_body(&mut self.writer, text, 74, "   * ");
        self.writer.append("   */\n");
        assert(self.writer@ =~= before + ("  /**\n"@ + comment_body(text@, 74, "   * "@)
            + "   */\n"@));
    }

    /// Writes the documentation comment of a schema at the current depth.
    pub fn write_schema_comment(&mut self, schema: &Schema)
        ensures
            final(self).same_context(old(self)),
            final(self).writer@ == old(self).writer@ + schema_comment(
                schema@.description,
                old(self).depth as nat,
            ),
    {
        match &schema.description {
            None => {
                assert(self.writer@ =~= old(self).writer@ + Seq::<char>::empty());
            },
            Some(desc) => {
                let width: usize = if self.depth <= 35 {
                    71 - self.depth * 2
                } else {
                    0
                };
                let ghost before = self.writer@;
                let ghost d = self.depth as nat;
                push_indent(&mut self.writer, self.depth);
                self.writer.append("/**\n");
                let mut prefix = String::new();
                push_indent(&mut prefix, self.depth);
                prefix.append(" * ");
                assert(prefix@ =~= indent(d) + " * "@);
                push_comment_body(&mut self.writer, desc.as_str(), width, prefix.as_str());
                push_indent(&mut self.writer, self.depth);
                self.writer.append(" */\n");
                assert(self.writer@ =~= before + (indent(d) + "/**\n"@ + comment_body(
                    desc@,
                    comment_width(d),
                    indent(d) + " * "@,
                ) + indent(d) + " */\n"@));
            },
        }
    }
}

/// The name of a member of a request shape, with the mark of an optional
/// member.
pub open spec fn request_label(p: ParamView) -> Seq<char> {
    "  "@ + p.id + (if p.optional {
        "?"@
    } else {
        ""@
    }) + ": "@
}

/// One member of a request shape: nothing for a parameter that is not
/// active, and for an active one its comment, its name and its type.
pub open spec fn request_field_text(
    schemas: Seq<(Seq<char>, SchemaRefView)>,
    p: ParamView,
    depth: nat,
    hops: nat,
) -> Result<Seq<char>, Error> {
    if !p.kind.spec_is_active() {
        Ok(Seq::empty())
    } else {
        match rendered_type(schemas, p.kind.spec_is_token_id(), p.ty, depth, hops) {
            Err(e) => Err(e),
            Ok(ty) => Ok(member_comment(p.description) + request_label(p) + ty + ",\n"@),
        }
    }
}

/// A parameter that is not active is left out of the request shape,
/// whatever its schema.
pub proof fn lemma_inactive_parameter_is_left_out(
    schemas: Seq<(Seq<char>, SchemaRefView)>,
    p: ParamView,
    depth: nat,
    hops: nat,
)
    requires
        !p.kind.spec_is_active(),
    ensures
        request_field_text(schemas, p, depth, hops) == Ok::<Seq<char>, Error>(Seq::empty()),
{
}

/// The members of a request shape from index `from` on.
pub open spec fn request_fields_text(
    schemas: Seq<(Seq<char>, SchemaRefView)>,
    params: Seq<ParamView>,
    from: int,
    depth: nat,
    hops: nat,
) -> Result<Seq<char>, Error>
    decreases params.len() - from,
{
    if from < 0 || from >= params.len() {
        Ok(Seq::empty())
    } else {
        match request_field_text(schemas, params[from], depth, hops) {
            Err(e) => Err(e),
            Ok(first) => match request_fields_text(schemas, params, from + 1, depth, hops) {
                Err(e) => Err(e),
                Ok(rest) => Ok(first + rest),
            },
        }
    }
}

/// The declaration of the request shape of a method.
pub open spec fn request_text(
    schemas: Seq<(Seq<char>, SchemaRefView)>,
    method: MethodView,
    depth: nat,
    hops: nat,
) -> Result<Seq<char>, Error> {
    match request_fields_text(schemas, method.parameters, 0, depth, hops) {
        Err(e) => Err(e),
        Ok(fields) => Ok(
            "export interface "@ + request_name(method.name) + " {\n"@ + fields + "}\n"@,
        ),
    }
}

/// The request shapes of the methods from index `from` on: one for each
/// method with an active parameter.
pub open spec fn requests_text(
    schemas: Seq<(Seq<char>, SchemaRefView)>,
    methods: Seq<MethodView>,
    from: int,
    depth: nat,
    hops: nat,
) -> Result<Seq<char>, Error>
    decreases methods.len() - from,
{
    if from < 0 || from >= methods.len() {
        Ok(Seq::empty())
    } else {
        match (if has_active(methods[from].parameters) {
            request_text(schemas, methods[from], depth, hops)
        } else {
            Ok(Seq::empty())
        }) {
            Err(e) => Err(e),
            Ok(first) => match requests_text(schemas, methods, from + 1, depth, hops) {
                Err(e) => Err(e),
                Ok(rest) => Ok(first + rest),
            },
        }
    }
}

/// The response declarations of the methods from index `from` on.
pub open spec fn responses_text(
    schemas: Seq<(Seq<char>, SchemaRefView)>,
    methods: Seq<MethodView>,
    from: int,
    depth: nat,
    hops: nat,
) -> Result<Seq<char>, Error>
    decreases methods.len() - from,
{
    if from < 0 || from >= methods.len() {
        Ok(Seq::empty())
    } else {
        match response_text(schemas, methods[from], depth, hops) {
            Err(e) => Err(e),
            Ok(first) => match responses_text(schemas, methods, from + 1, depth, hops) {
                Err(e) => Err(e),
                Ok(rest) => Ok(first + rest),
            },
        }
    }
}

/// The methods of a class from index `from` on.
pub open spec fn methods_text(methods: Seq<MethodView>, from: int) -> Seq<char>
    decreases methods.len() - from,
{
    if from < 0 || from >= methods.len() {
        Seq::empty()
    } else {
        method_text(methods[from]) + methods_text(methods, from + 1)
    }
}

/// The opening of a namespace class, whose constructor keeps the client.
pub open spec fn class_header(name: Seq<char>) -> Seq<char> {
    "\n\nexport class "@ + upper_camel_case(name)
        + " {\n  readonly #twitch: Twitch;\n\n  constructor(twitch: Twitch) {\n    this.#twitch = twitch;\n  }\n\n"@
}

/// The class of a namespace, with one method for each operation.
pub open spec fn class_text(name: Seq<char>, ns: NamespaceView) -> Seq<char> {
    class_header(name) + methods_text(ns.methods, 0) + "}\n"@
}

/// The unit of a namespace: the notice, the request shapes, the response
/// declarations, then the class.
pub open spec fn unit_text(
    schemas: Seq<(Seq<char>, SchemaRefView)>,
    name: Seq<char>,
    ns: NamespaceView,
    depth: nat,
    hops: nat,
) -> Result<Seq<char>, Error> {
    match requests_text(schemas, ns.methods, 0, depth, hops) {
        Err(e) => Err(e),
        Ok(requests) => match responses_text(schemas, ns.methods, 0, depth, hops) {
            Err(e) => Err(e),
            Ok(responses) => Ok(
                FILE_NOTICE@ + "\n"@ + requests + responses + class_text(name, ns),
            ),
        },
    }
}

/// The lines of the index from index `from` on: each exports a unit.
pub open spec fn exports_text(namespaces: Seq<(Seq<char>, NamespaceView)>, from: int) -> Seq<char>
    decreases namespaces.len() - from,
{
    if from < 0 || from >= namespaces.len() {
        Seq::empty()
    } else {
        "export * from \"./"@ + namespaces[from].0 + "\";\n"@ + exports_text(namespaces, from + 1)
    }
}

/// The index: the notice, then one export for each namespace.
pub open spec fn index_text(namespaces: Seq<(Seq<char>, NamespaceView)>) -> Seq<char> {
    FILE_NOTICE@ + "\n"@ + exports_text(namespaces, 0)
}

/// The units `acc` with those of the namespaces from index `from` on,
/// each under the name of its namespace.
pub open spec fn with_units(
    acc: Seq<(Seq<char>, Seq<char>)>,
    schemas: Seq<(Seq<char>, SchemaRefView)>,
    namespaces: Seq<(Seq<char>, NamespaceView)>,
    from: int,
    hops: nat,
) -> Result<Seq<(Seq<char>, Seq<char>)>, Error>
    decreases namespaces.len() - from,
{
    if from < 0 || from >= namespaces.len() {
        Ok(acc)
    } else {
        match unit_text(schemas, namespaces[from].0, namespaces[from].1, 0, hops) {
            Err(e) => Err(e),
            Ok(text) => with_units(
                acc.push((namespaces[from].0, text)),
                schemas,
                namespaces,
                from + 1,
                hops,
            ),
        }
    }
}

/// What generation emits: one unit for each namespace, and the index.
#[derive(Debug)]
pub struct Rendered {
    /// The name of each namespace with the text of its unit, in the
    /// order of the model.
    pub units: Vec<(String, String)>,
    pub index: String,
}

pub ghost struct RenderedView {
    pub units: Seq<(Seq<char>, Seq<char>)>,
    pub index: Seq<char>,
}

/// The view of a list of named texts.
pub open spec fn units_view(v: Vec<(String, String)>) -> Seq<(Seq<char>, Seq<char>)> {
    Seq::new(v@.len(), |i: int| (v@[i].0@, v@[i].1@))
}

impl View for Rendered {
    type V = RenderedView;

    open spec fn view(&self) -> RenderedView {
        RenderedView { units: units_view(self.units), index: self.index@ }
    }
}

/// What a model renders to under the schemas of its document. The first
/// namespace that cannot be rendered decides the error.
pub open spec fn rendered(schemas: Seq<(Seq<char>, SchemaRefView)>, model: ExtractView) -> Result<
    RenderedView,
    Error,
> {
    match with_units(Seq::empty(), schemas, model.namespaces, 0, schemas.len()) {
        Err(e) => Err(e),
        Ok(units) => Ok(RenderedView { units, index: index_text(model.namespaces) }),
    }
}

proof fn lemma_with_units(
    acc: Seq<(Seq<char>, Seq<char>)>,
    schemas: Seq<(Seq<char>, SchemaRefView)>,
    namespaces: Seq<(Seq<char>, NamespaceView)>,
    from: int,
    hops: nat,
)
    requires
        0 <= from <= namespaces.len(),
        acc.len() == from,
    ensures
        with_units(acc, schemas, namespaces, from, hops) matches Ok(units) ==> units.len()
            == namespaces.len() && forall|i: int|
            from <= i < units.len() ==> (#[trigger] units[i]).0 == namespaces[i].0 && unit_text(
                schemas,
                namespaces[i].0,
                namespaces[i].1,
                0,
                hops,
            ) == Ok::<Seq<char>, Error>(units[i].1),
    decreases namespaces.len() - from,
{
    if from < namespaces.len() {
        if let Ok(text) = unit_text(schemas, namespaces[from].0, namespaces[from].1, 0, hops) {
            let next = acc.push((namespaces[from].0, text));
            lemma_with_units(next, schemas, namespaces, from + 1, hops);
            if let Ok(units) = with_units(next, schemas, namespaces, from + 1, hops) {
                lemma_with_units_keeps(next, schemas, namespaces, from + 1, hops);
                assert(units[from] == next[from]);
            }
        }
    }
}

proof fn lemma_with_units_keeps(
    acc: Seq<(Seq<char>, Seq<char>)>,
    schemas: Seq<(Seq<char>, SchemaRefView)>,
    namespaces: Seq<(Seq<char>, NamespaceView)>,
    from: int,
    hops: nat,
)
    ensures
        with_units(acc, schemas, namespaces, from, hops) matches Ok(units) ==> acc.len()
            <= units.len() && forall|i: int| 0 <= i < acc.len() ==> units[i] == acc[i],
    decreases namespaces.len() - from,
{
    if 0 <= from < namespaces.len() {
        if let Ok(text) = unit_text(schemas, namespaces[from].0, namespaces[from].1, 0, hops) {
            lemma_with_units_keeps(
                acc.push((namespaces[from].0, text)),
                schemas,
                namespaces,
                from + 1,
                hops,
            );
        }
    }
}

/// A model renders to one unit for each of its namespaces, in their
/// order and under their names, and each unit holds the text of its
/// namespace.
pub proof fn lemma_one_unit_per_namespace(
    schemas: Seq<(Seq<char>, SchemaRefView)>,
    model: ExtractView,
)
    ensures
        rendered(schemas, model) matches Ok(out) ==> out.units.len() == model.namespaces.len()
            && out.index == index_text(model.namespaces) && forall|i: int|
            0 <= i < out.units.len() ==> (#[trigger] out.units[i]).0 == model.namespaces[i].0
                && unit_text(
                schemas,
                model.namespaces[i].0,
                model.namespaces[i].1,
                0,
                schemas.len(),
            ) == Ok::<Seq<char>, Error>(out.units[i].1),
{
    lemma_with_units(Seq::empty(), schemas, model.namespaces, 0, schemas.len());
}

impl<'o> Render<'o> {
    /// Writes one member of a request shape.
    fn render_request_field(&mut self, param: &ExtractNamespaceMethodParam<'_>) -> (r: Result<
        (),
        Error,
    >)
        ensures
            final(self).wrote(
                old(self),
                r,
                request_field_text(
                    old(self).api@.schemas,
                    param@,
                    old(self).depth as nat,
                    old(self).hops as nat,
                ),
            ),
    {
        let ghost before = self.writer@;
        let ghost p = param@;
        if !param.kind.is_active() {
            assert(self.writer@ =~= before + Seq::<char>::empty());
            return Ok(());
        }
        self.write_member_comment(param.description);
        let ghost commented = self.writer@;
        self.writer.append("  ");
        self.writer.append(param.id.as_str());
        if param.optional {
            self.writer.append("?");
        } else {
            proof {
                lemma_concat_empty(self.writer@);
            }
        }
        self.writer.append(": ");
        assert(self.writer@ =~= commented + request_label(p));
        match self.render_type(param.kind.is_token_id(), param.ty) {
            Err(e) => {
                return Err(e);
            },
            Ok(()) => {},
        }
        self.writer.append(",\n");
        proof {
            let ty = rendered_type(
                self.api@.schemas,
                p.kind.spec_is_token_id(),
                p.ty,
                self.depth as nat,
                self.hops as nat,
            )->Ok_0;
            assert(self.writer@ =~= before + (member_comment(p.description) + request_label(p)
                + ty + ",\n"@));
        }
        Ok(())
    }

    /// Writes the declaration of the request shape of a method.
    pub fn render_requests(&mut self, method: &ExtractNamespaceMethod<'_>) -> (r: Result<
        (),
        Error,
    >)
        ensures
            final(self).wrote(
                old(self),
                r,
                request_text(
                    old(self).api@.schemas,
                    method@,
                    old(self).depth as nat,
                    old(self).hops as nat,
                ),
            ),
    {
        let ghost before = self.writer@;
        let ghost schemas = self.api@.schemas;
        let ghost h = self.hops as nat;
        let ghost d = self.depth as nat;
        let ghost params = method@.parameters;
        let mut full = method.name.clone();
        full.append("Request");
        let name = to_upper_camel_case(full.as_str());
        self.writer.append("export interface ");
        self.writer.append(name.as_str());
        self.writer.append(" {\n");
        let ghost head = self.writer@;
        let ghost acc: Seq<char> = Seq::empty();
        let ghost whole = request_fields_text(schemas, params, 0, d, h);
        let mut i: usize = 0;
        while i < method.parameters.len()
            invariant
                i <= method.parameters.len(),
                params == method@.parameters,
                params.len() == method.parameters.len(),
                self.same_context(old(self)),
                d == self.depth as nat,
                schemas == self.api@.schemas,
                h == self.hops as nat,
                self.writer@ == head + acc,
                whole == request_fields_text(schemas, params, 0, d, h),
                whole == prepend(acc, request_fields_text(schemas, params, i as int, d, h)),
            decreases method.parameters.len() - i,
        {
            assert(params[i as int] == method.parameters[i as int]@);
            match self.render_request_field(&method.parameters[i]) {
                Err(e) => {
                    return Err(e);
                },
                Ok(()) => {},
            }
            proof {
                let first = request_field_text(schemas, params[i as int], d, h)->Ok_0;
                lemma_concat_assoc(head, acc, first);
                lemma_prepend_step(acc, first, request_fields_text(schemas, params, i + 1, d, h));
                acc = acc + first;
            }
            i += 1;
        }
        self.writer.append("}\n");
        assert(acc + Seq::<char>::empty() =~= acc);
        assert(self.writer@ =~= before + ("export interface "@ + request_name(method@.name)
            + " {\n"@ + acc + "}\n"@));
        Ok(())
    }

    /// Writes the request shapes of the methods of a namespace.
    fn render_all_requests(&mut self, ns: &ExtractNamespace<'_>) -> (r: Result<(), Error>)
        ensures
            final(self).wrote(
                old(self),
                r,
                requests_text(
                    old(self).api@.schemas,
                    ns@.methods,
                    0,
                    old(self).depth as nat,
                    old(self).hops as nat,
                ),
            ),
    {
        let ghost before = self.writer@;
        let ghost schemas = self.api@.schemas;
        let ghost h = self.hops as nat;
        let ghost d = self.depth as nat;
        let ghost methods = ns@.methods;
        let ghost acc: Seq<char> = Seq::empty();
        let ghost whole = requests_text(schemas, methods, 0, d, h);
        assert(self.writer@ =~= before + acc);
        let mut i: usize = 0;
        while i < ns.methods.len()
            invariant
                i <= ns.methods.len(),
                methods == ns@.methods,
                methods.len() == ns.methods.len(),
                self.same_context(old(self)),
                d == self.depth as nat,
                schemas == self.api@.schemas,
                h == self.hops as nat,
                self.writer@ == before + acc,
                whole == requests_text(schemas, methods, 0, d, h),
                whole == prepend(acc, requests_text(schemas, methods, i as int, d, h)),
            decreases ns.methods.len() - i,
        {
            assert(methods[i as int] == ns.methods[i as int]@);
            let ghost first: Seq<char> = Seq::empty();
            if ns.methods[i].has_active_params() {
                match self.render_requests(&ns.methods[i]) {
                    Err(e) => {
                        return Err(e);
                    },
                    Ok(()) => {},
                }
                proof {
                    first = request_text(schemas, methods[i as int], d, h)->Ok_0;
                }
            }
            proof {
                lemma_concat_assoc(before, acc, first);
                lemma_concat_empty(before + acc);
                lemma_prepend_step(acc, first, requests_text(schemas, methods, i + 1, d, h));
                acc = acc + first;
            }
            i += 1;
        }
        assert(acc + Seq::<char>::empty() =~= acc);
        Ok(())
    }

    /// Writes the response declarations of the methods of a namespace.
    fn render_all_responses(&mut self, ns: &ExtractNamespace<'_>) -> (r: Result<(), Error>)
        ensures
            final(self).wrote(
                old(self),
                r,
                responses_text(
                    old(self).api@.schemas,
                    ns@.methods,
                    0,
                    old(self).depth as nat,
                    old(self).hops as nat,
                ),
            ),
    {
        let ghost before = self.writer@;
        let ghost schemas = self.api@.schemas;
        let ghost h = self.hops as nat;
        let ghost d = self.depth as nat;
        let ghost methods = ns@.methods;
        let ghost acc: Seq<char> = Seq::empty();
        let ghost whole = responses_text(schemas, methods, 0, d, h);
        assert(self.writer@ =~= before + acc);
        let mut i: usize = 0;
        while i < ns.methods.len()
            invariant
                i <= ns.methods.len(),
                methods == ns@.methods,
                methods.len() == ns.methods.len(),
                self.same_context(old(self)),
                d == self.depth as nat,
                schemas == self.api@.schemas,
                h == self.hops as nat,
                self.writer@ == before + acc,
                whole == responses_text(schemas, methods, 0, d, h),
                whole == prepend(acc, responses_text(schemas, methods, i as int, d, h)),
            decreases ns.methods.len() - i,
        {
            assert(methods[i as int] == ns.methods[i as int]@);
            match self.render_response(&ns.methods[i]) {
                Err(e) => {
                    return Err(e);
                },
                Ok(()) => {},
            }
            proof {
                let first = response_text(schemas, methods[i as int], d, h)->Ok_0;
                lemma_concat_assoc(before, acc, first);
                lemma_prepend_step(acc, first, responses_text(schemas, methods, i + 1, d, h));
                acc = acc + first;
            }
            i += 1;
        }
        assert(acc + Seq::<char>::empty() =~= acc);
        Ok(())
    }

    /// Writes the methods of the class of a namespace.
    fn render_all_methods(&mut self, ns: &ExtractNamespace<'_>)
        ensures
            final(self).same_context(old(self)),
            final(self).writer@ == old(self).writer@ + methods_text(ns@.methods, 0),
    {
        let ghost methods = ns@.methods;
        let ghost goal = self.writer@ + methods_text(methods, 0);
        let mut i: usize = 0;
        while i < ns.methods.len()
            invariant
                i <= ns.methods.len(),
                methods == ns@.methods,
                methods.len() == ns.methods.len(),
                self.same_context(old(self)),
                goal == self.writer@ + methods_text(methods, i as int),
            decreases ns.methods.len() - i,
        {
            let ghost before = self.writer@;
            assert(methods[i as int] == ns.methods[i as int]@);
            self.render_method(&ns.methods[i]);
            assert(before + (method_text(methods[i as int]) + methods_text(methods, i + 1))
                =~= self.writer@ + methods_text(methods, i + 1));
            i += 1;
        }
        assert(self.writer@ + Seq::<char>::empty() =~= self.writer@);
    }

    /// Writes the class of a namespace.
    fn render_class(&mut self, name: &str, ns: &ExtractNamespace<'_>)
        ensures
            final(self).same_context(old(self)),
            final(self).writer@ == old(self).writer@ + class_text(name@, ns@),
    {
        let ghost before = self.writer@;
        let class_name = to_upper_camel_case(name);
        self.writer.append("\n\nexport class ");
        self.writer.append(class_name.as_str());
        self.writer.append(
            " {\n  readonly #twitch: Twitch;\n\n  constructor(twitch: Twitch) {\n    this.#twitch = twitch;\n  }\n\n",
        );
        assert(self.writer@ =~= before + class_header(name@));
        self.render_all_methods(ns);
        self.writer.append("}\n");
        assert(self.writer@ =~= before + (class_header(name@) + methods_text(ns@.methods, 0)
            + "}\n"@));
    }

    /// Writes the unit of a namespace.
    pub fn render(&mut self, name: &str, ns: &ExtractNamespace<'_>) -> (r: Result<(), Error>)
        ensures
            final(self).wrote(
                old(self),
                r,
                unit_text(
                    old(self).api@.schemas,
                    name@,
                    ns@,
                    old(self).depth as nat,
                    old(self).hops as nat,
                ),
            ),
    {
        let ghost before = self.writer@;
        let ghost schemas = self.api@.schemas;
        let ghost h = self.hops as nat;
        let ghost d = self.depth as nat;
        self.writer.append(FILE_NOTICE);
        self.writer.append("\n");
        match self.render_all_requests(ns) {
            Err(e) => {
                return Err(e);
            },
            Ok(()) => {},
        }
        let ghost requests = requests_text(schemas, ns@.methods, 0, d, h)->Ok_0;
        match self.render_all_responses(ns) {
            Err(e) => {
                return Err(e);
            },
            Ok(()) => {},
        }
        let ghost responses = responses_text(schemas, ns@.methods, 0, d, h)->Ok_0;
        self.render_class(name, ns);
        proof {
            let notice = FILE_NOTICE@;
            let class = class_text(name@, ns@);
            lemma_concat_assoc(before, notice, "\n"@);
            lemma_concat_assoc(before, notice + "\n"@, requests);
            lemma_concat_assoc(before, notice + "\n"@ + requests, responses);
            lemma_concat_assoc(before, notice + "\n"@ + requests + responses, class);
        }
        Ok(())
    }
}

/// The text of the index of a model.
pub fn render_index(extract: &Extract<'_>) -> (r: String)
    ensures
        r@ == index_text(extract@.namespaces),
{
    let mut out = String::new();
    out.append(FILE_NOTICE);
    out.append("\n");
    let ghost head = out@;
    let ghost namespaces = extract@.namespaces;
    let mut i: usize = 0;
    while i < extract.namespaces.len()
        invariant
            i <= extract.namespaces.len(),
            namespaces == extract@.namespaces,
            namespaces.len() == extract.namespaces.len(),
            head + exports_text(namespaces, 0) == out@ + exports_text(namespaces, i as int),
        decreases extract.namespaces.len() - i,
    {
        let ghost before = out@;
        assert(namespaces[i as int].0 == extract.namespaces[i as int].0@);
        out.append("export * from \"./");
        out.append(extract.namespaces[i].0.as_str());
        out.append("\";\n");
        assert(before + ("export * from \"./"@ + namespaces[i as int].0 + "\";\n"@ + exports_text(
            namespaces,
            i + 1,
        )) =~= out@ + exports_text(namespaces, i + 1));
        i += 1;
    }
    assert(out@ + Seq::<char>::empty() =~= out@);
    assert(head =~= FILE_NOTICE@ + "\n"@);
    out
}

/// Renders a model: the unit of every namespace, and the index.
pub fn render(extract: &Extract<'_>, api: &Document) -> (r: Result<Rendered, Error>)
    ensures
        crate::error::result_view(r) == rendered(api@.schemas, extract@),
{
    let mut units: Vec<(String, String)> = Vec::new();
    let ghost namespaces = extract@.namespaces;
    let ghost schemas = api@.schemas;
    let ghost h = schemas.len();
    let ghost whole = with_units(Seq::empty(), schemas, namespaces, 0, h);
    assert(units_view(units) =~= Seq::empty());
    let mut i: usize = 0;
    while i < extract.namespaces.len()
        invariant
            i <= extract.namespaces.len(),
            namespaces == extract@.namespaces,
            namespaces.len() == extract.namespaces.len(),
            schemas == api@.schemas,
            h == schemas.len(),
            h == api.schemas.len(),
            whole == with_units(Seq::empty(), schemas, namespaces, 0, h),
            whole == with_units(units_view(units), schemas, namespaces, i as int, h),
        decreases extract.namespaces.len() - i,
    {
        let entry = &extract.namespaces[i];
        assert(namespaces[i as int] == (entry.0@, entry.1@));
        let mut unit = Render::new(api);
        match unit.render(entry.0.as_str(), &entry.1) {
            Err(e) => {
                return Err(e);
            },
            Ok(()) => {},
        }
        let ghost before = units_view(units);
        let ghost text = unit.writer@;
        assert(text =~= unit_text(schemas, entry.0@, entry.1@, 0, h)->Ok_0);
        units.push((entry.0.clone(), unit.writer));
        assert(units_view(units) =~= before.push((entry.0@, text)));
        i += 1;
    }
    let index = render_index(extract);
    Ok(Rendered { units, index })
}

} // verus!
