//! Methods of a namespace class: signature, and a body that builds the
//! request and hands it to the client.

use crate::extract::{
    body_of, has_active, has_body_kind, param_refs_view, query_of, ExtractNamespaceMethod,
    ExtractNamespaceMethodParam, MethodView, ParamView,
};
use crate::kind::ParamKind;
use crate::render::response::response_name;
use crate::render::{escaped, member_comment, push_escaped, Render};
use crate::schema::SchemaType;
use crate::text::{
    ascii_upper, char_is_alphabetic, chars_of, debug_list, format_debug_list, is_alphabetic,
    lemma_concat_assoc, lemma_concat_empty, to_ascii_upper, to_upper_camel_case,
    upper_camel_case,
};
use vstd::prelude::*;
use vstd::string::*;

verus! {

/// The name under which the request shape of a method is declared.
pub open spec fn request_name(method: Seq<char>) -> Seq<char> {
    upper_camel_case(method + "Request"@)
}

/// What a method resolves to: the raw response of a download, the
/// declared response where the method returns an object, nothing
/// otherwise.
pub open spec fn return_type(method: MethodView) -> Seq<char> {
    if method.download {
        "Response"@
    } else if method.ret is Some {
        response_name(method.name)
    } else {
        "void"@
    }
}

/// The opening of the statements for an optional query parameter, which
/// is added only where it is given, and the further indentation of what
/// stands inside.
pub open spec fn query_guard_text(p: ParamView) -> Seq<char> {
    if p.optional {
        "    if (options."@ + p.id + ") {\n"@ + "  "@
    } else {
        Seq::empty()
    }
}

/// The statement that adds a query parameter from the options: an array
/// adds one entry for each element under the same name.
pub open spec fn query_append_text(p: ParamView) -> Seq<char> {
    if p.ty is Array {
        "    for (const value of options."@ + p.id + ") {\n      url.searchParams.append(\""@
            + escaped(p.name) + "\", value.toString());\n    }\n"@
    } else {
        "    url.searchParams.append(\""@ + escaped(p.name) + "\", options."@ + p.id
            + ".toString());\n"@
    }
}

/// The statements that put one query parameter on the URL. The caller's
/// own identity comes from the session and never from the options.
pub open spec fn query_text(p: ParamView) -> Seq<char> {
    match p.kind {
        ParamKind::Query | ParamKind::QueryUserToken => query_guard_text(p) + query_append_text(
            p,
        ) + (if p.optional {
            "    }\n"@
        } else {
            ""@
        }),
        ParamKind::QueryCurrentUserToken => "    url.searchParams.append(\""@ + escaped(p.name)
            + "\", snapshot.userId);\n"@,
        _ => Seq::empty(),
    }
}

/// Whether a name can stand behind a dot: it holds letters and
/// underscores only.
pub open spec fn is_plain_name(name: Seq<char>) -> bool {
    forall|i: int| 0 <= i < name.len() ==> is_alphabetic(#[trigger] name[i]) || name[i] == '_'
}

/// The place of a property in the body under construction.
pub open spec fn body_access(name: Seq<char>) -> Seq<char> {
    if is_plain_name(name) {
        "body."@ + name
    } else {
        "body[\""@ + escaped(name) + "\"]"@
    }
}

/// The statement that puts one property into the body: from the options,
/// or, for the caller's own identity, from the session.
pub open spec fn body_param_text(p: ParamView) -> Seq<char> {
    match p.kind {
        ParamKind::Body | ParamKind::BodyUserToken => "    "@ + body_access(p.name)
            + " = options."@ + p.id + ";\n"@,
        ParamKind::BodyCurrentUserToken => "    "@ + body_access(p.name)
            + " = snapshot.userId;\n"@,
        _ => Seq::empty(),
    }
}

/// The statements for the query parameters from index `from` on.
pub open spec fn queries_text(params: Seq<ParamView>, from: int) -> Seq<char>
    decreases params.len() - from,
{
    if from < 0 || from >= params.len() {
        Seq::empty()
    } else {
        query_text(params[from]) + queries_text(params, from + 1)
    }
}

/// The statements for the body properties from index `from` on.
pub open spec fn bodies_text(params: Seq<ParamView>, from: int) -> Seq<char>
    decreases params.len() - from,
{
    if from < 0 || from >= params.len() {
        Seq::empty()
    } else {
        body_param_text(params[from]) + bodies_text(params, from + 1)
    }
}

/// The check that the session holds the scopes that a method requires:
/// nothing where the method names none.
pub open spec fn scopes_text(scopes: Option<Seq<Seq<char>>>) -> Seq<char> {
    match scopes {
        None => Seq::empty(),
        Some(required) => "    const requiredScopes = "@ + debug_list(required)
            + ";\n    const missingScopes = requiredScopes.filter((scope) => !snapshot.scopes.includes(scope));\n    if (missingScopes.length > 0) {\n      throw new Error(`missing required scopes: ${missingScopes.join(', ')}`);\n    }\n"@,
    }
}

/// The last statement of a method: it issues the call and returns what
/// the method resolves to.
pub open spec fn call_text(method: MethodView) -> Seq<char> {
    if method.download {
        "    return await this.#twitch.requestDownload(url, opts);\n"@
    } else if method.ret is Some {
        "    return await this.#twitch.request(url, opts, "@ + response_name(method.name)
            + ");\n"@
    } else {
        "    await this.#twitch.request(url, opts);\n"@
    }
}

/// The first statements of a method: the session, the check of the
/// scopes, the URL and its query parameters.
pub open spec fn request_setup_text(method: MethodView) -> Seq<char> {
    "    const snapshot = await this.#twitch.snapshot();\n"@ + scopes_text(method.requires_scopes)
        + "    const url = new URL(\""@ + escaped(method.path) + "\", this.#twitch.base);\n"@
        + queries_text(query_of(method.parameters), 0)
}

/// The statements that declare the options of the call, with the verb in
/// upper case.
pub open spec fn verb_text(method: MethodView) -> Seq<char> {
    "    const opts: RequestInit = { method: '"@ + escaped(ascii_upper(method.method))
        + "' };\n\n"@
}

/// The statements that build the JSON body: nothing where no parameter
/// travels in the body.
pub open spec fn body_setup_text(method: MethodView) -> Seq<char> {
    (if has_body_kind(method.parameters) {
        "    const body: Record<string, unknown> = {};\n\n"@
    } else {
        ""@
    }) + bodies_text(body_of(method.parameters), 0) + (if has_body_kind(method.parameters) {
        "    opts.body = JSON.stringify(body);\n"@
    } else {
        ""@
    })
}

/// The body of a method.
pub open spec fn method_body_text(method: MethodView) -> Seq<char> {
    request_setup_text(method) + verb_text(method) + body_setup_text(method) + call_text(method)
}

/// The parameter list of a method: the options of its request shape
/// where some parameter is active, and nothing otherwise.
pub open spec fn options_text(method: MethodView) -> Seq<char> {
    if has_active(method.parameters) {
        "options: "@ + request_name(method.name)
    } else {
        ""@
    }
}

/// The head of a method: its comment and its signature.
pub open spec fn signature_text(method: MethodView) -> Seq<char> {
    member_comment(method.description) + "  async "@ + method.name + "("@ + options_text(method)
        + "): Promise<"@ + return_type(method) + "> {\n"@
}

/// A method of a namespace class.
pub open spec fn method_text(method: MethodView) -> Seq<char> {
    signature_text(method) + method_body_text(method) + "  }\n"@
}

/// The value of a parameter that is the caller's own identity is taken
/// from the session: the statements written for it are fixed by its wire
/// name alone, and hold neither its identifier nor anything of its schema.
pub proof fn lemma_current_user_comes_from_session(p: ParamView, q: ParamView)
    requires
        !p.kind.spec_is_active(),
        q.kind == p.kind,
        q.name == p.name,
    ensures
        query_text(p) == query_text(q),
        body_param_text(p) == body_param_text(q),
        p.kind is QueryCurrentUserToken ==> query_text(p) == "    url.searchParams.append(\""@
            + escaped(p.name) + "\", snapshot.userId);\n"@,
        p.kind is BodyCurrentUserToken ==> body_param_text(p) == "    "@ + body_access(p.name)
            + " = snapshot.userId;\n"@,
{
}

fn is_array(ty: &SchemaType) -> (r: bool)
    ensures
        r == (ty@ is Array),
{
    match ty {
        SchemaType::Array(_) => true,
        _ => false,
    }
}

/// Whether a name can stand behind a dot.
pub fn plain_name(name: &str) -> (r: bool)
    ensures
        r == is_plain_name(name@),
{
    let v = chars_of(name);
    let mut i: usize = 0;
    while i < v.len()
        invariant
            i <= v.len(),
            v@ == name@,
            forall|k: int| 0 <= k < i ==> is_alphabetic(#[trigger] v@[k]) || v@[k] == '_',
        decreases v.len() - i,
    {
        if !char_is_alphabetic(v[i]) && v[i] != '_' {
            return false;
        }
        i += 1;
    }
    true
}

impl<'o> Render<'o> {
    /// Writes the place of a property in the body under construction.
    fn write_body_access(&mut self, name: &str)
        ensures
            final(self).same_context(old(self)),
            final(self).writer@ == old(self).writer@ + body_access(name@),
    {
        let ghost before = self.writer@;
        if plain_name(name) {
            self.writer.append("body.");
            self.writer.append(name);
            assert(self.writer@ =~= before + ("body."@ + name@));
        } else {
            self.writer.append("body[\"");
            push_escaped(&mut self.writer, name);
            self.writer.append("\"]");
            assert(self.writer@ =~= before + ("body[\""@ + escaped(name@) + "\"]"@));
        }
    }

    /// Writes the opening of the statements for a query parameter.
    fn render_query_guard(&mut self, param: &ExtractNamespaceMethodParam<'_>)
        ensures
            final(self).same_context(old(self)),
            final(self).writer@ == old(self).writer@ + query_guard_text(param@),
    {
        let ghost before = self.writer@;
        let ghost p = param@;
        if param.optional {
            self.writer.append("    if (options.");
            self.writer.append(param.id.as_str());
            self.writer.append(") {\n");
            self.writer.append("  ");
            assert(self.writer@ =~= before + ("    if (options."@ + p.id + ") {\n"@ + "  "@));
        } else {
            proof {
                lemma_concat_empty(self.writer@);
            }
        }
    }

    /// Writes the statement that adds a query parameter from the options.
    fn render_query_append(&mut self, param: &ExtractNamespaceMethodParam<'_>)
        ensures
            final(self).same_context(old(self)),
            final(self).writer@ == old(self).writer@ + query_append_text(param@),
    {
        let ghost before = self.writer@;
        let ghost p = param@;
        if is_array(param.ty) {
            self.writer.append("    for (const value of options.");
            self.writer.append(param.id.as_str());
            self.writer.append(") {\n      url.searchParams.append(\"");
            push_escaped(&mut self.writer, param.name.as_str());
            self.writer.append("\", value.toString());\n    }\n");
            assert(self.writer@ =~= before + ("    for (const value of options."@ + p.id
                + ") {\n      url.searchParams.append(\""@ + escaped(p.name)
                + "\", value.toString());\n    }\n"@));
        } else {
            self.writer.append("    url.searchParams.append(\"");
            push_escaped(&mut self.writer, param.name.as_str());
            self.writer.append("\", options.");
            self.writer.append(param.id.as_str());
            self.writer.append(".toString());\n");
            assert(self.writer@ =~= before + ("    url.searchParams.append(\""@ + escaped(p.name)
                + "\", options."@ + p.id + ".toString());\n"@));
        }
    }

    /// Writes the statements that put one query parameter on the URL.
    pub fn render_method_query(&mut self, param: &ExtractNamespaceMethodParam<'_>)
        requires
            !param.kind.spec_is_body(),
        ensures
            final(self).same_context(old(self)),
            final(self).writer@ == old(self).writer@ + query_text(param@),
    {
        let ghost before = self.writer@;
        let ghost p = param@;
        match param.kind {
            ParamKind::QueryCurrentUserToken => {
                self.writer.append("    url.searchParams.append(\"");
                push_escaped(&mut self.writer, param.name.as_str());
                self.writer.append("\", snapshot.userId);\n");
                assert(self.writer@ =~= before + ("    url.searchParams.append(\""@ + escaped(
                    p.name,
                ) + "\", snapshot.userId);\n"@));
            },
            _ => {
                self.render_query_guard(param);
                self.render_query_append(param);
                if param.optional {
                    self.writer.append("    }\n");
                } else {
                    proof {
                        lemma_concat_empty(self.writer@);
                    }
                }
                proof {
                    let close = if p.optional {
                        "    }\n"@
                    } else {
                        ""@
                    };
                    lemma_concat_assoc(
                        before,
                        query_guard_text(p),
                        query_append_text(p),
                    );
                    lemma_concat_assoc(
                        before,
                        query_guard_text(p) + query_append_text(p),
                        close,
                    );
                }
            },
        }
    }

    /// Writes the statement that puts one property into the body.
    pub fn render_method_body_param(&mut self, param: &ExtractNamespaceMethodParam<'_>)
        requires
            param.kind.spec_is_body(),
        ensures
            final(self).same_context(old(self)),
            final(self).writer@ == old(self).writer@ + body_param_text(param@),
    {
        let ghost before = self.writer@;
        let ghost p = param@;
        self.writer.append("    ");
        self.write_body_access(param.name.as_str());
        match param.kind {
            ParamKind::BodyCurrentUserToken => {
                self.writer.append(" = snapshot.userId;\n");
                assert(self.writer@ =~= before + ("    "@ + body_access(p.name)
                    + " = snapshot.userId;\n"@));
            },
            _ => {
                self.writer.append(" = options.");
                self.writer.append(param.id.as_str());
                self.writer.append(";\n");
                assert(self.writer@ =~= before + ("    "@ + body_access(p.name) + " = options."@
                    + p.id + ";\n"@));
            },
        }
    }

    /// Writes the statements for the query parameters of a method.
    fn render_queries(&mut self, method: &ExtractNamespaceMethod<'_>)
        ensures
            final(self).same_context(old(self)),
            final(self).writer@ == old(self).writer@ + queries_text(
                query_of(method@.parameters),
                0,
            ),
    {
        let params = method.query_params();
        let ghost all = query_of(method@.parameters);
        let ghost goal = self.writer@ + queries_text(all, 0);
        let mut i: usize = 0;
        while i < params.len()
            invariant
                i <= params.len(),
                self.same_context(old(self)),
                all == query_of(method@.parameters),
                param_refs_view(params) == all,
                goal == self.writer@ + queries_text(all, i as int),
            decreases params.len() - i,
        {
            let ghost before = self.writer@;
            proof {
                assert(all[i as int] == params[i as int]@);
                method@.parameters.lemma_filter_pred(
                    |p: ParamView| !p.kind.spec_is_body(),
                    i as int,
                );
            }
            self.render_method_query(params[i]);
            assert(before + (query_text(all[i as int]) + queries_text(all, i + 1))
                =~= self.writer@ + queries_text(all, i + 1));
            i += 1;
        }
        assert(self.writer@ + Seq::<char>::empty() =~= self.writer@);
    }

    /// Writes the statements for the body properties of a method.
    fn render_bodies(&mut self, method: &ExtractNamespaceMethod<'_>)
        ensures
            final(self).same_context(old(self)),
            final(self).writer@ == old(self).writer@ + bodies_text(body_of(method@.parameters), 0),
    {
        let params = method.body_params();
        let ghost all = body_of(method@.parameters);
        let ghost goal = self.writer@ + bodies_text(all, 0);
        let mut i: usize = 0;
        while i < params.len()
            invariant
                i <= params.len(),
                self.same_context(old(self)),
                all == body_of(method@.parameters),
                param_refs_view(params) == all,
                goal == self.writer@ + bodies_text(all, i as int),
            decreases params.len() - i,
        {
            let ghost before = self.writer@;
            proof {
                assert(all[i as int] == params[i as int]@);
                method@.parameters.lemma_filter_pred(
                    |p: ParamView| p.kind.spec_is_body(),
                    i as int,
                );
            }
            self.render_method_body_param(params[i]);
            assert(before + (body_param_text(all[i as int]) + bodies_text(all, i + 1))
                =~= self.writer@ + bodies_text(all, i + 1));
            i += 1;
        }
        assert(self.writer@ + Seq::<char>::empty() =~= self.writer@);
    }

    /// Writes the check of the required scopes.
    fn render_scopes(&mut self, method: &ExtractNamespaceMethod<'_>)
        ensures
            final(self).same_context(old(self)),
            final(self).writer@ == old(self).writer@ + scopes_text(method@.requires_scopes),
    {
        let ghost before = self.writer@;
        match &method.requires_scopes {
            None => {
                assert(self.writer@ =~= before + Seq::<char>::empty());
            },
            Some(scopes) => {
                let list = format_debug_list(scopes);
                self.writer.append("    const requiredScopes = ");
                self.writer.append(list.as_str());
                self.writer.append(
                    ";\n    const missingScopes = requiredScopes.filter((scope) => !snapshot.scopes.includes(scope));\n    if (missingScopes.length > 0) {\n      throw new Error(`missing required scopes: ${missingScopes.join(', ')}`);\n    }\n",
                );
                assert(method@.requires_scopes->Some_0 =~= Seq::new(
                    scopes@.len(),
                    |i: int| scopes@[i]@,
                ));
                assert(self.writer@ =~= before + scopes_text(method@.requires_scopes));
            },
        }
    }

    /// Writes the last statement of a method.
    fn render_call(&mut self, method: &ExtractNamespaceMethod<'_>)
        ensures
            final(self).same_context(old(self)),
            final(self).writer@ == old(self).writer@ + call_text(method@),
    {
        let ghost before = self.writer@;
        if method.download {
            self.writer.append("    return await this.#twitch.requestDownload(url, opts);\n");
        } else if method.ret.is_some() {
            let mut full = method.name.clone();
            full.append("Response");
            let ztype = to_upper_camel_case(full.as_str());
            self.writer.append("    return await this.#twitch.request(url, opts, ");
            self.writer.append(ztype.as_str());
            self.writer.append(");\n");
            assert(self.writer@ =~= before + ("    return await this.#twitch.request(url, opts, "@
                + response_name(method@.name) + ");\n"@));
        } else {
            self.writer.append("    await this.#twitch.request(url, opts);\n");
        }
    }

    /// Writes the first statements of a method.
    fn render_request_setup(&mut self, method: &ExtractNamespaceMethod<'_>)
        ensures
            final(self).same_context(old(self)),
            final(self).writer@ == old(self).writer@ + request_setup_text(method@),
    {
        let ghost before = self.writer@;
        let ghost m = method@;
        self.writer.append("    const snapshot = await this.#twitch.snapshot();\n");
        self.render_scopes(method);
        let ghost first = "    const snapshot = await this.#twitch.snapshot();\n"@ + scopes_text(
            m.requires_scopes,
        );
        assert(self.writer@ =~= before + first);
        self.writer.append("    const url = new URL(\"");
        push_escaped(&mut self.writer, method.path);
        self.writer.append("\", this.#twitch.base);\n");
        let ghost second = first + "    const url = new URL(\""@ + escaped(m.path)
            + "\", this.#twitch.base);\n"@;
        assert(self.writer@ =~= before + second);
        self.render_queries(method);
        assert(self.writer@ =~= before + (second + queries_text(query_of(m.parameters), 0)));
    }

    /// Writes the statements that declare the options of the call.
    fn render_verb(&mut self, method: &ExtractNamespaceMethod<'_>)
        ensures
            final(self).same_context(old(self)),
            final(self).writer@ == old(self).writer@ + verb_text(method@),
    {
        let ghost before = self.writer@;
        self.writer.append("    const opts: RequestInit = { method: '");
        let verb = to_ascii_upper(method.method);
        push_escaped(&mut self.writer, verb.as_str());
        self.writer.append("' };\n\n");
        assert(self.writer@ =~= before + ("    const opts: RequestInit = { method: '"@ + escaped(
            ascii_upper(method@.method),
        ) + "' };\n\n"@));
    }

    /// Writes the statements that build the JSON body.
    fn render_body_setup(&mut self, method: &ExtractNamespaceMethod<'_>)
        ensures
            final(self).same_context(old(self)),
            final(self).writer@ == old(self).writer@ + body_setup_text(method@),
    {
        let ghost before = self.writer@;
        let ghost m = method@;
        let has_body = method.has_body();
        if has_body {
            self.writer.append("    const body: Record<string, unknown> = {};\n\n");
        } else {
            proof {
                lemma_concat_empty(self.writer@);
            }
        }
        self.render_bodies(method);
        if has_body {
            self.writer.append("    opts.body = JSON.stringify(body);\n");
        } else {
            proof {
                lemma_concat_empty(self.writer@);
            }
        }
        assert(self.writer@ =~= before + body_setup_text(m));
    }

    /// Writes the body of a method.
    pub fn render_method_body(&mut self, method: &ExtractNamespaceMethod<'_>)
        ensures
            final(self).same_context(old(self)),
            final(self).writer@ == old(self).writer@ + method_body_text(method@),
    {
        let ghost before = self.writer@;
        let ghost m = method@;
        self.render_request_setup(method);
        self.render_verb(method);
        assert(self.writer@ =~= before + (request_setup_text(m) + verb_text(m)));
        self.render_body_setup(method);
        self.render_call(method);
        assert(self.writer@ =~= before + (request_setup_text(m) + verb_text(m) + body_setup_text(m)
            + call_text(m)));
    }

    /// Writes the parameter list of a method.
    fn render_options(&mut self, method: &ExtractNamespaceMethod<'_>)
        ensures
            final(self).same_context(old(self)),
            final(self).writer@ == old(self).writer@ + options_text(method@),
    {
        let ghost before = self.writer@;
        if method.has_active_params() {
            let mut full = method.name.clone();
            full.append("Request");
            let function_param_ty = to_upper_camel_case(full.as_str());
            self.writer.append("options: ");
            self.writer.append(function_param_ty.as_str());
            assert(self.writer@ =~= before + ("options: "@ + request_name(method@.name)));
        } else {
            proof {
                lemma_concat_empty(self.writer@);
            }
        }
    }

    /// Writes what a method resolves to.
    fn render_return_type(&mut self, method: &ExtractNamespaceMethod<'_>)
        ensures
            final(self).same_context(old(self)),
            final(self).writer@ == old(self).writer@ + return_type(method@),
    {
        if method.download {
            self.writer.append("Response");
        } else if method.ret.is_some() {
            let mut full = method.name.clone();
            full.append("Response");
            let function_ret = to_upper_camel_case(full.as_str());
            self.writer.append(function_ret.as_str());
        } else {
            self.writer.append("void");
        }
    }

    /// Writes the head of a method.
    fn render_signature(&mut self, method: &ExtractNamespaceMethod<'_>)
        ensures
            final(self).same_context(old(self)),
            final(self).writer@ == old(self).writer@ + signature_text(method@),
    {
        let ghost before = self.writer@;
        let ghost m = method@;
        self.write_member_comment(method.description);
        self.writer.append("  async ");
        self.writer.append(method.name.as_str());
        self.writer.append("(");
        self.render_options(method);
        self.writer.append("): Promise<");
        self.render_return_type(method);
        self.writer.append("> {\n");
        assert(self.writer@ =~= before + (member_comment(m.description) + "  async "@ + m.name
            + "("@ + options_text(m) + "): Promise<"@ + return_type(m) + "> {\n"@));
    }

    /// Writes a method of a namespace class.
    pub fn render_method(&mut self, method: &ExtractNamespaceMethod<'_>)
        ensures
            final(self).same_context(old(self)),
            final(self).writer@ == old(self).writer@ + method_text(method@),
    {
        let ghost before = self.writer@;
        let ghost m = method@;
        self.render_signature(method);
        self.render_method_body(method);
        self.writer.append("  }\n");
        assert(self.writer@ =~= before + (signature_text(m) + method_body_text(m) + "  }\n"@));
    }
}

} // verus!
