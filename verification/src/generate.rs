//! The whole transformation: from a document to the emitted texts.

use crate::document::{Document, DocumentView};
use crate::error::{result_view, Error};
use crate::extract::{extracted, find_namespace, Extract, ExtractView, NamespaceView};
use crate::render::{render, rendered, Rendered, RenderedView};
use vstd::prelude::*;

verus! {

/// The namespace that is never emitted, whatever the document holds.
pub const EXCLUDED_NAMESPACE: &'static str = "eventSub";

/// The namespaces without the one of the given name.
pub open spec fn without(namespaces: Seq<(Seq<char>, NamespaceView)>, name: Seq<char>) -> Seq<
    (Seq<char>, NamespaceView),
> {
    match find_namespace(namespaces, name, 0) {
        Some(i) => namespaces.remove(i),
        None => namespaces,
    }
}

/// What a document generates: its model without the excluded namespace,
/// rendered under its schemas. An error of extraction comes before any
/// error of rendering.
pub open spec fn generated(doc: DocumentView) -> Result<RenderedView, Error> {
    match extracted(doc) {
        Err(e) => Err(e),
        Ok(model) => rendered(
            doc.schemas,
            ExtractView { namespaces: without(model.namespaces, EXCLUDED_NAMESPACE@) },
        ),
    }
}

/// Generates the units and the index of a document.
pub fn generate(api: &Document) -> (r: Result<Rendered, Error>)
    ensures
        result_view(r) == generated(api@),
{
    let mut model = match Extract::new(api) {
        Err(e) => {
            return Err(e);
        },
        Ok(model) => model,
    };
    let _ = model.remove(EXCLUDED_NAMESPACE);
    render(&model, api)
}

/// Generation is a function of what the document holds: two documents
/// with the same content generate the same texts, or fail alike.
pub proof fn lemma_generation_is_deterministic(a: Document, b: Document)
    requires
        a@ == b@,
    ensures
        generated(a@) == generated(b@),
{
}

} // verus!
