//! Bodies of artifact pages that come from outside formats: Markdown rendered
//! and sanitised, JSON pretty-printed and escaped.

use vstd::prelude::*;
use vstd::string::*;
use crate::text::{html_escaped, push_html_escaped};

verus! {

#[verifier::external_type_specification]
#[verifier::external_body]
pub struct ExJsonError(serde_json::Error);

/// The HTML that CommonMark, with tables and task lists, gives for `md`.
pub uninterp spec fn markdown_html(md: Seq<char>) -> Seq<char>;

/// `html` with every element, attribute and URL scheme outside the default
/// allow-list removed.
pub uninterp spec fn sanitized_html(html: Seq<char>) -> Seq<char>;

/// The pretty-printed text of the JSON document in `bytes`, if they hold one.
pub uninterp spec fn pretty_json(bytes: Seq<u8>) -> Option<Seq<char>>;

/// Relies on `pulldown_cmark::Parser::new_ext` with tables and task lists, and
/// `pulldown_cmark::html::push_html`.
#[verifier::external_body]
fn markdown_to_html(md: &str) -> (r: String)
    ensures
        r@ == markdown_html(md@),
{
    let mut options = pulldown_cmark::Options::empty();
    options.insert(pulldown_cmark::Options::ENABLE_TABLES);
    options.insert(pulldown_cmark::Options::ENABLE_TASKLISTS);
    let mut out = String::new();
    pulldown_cmark::html::push_html(&mut out, pulldown_cmark::Parser::new_ext(md, options));
    out
}

/// Relies on `ammonia::Builder::clean` with the default allow-lists.
#[verifier::external_body]
fn sanitize(html: &str) -> (r: String)
    ensures
        r@ == sanitized_html(html@),
{
    ammonia::Builder::default().clean(html).to_string()
}

/// Relies on `serde_json::from_slice` into a `serde_json::Value`, printed back
/// with `serde_json::to_string_pretty`.
#[verifier::external_body]
fn reformat_json(bytes: &[u8]) -> (r: Result<String, serde_json::Error>)
    ensures
        r is Ok <==> pretty_json(bytes@) is Some,
        r is Ok ==> r->Ok_0@ == pretty_json(bytes@)->0,
{
    let v: serde_json::Value = serde_json::from_slice(bytes)?;
    serde_json::to_string_pretty(&v)
}

/// Markdown rendered to HTML, then stripped of anything unsafe.
pub fn render_markdown(md: &str) -> (r: String)
    ensures
        r@ == sanitized_html(markdown_html(md@)),
{
    let html = markdown_to_html(md);
    sanitize(html.as_str())
}

/// JSON pretty-printed, escaped and put in a `<pre>` block; an error when the
/// bytes are not a JSON document.
pub fn render_json_pretty(bytes: &[u8]) -> (r: Result<String, serde_json::Error>)
    ensures
        match pretty_json(bytes@) {
            Some(t) => r is Ok && r->Ok_0@ == "<pre>"@ + html_escaped(t) + "</pre>"@,
            None => r is Err,
        },
{
    let text = reformat_json(bytes)?;
    let mut out = String::from_str("<pre>");
    push_html_escaped(&mut out, text.as_str());
    out.append("</pre>");
    Ok(out)
}

} // verus!
