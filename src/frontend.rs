//! Standalone page fragments of the front end: the index, an artifact's page
//! with navigation and metadata, and the searchable list of all artifacts.

use vstd::prelude::*;
use vstd::string::*;
use crate::render::{keys_sorted, kpi_cards, status_badge};
use crate::text::{html_escaped, push_html_escaped};

verus! {

/// What the front end shows of one artifact.
pub struct Artifact<'a> {
    pub id: &'a str,
    pub title: &'a str,
    pub render: &'a str,
    pub media_type: &'a str,
    pub verified: bool,
    pub download_href: &'a str,
}

fn push_badge(out: &mut String, verified: bool)
    ensures
        final(out)@ == old(out)@ + status_badge(verified),
{
    if verified {
        out.append("<span class=\"badge ok\">verified</span>");
    } else {
        out.append("<span class=\"badge err\">digest mismatch</span>");
    }
}

/// The card of one featured artifact.
pub open spec fn card(a: Artifact) -> Seq<char> {
    "<div class=\"card\"><h3>"@ + html_escaped(a.title@) + "</h3><p class=\"muted\">"@
        + html_escaped(a.id@) + "</p><p>"@ + status_badge(a.verified)
        + "</p><p><a href=\"/a/"@ + html_escaped(a.id@) + "/\">View</a> \u{b7} <a href=\""@
        + html_escaped(a.download_href@) + "\">Download</a></p></div>"@
}

/// The cards of featured artifacts, in order.
pub open spec fn cards(items: Seq<Artifact>) -> Seq<char>
    decreases items.len(),
{
    if items.len() == 0 {
        Seq::empty()
    } else {
        cards(items.drop_last()) + card(items.last())
    }
}

fn push_card(out: &mut String, a: &Artifact)
    ensures
        final(out)@ == old(out)@ + card(*a),
{
    let ghost start = out@;
    out.append("<div class=\"card\"><h3>");
    push_html_escaped(out, a.title);
    out.append("</h3><p class=\"muted\">");
    push_html_escaped(out, a.id);
    out.append("</p><p>");
    push_badge(out, a.verified);
    out.append("</p><p><a href=\"/a/");
    push_html_escaped(out, a.id);
    out.append("/\">View</a> \u{b7} <a href=\"");
    push_html_escaped(out, a.download_href);
    out.append("\">Download</a></p></div>");
    assert(out@ =~= start + card(*a));
}

/// The index: title and commit, a card per KPI, a card per featured artifact.
pub open spec fn index_html(title: Seq<char>, commit: Seq<char>, kpis: Seq<(String, String)>, featured: Seq<Artifact>) -> Seq<char> {
    "<header><h1>"@ + html_escaped(title) + " \u{2014} "@ + html_escaped(commit) + "</h1></header>"@
        + (if kpis.len() == 0 {
        Seq::empty()
    } else {
        "<div class=\"cards\">"@ + kpi_cards(kpis) + "</div>"@
    }) + "<h2>Artifacts</h2><div class=\"cards\">"@ + cards(featured) + "</div>"@
}

/// The index fragment: title and commit, a card per KPI (name and value, keys
/// in ascending order), a card per featured artifact.
pub fn render_index(title: &str, commit: &str, kpis: &Vec<(String, String)>, featured: &[Artifact]) -> (r: String)
    requires
        keys_sorted(kpis@),
    ensures
        r@ == index_html(title@, commit@, kpis@, featured@),
{
    let mut out = String::from_str("<header><h1>");
    push_html_escaped(&mut out, title);
    out.append(" \u{2014} ");
    push_html_escaped(&mut out, commit);
    out.append("</h1></header>");
    if kpis.len() > 0 {
        out.append("<div class=\"cards\">");
        let ghost start = out@;
        let mut i: usize = 0;
        while i < kpis.len()
            invariant
                i <= kpis.len(),
                out@ == start + kpi_cards(kpis@.take(i as int)),
            decreases kpis.len() - i,
        {
            out.append("<div class=\"card\"><h3>");
            push_html_escaped(&mut out, kpis[i].0.as_str());
            out.append("</h3><p><strong>");
            push_html_escaped(&mut out, kpis[i].1.as_str());
            out.append("</strong></p></div>");
            assert(kpis@.take(i + 1).drop_last() =~= kpis@.take(i as int));
            i = i + 1;
        }
        assert(kpis@.take(i as int) =~= kpis@);
        out.append("</div>");
    }
    out.append("<h2>Artifacts</h2><div class=\"cards\">");
    let ghost start = out@;
    let mut i: usize = 0;
    while i < featured.len()
        invariant
            i <= featured.len(),
            out@ == start + cards(featured@.take(i as int)),
        decreases featured.len() - i,
    {
        push_card(&mut out, &featured[i]);
        assert(featured@.take(i + 1).drop_last() =~= featured@.take(i as int));
        i = i + 1;
    }
    assert(featured@.take(i as int) =~= featured@);
    out.append("</div>");
    assert(out@ =~= index_html(title@, commit@, kpis@, featured@));
    out
}

/// An artifact's page: breadcrumb, status, body, download link, metadata.
pub open spec fn artifact_html(a: Artifact, body_html: Seq<char>) -> Seq<char> {
    "<header class=\"page\"><nav aria-label=\"Breadcrumb\"><a href=\"/index.html\">Home</a> / <a href=\"/artifacts/\">Artifacts</a> / <span>"@
        + html_escaped(a.title@) + "</span></nav><h1>"@ + html_escaped(a.title@)
        + "</h1><p class=\"muted\">"@ + html_escaped(a.id@)
        + "</p></header><div class=\"content-grid\"><aside class=\"left-nav\" aria-label=\"Page navigation\"><nav><ul><li><a href=\"/artifacts/\">\u{2190} All artifacts</a></li></ul></nav></aside><section><p>"@
        + status_badge(a.verified) + "</p><article>"@ + body_html + "</article><p><a href=\""@
        + html_escaped(a.download_href@)
        + "\">Download raw</a></p></section><aside class=\"right-meta\" aria-label=\"Metadata\"><div class=\"card\"><h3>Metadata</h3><dl class=\"meta\"><dt>ID</dt><dd>"@
        + html_escaped(a.id@) + "</dd><dt>Title</dt><dd>"@ + html_escaped(a.title@)
        + "</dd><dt>Media</dt><dd>"@ + html_escaped(a.media_type@) + "</dd><dt>Status</dt><dd>"@
        + (if a.verified { "verified"@ } else { "digest mismatch"@ })
        + "</dd><dt>Download</dt><dd><a href=\""@ + html_escaped(a.download_href@)
        + "\">file</a></dd></dl></div></aside></div>"@
}

/// An artifact's page fragment around its rendered body.
pub fn render_artifact(a: &Artifact, body_html: &str) -> (r: String)
    ensures
        r@ == artifact_html(*a, body_html@),
{
    let mut out = String::from_str("<header class=\"page\"><nav aria-label=\"Breadcrumb\"><a href=\"/index.html\">Home</a> / <a href=\"/artifacts/\">Artifacts</a> / <span>");
    push_html_escaped(&mut out, a.title);
    out.append("</span></nav><h1>");
    push_html_escaped(&mut out, a.title);
    out.append("</h1><p class=\"muted\">");
    push_html_escaped(&mut out, a.id);
    out.append("</p></header><div class=\"content-grid\"><aside class=\"left-nav\" aria-label=\"Page navigation\"><nav><ul><li><a href=\"/artifacts/\">\u{2190} All artifacts</a></li></ul></nav></aside><section><p>");
    push_badge(&mut out, a.verified);
    out.append("</p><article>");
    out.append(body_html);
    out.append("</article><p><a href=\"");
    push_html_escaped(&mut out, a.download_href);
    out.append("\">Download raw</a></p></section><aside class=\"right-meta\" aria-label=\"Metadata\"><div class=\"card\"><h3>Metadata</h3><dl class=\"meta\"><dt>ID</dt><dd>");
    push_html_escaped(&mut out, a.id);
    out.append("</dd><dt>Title</dt><dd>");
    push_html_escaped(&mut out, a.title);
    out.append("</dd><dt>Media</dt><dd>");
    push_html_escaped(&mut out, a.media_type);
    out.append("</dd><dt>Status</dt><dd>");
    if a.verified {
        out.append("verified");
    } else {
        out.append("digest mismatch");
    }
    out.append("</dd><dt>Download</dt><dd><a href=\"");
    push_html_escaped(&mut out, a.download_href);
    out.append("\">file</a></dd></dl></div></aside></div>");
    assert(out@ =~= artifact_html(*a, body_html@));
    out
}

/// The table row of one artifact.
pub open spec fn row(a: Artifact) -> Seq<char> {
    "<tr><th scope=\"row\"><a href=\"/a/"@ + html_escaped(a.id@) + "/\">"@ + html_escaped(a.id@)
        + "</a></th><td>"@ + html_escaped(a.title@) + "</td><td>"@ + html_escaped(a.render@)
        + "</td><td>"@ + html_escaped(a.media_type@) + "</td><td>"@ + status_badge(a.verified)
        + "</td></tr>"@
}

/// The table rows of artifacts, in order.
pub open spec fn rows(items: Seq<Artifact>) -> Seq<char>
    decreases items.len(),
{
    if items.len() == 0 {
        Seq::empty()
    } else {
        rows(items.drop_last()) + row(items.last())
    }
}

fn push_row(out: &mut String, a: &Artifact)
    ensures
        final(out)@ == old(out)@ + row(*a),
{
    let ghost start = out@;
    out.append("<tr><th scope=\"row\"><a href=\"/a/");
    push_html_escaped(out, a.id);
    out.append("/\">");
    push_html_escaped(out, a.id);
    out.append("</a></th><td>");
    push_html_escaped(out, a.title);
    out.append("</td><td>");
    push_html_escaped(out, a.render);
    out.append("</td><td>");
    push_html_escaped(out, a.media_type);
    out.append("</td><td>");
    push_badge(out, a.verified);
    out.append("</td></tr>");
    assert(out@ =~= start + row(*a));
}

/// The list of all artifacts: a filter form and a table row per artifact.
pub open spec fn artifacts_index_html(items: Seq<Artifact>) -> Seq<char> {
    "<header class=\"page\"><h1>All Artifacts</h1></header><div class=\"content-grid\"><aside class=\"left-nav\" aria-label=\"Filters\"><a id=\"search\"></a><form class=\"filters\" method=\"get\" action=\"/artifacts/index.html\"><div class=\"row\"><label for=\"q\">Search</label><input id=\"q\" name=\"q\" type=\"search\" placeholder=\"id, title, kind\" autofocus></div><div class=\"row\"><label for=\"kind\">Kind</label><select id=\"kind\" name=\"kind\"><option value=\"\">Any</option><option>summary:test</option><option>table:coverage</option><option>markdown</option><option>json</option><option>image</option></select></div><div class=\"row\"><label for=\"verified\">Verified</label><select id=\"verified\" name=\"verified\"><option value=\"\">Any</option><option value=\"true\">Verified</option><option value=\"false\">Error</option></select></div><div class=\"row\"><label for=\"media\">Media</label><select id=\"media\" name=\"media\"><option value=\"\">Any</option><option>application/json</option><option>text/markdown</option><option>image/*</option><option>text/*</option></select></div><div class=\"row\"><label for=\"sort\">Sort by</label><select id=\"sort\" name=\"sort\"><option value=\"id\">ID</option><option value=\"title\">Title</option><option value=\"render\">Kind</option></select></div><div class=\"row\"><span></span><button type=\"submit\">Apply</button></div></form></aside><section><table class=\"table\"><thead><tr><th scope=\"col\">ID</th><th scope=\"col\">Title</th><th scope=\"col\">Render</th><th scope=\"col\">Media</th><th scope=\"col\">Verified</th></tr></thead><tbody>"@
        + rows(items) + "</tbody></table></section></div>"@
}

/// The fragment listing all artifacts.
pub fn render_artifacts_index(items: &[Artifact]) -> (r: String)
    ensures
        r@ == artifacts_index_html(items@),
{
    let mut out = String::from_str("<header class=\"page\"><h1>All Artifacts</h1></header><div class=\"content-grid\"><aside class=\"left-nav\" aria-label=\"Filters\"><a id=\"search\"></a><form class=\"filters\" method=\"get\" action=\"/artifacts/index.html\"><div class=\"row\"><label for=\"q\">Search</label><input id=\"q\" name=\"q\" type=\"search\" placeholder=\"id, title, kind\" autofocus></div><div class=\"row\"><label for=\"kind\">Kind</label><select id=\"kind\" name=\"kind\"><option value=\"\">Any</option><option>summary:test</option><option>table:coverage</option><option>markdown</option><option>json</option><option>image</option></select></div><div class=\"row\"><label for=\"verified\">Verified</label><select id=\"verified\" name=\"verified\"><option value=\"\">Any</option><option value=\"true\">Verified</option><option value=\"false\">Error</option></select></div><div class=\"row\"><label for=\"media\">Media</label><select id=\"media\" name=\"media\"><option value=\"\">Any</option><option>application/json</option><option>text/markdown</option><option>image/*</option><option>text/*</option></select></div><div class=\"row\"><label for=\"sort\">Sort by</label><select id=\"sort\" name=\"sort\"><option value=\"id\">ID</option><option value=\"title\">Title</option><option value=\"render\">Kind</option></select></div><div class=\"row\"><span></span><button type=\"submit\">Apply</button></div></form></aside><section><table class=\"table\"><thead><tr><th scope=\"col\">ID</th><th scope=\"col\">Title</th><th scope=\"col\">Render</th><th scope=\"col\">Media</th><th scope=\"col\">Verified</th></tr></thead><tbody>");
    let ghost start = out@;
    let mut i: usize = 0;
    while i < items.len()
        invariant
            i <= items.len(),
            out@ == start + rows(items@.take(i as int)),
        decreases items.len() - i,
    {
        push_row(&mut out, &items[i]);
        assert(items@.take(i + 1).drop_last() =~= items@.take(i as int));
        i = i + 1;
    }
    assert(items@.take(i as int) =~= items@);
    out.append("</tbody></table></section></div>");
    out
}

} // verus!
