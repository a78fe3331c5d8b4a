//! The pages of the generated site: the common frame, the index with its KPI
//! cards and featured artifacts, and one page per artifact.

use vstd::prelude::*;
use vstd::string::*;
use crate::json::key_lt;
use crate::text::{html_escaped, push_html_escaped};

verus! {

/// What a page shows of one artifact.
pub struct ArtifactView<'a> {
    pub id: &'a str,
    pub title: &'a str,
    pub render: &'a str,
    pub media_type: &'a str,
    pub path_rel: &'a str,
    pub verified: bool,
    pub download_href: String,
}

/// The site's style sheet.
pub const SITE_CSS: &'static str = r#"body{font-family:system-ui,-apple-system,Segoe UI,Roboto,Ubuntu,Cantarell,Noto Sans,sans-serif;margin:0;padding:0;color:#111;background:#fafafa}
    a{color:inherit;text-decoration:underline}
    .container{max-width:1040px;margin:0 auto;padding:24px}
    .topbar{padding:8px 0 16px 0;border-bottom:1px solid #eee;margin-bottom:16px}
    .global-nav{display:flex;gap:16px;flex-wrap:wrap}
    .cards{display:grid;grid-template-columns:repeat(auto-fit,minmax(280px,1fr));gap:16px}
    .card{border:1px solid #eee;border-radius:8px;padding:16px;background:#fff}
    header.page{padding:16px 0;border-bottom:1px solid #eee;margin-bottom:24px}
    table{width:100%;border-collapse:collapse}
    thead th{scope:col}
    th,td{padding:8px;border-bottom:1px solid #eee;text-align:left}
    .badge{display:inline-block;padding:2px 8px;border-radius:6px;font-size:12px;color:#fff}
    .ok{background:#28a745}
    .warn{background:#ff9800}
    .err{background:#d32f2f}
    code, pre{background:#f7f7f7;border-radius:6px;padding:2px 6px}
    pre{padding:12px;overflow-x:auto}
    .muted{color:#777;font-size:14px}
    .skip-link{position:absolute;left:-10000px;top:auto;width:1px;height:1px;overflow:hidden}
    .skip-link:focus{position:static;width:auto;height:auto}
    /* Content layout with optional left/right sidebars */
    .content-grid{display:grid;gap:16px;grid-template-columns:220px 1fr 260px;align-items:start}
    .left-nav{position:sticky;top:12px}
    .right-meta{position:sticky;top:12px}
    @media (max-width: 1024px){.content-grid{grid-template-columns:1fr}.left-nav,.right-meta{position:relative;top:auto}}
    /* Filters/search form */
    form.filters{display:grid;gap:12px;margin:16px 0}
    form.filters .row{display:grid;grid-template-columns:160px 1fr;gap:8px;align-items:center}
    input[type=search],select{padding:8px;border:1px solid #ddd;border-radius:6px;background:#fff}
    button{padding:8px 12px;border:1px solid #ddd;border-radius:6px;background:#f7f7f7;cursor:pointer}
    button:hover{background:#eee}
    dl.meta{display:grid;grid-template-columns:120px 1fr;gap:8px}
    dl.meta dt{color:#555}
    dl.meta dd{margin:0}
    "#;

/// Text with `&`, `<` and `>` escaped.
pub fn html_escape(s: &str) -> (r: String)
    ensures
        r@ == html_escaped(s@),
{
    let mut out = String::new();
    push_html_escaped(&mut out, s);
    out
}

/// An image element; the source is written as given, the text escaped.
pub open spec fn image_html(src_href: Seq<char>, alt: Seq<char>) -> Seq<char> {
    "<img src=\""@ + src_href + "\" alt=\""@ + html_escaped(alt) + "\" style=\"max-width:100%;height:auto\" />"@
}

/// An image that fills at most the width of its column.
pub fn render_image(src_href: &str, alt: &str) -> (r: String)
    ensures
        r@ == image_html(src_href@, alt@),
{
    let mut out = String::from_str("<img src=\"");
    out.append(src_href);
    out.append("\" alt=\"");
    push_html_escaped(&mut out, alt);
    out.append("\" style=\"max-width:100%;height:auto\" />");
    out
}

/// The frame around every page's content.
pub open spec fn page_frame(inner: Seq<char>) -> Seq<char> {
    "<!doctype html><html lang=\"en\"><head><meta name=\"viewport\" content=\"width=device-width, initial-scale=1.0\"><link rel=\"stylesheet\" href=\"/assets/site.css\"></head><body><a href=\"#main\" class=\"skip-link\">Skip to content</a><div class=\"container\"><header class=\"topbar\" role=\"banner\"><nav aria-label=\"Global\" class=\"global-nav\"><a href=\"/index.html\">Home</a><a href=\"/artifacts/\">Artifacts</a><a href=\"/badge/\">Badges</a><a href=\"/artifacts/#search\">Search</a></nav></header><main id=\"main\" role=\"main\">"@
        + inner + "</main></div></body></html>"@
}

/// Puts page content into the site's frame.
pub fn page_base(inner_html: String) -> (r: String)
    ensures
        r@ == page_frame(inner_html@),
{
    let mut out = String::from_str("<!doctype html><html lang=\"en\"><head><meta name=\"viewport\" content=\"width=device-width, initial-scale=1.0\"><link rel=\"stylesheet\" href=\"/assets/site.css\"></head><body><a href=\"#main\" class=\"skip-link\">Skip to content</a><div class=\"container\"><header class=\"topbar\" role=\"banner\"><nav aria-label=\"Global\" class=\"global-nav\"><a href=\"/index.html\">Home</a><a href=\"/artifacts/\">Artifacts</a><a href=\"/badge/\">Badges</a><a href=\"/artifacts/#search\">Search</a></nav></header><main id=\"main\" role=\"main\">");
    out.append(inner_html.as_str());
    out.append("</main></div></body></html>");
    out
}

/// The status mark of an artifact.
pub open spec fn status_badge(verified: bool) -> Seq<char> {
    if verified {
        "<span class=\"badge ok\">verified</span>"@
    } else {
        "<span class=\"badge err\">digest mismatch</span>"@
    }
}

fn push_status_badge(out: &mut String, verified: bool)
    ensures
        final(out)@ == old(out)@ + status_badge(verified),
{
    if verified {
        out.append("<span class=\"badge ok\">verified</span>");
    } else {
        out.append("<span class=\"badge err\">digest mismatch</span>");
    }
}

/// Keys strictly ascending (hence distinct), as a sorted map hands them out.
pub open spec fn keys_sorted(kpis: Seq<(String, String)>) -> bool {
    forall|i: int, j: int| 0 <= i < j < kpis.len() ==> key_lt(#[trigger] kpis[i].0@, #[trigger] kpis[j].0@)
}

/// The card of one KPI.
pub open spec fn kpi_card(k: Seq<char>, v: Seq<char>) -> Seq<char> {
    "<div class=\"card\"><h3>"@ + html_escaped(k) + "</h3><p><strong>"@ + html_escaped(v)
        + "</strong></p></div>"@
}

/// The cards of KPIs, in order.
pub open spec fn kpi_cards(kpis: Seq<(String, String)>) -> Seq<char>
    decreases kpis.len(),
{
    if kpis.len() == 0 {
        Seq::empty()
    } else {
        kpi_cards(kpis.drop_last()) + kpi_card(kpis.last().0@, kpis.last().1@)
    }
}

/// The card of one featured artifact.
pub open spec fn featured_card(a: ArtifactView) -> Seq<char> {
    "<div class=\"card\"><h3>"@ + html_escaped(a.title@) + "</h3><p class=\"muted\">"@
        + html_escaped(a.id@) + "</p><p>"@ + status_badge(a.verified)
        + "</p><p><a href=\"/a/"@ + html_escaped(a.id@) + "/\">View</a> \u{b7} <a href=\""@
        + html_escaped(a.download_href@) + "\">Download</a></p></div>"@
}

/// The cards of featured artifacts, in order.
pub open spec fn featured_cards(items: Seq<ArtifactView>) -> Seq<char>
    decreases items.len(),
{
    if items.len() == 0 {
        Seq::empty()
    } else {
        featured_cards(items.drop_last()) + featured_card(items.last())
    }
}

fn push_featured_card(out: &mut String, a: &ArtifactView)
    ensures
        final(out)@ == old(out)@ + featured_card(*a),
{
    let ghost start = out@;
    out.append("<div class=\"card\"><h3>");
    push_html_escaped(out, a.title);
    out.append("</h3><p class=\"muted\">");
    push_html_escaped(out, a.id);
    out.append("</p><p>");
    push_status_badge(out, a.verified);
    out.append("</p><p><a href=\"/a/");
    push_html_escaped(out, a.id);
    out.append("/\">View</a> \u{b7} <a href=\"");
    push_html_escaped(out, a.download_href.as_str());
    out.append("\">Download</a></p></div>");
    assert(out@ =~= start + featured_card(*a));
}

/// The content of the index page.
pub open spec fn index_content(title: Seq<char>, commit: Seq<char>, kpis: Seq<(String, String)>, featured: Seq<ArtifactView>) -> Seq<char> {
    "<header><h1>"@ + html_escaped(title) + " \u{2014} "@ + html_escaped(commit) + "</h1></header>"@
        + (if kpis.len() == 0 {
        Seq::empty()
    } else {
        "<div class=\"cards\">"@ + kpi_cards(kpis) + "</div>"@
    }) + "<h2>Artifacts</h2><div class=\"cards\">"@ + featured_cards(featured) + "</div>"@
}

/// The index page: title and commit, a card per KPI (name and value, keys in
/// ascending order), a card per featured artifact.
pub fn index_page(title: &str, commit: &str, kpis: Vec<(String, String)>, featured: Vec<ArtifactView>) -> (r: String)
    requires
        keys_sorted(kpis@),
    ensures
        r@ == page_frame(index_content(title@, commit@, kpis@, featured@)),
{
    let mut inner = String::from_str("<header><h1>");
    push_html_escaped(&mut inner, title);
    inner.append(" \u{2014} ");
    push_html_escaped(&mut inner, commit);
    inner.append("</h1></header>");
    if kpis.len() > 0 {
        inner.append("<div class=\"cards\">");
        let ghost start = inner@;
        let mut i: usize = 0;
        while i < kpis.len()
            invariant
                i <= kpis.len(),
                inner@ == start + kpi_cards(kpis@.take(i as int)),
            decreases kpis.len() - i,
        {
            inner.append("<div class=\"card\"><h3>");
            push_html_escaped(&mut inner, kpis[i].0.as_str());
            inner.append("</h3><p><strong>");
            push_html_escaped(&mut inner, kpis[i].1.as_str());
            inner.append("</strong></p></div>");
            assert(kpis@.take(i + 1).drop_last() =~= kpis@.take(i as int));
            i = i + 1;
        }
        assert(kpis@.take(i as int) =~= kpis@);
        inner.append("</div>");
    }
    inner.append("<h2>Artifacts</h2><div class=\"cards\">");
    let ghost start = inner@;
    let mut i: usize = 0;
    while i < featured.len()
        invariant
            i <= featured.len(),
            inner@ == start + featured_cards(featured@.take(i as int)),
        decreases featured.len() - i,
    {
        push_featured_card(&mut inner, &featured[i]);
        assert(featured@.take(i + 1).drop_last() =~= featured@.take(i as int));
        i = i + 1;
    }
    assert(featured@.take(i as int) =~= featured@);
    inner.append("</div>");
    assert(inner@ =~= index_content(title@, commit@, kpis@, featured@));
    page_base(inner)
}

/// The content of an artifact's page.
pub open spec fn artifact_content(a: ArtifactView, body_html: Seq<char>) -> Seq<char> {
    "<header><nav aria-label=\"Breadcrumb\"><a href=\"/index.html\">Home</a> / <span>"@
        + html_escaped(a.title@) + "</span></nav><h1>"@ + html_escaped(a.title@)
        + "</h1><p class=\"muted\">"@ + html_escaped(a.id@) + "</p></header><p>"@
        + status_badge(a.verified) + "</p><article>"@ + body_html
        + "</article><p><a href=\""@ + html_escaped(a.download_href@) + "\">Download raw</a></p>"@
}

/// An artifact's page: its title, status, rendered body and download link.
pub fn artifact_page(a: &ArtifactView, body_html: &str) -> (r: String)
    ensures
        r@ == page_frame(artifact_content(*a, body_html@)),
{
    let mut inner = String::from_str("<header><nav aria-label=\"Breadcrumb\"><a href=\"/index.html\">Home</a> / <span>");
    push_html_escaped(&mut inner, a.title);
    inner.append("</span></nav><h1>");
    push_html_escaped(&mut inner, a.title);
    inner.append("</h1><p class=\"muted\">");
    push_html_escaped(&mut inner, a.id);
    inner.append("</p></header><p>");
    push_status_badge(&mut inner, a.verified);
    inner.append("</p><article>");
    inner.append(body_html);
    inner.append("</article><p><a href=\"");
    push_html_escaped(&mut inner, a.download_href.as_str());
    inner.append("\">Download raw</a></p>");
    assert(inner@ =~= artifact_content(*a, body_html@));
    page_base(inner)
}

/// The site's style sheet.
pub fn site_css() -> (r: &'static str)
    ensures
        r@ == SITE_CSS@,
{
    SITE_CSS
}

/// An ASCII letter or digit.
pub open spec fn is_alnum_byte(b: u8) -> bool {
    (48 <= b <= 57) || (65 <= b <= 90) || (97 <= b <= 122)
}

/// The ASCII code of upper-case hexadecimal digit `d`.
pub open spec fn upper_hex_byte(d: u8) -> u8 {
    if d < 10 {
        (48 + d) as u8
    } else {
        (55 + d) as u8
    }
}

/// `bs` with every byte that is not an ASCII letter or digit written as `%XX`.
pub open spec fn percent_encoded(bs: Seq<u8>) -> Seq<u8>
    decreases bs.len(),
{
    if bs.len() == 0 {
        Seq::empty()
    } else {
        let b = bs.last();
        percent_encoded(bs.drop_last()) + if is_alnum_byte(b) {
            seq![b]
        } else {
            seq![37u8, upper_hex_byte(b / 16), upper_hex_byte(b % 16)]
        }
    }
}

/// Relies on `percent_encoding::utf8_percent_encode` with `NON_ALPHANUMERIC`,
/// which encodes every byte but ASCII letters and digits, in upper-case hex.
#[verifier::external_body]
fn percent_encode_name(name: &str) -> (r: String)
    ensures
        vstd::utf8::encode_utf8(r@) == percent_encoded(vstd::utf8::encode_utf8(name@)),
{
    percent_encoding::utf8_percent_encode(name, percent_encoding::NON_ALPHANUMERIC).to_string()
}

/// A file name safe to publish: every byte of its UTF-8 form that is not an
/// ASCII letter or digit is percent-encoded.
pub fn sanitize_file_name(name: &str) -> (r: String)
    ensures
        vstd::utf8::encode_utf8(r@) == percent_encoded(vstd::utf8::encode_utf8(name@)),
{
    percent_encode_name(name)
}

} // verus!
