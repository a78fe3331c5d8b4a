use provenance::badges::{badge_error, badge_provenance, badge_tests, to_svg, ShieldsBadge, TestSummary};
use provenance::frontend::{render_artifact, render_artifacts_index, render_index, Artifact};
use provenance::markup::{render_json_pretty, render_markdown};
use provenance::proofdown::{find_attr, Attr};
use provenance::render::{artifact_page, html_escape, index_page, page_base, render_image, sanitize_file_name, site_css, ArtifactView};

#[test]
fn provenance_badge_conforms_to_schema() {
    let b = badge_provenance(true);
    assert_eq!(b.schemaVersion, 1);
    assert_eq!((b.label.as_str(), b.message.as_str(), b.color.as_str()), ("provenance", "verified", "brightgreen"));
    let b2 = badge_provenance(false);
    assert_eq!(b2.schemaVersion, 1);
    assert_eq!((b2.label.as_str(), b2.message.as_str(), b2.color.as_str()), ("provenance", "unverified", "red"));
}

#[test]
fn tests_badge_conforms_to_schema() {
    let s = TestSummary { total: 10, passed: 9, failed: 1 };
    let b = badge_tests(&s);
    assert_eq!(b.schemaVersion, 1);
    assert_eq!((b.label.as_str(), b.message.as_str(), b.color.as_str()), ("tests", "9/10 passed", "orange"));
    assert_eq!(badge_tests(&TestSummary { total: 3, passed: 3, failed: 0 }).color, "brightgreen");
    assert_eq!(badge_tests(&TestSummary { total: 9, passed: 6, failed: 3 }).color, "red");
}

#[test]
fn error_badge_is_red() {
    let b = badge_error("build", "failed");
    assert_eq!((b.label.as_str(), b.message.as_str(), b.color.as_str()), ("build", "failed", "red"));
    let c = ShieldsBadge::new("l", "m", "blue");
    assert_eq!(c.schemaVersion, 1);
}

#[test]
fn svg_widths_colour_and_escaping() {
    let b = ShieldsBadge::new("provenance", "a<b&c", "brightgreen");
    let svg = to_svg(&b, Some("flat"));
    assert!(svg.starts_with("<svg xmlns=\"http://www.w3.org/2000/svg\" width=\"110\" height=\"20\">"));
    assert!(svg.contains("<rect rx=\"3\" x=\"70\" width=\"40\" height=\"20\" fill=\"#4c1\"/>"));
    assert!(svg.contains("<text x=\"35\" y=\"14\">provenance</text>"));
    assert!(svg.contains("<text x=\"90\" y=\"14\">a&lt;b&amp;c</text>"));
    assert!(svg.ends_with("</g></svg>"));
    let custom = to_svg(&ShieldsBadge::new("x", "y", "#123456"), None);
    assert!(custom.contains("fill=\"#123456\""));
}

#[test]
fn escaping_and_images() {
    assert_eq!(html_escape("a<b>&\"c\""), "a&lt;b&gt;&amp;\"c\"");
    assert_eq!(html_escape(""), "");
    assert_eq!(
        render_image("/assets/x/p.png", "<plot>"),
        "<img src=\"/assets/x/p.png\" alt=\"&lt;plot&gt;\" style=\"max-width:100%;height:auto\" />"
    );
}

fn view<'a>(id: &'a str, verified: bool) -> ArtifactView<'a> {
    ArtifactView {
        id,
        title: "T<1>",
        render: "json",
        media_type: "application/json",
        path_rel: "ci/x.json",
        verified,
        download_href: "/assets/x/x.json".to_string(),
    }
}

#[test]
fn site_pages() {
    let page = page_base("<p>hi</p>".to_string());
    assert!(page.starts_with("<!doctype html>"));
    assert!(page.ends_with("<main id=\"main\" role=\"main\"><p>hi</p></main></div></body></html>"));
    let kpis = vec![("Coverage".to_string(), "80.0%".to_string()), ("Tests".to_string(), "1 & 2".to_string())];
    let idx = index_page("QA", "abc", kpis, vec![view("a", true), view("b", false)]);
    assert!(idx.contains("<header><h1>QA \u{2014} abc</h1></header><div class=\"cards\"><div class=\"card\"><h3>Coverage</h3><p><strong>80.0%</strong></p></div><div class=\"card\"><h3>Tests</h3><p><strong>1 &amp; 2</strong></p></div></div>"));
    assert!(idx.contains("<div class=\"card\"><h3>T&lt;1&gt;</h3><p class=\"muted\">a</p><p><span class=\"badge ok\">verified</span></p><p><a href=\"/a/a/\">View</a> \u{b7} <a href=\"/assets/x/x.json\">Download</a></p></div>"));
    assert!(idx.contains("<span class=\"badge err\">digest mismatch</span>"));
    let empty = index_page("QA", "abc", vec![], vec![]);
    assert!(empty.contains("</h1></header><h2>Artifacts</h2><div class=\"cards\"></div>"));
    let art = artifact_page(&view("a", false), "<b>body</b>");
    assert!(art.contains("<article><b>body</b></article><p><a href=\"/assets/x/x.json\">Download raw</a></p>"));
    assert!(site_css().starts_with("body{font-family:system-ui"));
}

fn fe<'a>(id: &'a str, verified: bool) -> Artifact<'a> {
    Artifact { id, title: "Tests", render: "summary:test", media_type: "application/json", verified, download_href: "/a.json" }
}

#[test]
fn frontend_fragments() {
    let idx = render_index("Q&A", "c1", &vec![], &[fe("t", true)]);
    assert_eq!(idx, "<header><h1>Q&amp;A \u{2014} c1</h1></header><h2>Artifacts</h2><div class=\"cards\"><div class=\"card\"><h3>Tests</h3><p class=\"muted\">t</p><p><span class=\"badge ok\">verified</span></p><p><a href=\"/a/t/\">View</a> \u{b7} <a href=\"/a.json\">Download</a></p></div></div>");
    let page = render_artifact(&fe("t", false), "B");
    assert!(page.contains("<dt>Status</dt><dd>digest mismatch</dd>"));
    assert!(page.contains("<article>B</article>"));
    let list = render_artifacts_index(&[fe("t", true), fe("u", false)]);
    assert!(list.contains("<tr><th scope=\"row\"><a href=\"/a/t/\">t</a></th><td>Tests</td><td>summary:test</td><td>application/json</td><td><span class=\"badge ok\">verified</span></td></tr><tr><th scope=\"row\"><a href=\"/a/u/\">u</a>"));
    assert!(list.ends_with("</tbody></table></section></div>"));
}

#[test]
fn markdown_renders_basic() {
    let md = "# Title\n\nHello <world> & friends.";
    let html = render_markdown(md);
    assert!(html.contains("<h1>Title</h1>"));
    assert!(html.contains("Hello "));
    assert!(html.contains("&amp; friends."));
    assert!(!html.contains("<world>"));
}

#[test]
fn markdown_is_sanitized_and_renders_basic() {
    let md = "<script>alert(1)</script>**bold**";
    let html = render_markdown(md);
    assert!(html.contains("bold"));
    assert!(!html.contains("<script>"));
}

#[test]
fn json_pretty_escapes_and_formats() {
    let bytes = b"{\"a\":\"<>&\"}";
    let html = render_json_pretty(bytes).unwrap();
    assert!(html.contains("&lt;&gt;&amp;"));
    assert!(html.starts_with("<pre>{"));
}

#[test]
fn json_pretty_escapes_and_wraps_in_pre() {
    let html = render_json_pretty(b"{\"a\":\"<b>\"}").unwrap();
    assert!(html.starts_with("<pre>"));
    assert!(html.contains("&lt;b&gt;"));
    assert!(render_json_pretty(b"{not json").is_err());
}

#[test]
fn first_matching_attribute_wins() {
    let attrs = vec![
        Attr { key: "id".to_string(), value: "one".to_string() },
        Attr { key: "cols".to_string(), value: "3".to_string() },
        Attr { key: "id".to_string(), value: "two".to_string() },
    ];
    assert_eq!(find_attr(&attrs, "id"), Some("one"));
    assert_eq!(find_attr(&attrs, "cols"), Some("3"));
    assert_eq!(find_attr(&attrs, "gap"), None);
}

#[test]
fn file_names_are_percent_encoded() {
    assert_eq!(sanitize_file_name("summary.json"), "summary%2Ejson");
    assert_eq!(sanitize_file_name("a b/\u{e9}"), "a%20b%2F%C3%A9");
    assert_eq!(sanitize_file_name("Ab09"), "Ab09");
}
