use provenance::front_page::{render_front_page, ArtifactBodies, FrontPageError};
use provenance::proofdown::{parse, Attr, Block, Component, ParseError};
use provenance::render::ArtifactView;

fn attr(k: &str, v: &str) -> Attr {
    Attr { key: k.to_string(), value: v.to_string() }
}

#[test]
fn headings_paragraphs_and_components() {
    let src = "# {{ front_page.title }}\n\nIntro text here\n<grid cols=3 gap=\"16\">\n  <card title=\"Tests\">\n    <artifact.summary id=\"tests-summary\" />\n  </card>\n## Notes\n  plain words\n</grid>\n##### deep\n";
    let doc = parse(src).unwrap();
    assert_eq!(doc.blocks.len(), 4);
    assert_eq!(doc.blocks[0], Block::Heading { level: 1, text: "{{ front_page.title }}".to_string() });
    assert_eq!(doc.blocks[1], Block::Paragraph("Intro text here".to_string()));
    let card = Component {
        name: "card".to_string(),
        attrs: vec![attr("title", "Tests")],
        children: vec![Block::Component(Component {
            name: "artifact.summary".to_string(),
            attrs: vec![attr("id", "tests-summary")],
            children: vec![],
            self_closing: true,
        })],
        self_closing: false,
    };
    let grid_attrs = vec![attr("cols", "3"), attr("gap", "16")];
    match &doc.blocks[2] {
        Block::Component(g) => {
            assert_eq!(g.name, "grid");
            assert_eq!(g.attrs, grid_attrs);
            assert!(!g.self_closing);
            assert_eq!(g.children.len(), 3);
            assert_eq!(g.children[0], Block::Component(card));
            assert_eq!(g.children[1], Block::Heading { level: 2, text: "Notes".to_string() });
            assert_eq!(g.children[2], Block::Paragraph("plain words".to_string()));
        }
        other => panic!("expected a component, got {:?}", other),
    }
    assert_eq!(doc.blocks[3], Block::Heading { level: 4, text: "# deep".to_string() });
}

#[test]
fn bare_values_stop_at_space_and_drop_slashes() {
    let doc = parse("<img src=a.png alt=x/>").unwrap();
    match &doc.blocks[0] {
        Block::Component(c) => {
            assert!(c.self_closing);
            assert_eq!(c.name, "img");
            assert_eq!(c.attrs, vec![attr("src", "a.png"), attr("alt", "x")]);
        }
        other => panic!("expected a component, got {:?}", other),
    }
}

#[test]
fn empty_input_has_no_blocks() {
    assert_eq!(parse("").unwrap().blocks.len(), 0);
    assert_eq!(parse("\n\r\n   \n").unwrap().blocks.len(), 0);
}

#[test]
fn malformed_markup_is_rejected() {
    assert_eq!(parse("<grid").unwrap_err(), ParseError::UnterminatedTag);
    assert_eq!(parse("< />").unwrap_err(), ParseError::MissingName);
    assert_eq!(parse("<grid>\nno end").unwrap_err(), ParseError::UnterminatedComponent);
    assert_eq!(parse("<c a=\"x>").unwrap_err(), ParseError::UnterminatedQuote);
    assert_eq!(parse("<g>\n# last line").unwrap_err(), ParseError::UnterminatedComponent);
}

fn views() -> Vec<ArtifactView<'static>> {
    vec![ArtifactView {
        id: "tests-summary",
        title: "Tests & more",
        render: "summary:test",
        media_type: "application/json",
        path_rel: "ci/tests/summary.json",
        verified: true,
        download_href: "/assets/tests-summary/summary.json".to_string(),
    }]
}

fn bodies(too_large: bool) -> Vec<ArtifactBodies> {
    vec![ArtifactBodies {
        summary: Ok("<div class=\"cards\">S</div>".to_string()),
        table: Err("missing field `total`".to_string()),
        json: Ok("<pre>{}</pre>".to_string()),
        markdown: "<p>md</p>".to_string(),
        too_large,
    }]
}

fn render(src: &str, too_large: bool) -> Result<String, FrontPageError> {
    let doc = parse(src).unwrap();
    render_front_page(&doc, "abc123", "QA <Evidence>", &views(), &bodies(too_large))
}

#[test]
fn front_page_renders_layout_and_artifacts() {
    let src = "# {{ front_page.title }} at {{ commit }}\n<grid cols=2>\n<card title=\"Run {{ commit }}\">\n<artifact.summary id=\"tests-summary\" />\n</card>\n<artifact.link id=tests-summary />\n</grid>\nDone & dusted";
    let html = render(src, false).ok().unwrap();
    assert_eq!(
        html,
        "<h1>QA &lt;Evidence&gt; at abc123</h1><div class=\"cards\" style=\"grid-template-columns:repeat(2,minmax(280px,1fr))\"><div class=\"card\"><h3>Run abc123</h3><div class=\"cards\">S</div></div><a href=\"/a/tests-summary/\">Tests &amp; more</a></div><p>Done &amp; dusted</p>"
    );
}

#[test]
fn front_page_truncates_large_files() {
    let html = render("<artifact.json id=tests-summary />", true).ok().unwrap();
    assert_eq!(html, "<div class=\"card\"><strong>Truncated</strong>: file too large. <a href=\"/assets/tests-summary/summary.json\">Download</a></div>");
    assert_eq!(render("<artifact.json id=tests-summary />", false).ok().unwrap(), "<pre>{}</pre>");
    assert_eq!(render("<artifact.markdown id=tests-summary />", false).ok().unwrap(), "<p>md</p>");
    assert!(render("<artifact.image id=tests-summary />", false).ok().unwrap().starts_with("<img src=\"/assets/tests-summary/summary.json\" alt=\"Tests &amp; more\""));
}

#[test]
fn front_page_errors() {
    assert!(matches!(render("<artifact.summary />", false), Err(FrontPageError::MissingId)));
    assert!(matches!(render("<artifact.summary id=nope />", false), Err(FrontPageError::UnknownArtifact(id)) if id == "nope"));
    assert!(matches!(render("<carousel />", false), Err(FrontPageError::UnknownComponent(n)) if n == "carousel"));
    assert!(matches!(render("<artifact.chart id=tests-summary />", false), Err(FrontPageError::UnknownArtifactKind(k)) if k == "chart"));
    assert!(matches!(render("<artifact.table id=tests-summary />", false), Err(FrontPageError::Body(m)) if m == "missing field `total`"));
}
