//! The front page: parsed markup rendered to HTML, with `grid` and `card`
//! layout components and `artifact.*` components that embed an artifact.

use vstd::prelude::*;
use vstd::string::*;
use crate::json::{decimal, write_decimal};
use crate::proofdown::{
    attr_lookup, attrs_view, block_view, blocks_view, component_view, find_attr,
    lemma_blocks_view_index, Attr, Block, BlockModel, Component, ComponentModel, Document,
};
use crate::render::{image_html, render_image, ArtifactView};
use crate::text::{chars_of, html_escaped, push_html_escaped, replace_all, replaced, same_text, string_of};

verus! {

/// What an artifact can show on the front page, prepared from its file.
pub struct ArtifactBodies {
    /// Test-summary cards, or why the file is not a test summary.
    pub summary: Result<String, String>,
    /// Coverage table, or why the file is not a coverage report.
    pub table: Result<String, String>,
    /// Pretty-printed JSON, or why the file is not JSON.
    pub json: Result<String, String>,
    /// Rendered Markdown.
    pub markdown: String,
    /// The file is over the inline size limit.
    pub too_large: bool,
}

/// Why the front page could not be rendered.
pub enum FrontPageError {
    /// An `artifact.*` component without an `id` attribute.
    MissingId,
    /// No artifact has this id.
    UnknownArtifact(String),
    /// A component name that is not `grid`, `card` or `artifact.*`.
    UnknownComponent(String),
    /// An `artifact.*` component of an unknown kind.
    UnknownArtifactKind(String),
    /// The artifact's body could not be prepared, for this reason.
    Body(String),
}

/// The model of a [`FrontPageError`].
pub enum FrontPageErrorModel {
    MissingId,
    UnknownArtifact(Seq<char>),
    UnknownComponent(Seq<char>),
    UnknownArtifactKind(Seq<char>),
    Body(Seq<char>),
}

impl View for FrontPageError {
    type V = FrontPageErrorModel;

    open spec fn view(&self) -> FrontPageErrorModel {
        match self {
            FrontPageError::MissingId => FrontPageErrorModel::MissingId,
            FrontPageError::UnknownArtifact(s) => FrontPageErrorModel::UnknownArtifact(s@),
            FrontPageError::UnknownComponent(s) => FrontPageErrorModel::UnknownComponent(s@),
            FrontPageError::UnknownArtifactKind(s) => FrontPageErrorModel::UnknownArtifactKind(s@),
            FrontPageError::Body(s) => FrontPageErrorModel::Body(s@),
        }
    }
}

/// Text with the commit and the front-page title filled in.
pub open spec fn interpolated(t: Seq<char>, commit: Seq<char>, title: Seq<char>) -> Seq<char> {
    replaced(replaced(t, "{{ commit }}"@, commit), "{{ front_page.title }}"@, title)
}

/// What stands in place of a file too large to show inline.
pub open spec fn truncated_notice(href: Seq<char>) -> Seq<char> {
    "<div class=\"card\"><strong>Truncated</strong>: file too large. <a href=\""@ + href
        + "\">Download</a></div>"@
}

/// The index of the first view with id `id` from `from` on, or the number of views.
pub open spec fn view_of(views: Seq<ArtifactView>, id: Seq<char>, from: int) -> int
    decreases views.len() - from,
{
    if from < 0 || from >= views.len() {
        views.len() as int
    } else if views[from].id@ == id {
        from
    } else {
        view_of(views, id, from + 1)
    }
}

/// A prepared body, or its failure as an error.
pub open spec fn body_text(r: Result<String, String>) -> Result<Seq<char>, FrontPageErrorModel> {
    match r {
        Ok(t) => Ok(t@),
        Err(m) => Err(FrontPageErrorModel::Body(m@)),
    }
}

/// An `artifact.<kind>` component with attributes `attrs`.
pub open spec fn artifact_html(
    kind: Seq<char>,
    attrs: Seq<(Seq<char>, Seq<char>)>,
    views: Seq<ArtifactView>,
    bodies: Seq<ArtifactBodies>,
) -> Result<Seq<char>, FrontPageErrorModel> {
    match attr_lookup(attrs, "id"@) {
        None => Err(FrontPageErrorModel::MissingId),
        Some(id) => {
            let k = view_of(views, id, 0);
            if k >= views.len() {
                Err(FrontPageErrorModel::UnknownArtifact(id))
            } else {
                let v = views[k];
                let b = bodies[k];
                if kind == "summary"@ {
                    body_text(b.summary)
                } else if kind == "table"@ {
                    body_text(b.table)
                } else if kind == "json"@ {
                    if b.too_large {
                        Ok(truncated_notice(v.download_href@))
                    } else {
                        body_text(b.json)
                    }
                } else if kind == "markdown"@ {
                    if b.too_large {
                        Ok(truncated_notice(v.download_href@))
                    } else {
                        Ok(b.markdown@)
                    }
                } else if kind == "image"@ {
                    Ok(image_html(v.download_href@, v.title@))
                } else if kind == "link"@ {
                    Ok("<a href=\"/a/"@ + html_escaped(v.id@) + "/\">"@ + html_escaped(v.title@) + "</a>"@)
                } else {
                    Err(FrontPageErrorModel::UnknownArtifactKind(kind))
                }
            }
        },
    }
}

/// The HTML of a sequence of blocks, or the first error among them.
pub open spec fn blocks_html(
    bs: Seq<BlockModel>,
    commit: Seq<char>,
    title: Seq<char>,
    views: Seq<ArtifactView>,
    bodies: Seq<ArtifactBodies>,
) -> Result<Seq<char>, FrontPageErrorModel>
    decreases bs,
{
    if bs.len() == 0 {
        Ok(Seq::empty())
    } else {
        match blocks_html(bs.drop_last(), commit, title, views, bodies) {
            Err(e) => Err(e),
            Ok(pre) => match block_html(bs.last(), commit, title, views, bodies) {
                Err(e) => Err(e),
                Ok(t) => Ok(pre + t),
            },
        }
    }
}

/// The HTML of one block.
pub open spec fn block_html(
    b: BlockModel,
    commit: Seq<char>,
    title: Seq<char>,
    views: Seq<ArtifactView>,
    bodies: Seq<ArtifactBodies>,
) -> Result<Seq<char>, FrontPageErrorModel>
    decreases b,
{
    match b {
        BlockModel::Heading { level, text } => Ok(
            "<h"@ + decimal(level as nat) + ">"@ + html_escaped(interpolated(text, commit, title))
                + "</h"@ + decimal(level as nat) + ">"@,
        ),
        BlockModel::Paragraph(t) => Ok("<p>"@ + html_escaped(interpolated(t, commit, title)) + "</p>"@),
        BlockModel::Component(c) => component_html(c, commit, title, views, bodies),
    }
}

/// The HTML of one component, or why it cannot be rendered.
pub open spec fn component_html(
    c: ComponentModel,
    commit: Seq<char>,
    title: Seq<char>,
    views: Seq<ArtifactView>,
    bodies: Seq<ArtifactBodies>,
) -> Result<Seq<char>, FrontPageErrorModel>
    decreases c,
{
    if c.name == "grid"@ {
        let cols = match attr_lookup(c.attrs, "cols"@) {
            Some(v) => v,
            None => "3"@,
        };
        match blocks_html(c.children, commit, title, views, bodies) {
            Err(e) => Err(e),
            Ok(inner) => Ok(
                "<div class=\"cards\" style=\"grid-template-columns:repeat("@ + cols
                    + ",minmax(280px,1fr))\">"@ + inner + "</div>"@,
            ),
        }
    } else if c.name == "card"@ {
        let t = match attr_lookup(c.attrs, "title"@) {
            Some(v) => v,
            None => ""@,
        };
        match blocks_html(c.children, commit, title, views, bodies) {
            Err(e) => Err(e),
            Ok(inner) => Ok(
                "<div class=\"card\"><h3>"@ + html_escaped(interpolated(t, commit, title)) + "</h3>"@
                    + inner + "</div>"@,
            ),
        }
    } else if c.name.len() >= 9 && c.name.take(9) == "artifact."@ {
        artifact_html(c.name.skip(9), c.attrs, views, bodies)
    } else {
        Err(FrontPageErrorModel::UnknownComponent(c.name))
    }
}

fn interpolate(t: &str, commit: &str, title: &str) -> (r: String)
    ensures
        r@ == interpolated(t@, commit@, title@),
{
    proof {
        reveal_strlit("{{ commit }}");
        reveal_strlit("{{ front_page.title }}");
    }
    let a = replace_all(t, "{{ commit }}", commit);
    replace_all(a.as_str(), "{{ front_page.title }}", title)
}

fn truncated(href: &str) -> (r: String)
    ensures
        r@ == truncated_notice(href@),
{
    let mut out = String::from_str("<div class=\"card\"><strong>Truncated</strong>: file too large. <a href=\"");
    out.append(href);
    out.append("\">Download</a></div>");
    out
}

fn body_of(b: &Result<String, String>) -> (r: Result<String, FrontPageError>)
    ensures
        match body_text(*b) {
            Ok(t) => r is Ok && r->Ok_0@ == t,
            Err(e) => r is Err && r->Err_0@ == e,
        },
{
    match b {
        Ok(t) => Ok(t.clone()),
        Err(m) => Err(FrontPageError::Body(m.clone())),
    }
}

fn artifact_part(kind: &str, attrs: &Vec<Attr>, views: &[ArtifactView], bodies: &[ArtifactBodies]) -> (r: Result<String, FrontPageError>)
    requires
        views.len() == bodies.len(),
    ensures
        match artifact_html(kind@, attrs_view(attrs@), views@, bodies@) {
            Ok(t) => r is Ok && r->Ok_0@ == t,
            Err(e) => r is Err && r->Err_0@ == e,
        },
{
    let id = match find_attr(attrs.as_slice(), "id") {
        Some(v) => v,
        None => return Err(FrontPageError::MissingId),
    };
    let mut k: usize = 0;
    while k < views.len() && !same_text(views[k].id, id)
        invariant
            k <= views.len(),
            view_of(views@, id@, 0) == view_of(views@, id@, k as int),
        decreases views.len() - k,
    {
        k = k + 1;
    }
    if k >= views.len() {
        return Err(FrontPageError::UnknownArtifact(String::from_str(id)));
    }
    let v = &views[k];
    let b = &bodies[k];
    if same_text(kind, "summary") {
        body_of(&b.summary)
    } else if same_text(kind, "table") {
        body_of(&b.table)
    } else if same_text(kind, "json") {
        if b.too_large {
            Ok(truncated(v.download_href.as_str()))
        } else {
            body_of(&b.json)
        }
    } else if same_text(kind, "markdown") {
        if b.too_large {
            Ok(truncated(v.download_href.as_str()))
        } else {
            Ok(b.markdown.clone())
        }
    } else if same_text(kind, "image") {
        Ok(render_image(v.download_href.as_str(), v.title))
    } else if same_text(kind, "link") {
        let mut out = String::from_str("<a href=\"/a/");
        push_html_escaped(&mut out, v.id);
        out.append("/\">");
        push_html_escaped(&mut out, v.title);
        out.append("</a>");
        Ok(out)
    } else {
        Err(FrontPageError::UnknownArtifactKind(String::from_str(kind)))
    }
}

proof fn lemma_first_error_stays(
    v: Seq<BlockModel>,
    m: int,
    commit: Seq<char>,
    title: Seq<char>,
    views: Seq<ArtifactView>,
    bodies: Seq<ArtifactBodies>,
)
    requires
        0 <= m <= v.len(),
        blocks_html(v.take(m), commit, title, views, bodies) is Err,
    ensures
        blocks_html(v, commit, title, views, bodies) == blocks_html(v.take(m), commit, title, views, bodies),
    decreases v.len() - m,
{
    if m == v.len() {
        assert(v.take(m) =~= v);
    } else {
        assert(v.take(m + 1).drop_last() =~= v.take(m));
        lemma_first_error_stays(v, m + 1, commit, title, views, bodies);
    }
}

fn heading_html(level: u8, text: &str, commit: &str, title: &str) -> (r: String)
    ensures
        r@ == "<h"@ + decimal(level as nat) + ">"@ + html_escaped(interpolated(text@, commit@, title@))
            + "</h"@ + decimal(level as nat) + ">"@,
{
    let mut out = String::from_str("<h");
    write_decimal(&mut out, level as u64);
    out.append(">");
    let t = interpolate(text, commit, title);
    push_html_escaped(&mut out, t.as_str());
    out.append("</h");
    write_decimal(&mut out, level as u64);
    out.append(">");
    out
}

fn paragraph_html(text: &str, commit: &str, title: &str) -> (r: String)
    ensures
        r@ == "<p>"@ + html_escaped(interpolated(text@, commit@, title@)) + "</p>"@,
{
    let mut out = String::from_str("<p>");
    let t = interpolate(text, commit, title);
    push_html_escaped(&mut out, t.as_str());
    out.append("</p>");
    out
}

#[verifier::loop_isolation(false)]
fn render_blocks(bs: &Vec<Block>, commit: &str, title: &str, views: &[ArtifactView], bodies: &[ArtifactBodies]) -> (r: Result<String, FrontPageError>)
    requires
        views.len() == bodies.len(),
    ensures
        match blocks_html(blocks_view(bs@), commit@, title@, views@, bodies@) {
            Ok(t) => r is Ok && r->Ok_0@ == t,
            Err(e) => r is Err && r->Err_0@ == e,
        },
    decreases bs,
{
    let ghost v = blocks_view(bs@);
    proof {
        lemma_blocks_view_index(bs@);
        assert(v.take(0) =~= Seq::<BlockModel>::empty());
    }
    let mut out = String::new();
    let mut i: usize = 0;
    while i < bs.len()
        invariant
            i <= bs.len(),
            blocks_html(v.take(i as int), commit@, title@, views@, bodies@) == Ok::<Seq<char>, FrontPageErrorModel>(out@),
        decreases bs.len() - i,
    {
        assert(v.take(i + 1).drop_last() =~= v.take(i as int));
        assert(v[i as int] == block_view(&bs@[i as int]));
        assert(v.take(i + 1).last() == v[i as int]);
        let ghost bv = v[i as int];
        let part = match &bs[i] {
            Block::Heading { level, text } => {
                let h = heading_html(*level, text.as_str(), commit, title);
                assert(block_html(bv, commit@, title@, views@, bodies@) == Ok::<Seq<char>, FrontPageErrorModel>(h@));
                h
            },
            Block::Paragraph(t) => {
                let p = paragraph_html(t.as_str(), commit, title);
                assert(block_html(bv, commit@, title@, views@, bodies@) == Ok::<Seq<char>, FrontPageErrorModel>(p@));
                p
            },
            Block::Component(c) => {
                proof {
                    vstd::std_specs::vec::axiom_vec_index_decreases(*bs, i as int);
                }
                let res = render_component(c, commit, title, views, bodies);
                assert(block_html(bv, commit@, title@, views@, bodies@) == component_html(
                    component_view(c),
                    commit@,
                    title@,
                    views@,
                    bodies@,
                ));
                match res {
                    Ok(t) => t,
                    Err(e) => {
                        proof {
                            assert(blocks_html(v.take(i + 1), commit@, title@, views@, bodies@) == Err::<
                                Seq<char>,
                                FrontPageErrorModel,
                            >(e@));
                            lemma_first_error_stays(v, i + 1, commit@, title@, views@, bodies@);
                        }
                        return Err(e);
                    },
                }
            },
        };
        assert(block_html(bv, commit@, title@, views@, bodies@) == Ok::<Seq<char>, FrontPageErrorModel>(part@));
        out.append(part.as_str());
        i = i + 1;
    }
    assert(v.take(i as int) =~= v);
    Ok(out)
}

fn render_component(c: &Component, commit: &str, title: &str, views: &[ArtifactView], bodies: &[ArtifactBodies]) -> (r: Result<String, FrontPageError>)
    requires
        views.len() == bodies.len(),
    ensures
        match component_html(component_view(c), commit@, title@, views@, bodies@) {
            Ok(t) => r is Ok && r->Ok_0@ == t,
            Err(e) => r is Err && r->Err_0@ == e,
        },
    decreases c,
{
    if same_text(c.name.as_str(), "grid") {
        let cols = match find_attr(c.attrs.as_slice(), "cols") {
            Some(v) => v,
            None => "3",
        };
        let inner = match render_blocks(&c.children, commit, title, views, bodies) {
            Ok(t) => t,
            Err(e) => return Err(e),
        };
        let mut out = String::from_str("<div class=\"cards\" style=\"grid-template-columns:repeat(");
        out.append(cols);
        out.append(",minmax(280px,1fr))\">");
        out.append(inner.as_str());
        out.append("</div>");
        assert(out@ =~= "<div class=\"cards\" style=\"grid-template-columns:repeat("@ + cols@
            + ",minmax(280px,1fr))\">"@ + inner@ + "</div>"@);
        Ok(out)
    } else if same_text(c.name.as_str(), "card") {
        let t = match find_attr(c.attrs.as_slice(), "title") {
            Some(v) => v,
            None => "",
        };
        let inner = match render_blocks(&c.children, commit, title, views, bodies) {
            Ok(t) => t,
            Err(e) => return Err(e),
        };
        let mut out = String::from_str("<div class=\"card\"><h3>");
        let ti = interpolate(t, commit, title);
        push_html_escaped(&mut out, ti.as_str());
        out.append("</h3>");
        out.append(inner.as_str());
        out.append("</div>");
        assert(out@ =~= "<div class=\"card\"><h3>"@ + html_escaped(interpolated(t@, commit@, title@))
            + "</h3>"@ + inner@ + "</div>"@);
        Ok(out)
    } else {
        let cs = chars_of(c.name.as_str());
        if cs.len() >= 9 && same_text(string_of(&cs, 0, 9).as_str(), "artifact.") {
            let kind = string_of(&cs, 9, cs.len());
            assert(cs@.subrange(0, 9) =~= c.name@.take(9));
            assert(cs@.subrange(9, cs.len() as int) =~= c.name@.skip(9));
            artifact_part(kind.as_str(), &c.attrs, views, bodies)
        } else {
            proof {
                if cs.len() >= 9 {
                    assert(cs@.subrange(0, 9) =~= c.name@.take(9));
                }
            }
            Err(FrontPageError::UnknownComponent(c.name.clone()))
        }
    }
}

/// Renders a parsed front page. `views[i]` and `bodies[i]` describe the same
/// artifact; an `artifact.*` component shows the first artifact with its `id`.
pub fn render_front_page(doc: &Document, commit: &str, title: &str, views: &[ArtifactView], bodies: &[ArtifactBodies]) -> (r: Result<String, FrontPageError>)
    requires
        views.len() == bodies.len(),
    ensures
        match blocks_html(blocks_view(doc.blocks@), commit@, title@, views@, bodies@) {
            Ok(t) => r is Ok && r->Ok_0@ == t,
            Err(e) => r is Err && r->Err_0@ == e,
        },
{
    render_blocks(&doc.blocks, commit, title, views, bodies)
}

} // verus!
