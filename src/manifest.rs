//! The manifest document and the rules that a schema cannot express: unique
//! artifact ids, repository-relative paths, known render kinds, digest shape.

use vstd::prelude::*;
use crate::json::Json;
use crate::text::{chars_of, same_text};

verus! {

/// Provenance of the CI run that produced the bundle.
pub struct WorkflowRun {
    /// A string or a number.
    pub id: Json,
    pub url: String,
    pub attempt: u32,
}

/// The front page: its title and the markup file that lays it out.
pub struct FrontPage {
    pub title: String,
    pub markup: String,
}

/// One evidence file of the bundle.
pub struct Artifact {
    pub id: String,
    pub title: String,
    pub path: String,
    pub media_type: String,
    pub render: String,
    pub sha256: String,
}

/// The signed description of the bundle; artifacts stand in rendering order.
pub struct Manifest {
    pub version: u32,
    pub repo: String,
    pub commit: String,
    pub workflow_run: WorkflowRun,
    pub front_page: FrontPage,
    pub artifacts: Vec<Artifact>,
}

/// A rule of the manifest that an artifact breaks.
pub enum SemanticError {
    /// The id was already used by an earlier artifact.
    DuplicateId(String),
    /// The path (given here) is absolute, has a `..` segment, or resolves outside the root.
    PathEscape(String),
    /// The render kind is not one of the known kinds.
    UnknownRenderKind { render: String, id: String },
    /// The digest of the artifact with this id is not 64 hexadecimal digits.
    MalformedDigest(String),
}

/// The model of a [`SemanticError`].
pub enum SemanticErrorModel {
    DuplicateId(Seq<char>),
    PathEscape(Seq<char>),
    UnknownRenderKind { render: Seq<char>, id: Seq<char> },
    MalformedDigest(Seq<char>),
}

impl View for SemanticError {
    type V = SemanticErrorModel;

    open spec fn view(&self) -> SemanticErrorModel {
        match self {
            SemanticError::DuplicateId(id) => SemanticErrorModel::DuplicateId(id@),
            SemanticError::PathEscape(p) => SemanticErrorModel::PathEscape(p@),
            SemanticError::UnknownRenderKind { render, id } => SemanticErrorModel::UnknownRenderKind {
                render: render@,
                id: id@,
            },
            SemanticError::MalformedDigest(id) => SemanticErrorModel::MalformedDigest(id@),
        }
    }
}

/// The models of a list of errors.
pub open spec fn errors_view(v: Seq<SemanticError>) -> Seq<SemanticErrorModel> {
    v.map_values(|e: SemanticError| e@)
}

/// The path starts at the file system root.
pub open spec fn is_absolute(p: Seq<char>) -> bool {
    p.len() > 0 && p[0] == '/'
}

/// Some `/`-separated segment of the path is `..`.
pub open spec fn has_parent_segment(p: Seq<char>) -> bool {
    exists|i: int|
        #![trigger p[i], p[i + 1]]
        0 <= i && i + 1 < p.len() && p[i] == '.' && p[i + 1] == '.' && (i == 0 || p[i - 1] == '/')
            && (i + 2 == p.len() || p[i + 2] == '/')
}

/// The render kinds that the site knows how to present.
pub open spec fn known_render(r: Seq<char>) -> bool {
    ||| r == "markdown"@
    ||| r == "json"@
    ||| r == "table:coverage"@
    ||| r == "summary:test"@
    ||| r == "image"@
    ||| r == "repo:file"@
    ||| r == "repo:bundle"@
    ||| r == "repo:symbols"@
}

/// An ASCII hexadecimal digit of either case.
pub open spec fn is_hex_digit(c: char) -> bool {
    ||| ('0' <= c && c <= '9')
    ||| ('a' <= c && c <= 'f')
    ||| ('A' <= c && c <= 'F')
}

/// Exactly 64 characters, each an ASCII hexadecimal digit.
pub open spec fn well_formed_digest(d: Seq<char>) -> bool {
    d.len() == 64 && forall|i: int| 0 <= i < d.len() ==> #[trigger] is_hex_digit(d[i])
}

/// Artifact `i` has the id of an earlier one.
pub open spec fn id_repeats(arts: Seq<Artifact>, i: int) -> bool {
    exists|j: int| 0 <= j < i && #[trigger] arts[j].id@ == arts[i].id@
}

/// The rules that artifact `i` breaks, in the order they are checked;
/// `outside` says whether its path resolved to a place outside the root.
pub open spec fn artifact_errors(arts: Seq<Artifact>, i: int, outside: bool) -> Seq<SemanticErrorModel> {
    let a = arts[i];
    (if id_repeats(arts, i) { seq![SemanticErrorModel::DuplicateId(a.id@)] } else { seq![] })
    + (if is_absolute(a.path@) || has_parent_segment(a.path@) || outside {
        seq![SemanticErrorModel::PathEscape(a.path@)]
    } else {
        seq![]
    })
    + (if !known_render(a.render@) {
        seq![SemanticErrorModel::UnknownRenderKind { render: a.render@, id: a.id@ }]
    } else {
        seq![]
    })
    + (if !well_formed_digest(a.sha256@) { seq![SemanticErrorModel::MalformedDigest(a.id@)] } else { seq![] })
}

/// Every rule broken by the first `n` artifacts, artifact by artifact.
pub open spec fn semantic_errors(arts: Seq<Artifact>, outside: Seq<bool>, n: int) -> Seq<SemanticErrorModel>
    decreases n,
{
    if n <= 0 {
        seq![]
    } else {
        semantic_errors(arts, outside, n - 1) + artifact_errors(arts, n - 1, outside[n - 1])
    }
}

proof fn lemma_errors_of_artifact_kept(arts: Seq<Artifact>, outside: Seq<bool>, i: int, n: int, e: SemanticErrorModel)
    requires
        0 <= i < n,
        artifact_errors(arts, i, outside[i]).contains(e),
    ensures
        semantic_errors(arts, outside, n).contains(e),
    decreases n,
{
    let prev = semantic_errors(arts, outside, n - 1);
    let last = artifact_errors(arts, n - 1, outside[n - 1]);
    if i < n - 1 {
        lemma_errors_of_artifact_kept(arts, outside, i, n - 1, e);
        let k = choose|k: int| 0 <= k < prev.len() && prev[k] == e;
        assert((prev + last)[k] == e);
    } else {
        let k = choose|k: int| 0 <= k < last.len() && last[k] == e;
        assert((prev + last)[prev.len() + k] == e);
    }
}

/// Duplicate ids are detected: when artifact `i` carries the id of an earlier
/// artifact `j`, validation reports `DuplicateId` with that id.
pub proof fn lemma_duplicate_id_detected(arts: Seq<Artifact>, outside: Seq<bool>, j: int, i: int)
    requires
        0 <= j < i < arts.len(),
        arts[j].id@ == arts[i].id@,
    ensures
        semantic_errors(arts, outside, arts.len() as int).contains(
            SemanticErrorModel::DuplicateId(arts[i].id@),
        ),
{
    let errs = artifact_errors(arts, i, outside[i]);
    assert(id_repeats(arts, i));
    assert(errs[0] == SemanticErrorModel::DuplicateId(arts[i].id@));
    lemma_errors_of_artifact_kept(arts, outside, i, arts.len() as int, SemanticErrorModel::DuplicateId(arts[i].id@));
}

/// Path escapes are rejected: an artifact whose path is absolute or has a `..`
/// segment, whatever the file system says, makes validation report `PathEscape`
/// with that path.
pub proof fn lemma_path_escape_detected(arts: Seq<Artifact>, outside: Seq<bool>, i: int)
    requires
        0 <= i < arts.len(),
        is_absolute(arts[i].path@) || has_parent_segment(arts[i].path@),
    ensures
        semantic_errors(arts, outside, arts.len() as int).contains(
            SemanticErrorModel::PathEscape(arts[i].path@),
        ),
{
    let a = arts[i];
    let dup: Seq<SemanticErrorModel> = if id_repeats(arts, i) { seq![SemanticErrorModel::DuplicateId(a.id@)] } else { seq![] };
    let errs = artifact_errors(arts, i, outside[i]);
    assert(errs[dup.len() as int] == SemanticErrorModel::PathEscape(a.path@));
    lemma_errors_of_artifact_kept(arts, outside, i, arts.len() as int, SemanticErrorModel::PathEscape(a.path@));
}

/// Whether `p` is absolute or has a `..` segment.
pub fn path_leaves_root(p: &str) -> (r: bool)
    ensures
        r == (is_absolute(p@) || has_parent_segment(p@)),
{
    let cs = chars_of(p);
    let n = cs.len();
    if n > 0 && cs[0] == '/' {
        return true;
    }
    let mut i: usize = 0;
    while i < n && i + 1 < n
        invariant
            cs@ == p@,
            n == cs.len(),
            forall|k: int|
                #![trigger p@[k], p@[k + 1]]
                0 <= k < i && k + 1 < n ==> !(p@[k] == '.' && p@[k + 1] == '.' && (k == 0 || p@[k
                    - 1] == '/') && (k + 2 == n || p@[k + 2] == '/')),
        decreases n - i,
    {
        if cs[i] == '.' && cs[i + 1] == '.' && (i == 0 || cs[i - 1] == '/') && (i + 2 == n || cs[i
            + 2] == '/') {
            return true;
        }
        i = i + 1;
    }
    false
}

/// Whether `r` is one of the known render kinds.
pub fn is_known_render(r: &str) -> (b: bool)
    ensures
        b == known_render(r@),
{
    same_text(r, "markdown") || same_text(r, "json") || same_text(r, "table:coverage")
        || same_text(r, "summary:test") || same_text(r, "image") || same_text(r, "repo:file")
        || same_text(r, "repo:bundle") || same_text(r, "repo:symbols")
}

/// Whether `d` is 64 hexadecimal digits.
pub fn is_well_formed_digest(d: &str) -> (b: bool)
    ensures
        b == well_formed_digest(d@),
{
    let cs = chars_of(d);
    if cs.len() != 64 {
        return false;
    }
    let mut i: usize = 0;
    while i < cs.len()
        invariant
            cs@ == d@,
            i <= cs.len(),
            forall|k: int| 0 <= k < i ==> #[trigger] is_hex_digit(d@[k]),
        decreases cs.len() - i,
    {
        let c = cs[i];
        if !(('0' <= c && c <= '9') || ('a' <= c && c <= 'f') || ('A' <= c && c <= 'F')) {
            assert(!is_hex_digit(d@[i as int]));
            return false;
        }
        i = i + 1;
    }
    true
}

fn id_seen_before(arts: &Vec<Artifact>, i: usize) -> (b: bool)
    requires
        i < arts.len(),
    ensures
        b == id_repeats(arts@, i as int),
{
    let mut j: usize = 0;
    while j < i
        invariant
            i < arts.len(),
            j <= i,
            forall|k: int| 0 <= k < j ==> arts@[k].id@ != arts@[i as int].id@,
        decreases i - j,
    {
        if arts[j].id == arts[i].id {
            return true;
        }
        j = j + 1;
    }
    false
}

/// Checks every artifact against the manifest's rules and reports every broken
/// rule, artifact by artifact in manifest order. `outside[i]` tells whether the
/// path of artifact `i`, resolved on the file system, lies outside the root.
pub fn validate_semantics(m: &Manifest, outside: &Vec<bool>) -> (r: Result<(), Vec<SemanticError>>)
    requires
        outside.len() == m.artifacts.len(),
    ensures
        match r {
            Ok(()) => semantic_errors(m.artifacts@, outside@, m.artifacts.len() as int).len() == 0,
            Err(es) => {
                &&& errors_view(es@) == semantic_errors(m.artifacts@, outside@, m.artifacts.len() as int)
                &&& es.len() > 0
            },
        },
{
    let arts = &m.artifacts;
    let mut errs: Vec<SemanticError> = Vec::new();
    let mut i: usize = 0;
    while i < arts.len()
        invariant
            i <= arts.len(),
            outside.len() == arts.len(),
            errors_view(errs@) == semantic_errors(arts@, outside@, i as int),
        decreases arts.len() - i,
    {
        let a = &arts[i];
        let ghost before = errs@;
        if id_seen_before(arts, i) {
            errs.push(SemanticError::DuplicateId(a.id.clone()));
        }
        if path_leaves_root(a.path.as_str()) || outside[i] {
            errs.push(SemanticError::PathEscape(a.path.clone()));
        }
        if !is_known_render(a.render.as_str()) {
            errs.push(SemanticError::UnknownRenderKind { render: a.render.clone(), id: a.id.clone() });
        }
        if !is_well_formed_digest(a.sha256.as_str()) {
            errs.push(SemanticError::MalformedDigest(a.id.clone()));
        }
        assert(errors_view(errs@) =~= errors_view(before) + artifact_errors(arts@, i as int, outside@[i as int]));
        i = i + 1;
    }
    if errs.len() == 0 {
        Ok(())
    } else {
        Err(errs)
    }
}

} // verus!
