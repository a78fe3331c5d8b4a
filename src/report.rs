//! The verification report: the stages' results put together in the order
//! schema, semantics, signature, content.

use vstd::prelude::*;
use crate::content::{hex_lower, ContentCheck};
use crate::manifest::{Artifact, Manifest, SemanticError};
use crate::signature::CryptoError;

verus! {

/// The content result of one artifact, in manifest order.
pub struct ArtifactResult {
    pub id: String,
    pub verified: bool,
    pub observed_digest: Option<String>,
}

/// What a verification run found.
pub struct VerificationReport {
    pub schema_ok: bool,
    pub semantic_ok: bool,
    /// `None` when no signature check was asked for.
    pub signature_ok: Option<bool>,
    pub artifacts: Vec<ArtifactResult>,
    /// Every artifact's content matched its digest.
    pub all_artifacts_verified: bool,
}

/// A failure that makes the manifest untrustworthy as a whole.
pub enum VerifyError {
    /// The schema validator's messages, as it gave them.
    Schema(Vec<String>),
    /// Every broken manifest rule.
    Semantic(Vec<SemanticError>),
    /// The signature or key could not be decoded.
    Crypto(CryptoError),
}

/// Whether every check in `checks` verified.
pub open spec fn all_verified(checks: Seq<ContentCheck>) -> bool {
    forall|i: int| 0 <= i < checks.len() ==> #[trigger] checks[i].verified
}

/// Artifact `i` of the report stands for artifact `i` of the manifest and
/// carries its content check.
pub open spec fn reports_artifact(r: ArtifactResult, a: Artifact, c: ContentCheck) -> bool {
    &&& r.id@ == a.id@
    &&& r.verified == c.verified
    &&& r.observed_digest is Some == c.observed_digest is Some
    &&& r.observed_digest is Some ==> r.observed_digest->0@ == c.observed_digest->0@
}

/// A digest mismatch is not fatal: when an artifact's observed digest differs
/// from its claim, its check is unverified and so is the bundle as a whole,
/// while [`assemble_report`] still produces a report, since whether it does
/// depends on the schema, semantic and signature stages alone.
pub proof fn lemma_digest_mismatch_not_fatal(checks: Seq<ContentCheck>, i: int, claimed: Seq<char>, observed: Seq<u8>)
    requires
        0 <= i < checks.len(),
        checks[i].verified == (hex_lower(observed) == claimed),
        hex_lower(observed) != claimed,
    ensures
        !checks[i].verified,
        !all_verified(checks),
{
}

fn copy_text(s: &Option<String>) -> (r: Option<String>)
    ensures
        r is Some == s is Some,
        r is Some ==> r->0@ == s->0@,
{
    match s {
        Some(t) => Some(t.clone()),
        None => None,
    }
}

/// Puts the stages' results together. Schema violations, then broken manifest
/// rules, then a signature that could not be decoded, stop the run with an
/// error; otherwise the report records the signature result (when one was
/// asked for) and each artifact's content check in manifest order.
pub fn assemble_report(
    m: &Manifest,
    schema_violations: Vec<String>,
    semantics: Result<(), Vec<SemanticError>>,
    signature: Option<Result<bool, CryptoError>>,
    contents: &Vec<ContentCheck>,
) -> (r: Result<VerificationReport, VerifyError>)
    requires
        contents.len() == m.artifacts.len(),
    ensures
        r is Ok <==> (schema_violations.len() == 0 && semantics is Ok && !(signature is Some
            && signature->0 is Err)),
        schema_violations.len() > 0 ==> (r matches Err(VerifyError::Schema(v)) && v@
            == schema_violations@),
        schema_violations.len() == 0 && semantics is Err ==> (r matches Err(
            VerifyError::Semantic(v),
        ) && v@ == semantics->Err_0@),
        schema_violations.len() == 0 && semantics is Ok && signature is Some && signature->0 is Err
            ==> (r matches Err(VerifyError::Crypto(e)) && e == signature->0->Err_0),
        schema_violations.len() == 0 && semantics is Ok && !(signature is Some && signature->0 is Err) ==> {
            &&& r is Ok
            &&& r->Ok_0.schema_ok
            &&& r->Ok_0.semantic_ok
            &&& r->Ok_0.signature_ok == match signature {
                Some(Ok(b)) => Some(b),
                _ => None::<bool>,
            }
            &&& r->Ok_0.artifacts.len() == m.artifacts.len()
            &&& forall|i: int|
                0 <= i < m.artifacts.len() ==> #[trigger] reports_artifact(
                    r->Ok_0.artifacts@[i],
                    m.artifacts@[i],
                    contents@[i],
                )
            &&& r->Ok_0.all_artifacts_verified == all_verified(contents@)
        },
{
    if schema_violations.len() > 0 {
        return Err(VerifyError::Schema(schema_violations));
    }
    match semantics {
        Err(v) => return Err(VerifyError::Semantic(v)),
        Ok(()) => {},
    }
    let signature_ok = match signature {
        Some(Err(e)) => return Err(VerifyError::Crypto(e)),
        Some(Ok(b)) => Some(b),
        None => None,
    };
    let mut artifacts: Vec<ArtifactResult> = Vec::new();
    let mut all = true;
    let mut i: usize = 0;
    while i < contents.len()
        invariant
            contents.len() == m.artifacts.len(),
            i <= contents.len(),
            artifacts.len() == i,
            forall|k: int|
                0 <= k < i ==> #[trigger] reports_artifact(artifacts@[k], m.artifacts@[k], contents@[k]),
            all == (forall|k: int| 0 <= k < i ==> #[trigger] contents@[k].verified),
        decreases contents.len() - i,
    {
        let c = &contents[i];
        artifacts.push(
            ArtifactResult {
                id: m.artifacts[i].id.clone(),
                verified: c.verified,
                observed_digest: copy_text(&c.observed_digest),
            },
        );
        all = all && c.verified;
        i = i + 1;
    }
    Ok(
        VerificationReport {
            schema_ok: true,
            semantic_ok: true,
            signature_ok,
            artifacts,
            all_artifacts_verified: all,
        },
    )
}

/// The bundle as a whole is verified: its signature was checked and matched,
/// and every artifact's content matched its digest.
pub fn bundle_verified(report: &VerificationReport) -> (r: bool)
    ensures
        r == (report.signature_ok == Some(true) && report.all_artifacts_verified),
{
    match report.signature_ok {
        Some(b) => b && report.all_artifacts_verified,
        None => false,
    }
}

} // verus!
