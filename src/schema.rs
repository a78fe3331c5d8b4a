//! Structural validation of the raw manifest document against a JSON Schema.
//! The schema engine is an outside collaborator; this module decides what its
//! answer means for a run.

use vstd::prelude::*;

verus! {

#[verifier::external_type_specification]
#[verifier::external_body]
pub struct ExValue(serde_json::Value);

/// Why a document failed schema validation.
pub enum SchemaError {
    /// The schema text is not JSON, or not a schema the engine accepts.
    BadSchema(String),
    /// One message per violation, as the engine gave them.
    Violations(Vec<String>),
}

/// What the schema engine answers for a document and a schema text: the reason
/// the schema cannot be used, or one message per violation, in the engine's order.
pub uninterp spec fn schema_outcome(doc: serde_json::Value, schema: Seq<char>) -> Result<Seq<Seq<char>>, Seq<char>>;

/// Relies on `serde_json::from_str` for the schema text, then
/// `jsonschema::JSONSchema::compile` and `JSONSchema::validate`: `Err` with the
/// reason when the schema cannot be used, else one "<error> at <path>" message
/// per violation.
#[verifier::external_body]
fn run_schema(doc: &serde_json::Value, schema_text: &str) -> (r: Result<Vec<String>, String>)
    ensures
        r is Ok <==> schema_outcome(*doc, schema_text@) is Ok,
        r is Ok ==> r->Ok_0@.map_values(|m: String| m@) == schema_outcome(*doc, schema_text@)->Ok_0,
        r is Err ==> r->Err_0@ == schema_outcome(*doc, schema_text@)->Err_0,
{
    let schema: serde_json::Value = serde_json::from_str(schema_text).map_err(|e| e.to_string())?;
    let compiled = jsonschema::JSONSchema::compile(&schema).map_err(|e| e.to_string())?;
    let messages = match compiled.validate(doc) {
        Ok(()) => Vec::new(),
        Err(errors) => errors.map(|e| format!("{} at {}", e, e.instance_path)).collect(),
    };
    Ok(messages)
}

/// What the schema engine's answer means: a schema that could not be used, the
/// violations it found, or success when it found none.
pub fn schema_verdict(outcome: Result<Vec<String>, String>) -> (r: Result<(), SchemaError>)
    ensures
        outcome is Err ==> (r matches Err(SchemaError::BadSchema(m)) && m@ == outcome->Err_0@),
        outcome is Ok && outcome->Ok_0.len() > 0 ==> (r matches Err(SchemaError::Violations(v))
            && v@ == outcome->Ok_0@),
        outcome is Ok && outcome->Ok_0.len() == 0 ==> r is Ok,
{
    match outcome {
        Err(m) => Err(SchemaError::BadSchema(m)),
        Ok(v) => if v.len() > 0 {
            Err(SchemaError::Violations(v))
        } else {
            Ok(())
        },
    }
}

/// Validates the raw manifest document against a schema given as JSON text:
/// an unusable schema is `BadSchema`, any violation makes the result
/// `Violations` with every message, and no violation is success.
pub fn validate_schema(manifest_json: &serde_json::Value, schema_json_text: &str) -> (r: Result<(), SchemaError>)
    ensures
        match schema_outcome(*manifest_json, schema_json_text@) {
            Err(m) => r matches Err(SchemaError::BadSchema(x)) && x@ == m,
            Ok(v) => if v.len() == 0 {
                r is Ok
            } else {
                r matches Err(SchemaError::Violations(w)) && w@.map_values(|t: String| t@) == v
            },
        },
{
    let outcome = run_schema(manifest_json, schema_json_text);
    schema_verdict(outcome)
}

} // verus!
