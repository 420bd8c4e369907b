//! Plutus blueprints (CIP-57 `plutus.json`), as produced by `aiken build`.
//!
//! The JSON schemas of parameters, datums and redeemers are carried as
//! `serde_json::Value`s; the library reads the validator entries and works
//! out each compiled script's size from its hex-encoded code.

use vstd::prelude::*;
use serde_json::Value;
use crate::error::CoreError;
use crate::paths::{joined, path_join};

verus! {

/// `serde_json::Value`, held opaque.
#[verifier::external_type_specification]
#[verifier::external_body]
pub struct ExJsonValue(Value);

/// One parameter of a validator.
#[derive(Debug)]
pub struct BlueprintParam {
    pub title: String,
    pub schema: Value,
}

/// One validator entry of a blueprint.
#[derive(Debug)]
pub struct BlueprintValidator {
    pub title: String,
    pub hash: Option<String>,
    pub compiled_size_bytes: Option<usize>,
    pub parameters: Vec<BlueprintParam>,
    pub datum: Option<Value>,
    pub redeemer: Option<Value>,
}

/// A blueprint: its validators, and the whole document as read.
#[derive(Debug)]
pub struct Blueprint {
    pub validators: Vec<BlueprintValidator>,
    pub raw: Value,
}

/// A parameter entry as the file holds it.
#[derive(Debug)]
pub struct RawParam {
    pub title: String,
    pub schema: Option<Value>,
}

/// A datum or redeemer entry as the file holds it.
#[derive(Debug)]
pub struct RawSchemaWrapper {
    pub schema: Option<Value>,
}

/// A validator entry as the file holds it.
#[derive(Debug)]
pub struct RawValidator {
    pub title: String,
    pub hash: Option<String>,
    pub compiled_code: Option<String>,
    pub parameters: Option<Vec<RawParam>>,
    pub datum: Option<RawSchemaWrapper>,
    pub redeemer: Option<RawSchemaWrapper>,
}

/// Reads a project's `plutus.json` blueprint.
#[derive(Debug, Clone, Copy)]
pub struct JsonBlueprintReader;

impl JsonBlueprintReader {
    /// A blueprint reader.
    pub fn new() -> (r: Self)
        ensures
            r == JsonBlueprintReader,
    {
        JsonBlueprintReader
    }
}

/// `serde_json::Value::Null`. Nothing is claimed of the value beyond its
/// type: Verus sees no inside of a JSON value.
#[verifier::external_body]
fn json_null() -> Value {
    Value::Null
}

/// The size in bytes of a script whose code is the hex text `code`: half
/// the text's length in UTF-8 bytes, rounded down.
pub open spec fn script_size(code: Seq<char>) -> usize {
    (vstd::utf8::encode_utf8(code).len() as usize) / 2
}

/// A schema as the blueprint reports it, as far as it can be stated: when the
/// entry gives a schema, that schema. An entry without one is reported as
/// JSON null; a JSON value is opaque to Verus, so this predicate says nothing
/// of that case.
pub open spec fn schema_from(given: Option<Value>, reported: Value) -> bool {
    given matches Some(v) ==> reported == v
}

/// The parameter reported for a parameter entry.
pub open spec fn param_from(raw: RawParam, p: BlueprintParam) -> bool {
    p.title == raw.title && schema_from(raw.schema, p.schema)
}

/// The schema reported for a datum or redeemer entry.
pub open spec fn wrapper_from(raw: Option<RawSchemaWrapper>, r: Option<Value>) -> bool {
    match raw {
        Some(w) => r is Some && schema_from(w.schema, r->0),
        None => r is None,
    }
}

/// The validator reported for a validator entry: title and hash as given,
/// the compiled size worked out from the code, every parameter (none when
/// the entry lists none), and the datum and redeemer schemas.
pub open spec fn validator_from(raw: RawValidator, v: BlueprintValidator) -> bool {
    &&& v.title == raw.title
    &&& v.hash == raw.hash
    &&& match raw.compiled_code {
        Some(code) => v.compiled_size_bytes == Some(script_size(code@)),
        None => v.compiled_size_bytes is None,
    }
    &&& match raw.parameters {
        Some(ps) => v.parameters.len() == ps.len() && forall|i: int|
            0 <= i < ps.len() ==> param_from(ps@[i], #[trigger] v.parameters@[i]),
        None => v.parameters.len() == 0,
    }
    &&& wrapper_from(raw.datum, v.datum)
    &&& wrapper_from(raw.redeemer, v.redeemer)
}

/// The schema a schema entry reports.
fn schema_or_null(s: Option<Value>) -> (r: Value)
    ensures
        schema_from(s, r),
{
    match s {
        Some(v) => v,
        None => json_null(),
    }
}

/// The schema a datum or redeemer entry reports.
fn wrapper_schema(w: Option<RawSchemaWrapper>) -> (r: Option<Value>)
    ensures
        wrapper_from(w, r),
{
    match w {
        Some(w) => Some(schema_or_null(w.schema)),
        None => None,
    }
}

/// The validator that one entry of the file describes.
pub fn validator_from_raw(raw: RawValidator) -> (v: BlueprintValidator)
    ensures
        validator_from(raw, v),
{
    let compiled_size_bytes = match &raw.compiled_code {
        Some(code) => Some(code.as_str().len() / 2),
        None => None,
    };
    let mut parameters: Vec<BlueprintParam> = Vec::new();
    match raw.parameters {
        Some(ps) => {
            let ghost ps0 = ps@;
            let mut ps = ps;
            while ps.len() > 0
                invariant
                    parameters.len() <= ps0.len(),
                    ps@ == ps0.skip(parameters.len() as int),
                    forall|i: int| 0 <= i < parameters.len() ==> param_from(
                        ps0[i],
                        #[trigger] parameters@[i],
                    ),
                decreases ps.len(),
            {
                let ghost k = parameters.len() as int;
                let p = ps.remove(0);
                assert(p == ps0[k]);
                let bp = BlueprintParam { title: p.title, schema: schema_or_null(p.schema) };
                parameters.push(bp);
                assert(ps@ =~= ps0.skip(k + 1));
            }
            assert(parameters.len() == ps0.len());
        },
        None => {},
    }
    BlueprintValidator {
        title: raw.title,
        hash: raw.hash,
        compiled_size_bytes,
        parameters,
        datum: wrapper_schema(raw.datum),
        redeemer: wrapper_schema(raw.redeemer),
    }
}

/// The blueprint a file describes: one validator per entry, in order, and
/// the whole document.
pub fn blueprint_from_raw(raw: Value, validators: Vec<RawValidator>) -> (b: Blueprint)
    ensures
        b.raw == raw,
        b.validators.len() == validators.len(),
        forall|i: int|
            0 <= i < validators.len() ==> validator_from(validators@[i], #[trigger] b.validators@[i]),
{
    let ghost vs0 = validators@;
    let mut vs = validators;
    let mut out: Vec<BlueprintValidator> = Vec::new();
    while vs.len() > 0
        invariant
            out.len() <= vs0.len(),
            vs@ == vs0.skip(out.len() as int),
            forall|i: int| 0 <= i < out.len() ==> validator_from(vs0[i], #[trigger] out@[i]),
        decreases vs.len(),
    {
        let ghost k = out.len() as int;
        let v = vs.remove(0);
        assert(v == vs0[k]);
        out.push(validator_from_raw(v));
        assert(vs@ =~= vs0.skip(k + 1));
    }
    Blueprint { validators: out, raw }
}

/// What a reported validator carries, for every entry of a blueprint: the
/// entry's title and hash as given; a compiled size exactly when the entry
/// has compiled code, and then half the code's length in UTF-8 bytes; one
/// parameter per listed parameter, in order, with its title and (when given)
/// its schema, and none when the entry lists none; and a datum and a
/// redeemer exactly when the entry has them, with the schema given.
pub proof fn law_validator_fields(raw: RawValidator, v: BlueprintValidator)
    requires
        validator_from(raw, v),
    ensures
        v.title == raw.title,
        v.hash == raw.hash,
        v.compiled_size_bytes is Some <==> raw.compiled_code is Some,
        raw.compiled_code matches Some(c) ==> v.compiled_size_bytes == Some(
            (vstd::utf8::encode_utf8(c@).len() as usize) / 2,
        ),
        raw.parameters is None ==> v.parameters.len() == 0,
        raw.parameters matches Some(ps) ==> (v.parameters.len() == ps.len() && forall|i: int|
            0 <= i < ps.len() ==> (#[trigger] v.parameters@[i]).title == ps@[i].title && (
            ps@[i].schema matches Some(sc) ==> v.parameters@[i].schema == sc)),
        v.datum is Some <==> raw.datum is Some,
        v.redeemer is Some <==> raw.redeemer is Some,
        raw.datum matches Some(w) ==> (w.schema matches Some(sc) ==> v.datum == Some(sc)),
        raw.redeemer matches Some(w) ==> (w.schema matches Some(sc) ==> v.redeemer == Some(sc)),
{
    match raw.parameters {
        Some(ps) => {
            assert forall|i: int| 0 <= i < ps.len() implies (#[trigger] v.parameters@[i]).title
                == ps@[i].title && (ps@[i].schema matches Some(sc) ==> v.parameters@[i].schema
                == sc) by {
                assert(param_from(ps@[i], v.parameters@[i]));
            }
        },
        None => {},
    }
}

/// A blueprint reports one validator per entry of the file, in order, each
/// carrying its entry's title and hash.
pub proof fn law_blueprint_validators(raw: Value, validators: Seq<RawValidator>, b: Blueprint)
    requires
        b.validators.len() == validators.len(),
        forall|i: int|
            0 <= i < validators.len() ==> validator_from(validators[i], #[trigger] b.validators@[i]),
    ensures
        forall|i: int|
            0 <= i < validators.len() ==> (#[trigger] b.validators@[i]).title == validators[i].title
                && b.validators@[i].hash == validators[i].hash,
{
}

/// Where a project's blueprint is: `<root>/plutus.json`.
pub fn blueprint_path(root: &str) -> (p: String)
    ensures
        p@ == joined(root@, "plutus.json"@),
{
    path_join(root, "plutus.json")
}

/// The error for a project without a blueprint file.
pub fn blueprint_missing(path: &str) -> (e: CoreError)
    ensures
        e matches CoreError::Other(m) && m@ == "plutus.json not found at "@ + path@
            + " (run `aiken build` first)"@,
{
    let mut m = String::from_str("plutus.json not found at ");
    m.append(path);
    m.append(" (run `aiken build` first)");
    CoreError::other(m)
}

} // verus!
