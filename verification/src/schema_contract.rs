//! The contract of the structured output: the identifier that every
//! envelope carries, and the schema that it names.

use vstd::prelude::*;

verus! {

/// The identifier of the schema, carried by every envelope under `$schema`.
pub const SCHEMA_URL: &'static str =
    "https://github.com/kleverhq/wavepeek/blob/v0.1.0/schema/wavepeek.json";

/// The canonical JSON schema of the envelope.
pub const CANONICAL_SCHEMA_JSON: &'static str = r##"{
  "$schema": "https://json-schema.org/draft/2020-12/schema",
  "$id": "https://github.com/kleverhq/wavepeek/blob/v0.1.0/schema/wavepeek.json",
  "title": "wavepeek output envelope",
  "type": "object",
  "required": ["$schema", "command", "data", "warnings"],
  "additionalProperties": false,
  "properties": {
    "$schema": { "type": "string" },
    "command": { "enum": ["schema", "info", "scope", "signal"] },
    "data": {
      "anyOf": [
        { "type": "string" },
        { "$ref": "#/$defs/info" },
        { "type": "array", "items": { "$ref": "#/$defs/scope" } },
        { "type": "array", "items": { "$ref": "#/$defs/signal" } }
      ]
    },
    "warnings": { "type": "array", "items": { "type": "string" } }
  },
  "$defs": {
    "info": {
      "type": "object",
      "required": ["time_unit", "time_start", "time_end"],
      "additionalProperties": false,
      "properties": {
        "time_unit": { "type": "string" },
        "time_start": { "type": "string" },
        "time_end": { "type": "string" }
      }
    },
    "scope": {
      "type": "object",
      "required": ["path", "depth", "kind"],
      "additionalProperties": false,
      "properties": {
        "path": { "type": "string" },
        "depth": { "type": "integer", "minimum": 0 },
        "kind": { "type": "string" }
      }
    },
    "signal": {
      "type": "object",
      "required": ["name", "path", "kind"],
      "additionalProperties": false,
      "properties": {
        "name": { "type": "string" },
        "path": { "type": "string" },
        "kind": {
          "enum": ["wire", "reg", "logic", "integer", "real", "string", "parameter", "unknown"]
        },
        "width": { "type": "integer", "minimum": 0 }
      }
    }
  }
}
"##;

/// The text of the schema identifier.
pub open spec fn schema_url_text() -> Seq<char> {
    SCHEMA_URL@
}

/// The text of the canonical schema.
pub open spec fn canonical_schema_text() -> Seq<char> {
    CANONICAL_SCHEMA_JSON@
}

/// The identifier of the schema.
pub fn schema_url() -> (r: &'static str)
    ensures
        r@ == schema_url_text(),
{
    SCHEMA_URL
}

/// The canonical schema.
pub fn canonical_schema_json() -> (r: &'static str)
    ensures
        r@ == canonical_schema_text(),
{
    CANONICAL_SCHEMA_JSON
}

} // verus!
