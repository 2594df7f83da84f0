//! Metadata parsing and the per-node activation decision.
//!
//! A node's annotation is a UTF-8 text expected to decode as a JSON object.
//! One key is recognized: `"collider"`. When its value is the string
//! `"true"`, the node's shapes become active colliders; when it is absent,
//! another string, or not a string, the decision is inactive. A text that is
//! not valid JSON is a content error that must be surfaced, never swallowed.

use crate::scene::meta_view;
use vstd::prelude::*;

verus! {

/// serde_json's error type, so the parse wrapper can hand it back.
#[verifier::external_type_specification]
#[verifier::external_body]
pub struct ExJsonError(serde_json::Error);

/// Whether serde_json parses this text as a JSON document. A function of the
/// text alone.
pub uninterp spec fn json_parses(text: Seq<char>) -> bool;

/// The string value at this key of the JSON document the text parses to:
/// `Some` exactly when the document is an object, the key is present and its
/// value is a JSON string. A function of the text and the key alone.
pub uninterp spec fn json_str_field(text: Seq<char>, key: Seq<char>) -> Option<Seq<char>>;

/// Relies on serde_json::from_str::<Value> for whether the text is valid
/// JSON (`json_parses`), and on serde_json::Value::get and Value::as_str for
/// the string value at a top-level key (`json_str_field`). Both are
/// deterministic in the text and key.
#[verifier::external_body]
fn json_lookup_str(text: &str, key: &str) -> (r: Result<Option<String>, serde_json::Error>)
    ensures
        (r is Ok) == json_parses(text@),
        r matches Ok(f) ==> meta_view(f) == json_str_field(text@, key@),
{
    match serde_json::from_str::<serde_json::Value>(text) {
        Ok(v) => Ok(
            match v.get(key) {
                Some(x) => match x.as_str() {
                    Some(s) => Some(s.to_string()),
                    None => None,
                },
                None => None,
            },
        ),
        Err(e) => Err(e),
    }
}

/// Whether an active collider responds with forces (solid) or only detects
/// overlap (sensor).
#[derive(Clone, Copy, PartialEq, Eq, Structural, Debug)]
pub enum ActivationMode {
    Inactive,
    Solid,
    Sensor,
}

/// The outcome for one (descriptor, metadata) pair: whether the collider is
/// materialized and how, whether collision events are reported, and whether
/// continuous collision detection guards it against tunneling.
#[derive(Clone, Copy, PartialEq, Eq, Structural, Debug)]
pub struct ActivationDecision {
    pub mode: ActivationMode,
    pub report_events: bool,
    pub continuous: bool,
}

/// Whether a collider that metadata enables defaults to sensor mode instead
/// of solid: an explicit configuration choice of the embedding application.
#[derive(Clone, Copy, PartialEq, Eq, Structural, Debug)]
pub struct ActivationConfig {
    pub sensor_default: bool,
}

/// A node's metadata was not valid JSON: a fatal content error for that
/// node's activation decision.
#[derive(Clone, Copy, PartialEq, Eq, Structural, Debug)]
pub struct MetadataError;

/// The decision for a node whose metadata enables its colliders: solid or
/// sensor per the configured default, with collision events reported and
/// continuous collision detection on.
pub open spec fn enabled_decision(cfg: ActivationConfig) -> ActivationDecision {
    ActivationDecision {
        mode: if cfg.sensor_default {
            ActivationMode::Sensor
        } else {
            ActivationMode::Solid
        },
        report_events: true,
        continuous: true,
    }
}

/// The decision for a node whose metadata does not enable its colliders.
pub open spec fn inactive_decision() -> ActivationDecision {
    ActivationDecision { mode: ActivationMode::Inactive, report_events: false, continuous: false }
}

/// What a metadata text decides: nothing when the text is not valid JSON, an
/// enabled decision exactly when the key `"collider"` holds the string
/// `"true"`, and an inactive decision otherwise.
pub open spec fn spec_decision(meta: Seq<char>, cfg: ActivationConfig) -> Option<
    ActivationDecision,
> {
    if !json_parses(meta) {
        None
    } else if json_str_field(meta, "collider"@) == Some("true"@) {
        Some(enabled_decision(cfg))
    } else {
        Some(inactive_decision())
    }
}

/// Decide activation from one node's raw metadata text. An error is returned
/// exactly when the text is not valid JSON; it must be reported, and no
/// collider is materialized for that node.
pub fn decide_activation(meta: &str, cfg: &ActivationConfig) -> (r: Result<
    ActivationDecision,
    MetadataError,
>)
    ensures
        (r is Ok) == json_parses(meta@),
        r matches Ok(d) ==> Some(d) == spec_decision(meta@, *cfg),
        (r is Err) == (spec_decision(meta@, *cfg) is None),
{
    match json_lookup_str(meta, "collider") {
        Err(_) => Err(MetadataError),
        Ok(field) => {
            let enabled = match &field {
                Some(s) => {
                    let wanted: String = "true".to_string();
                    *s == wanted
                },
                None => false,
            };
            if enabled {
                let mode = if cfg.sensor_default {
                    ActivationMode::Sensor
                } else {
                    ActivationMode::Solid
                };
                Ok(ActivationDecision { mode, report_events: true, continuous: true })
            } else {
                Ok(
                    ActivationDecision {
                        mode: ActivationMode::Inactive,
                        report_events: false,
                        continuous: false,
                    },
                )
            }
        },
    }
}

} // verus!
