//! Tools a bot may call, the calls it makes and their results.
//!
//! Tool schemas and call arguments are JSON objects. They cross this crate's
//! boundary verbatim: nothing here reads inside them, they are carried
//! through to and from the backends.

use std::sync::Arc;
use vstd::prelude::*;

verus! {

/// serde_json's JSON value, declared so it can stand in fields and
/// signatures. Values of it are carried through opaquely.
#[verifier::external_type_specification]
#[verifier::external_body]
pub struct ExJsonValue(serde_json::Value);

/// serde_json's JSON object type, declared so it can stand in fields and
/// signatures. Values of it are carried through opaquely.
#[verifier::external_type_specification]
#[verifier::external_body]
#[verifier::reject_recursive_types(K)]
#[verifier::reject_recursive_types(V)]
pub struct ExJsonMap<K, V>(serde_json::Map<K, V>);

/// Relies on serde_json's `Clone` for `Map`: nothing is stated of the
/// copy, JSON objects being opaque here.
pub assume_specification[ <serde_json::Map<
    String,
    serde_json::Value,
> as Clone>::clone ](m: &serde_json::Map<String, serde_json::Value>) -> serde_json::Map<
    String,
    serde_json::Value,
>;

/// Relies on serde_json's `Map::new`: makes a new empty JSON object.
#[verifier::external_body]
fn new_json_object() -> serde_json::Map<String, serde_json::Value> {
    serde_json::Map::new()
}

/// A tool a bot may be offered: its name, an optional description, and the
/// JSON Schema object defining its expected parameters.
#[derive(Clone, Debug)]
pub struct Tool {
    pub name: String,
    pub description: Option<String>,
    /// JSON Schema object defining the expected parameters for the tool.
    pub input_schema: Arc<serde_json::Map<String, serde_json::Value>>,
}

impl Tool {
    /// A tool with the given name and description, expecting no parameters.
    pub fn new(name: String, description: Option<String>) -> (r: Self)
        ensures
            r.name == name,
            r.description == description,
    {
        Tool { name, description, input_schema: Arc::new(new_json_object()) }
    }
}

/// Permission status for tool call execution.
#[derive(Clone, Copy, PartialEq, Eq, Structural, Debug, Default)]
pub enum ToolCallPermissionStatus {
    /// Waiting for a user decision.
    #[default]
    Pending,
    /// The user approved execution.
    Approved,
    /// The user denied execution.
    Denied,
}

/// A function/tool call made by the AI.
#[derive(Clone, Debug, PartialEq)]
pub struct ToolCall {
    /// Unique identifier for this tool call.
    pub id: String,
    /// Name of the tool/function to call.
    pub name: String,
    /// Arguments passed to the tool, as a JSON object.
    pub arguments: serde_json::Map<String, serde_json::Value>,
    /// Permission status for this tool call.
    pub permission_status: ToolCallPermissionStatus,
}

/// The result of a tool call execution.
#[derive(Clone, Debug, PartialEq)]
pub struct ToolResult {
    /// The tool call ID this result corresponds to.
    pub tool_call_id: String,
    /// The result content from the tool execution.
    pub content: String,
    /// Whether the tool call failed.
    pub is_error: bool,
}

} // verus!
