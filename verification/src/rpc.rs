//! JSON-RPC 2.0 messages as MCP uses them.
//!
//! The guard inspects only what it needs: the method, and for a tool call or
//! a resource read the name and the arguments in the parameters.
use vstd::prelude::*;

use crate::json::{is_first_key, lemma_first_key_unique, opt_data, JsonData, JsonValue};

verus! {

/// A JSON-RPC 2.0 message payload.
#[derive(Debug, Clone)]
pub struct JsonRpcMessage {
    /// The protocol version, typically "2.0".
    pub jsonrpc: String,
    /// Optional request identifier.
    pub id: Option<JsonValue>,
    /// The method name, if this is a request.
    pub method: Option<String>,
    /// The parameters of the request.
    pub params: Option<JsonValue>,
    /// The result payload, if this is a success response.
    pub result: Option<JsonValue>,
    /// The error payload, if this is an error response.
    pub error: Option<JsonValue>,
}

/// The parameters of a tool call or a resource read.
#[derive(Debug, Clone)]
pub struct McpRequestParams {
    /// The name of the tool or resource.
    pub name: String,
    /// The arguments passed to the tool or resource.
    pub arguments: Option<JsonValue>,
}

/// The content of request parameters: the name and the arguments.
pub open spec fn params_data(p: McpRequestParams) -> (Seq<char>, Option<JsonData>) {
    (p.name@, opt_data(p.arguments))
}

/// The content of optional request parameters.
pub open spec fn opt_params_data(p: Option<McpRequestParams>) -> Option<(Seq<char>, Option<JsonData>)> {
    match p {
        Some(x) => Some(params_data(x)),
        None => None,
    }
}

/// Whether the entry at `i` is the only one named `key`.
pub open spec fn only_key_at(entries: Seq<(String, JsonValue)>, key: Seq<char>, i: int) -> bool {
    &&& 0 <= i < entries.len()
    &&& entries[i].0@ == key
    &&& forall|j: int| 0 <= j < entries.len() && j != i ==> #[trigger] entries[j].0@ != key
}

/// Whether no entry is named `key`.
pub open spec fn key_absent(entries: Seq<(String, JsonValue)>, key: Seq<char>) -> bool {
    forall|j: int| 0 <= j < entries.len() ==> #[trigger] entries[j].0@ != key
}

/// The arguments that an optional field holds: `null` counts as absent.
pub open spec fn optional_field(v: JsonValue) -> Option<JsonData> {
    if v is Null {
        None
    } else {
        Some(v.data())
    }
}

/// Request parameters read from an object: exactly one `name` entry, whose
/// value is a string, and at most one `arguments` entry; other entries are
/// ignored.
pub open spec fn params_from_entries(entries: Seq<(String, JsonValue)>) -> Option<(Seq<char>, Option<JsonData>)> {
    if (exists|n: int| only_key_at(entries, "name"@, n)) && (key_absent(entries, "arguments"@) || exists|
        a: int,
    | only_key_at(entries, "arguments"@, a)) {
        let n = choose|n: int| only_key_at(entries, "name"@, n);
        match entries[n].1 {
            JsonValue::Str(s) => {
                let arguments = if key_absent(entries, "arguments"@) {
                    None
                } else {
                    let a = choose|a: int| only_key_at(entries, "arguments"@, a);
                    optional_field(entries[a].1)
                };
                Some((s@, arguments))
            },
            _ => None,
        }
    } else {
        None
    }
}

/// Request parameters read from an array: the name, then optionally the
/// arguments, and nothing more.
pub open spec fn params_from_items(items: Seq<JsonValue>) -> Option<(Seq<char>, Option<JsonData>)> {
    if 1 <= items.len() <= 2 {
        match items[0] {
            JsonValue::Str(s) => Some(
                (s@, if items.len() == 2 { optional_field(items[1]) } else { None }),
            ),
            _ => None,
        }
    } else {
        None
    }
}

/// The request parameters that a JSON value holds, if it holds any.
pub open spec fn params_from_value(v: JsonValue) -> Option<(Seq<char>, Option<JsonData>)> {
    match v {
        JsonValue::Object(entries) => params_from_entries(entries@),
        JsonValue::Array(items) => params_from_items(items@),
        _ => None,
    }
}

/// The error object of an error response.
pub open spec fn error_object(code: int, message: Seq<char>) -> JsonData {
    JsonData::Object(seq![("code"@, JsonData::Int(code)), ("message"@, JsonData::Str(message))])
}

/// The value of the first entry named `key`, if there is one.
pub open spec fn field_value(entries: Seq<(String, JsonValue)>, key: Seq<char>) -> Option<JsonValue> {
    if exists|i: int| is_first_key(entries, key, i) {
        Some(entries[choose|i: int| is_first_key(entries, key, i)].1)
    } else {
        None
    }
}

/// Whether no two entries have the same key, as in an object that a JSON
/// parser builds.
pub open spec fn keys_distinct(entries: Seq<(String, JsonValue)>) -> bool {
    forall|i: int, j: int|
        0 <= i < entries.len() && 0 <= j < entries.len() && i != j ==> #[trigger] entries[i].0@
            != #[trigger] entries[j].0@
}

/// With distinct keys, the first entry named `key` is the only one, and
/// where there is none the key is absent.
proof fn lemma_distinct_key_lookup(entries: Seq<(String, JsonValue)>, key: Seq<char>)
    requires
        keys_distinct(entries),
    ensures
        forall|i: int| is_first_key(entries, key, i) <==> only_key_at(entries, key, i),
        (exists|i: int| only_key_at(entries, key, i)) || key_absent(entries, key),
        key_absent(entries, key) <==> field_value(entries, key) is None,
        field_value(entries, key) matches Some(v) ==> exists|i: int|
            only_key_at(entries, key, i) && v == entries[i].1,
{
    assert forall|i: int| is_first_key(entries, key, i) implies only_key_at(entries, key, i) by {
        assert forall|j: int| 0 <= j < entries.len() && j != i implies #[trigger] entries[j].0@
            != key by {
            assert(entries[i].0@ != entries[j].0@);
        }
    }
    if !key_absent(entries, key) {
        let j = choose|j: int| 0 <= j < entries.len() && entries[j].0@ == key;
        assert(only_key_at(entries, key, j)) by {
            assert forall|m: int| 0 <= m < entries.len() && m != j implies #[trigger] entries[m].0@
                != key by {
                assert(entries[m].0@ != entries[j].0@);
            }
        }
        assert(is_first_key(entries, key, j));
        let c = choose|i: int| is_first_key(entries, key, i);
        lemma_first_key_unique(entries, key, c, j);
    } else {
        assert forall|i: int| !is_first_key(entries, key, i) by {
            if 0 <= i < entries.len() {
                assert(entries[i].0@ != key);
            }
        }
    }
}

/// For an object whose keys are distinct, the parameters are its `name`
/// when that is a string, with its `arguments` where present and not `null`;
/// without a string `name` there are none.
pub proof fn law_params_from_object(entries: Seq<(String, JsonValue)>)
    requires
        keys_distinct(entries),
    ensures
        params_from_entries(entries) == match field_value(entries, "name"@) {
            Some(JsonValue::Str(s)) => Some(
                (
                    s@,
                    match field_value(entries, "arguments"@) {
                        Some(v) => optional_field(v),
                        None => None,
                    },
                ),
            ),
            _ => None,
        },
{
    lemma_distinct_key_lookup(entries, "name"@);
    lemma_distinct_key_lookup(entries, "arguments"@);
    if exists|n: int| only_key_at(entries, "name"@, n) {
        let n = choose|n: int| only_key_at(entries, "name"@, n);
        let f = choose|i: int| is_first_key(entries, "name"@, i);
        assert(is_first_key(entries, "name"@, n));
        lemma_first_key_unique(entries, "name"@, f, n);
        if !key_absent(entries, "arguments"@) {
            let a = choose|a: int| only_key_at(entries, "arguments"@, a);
            let g = choose|i: int| is_first_key(entries, "arguments"@, i);
            assert(is_first_key(entries, "arguments"@, a));
            lemma_first_key_unique(entries, "arguments"@, g, a);
        }
    }
}

/// Looks for the entry named `key`; `Err(())` when there are two.
fn find_only_key(entries: &Vec<(String, JsonValue)>, key: &str) -> (r: Result<Option<usize>, ()>)
    ensures
        match r {
            Ok(Some(i)) => only_key_at(entries@, key@, i as int),
            Ok(None) => key_absent(entries@, key@),
            Err(_) => !key_absent(entries@, key@) && !exists|i: int| only_key_at(entries@, key@, i),
        },
{
    let wanted = String::from_str(key);
    let mut found: Option<usize> = None;
    let mut i: usize = 0;
    while i < entries.len()
        invariant
            wanted@ == key@,
            i <= entries@.len(),
            match found {
                Some(f) => f < i && entries@[f as int].0@ == key@ && forall|j: int|
                    0 <= j < i && j != f ==> #[trigger] entries@[j].0@ != key@,
                None => forall|j: int| 0 <= j < i ==> #[trigger] entries@[j].0@ != key@,
            },
        decreases entries@.len() - i,
    {
        if entries[i].0 == wanted {
            match found {
                Some(f) => {
                    assert(entries@[f as int].0@ == key@);
                    assert forall|k: int| !only_key_at(entries@, key@, k) by {
                        if only_key_at(entries@, key@, k) {
                            if k == f as int {
                                assert(entries@[i as int].0@ != key@);
                            } else {
                                assert(entries@[f as int].0@ != key@);
                            }
                        }
                    }
                    return Err(());
                },
                None => {
                    found = Some(i);
                },
            }
        }
        i = i + 1;
    }
    Ok(found)
}

impl JsonRpcMessage {
    /// Checks if this message represents an MCP tool execution request.
    pub fn is_tool_call(&self) -> (r: bool)
        ensures
            r == (self.method matches Some(m) && m@ == "tools/call"@),
    {
        match &self.method {
            Some(m) => *m == String::from_str("tools/call"),
            None => false,
        }
    }

    /// Checks if this message represents an MCP resource read request.
    pub fn is_resource_read(&self) -> (r: bool)
        ensures
            r == (self.method matches Some(m) && m@ == "resources/read"@),
    {
        match &self.method {
            Some(m) => *m == String::from_str("resources/read"),
            None => false,
        }
    }

    /// Extracts the inner parameters if they match the expected shape of an
    /// MCP request.
    pub fn extract_mcp_params(&self) -> (r: Option<McpRequestParams>)
        ensures
            opt_params_data(r) == match self.params {
                Some(v) => params_from_value(v),
                None => None,
            },
    {
        match &self.params {
            Some(JsonValue::Object(entries)) => {
                let name_at = match find_only_key(entries, "name") {
                    Ok(Some(n)) => n,
                    _ => return None,
                };
                let arguments_at = match find_only_key(entries, "arguments") {
                    Ok(a) => a,
                    Err(_) => return None,
                };
                proof {
                    let c = choose|c: int| only_key_at(entries@, "name"@, c);
                    assert(c == name_at as int) by {
                        if c != name_at as int {
                            assert(entries@[c].0@ != "name"@);
                        }
                    }
                    if let Some(a) = arguments_at {
                        let d = choose|d: int| only_key_at(entries@, "arguments"@, d);
                        assert(d == a as int) by {
                            if d != a as int {
                                assert(entries@[d].0@ != "arguments"@);
                            }
                        }
                    }
                }
                let name = match &entries[name_at].1 {
                    JsonValue::Str(s) => s.clone(),
                    _ => return None,
                };
                let arguments = match arguments_at {
                    Some(a) => if entries[a].1.is_null() {
                        None
                    } else {
                        Some(entries[a].1.duplicate())
                    },
                    None => None,
                };
                Some(McpRequestParams { name, arguments })
            },
            Some(JsonValue::Array(items)) => {
                if items.len() < 1 || items.len() > 2 {
                    return None;
                }
                let name = match &items[0] {
                    JsonValue::Str(s) => s.clone(),
                    _ => return None,
                };
                let arguments = if items.len() == 2 && !items[1].is_null() {
                    Some(items[1].duplicate())
                } else {
                    None
                };
                Some(McpRequestParams { name, arguments })
            },
            _ => None,
        }
    }

    /// Creates a JSON-RPC error response to this message, indicating that the
    /// action was blocked.
    pub fn create_error_response(&self, error_code: i32, message: &str) -> (r: Self)
        ensures
            r.jsonrpc@ == "2.0"@,
            opt_data(r.id) == opt_data(self.id),
            r.method is None,
            r.params is None,
            r.result is None,
            opt_data(r.error) == Some(error_object(error_code as int, message@)),
    {
        let id = match &self.id {
            Some(v) => Some(v.duplicate()),
            None => None,
        };
        let code_key = String::from_str("code");
        let message_key = String::from_str("message");
        let text = String::from_str(message);
        let mut entries: Vec<(String, JsonValue)> = Vec::new();
        entries.push((code_key, JsonValue::Int(error_code as i64)));
        entries.push((message_key, JsonValue::Str(text)));
        let ghost es = entries@;
        let error = JsonValue::Object(entries);
        assert(error.data() == error_object(error_code as int, message@)) by {
            assert(es.len() == 2);
            assert(es[0].0@ == "code"@ && es[1].0@ == "message"@);
            assert(es[0].1.data() == JsonData::Int(error_code as int));
            assert(es[1].1.data() == JsonData::Str(message@));
            if let JsonData::Object(d) = error.data() {
                assert(d =~= seq![("code"@, JsonData::Int(error_code as int)), ("message"@, JsonData::Str(message@))]);
            }
        }
        JsonRpcMessage {
            jsonrpc: String::from_str("2.0"),
            id,
            method: None,
            params: None,
            result: None,
            error: Some(error),
        }
    }
}

} // verus!
