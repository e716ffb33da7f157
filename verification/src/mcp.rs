//! The MCP protocol as the tool shed speaks it: JSON-RPC requests and
//! notifications it sends, the replies it reads, and what it makes of a
//! server's tool list and of a tool call's result.

use vstd::prelude::*;
use crate::error::ToolshedError;
use crate::json::{
    as_bool, as_i64, as_text, as_u64, bool_of, clone_json, field, field_of, i64_of, json_view, member, text_of, u64_of,
    Json, JsonValue,
};
use crate::text::{decimal, from_chars, join, join_strings, push_str, to_chars, u64_decimal};

verus! {

/// The MCP protocol version the tool shed speaks.
pub const MCP_PROTOCOL_VERSION: &'static str = "2024-11-05";

/// A JSON-RPC request.
#[derive(Debug)]
pub struct JsonRpcRequest {
    pub jsonrpc: String,
    pub id: u64,
    pub method: String,
    pub params: Option<JsonValue>,
}

/// A JSON-RPC notification: a request that wants no reply.
#[derive(Debug)]
pub struct JsonRpcNotification {
    pub jsonrpc: String,
    pub method: String,
    pub params: Option<JsonValue>,
}

/// The error of a JSON-RPC reply.
#[derive(Debug)]
pub struct JsonRpcError {
    pub code: i64,
    pub message: String,
    pub data: Option<JsonValue>,
}

/// A JSON-RPC reply.
#[derive(Debug)]
pub struct JsonRpcResponse {
    pub jsonrpc: String,
    pub id: Option<u64>,
    pub result: Option<JsonValue>,
    pub error: Option<JsonRpcError>,
}

/// What the client tells a server it can do: nothing in particular.
#[derive(Debug, Clone)]
pub struct ClientCapabilities {}

/// Who the client is.
#[derive(Debug, Clone)]
pub struct ClientInfo {
    pub name: String,
    pub version: String,
}

/// The parameters of `initialize`.
#[derive(Debug, Clone)]
pub struct InitializeParams {
    pub protocol_version: String,
    pub capabilities: ClientCapabilities,
    pub client_info: ClientInfo,
}

/// One item of a tool call's result.
#[derive(Debug)]
pub enum ContentItem {
    Text { text: String },
    Image { data: String, mime_type: String },
    Resource { resource: JsonValue },
}

/// The model of a content item.
pub enum Content {
    Text(Seq<char>),
    Image(Seq<char>, Seq<char>),
    Resource(Json),
}

impl View for ContentItem {
    type V = Content;

    open spec fn view(&self) -> Content {
        match self {
            ContentItem::Text { text } => Content::Text(text@),
            ContentItem::Image { data, mime_type } => Content::Image(data@, mime_type@),
            ContentItem::Resource { resource } => Content::Resource(resource@),
        }
    }
}

/// The models of content items.
pub open spec fn contents_view(s: Seq<ContentItem>) -> Seq<Content> {
    s.map_values(|c: ContentItem| c@)
}

/// The result of `tools/call`.
#[derive(Debug)]
pub struct ToolCallResult {
    pub content: Vec<ContentItem>,
    pub is_error: bool,
}

/// A tool as a server describes it.
#[derive(Debug)]
pub struct McpToolDef {
    pub name: String,
    pub description: Option<String>,
    pub input_schema: Option<JsonValue>,
}

/// The model of a tool description: name, description and input schema.
pub open spec fn tool_def_view(d: McpToolDef) -> (Seq<char>, Option<Seq<char>>, Option<Json>) {
    (d.name@, crate::audit::opt_chars(d.description), opt_json(d.input_schema))
}

/// The model of an optional value.
pub open spec fn opt_json(v: Option<JsonValue>) -> Option<Json> {
    match v {
        Some(x) => Some(x@),
        None => None,
    }
}

/// The result of `tools/list`: a page of tools, and where the next page
/// starts.
#[derive(Debug)]
pub struct ToolsListResult {
    pub tools: Vec<McpToolDef>,
    pub next_cursor: Option<String>,
}

impl JsonRpcRequest {
    /// A request with this id, method and parameters.
    pub fn new(id: u64, method: &str, params: Option<JsonValue>) -> (r: Self)
        ensures
            r.jsonrpc@ == "2.0"@,
            r.id == id,
            r.method@ == method@,
            r.params == params,
    {
        JsonRpcRequest { jsonrpc: "2.0".to_owned(), id, method: method.to_owned(), params }
    }
}

impl JsonRpcNotification {
    /// A notification with this method and parameters.
    pub fn new(method: &str, params: Option<JsonValue>) -> (r: Self)
        ensures
            r.jsonrpc@ == "2.0"@,
            r.method@ == method@,
            r.params == params,
    {
        JsonRpcNotification { jsonrpc: "2.0".to_owned(), method: method.to_owned(), params }
    }
}

impl InitializeParams {
    /// What the tool shed sends with `initialize`: the protocol version it
    /// speaks, no capabilities, and its name and version.
    pub fn default_params() -> (r: Self)
        ensures
            r.protocol_version@ == MCP_PROTOCOL_VERSION@,
            r.client_info.name@ == "toolshed"@,
            r.client_info.version@ == "0.1.0"@,
    {
        InitializeParams {
            protocol_version: MCP_PROTOCOL_VERSION.to_owned(),
            capabilities: ClientCapabilities {},
            client_info: ClientInfo { name: "toolshed".to_owned(), version: "0.1.0".to_owned() },
        }
    }
}

impl ContentItem {
    /// The text of a text item.
    pub fn as_text(&self) -> (r: Option<&str>)
        ensures
            match self@ {
                Content::Text(t) => r matches Some(s) && s@ == t,
                _ => r is None,
            },
    {
        match self {
            ContentItem::Text { text } => Some(text.as_str()),
            _ => None,
        }
    }
}

/// The JSON of a request: `jsonrpc`, `id`, `method`, then `params` when
/// there are any.
pub open spec fn request_json(r: JsonRpcRequest) -> Json {
    Json::Object(seq![("jsonrpc"@, Json::Str(r.jsonrpc@)), ("id"@, Json::Number(decimal(r.id as nat))), ("method"@, Json::Str(r.method@))]
        + match r.params {
            Some(p) => seq![("params"@, p@)],
            None => seq![],
        })
}

/// The JSON of a notification: `jsonrpc`, `method`, then `params` when
/// there are any.
pub open spec fn notification_json(n: JsonRpcNotification) -> Json {
    Json::Object(seq![("jsonrpc"@, Json::Str(n.jsonrpc@)), ("method"@, Json::Str(n.method@))] + match n.params {
        Some(p) => seq![("params"@, p@)],
        None => seq![],
    })
}

/// The JSON of the `initialize` parameters, keys in order.
pub open spec fn initialize_json(p: InitializeParams) -> Json {
    Json::Object(seq![
        ("capabilities"@, Json::Object(seq![])),
        ("clientInfo"@, Json::Object(seq![("name"@, Json::Str(p.client_info.name@)), ("version"@, Json::Str(p.client_info.version@))])),
        ("protocolVersion"@, Json::Str(p.protocol_version@)),
    ])
}

/// The JSON of the `tools/call` parameters, keys in order.
pub open spec fn tools_call_json(name: Seq<char>, arguments: Json) -> Json {
    Json::Object(seq![("arguments"@, arguments), ("name"@, Json::Str(name))])
}

/// The JSON of the parameters that ask for the page at `cursor`.
pub open spec fn cursor_json(cursor: Seq<char>) -> Json {
    Json::Object(seq![("cursor"@, Json::Str(cursor))])
}

fn str_value(s: &str) -> (r: JsonValue)
    ensures
        r@ == Json::Str(s@),
{
    JsonValue::String(s.to_owned())
}

/// The JSON of `r`.
pub fn request_to_json(r: &JsonRpcRequest) -> (v: JsonValue)
    ensures
        v@ == request_json(*r),
{
    let mut m: Vec<(String, JsonValue)> = Vec::new();
    m.push(("jsonrpc".to_owned(), str_value(r.jsonrpc.as_str())));
    m.push(("id".to_owned(), JsonValue::Number(from_chars(&u64_decimal(r.id)))));
    m.push(("method".to_owned(), str_value(r.method.as_str())));
    match &r.params {
        Some(p) => m.push(("params".to_owned(), clone_json(p))),
        None => {},
    }
    proof {
        crate::json::lemma_members_view(m@, m@.len());
        assert(crate::json::members_view(m@, m@.len()) =~= match request_json(*r) {
            Json::Object(x) => x,
            _ => seq![],
        });
    }
    JsonValue::Object(m)
}

/// The JSON of `n`.
pub fn notification_to_json(n: &JsonRpcNotification) -> (v: JsonValue)
    ensures
        v@ == notification_json(*n),
{
    let mut m: Vec<(String, JsonValue)> = Vec::new();
    m.push(("jsonrpc".to_owned(), str_value(n.jsonrpc.as_str())));
    m.push(("method".to_owned(), str_value(n.method.as_str())));
    match &n.params {
        Some(p) => m.push(("params".to_owned(), clone_json(p))),
        None => {},
    }
    proof {
        crate::json::lemma_members_view(m@, m@.len());
        assert(crate::json::members_view(m@, m@.len()) =~= match notification_json(*n) {
            Json::Object(x) => x,
            _ => seq![],
        });
    }
    JsonValue::Object(m)
}

/// The JSON of the `initialize` parameters.
pub fn initialize_to_json(p: &InitializeParams) -> (v: JsonValue)
    ensures
        v@ == initialize_json(*p),
{
    let mut info: Vec<(String, JsonValue)> = Vec::new();
    info.push(("name".to_owned(), str_value(p.client_info.name.as_str())));
    info.push(("version".to_owned(), str_value(p.client_info.version.as_str())));
    let caps: Vec<(String, JsonValue)> = Vec::new();
    let ghost cv = caps@;
    let mut m: Vec<(String, JsonValue)> = Vec::new();
    m.push(("capabilities".to_owned(), JsonValue::Object(caps)));
    m.push(("clientInfo".to_owned(), JsonValue::Object(info)));
    m.push(("protocolVersion".to_owned(), str_value(p.protocol_version.as_str())));
    proof {
        assert(crate::json::members_view(cv, 0) =~= seq![]);
        crate::json::lemma_members_view(info@, info@.len());
        assert(crate::json::members_view(info@, info@.len()) =~= seq![("name"@, Json::Str(p.client_info.name@)), ("version"@, Json::Str(p.client_info.version@))]);
        crate::json::lemma_members_view(m@, m@.len());
        assert(crate::json::members_view(m@, m@.len()) =~= match initialize_json(*p) {
            Json::Object(x) => x,
            _ => seq![],
        });
    }
    JsonValue::Object(m)
}

/// The parameters of `tools/call`: the tool to call and its arguments.
#[derive(Debug)]
pub struct ToolsCallParams {
    pub name: String,
    pub arguments: JsonValue,
}

/// The JSON of the `tools/call` parameters.
pub fn tools_call_to_json(p: ToolsCallParams) -> (v: JsonValue)
    ensures
        v@ == tools_call_json(p.name@, p.arguments@),
{
    let ghost a = p.arguments@;
    let ghost name = p.name@;
    let mut m: Vec<(String, JsonValue)> = Vec::new();
    m.push(("arguments".to_owned(), p.arguments));
    m.push(("name".to_owned(), JsonValue::String(p.name)));
    proof {
        crate::json::lemma_members_view(m@, m@.len());
        assert(crate::json::members_view(m@, m@.len()) =~= seq![("arguments"@, a), ("name"@, Json::Str(name))]);
    }
    JsonValue::Object(m)
}

/// The JSON of the parameters that ask for the page at `cursor`.
pub fn cursor_to_json(cursor: &str) -> (v: JsonValue)
    ensures
        v@ == cursor_json(cursor@),
{
    let mut m: Vec<(String, JsonValue)> = Vec::new();
    m.push(("cursor".to_owned(), str_value(cursor)));
    proof {
        crate::json::lemma_members_view(m@, m@.len());
        assert(crate::json::members_view(m@, m@.len()) =~= seq![("cursor"@, Json::Str(cursor@))]);
    }
    JsonValue::Object(m)
}


/// What a decoder says of a value that should be an object.
pub open spec fn expected_object() -> Seq<char> {
    "expected object"@
}

/// Whether a number's text is that of a floating-point number: it has a
/// decimal point or an exponent (the text of an integer has neither).
pub open spec fn float_text(t: Seq<char>) -> bool {
    exists|i: int| 0 <= i < t.len() && (t[i] == '.' || t[i] == 'e' || t[i] == 'E')
}

/// What `format!("{:?}", s)` gives for a string: the text quoted, with
/// Rust's debug escapes.
pub uninterp spec fn debug_text_of(s: Seq<char>) -> Seq<char>;

/// `<str as Debug>::fmt`: the text written as `{:?}` writes it, quoted and
/// escaped.
#[verifier::external_body]
fn debug_text(s: &str) -> (r: String)
    ensures
        r@ == debug_text_of(s@),
{
    format!("{:?}", s)
}

/// What serde_json reads from a number's text: whether it holds the number
/// as a floating-point value, and the text it writes for it; `None` for a
/// text it reads as no number.
pub uninterp spec fn number_reading_of(t: Seq<char>) -> Option<(bool, Seq<char>)>;

/// `<serde_json::Number as FromStr>::from_str`, then `Number::is_f64` and
/// the number's `Display`: how serde_json holds and writes the number that
/// `t` is.
#[verifier::external_body]
fn read_number(t: &str) -> (r: Option<(bool, String)>)
    ensures
        match r {
            Some((f, d)) => number_reading_of(t@) == Some((f, d@)),
            None => number_reading_of(t@) is None,
        },
{
    t.parse::<serde_json::Number>().ok().map(|n| (n.is_f64(), n.to_string()))
}

/// How a JSON decoder names a value it did not expect: its kind, with the
/// value itself for a boolean, a number or a string.
pub open spec fn unexpected_text(v: Json) -> Seq<char> {
    match v {
        Json::Null => "null"@,
        Json::Bool(b) => if b {
            "boolean `true`"@
        } else {
            "boolean `false`"@
        },
        Json::Number(t) => match number_reading_of(t) {
            Some((true, d)) => "floating point `"@ + d + "`"@,
            Some((false, d)) => "integer `"@ + d + "`"@,
            None => if float_text(t) {
                "floating point `"@ + t + "`"@
            } else {
                "integer `"@ + t + "`"@
            },
        },
        Json::Str(s) => "string "@ + debug_text_of(s),
        Json::Array(_) => "sequence"@,
        Json::Object(_) => "map"@,
    }
}

/// What a decoder says of a value `v` that should be an array.
pub open spec fn expected_array(v: Json) -> Seq<char> {
    "invalid type: "@ + unexpected_text(v) + ", expected a sequence"@
}

fn is_float_text(t: &str) -> (r: bool)
    ensures
        r == float_text(t@),
{
    let c = to_chars(t);
    let n = c.len();
    for i in 0..n
        invariant
            n == c@.len(),
            c@ == t@,
            forall|j: int| 0 <= j < i ==> !(c@[j] == '.' || c@[j] == 'e' || c@[j] == 'E'),
    {
        if c[i] == '.' || c[i] == 'e' || c[i] == 'E' {
            return true;
        }
    }
    false
}

/// What a decoder says of the value `v` where it wants an array.
fn not_a_sequence(v: &JsonValue) -> (r: String)
    ensures
        r@ == expected_array(v@),
{
    let mut o = to_chars("invalid type: ");
    match v {
        JsonValue::Null => push_str(&mut o, "null"),
        JsonValue::Bool(b) => if *b {
            push_str(&mut o, "boolean `true`")
        } else {
            push_str(&mut o, "boolean `false`")
        },
        JsonValue::Number(t) => {
            match read_number(t.as_str()) {
                Some((f, d)) => {
                    if f {
                        push_str(&mut o, "floating point `");
                    } else {
                        push_str(&mut o, "integer `");
                    }
                    push_str(&mut o, d.as_str());
                },
                None => {
                    if is_float_text(t.as_str()) {
                        push_str(&mut o, "floating point `");
                    } else {
                        push_str(&mut o, "integer `");
                    }
                    push_str(&mut o, t.as_str());
                },
            }
            push_str(&mut o, "`");
        },
        JsonValue::String(s) => {
            push_str(&mut o, "string ");
            push_str(&mut o, debug_text(s.as_str()).as_str());
        },
        JsonValue::Array(_) => push_str(&mut o, "sequence"),
        JsonValue::Object(_) => push_str(&mut o, "map"),
    }
    push_str(&mut o, ", expected a sequence");
    from_chars(&o)
}

/// A text, or the empty text.
pub open spec fn or_empty(t: Option<Seq<char>>) -> Seq<char> {
    match t {
        Some(s) => s,
        None => Seq::empty(),
    }
}

/// What a decoder says of a content item of an unknown type.
pub open spec fn unknown_variant(tag: Seq<char>) -> Seq<char> {
    "unknown variant `"@ + tag + "`, expected one of `text`, `image`, `resource`"@
}

/// The content item a value describes: by its `type`, a text, an image or
/// a resource.
pub open spec fn content_of(v: Json) -> Result<Content, Seq<char>> {
    match v {
        Json::Object(m) => {
            let tag = or_empty(text_of(member(m, "type"@)));
            if tag == "text"@ {
                Ok(Content::Text(or_empty(text_of(member(m, "text"@)))))
            } else if tag == "image"@ {
                Ok(Content::Image(or_empty(text_of(member(m, "data"@))), or_empty(text_of(member(m, "mimeType"@)))))
            } else if tag == "resource"@ {
                Ok(Content::Resource(match member(m, "resource"@) {
                    Some(r) => r,
                    None => Json::Null,
                }))
            } else {
                Err(unknown_variant(tag))
            }
        },
        _ => Err(expected_object()),
    }
}

/// The first `n` content items, or the first one that fails.
pub open spec fn contents_of(a: Seq<Json>, n: nat) -> Result<Seq<Content>, Seq<char>>
    decreases n,
{
    if n == 0 || n > a.len() {
        Ok(seq![])
    } else {
        match contents_of(a, (n - 1) as nat) {
            Err(e) => Err(e),
            Ok(done) => match content_of(a[n - 1]) {
                Err(e) => Err(e),
                Ok(c) => Ok(done.push(c)),
            },
        }
    }
}

/// The result of a tool call that a value describes: its content items
/// (none when absent) and whether it reports an error.
pub open spec fn call_result_of(v: Json) -> Result<(Seq<Content>, bool), Seq<char>> {
    match v {
        Json::Object(m) => {
            let is_error = match bool_of(member(m, "isError"@)) {
                Some(b) => b,
                None => false,
            };
            match member(m, "content"@) {
                None => Ok((seq![], is_error)),
                Some(Json::Array(a)) => match contents_of(a, a.len()) {
                    Ok(cs) => Ok((cs, is_error)),
                    Err(e) => Err(e),
                },
                Some(x) => Err(expected_array(x)),
            }
        },
        _ => Err(expected_object()),
    }
}

/// The texts of the text items, in order.
pub open spec fn texts_of(cs: Seq<Content>) -> Seq<Seq<char>>
    decreases cs.len(),
{
    if cs.len() == 0 {
        seq![]
    } else {
        let rest = texts_of(cs.drop_last());
        match cs.last() {
            Content::Text(t) => rest.push(t),
            _ => rest,
        }
    }
}

/// The output of a tool call: its text items, one per line.
pub open spec fn call_text(cs: Seq<Content>) -> Seq<char> {
    join(texts_of(cs), "\n"@)
}

impl ContentItem {
    /// The content item that `v` describes.
    pub fn from_json(v: &JsonValue) -> (r: Result<ContentItem, String>)
        ensures
            match content_of(v@) {
                Ok(c) => r matches Ok(x) && x@ == c,
                Err(e) => r matches Err(s) && s@ == e,
            },
    {
        match v {
            JsonValue::Object(_) => {
                let tag = match as_text(field(v, "type")) {
                    Some(t) => t,
                    None => String::new(),
                };
                let tc = to_chars(tag.as_str());
                if crate::text::chars_eq(&tc, &to_chars("text")) {
                    let text = match as_text(field(v, "text")) {
                        Some(t) => t,
                        None => String::new(),
                    };
                    Ok(ContentItem::Text { text })
                } else if crate::text::chars_eq(&tc, &to_chars("image")) {
                    let data = match as_text(field(v, "data")) {
                        Some(t) => t,
                        None => String::new(),
                    };
                    let mime_type = match as_text(field(v, "mimeType")) {
                        Some(t) => t,
                        None => String::new(),
                    };
                    Ok(ContentItem::Image { data, mime_type })
                } else if crate::text::chars_eq(&tc, &to_chars("resource")) {
                    let resource = match field(v, "resource") {
                        Some(x) => clone_json(x),
                        None => JsonValue::Null,
                    };
                    Ok(ContentItem::Resource { resource })
                } else {
                    let mut o = to_chars("unknown variant `");
                    push_str(&mut o, tag.as_str());
                    push_str(&mut o, "`, expected one of `text`, `image`, `resource`");
                    Err(from_chars(&o))
                }
            },
            _ => Err("expected object".to_owned()),
        }
    }
}

fn contents_from(a: &Vec<JsonValue>) -> (r: Result<Vec<ContentItem>, String>)
    ensures
        crate::json::items_view(a@, a@.len()).len() == a@.len(),
        match contents_of(crate::json::items_view(a@, a@.len()), a@.len()) {
            Ok(cs) => r matches Ok(x) && contents_view(x@) == cs,
            Err(e) => r matches Err(s) && s@ == e,
        },
{
    let ghost items = crate::json::items_view(a@, a@.len());
    proof {
        crate::json::lemma_items_view(a@, a@.len());
    }
    let mut out: Vec<ContentItem> = Vec::new();
    let n = a.len();
    assert(contents_view(out@) =~= seq![]);
    for i in 0..n
        invariant
            n == a@.len() == items.len(),
            items == crate::json::items_view(a@, a@.len()),
            forall|j: int| 0 <= j < n ==> #[trigger] items[j] == json_view(a@[j]),
            contents_of(items, i as nat) == Ok::<Seq<Content>, Seq<char>>(contents_view(out@)),
    {
        assert(items[i as int] == a@[i as int]@);
        match ContentItem::from_json(&a[i]) {
            Ok(c) => {
                let ghost before = out@;
                out.push(c);
                assert(contents_view(out@) =~= contents_view(before).push(c@));
            },
            Err(e) => {
                proof {
                    lemma_contents_err(items, (i + 1) as nat, n as nat);
                }
                return Err(e);
            },
        }
    }
    Ok(out)
}

proof fn lemma_contents_err(a: Seq<Json>, k: nat, n: nat)
    requires
        k <= n <= a.len(),
        contents_of(a, k) is Err,
    ensures
        contents_of(a, n) == contents_of(a, k),
    decreases n - k,
{
    if n > k {
        lemma_contents_err(a, k, (n - 1) as nat);
    }
}

impl ToolCallResult {
    /// The result of a tool call that `v` describes.
    pub fn from_json(v: &JsonValue) -> (r: Result<ToolCallResult, String>)
        ensures
            match call_result_of(v@) {
                Ok((cs, is_error)) => r matches Ok(x) && contents_view(x.content@) == cs && x.is_error == is_error,
                Err(e) => r matches Err(s) && s@ == e,
            },
    {
        match v {
            JsonValue::Object(_) => {
                let is_error = match as_bool(field(v, "isError")) {
                    Some(b) => b,
                    None => false,
                };
                match field(v, "content") {
                    None => {
                        let content: Vec<ContentItem> = Vec::new();
                        assert(contents_view(content@) =~= seq![]);
                        Ok(ToolCallResult { content, is_error })
                    },
                    Some(JsonValue::Array(a)) => match contents_from(a) {
                        Ok(content) => Ok(ToolCallResult { content, is_error }),
                        Err(e) => Err(e),
                    },
                    Some(x) => Err(not_a_sequence(x)),
                }
            },
            _ => Err("expected object".to_owned()),
        }
    }
}

fn call_text_of(content: &Vec<ContentItem>) -> (r: String)
    ensures
        r@ == call_text(contents_view(content@)),
{
    let mut parts: Vec<String> = Vec::new();
    let n = content.len();
    let ghost cv = contents_view(content@);
    for i in 0..n
        invariant
            n == content@.len() == cv.len(),
            cv == contents_view(content@),
            parts@.map_values(|p: String| p@) == texts_of(cv.take(i as int)),
    {
        assert(cv.take(i + 1).drop_last() == cv.take(i as int));
        assert(cv[i as int] == content@[i as int]@);
        match content[i].as_text() {
            Some(t) => {
                let ghost before = parts@;
                parts.push(t.to_owned());
                assert(parts@.map_values(|p: String| p@) =~= before.map_values(|p: String| p@).push(t@));
            },
            None => {},
        }
    }
    assert(cv.take(n as int) == cv);
    join_strings(&parts, "\n")
}

/// The output of a tool call whose result is `result`: its text items, one
/// per line; an error naming the tool when the result reports one or
/// cannot be read.
pub fn call_output(result: &JsonValue, tool: &str) -> (r: Result<String, ToolshedError>)
    ensures
        match call_result_of(result@) {
            Err(e) => r matches Err(ToolshedError::McpBadResponse { tool: t, reason }) && t@ == tool@
                && reason@ == "bad tools/call response: "@ + e,
            Ok((cs, is_error)) => if is_error {
                r matches Err(ToolshedError::McpRpcError { tool: t, code, message }) && t@ == tool@ && code == -1
                    && message@ == call_text(cs)
            } else {
                r matches Ok(s) && s@ == call_text(cs)
            },
        },
{
    match ToolCallResult::from_json(result) {
        Err(e) => {
            let mut o = to_chars("bad tools/call response: ");
            push_str(&mut o, e.as_str());
            Err(ToolshedError::McpBadResponse { tool: tool.to_owned(), reason: from_chars(&o) })
        },
        Ok(cr) => {
            let text = call_text_of(&cr.content);
            if cr.is_error {
                Err(ToolshedError::McpRpcError { tool: tool.to_owned(), code: -1, message: text })
            } else {
                Ok(text)
            }
        },
    }
}

/// The error of a reply that a value describes: its code (0 when absent),
/// message (empty when absent) and data.
pub open spec fn rpc_error_of(v: Json) -> Result<(i64, Seq<char>, Option<Json>), Seq<char>> {
    match v {
        Json::Object(m) => Ok((
            match i64_of(member(m, "code"@)) {
                Some(c) => c,
                None => 0,
            },
            or_empty(text_of(member(m, "message"@))),
            member(m, "data"@),
        )),
        _ => Err(expected_object()),
    }
}

/// The reply a value describes: its id, result and error.
pub open spec fn response_of(v: Json) -> Result<(Option<u64>, Option<Json>, Option<(i64, Seq<char>, Option<Json>)>), Seq<char>> {
    match v {
        Json::Object(m) => match member(m, "error"@) {
            None => Ok((u64_of(member(m, "id"@)), member(m, "result"@), None)),
            Some(e) => match rpc_error_of(e) {
                Ok(err) => Ok((u64_of(member(m, "id"@)), member(m, "result"@), Some(err))),
                Err(x) => Err(x),
            },
        },
        _ => Err(expected_object()),
    }
}

/// The model of a reply.
pub open spec fn response_view(r: JsonRpcResponse) -> (Option<u64>, Option<Json>, Option<(i64, Seq<char>, Option<Json>)>) {
    (r.id, opt_json(r.result), match r.error {
        Some(e) => Some((e.code, e.message@, opt_json(e.data))),
        None => None,
    })
}

fn opt_clone(v: Option<&JsonValue>) -> (r: Option<JsonValue>)
    ensures
        opt_json(r) == match v {
            Some(x) => Some(x@),
            None => None,
        },
{
    match v {
        Some(x) => Some(clone_json(x)),
        None => None,
    }
}

impl JsonRpcResponse {
    /// The reply that `v` describes.
    pub fn from_json(v: &JsonValue) -> (r: Result<JsonRpcResponse, String>)
        ensures
            match response_of(v@) {
                Ok(x) => r matches Ok(resp) && response_view(resp) == x,
                Err(e) => r matches Err(s) && s@ == e,
            },
    {
        match v {
            JsonValue::Object(_) => {
                let jsonrpc = match as_text(field(v, "jsonrpc")) {
                    Some(t) => t,
                    None => "2.0".to_owned(),
                };
                let id = as_u64(field(v, "id"));
                let result = opt_clone(field(v, "result"));
                let error = match field(v, "error") {
                    None => None,
                    Some(e) => match e {
                        JsonValue::Object(_) => {
                            let code = match as_i64(field(e, "code")) {
                                Some(c) => c,
                                None => 0,
                            };
                            let message = match as_text(field(e, "message")) {
                                Some(t) => t,
                                None => String::new(),
                            };
                            let data = opt_clone(field(e, "data"));
                            Some(JsonRpcError { code, message, data })
                        },
                        _ => {
                            return Err("expected object".to_owned());
                        },
                    },
                };
                Ok(JsonRpcResponse { jsonrpc, id, result, error })
            },
            _ => Err("expected object".to_owned()),
        }
    }
}

/// What a reply gives: its error as the tool's error, else its result,
/// else an error saying `missing`.
pub fn reply_result(resp: &JsonRpcResponse, tool: &str, missing: &str) -> (r: Result<JsonValue, ToolshedError>)
    ensures
        match resp.error {
            Some(e) => r matches Err(ToolshedError::McpRpcError { tool: t, code, message }) && t@ == tool@
                && code == e.code && message@ == e.message@,
            None => match resp.result {
                Some(v) => r matches Ok(x) && x@ == v@,
                None => r matches Err(ToolshedError::McpBadResponse { tool: t, reason }) && t@ == tool@
                    && reason@ == missing@,
            },
        },
{
    match &resp.error {
        Some(e) => Err(ToolshedError::McpRpcError { tool: tool.to_owned(), code: e.code, message: e.message.clone() }),
        None => match &resp.result {
            Some(v) => Ok(clone_json(v)),
            None => Err(ToolshedError::McpBadResponse { tool: tool.to_owned(), reason: missing.to_owned() }),
        },
    }
}

/// What a line read from a server over stdio means for the request `id`:
/// nothing when it is no reply, or a reply to another request; else the
/// reply's result or error.
pub fn stdio_reply(line: &JsonValue, id: u64, tool: &str) -> (r: Option<Result<JsonValue, ToolshedError>>)
    ensures
        match response_of(line@) {
            Err(_) => r is None,
            Ok((rid, result, error)) => if rid != Some(id) {
                r is None
            } else {
                match error {
                    Some((code, message, _)) => r matches Some(Err(ToolshedError::McpRpcError { tool: t, code: c, message: m }))
                        && t@ == tool@ && c == code && m@ == message,
                    None => match result {
                        Some(v) => r matches Some(Ok(x)) && x@ == v,
                        None => r matches Some(Err(ToolshedError::McpBadResponse { tool: t, reason })) && t@ == tool@
                            && reason@ == "response has no result"@,
                    },
                }
            },
        },
{
    match JsonRpcResponse::from_json(line) {
        Err(_) => None,
        Ok(resp) => {
            if resp.id == Some(id) {
                Some(reply_result(&resp, tool, "response has no result"))
            } else {
                None
            }
        },
    }
}


/// The tool description that a value gives: its name (empty when
/// absent), description and input schema.
pub open spec fn tool_def_of(v: Json) -> Result<(Seq<char>, Option<Seq<char>>, Option<Json>), Seq<char>> {
    match v {
        Json::Object(m) => Ok((or_empty(text_of(member(m, "name"@))), text_of(member(m, "description"@)), member(m, "inputSchema"@))),
        _ => Err(expected_object()),
    }
}

/// The first `n` tool descriptions, or the first one that fails.
pub open spec fn tool_defs_of(a: Seq<Json>, n: nat) -> Result<Seq<(Seq<char>, Option<Seq<char>>, Option<Json>)>, Seq<char>>
    decreases n,
{
    if n == 0 || n > a.len() {
        Ok(seq![])
    } else {
        match tool_defs_of(a, (n - 1) as nat) {
            Err(e) => Err(e),
            Ok(done) => match tool_def_of(a[n - 1]) {
                Err(e) => Err(e),
                Ok(d) => Ok(done.push(d)),
            },
        }
    }
}

/// A page of `tools/list`: its tools (none when absent) and the cursor of
/// the next page.
pub open spec fn list_result_of(v: Json) -> Result<(Seq<(Seq<char>, Option<Seq<char>>, Option<Json>)>, Option<Seq<char>>), Seq<char>> {
    match v {
        Json::Object(m) => {
            let cursor = text_of(member(m, "nextCursor"@));
            match member(m, "tools"@) {
                None => Ok((seq![], cursor)),
                Some(Json::Array(a)) => match tool_defs_of(a, a.len()) {
                    Ok(ds) => Ok((ds, cursor)),
                    Err(e) => Err(e),
                },
                Some(x) => Err(expected_array(x)),
            }
        },
        _ => Err(expected_object()),
    }
}

/// The models of tool descriptions.
pub open spec fn tool_defs_view(s: Seq<McpToolDef>) -> Seq<(Seq<char>, Option<Seq<char>>, Option<Json>)> {
    s.map_values(|d: McpToolDef| tool_def_view(d))
}

impl McpToolDef {
    /// The tool description that `v` gives.
    pub fn from_json(v: &JsonValue) -> (r: Result<McpToolDef, String>)
        ensures
            match tool_def_of(v@) {
                Ok(d) => r matches Ok(x) && tool_def_view(x) == d,
                Err(e) => r matches Err(s) && s@ == e,
            },
    {
        match v {
            JsonValue::Object(_) => {
                let name = match as_text(field(v, "name")) {
                    Some(t) => t,
                    None => String::new(),
                };
                let description = as_text(field(v, "description"));
                let input_schema = opt_clone(field(v, "inputSchema"));
                Ok(McpToolDef { name, description, input_schema })
            },
            _ => Err("expected object".to_owned()),
        }
    }
}

proof fn lemma_tool_defs_err(a: Seq<Json>, k: nat, n: nat)
    requires
        k <= n <= a.len(),
        tool_defs_of(a, k) is Err,
    ensures
        tool_defs_of(a, n) == tool_defs_of(a, k),
    decreases n - k,
{
    if n > k {
        lemma_tool_defs_err(a, k, (n - 1) as nat);
    }
}

fn tool_defs_from(a: &Vec<JsonValue>) -> (r: Result<Vec<McpToolDef>, String>)
    ensures
        crate::json::items_view(a@, a@.len()).len() == a@.len(),
        match tool_defs_of(crate::json::items_view(a@, a@.len()), a@.len()) {
            Ok(ds) => r matches Ok(x) && tool_defs_view(x@) == ds,
            Err(e) => r matches Err(s) && s@ == e,
        },
{
    let ghost items = crate::json::items_view(a@, a@.len());
    proof {
        crate::json::lemma_items_view(a@, a@.len());
    }
    let mut out: Vec<McpToolDef> = Vec::new();
    let n = a.len();
    assert(tool_defs_view(out@) =~= seq![]);
    for i in 0..n
        invariant
            n == a@.len() == items.len(),
            items == crate::json::items_view(a@, a@.len()),
            forall|j: int| 0 <= j < n ==> #[trigger] items[j] == json_view(a@[j]),
            tool_defs_of(items, i as nat) == Ok::<Seq<(Seq<char>, Option<Seq<char>>, Option<Json>)>, Seq<char>>(tool_defs_view(out@)),
    {
        assert(items[i as int] == a@[i as int]@);
        match McpToolDef::from_json(&a[i]) {
            Ok(d) => {
                let ghost before = out@;
                out.push(d);
                assert(tool_defs_view(out@) =~= tool_defs_view(before).push(tool_def_view(d)));
            },
            Err(e) => {
                proof {
                    lemma_tool_defs_err(items, (i + 1) as nat, n as nat);
                }
                return Err(e);
            },
        }
    }
    Ok(out)
}

impl ToolsListResult {
    /// The page of `tools/list` that `v` gives.
    pub fn from_json(v: &JsonValue) -> (r: Result<ToolsListResult, String>)
        ensures
            match list_result_of(v@) {
                Ok((ds, cursor)) => r matches Ok(x) && tool_defs_view(x.tools@) == ds
                    && crate::audit::opt_chars(x.next_cursor) == cursor,
                Err(e) => r matches Err(s) && s@ == e,
            },
    {
        match v {
            JsonValue::Object(_) => {
                let next_cursor = as_text(field(v, "nextCursor"));
                match field(v, "tools") {
                    None => {
                        let tools: Vec<McpToolDef> = Vec::new();
                        assert(tool_defs_view(tools@) =~= seq![]);
                        Ok(ToolsListResult { tools, next_cursor })
                    },
                    Some(JsonValue::Array(a)) => match tool_defs_from(a) {
                        Ok(tools) => Ok(ToolsListResult { tools, next_cursor }),
                        Err(e) => Err(e),
                    },
                    Some(x) => Err(not_a_sequence(x)),
                }
            },
            _ => Err("expected object".to_owned()),
        }
    }
}

/// Reads a page of `tools/list` from its result: its tools, and the cursor
/// of the next page when there is a non-empty one.
pub fn list_page(result: &JsonValue, tool: &str) -> (r: Result<(Vec<McpToolDef>, Option<String>), ToolshedError>)
    ensures
        match list_result_of(result@) {
            Err(e) => r matches Err(ToolshedError::McpBadResponse { tool: t, reason }) && t@ == tool@
                && reason@ == "bad tools/list response: "@ + e,
            Ok((ds, cursor)) => r matches Ok((tools, next)) && tool_defs_view(tools@) == ds
                && crate::audit::opt_chars(next) == match cursor {
                    Some(c) => if c.len() > 0 {
                        Some(c)
                    } else {
                        None
                    },
                    None => None,
                },
        },
{
    match ToolsListResult::from_json(result) {
        Err(e) => {
            let mut o = to_chars("bad tools/list response: ");
            push_str(&mut o, e.as_str());
            Err(ToolshedError::McpBadResponse { tool: tool.to_owned(), reason: from_chars(&o) })
        },
        Ok(list) => {
            let next = match list.next_cursor {
                Some(c) => if !c.as_str().is_empty() {
                    Some(c)
                } else {
                    None
                },
                None => None,
            };
            Ok((list.tools, next))
        },
    }
}

/// A parameter of an MCP tool, as help shows it.
#[derive(Debug, Clone)]
pub struct ParamInfo {
    pub name: String,
    pub param_type: String,
    pub required: bool,
    pub description: Option<String>,
}

/// An MCP tool, as help shows it.
#[derive(Debug, Clone)]
pub struct McpToolInfo {
    pub name: String,
    pub description: Option<String>,
    pub params: Vec<ParamInfo>,
}

/// The model of a parameter: name, type, whether it is required, and
/// description.
pub open spec fn param_view(p: ParamInfo) -> (Seq<char>, Seq<char>, bool, Option<Seq<char>>) {
    (p.name@, p.param_type@, p.required, crate::audit::opt_chars(p.description))
}

/// How a parameter is written in a signature: `name: type`, with a `?`
/// after an optional one's name.
pub open spec fn param_signature(p: ParamInfo) -> Seq<char> {
    p.name@ + (if p.required {
        Seq::empty()
    } else {
        "?"@
    }) + ": "@ + p.param_type@
}

impl McpToolInfo {
    /// The parameters as a signature: `query: string, limit?: number`.
    pub fn format_params(&self) -> (r: String)
        ensures
            r@ == join(self.params@.map_values(|p: ParamInfo| param_signature(p)), ", "@),
    {
        let mut parts: Vec<String> = Vec::new();
        let n = self.params.len();
        for i in 0..n
            invariant
                n == self.params@.len(),
                parts@.len() == i,
                forall|j: int| 0 <= j < i ==> #[trigger] parts@[j]@ == param_signature(self.params@[j]),
        {
            let p = &self.params[i];
            let mut l = to_chars(p.name.as_str());
            if !p.required {
                push_str(&mut l, "?");
            }
            push_str(&mut l, ": ");
            push_str(&mut l, p.param_type.as_str());
            parts.push(from_chars(&l));
        }
        assert(parts@.map_values(|p: String| p@) =~= self.params@.map_values(|p: ParamInfo| param_signature(p)));
        join_strings(&parts, ", ")
    }
}

/// The texts among the first `n` items.
pub open spec fn strings_among(a: Seq<Json>, n: nat) -> Seq<Seq<char>>
    decreases n,
{
    if n == 0 || n > a.len() {
        seq![]
    } else {
        let rest = strings_among(a, (n - 1) as nat);
        match a[n - 1] {
            Json::Str(t) => rest.push(t),
            _ => rest,
        }
    }
}

/// The names that a schema lists as required.
pub open spec fn required_names(schema: Json) -> Seq<Seq<char>> {
    match field_of(schema, "required"@) {
        Some(Json::Array(a)) => strings_among(a, a.len()),
        _ => seq![],
    }
}

/// The parameter that a property of a schema describes: its type (`any`
/// when none is given) and description, and whether the schema requires
/// it.
pub open spec fn param_of(name: Seq<char>, prop: Json, required: Seq<Seq<char>>) -> (Seq<char>, Seq<char>, bool, Option<Seq<char>>) {
    (
        name,
        match text_of(field_of(prop, "type"@)) {
            Some(t) => t,
            None => "any"@,
        },
        required.contains(name),
        text_of(field_of(prop, "description"@)),
    )
}

/// The parameters of a tool: one per property of its input schema, in the
/// order of the properties.
pub open spec fn params_of(schema: Option<Json>) -> Seq<(Seq<char>, Seq<char>, bool, Option<Seq<char>>)> {
    match schema {
        Some(s) => match field_of(s, "properties"@) {
            Some(Json::Object(props)) => Seq::new(props.len(), |i: int| param_of(props[i].0, props[i].1, required_names(s))),
            _ => seq![],
        },
        None => seq![],
    }
}

fn required_list(schema: &JsonValue) -> (r: Vec<String>)
    ensures
        r@.map_values(|x: String| x@) == required_names(schema@),
{
    let mut out: Vec<String> = Vec::new();
    match field(schema, "required") {
        Some(JsonValue::Array(a)) => {
            let ghost items = crate::json::items_view(a@, a@.len());
            proof {
                crate::json::lemma_items_view(a@, a@.len());
            }
            let n = a.len();
            for i in 0..n
                invariant
                    n == a@.len() == items.len(),
                    items == crate::json::items_view(a@, a@.len()),
                    forall|j: int| 0 <= j < n ==> #[trigger] items[j] == json_view(a@[j]),
                    out@.map_values(|x: String| x@) == strings_among(items, i as nat),
            {
                assert(items[i as int] == a@[i as int]@);
                match &a[i] {
                    JsonValue::String(t) => {
                        let ghost before = out@;
                        out.push(t.clone());
                        assert(out@.map_values(|x: String| x@) =~= before.map_values(|x: String| x@).push(t@));
                    },
                    _ => {},
                }
            }
        },
        _ => {
            assert(out@.map_values(|x: String| x@) =~= seq![]);
        },
    }
    out
}

fn contains_name(names: &Vec<String>, name: &str) -> (r: bool)
    ensures
        r == names@.map_values(|x: String| x@).contains(name@),
{
    let ghost nv = names@.map_values(|x: String| x@);
    let n = names.len();
    for i in 0..n
        invariant
            n == names@.len() == nv.len(),
            nv == names@.map_values(|x: String| x@),
            forall|j: int| 0 <= j < i ==> nv[j] != name@,
    {
        if crate::text::chars_eq(&to_chars(names[i].as_str()), &to_chars(name)) {
            assert(nv[i as int] == name@);
            return true;
        }
    }
    false
}

/// What help shows of a tool that a server describes: its name and
/// description, and a parameter for each property of its input schema.
pub fn convert_tool_def(def: &McpToolDef) -> (r: McpToolInfo)
    ensures
        r.name@ == def.name@,
        crate::audit::opt_chars(r.description) == crate::audit::opt_chars(def.description),
        r.params@.map_values(|p: ParamInfo| param_view(p)) == params_of(opt_json(def.input_schema)),
{
    let mut params: Vec<ParamInfo> = Vec::new();
    match &def.input_schema {
        Some(schema) => {
            match field(schema, "properties") {
                Some(JsonValue::Object(props)) => {
                    let required = required_list(schema);
                    let ghost pv = crate::json::members_view(props@, props@.len());
                    proof {
                        crate::json::lemma_members_view(props@, props@.len());
                    }
                    let n = props.len();
                    for i in 0..n
                        invariant
                            n == props@.len() == pv.len(),
                            pv == crate::json::members_view(props@, props@.len()),
                            forall|j: int| 0 <= j < n ==> #[trigger] pv[j] == (props@[j].0@, json_view(props@[j].1)),
                            required@.map_values(|x: String| x@) == required_names(schema@),
                            params@.len() == i,
                            forall|j: int|
                                0 <= j < i ==> #[trigger] param_view(params@[j]) == param_of(pv[j].0, pv[j].1, required_names(schema@)),
                    {
                        let (name, prop) = &props[i];
                        assert(pv[i as int] == (name@, prop@));
                        let param_type = match as_text(field(prop, "type")) {
                            Some(t) => t,
                            None => "any".to_owned(),
                        };
                        let description = as_text(field(prop, "description"));
                        let is_required = contains_name(&required, name.as_str());
                        params.push(ParamInfo { name: name.clone(), param_type, required: is_required, description });
                    }
                    assert(params@.map_values(|p: ParamInfo| param_view(p)) =~= params_of(opt_json(def.input_schema)));
                },
                _ => {
                    assert(params@.map_values(|p: ParamInfo| param_view(p)) =~= params_of(opt_json(def.input_schema)));
                },
            }
        },
        None => {
            assert(params@.map_values(|p: ParamInfo| param_view(p)) =~= params_of(opt_json(def.input_schema)));
        },
    }
    McpToolInfo { name: def.name.clone(), description: def.description.clone(), params }
}

/// The `--key value` pairs of a command line for an MCP tool: a `--key`
/// takes the next word as its value, or none when it is the last word;
/// other words are ignored.
pub open spec fn arg_pairs(s: Seq<Seq<char>>) -> Seq<(Seq<char>, Option<Seq<char>>)>
    decreases s.len(),
{
    if s.len() == 0 {
        seq![]
    } else if crate::text::starts_with(s[0], "--"@) {
        if s.len() >= 2 {
            seq![(s[0].skip(2), Some(s[1]))] + arg_pairs(s.skip(2))
        } else {
            seq![(s[0].skip(2), None)]
        }
    } else {
        arg_pairs(s.skip(1))
    }
}

/// The `--key value` pairs of the words given to an MCP tool.
pub fn mcp_arg_pairs(args: &Vec<String>) -> (r: Vec<(String, Option<String>)>)
    ensures
        r@.map_values(|p: (String, Option<String>)| (p.0@, crate::audit::opt_chars(p.1))) == arg_pairs(
            args@.map_values(|a: String| a@),
        ),
{
    let ghost all = args@.map_values(|a: String| a@);
    let mut out: Vec<(String, Option<String>)> = Vec::new();
    let n = args.len();
    let mut i: usize = 0;
    assert(all.skip(0) == all);
    assert(out@.map_values(|p: (String, Option<String>)| (p.0@, crate::audit::opt_chars(p.1))) =~= seq![]);
    while i < n
        invariant
            n == args@.len() == all.len(),
            all == args@.map_values(|a: String| a@),
            i <= n,
            arg_pairs(all) == out@.map_values(|p: (String, Option<String>)| (p.0@, crate::audit::opt_chars(p.1)))
                + arg_pairs(all.skip(i as int)),
        decreases n - i,
    {
        let ghost t = all.skip(i as int);
        assert(t[0] == args@[i as int]@);
        let w = to_chars(args[i].as_str());
        let ghost before = out@.map_values(|p: (String, Option<String>)| (p.0@, crate::audit::opt_chars(p.1)));
        if crate::text::starts_with_vec(w.as_slice(), &['-', '-']) {
            assert(seq!['-', '-'] == "--"@) by {
                reveal_strlit("--");
            }
            let key = from_chars(&crate::text::subvec(w.as_slice(), 2, w.len()));
            assert(key@ == t[0].skip(2));
            if i + 1 < n {
                assert(t[1] == args@[i + 1]@);
                assert(t.skip(2) == all.skip(i + 2));
                out.push((key, Some(args[i + 1].clone())));
                assert(out@.map_values(|p: (String, Option<String>)| (p.0@, crate::audit::opt_chars(p.1)))
                    =~= before.push((t[0].skip(2), Some(t[1]))));
                assert(before + arg_pairs(t) =~= before.push((t[0].skip(2), Some(t[1]))) + arg_pairs(all.skip(i + 2)));
                i = i + 2;
            } else {
                out.push((key, None));
                assert(out@.map_values(|p: (String, Option<String>)| (p.0@, crate::audit::opt_chars(p.1)))
                    =~= before.push((t[0].skip(2), None)));
                assert(all.skip(i + 1) == Seq::<Seq<char>>::empty());
                assert(before + arg_pairs(t) =~= before.push((t[0].skip(2), None)) + arg_pairs(all.skip(i + 1)));
                i = i + 1;
            }
        } else {
            assert(seq!['-', '-'] == "--"@) by {
                reveal_strlit("--");
            }
            assert(t.skip(1) == all.skip(i + 1));
            i = i + 1;
        }
    }
    assert(all.skip(n as int) == Seq::<Seq<char>>::empty());
    assert(out@.map_values(|p: (String, Option<String>)| (p.0@, crate::audit::opt_chars(p.1))) + Seq::<(Seq<char>, Option<Seq<char>>)>::empty()
        =~= out@.map_values(|p: (String, Option<String>)| (p.0@, crate::audit::opt_chars(p.1))));
    out
}

/// The value each name was last given among `pairs`.
pub open spec fn last_values(pairs: Seq<(Seq<char>, Json)>) -> Map<Seq<char>, Json>
    decreases pairs.len(),
{
    if pairs.len() == 0 {
        Map::empty()
    } else {
        last_values(pairs.drop_last()).insert(pairs.last().0, pairs.last().1)
    }
}

/// The member of `key` in members whose keys are distinct is the one at
/// the index that holds the key.
proof fn lemma_member_at(m: Seq<(Seq<char>, Json)>, key: Seq<char>, j: int)
    requires
        0 <= j < m.len(),
        m[j].0 == key,
        forall|i: int| 0 <= i < j ==> (#[trigger] m[i]).0 != key,
    ensures
        member(m, key) == Some(m[j].1),
    decreases j,
{
    if j > 0 {
        let t = m.drop_first();
        assert forall|i: int| 0 <= i < j - 1 implies (#[trigger] t[i]).0 != key by {
            assert(t[i] == m[i + 1]);
        }
        lemma_member_at(t, key, j - 1);
    }
}

/// A key that no member holds has no member.
proof fn lemma_member_absent(m: Seq<(Seq<char>, Json)>, key: Seq<char>)
    requires
        forall|i: int| 0 <= i < m.len() ==> (#[trigger] m[i]).0 != key,
    ensures
        member(m, key) is None,
    decreases m.len(),
{
    if m.len() > 0 {
        let t = m.drop_first();
        assert forall|i: int| 0 <= i < t.len() implies (#[trigger] t[i]).0 != key by {
            assert(t[i] == m[i + 1]);
        }
        lemma_member_absent(t, key);
    }
}

/// The arguments of an MCP call as an object: one member for each name, in
/// name order, holding the value the name was last given.
pub fn arguments_object(pairs: &Vec<(String, JsonValue)>) -> (r: JsonValue)
    ensures
        r@ matches Json::Object(m) && (forall|i: int, j: int|
            0 <= i < j < m.len() ==> crate::namemap::str_lt(#[trigger] m[i].0, #[trigger] m[j].0)) && (forall|k: Seq<char>|
            #[trigger] member(m, k) == if last_values(pairs@.map_values(|p: (String, JsonValue)| (p.0@, p.1@))).contains_key(k) {
                Some(last_values(pairs@.map_values(|p: (String, JsonValue)| (p.0@, p.1@)))[k])
            } else {
                None
            }),
{
    broadcast use crate::namemap::NameMap::lemma_lengths;

    let ghost pv = pairs@.map_values(|p: (String, JsonValue)| (p.0@, p.1@));
    let mut last: crate::namemap::NameMap<usize> = crate::namemap::NameMap::new();
    let n = pairs.len();
    for i in 0..n
        invariant
            n == pairs@.len() == pv.len(),
            pv == pairs@.map_values(|p: (String, JsonValue)| (p.0@, p.1@)),
            last.wf(),
            last@.dom() == last_values(pv.take(i as int)).dom(),
            forall|k: Seq<char>| #[trigger] last@.contains_key(k) ==> last@[k] < i && pv[last@[k] as int].1
                == last_values(pv.take(i as int))[k],
    {
        assert(pv.take(i + 1).drop_last() == pv.take(i as int));
        assert(pv[i as int] == (pairs@[i as int].0@, pairs@[i as int].1@));
        last.insert(pairs[i].0.clone(), i);
    }
    assert(pv.take(n as int) == pv);
    let mut out: Vec<(String, JsonValue)> = Vec::new();
    let len = last.len();
    for j in 0..len
        invariant
            len == last.spec_len(),
            n == pairs@.len() == pv.len(),
            pv == pairs@.map_values(|p: (String, JsonValue)| (p.0@, p.1@)),
            last.wf(),
            forall|k: Seq<char>| #[trigger] last@.contains_key(k) ==> last@[k] < n && pv[last@[k] as int].1
                == last_values(pv)[k],
            out@.len() == j,
            forall|t: int| 0 <= t < j ==> (#[trigger] out@[t]).0@ == last.keys()[t] && out@[t].1@
                == last_values(pv)[last.keys()[t]],
    {
        proof {
            last.lemma_entry(j as int);
        }
        let idx = *last.value_at(j);
        assert(pv[idx as int] == (pairs@[idx as int].0@, pairs@[idx as int].1@));
        out.push((last.key_at(j).clone(), clone_json(&pairs[idx].1)));
    }
    let ghost ov = out@;
    let ghost mv = crate::json::members_view(ov, ov.len());
    proof {
        crate::json::lemma_members_view(ov, ov.len());
        assert forall|a: int, b: int| 0 <= a < b < mv.len() implies crate::namemap::str_lt(#[trigger] mv[a].0, #[trigger] mv[b].0) by {
            last.lemma_keys_ascending(a, b);
        }
        assert forall|k: Seq<char>| #[trigger] member(mv, k) == if last_values(pv).contains_key(k) {
            Some(last_values(pv)[k])
        } else {
            None
        } by {
            last.lemma_contains(k);
            if last@.contains_key(k) {
                let j = last.keys().index_of(k);
                assert forall|i: int| 0 <= i < j implies (#[trigger] mv[i]).0 != k by {
                    last.lemma_keys_distinct(i, j);
                }
                lemma_member_at(mv, k, j);
            } else {
                assert forall|i: int| 0 <= i < mv.len() implies (#[trigger] mv[i]).0 != k by {
                    assert(last.keys().contains(last.keys()[i]));
                }
                lemma_member_absent(mv, k);
            }
        }
    }
    JsonValue::Object(out)
}

} // verus!
