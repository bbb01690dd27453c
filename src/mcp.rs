//! How results and descriptors of an MCP server become tool results and tool
//! descriptors.
use vstd::prelude::*;
use crate::json::{Json, JsonV, jviews, mviews, copy_json};
use crate::text::{owned, push_text};
use crate::tool::Tool;

verus! {

#[verifier::external_type_specification]
#[verifier::external_body]
pub struct ExValue(serde_json::Value);

/// What parsing the text `s` as JSON gives; nothing where it is not JSON.
pub uninterp spec fn parsed_json(s: Seq<char>) -> Option<JsonV>;

/// Relies on `serde_json::from_str`: the document that `text` denotes, or an error
/// where it is not JSON. The value is carried over member for member.
#[verifier::external_body]
fn parse_json(text: &str) -> (r: Option<Json>)
    ensures
        match r {
            Some(j) => parsed_json(text@) == Some(j@),
            None => parsed_json(text@) is None,
        },
{
    match serde_json::from_str::<serde_json::Value>(text) {
        Ok(v) => Some(json_of_value(&v)),
        Err(_) => None,
    }
}

/// Carries a `serde_json::Value` over into a `Json`, variant for variant; a number
/// keeps its decimal text.
#[verifier::external_body]
fn json_of_value(v: &serde_json::Value) -> Json {
    match v {
        serde_json::Value::Null => Json::Null,
        serde_json::Value::Bool(b) => Json::Bool(*b),
        serde_json::Value::Number(n) => Json::Number(n.to_string()),
        serde_json::Value::String(s) => Json::Str(s.clone()),
        serde_json::Value::Array(a) => Json::Array(a.iter().map(json_of_value).collect()),
        serde_json::Value::Object(m) => Json::Object(
            m.iter().map(|(k, x)| (k.clone(), json_of_value(x))).collect(),
        ),
    }
}

/// A failure of an MCP client.
pub enum McpClientError {
    Transport(String),
    Mcp(String),
    EmptyContent,
}

impl McpClientError {
    pub open spec fn text(&self) -> Seq<char> {
        match self {
            McpClientError::Transport(m) => "transport error: "@ + m@,
            McpClientError::Mcp(m) => "mcp error: "@ + m@,
            McpClientError::EmptyContent => "tool response missing content"@,
        }
    }

    /// The error as text.
    pub fn to_string(&self) -> (r: String)
        ensures
            r@ == self.text(),
    {
        match self {
            McpClientError::Transport(m) => {
                let mut r = owned("transport error: ");
                push_text(&mut r, m.as_str());
                r
            },
            McpClientError::Mcp(m) => {
                let mut r = owned("mcp error: ");
                push_text(&mut r, m.as_str());
                r
            },
            McpClientError::EmptyContent => owned("tool response missing content"),
        }
    }
}

/// One item of a tool result's content.
pub enum McpContent {
    Text(String),
    Image { data: String, mime_type: String },
    Audio { data: String, mime_type: String },
    /// An embedded resource, as JSON.
    Resource(Json),
    /// A link to a resource, as JSON.
    ResourceLink(Json),
}

pub open spec fn member(key: Seq<char>, v: JsonV) -> (Seq<char>, JsonV) {
    (key, v)
}

/// The value of a text item, given what parsing it gave: the parsed document, or
/// the text itself as a string where it is not JSON.
pub open spec fn text_json(text: Seq<char>, parsed: Option<JsonV>) -> JsonV {
    match parsed {
        Some(v) => v,
        None => JsonV::Str(text),
    }
}

/// The value of the text item `text`, given `parsed`, what parsing it gave.
pub fn text_value(text: &str, parsed: Option<Json>) -> (r: Json)
    ensures
        r@ == text_json(
            text@,
            match parsed {
                Some(v) => Some(v@),
                None => None,
            },
        ),
{
    match parsed {
        Some(v) => v,
        None => Json::Str(owned(text)),
    }
}

/// The JSON value of one content item.
pub open spec fn content_value(c: McpContent) -> JsonV {
    match c {
        McpContent::Text(t) => text_json(t@, parsed_json(t@)),
        McpContent::Image { data, mime_type } => JsonV::Object(
            seq![
                member("type"@, JsonV::Str("image"@)),
                member("data"@, JsonV::Str(data@)),
                member("mime_type"@, JsonV::Str(mime_type@)),
            ],
        ),
        McpContent::Audio { data, mime_type } => JsonV::Object(
            seq![
                member("type"@, JsonV::Str("audio"@)),
                member("data"@, JsonV::Str(data@)),
                member("mime_type"@, JsonV::Str(mime_type@)),
            ],
        ),
        McpContent::Resource(r) => JsonV::Object(
            seq![member("type"@, JsonV::Str("resource"@)), member("resource"@, r@)],
        ),
        McpContent::ResourceLink(r) => JsonV::Object(
            seq![member("type"@, JsonV::Str("resource_link"@)), member("resource"@, r@)],
        ),
    }
}

fn str_member(key: &str, value: &str) -> (r: (String, Json))
    ensures
        r.0@ == key@,
        r.1@ == JsonV::Str(value@),
{
    (owned(key), Json::Str(owned(value)))
}

/// A JSON object with the given members, in order.
fn object_of(members: Vec<(String, Json)>) -> (r: Json)
    ensures
        r@ == JsonV::Object(mviews(members@)),
{
    let r = Json::Object(members);
    proof {
        crate::json::lemma_container_view(&r);
    }
    r
}

/// The JSON value of one content item: a text's JSON where it parses, else the
/// text as a string; media and resources as objects tagged with their `type`.
pub fn content_to_value(content: &McpContent) -> (r: Json)
    ensures
        r@ == content_value(*content),
{
    match content {
        McpContent::Text(t) => text_value(t.as_str(), parse_json(t.as_str())),
        McpContent::Image { data, mime_type } => {
            let mut m: Vec<(String, Json)> = Vec::new();
            m.push(str_member("type", "image"));
            m.push(str_member("data", data.as_str()));
            m.push(str_member("mime_type", mime_type.as_str()));
            let r = object_of(m);
            assert(r@->Object_0 =~= content_value(*content)->Object_0);
            r
        },
        McpContent::Audio { data, mime_type } => {
            let mut m: Vec<(String, Json)> = Vec::new();
            m.push(str_member("type", "audio"));
            m.push(str_member("data", data.as_str()));
            m.push(str_member("mime_type", mime_type.as_str()));
            let r = object_of(m);
            assert(r@->Object_0 =~= content_value(*content)->Object_0);
            r
        },
        McpContent::Resource(res) => {
            let mut m: Vec<(String, Json)> = Vec::new();
            m.push(str_member("type", "resource"));
            m.push((owned("resource"), copy_json(res)));
            let r = object_of(m);
            assert(r@->Object_0 =~= content_value(*content)->Object_0);
            r
        },
        McpContent::ResourceLink(res) => {
            let mut m: Vec<(String, Json)> = Vec::new();
            m.push(str_member("type", "resource_link"));
            m.push((owned("resource"), copy_json(res)));
            let r = object_of(m);
            assert(r@->Object_0 =~= content_value(*content)->Object_0);
            r
        },
    }
}

/// The JSON value of a whole content list: the single item's value, or an array
/// of the items' values.
pub open spec fn contents_value(cs: Seq<McpContent>) -> JsonV {
    if cs.len() == 1 {
        content_value(cs[0])
    } else {
        JsonV::Array(Seq::new(cs.len(), |i: int| content_value(cs[i])))
    }
}

pub fn contents_to_value(contents: &Vec<McpContent>) -> (r: Json)
    ensures
        r@ == contents_value(contents@),
{
    if contents.len() == 1 {
        return content_to_value(&contents[0]);
    }
    let mut items: Vec<Json> = Vec::new();
    let mut i: usize = 0;
    while i < contents.len()
        invariant
            i <= contents@.len(),
            items@.len() == i,
            forall|k: int| 0 <= k < i ==> #[trigger] items@[k]@ == content_value(contents@[k]),
        decreases contents@.len() - i,
    {
        items.push(content_to_value(&contents[i]));
        i = i + 1;
    }
    let r = Json::Array(items);
    proof {
        crate::json::lemma_container_view(&r);
        assert(jviews(items@) =~= Seq::new(contents@.len(), |k: int| content_value(contents@[k])));
    }
    r
}

/// The value of a call's result: its structured content where there is one, else
/// the value of its content list; a result with neither is an error.
pub fn call_output(structured: Option<Json>, content: &Vec<McpContent>) -> (r: Result<
    Json,
    McpClientError,
>)
    ensures
        match structured {
            Some(s) => r is Ok && r->Ok_0@ == s@,
            None => if content@.len() > 0 {
                r is Ok && r->Ok_0@ == contents_value(content@)
            } else {
                r is Err && r->Err_0 is EmptyContent
            },
        },
{
    match structured {
        Some(s) => Ok(s),
        None => if content.len() > 0 {
            Ok(contents_to_value(content))
        } else {
            Err(McpClientError::EmptyContent)
        },
    }
}

/// The argument object sent for `arguments`: none for `null`, an object as it is,
/// and any other value under the member `value`.
pub fn call_arguments(arguments: Json) -> (r: Option<Vec<(String, Json)>>)
    ensures
        match arguments@ {
            JsonV::Null => r is None,
            JsonV::Object(m) => r is Some && mviews(r->Some_0@) == m,
            v => r is Some && mviews(r->Some_0@) == seq![member("value"@, v)],
        },
{
    match arguments {
        Json::Null => None,
        Json::Object(m) => {
            proof {
                crate::json::lemma_container_view(&arguments);
            }
            Some(m)
        },
        other => {
            let ghost v = other@;
            let mut m: Vec<(String, Json)> = Vec::new();
            m.push((owned("value"), other));
            assert(mviews(m@) =~= seq![member("value"@, v)]);
            Some(m)
        },
    }
}

/// A descriptor for a server's tool: async, untagged, with an empty object as
/// its output schema where the server gives none.
pub fn convert_tool(
    name: String,
    description: Option<String>,
    input_schema: Vec<(String, Json)>,
    output_schema: Option<Vec<(String, Json)>>,
) -> (r: Tool)
    ensures
        r@.name == name@,
        r@.description == match description {
            Some(d) => d@,
            None => Seq::<char>::empty(),
        },
        r@.tags == Seq::<Seq<char>>::empty(),
        r@.inputs == JsonV::Object(mviews(input_schema@)),
        r@.outputs == JsonV::Object(
            match output_schema {
                Some(o) => mviews(o@),
                None => Seq::empty(),
            },
        ),
        r@.is_async,
{
    let outputs = match output_schema {
        Some(o) => object_of(o),
        None => {
            let e: Vec<(String, Json)> = Vec::new();
            assert(mviews(e@) =~= Seq::<(Seq<char>, JsonV)>::empty());
            object_of(e)
        },
    };
    let r = Tool {
        name,
        description: match description {
            Some(d) => d,
            None => String::new(),
        },
        tags: Vec::new(),
        inputs: object_of(input_schema),
        outputs,
        is_async: true,
    };
    assert(r@.tags =~= Seq::<Seq<char>>::empty());
    r
}

} // verus!
