//! The wire-envelope and protocol payload types, with their mathematical
//! views. Arbitrary JSON payloads (request parameters, results, schemas,
//! embedded resources) are carried as raw JSON text.

use vstd::prelude::*;

use crate::text::{trim, trim_spec, int_dec_str, push_i64_dec};

verus! {

/// The text that one content item contributes to the flat rendering of a
/// call result.
pub open spec fn content_text(c: ContentV) -> Seq<char> {
    match c {
        ContentV::Text { text } => text + "\n"@,
        ContentV::Image { .. } => "[Image Content from MCP Tool]\n"@,
        ContentV::EmbeddedResource { .. } => "[Embedded Resource from MCP Tool]\n"@,
    }
}

/// The concatenation of the texts of a sequence of content items.
pub open spec fn concat_content_text(cs: Seq<ContentV>) -> Seq<char>
    decreases cs.len(),
{
    if cs.len() == 0 {
        Seq::empty()
    } else {
        content_text(cs[0]) + concat_content_text(cs.skip(1))
    }
}

/// Concatenation distributes over appending one item at the end.
pub proof fn lemma_concat_content_push(cs: Seq<ContentV>, c: ContentV)
    ensures
        concat_content_text(cs.push(c)) == concat_content_text(cs) + content_text(c),
    decreases cs.len(),
{
    let p = cs.push(c);
    if cs.len() == 0 {
        assert(p[0] == c);
        assert(p.skip(1) =~= Seq::<ContentV>::empty());
        assert(concat_content_text(p) == content_text(c) + concat_content_text(
            Seq::<ContentV>::empty(),
        ));
        assert(concat_content_text(p) =~= concat_content_text(cs) + content_text(c));
    } else {
        assert(p[0] == cs[0]);
        assert(p.skip(1) =~= cs.skip(1).push(c));
        lemma_concat_content_push(cs.skip(1), c);
        assert(concat_content_text(p) == content_text(cs[0]) + (concat_content_text(cs.skip(1))
            + content_text(c)));
        assert(concat_content_text(cs) == content_text(cs[0]) + concat_content_text(cs.skip(1)));
        assert(content_text(cs[0]) + (concat_content_text(cs.skip(1)) + content_text(c)) =~= (
        content_text(cs[0]) + concat_content_text(cs.skip(1))) + content_text(c));
    }
}

/// A JSON-RPC request or notification: a notification is a request without
/// an id. Parameters are carried as raw JSON text.
#[derive(Debug)]
pub struct JsonRpcRequest {
    pub jsonrpc: String,
    pub id: Option<u64>,
    pub method: String,
    pub params: Option<String>,
}

/// Mathematical view of a request.
pub struct JsonRpcRequestV {
    pub jsonrpc: Seq<char>,
    pub id: Option<u64>,
    pub method: Seq<char>,
    pub params: Option<Seq<char>>,
}

impl View for JsonRpcRequest {
    type V = JsonRpcRequestV;

    open spec fn view(&self) -> JsonRpcRequestV {
        JsonRpcRequestV {
            jsonrpc: self.jsonrpc@,
            id: self.id,
            method: self.method@,
            params: match self.params {
                Some(ref p) => Some(p@),
                None => None,
            },
        }
    }
}

/// A JSON-RPC error object, as the peer reports it.
#[derive(Debug, Clone)]
pub struct JsonRpcError {
    pub code: i64,
    pub message: String,
    pub data: Option<String>,
}

/// Mathematical view of an error object.
pub struct JsonRpcErrorV {
    pub code: i64,
    pub message: Seq<char>,
    pub data: Option<Seq<char>>,
}

impl View for JsonRpcError {
    type V = JsonRpcErrorV;

    open spec fn view(&self) -> JsonRpcErrorV {
        JsonRpcErrorV {
            code: self.code,
            message: self.message@,
            data: match self.data {
                Some(ref d) => Some(d@),
                None => None,
            },
        }
    }
}

impl JsonRpcError {
    /// The one-line rendering of the error: `MCP Error <code>: <message>`.
    pub open spec fn spec_text(self) -> Seq<char> {
        "MCP Error "@ + int_dec_str(self.code as int) + ": "@ + self.message@
    }

    /// Renders the error as one line of text.
    pub fn to_text(&self) -> (r: String)
        ensures
            r@ == self.spec_text(),
    {
        let mut out = String::new();
        out.append("MCP Error ");
        push_i64_dec(&mut out, self.code);
        out.append(": ");
        out.append(self.message.as_str());
        proof {
            assert(out@ =~= self.spec_text());
        }
        out
    }
}

/// A JSON-RPC response: an id and exactly one of a result or an error.
/// The result is carried as raw JSON text.
#[derive(Debug)]
pub struct JsonRpcResponse {
    pub jsonrpc: String,
    pub id: Option<u64>,
    pub result: Option<String>,
    pub error: Option<JsonRpcError>,
}

/// Mathematical view of a response.
pub struct JsonRpcResponseV {
    pub jsonrpc: Seq<char>,
    pub id: Option<u64>,
    pub result: Option<Seq<char>>,
    pub error: Option<JsonRpcErrorV>,
}

impl View for JsonRpcResponse {
    type V = JsonRpcResponseV;

    open spec fn view(&self) -> JsonRpcResponseV {
        JsonRpcResponseV {
            jsonrpc: self.jsonrpc@,
            id: self.id,
            result: match self.result {
                Some(ref r) => Some(r@),
                None => None,
            },
            error: match self.error {
                Some(ref e) => Some(e@),
                None => None,
            },
        }
    }
}

/// Parameters of a tool call: the tool's name and its arguments as raw JSON
/// text.
#[derive(Debug)]
pub struct CallToolRequest {
    pub name: String,
    pub arguments: String,
}

/// One item of a call result.
#[derive(Debug, Clone)]
pub enum Content {
    Text { text: String },
    Image { data: String, mime_type: String },
    EmbeddedResource { resource: String },
}

/// Mathematical view of a content item.
pub enum ContentV {
    Text { text: Seq<char> },
    Image { data: Seq<char>, mime_type: Seq<char> },
    EmbeddedResource { resource: Seq<char> },
}

impl View for Content {
    type V = ContentV;

    open spec fn view(&self) -> ContentV {
        match self {
            Content::Text { text } => ContentV::Text { text: text@ },
            Content::Image { data, mime_type } => ContentV::Image {
                data: data@,
                mime_type: mime_type@,
            },
            Content::EmbeddedResource { resource } => ContentV::EmbeddedResource {
                resource: resource@,
            },
        }
    }
}

/// What a tool call produced: an ordered sequence of content items and an
/// error flag.
#[derive(Debug)]
pub struct CallToolResult {
    pub content: Vec<Content>,
    pub is_error: bool,
}

/// Mathematical view of a call result.
pub struct CallToolResultV {
    pub content: Seq<ContentV>,
    pub is_error: bool,
}

impl View for CallToolResult {
    type V = CallToolResultV;

    open spec fn view(&self) -> CallToolResultV {
        CallToolResultV {
            content: self.content@.map_values(|c: Content| c@),
            is_error: self.is_error,
        }
    }
}

/// Static description of an invocable tool. The input schema is carried as
/// raw JSON text.
#[derive(Debug, Clone)]
pub struct ToolDefinition {
    pub name: String,
    pub description: Option<String>,
    pub input_schema: String,
}

/// Mathematical view of a tool definition.
pub struct ToolDefinitionV {
    pub name: Seq<char>,
    pub description: Option<Seq<char>>,
    pub input_schema: Seq<char>,
}

impl View for ToolDefinition {
    type V = ToolDefinitionV;

    open spec fn view(&self) -> ToolDefinitionV {
        ToolDefinitionV {
            name: self.name@,
            description: match self.description {
                Some(ref d) => Some(d@),
                None => None,
            },
            input_schema: self.input_schema@,
        }
    }
}

/// What `tools/list` returned: the tool definitions and an optional paging
/// cursor.
#[derive(Debug)]
pub struct ListToolsResult {
    pub tools: Vec<ToolDefinition>,
    pub next_cursor: Option<String>,
}

/// Mathematical view of a tool list.
pub struct ListToolsResultV {
    pub tools: Seq<ToolDefinitionV>,
    pub next_cursor: Option<Seq<char>>,
}

impl View for ListToolsResult {
    type V = ListToolsResultV;

    open spec fn view(&self) -> ListToolsResultV {
        ListToolsResultV {
            tools: self.tools@.map_values(|t: ToolDefinition| t@),
            next_cursor: match self.next_cursor {
                Some(ref c) => Some(c@),
                None => None,
            },
        }
    }
}

impl ToolDefinition {
    /// The tool's name.
    pub fn name(&self) -> (r: &str)
        ensures
            r@ == self@.name,
    {
        self.name.as_str()
    }
}

impl CallToolResult {
    /// The single text rendering of the mixed content: text items stand for
    /// themselves, images and embedded resources for fixed placeholders, each
    /// followed by a line break, and the whole trimmed of surrounding white
    /// space.
    pub open spec fn spec_text(self) -> Seq<char> {
        trim_spec(concat_content_text(self@.content))
    }

    /// Convert the mixed content of the result into a single text
    /// representation. Text content is appended directly; images and
    /// resources are represented by placeholders.
    pub fn as_text(&self) -> (r: String)
        ensures
            r@ == self.spec_text(),
    {
        let mut out = String::new();
        let mut i: usize = 0;
        let n = self.content.len();
        while i < n
            invariant
                i <= n,
                n == self.content@.len(),
                out@ == concat_content_text(self@.content.take(i as int)),
            decreases n - i,
        {
            match &self.content[i] {
                Content::Text { text } => {
                    out.append(text.as_str());
                    out.append("\n");
                },
                Content::Image { .. } => {
                    out.append("[Image Content from MCP Tool]\n");
                },
                Content::EmbeddedResource { .. } => {
                    out.append("[Embedded Resource from MCP Tool]\n");
                },
            }
            proof {
                lemma_concat_content_push(
                    self@.content.take(i as int),
                    self@.content[i as int],
                );
                assert(self@.content.take(i as int + 1) =~= self@.content.take(i as int).push(
                    self@.content[i as int],
                ));
                assert(out@ =~= concat_content_text(self@.content.take(i as int + 1)));
            }
            i += 1;
        }
        proof {
            assert(self@.content.take(n as int) =~= self@.content);
        }
        let trimmed = trim(out.as_str());
        trimmed.to_owned()
    }
}

} // verus!
