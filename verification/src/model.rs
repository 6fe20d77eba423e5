//! The protocol items that the proxy reads and rewrites: tools, prompts,
//! resources and tool-call requests.  JSON-valued parts that the proxy only
//! carries along (schemas, annotations, arguments) are held as JSON text.
use vstd::prelude::*;

verus! {

/// The mathematical value of an optional string.
pub open spec fn opt_view(o: Option<String>) -> Option<Seq<char>> {
    match o {
        Some(s) => Some(s@),
        None => None,
    }
}

/// A copy of an optional string.
pub fn clone_opt(o: &Option<String>) -> (r: Option<String>)
    ensures
        opt_view(r) == opt_view(*o),
{
    match o {
        Some(s) => Some(s.clone()),
        None => None,
    }
}

/// A tool offered by an MCP server.
pub struct Tool {
    /// The name of the tool.
    pub name: String,
    /// A description of what the tool does.
    pub description: Option<String>,
    /// The JSON schema of the tool's parameters, as JSON text.
    pub input_schema: String,
    /// Additional tool information, as JSON text.
    pub annotations: Option<String>,
}

/// The mathematical value of a [`Tool`].
pub struct ToolView {
    pub name: Seq<char>,
    pub description: Option<Seq<char>>,
    pub input_schema: Seq<char>,
    pub annotations: Option<Seq<char>>,
}

impl View for Tool {
    type V = ToolView;

    open spec fn view(&self) -> ToolView {
        ToolView {
            name: self.name@,
            description: opt_view(self.description),
            input_schema: self.input_schema@,
            annotations: opt_view(self.annotations),
        }
    }
}

impl Clone for Tool {
    fn clone(&self) -> (r: Self)
        ensures
            r@ == self@,
    {
        Tool {
            name: self.name.clone(),
            description: clone_opt(&self.description),
            input_schema: self.input_schema.clone(),
            annotations: clone_opt(&self.annotations),
        }
    }
}

/// The values of a sequence of tools.
pub open spec fn tools_view(s: Seq<Tool>) -> Seq<ToolView> {
    s.map_values(|t: Tool| t@)
}

/// A prompt offered by an MCP server.
pub struct Prompt {
    /// The name of the prompt.
    pub name: String,
    /// A description of what the prompt does.
    pub description: Option<String>,
    /// The arguments of the prompt, as JSON text.
    pub arguments: Option<String>,
}

/// The mathematical value of a [`Prompt`].
pub struct PromptView {
    pub name: Seq<char>,
    pub description: Option<Seq<char>>,
    pub arguments: Option<Seq<char>>,
}

impl View for Prompt {
    type V = PromptView;

    open spec fn view(&self) -> PromptView {
        PromptView {
            name: self.name@,
            description: opt_view(self.description),
            arguments: opt_view(self.arguments),
        }
    }
}

impl Clone for Prompt {
    fn clone(&self) -> (r: Self)
        ensures
            r@ == self@,
    {
        Prompt {
            name: self.name.clone(),
            description: clone_opt(&self.description),
            arguments: clone_opt(&self.arguments),
        }
    }
}

/// The values of a sequence of prompts.
pub open spec fn prompts_view(s: Seq<Prompt>) -> Seq<PromptView> {
    s.map_values(|p: Prompt| p@)
}

/// A resource offered by an MCP server.
pub struct Resource {
    /// The URI of the resource.
    pub uri: String,
    /// The name of the resource.
    pub name: String,
    /// A description of the resource.
    pub description: Option<String>,
    /// The MIME type of the resource content.
    pub mime_type: Option<String>,
    /// The size of the resource content in bytes, if known.
    pub size: Option<u32>,
    /// Annotations of the resource, as JSON text.
    pub annotations: Option<String>,
}

/// The mathematical value of a [`Resource`].
pub struct ResourceView {
    pub uri: Seq<char>,
    pub name: Seq<char>,
    pub description: Option<Seq<char>>,
    pub mime_type: Option<Seq<char>>,
    pub size: Option<u32>,
    pub annotations: Option<Seq<char>>,
}

impl View for Resource {
    type V = ResourceView;

    open spec fn view(&self) -> ResourceView {
        ResourceView {
            uri: self.uri@,
            name: self.name@,
            description: opt_view(self.description),
            mime_type: opt_view(self.mime_type),
            size: self.size,
            annotations: opt_view(self.annotations),
        }
    }
}

impl Clone for Resource {
    fn clone(&self) -> (r: Self)
        ensures
            r@ == self@,
    {
        Resource {
            uri: self.uri.clone(),
            name: self.name.clone(),
            description: clone_opt(&self.description),
            mime_type: clone_opt(&self.mime_type),
            size: self.size,
            annotations: clone_opt(&self.annotations),
        }
    }
}

/// The values of a sequence of resources.
pub open spec fn resources_view(s: Seq<Resource>) -> Seq<ResourceView> {
    s.map_values(|r: Resource| r@)
}

/// The parameters of a tool call.
pub struct CallToolRequestParam {
    /// The name of the tool to call.
    pub name: String,
    /// The arguments of the call, as the JSON text of an object.
    pub arguments: Option<String>,
}

/// The result of listing the tools of one server.
pub struct ListToolsResult {
    /// The tools.
    pub tools: Vec<Tool>,
    /// The cursor of the next page, if there is one.
    pub next_cursor: Option<String>,
}

/// The values of a sequence of strings.
pub open spec fn strings_view(s: Seq<String>) -> Seq<Seq<char>> {
    s.map_values(|x: String| x@)
}

/// A copy of a vector of strings.
pub fn clone_strings(v: &Vec<String>) -> (r: Vec<String>)
    ensures
        strings_view(r@) == strings_view(v@),
{
    let mut r: Vec<String> = Vec::new();
    for i in 0..v.len()
        invariant
            strings_view(r@) == strings_view(v@.take(i as int)),
    {
        let x = v[i].clone();
        r.push(x);
        proof {
            assert(strings_view(v@.take(i + 1)) == strings_view(v@.take(i as int)).push(v@[i as int]@));
            assert(strings_view(r@) == strings_view(r@.drop_last()).push(x@));
        }
    }
    proof {
        assert(v@.take(v@.len() as int) == v@);
    }
    r
}

/// A copy of a vector of tools.
pub fn clone_tools(v: &Vec<Tool>) -> (r: Vec<Tool>)
    ensures
        tools_view(r@) == tools_view(v@),
{
    let mut r: Vec<Tool> = Vec::new();
    for i in 0..v.len()
        invariant
            tools_view(r@) == tools_view(v@.take(i as int)),
    {
        let x = v[i].clone();
        r.push(x);
        proof {
            assert(tools_view(v@.take(i + 1)) == tools_view(v@.take(i as int)).push(v@[i as int]@));
            assert(tools_view(r@) == tools_view(r@.drop_last()).push(x@));
        }
    }
    proof {
        assert(v@.take(v@.len() as int) == v@);
    }
    r
}

} // verus!
