//! Tool descriptors, call results and the errors of the registry.

use vstd::prelude::*;
use crate::json::{as_object, clone_object, empty_object, object_keys, object_of, JsonObject};

verus! {

/// Optional hints about how a tool behaves.
#[derive(Debug)]
pub struct ToolAnnotations {
    pub title: Option<String>,
    pub read_only_hint: Option<bool>,
    pub destructive_hint: Option<bool>,
    pub idempotent_hint: Option<bool>,
    pub open_world_hint: Option<bool>,
}

impl Clone for ToolAnnotations {
    fn clone(&self) -> (copy: Self)
        ensures
            copy == *self,
    {
        ToolAnnotations {
            title: clone_text(&self.title),
            read_only_hint: self.read_only_hint,
            destructive_hint: self.destructive_hint,
            idempotent_hint: self.idempotent_hint,
            open_world_hint: self.open_world_hint,
        }
    }
}

/// Copies an optional string.
pub(crate) fn clone_text(text: &Option<String>) -> (copy: Option<String>)
    ensures
        copy == *text,
{
    match text {
        Some(s) => Some(s.clone()),
        None => None,
    }
}

/// The descriptor of one tool: its name, what it does, and the shape of the
/// arguments it accepts.
#[derive(Debug)]
pub struct Tool {
    /// The name under which the tool is registered and called.
    pub name: String,
    /// What the tool does, for a human reader.
    pub description: Option<String>,
    /// A JSON schema, in the form of a JSON object, of the accepted arguments.
    pub input_schema: JsonObject,
    /// Optional hints about the tool's behaviour.
    pub annotations: Option<ToolAnnotations>,
}

/// What a [`Tool`] says, with its texts as sequences of characters.
pub struct ToolView {
    pub name: Seq<char>,
    pub description: Option<Seq<char>>,
    pub input_schema: JsonObject,
    pub annotations: Option<ToolAnnotations>,
}

impl View for Tool {
    type V = ToolView;

    open spec fn view(&self) -> ToolView {
        ToolView {
            name: self.name@,
            description: match self.description {
                Some(d) => Some(d@),
                None => None,
            },
            input_schema: self.input_schema,
            annotations: self.annotations,
        }
    }
}

impl Tool {
    /// A descriptor with the given name, description and input schema, and no
    /// annotations.
    pub fn new(name: String, description: String, input_schema: JsonObject) -> (tool: Tool)
        ensures
            tool == (Tool {
                name,
                description: Some(description),
                input_schema,
                annotations: None,
            }),
    {
        Tool { name, description: Some(description), input_schema, annotations: None }
    }
}

impl Clone for Tool {
    fn clone(&self) -> (copy: Self)
        ensures
            copy == *self,
    {
        Tool {
            name: self.name.clone(),
            description: clone_text(&self.description),
            input_schema: clone_object(&self.input_schema),
            annotations: match &self.annotations {
                Some(a) => Some(a.clone()),
                None => None,
            },
        }
    }
}

/// Why a registration at run time was refused.
#[derive(Debug)]
pub enum ToolRegistrationError {
    /// A tool of this name is registered already. Holds the name.
    DuplicateTool(String),
    /// The input schema is not a JSON object. Holds the reason.
    InvalidSchema(String),
    /// The name is not one a tool can have. Holds the reason.
    InvalidName(String),
}

/// The kinds of [`ToolRegistrationError`].
#[derive(Clone, Copy, Debug, PartialEq, Eq, Structural)]
pub enum RegistrationFailure {
    DuplicateTool,
    InvalidSchema,
    InvalidName,
}

impl ToolRegistrationError {
    /// The kind of the error.
    pub open spec fn failure(self) -> RegistrationFailure {
        match self {
            ToolRegistrationError::DuplicateTool(_) => RegistrationFailure::DuplicateTool,
            ToolRegistrationError::InvalidSchema(_) => RegistrationFailure::InvalidSchema,
            ToolRegistrationError::InvalidName(_) => RegistrationFailure::InvalidName,
        }
    }

    /// The text that the error holds: the name of the tool for
    /// `DuplicateTool`, the reason for the others.
    pub open spec fn text(self) -> Seq<char> {
        match self {
            ToolRegistrationError::DuplicateTool(name) => name@,
            ToolRegistrationError::InvalidSchema(reason) => reason@,
            ToolRegistrationError::InvalidName(reason) => reason@,
        }
    }

}

/// A tool that was to be removed is not among those registered at run time.
#[derive(Debug)]
pub enum ToolNotFoundError {
    /// Holds the name that was asked for.
    NotFound(String),
}

impl ToolNotFoundError {
    /// The name that was asked for.
    pub open spec fn name(self) -> Seq<char> {
        match self {
            ToolNotFoundError::NotFound(name) => name@,
        }
    }
}

/// The error code for a call whose parameters are not acceptable.
pub const INVALID_PARAMS: i32 = -32602;

/// A structured error: a code for machines, a message for people, and
/// optional further data.
#[derive(Debug)]
pub struct ErrorData {
    pub code: i32,
    pub message: String,
    pub data: Option<serde_json::Value>,
}

impl ErrorData {
    /// An error with the given code, message and data.
    pub fn new(code: i32, message: &str, data: Option<serde_json::Value>) -> (error: ErrorData)
        ensures
            error.code == code,
            error.message@ == message@,
            error.data == data,
    {
        ErrorData { code, message: message.to_owned(), data }
    }

    /// An error that says that the parameters of a call are not acceptable.
    pub fn invalid_params(message: &str, data: Option<serde_json::Value>) -> (error: ErrorData)
        ensures
            error.code == INVALID_PARAMS,
            error.message@ == message@,
            error.data == data,
    {
        ErrorData::new(INVALID_PARAMS, message, data)
    }

    /// Whether this is the error that the router gives for a call of a name
    /// that leads to no route.
    pub open spec fn is_tool_not_found(self) -> bool {
        &&& self.code == INVALID_PARAMS
        &&& self.message@ == "tool not found"@
        &&& self.data.is_none()
    }
}

/// A piece of text in a call's result.
#[derive(Debug)]
pub struct TextContent {
    pub text: String,
}

/// One item of a call's result.
#[derive(Debug)]
pub enum Content {
    /// Plain text.
    Text(TextContent),
    /// Structured data.
    Json(serde_json::Value),
}

impl Content {
    /// A text item.
    pub fn text(text: String) -> (content: Content)
        ensures
            content == Content::Text(TextContent { text }),
    {
        Content::Text(TextContent { text })
    }

    /// The text of a text item.
    pub fn as_text(&self) -> (text: Option<&TextContent>)
        ensures
            match *self {
                Content::Text(t) => text == Some(&t),
                Content::Json(_) => text.is_none(),
            },
    {
        match self {
            Content::Text(t) => Some(t),
            Content::Json(_) => None,
        }
    }
}

/// What a completed call gives back: content items in order, and whether
/// they report a failure of the tool.
#[derive(Debug)]
pub struct CallToolResult {
    pub content: Vec<Content>,
    pub is_error: Option<bool>,
}

impl CallToolResult {
    /// The result of a call that succeeded.
    pub fn success(content: Vec<Content>) -> (result: CallToolResult)
        ensures
            result.content == content,
            result.is_error == Some(false),
    {
        CallToolResult { content, is_error: Some(false) }
    }

    /// The result of a call in which the tool reports a failure.
    pub fn error(content: Vec<Content>) -> (result: CallToolResult)
        ensures
            result.content == content,
            result.is_error == Some(true),
    {
        CallToolResult { content, is_error: Some(true) }
    }
}

/// The object that a schema value stands for: the value's own members when it
/// is a JSON object, and the empty object otherwise.
pub fn object(value: serde_json::Value) -> (members: JsonObject)
    ensures
        match object_of(value) {
            Some(found) => members == found,
            None => object_keys(members) == Set::<Seq<char>>::empty(),
        },
{
    match as_object(&value) {
        Some(found) => clone_object(found),
        None => empty_object(),
    }
}

} // verus!
