//! The `write` tool: it writes a whole file, with the directories that are missing above it.

use crate::json::{member, no_members, put, text_member, Json, JsonTree};
use crate::message::{optional_text, user_blocks, BlockView, TextContent, UserContentBlock};
use crate::outside::json_number;
use crate::path::{parent_of, parent_text};
use crate::text::{
    byte_len, byte_size, decimal, decimal_text, line_count, same_text, split_lines,
};
use crate::tools::{AgentToolError, AgentToolResult, Tool};
use vstd::prelude::*;

verus! {

/// The tool that writes a file.
#[derive(Clone, Copy, Debug, PartialEq, Eq, Structural)]
pub struct WriteTool;

/// What is to be written, and where.
#[derive(Debug, PartialEq)]
pub struct WriteRequest {
    pub path: String,
    pub content: String,
}

/// A string parameter, in a schema.
pub open spec fn string_parameter(description: Seq<char>) -> JsonTree {
    JsonTree::Object(
        Map::empty().insert("type"@, JsonTree::Text("string"@)).insert(
            "description"@,
            JsonTree::Text(description),
        ),
    )
}

/// The schema of the tool's parameters.
pub open spec fn write_parameters() -> JsonTree {
    JsonTree::Object(
        Map::empty().insert("type"@, JsonTree::Text("object"@)).insert(
            "properties"@,
            JsonTree::Object(
                Map::empty().insert(
                    "path"@,
                    string_parameter("Path to the file (relative or absolute)"@),
                ).insert("content"@, string_parameter("Full file contents"@)),
            ),
        ).insert(
            "required"@,
            JsonTree::Array(seq![JsonTree::Text("path"@), JsonTree::Text("content"@)]),
        ),
    )
}

/// What is said of a file that was written.
pub open spec fn written_text(path: Seq<char>, content: Seq<char>) -> Seq<char> {
    "Wrote "@ + decimal(byte_size(content)) + " bytes ("@ + decimal(split_lines(content).len())
        + " lines) to "@ + path
}

/// What is kept of a file that was written.
pub open spec fn written_details(path: Seq<char>, content: Seq<char>) -> JsonTree {
    JsonTree::Object(
        Map::empty().insert("path"@, JsonTree::Text(path)).insert(
            "bytes"@,
            JsonTree::Number(json_number(byte_size(content) as u64)),
        ).insert("lines"@, JsonTree::Number(json_number(split_lines(content).len() as u64))),
    )
}

/// `tool` is the tool that writes a file, as a model is told of it.
pub open spec fn tells_of_write(tool: Tool) -> bool {
    &&& tool.name@ == "write"@
    &&& tool.description@
        == "Write (or overwrite) a UTF-8 text file. Parent directories are created if missing."@
    &&& tool.parameters.tree() == write_parameters()
}

/// `r` is what a call with these parameters asks for.
pub open spec fn asks(r: Result<WriteRequest, AgentToolError>, params: JsonTree) -> bool {
    match (text_member(params, "path"@), text_member(params, "content"@)) {
        (None, _) => r matches Err(error) && error.message@ == "missing `path`"@,
        (Some(_), None) => r matches Err(error) && error.message@ == "missing `content`"@,
        (Some(path), Some(content)) => r matches Ok(request) && request.path@ == path
            && request.content@ == content,
    }
}

/// The directory that has to be there before a file is written at `path`.
pub open spec fn parent_needed(path: Seq<char>) -> Option<Seq<char>> {
    match parent_text(path) {
        Some(parent) => if parent.len() > 0 {
            Some(parent)
        } else {
            None
        },
        None => None,
    }
}

/// `r` is what a call gives, once the system has answered.
pub open spec fn concludes(
    r: Result<AgentToolResult, AgentToolError>,
    request: WriteRequest,
    answer: Result<(), String>,
) -> bool {
    match (answer, r) {
        (Ok(_), Ok(result)) => user_blocks(result.content@) == seq![
            BlockView::Text(written_text(request.path@, request.content@)),
        ] && result.details.tree() == written_details(request.path@, request.content@)
            && result.terminate is None,
        (Err(why), Err(error)) => error.message@ == "write "@ + request.path@ + ": "@ + why@,
        _ => false,
    }
}

fn string_schema(description: &str) -> (r: Json)
    ensures
        r.tree() == string_parameter(description@),
{
    let mut members = no_members();
    put(&mut members, "type", Json::text("string"));
    put(&mut members, "description", Json::text(description));
    Json::Object(members)
}

impl WriteTool {
    /// The tool as a model is told of it.
    pub fn definition(&self) -> (r: Tool)
        ensures
            r.name@ == "write"@,
            r.description@
                == "Write (or overwrite) a UTF-8 text file. Parent directories are created if missing."@,
            r.parameters.tree() == write_parameters(),
            tells_of_write(r),
    {
        let mut properties = no_members();
        put(&mut properties, "path", string_schema("Path to the file (relative or absolute)"));
        put(&mut properties, "content", string_schema("Full file contents"));
        let mut required: Vec<Json> = Vec::new();
        required.push(Json::text("path"));
        required.push(Json::text("content"));
        proof {
            crate::json::lemma_part_trees(required@, Seq::empty());
            assert(crate::json::trees(required@) =~= seq![
                JsonTree::Text("path"@),
                JsonTree::Text("content"@),
            ]);
        }
        let mut parameters = no_members();
        put(&mut parameters, "type", Json::text("object"));
        put(&mut parameters, "properties", Json::Object(properties));
        put(&mut parameters, "required", Json::Array(required));
        Tool {
            name: String::from_str("write"),
            description: String::from_str(
                "Write (or overwrite) a UTF-8 text file. Parent directories are created if missing.",
            ),
            parameters: Json::Object(parameters),
        }
    }

    /// What the tool is called.
    pub fn label(&self) -> (r: &'static str)
        ensures
            r@ == "write"@,
    {
        "write"
    }

    /// What a call asks for. The path is looked at first.
    pub fn request(&self, params: &Json) -> (r: Result<WriteRequest, AgentToolError>)
        ensures
            match (
                text_member(params.tree(), "path"@),
                text_member(params.tree(), "content"@),
            ) {
                (None, _) => r matches Err(error) && error.message@ == "missing `path`"@,
                (Some(_), None) => r matches Err(error) && error.message@ == "missing `content`"@,
                (Some(path), Some(content)) => r matches Ok(request) && request.path@ == path
                    && request.content@ == content,
            },
            asks(r, params.tree()),
    {
        let path = match params.get_str("path") {
            Some(path) => path,
            None => {
                return Err(AgentToolError { message: String::from_str("missing `path`") });
            },
        };
        let content = match params.get_str("content") {
            Some(content) => content,
            None => {
                return Err(AgentToolError { message: String::from_str("missing `content`") });
            },
        };
        Ok(WriteRequest { path: path.to_string(), content: content.to_string() })
    }

    /// The directory that has to be there before the file is written: the one above it, which a
    /// bare name does not have.
    pub fn parent_to_make(&self, request: &WriteRequest) -> (r: Option<String>)
        ensures
            optional_text(r) == match parent_text(request.path@) {
                Some(parent) => if parent.len() > 0 {
                    Some(parent)
                } else {
                    None
                },
                None => None,
            },
            optional_text(r) == parent_needed(request.path@),
    {
        match parent_of(request.path.as_str()) {
            Some(parent) => {
                proof {
                    reveal_strlit("");
                    assert(parent@ =~= ""@ || parent@.len() > 0);
                }
                if same_text(parent.as_str(), "") {
                    None
                } else {
                    Some(parent)
                }
            },
            None => None,
        }
    }

    /// What the call gives, once the system has answered; a failure is reported with the path.
    pub fn finish(&self, request: &WriteRequest, answer: Result<(), String>) -> (r: Result<
        AgentToolResult,
        AgentToolError,
    >)
        ensures
            match answer {
                Ok(_) => r matches Ok(result) && user_blocks(result.content@) == seq![
                    BlockView::Text(written_text(request.path@, request.content@)),
                ] && result.details.tree() == written_details(request.path@, request.content@)
                    && result.terminate is None,
                Err(why) => r matches Err(error) && error.message@ == "write "@ + request.path@
                    + ": "@ + why@,
            },
            concludes(r, *request, answer),
    {
        if let Err(why) = answer {
            let mut message = String::new();
            message.push_str("write ");
            message.push_str(request.path.as_str());
            message.push_str(": ");
            message.push_str(why.as_str());
            assert(message@ =~= "write "@ + request.path@ + ": "@ + why@);
            return Err(AgentToolError { message });
        }
        let bytes = byte_len(request.content.as_str());
        let lines = line_count(request.content.as_str());
        let mut text = String::new();
        text.push_str("Wrote ");
        text.push_str(decimal_text(bytes as u128).as_str());
        text.push_str(" bytes (");
        text.push_str(decimal_text(lines as u128).as_str());
        text.push_str(" lines) to ");
        text.push_str(request.path.as_str());
        assert(text@ =~= written_text(request.path@, request.content@));
        let mut details = no_members();
        put(&mut details, "path", Json::text(request.path.as_str()));
        put(&mut details, "bytes", Json::number(bytes as u64));
        put(&mut details, "lines", Json::number(lines as u64));
        let mut content: Vec<UserContentBlock> = Vec::new();
        content.push(UserContentBlock::Text(TextContent { text }));
        assert(user_blocks(content@) =~= seq![
            BlockView::Text(written_text(request.path@, request.content@)),
        ]);
        Ok(AgentToolResult { content, details: Json::Object(details), terminate: None })
    }
}

// ---------------------------------------------------------------------------------------------
// Laws
// ---------------------------------------------------------------------------------------------

/// The names in what is kept and in the schema are different names.
proof fn lemma_names_of_members()
    ensures
        "path"@ != "bytes"@ && "path"@ != "lines"@ && "bytes"@ != "lines"@,
        "type"@ != "properties"@ && "type"@ != "required"@ && "properties"@ != "required"@,
        "path"@ != "content"@ && "type"@ != "description"@,
{
    reveal_strlit("path");
    reveal_strlit("bytes");
    reveal_strlit("lines");
    reveal_strlit("type");
    reveal_strlit("properties");
    reveal_strlit("required");
    reveal_strlit("content");
    reveal_strlit("description");
    assert("path"@.len() == 4 && "bytes"@.len() == 5 && "lines"@.len() == 5);
    assert("bytes"@[0] == 'b' && "lines"@[0] == 'l');
    assert("type"@.len() == 4 && "properties"@.len() == 10 && "required"@.len() == 8);
    assert("content"@.len() == 7 && "description"@.len() == 11);
}

/// What is said of a written file tells its bytes, its lines and its path, and what is kept of it
/// tells the same, each under its own name.
pub proof fn law_written_file_is_told(path: Seq<char>, content: Seq<char>)
    ensures
        written_text(path, content) == "Wrote "@ + decimal(byte_size(content)) + " bytes ("@
            + decimal(split_lines(content).len()) + " lines) to "@ + path,
        member(written_details(path, content), "path"@) == Some(JsonTree::Text(path)),
        member(written_details(path, content), "bytes"@) == Some(
            JsonTree::Number(json_number(byte_size(content) as u64)),
        ),
        member(written_details(path, content), "lines"@) == Some(
            JsonTree::Number(json_number(split_lines(content).len() as u64)),
        ),
{
    lemma_names_of_members();
}

/// The schema asks for an object with two strings, the path and the content, and for both of them.
pub proof fn law_schema_asks_for_path_and_content()
    ensures
        member(write_parameters(), "type"@) == Some(JsonTree::Text("object"@)),
        member(write_parameters(), "required"@) == Some(
            JsonTree::Array(seq![JsonTree::Text("path"@), JsonTree::Text("content"@)]),
        ),
        ({
            let properties = member(write_parameters(), "properties"@)->0;
            &&& member(properties, "path"@) is Some
            &&& text_member(member(properties, "path"@)->0, "type"@) == Some("string"@)
            &&& text_member(member(properties, "path"@)->0, "description"@) == Some(
                "Path to the file (relative or absolute)"@,
            )
            &&& member(properties, "content"@) is Some
            &&& text_member(member(properties, "content"@)->0, "type"@) == Some("string"@)
            &&& text_member(member(properties, "content"@)->0, "description"@) == Some(
                "Full file contents"@,
            )
        }),
{
    lemma_names_of_members();
}

/// A call asks for the text under "path" and the text under "content". Where one of them is missing
/// or no text it is refused, for the path first.
pub proof fn law_call_needs_path_and_content(
    r: Result<WriteRequest, AgentToolError>,
    map: Map<Seq<char>, JsonTree>,
)
    requires
        asks(r, JsonTree::Object(map)),
    ensures
        ({
            let path = map.dom().contains("path"@) && map["path"@] is Text;
            let content = map.dom().contains("content"@) && map["content"@] is Text;
            &&& r is Ok <==> path && content
            &&& r is Ok ==> r->Ok_0.path@ == map["path"@]->Text_0
            &&& r is Ok ==> r->Ok_0.content@ == map["content"@]->Text_0
            &&& !path ==> r->Err_0.message@ == "missing `path`"@
            &&& path && !content ==> r->Err_0.message@ == "missing `content`"@
        }),
{
}

/// Before a file is written the directory above it is made; a bare name and the root need none.
pub proof fn law_directory_above_is_made(path: Seq<char>, parent: Seq<char>)
    ensures
        parent_text(path) is None ==> parent_needed(path) is None,
        parent_text(path) == Some(parent) && parent.len() == 0 ==> parent_needed(path) is None,
        parent_text(path) == Some(parent) && parent.len() > 0 ==> parent_needed(path) == Some(
            parent,
        ),
{
}

/// A file that was written is told in a single text, with what is kept of it, and does not end the
/// conversation; a failure tells the path and the system's words.
pub proof fn law_call_tells_how_it_went(
    r: Result<AgentToolResult, AgentToolError>,
    request: WriteRequest,
    answer: Result<(), String>,
)
    requires
        concludes(r, request, answer),
    ensures
        r is Ok <==> answer is Ok,
        r is Ok ==> r->Ok_0.content@.len() == 1 && r->Ok_0.content@[0]@ == BlockView::Text(
            written_text(request.path@, request.content@),
        ),
        r is Ok ==> r->Ok_0.details.tree() == written_details(request.path@, request.content@),
        r is Ok ==> r->Ok_0.terminate is None,
        r is Err ==> r->Err_0.message@ == "write "@ + request.path@ + ": "@ + answer->Err_0@,
{
    if r is Ok {
        let shown = user_blocks(r->Ok_0.content@);
        assert(shown.len() == 1);
        assert(shown[0] == r->Ok_0.content@[0]@);
    }
}

/// A model knows the tool as "write" and is told that it overwrites, that it writes text, and that it
/// makes the directories that are missing.
pub proof fn law_model_is_told_what_writing_does(tool: Tool)
    requires
        tells_of_write(tool),
    ensures
        tool.name@ == "write"@,
        tool.description@
            == "Write (or overwrite) a UTF-8 text file. Parent directories are created if missing."@,
        tool.parameters.tree() == write_parameters(),
{
}

} // verus!
