//! Files that tools write: which calls write one, and what is told of it.
use vstd::prelude::*;

use crate::json::{at, find_field, get_field, lemma_object_view, says, Json, JsonV};
use crate::loop_events::{shows_custom_events, supports_custom_ui_channel};
use crate::mermaid::{numbered, numbered_text};
use crate::paths::{
    below_base, extension, file_name, join_path, joined_path, path_extension, path_file_name,
    relative_to,
};
use crate::split::join;
use crate::text::{chars_of, lower, put, same_text, text, to_lower};

verus! {

/// What a tool does to a file.
#[derive(Debug, Clone, Copy, PartialEq, Eq, Structural)]
pub enum FileArtifactOperation {
    Write,
    Edit,
}

/// Where a tool runs and for whom.
#[derive(Debug)]
pub struct ToolContext {
    pub channel: Option<String>,
    pub chat_id: Option<String>,
    pub workspace: Option<String>,
}

/// A file that a tool call is about to write.
#[derive(Debug)]
pub struct FileArtifactTarget {
    pub raw_path: String,
    pub full_path: String,
    pub operation: FileArtifactOperation,
}

/// The model of a [`FileArtifactTarget`].
pub struct TargetV {
    pub raw_path: Seq<char>,
    pub full_path: Seq<char>,
    pub operation: FileArtifactOperation,
}

impl DeepView for FileArtifactTarget {
    type V = TargetV;

    open spec fn deep_view(&self) -> TargetV {
        TargetV {
            raw_path: self.raw_path@,
            full_path: self.full_path@,
            operation: self.operation,
        }
    }
}

/// A file that a tool call may have written.
#[derive(Debug)]
pub struct FileArtifactCandidate {
    pub raw_path: String,
    pub existed_before: bool,
    pub operation: FileArtifactOperation,
}

/// The path of a file of the workspace.
pub fn resolve_workspace_path(workspace: &str, raw_path: &str) -> (r: String)
    ensures
        r@ == joined_path(workspace@, raw_path@),
{
    join_path(workspace, raw_path)
}

/// The text in the field `path` of a tool's arguments.
pub open spec fn path_argument(args: JsonV) -> Option<Seq<char>> {
    match args {
        JsonV::Object(fields) => match get_field(fields, "path"@) {
            Some(JsonV::Text(s)) => Some(s),
            _ => None,
        },
        _ => None,
    }
}

/// What a tool does to the file that it is called for.
pub open spec fn operation_of(tool_name: Seq<char>) -> Option<FileArtifactOperation> {
    if tool_name == "write_file"@ {
        Some(FileArtifactOperation::Write)
    } else if tool_name == "edit_file"@ {
        Some(FileArtifactOperation::Edit)
    } else {
        None
    }
}

/// The file that a tool call is about to write, where its chat can be told of it.
pub open spec fn artifact_target(
    tool_name: Seq<char>,
    args: JsonV,
    channel: Option<Seq<char>>,
    workspace: Option<Seq<char>>,
) -> Option<TargetV> {
    match (channel, workspace, path_argument(args), operation_of(tool_name)) {
        (Some(ch), Some(ws), Some(raw), Some(operation)) => if shows_custom_events(ch) {
            Some(TargetV { raw_path: raw, full_path: joined_path(ws, raw), operation })
        } else {
            None
        },
        _ => None,
    }
}

fn path_text<'a>(args: &'a Json) -> (r: Option<&'a String>)
    ensures
        match r {
            Some(s) => path_argument(args@) == Some(s@),
            None => path_argument(args@) is None,
        },
{
    if let Json::Object(fields) = args {
        proof {
            lemma_object_view(*fields);
        }
        if let Some(Json::Text(s)) = find_field(fields, "path") {
            return Some(s);
        }
    }
    None
}

/// The file that a tool call is about to write, where its chat can be told of it.
pub fn prepare_file_artifact_candidate(tool_name: &str, args: &Json, ctx: &ToolContext) -> (r:
    Option<FileArtifactTarget>)
    ensures
        r.deep_view() == artifact_target(
            tool_name@,
            args@,
            ctx.channel.deep_view(),
            ctx.workspace.deep_view(),
        ),
{
    let shown = match &ctx.channel {
        Some(channel) => supports_custom_ui_channel(channel.as_str()),
        None => false,
    };
    if !shown {
        return None;
    }
    let operation = if same_text(tool_name, "write_file") {
        FileArtifactOperation::Write
    } else if same_text(tool_name, "edit_file") {
        FileArtifactOperation::Edit
    } else {
        return None;
    };
    match (&ctx.workspace, path_text(args)) {
        (Some(workspace), Some(raw)) => Some(
            FileArtifactTarget {
                raw_path: raw.clone(),
                full_path: resolve_workspace_path(workspace.as_str(), raw.as_str()),
                operation,
            },
        ),
        _ => None,
    }
}

/// The MIME type that a file's extension, in any case, stands for.
pub open spec fn mime_of(ext: Seq<char>) -> Option<Seq<char>> {
    let e = lower(ext);
    if e == "md"@ {
        Some("text/markdown"@)
    } else if e == "txt"@ || e == "rs"@ || e == "ts"@ || e == "tsx"@ {
        Some("text/plain"@)
    } else if e == "json"@ {
        Some("application/json"@)
    } else if e == "py"@ {
        Some("text/x-python"@)
    } else if e == "toml"@ {
        Some("application/toml"@)
    } else if e == "yaml"@ || e == "yml"@ {
        Some("application/yaml"@)
    } else if e == "html"@ || e == "htm"@ {
        Some("text/html"@)
    } else if e == "js"@ {
        Some("text/javascript"@)
    } else if e == "css"@ {
        Some("text/css"@)
    } else if e == "csv"@ {
        Some("text/csv"@)
    } else {
        None
    }
}

/// The MIME type of a file, by its extension.
pub open spec fn file_mime(path: Seq<char>) -> Option<Seq<char>> {
    match extension(path) {
        Some(ext) => mime_of(ext),
        None => None,
    }
}

/// The characters of an optional text with static lifetime.
pub open spec fn maybe_static(s: Option<&'static str>) -> Option<Seq<char>> {
    match s {
        Some(t) => Some(t@),
        None => None,
    }
}

/// The MIME type of a file, by its extension.
pub fn infer_file_mime(path: &str) -> (r: Option<&'static str>)
    ensures
        maybe_static(r) == file_mime(path@),
{
    match path_extension(path) {
        None => None,
        Some(ext) => {
            let lowered = to_lower(ext.as_str());
            let e = lowered.as_str();
            if same_text(e, "md") {
                Some("text/markdown")
            } else if same_text(e, "txt") || same_text(e, "rs") || same_text(e, "ts") || same_text(
                e,
                "tsx",
            ) {
                Some("text/plain")
            } else if same_text(e, "json") {
                Some("application/json")
            } else if same_text(e, "py") {
                Some("text/x-python")
            } else if same_text(e, "toml") {
                Some("application/toml")
            } else if same_text(e, "yaml") || same_text(e, "yml") {
                Some("application/yaml")
            } else if same_text(e, "html") || same_text(e, "htm") {
                Some("text/html")
            } else if same_text(e, "js") {
                Some("text/javascript")
            } else if same_text(e, "css") {
                Some("text/css")
            } else if same_text(e, "csv") {
                Some("text/csv")
            } else {
                None
            }
        },
    }
}

/// What is told of a file that was written.
#[derive(Debug)]
pub struct FileArtifactPayload {
    pub event_id: String,
    /// The path below the workspace.
    pub path: String,
    pub name: String,
    pub size_bytes: u64,
    pub mime: Option<String>,
    pub operation: String,
}

/// The model of a [`FileArtifactPayload`].
pub struct ArtifactV {
    pub event_id: Seq<char>,
    pub path: Seq<char>,
    pub name: Seq<char>,
    pub size_bytes: u64,
    pub mime: Option<Seq<char>>,
    pub operation: Seq<char>,
}

impl DeepView for FileArtifactPayload {
    type V = ArtifactV;

    open spec fn deep_view(&self) -> ArtifactV {
        ArtifactV {
            event_id: self.event_id@,
            path: self.path@,
            name: self.name@,
            size_bytes: self.size_bytes,
            mime: self.mime.deep_view(),
            operation: self.operation@,
        }
    }
}

/// What happened to a file: a write creates it where it was not there before.
pub open spec fn operation_label(
    operation: FileArtifactOperation,
    existed_before: bool,
) -> Seq<char> {
    if operation == FileArtifactOperation::Write && !existed_before {
        "created"@
    } else {
        "modified"@
    }
}

/// The text with a slash in the place of each backslash.
pub open spec fn slashed(s: Seq<char>) -> Seq<char> {
    s.map_values(
        |c: char|
            if c == '\\' {
                '/'
            } else {
                c
            },
    )
}

fn slash_text(s: &str) -> (r: String)
    ensures
        r@ == slashed(s@),
{
    let v = chars_of(s);
    let mut out = String::new();
    let mut i: usize = 0;
    while i < v.len()
        invariant
            i <= v@.len(),
            out@ == slashed(v@.take(i as int)),
        decreases v@.len() - i,
    {
        out.push(
            if v[i] == '\\' {
                '/'
            } else {
                v[i]
            },
        );
        i = i + 1;
        proof {
            assert(out@ =~= slashed(v@.take(i as int)));
        }
    }
    proof {
        assert(v@.take(v@.len() as int) =~= v@);
    }
    out
}

/// What is told of a file that was written. `workspace` and `path` are canonical:
/// absolute, without links and dots. A file outside the workspace is not told of,
/// nor is anything but a file.
pub open spec fn artifact(
    operation: FileArtifactOperation,
    existed_before: bool,
    workspace: Seq<char>,
    path: Seq<char>,
    is_file: bool,
    size_bytes: u64,
    seq_no: u64,
) -> Option<ArtifactV> {
    match (below_base(workspace, path), file_name(path)) {
        (Some(rest), Some(name)) => if is_file {
            Some(
                ArtifactV {
                    event_id: numbered("file_"@, seq_no as nat),
                    path: slashed(join(rest, "/"@)),
                    name,
                    size_bytes,
                    mime: file_mime(path),
                    operation: operation_label(operation, existed_before),
                },
            )
        } else {
            None
        },
        _ => None,
    }
}

/// What is told of a file that was written, given the canonical paths of the
/// workspace and the file, what kind of thing it is and how large.
pub fn build_file_artifact_payload(
    candidate: &FileArtifactCandidate,
    workspace_canon: &str,
    full_path_canon: &str,
    is_file: bool,
    size_bytes: u64,
    seq_no: u64,
) -> (r: Option<FileArtifactPayload>)
    ensures
        r.deep_view() == artifact(
            candidate.operation,
            candidate.existed_before,
            workspace_canon@,
            full_path_canon@,
            is_file,
            size_bytes,
            seq_no,
        ),
{
    if !is_file {
        return None;
    }
    let relative = match relative_to(workspace_canon, full_path_canon) {
        Some(s) => s,
        None => {
            return None;
        },
    };
    let name = match path_file_name(full_path_canon) {
        Some(s) => s,
        None => {
            return None;
        },
    };
    let operation = if matches!(candidate.operation, FileArtifactOperation::Write)
        && !candidate.existed_before {
        "created"
    } else {
        "modified"
    };
    let mime = match infer_file_mime(full_path_canon) {
        Some(m) => Some(text(m)),
        None => None,
    };
    Some(
        FileArtifactPayload {
            event_id: numbered_text("file_", seq_no),
            path: slash_text(relative.as_str()),
            name,
            size_bytes,
            mime,
            operation: text(operation),
        },
    )
}

/// The summary of the event that tells of a file.
pub fn file_artifact_summary(payload: &FileArtifactPayload) -> (r: String)
    ensures
        r@ == "[file] "@ + payload.operation@ + " "@ + payload.path@,
{
    let mut s = text("[file] ");
    put(&mut s, payload.operation.as_str());
    put(&mut s, " ");
    put(&mut s, payload.path.as_str());
    s
}

/// A file outside the workspace is never told of.
pub proof fn law_only_workspace_files_are_told(
    operation: FileArtifactOperation,
    existed_before: bool,
    workspace: Seq<char>,
    path: Seq<char>,
    is_file: bool,
    size_bytes: u64,
    seq_no: u64,
)
    ensures
        artifact(operation, existed_before, workspace, path, is_file, size_bytes, seq_no) is Some
            ==> is_file && crate::paths::components(workspace).is_prefix_of(
            crate::paths::components(path),
        ),
{
}

/// A call that writes or edits a file names it by its path, as seen from the workspace;
/// other tools, calls without a path and chats that show no events have no such file.
pub proof fn law_written_files_are_found(
    tool: Seq<char>,
    args: JsonV,
    channel: Seq<char>,
    workspace: Seq<char>,
    path: Seq<char>,
)
    ensures
        says(args, "path"@, path) && (channel == "acp"@ || channel == "acp_http"@) && (tool
            == "write_file"@ || tool == "edit_file"@) ==> (artifact_target(
            tool,
            args,
            Some(channel),
            Some(workspace),
        ) matches Some(t) && t.raw_path == path && t.full_path == joined_path(workspace, path)
            && t.operation == (if tool == "write_file"@ {
            FileArtifactOperation::Write
        } else {
            FileArtifactOperation::Edit
        })),
        tool != "write_file"@ && tool != "edit_file"@ ==> artifact_target(
            tool,
            args,
            Some(channel),
            Some(workspace),
        ) is None,
        !(channel == "acp"@ || channel == "acp_http"@) ==> artifact_target(
            tool,
            args,
            Some(channel),
            Some(workspace),
        ) is None,
        !(at(args, "path"@) matches Some(JsonV::Text(_))) ==> artifact_target(
            tool,
            args,
            Some(channel),
            Some(workspace),
        ) is None,
        artifact_target(tool, args, None, Some(workspace)) is None,
        artifact_target(tool, args, Some(channel), None) is None,
{
    reveal_strlit("write_file");
    reveal_strlit("edit_file");
    assert("write_file"@.len() == 10 && "edit_file"@.len() == 9);
}

/// What is told of a file of the workspace: its path from there, its name, its size, its
/// type, and that it was created where a write found none, or else modified.
pub proof fn law_what_is_told_of_files(
    operation: FileArtifactOperation,
    existed_before: bool,
    workspace: Seq<char>,
    path: Seq<char>,
    size_bytes: u64,
    seq_no: u64,
    rest: Seq<Seq<char>>,
    name: Seq<char>,
)
    requires
        below_base(workspace, path) == Some(rest),
        file_name(path) == Some(name),
    ensures
        artifact(operation, existed_before, workspace, path, true, size_bytes, seq_no) matches Some(
            a,
        ) && {
            &&& a.event_id == "file_"@ + crate::number::decimal(seq_no as nat)
            &&& a.name == name
            &&& a.size_bytes == size_bytes
            &&& a.mime == file_mime(path)
            &&& a.path.len() == join(rest, "/"@).len()
            &&& forall|i: int|
                0 <= i < a.path.len() ==> #[trigger] a.path[i] == (if join(rest, "/"@)[i] == '\\' {
                    '/'
                } else {
                    join(rest, "/"@)[i]
                })
            &&& operation == FileArtifactOperation::Write && !existed_before ==> a.operation
                == "created"@
            &&& operation == FileArtifactOperation::Edit || existed_before ==> a.operation
                == "modified"@
        },
        artifact(operation, existed_before, workspace, path, false, size_bytes, seq_no) is None,
{
}

/// The types of files go by their extensions, in whatever case they are written.
pub proof fn law_types_of_files(path: Seq<char>, ext: Seq<char>)
    requires
        extension(path) == Some(ext),
    ensures
        lower(ext) == "md"@ ==> file_mime(path) == Some("text/markdown"@),
        lower(ext) == "txt"@ || lower(ext) == "rs"@ || lower(ext) == "ts"@ || lower(ext) == "tsx"@
            ==> file_mime(path) == Some("text/plain"@),
        lower(ext) == "json"@ ==> file_mime(path) == Some("application/json"@),
        lower(ext) == "py"@ ==> file_mime(path) == Some("text/x-python"@),
        lower(ext) == "toml"@ ==> file_mime(path) == Some("application/toml"@),
        lower(ext) == "yaml"@ || lower(ext) == "yml"@ ==> file_mime(path) == Some(
            "application/yaml"@,
        ),
        lower(ext) == "html"@ || lower(ext) == "htm"@ ==> file_mime(path) == Some("text/html"@),
        lower(ext) == "js"@ ==> file_mime(path) == Some("text/javascript"@),
        lower(ext) == "css"@ ==> file_mime(path) == Some("text/css"@),
        lower(ext) == "csv"@ ==> file_mime(path) == Some("text/csv"@),
        lower(ext).len() > 4 ==> file_mime(path) is None,
{
    reveal_strlit("md");
    reveal_strlit("txt");
    reveal_strlit("rs");
    reveal_strlit("ts");
    reveal_strlit("tsx");
    reveal_strlit("json");
    reveal_strlit("py");
    reveal_strlit("toml");
    reveal_strlit("yaml");
    reveal_strlit("yml");
    reveal_strlit("html");
    reveal_strlit("htm");
    reveal_strlit("js");
    reveal_strlit("css");
    reveal_strlit("csv");
    assert("md"@[0] == 'm' && "txt"@[1] == 'x' && "rs"@[0] == 'r' && "ts"@[0] == 't' && "tsx"@[1]
        == 's' && "json"@[0] == 'j' && "py"@[0] == 'p' && "toml"@[0] == 't' && "yaml"@[0] == 'y'
        && "yml"@[0] == 'y' && "html"@[0] == 'h' && "htm"@[0] == 'h' && "js"@[0] == 'j' && "css"@[2]
        == 's' && "csv"@[2] == 'v' && "css"@[0] == 'c' && "csv"@[0] == 'c' && "txt"@[0] == 't'
        && "tsx"@[0] == 't');
    assert("md"@.len() == 2 && "txt"@.len() == 3 && "rs"@.len() == 2 && "ts"@.len() == 2
        && "tsx"@.len() == 3 && "json"@.len() == 4 && "py"@.len() == 2 && "toml"@.len() == 4
        && "yaml"@.len() == 4 && "yml"@.len() == 3 && "html"@.len() == 4 && "htm"@.len() == 3
        && "js"@.len() == 2 && "css"@.len() == 3 && "csv"@.len() == 3);
}

/// What is told of a file holds what its model holds.
pub proof fn law_artifacts_hold_what_is_told(a: FileArtifactPayload, t: FileArtifactTarget)
    ensures
        a.deep_view().event_id == a.event_id@,
        a.deep_view().path == a.path@,
        a.deep_view().name == a.name@,
        a.deep_view().size_bytes == a.size_bytes,
        a.deep_view().operation == a.operation@,
        a.mime matches Some(m) ==> a.deep_view().mime == Some(m@),
        a.mime is None ==> a.deep_view().mime is None,
        t.deep_view().raw_path == t.raw_path@,
        t.deep_view().full_path == t.full_path@,
        t.deep_view().operation == t.operation,
{
}

} // verus!
