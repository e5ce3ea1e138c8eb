//! The workspace tools: what they offer a model, which paths they accept, and
//! what an edit does to a file.

use crate::json::{
    json_member, json_object, json_quoted, json_text_member, member_json, member_then,
    members_are_written_out, object_json, one, one_member, same_behind, text_member,
    text_members_are_told_apart, three, three_members, two, two_members,
};
use crate::protocol::{ToolResult, ToolResultView};
use crate::text::{
    concat, concat3, count_from_first_match, count_matches, count_text, debug_form, debug_text,
    decimal, decimal_text, find, find_is_first_match, hex, hex_text, index_of,
    index_of_bounds, match_at, only_match, opt_view, replace_first_text, same, splice, split, split_text, to_chars, views, Text,
};
use sha2::Digest;
use vstd::prelude::*;
use vstd::utf8::encode_utf8;

verus! {

/// The content of a [`ToolDefinition`].
#[verifier::ext_equal]
pub struct ToolDefinitionView {
    pub name: Text,
    pub description: Text,
    pub input_schema: Text,
}

/// A tool as a model is told of it. `input_schema` is JSON text.
#[derive(Debug, Eq, PartialEq)]
pub struct ToolDefinition {
    pub name: String,
    pub description: String,
    pub input_schema: String,
}

impl View for ToolDefinition {
    type V = ToolDefinitionView;

    open spec fn view(&self) -> ToolDefinitionView {
        ToolDefinitionView {
            name: self.name@,
            description: self.description@,
            input_schema: self.input_schema@,
        }
    }
}

impl Clone for ToolDefinition {
    fn clone(&self) -> (r: Self)
        ensures
            r@ == self@,
    {
        let r = ToolDefinition {
            name: self.name.clone(),
            description: self.description.clone(),
            input_schema: self.input_schema.clone(),
        };
        assert(r@ =~~= self@);
        r
    }
}

/// The result a model gets for a call that failed with `error`.
pub open spec fn error_content(error: Text) -> Text {
    json_object(seq![json_text_member("error"@, error)])
}

/// What is reported of a tool that does not exist or is not available.
pub open spec fn unknown_tool(name: Text) -> Text {
    "unknown tool "@ + debug_form(name)
}

pub fn unknown_tool_text(name: &str) -> (r: String)
    ensures
        r@ == unknown_tool(name@),
{
    concat("unknown tool ", &debug_text(name))
}

/// The result of a call, from what its tool reported.
pub open spec fn call_result(id: Text, outcome: Result<Text, Text>) -> ToolResultView {
    match outcome {
        Ok(content) => ToolResultView { tool_call_id: id, content, is_error: false },
        Err(error) => ToolResultView {
            tool_call_id: id,
            content: error_content(error),
            is_error: true,
        },
    }
}

/// The content of a tool's report.
pub open spec fn outcome_view(outcome: Result<String, String>) -> Result<Text, Text> {
    match outcome {
        Ok(content) => Ok(content@),
        Err(error) => Err(error@),
    }
}

/// Wraps what a tool reported as the result of the call `id`.
pub fn tool_result(id: String, outcome: Result<String, String>) -> (r: ToolResult)
    ensures
        r@ == call_result(id@, outcome_view(outcome)),
{
    match outcome {
        Ok(content) => ToolResult { tool_call_id: id, content, is_error: false },
        Err(error) => ToolResult {
            tool_call_id: id,
            content: object_json(&one(text_member("error", &error))),
            is_error: true,
        },
    }
}

/// The largest file, in bytes, that `read_file` reads.
pub const MAX_READ_BYTES: u64 = 1048576;

/// The tools of a workspace, exactly two.
pub open spec fn workspace_tools() -> Seq<ToolDefinitionView> {
    seq![
        ToolDefinitionView {
            name: "read_file"@,
            description: "Read one UTF-8 text file inside the workspace."@,
            input_schema: "{\"additionalProperties\":false,\"properties\":{\"path\":{\"description\":\"Path relative to the workspace root.\",\"type\":\"string\"}},\"required\":[\"path\"],\"type\":\"object\"}"@,
        },
        ToolDefinitionView {
            name: "edit_file"@,
            description: "Create a missing workspace file when old_text is empty, or replace exactly one matching text fragment in an existing file. Include enough surrounding text to make old_text unique."@,
            input_schema: "{\"additionalProperties\":false,\"properties\":{\"new_text\":{\"description\":\"Replacement text.\",\"type\":\"string\"},\"old_text\":{\"description\":\"Exact text to replace. It must occur exactly once in an existing file. Use an empty string only to create a missing file.\",\"type\":\"string\"},\"path\":{\"description\":\"Path relative to the workspace root.\",\"type\":\"string\"}},\"required\":[\"path\",\"old_text\",\"new_text\"],\"type\":\"object\"}"@,
        },
    ]
}

/// The tools of a workspace as a model is told of them.
pub fn definitions() -> (r: Vec<ToolDefinition>)
    ensures
        views(r@) == workspace_tools(),
{
    let read = ToolDefinition {
        name: "read_file".to_owned(),
        description: "Read one UTF-8 text file inside the workspace.".to_owned(),
        input_schema: "{\"additionalProperties\":false,\"properties\":{\"path\":{\"description\":\"Path relative to the workspace root.\",\"type\":\"string\"}},\"required\":[\"path\"],\"type\":\"object\"}".to_owned(),
    };
    let edit = ToolDefinition {
        name: "edit_file".to_owned(),
        description: "Create a missing workspace file when old_text is empty, or replace exactly one matching text fragment in an existing file. Include enough surrounding text to make old_text unique.".to_owned(),
        input_schema: "{\"additionalProperties\":false,\"properties\":{\"new_text\":{\"description\":\"Replacement text.\",\"type\":\"string\"},\"old_text\":{\"description\":\"Exact text to replace. It must occur exactly once in an existing file. Use an empty string only to create a missing file.\",\"type\":\"string\"},\"path\":{\"description\":\"Path relative to the workspace root.\",\"type\":\"string\"}},\"required\":[\"path\",\"old_text\",\"new_text\"],\"type\":\"object\"}".to_owned(),
    };
    let mut out: Vec<ToolDefinition> = Vec::new();
    out.push(read);
    out.push(edit);
    assert(views(out@) =~= workspace_tools());
    out
}

/// The tools that a workspace can execute.
#[derive(Clone, Copy, Debug, Eq, PartialEq, Structural)]
pub enum ToolKind {
    ReadFile,
    EditFile,
}

impl ToolKind {
    pub open spec fn name(self) -> Text {
        match self {
            ToolKind::ReadFile => "read_file"@,
            ToolKind::EditFile => "edit_file"@,
        }
    }

    pub fn as_str(self) -> (r: &'static str)
        ensures
            r@ == self.name(),
    {
        match self {
            ToolKind::ReadFile => "read_file",
            ToolKind::EditFile => "edit_file",
        }
    }
}

/// The tool of a given name, if the workspace has it.
pub fn tool_kind(name: &str) -> (r: Option<ToolKind>)
    ensures
        r matches Some(kind) ==> name@ == kind.name(),
        r is None ==> name@ != ToolKind::ReadFile.name() && name@ != ToolKind::EditFile.name(),
{
    if same(name, "read_file") {
        Some(ToolKind::ReadFile)
    } else if same(name, "edit_file") {
        Some(ToolKind::EditFile)
    } else {
        None
    }
}

/// What is reported of arguments that did not decode.
pub open spec fn invalid_arguments(kind: ToolKind, error: Text) -> Text {
    "invalid "@ + kind.name() + " arguments: "@ + error
}

pub fn invalid_arguments_text(kind: ToolKind, error: &str) -> (r: String)
    ensures
        r@ == invalid_arguments(kind, error@),
{
    concat(&concat3("invalid ", kind.as_str(), " arguments: "), error)
}

/// The digest of some bytes.
pub uninterp spec fn sha256_digest(bytes: Seq<u8>) -> Seq<u8>;

/// The SHA-256 digest of `bytes` (`sha2::Sha256::digest`): 32 bytes that
/// depend on `bytes` alone.
#[verifier::external_body]
pub(crate) fn sha256_bytes(bytes: &[u8]) -> (r: Vec<u8>)
    ensures
        r@ == sha256_digest(bytes@),
        r@.len() == 32,
{
    sha2::Sha256::digest(bytes).to_vec()
}

/// The SHA-256 digest of a text's UTF-8 form, in lowercase hexadecimal.
pub open spec fn sha256_hex(content: Text) -> Text {
    hex(sha256_digest(encode_utf8(content)))
}

fn sha256(content: &str) -> (r: String)
    ensures
        r@ == sha256_hex(content@),
{
    let digest = sha256_bytes(content.as_bytes());
    assert(digest@.take(digest@.len() as int) =~= digest@);
    hex_text(&digest, digest.len())
}

/// Whether a tool accepts a path: relative, not empty, and without a parent
/// segment. Segments are separated by `/`.
pub open spec fn is_relative_path(path: Text) -> bool {
    &&& path.len() > 0
    &&& path[0] != '/'
    &&& !split(path, '/').contains(".."@)
}

/// What is reported of any other path.
pub open spec fn path_refusal() -> Text {
    "tool paths must be relative to the workspace and may not contain .."@
}

/// Accepts the paths that stay inside the workspace by their spelling alone.
pub fn validate_relative_path(requested: &str) -> (r: Result<(), String>)
    ensures
        r is Ok <==> is_relative_path(requested@),
        r matches Err(error) ==> error@ == path_refusal(),
{
    let refusal = "tool paths must be relative to the workspace and may not contain ..".to_owned();
    let chars = to_chars(requested);
    if chars.len() == 0 || chars[0] == '/' {
        return Err(refusal);
    }
    let parts = split_text(requested, '/');
    let mut i: usize = 0;
    while i < parts.len()
        invariant
            i <= parts@.len(),
            views(parts@) == split(requested@, '/'),
            refusal@ == path_refusal(),
            forall|k: int| 0 <= k < i ==> #[trigger] views(parts@)[k] != ".."@,
        decreases parts@.len() - i,
    {
        if same(&parts[i], "..") {
            assert(views(parts@)[i as int] == ".."@);
            return Err(refusal);
        }
        i += 1;
    }
    Ok(())
}

/// The directory reached from `directory` by walking the segments of a path.
pub open spec fn walk(directory: Seq<Text>, segments: Seq<Text>) -> Seq<Text>
    decreases segments.len(),
{
    if segments.len() == 0 {
        directory
    } else {
        let before = walk(directory, segments.drop_last());
        let segment = segments.last();
        if segment.len() == 0 || segment == "."@ {
            before
        } else if segment == ".."@ {
            if before.len() > 0 {
                before.drop_last()
            } else {
                before
            }
        } else {
            before.push(segment)
        }
    }
}

/// An accepted path never leaves the workspace by its spelling: from the root
/// it only leads further down.
pub proof fn accepted_paths_stay_below_the_root(root: Seq<Text>, path: Text)
    requires
        is_relative_path(path),
    ensures
        root.is_prefix_of(walk(root, split(path, '/'))),
{
    walk_goes_down(root, split(path, '/'));
}

proof fn walk_goes_down(root: Seq<Text>, segments: Seq<Text>)
    requires
        !segments.contains(".."@),
    ensures
        root.is_prefix_of(walk(root, segments)),
    decreases segments.len(),
{
    if segments.len() > 0 {
        let before = walk(root, segments.drop_last());
        assert forall|i: int| 0 <= i < segments.drop_last().len() implies segments.drop_last()[i]
            != ".."@ by {
            assert(segments[i] != ".."@);
        }
        walk_goes_down(root, segments.drop_last());
        assert(segments.last() != ".."@);
        assert(root =~= before.take(root.len() as int));
        assert(before.push(segments.last()).take(root.len() as int) =~= root);
    } else {
        assert(root.take(root.len() as int) =~= root);
    }
}

/// The outcome of replacing `old` by `new` in a file: refused unless `old`
/// stands in it exactly once.
pub open spec fn edited(content: Text, old: Text, new: Text) -> Result<Text, Text> {
    match find(content, old) {
        None => Err("edit_file old_text did not match the file"@),
        Some(at) => if only_match(content, old, at) {
            Ok(splice(content, at, old.len(), new))
        } else {
            Err(
                "edit_file old_text matched "@ + decimal(count_matches(content, old))
                    + " locations; provide more context"@,
            )
        },
    }
}

/// Replaces the one occurrence of `old` in `content`, or says why not.
pub fn apply_edit(content: &str, old: &str, new: &str) -> (r: Result<String, String>)
    requires
        old@.len() > 0,
    ensures
        outcome_view(r) == edited(content@, old@, new@),
{
    let matches: usize = count_text(content, old);
    proof {
        count_from_first_match(content@, old@);
    }
    if matches == 0 {
        Err("edit_file old_text did not match the file".to_owned())
    } else if matches == 1 {
        Ok(replace_first_text(content, old, new))
    } else {
        Err(
            concat3(
                "edit_file old_text matched ",
                &decimal_text(matches as u64),
                " locations; provide more context",
            ),
        )
    }
}

/// An edit is refused when the old text stands nowhere or at two places, even
/// where these overlap. It goes through when the old text stands at exactly one
/// place: that place changes and nothing else does.
pub proof fn an_edit_changes_the_one_match(content: Text, old: Text, new: Text, i: int, j: int)
    ensures
        (forall|at: int| !#[trigger] match_at(content, old, at)) ==> edited(content, old, new) is Err,
        match_at(content, old, i) && match_at(content, old, j) && i != j ==> edited(
            content,
            old,
            new,
        ) is Err,
        only_match(content, old, i) ==> edited(content, old, new) == Ok::<Text, Text>(
            splice(content, i, old.len(), new),
        ),
{
    find_is_first_match(content, old);
}

/// An edit that went through replaced text that stood in the file at this one
/// place, and can be described as one splice.
pub proof fn a_successful_edit_is_one_splice(content: Text, old: Text, new: Text)
    requires
        edited(content, old, new) is Ok,
    ensures
        exists|at: int|
            #[trigger] only_match(content, old, at) && edited(content, old, new) == Ok::<
                Text,
                Text,
            >(splice(content, at, old.len(), new)),
{
}

/// The content of a [`WorkspaceToolsError`].
#[verifier::ext_equal]
pub enum WorkspaceToolsErrorView {
    Root(Text),
}

/// Why a workspace has no tools: its root cannot be used.
#[derive(Debug, Eq, PartialEq)]
pub enum WorkspaceToolsError {
    Root(String),
}

impl View for WorkspaceToolsError {
    type V = WorkspaceToolsErrorView;

    open spec fn view(&self) -> WorkspaceToolsErrorView {
        match self {
            WorkspaceToolsError::Root(item) => WorkspaceToolsErrorView::Root(item@),
        }
    }
}

impl Clone for WorkspaceToolsError {
    fn clone(&self) -> (r: Self)
        ensures
            r@ == self@,
    {
        let r = match self {
            WorkspaceToolsError::Root(item) => WorkspaceToolsError::Root(item.clone()),
        };
        assert(r@ =~~= self@);
        r
    }
}

impl WorkspaceToolsError {
    pub fn message(&self) -> (r: String)
        ensures
            self@ matches WorkspaceToolsErrorView::Root(error) && r@ == "invalid workspace root: "@
                + error,
    {
        match self {
            WorkspaceToolsError::Root(error) => concat("invalid workspace root: ", error),
        }
    }
}

/// The content of a [`WorkspaceTools`].
#[verifier::ext_equal]
pub struct WorkspaceToolsView {
    pub root: Text,
}

/// The tools of one workspace, below its resolved root.
#[derive(Debug, Eq, PartialEq)]
pub struct WorkspaceTools {
    pub root: String,
}

impl View for WorkspaceTools {
    type V = WorkspaceToolsView;

    open spec fn view(&self) -> WorkspaceToolsView {
        WorkspaceToolsView {
            root: self.root@,
        }
    }
}

impl Clone for WorkspaceTools {
    fn clone(&self) -> (r: Self)
        ensures
            r@ == self@,
    {
        let r = WorkspaceTools {
            root: self.root.clone(),
        };
        assert(r@ =~~= self@);
        r
    }
}

impl WorkspaceTools {
    /// The tools of a workspace, given its resolved root, or why it could not be
    /// resolved, and whether a directory stands there.
    pub fn new(resolved: Result<String, String>, is_directory: bool) -> (r: Result<
        WorkspaceTools,
        WorkspaceToolsError,
    >)
        ensures
            match (r, resolved) {
                (Ok(tools), Ok(root)) => is_directory && tools@.root == root@,
                (Err(error), Ok(_)) => !is_directory && error@ == WorkspaceToolsErrorView::Root(
                    "workspace root is not a directory"@,
                ),
                (Err(error), Err(fault)) => error@ == WorkspaceToolsErrorView::Root(fault@),
                (Ok(_), Err(_)) => false,
            },
    {
        match resolved {
            Err(fault) => Err(WorkspaceToolsError::Root(fault)),
            Ok(root) => if is_directory {
                Ok(WorkspaceTools { root })
            } else {
                Err(WorkspaceToolsError::Root("workspace root is not a directory".to_owned()))
            },
        }
    }
}

/// The content of a [`ToolRequest`].
#[verifier::ext_equal]
pub enum ToolRequestView {
    ReadFile { path: Text },
    EditFile { path: Text, old_text: Text, new_text: Text },
}

/// The decoded arguments of a tool call.
#[derive(Debug, Eq, PartialEq)]
pub enum ToolRequest {
    ReadFile { path: String },
    EditFile { path: String, old_text: String, new_text: String },
}

impl View for ToolRequest {
    type V = ToolRequestView;

    open spec fn view(&self) -> ToolRequestView {
        match self {
            ToolRequest::ReadFile { path } => ToolRequestView::ReadFile {
                path: path@,
            },
            ToolRequest::EditFile { path, old_text, new_text } => ToolRequestView::EditFile {
                path: path@,
                old_text: old_text@,
                new_text: new_text@,
            },
        }
    }
}

impl Clone for ToolRequest {
    fn clone(&self) -> (r: Self)
        ensures
            r@ == self@,
    {
        let r = match self {
            ToolRequest::ReadFile { path } => ToolRequest::ReadFile {
                path: path.clone(),
            },
            ToolRequest::EditFile { path, old_text, new_text } => ToolRequest::EditFile {
                path: path.clone(),
                old_text: old_text.clone(),
                new_text: new_text.clone(),
            },
        };
        assert(r@ =~~= self@);
        r
    }
}

/// The content of a [`FileAction`].
#[verifier::ext_equal]
pub enum FileActionView {
    Resolve(Text),
    Inspect,
    ReadText,
    Replace(Text),
    Lookup(Text),
    ResolveParent(Text),
    Create(Text),
}

/// The file work a call asks for: resolve a path of the workspace, inspect or
/// read or replace the file it led to, look whether a path is taken, resolve its
/// parent directory, or create the file.
#[derive(Debug, Eq, PartialEq)]
pub enum FileAction {
    Resolve(String),
    Inspect,
    ReadText,
    Replace(String),
    Lookup(String),
    ResolveParent(String),
    Create(String),
}

impl View for FileAction {
    type V = FileActionView;

    open spec fn view(&self) -> FileActionView {
        match self {
            FileAction::Resolve(item) => FileActionView::Resolve(item@),
            FileAction::Inspect => FileActionView::Inspect,
            FileAction::ReadText => FileActionView::ReadText,
            FileAction::Replace(item) => FileActionView::Replace(item@),
            FileAction::Lookup(item) => FileActionView::Lookup(item@),
            FileAction::ResolveParent(item) => FileActionView::ResolveParent(item@),
            FileAction::Create(item) => FileActionView::Create(item@),
        }
    }
}

impl Clone for FileAction {
    fn clone(&self) -> (r: Self)
        ensures
            r@ == self@,
    {
        let r = match self {
            FileAction::Resolve(item) => FileAction::Resolve(item.clone()),
            FileAction::Inspect => FileAction::Inspect,
            FileAction::ReadText => FileAction::ReadText,
            FileAction::Replace(item) => FileAction::Replace(item.clone()),
            FileAction::Lookup(item) => FileAction::Lookup(item.clone()),
            FileAction::ResolveParent(item) => FileAction::ResolveParent(item.clone()),
            FileAction::Create(item) => FileAction::Create(item.clone()),
        };
        assert(r@ =~~= self@);
        r
    }
}

/// The content of a [`FileOutcome`].
#[verifier::ext_equal]
pub enum FileOutcomeView {
    Resolved { inside: bool },
    Inspected { is_file: bool, size: u64 },
    Text(Text),
    Done,
    Missing,
    Taken,
    NoParent,
    ParentResolved { inside: bool, named: bool },
    TaskFailed(Text),
    Failed(Text),
}

/// How the file work went. `inside` tells whether a resolved path lies in the
/// workspace; `Failed` carries the error text of the operation and `TaskFailed`
/// that of the worker that ran it.
#[derive(Debug, Eq, PartialEq)]
pub enum FileOutcome {
    Resolved { inside: bool },
    Inspected { is_file: bool, size: u64 },
    Text(String),
    Done,
    Missing,
    Taken,
    NoParent,
    ParentResolved { inside: bool, named: bool },
    TaskFailed(String),
    Failed(String),
}

impl View for FileOutcome {
    type V = FileOutcomeView;

    open spec fn view(&self) -> FileOutcomeView {
        match self {
            FileOutcome::Resolved { inside } => FileOutcomeView::Resolved {
                inside: *inside,
            },
            FileOutcome::Inspected { is_file, size } => FileOutcomeView::Inspected {
                is_file: *is_file,
                size: *size,
            },
            FileOutcome::Text(item) => FileOutcomeView::Text(item@),
            FileOutcome::Done => FileOutcomeView::Done,
            FileOutcome::Missing => FileOutcomeView::Missing,
            FileOutcome::Taken => FileOutcomeView::Taken,
            FileOutcome::NoParent => FileOutcomeView::NoParent,
            FileOutcome::ParentResolved { inside, named } => FileOutcomeView::ParentResolved {
                inside: *inside,
                named: *named,
            },
            FileOutcome::TaskFailed(item) => FileOutcomeView::TaskFailed(item@),
            FileOutcome::Failed(item) => FileOutcomeView::Failed(item@),
        }
    }
}

impl Clone for FileOutcome {
    fn clone(&self) -> (r: Self)
        ensures
            r@ == self@,
    {
        let r = match self {
            FileOutcome::Resolved { inside } => FileOutcome::Resolved {
                inside: *inside,
            },
            FileOutcome::Inspected { is_file, size } => FileOutcome::Inspected {
                is_file: *is_file,
                size: *size,
            },
            FileOutcome::Text(item) => FileOutcome::Text(item.clone()),
            FileOutcome::Done => FileOutcome::Done,
            FileOutcome::Missing => FileOutcome::Missing,
            FileOutcome::Taken => FileOutcome::Taken,
            FileOutcome::NoParent => FileOutcome::NoParent,
            FileOutcome::ParentResolved { inside, named } => FileOutcome::ParentResolved {
                inside: *inside,
                named: *named,
            },
            FileOutcome::TaskFailed(item) => FileOutcome::TaskFailed(item.clone()),
            FileOutcome::Failed(item) => FileOutcome::Failed(item.clone()),
        };
        assert(r@ =~~= self@);
        r
    }
}

/// The content of a [`JobPhase`].
#[verifier::ext_equal]
pub enum JobPhaseView {
    Resolving,
    Inspecting,
    Reading,
    Replacing { before_sha256: Text, after_sha256: Text },
    LookingUp,
    ResolvingParent,
    Creating,
    Finished(Result<Text, Text>),
}

/// What a call waits for.
#[derive(Debug, Eq, PartialEq)]
pub enum JobPhase {
    Resolving,
    Inspecting,
    Reading,
    Replacing { before_sha256: String, after_sha256: String },
    LookingUp,
    ResolvingParent,
    Creating,
    Finished(Result<String, String>),
}

impl View for JobPhase {
    type V = JobPhaseView;

    open spec fn view(&self) -> JobPhaseView {
        match self {
            JobPhase::Resolving => JobPhaseView::Resolving,
            JobPhase::Inspecting => JobPhaseView::Inspecting,
            JobPhase::Reading => JobPhaseView::Reading,
            JobPhase::Replacing { before_sha256, after_sha256 } => JobPhaseView::Replacing {
                before_sha256: before_sha256@,
                after_sha256: after_sha256@,
            },
            JobPhase::LookingUp => JobPhaseView::LookingUp,
            JobPhase::ResolvingParent => JobPhaseView::ResolvingParent,
            JobPhase::Creating => JobPhaseView::Creating,
            JobPhase::Finished(item) => JobPhaseView::Finished(outcome_view(*item)),
        }
    }
}

impl Clone for JobPhase {
    fn clone(&self) -> (r: Self)
        ensures
            r@ == self@,
    {
        let r = match self {
            JobPhase::Resolving => JobPhase::Resolving,
            JobPhase::Inspecting => JobPhase::Inspecting,
            JobPhase::Reading => JobPhase::Reading,
            JobPhase::Replacing { before_sha256, after_sha256 } => JobPhase::Replacing {
                before_sha256: before_sha256.clone(),
                after_sha256: after_sha256.clone(),
            },
            JobPhase::LookingUp => JobPhase::LookingUp,
            JobPhase::ResolvingParent => JobPhase::ResolvingParent,
            JobPhase::Creating => JobPhase::Creating,
            JobPhase::Finished(Ok(content)) => JobPhase::Finished(Ok(content.clone())),
            JobPhase::Finished(Err(error)) => JobPhase::Finished(Err(error.clone())),
        };
        assert(r@ =~~= self@);
        r
    }
}

/// The content of a [`ToolJob`].
#[verifier::ext_equal]
pub struct ToolJobView {
    pub request: ToolRequestView,
    pub phase: JobPhaseView,
}

/// The state of one tool call on the workspace.
#[derive(Debug)]
pub struct ToolJob {
    pub request: ToolRequest,
    pub phase: JobPhase,
}

impl View for ToolJob {
    type V = ToolJobView;

    open spec fn view(&self) -> ToolJobView {
        ToolJobView {
            request: self.request@,
            phase: self.phase@,
        }
    }
}

impl ToolRequestView {
    pub open spec fn path(self) -> Text {
        match self {
            ToolRequestView::ReadFile { path } => path,
            ToolRequestView::EditFile { path, .. } => path,
        }
    }
}

/// The content of a successful `read_file`.
pub open spec fn read_content(path: Text, content: Text) -> Text {
    json_object(seq![json_text_member("content"@, content), json_text_member("path"@, path)])
}

/// The content of a successful edit of an existing file.
pub open spec fn edit_content(path: Text, before: Text, after: Text) -> Text {
    json_object(
        seq![
            json_text_member("afterSha256"@, after),
            json_text_member("beforeSha256"@, before),
            json_text_member("path"@, path),
        ],
    )
}

/// The content of a successful edit of an existing file, given its digests.
pub fn edit_report(path: &str, before: &str, after: &str) -> (r: String)
    ensures
        r@ == edit_content(path@, before@, after@),
{
    object_json(
        &three(
            text_member("afterSha256", after),
            text_member("beforeSha256", before),
            text_member("path", path),
        ),
    )
}

/// The content of a successful creation of a file.
pub open spec fn create_content(path: Text, after: Text) -> Text {
    json_object(
        seq![
            json_text_member("afterSha256"@, after),
            json_member("created"@, "true"@),
            json_text_member("path"@, path),
        ],
    )
}

/// The content of a successful creation of a file, given its digest.
pub fn create_report(path: &str, after: &str) -> (r: String)
    ensures
        r@ == create_content(path@, after@),
{
    object_json(
        &three(
            text_member("afterSha256", after),
            member_json("created", "true"),
            text_member("path", path),
        ),
    )
}

impl ToolJobView {
    pub open spec fn finished(self, outcome: Result<Text, Text>) -> (ToolJobView, Option<FileActionView>) {
        (ToolJobView { phase: JobPhaseView::Finished(outcome), ..self }, None)
    }

    pub open spec fn refused(self, error: Text) -> (ToolJobView, Option<FileActionView>) {
        self.finished(Err(error))
    }

    pub open spec fn asking(self, phase: JobPhaseView, action: FileActionView) -> (
        ToolJobView,
        Option<FileActionView>,
    ) {
        (ToolJobView { phase, ..self }, Some(action))
    }

    /// The path of the call, as error messages print it.
    pub open spec fn shown_path(self) -> Text {
        debug_form(self.request.path())
    }

    /// The state and the first file work of a call. A path that a tool does
    /// not accept is refused before any file work.
    pub open spec fn begun(self) -> (ToolJobView, Option<FileActionView>) {
        let path = self.request.path();
        if !is_relative_path(path) {
            self.refused(path_refusal())
        } else {
            match self.request {
                ToolRequestView::EditFile { old_text, .. } if old_text.len() == 0 => self.asking(
                    JobPhaseView::LookingUp,
                    FileActionView::Lookup(path),
                ),
                _ => self.asking(JobPhaseView::Resolving, FileActionView::Resolve(path)),
            }
        }
    }

    /// The transition of a call on the outcome of its last file work. An
    /// outcome that does not belong to that work changes nothing.
    pub open spec fn step(self, outcome: FileOutcomeView) -> (ToolJobView, Option<FileActionView>) {
        let path = self.request.path();
        match (self.phase, outcome) {
            (JobPhaseView::Resolving, FileOutcomeView::Failed(error)) => self.refused(
                "could not resolve "@ + self.shown_path() + ": "@ + error,
            ),
            (JobPhaseView::Resolving, FileOutcomeView::Resolved { inside }) => if inside {
                self.asking(JobPhaseView::Inspecting, FileActionView::Inspect)
            } else {
                self.refused("path "@ + self.shown_path() + " resolves outside the workspace"@)
            },
            (JobPhaseView::Inspecting, FileOutcomeView::Failed(error)) => self.refused(
                "could not inspect "@ + self.shown_path() + ": "@ + error,
            ),
            (JobPhaseView::Inspecting, FileOutcomeView::Inspected { is_file, size }) => if !is_file {
                self.refused("path "@ + self.shown_path() + " is not a file"@)
            } else if self.request is ReadFile && size > MAX_READ_BYTES {
                self.refused(
                    "file "@ + self.shown_path() + " is "@ + decimal(size as nat)
                        + " bytes; the read_file limit is "@ + decimal(MAX_READ_BYTES as nat)
                        + " bytes"@,
                )
            } else {
                self.asking(JobPhaseView::Reading, FileActionView::ReadText)
            },
            (JobPhaseView::Reading, FileOutcomeView::Failed(error)) => self.refused(
                "could not read "@ + self.shown_path() + " as UTF-8 text: "@ + error,
            ),
            (JobPhaseView::Reading, FileOutcomeView::Text(content)) => match self.request {
                ToolRequestView::ReadFile { path } => self.finished(Ok(read_content(path, content))),
                ToolRequestView::EditFile { old_text, new_text, .. } => match edited(
                    content,
                    old_text,
                    new_text,
                ) {
                    Ok(updated) => self.asking(
                        JobPhaseView::Replacing {
                            before_sha256: sha256_hex(content),
                            after_sha256: sha256_hex(updated),
                        },
                        FileActionView::Replace(updated),
                    ),
                    Err(error) => self.refused(error),
                },
            },
            (JobPhaseView::Replacing { .. }, FileOutcomeView::TaskFailed(error)) => self.refused(
                "edit_file write task failed: "@ + error,
            ),
            (JobPhaseView::Replacing { .. }, FileOutcomeView::Failed(error)) => self.refused(
                "could not update "@ + self.shown_path() + ": "@ + error,
            ),
            (JobPhaseView::Replacing { before_sha256, after_sha256 }, FileOutcomeView::Done) => self.finished(
                Ok(edit_content(path, before_sha256, after_sha256)),
            ),
            (JobPhaseView::LookingUp, FileOutcomeView::Taken) => self.refused(
                "edit_file old_text may only be empty when creating a missing file"@,
            ),
            (JobPhaseView::LookingUp, FileOutcomeView::Missing) => self.asking(
                JobPhaseView::ResolvingParent,
                FileActionView::ResolveParent(path),
            ),
            (JobPhaseView::LookingUp, FileOutcomeView::Failed(error)) => self.refused(
                "could not inspect "@ + self.shown_path() + " before creating it: "@ + error,
            ),
            (JobPhaseView::ResolvingParent, FileOutcomeView::NoParent) => self.refused(
                "new file has no parent directory"@,
            ),
            (JobPhaseView::ResolvingParent, FileOutcomeView::Failed(error)) => self.refused(
                "could not resolve the parent directory for "@ + self.shown_path() + ": "@ + error,
            ),
            (JobPhaseView::ResolvingParent, FileOutcomeView::ParentResolved { inside, named }) => if !inside {
                self.refused("path "@ + self.shown_path() + " resolves outside the workspace"@)
            } else if !named {
                self.refused("new file has no file name"@)
            } else {
                match self.request {
                    ToolRequestView::EditFile { new_text, .. } => self.asking(
                        JobPhaseView::Creating,
                        FileActionView::Create(new_text),
                    ),
                    _ => (self, None),
                }
            },
            (JobPhaseView::Creating, FileOutcomeView::TaskFailed(error)) => self.refused(
                "edit_file write task failed: "@ + error,
            ),
            (JobPhaseView::Creating, FileOutcomeView::Failed(error)) => self.refused(
                "could not create "@ + self.shown_path() + ": "@ + error,
            ),
            (JobPhaseView::Creating, FileOutcomeView::Done) => match self.request {
                ToolRequestView::EditFile { new_text, .. } => self.finished(
                    Ok(create_content(path, sha256_hex(new_text))),
                ),
                _ => (self, None),
            },
            _ => (self, None),
        }
    }
}

impl ToolJob {
    /// Begins a call: its state and the first file work it asks for. Without
    /// file work the call is finished.
    pub fn start(request: ToolRequest) -> (r: (ToolJob, Option<FileAction>))
        ensures
            (r.0@, opt_view(r.1)) == (ToolJobView {
                request: request@,
                phase: JobPhaseView::Resolving,
            }).begun(),
            r.0@.ready(),
    {
        let path = match &request {
            ToolRequest::ReadFile { path } => path.clone(),
            ToolRequest::EditFile { path, .. } => path.clone(),
        };
        if let Err(refusal) = validate_relative_path(&path) {
            return (ToolJob { request, phase: JobPhase::Finished(Err(refusal)) }, None);
        }
        let creates = match &request {
            ToolRequest::EditFile { old_text, .. } => old_text.as_str().is_empty(),
            _ => false,
        };
        if creates {
            (ToolJob { request, phase: JobPhase::LookingUp }, Some(FileAction::Lookup(path)))
        } else {
            (ToolJob { request, phase: JobPhase::Resolving }, Some(FileAction::Resolve(path)))
        }
    }

    fn shown(&self) -> (r: String)
        ensures
            r@ == self@.shown_path(),
    {
        match &self.request {
            ToolRequest::ReadFile { path } => debug_text(path),
            ToolRequest::EditFile { path, .. } => debug_text(path),
        }
    }

    fn path(&self) -> (r: String)
        ensures
            r@ == self@.request.path(),
    {
        match &self.request {
            ToolRequest::ReadFile { path } => path.clone(),
            ToolRequest::EditFile { path, .. } => path.clone(),
        }
    }

    fn refuse(&mut self, error: String)
        ensures
            final(self)@ == old(self)@.refused(error@).0,
    {
        self.phase = JobPhase::Finished(Err(error));
    }

    /// Takes the outcome of the last file work and returns the next, if any.
    pub fn step(&mut self, outcome: FileOutcome) -> (r: Option<FileAction>)
        requires
            old(self)@.ready(),
        ensures
            old(self)@.step(outcome@) == (final(self)@, opt_view(r)),
            final(self)@.ready(),
    {
        let ghost start = self@;
        let mut phase = JobPhase::Resolving;
        core::mem::swap(&mut self.phase, &mut phase);
        let mut next: Option<FileAction> = None;
        match (phase, outcome) {
            (JobPhase::Resolving, FileOutcome::Failed(error)) => {
                let text = concat(&concat3("could not resolve ", &self.shown(), ": "), &error);
                self.refuse(text);
            },
            (JobPhase::Resolving, FileOutcome::Resolved { inside }) => {
                if inside {
                    self.phase = JobPhase::Inspecting;
                    next = Some(FileAction::Inspect);
                } else {
                    let text = concat3("path ", &self.shown(), " resolves outside the workspace");
                    self.refuse(text);
                }
            },
            (JobPhase::Inspecting, FileOutcome::Failed(error)) => {
                let text = concat(&concat3("could not inspect ", &self.shown(), ": "), &error);
                self.refuse(text);
            },
            (JobPhase::Inspecting, FileOutcome::Inspected { is_file, size }) => {
                let reads = match &self.request {
                    ToolRequest::ReadFile { .. } => true,
                    _ => false,
                };
                if !is_file {
                    let text = concat3("path ", &self.shown(), " is not a file");
                    self.refuse(text);
                } else if reads && size > MAX_READ_BYTES {
                    let head = concat3("file ", &self.shown(), " is ");
                    let middle = concat3(
                        &head,
                        &decimal_text(size),
                        " bytes; the read_file limit is ",
                    );
                    let text = concat3(&middle, &decimal_text(MAX_READ_BYTES), " bytes");
                    self.refuse(text);
                } else {
                    self.phase = JobPhase::Reading;
                    next = Some(FileAction::ReadText);
                }
            },
            (JobPhase::Reading, FileOutcome::Failed(error)) => {
                let head = concat3("could not read ", &self.shown(), " as UTF-8 text: ");
                self.refuse(concat(&head, &error));
            },
            (JobPhase::Reading, FileOutcome::Text(content)) => {
                match &self.request {
                    ToolRequest::ReadFile { path } => {
                        let result = object_json(
                            &two(text_member("content", &content), text_member("path", path)),
                        );
                        self.phase = JobPhase::Finished(Ok(result));
                    },
                    ToolRequest::EditFile { old_text, new_text, .. } => match apply_edit(
                        &content,
                        old_text,
                        new_text,
                    ) {
                        Ok(updated) => {
                            self.phase =
                            JobPhase::Replacing {
                                before_sha256: sha256(&content),
                                after_sha256: sha256(&updated),
                            };
                            next = Some(FileAction::Replace(updated));
                        },
                        Err(error) => {
                            self.refuse(error);
                        },
                    },
                }
            },
            (JobPhase::Replacing { .. }, FileOutcome::TaskFailed(error)) => {
                self.refuse(concat("edit_file write task failed: ", &error));
            },
            (JobPhase::Replacing { .. }, FileOutcome::Failed(error)) => {
                let text = concat(&concat3("could not update ", &self.shown(), ": "), &error);
                self.refuse(text);
            },
            (JobPhase::Replacing { before_sha256, after_sha256 }, FileOutcome::Done) => {
                let result = edit_report(&self.path(), &before_sha256, &after_sha256);
                self.phase = JobPhase::Finished(Ok(result));
            },
            (JobPhase::LookingUp, FileOutcome::Taken) => {
                self.refuse(
                    "edit_file old_text may only be empty when creating a missing file".to_owned(),
                );
            },
            (JobPhase::LookingUp, FileOutcome::Missing) => {
                self.phase = JobPhase::ResolvingParent;
                next = Some(FileAction::ResolveParent(self.path()));
            },
            (JobPhase::LookingUp, FileOutcome::Failed(error)) => {
                let head = concat3("could not inspect ", &self.shown(), " before creating it: ");
                self.refuse(concat(&head, &error));
            },
            (JobPhase::ResolvingParent, FileOutcome::NoParent) => {
                self.refuse("new file has no parent directory".to_owned());
            },
            (JobPhase::ResolvingParent, FileOutcome::Failed(error)) => {
                let head = concat3(
                    "could not resolve the parent directory for ",
                    &self.shown(),
                    ": ",
                );
                self.refuse(concat(&head, &error));
            },
            (JobPhase::ResolvingParent, FileOutcome::ParentResolved { inside, named }) => {
                if !inside {
                    let text = concat3("path ", &self.shown(), " resolves outside the workspace");
                    self.refuse(text);
                } else if !named {
                    self.refuse("new file has no file name".to_owned());
                } else {
                    match &self.request {
                        ToolRequest::EditFile { new_text, .. } => {
                            next = Some(FileAction::Create(new_text.clone()));
                            self.phase = JobPhase::Creating;
                        },
                        _ => {
                            self.phase = JobPhase::ResolvingParent;
                        },
                    }
                }
            },
            (JobPhase::Creating, FileOutcome::TaskFailed(error)) => {
                self.refuse(concat("edit_file write task failed: ", &error));
            },
            (JobPhase::Creating, FileOutcome::Failed(error)) => {
                let text = concat(&concat3("could not create ", &self.shown(), ": "), &error);
                self.refuse(text);
            },
            (JobPhase::Creating, FileOutcome::Done) => {
                match &self.request {
                    ToolRequest::EditFile { path, new_text, .. } => {
                        let result = create_report(path, &sha256(new_text));
                        self.phase = JobPhase::Finished(Ok(result));
                    },
                    _ => {
                        self.phase = JobPhase::Creating;
                    },
                }
            },
            (phase, _) => {
                self.phase = phase;
            },
        }
        next
    }
}

impl ToolJobView {
    /// A call that reads a file in order to edit it names the text to replace.
    pub open spec fn ready(self) -> bool {
        match self.request {
            ToolRequestView::EditFile { old_text, .. } => old_text.len() > 0 || !(self.phase
                is Resolving || self.phase is Inspecting || self.phase is Reading),
            _ => true,
        }
    }
}

/// The state of a call and its next file work after a sequence of outcomes.
pub open spec fn job_trace(request: ToolRequestView, outcomes: Seq<FileOutcomeView>) -> (
    ToolJobView,
    Option<FileActionView>,
)
    decreases outcomes.len(),
{
    if outcomes.len() == 0 {
        ToolJobView { request, phase: JobPhaseView::Resolving }.begun()
    } else {
        job_trace(request, outcomes.drop_last()).0.step(outcomes.last())
    }
}

/// Whether some file work reaches a file, beyond resolving its path.
pub open spec fn touches(work: FileActionView) -> bool {
    work is Inspect || work is ReadText || work is Replace || work is Create
}

/// Whether the workspace was found to hold what a call is about to touch.
pub open spec fn found_inside(outcomes: Seq<FileOutcomeView>) -> bool {
    exists|i: int|
        0 <= i < outcomes.len() && (#[trigger] outcomes[i] == FileOutcomeView::Resolved {
            inside: true,
        } || outcomes[i] == FileOutcomeView::ParentResolved { inside: true, named: true })
}

proof fn found_inside_grows(outcomes: Seq<FileOutcomeView>, last: FileOutcomeView)
    requires
        found_inside(outcomes),
    ensures
        found_inside(outcomes.push(last)),
{
    let i = choose|i: int|
        0 <= i < outcomes.len() && (#[trigger] outcomes[i] == FileOutcomeView::Resolved {
            inside: true,
        } || outcomes[i] == FileOutcomeView::ParentResolved { inside: true, named: true });
    assert(outcomes.push(last)[i] == outcomes[i]);
}

/// Whatever the file system answers, a call asks to inspect, read, replace or
/// create a file only after its path was accepted by its spelling and the
/// place it leads to was found to lie inside the workspace.
pub proof fn calls_stay_inside_the_workspace(
    request: ToolRequestView,
    outcomes: Seq<FileOutcomeView>,
)
    ensures
        ({
            let (job, action) = job_trace(request, outcomes);
            &&& job.request == request
            &&& action is Some ==> is_relative_path(request.path())
            &&& action matches Some(work) ==> touches(work) ==> found_inside(outcomes)
        }),
{
    calls_keep_inside(request, outcomes);
}

proof fn calls_keep_inside(request: ToolRequestView, outcomes: Seq<FileOutcomeView>)
    ensures
        ({
            let (job, action) = job_trace(request, outcomes);
            &&& job.request == request
            &&& !(job.phase is Finished) ==> is_relative_path(request.path())
            &&& action is Some ==> !(job.phase is Finished)
            &&& job.phase is Inspecting || job.phase is Reading || job.phase is Replacing
                || job.phase is Creating ==> found_inside(outcomes)
            &&& action matches Some(work) ==> touches(work) ==> found_inside(outcomes)
        }),
    decreases outcomes.len(),
{
    if outcomes.len() > 0 {
        let before = outcomes.drop_last();
        let last = outcomes.last();
        calls_keep_inside(request, before);
        assert(before.push(last) =~= outcomes);
        if found_inside(before) {
            found_inside_grows(before, last);
        }
        if last == (FileOutcomeView::Resolved { inside: true }) || last
            == (FileOutcomeView::ParentResolved { inside: true, named: true }) {
            assert(outcomes[outcomes.len() - 1] == last);
            assert(found_inside(outcomes));
        }
    }
}

/// A call asks to replace a file only with the text of an edit that went
/// through, on the text that was just read.
pub proof fn only_unique_edits_are_written(s: ToolJobView, outcome: FileOutcomeView, updated: Text)
    requires
        s.step(outcome).1 == Some(FileActionView::Replace(updated)),
    ensures
        outcome is Text,
        s.request is EditFile,
        edited(outcome->Text_0, s.request->old_text, s.request->new_text) == Ok::<Text, Text>(
            updated,
        ),
        exists|at: int|
            #[trigger] only_match(outcome->Text_0, s.request->old_text, at) && updated == splice(
                outcome->Text_0,
                at,
                s.request->old_text.len(),
                s.request->new_text,
            ),
{
    a_successful_edit_is_one_splice(outcome->Text_0, s.request->old_text, s.request->new_text);
}

/// A call asks to create a file only for an empty old text, and only behind a
/// lookup that found nothing at its path.
pub proof fn files_are_never_overwritten_by_creation(
    request: ToolRequestView,
    outcomes: Seq<FileOutcomeView>,
)
    ensures
        ({
            let (job, action) = job_trace(request, outcomes);
            action matches Some(FileActionView::Create(text)) ==> request is EditFile
                && request->old_text.len() == 0 && text == request->new_text && (exists|i: int|
                0 <= i < outcomes.len() && #[trigger] outcomes[i] is Missing)
        }),
{
    creation_facts(request, outcomes);
}

proof fn creation_facts(request: ToolRequestView, outcomes: Seq<FileOutcomeView>)
    ensures
        ({
            let (job, action) = job_trace(request, outcomes);
            &&& job.request == request
            &&& job.phase is LookingUp || job.phase is ResolvingParent || job.phase is Creating
                ==> request is EditFile && request->old_text.len() == 0
            &&& job.phase is ResolvingParent || job.phase is Creating ==> (exists|i: int|
                0 <= i < outcomes.len() && #[trigger] outcomes[i] is Missing)
            &&& action matches Some(FileActionView::Create(text)) ==> job.phase is Creating && text
                == request->new_text
        }),
    decreases outcomes.len(),
{
    if outcomes.len() > 0 {
        let before = outcomes.drop_last();
        creation_facts(request, before);
        let job = job_trace(request, before).0;
        if job.phase is ResolvingParent || job.phase is Creating {
            let i = choose|i: int| 0 <= i < before.len() && #[trigger] before[i] is Missing;
            assert(outcomes[i] is Missing);
        }
        if outcomes.last() is Missing {
            assert(outcomes[outcomes.len() - 1] is Missing);
        }
    }
}

/// A file over the limit is never read by `read_file`, and what is no file is
/// never read at all: the call ends without more file work.
pub proof fn oversized_files_are_not_read(job: ToolJobView, is_file: bool, size: u64)
    requires
        job.phase is Inspecting,
        !is_file || job.request is ReadFile && size > MAX_READ_BYTES,
    ensures
        ({
            let (next, action) = job.step(FileOutcomeView::Inspected { is_file, size });
            &&& action is None
            &&& next.phase matches JobPhaseView::Finished(outcome) && outcome is Err
        }),
{
}

/// What `read_file` reports, whatever stands behind it: an object with the
/// content of the file and its path.
pub proof fn read_reports_are_written_out(path: Text, content: Text, rest: Text)
    ensures
        read_content(path, content) + rest == "{"@ + member_then(
            "content"@,
            json_quoted(content),
            ","@ + member_then("path"@, json_quoted(path), "}"@ + rest),
        ),
{
    let said = json_text_member("content"@, content);
    let place = json_text_member("path"@, path);
    let end = "}"@ + rest;
    two_members(said, place, rest);
    members_are_written_out("path"@, json_quoted(path), end);
    members_are_written_out("content"@, json_quoted(content), ","@ + (place + end));
}

/// What a model is told of a file tells what stands in the file: the same report
/// means the same content and the same path.
pub proof fn read_reports_are_told_apart(p: Text, a: Text, r: Text, b: Text)
    requires
        read_content(p, a) == read_content(r, b),
    ensures
        a == b,
        p == r,
{
    let none = Seq::<char>::empty();
    let left = member_then("path"@, json_quoted(p), "}"@ + none);
    let right = member_then("path"@, json_quoted(r), "}"@ + none);
    read_reports_are_written_out(p, a, none);
    read_reports_are_written_out(r, b, none);
    same_behind(
        "{"@,
        member_then("content"@, json_quoted(a), ","@ + left),
        member_then("content"@, json_quoted(b), ","@ + right),
    );
    text_members_are_told_apart("content"@, a, b, ","@ + left, ","@ + right);
    same_behind(","@, left, right);
    text_members_are_told_apart("path"@, p, r, "}"@ + none, "}"@ + none);
}

/// The report of an edit: the digests of the file after and before it, and the
/// path.
pub proof fn edit_reports_are_written_out(path: Text, before: Text, after: Text, rest: Text)
    ensures
        edit_content(path, before, after) + rest == "{"@ + member_then(
            "afterSha256"@,
            json_quoted(after),
            ","@ + member_then(
                "beforeSha256"@,
                json_quoted(before),
                ","@ + member_then("path"@, json_quoted(path), "}"@ + rest),
            ),
        ),
        create_content(path, after) + rest == "{"@ + member_then(
            "afterSha256"@,
            json_quoted(after),
            ","@ + member_then(
                "created"@,
                "true"@,
                ","@ + member_then("path"@, json_quoted(path), "}"@ + rest),
            ),
        ),
{
    let first = json_text_member("afterSha256"@, after);
    let second = json_text_member("beforeSha256"@, before);
    let created = json_member("created"@, "true"@);
    let place = json_text_member("path"@, path);
    let end = "}"@ + rest;
    let last = ","@ + (place + end);
    three_members(first, second, place, rest);
    three_members(first, created, place, rest);
    members_are_written_out("path"@, json_quoted(path), end);
    members_are_written_out("beforeSha256"@, json_quoted(before), last);
    members_are_written_out("created"@, "true"@, last);
    members_are_written_out("afterSha256"@, json_quoted(after), ","@ + (second + last));
    members_are_written_out("afterSha256"@, json_quoted(after), ","@ + (created + last));
}

/// The result of a call goes to that call. What a tool reports is handed on as it
/// is; an error is told in the member `error` and marked as one.
pub proof fn results_belong_to_their_call(id: Text, content: Text, error: Text, rest: Text)
    ensures
        call_result(id, Ok(content)) == (ToolResultView {
            tool_call_id: id,
            content,
            is_error: false,
        }),
        call_result(id, Err(error)).tool_call_id == id,
        call_result(id, Err(error)).is_error,
        call_result(id, Err(error)).content + rest == "{"@ + member_then(
            "error"@,
            json_quoted(error),
            "}"@ + rest,
        ),
{
    one_member(json_text_member("error"@, error), rest);
    members_are_written_out("error"@, json_quoted(error), "}"@ + rest);
}

proof fn one_more(request: ToolRequestView, outcomes: Seq<FileOutcomeView>, last: FileOutcomeView)
    ensures
        job_trace(request, outcomes.push(last)) == job_trace(request, outcomes).0.step(last),
{
    assert(outcomes.push(last).drop_last() =~= outcomes);
}

/// A text file inside the workspace, of up to a mebibyte, is read, and the model
/// is told its content.
pub proof fn files_are_read(path: Text, size: u64, content: Text)
    requires
        is_relative_path(path),
        size <= 1048576,
    ensures
        ({
            let request = ToolRequestView::ReadFile { path };
            let found = seq![FileOutcomeView::Resolved { inside: true }];
            let inspected = found.push(FileOutcomeView::Inspected { is_file: true, size });
            let read = inspected.push(FileOutcomeView::Text(content));
            &&& job_trace(request, seq![]).1 == Some(FileActionView::Resolve(path))
            &&& job_trace(request, found).1 == Some(FileActionView::Inspect)
            &&& job_trace(request, inspected).1 == Some(FileActionView::ReadText)
            &&& job_trace(request, read).0.phase == JobPhaseView::Finished(
                Ok(read_content(path, content)),
            )
            &&& job_trace(request, read).1 is None
        }),
{
    let request = ToolRequestView::ReadFile { path };
    let start = Seq::<FileOutcomeView>::empty();
    let found = seq![FileOutcomeView::Resolved { inside: true }];
    let inspected = found.push(FileOutcomeView::Inspected { is_file: true, size });
    assert(found =~= start.push(FileOutcomeView::Resolved { inside: true }));
    one_more(request, start, FileOutcomeView::Resolved { inside: true });
    one_more(request, found, FileOutcomeView::Inspected { is_file: true, size });
    one_more(request, inspected, FileOutcomeView::Text(content));
}

/// An edit whose old text stands in the file at one place writes the file with
/// that place replaced, and then reports the digests of what was there and of
/// what is there now.
pub proof fn files_are_edited(
    path: Text,
    old_text: Text,
    new_text: Text,
    size: u64,
    content: Text,
    at: int,
)
    requires
        is_relative_path(path),
        old_text.len() > 0,
        only_match(content, old_text, at),
    ensures
        ({
            let request = ToolRequestView::EditFile { path, old_text, new_text };
            let found = seq![FileOutcomeView::Resolved { inside: true }];
            let inspected = found.push(FileOutcomeView::Inspected { is_file: true, size });
            let read = inspected.push(FileOutcomeView::Text(content));
            let written = read.push(FileOutcomeView::Done);
            let updated = content.take(at) + new_text + content.skip(at + old_text.len());
            &&& job_trace(request, seq![]).1 == Some(FileActionView::Resolve(path))
            &&& job_trace(request, found).1 == Some(FileActionView::Inspect)
            &&& job_trace(request, inspected).1 == Some(FileActionView::ReadText)
            &&& job_trace(request, read).1 == Some(FileActionView::Replace(updated))
            &&& job_trace(request, written).0.phase == JobPhaseView::Finished(
                Ok(
                    edit_content(
                        path,
                        hex(sha256_digest(encode_utf8(content))),
                        hex(sha256_digest(encode_utf8(updated))),
                    ),
                ),
            )
        }),
{
    let request = ToolRequestView::EditFile { path, old_text, new_text };
    let start = Seq::<FileOutcomeView>::empty();
    let found = seq![FileOutcomeView::Resolved { inside: true }];
    let inspected = found.push(FileOutcomeView::Inspected { is_file: true, size });
    let read = inspected.push(FileOutcomeView::Text(content));
    assert(found =~= start.push(FileOutcomeView::Resolved { inside: true }));
    one_more(request, start, FileOutcomeView::Resolved { inside: true });
    one_more(request, found, FileOutcomeView::Inspected { is_file: true, size });
    one_more(request, inspected, FileOutcomeView::Text(content));
    one_more(request, read, FileOutcomeView::Done);
    an_edit_changes_the_one_match(content, old_text, new_text, at, at);
}

/// An edit of nothing creates a file that is missing, with just the new text, and
/// reports its digest. It never asks to touch a file that is there.
pub proof fn files_are_created(path: Text, new_text: Text)
    requires
        is_relative_path(path),
    ensures
        ({
            let request = ToolRequestView::EditFile { path, old_text: seq![], new_text };
            let missing = seq![FileOutcomeView::Missing];
            let placed = missing.push(FileOutcomeView::ParentResolved { inside: true, named: true });
            let created = placed.push(FileOutcomeView::Done);
            let taken = seq![FileOutcomeView::Taken];
            &&& job_trace(request, seq![]).1 == Some(FileActionView::Lookup(path))
            &&& job_trace(request, missing).1 == Some(FileActionView::ResolveParent(path))
            &&& job_trace(request, placed).1 == Some(FileActionView::Create(new_text))
            &&& job_trace(request, created).0.phase == JobPhaseView::Finished(
                Ok(create_content(path, hex(sha256_digest(encode_utf8(new_text))))),
            )
            &&& job_trace(request, taken).1 is None
            &&& job_trace(request, taken).0.phase matches JobPhaseView::Finished(outcome)
                && outcome is Err
        }),
{
    let request = ToolRequestView::EditFile { path, old_text: seq![], new_text };
    let start = Seq::<FileOutcomeView>::empty();
    let missing = seq![FileOutcomeView::Missing];
    let placed = missing.push(FileOutcomeView::ParentResolved { inside: true, named: true });
    assert(missing =~= start.push(FileOutcomeView::Missing));
    assert(seq![FileOutcomeView::Taken] =~= start.push(FileOutcomeView::Taken));
    one_more(request, start, FileOutcomeView::Missing);
    one_more(request, start, FileOutcomeView::Taken);
    one_more(request, missing, FileOutcomeView::ParentResolved { inside: true, named: true });
    one_more(request, placed, FileOutcomeView::Done);
}

/// A path that does not lead outside by its spelling is accepted: any name
/// without a slash but the parent's, and any such name below an accepted path.
pub proof fn plain_paths_are_accepted(directory: Text, name: Text)
    requires
        name.len() > 0,
        !name.contains('/'),
        name != ".."@,
    ensures
        is_relative_path(name),
        is_relative_path(directory) ==> is_relative_path(directory + seq!['/'] + name),
        !is_relative_path(seq!['/'] + name),
        !is_relative_path(seq![]),
{
    names_are_one_segment(name);
    assert(!split(name, '/').contains(".."@));
    assert(name[0] != '/') by {
        if name[0] == '/' {
            assert(name.contains('/'));
        }
    }
    if is_relative_path(directory) {
        segments_add_up(directory, name);
        let path = directory + seq!['/'] + name;
        let parts = split(path, '/');
        assert forall|i: int| 0 <= i < parts.len() implies parts[i] != ".."@ by {
            if i < split(directory, '/').len() {
                assert(parts[i] == split(directory, '/')[i]);
            } else {
                assert(parts[i] == name);
            }
        }
        assert(path[0] == directory[0]);
    }
}

proof fn names_are_one_segment(name: Text)
    requires
        !name.contains('/'),
    ensures
        split(name, '/') == seq![name],
{
    index_of_bounds(name, '/');
}

proof fn segments_add_up(a: Text, name: Text)
    requires
        !name.contains('/'),
    ensures
        split(a + seq!['/'] + name, '/') == split(a, '/').push(name),
    decreases a.len(),
{
    let all = a + seq!['/'] + name;
    index_of_bounds(a, '/');
    index_of_bounds(all, '/');
    names_are_one_segment(name);
    let at = index_of(a, '/');
    let first = index_of(all, '/');
    assert(all[a.len() as int] == '/');
    if 0 <= at < a.len() {
        assert(all[at] == '/');
        if first < at {
            assert(all[first] == a[first]);
            assert(a.take(at).contains(a[first])) by {
                assert(a.take(at)[first] == a[first]);
            }
        } else if first > at {
            assert(all.take(first)[at] == '/');
            assert(all.take(first).contains('/'));
        }
        assert(first == at);
        assert(all.take(at) =~= a.take(at));
        assert(all.skip(at + 1) =~= a.skip(at + 1) + seq!['/'] + name);
        segments_add_up(a.skip(at + 1), name);
        assert(split(all, '/') =~= split(a, '/').push(name));
    } else {
        if first < a.len() {
            assert(all[first] == a[first]);
            assert(a.contains('/'));
        } else if first > a.len() {
            assert(all.take(first)[a.len() as int] == '/');
            assert(all.take(first).contains('/'));
        }
        assert(all.take(a.len() as int) =~= a);
        assert(all.skip(a.len() as int + 1) =~= name);
        assert(split(all, '/') =~= split(a, '/').push(name));
    }
}

/// Whatever fails while a tool works on a file, the call ends with an error that says why, and
/// asks for nothing more; a place outside of the workspace ends it too.
pub proof fn tool_failures_are_told(job: ToolJobView, error: Text)
    requires
        !(job.phase is Finished),
    ensures
        ({
            let (next, action) = job.step(FileOutcomeView::Failed(error));
            &&& action is None
            &&& next.phase matches JobPhaseView::Finished(outcome) && (outcome matches Err(text)
                && text.len() >= error.len() && text.skip(text.len() - error.len()) == error)
        }),
        job.phase is Resolving ==> (job.step(
            FileOutcomeView::Resolved { inside: false },
        ).0.phase matches JobPhaseView::Finished(outcome) && outcome is Err),
        job.phase is ResolvingParent ==> (job.step(
            FileOutcomeView::ParentResolved { inside: false, named: true },
        ).0.phase matches JobPhaseView::Finished(outcome) && outcome is Err),
        job.phase is Replacing || job.phase is Creating ==> (job.step(
            FileOutcomeView::TaskFailed(error),
        ).0.phase matches JobPhaseView::Finished(outcome) && outcome is Err),
        job.phase is Inspecting ==> (job.step(
            FileOutcomeView::Inspected { is_file: false, size: 0 },
        ).0.phase matches JobPhaseView::Finished(outcome) && outcome is Err),
{
    let shown = job.shown_path();
    let (next, action) = job.step(FileOutcomeView::Failed(error));
    let text = next.phase->Finished_0->Err_0;
    assert(text.skip(text.len() - error.len()) =~= error);
}

} // verus!
