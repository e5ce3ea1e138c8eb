//! The workspace tools.

use std::collections::BTreeMap;

use nexa::protocol::ToolResult;
use nexa::tools::{
    apply_edit, create_report, definitions, edit_report, invalid_arguments_text, tool_kind, tool_result, unknown_tool_text,
    validate_relative_path, FileAction, FileOutcome, JobPhase, ToolJob, ToolKind, ToolRequest,
    WorkspaceTools, WorkspaceToolsError, MAX_READ_BYTES,
};

/// Runs a request against files that are kept in memory.
fn execute(files: &mut BTreeMap<String, String>, id: &str, request: ToolRequest) -> ToolResult {
    let path = match &request {
        ToolRequest::ReadFile { path } | ToolRequest::EditFile { path, .. } => path.clone(),
    };
    let (mut job, mut action) = ToolJob::start(request);
    while let Some(next) = action {
        let outcome = match next {
            FileAction::Resolve(_) => match files.get(&path) {
                Some(_) => FileOutcome::Resolved { inside: true },
                None => FileOutcome::Failed("not found".to_owned()),
            },
            FileAction::Inspect => FileOutcome::Inspected {
                is_file: true,
                size: files[&path].len() as u64,
            },
            FileAction::ReadText => FileOutcome::Text(files[&path].clone()),
            FileAction::Replace(content) | FileAction::Create(content) => {
                files.insert(path.clone(), content);
                FileOutcome::Done
            }
            FileAction::Lookup(_) => match files.get(&path) {
                Some(_) => FileOutcome::Taken,
                None => FileOutcome::Missing,
            },
            FileAction::ResolveParent(_) => FileOutcome::ParentResolved {
                inside: true,
                named: true,
            },
        };
        action = job.step(outcome);
    }
    match job.phase {
        JobPhase::Finished(outcome) => tool_result(id.to_owned(), outcome),
        other => panic!("unfinished: {other:?}"),
    }
}

fn edit(path: &str, old_text: &str, new_text: &str) -> ToolRequest {
    ToolRequest::EditFile {
        path: path.to_owned(),
        old_text: old_text.to_owned(),
        new_text: new_text.to_owned(),
    }
}

fn read(path: &str) -> ToolRequest {
    ToolRequest::ReadFile {
        path: path.to_owned(),
    }
}

#[test]
fn reads_and_edits_one_exact_match() {
    let mut files = BTreeMap::from([("notes.txt".to_owned(), "alpha\nbeta\n".to_owned())]);

    let result = execute(&mut files, "read-1", read("notes.txt"));
    assert!(!result.is_error);
    assert!(result.content.contains("alpha\\nbeta\\n"));
    assert_eq!(
        result.content,
        "{\"content\":\"alpha\\nbeta\\n\",\"path\":\"notes.txt\"}"
    );

    let result = execute(&mut files, "edit-1", edit("notes.txt", "beta", "gamma"));
    assert!(!result.is_error);
    assert_eq!(files["notes.txt"], "alpha\ngamma\n");
}

#[test]
fn creates_a_missing_file_from_an_empty_old_text() {
    let mut files = BTreeMap::new();

    let create = execute(&mut files, "edit-1", edit("hello.md", "", "hello\n"));
    assert!(!create.is_error);
    assert!(create.content.contains(r#""created":true"#));
    assert_eq!(files["hello.md"], "hello\n");
    // The digest of "hello\n".
    assert!(create
        .content
        .contains("5891b5b522d5df086d0ff0b110fbd9d21bb4fc7163af34d08286a2e846f6be03"));

    let overwrite = execute(&mut files, "edit-2", edit("hello.md", "", "replaced\n"));
    assert!(overwrite.is_error);
    assert!(overwrite.content.contains("only be empty"));
    assert_eq!(files["hello.md"], "hello\n");
}

#[test]
fn rejects_ambiguous_edits_and_workspace_escapes() {
    let mut files = BTreeMap::from([("notes.txt".to_owned(), "same same".to_owned())]);

    let ambiguous = execute(&mut files, "edit-1", edit("notes.txt", "same", "other"));
    assert!(ambiguous.is_error);
    assert!(ambiguous.content.contains("matched 2 locations"));

    let escaped = execute(&mut files, "read-1", read("../outside.txt"));
    assert!(escaped.is_error);
    assert!(escaped.content.contains("relative to the workspace"));
    assert_eq!(files["notes.txt"], "same same");
}

#[test]
fn paths_stay_below_the_root() {
    for path in ["a", "a/b.txt", "./a", "a/./b", "a//b", "..a"] {
        assert!(validate_relative_path(path).is_ok(), "{path}");
    }
    for path in ["", "/a", "..", "a/../b", "../a", "a/.."] {
        assert!(validate_relative_path(path).is_err(), "{path}");
    }
}

#[test]
fn edits_need_one_match() {
    assert_eq!(apply_edit("abc", "b", "xx").unwrap(), "axxc");
    assert_eq!(
        apply_edit("abc", "z", "x").unwrap_err(),
        "edit_file old_text did not match the file"
    );
    assert_eq!(
        apply_edit("aaaa", "aa", "x").unwrap_err(),
        "edit_file old_text matched 3 locations; provide more context"
    );
    assert_eq!(
        apply_edit("aaa", "aa", "b").unwrap_err(),
        "edit_file old_text matched 2 locations; provide more context"
    );
}

#[test]
fn overlapping_matches_are_ambiguous() {
    let mut files = BTreeMap::from([("f.txt".to_owned(), "aaa".to_owned())]);
    let result = execute(&mut files, "edit-1", edit("f.txt", "aa", "b"));
    assert!(result.is_error);
    assert_eq!(files["f.txt"], "aaa");
}

#[test]
fn failures_of_the_file_system_are_told() {
    let (mut job, _) = ToolJob::start(read("a"));
    job.step(FileOutcome::Failed("denied".to_owned()));
    assert_eq!(
        job.phase,
        JobPhase::Finished(Err("could not resolve \"a\": denied".to_owned()))
    );
    let (mut job, _) = ToolJob::start(read("a"));
    job.step(FileOutcome::Resolved { inside: false });
    assert_eq!(
        job.phase,
        JobPhase::Finished(Err("path \"a\" resolves outside the workspace".to_owned()))
    );
    let (mut job, _) = ToolJob::start(read("a"));
    job.step(FileOutcome::Resolved { inside: true });
    job.step(FileOutcome::Inspected {
        is_file: false,
        size: 0,
    });
    assert_eq!(
        job.phase,
        JobPhase::Finished(Err("path \"a\" is not a file".to_owned()))
    );
    let (mut job, _) = ToolJob::start(read("a"));
    job.step(FileOutcome::Resolved { inside: true });
    assert_eq!(
        job.step(FileOutcome::Inspected {
            is_file: true,
            size: MAX_READ_BYTES + 1,
        }),
        None
    );
    assert_eq!(
        job.phase,
        JobPhase::Finished(Err(
            "file \"a\" is 1048577 bytes; the read_file limit is 1048576 bytes".to_owned()
        ))
    );
    let (mut job, _) = ToolJob::start(edit("d/a", "", "x"));
    job.step(FileOutcome::Missing);
    job.step(FileOutcome::ParentResolved {
        inside: false,
        named: true,
    });
    assert_eq!(
        job.phase,
        JobPhase::Finished(Err(
            "path \"d/a\" resolves outside the workspace".to_owned()
        ))
    );
}

#[test]
fn tools_are_described() {
    let tools = definitions();
    assert_eq!(tools.len(), 2);
    assert_eq!(tools[0].name, "read_file");
    assert_eq!(tools[1].name, "edit_file");
    let schema: serde_json::Value = serde_json::from_str(&tools[1].input_schema).unwrap();
    assert_eq!(schema["required"][2], "new_text");
    assert_eq!(schema["additionalProperties"], false);
    assert_eq!(tool_kind("read_file"), Some(ToolKind::ReadFile));
    assert_eq!(tool_kind("edit_file"), Some(ToolKind::EditFile));
    assert_eq!(tool_kind("rm"), None);
    assert_eq!(unknown_tool_text("a\"b"), "unknown tool \"a\\\"b\"");
    assert_eq!(
        invalid_arguments_text(ToolKind::ReadFile, "eof"),
        "invalid read_file arguments: eof"
    );
    let refused = tool_result("c".to_owned(), Err("a\nb".to_owned()));
    assert_eq!(refused.content, "{\"error\":\"a\\nb\"}");
    assert!(refused.is_error);
}

#[test]
fn a_workspace_needs_a_directory() {
    assert_eq!(
        WorkspaceTools::new(Ok("/w".to_owned()), true).unwrap().root,
        "/w"
    );
    let error = WorkspaceTools::new(Ok("/w".to_owned()), false).unwrap_err();
    assert_eq!(
        error.message(),
        "invalid workspace root: workspace root is not a directory"
    );
    assert_eq!(
        WorkspaceTools::new(Err("gone".to_owned()), true).unwrap_err(),
        WorkspaceToolsError::Root("gone".to_owned())
    );
}

#[test]
fn reports_name_the_path_and_the_digests() {
    assert_eq!(
        edit_report("src/lib.rs", "aa", "bb"),
        "{\"afterSha256\":\"bb\",\"beforeSha256\":\"aa\",\"path\":\"src/lib.rs\"}"
    );
    assert_eq!(
        create_report("notes \"1\".md", "cc"),
        "{\"afterSha256\":\"cc\",\"created\":true,\"path\":\"notes \\\"1\\\".md\"}"
    );
}

#[test]
fn edits_report_sha256_digests() {
    let mut files = BTreeMap::from([("a.txt".to_owned(), "one two".to_owned())]);
    let edited = execute(
        &mut files,
        "call",
        ToolRequest::EditFile {
            path: "a.txt".to_owned(),
            old_text: "two".to_owned(),
            new_text: "three".to_owned(),
        },
    );
    assert_eq!(
        edited.content,
        edit_report(
            "a.txt",
            "8ab63e29a4ba14e4e1688f9c15e5af90895421358c945b0431f85d66977bd3d2",
            "193ff9861a93424e0109733e14e47acb1a7084d42608775acfa327f9636380a4",
        )
    );
}
