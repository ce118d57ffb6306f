use pie::json::Json;
use pie::message::{TextContent, UserContentBlock};
use pie::path::{name_of, parent_of, PathKey};
use pie::tools::fs_guard::{absolutize, anchor, lock_key, LockRegistry};
use pie::tools::write::{WriteRequest, WriteTool};

fn write_request(path: &str, content: &str) -> WriteRequest {
    WriteRequest {
        path: path.into(),
        content: content.into(),
    }
}

#[test]
fn same_file_same_lock() {
    let mut registry = LockRegistry::new();
    let first = registry.lock_for("/d/f.txt");
    let other = registry.lock_for("/d/g.txt");
    assert_ne!(first, other);
    assert_eq!(registry.lock_for("/d/f.txt"), first);
    assert_eq!(registry.lock_for("/d/./f.txt"), first);
    assert_eq!(registry.lock_for("/d//f.txt/"), first);
    assert_eq!(registry.lock_for("/d/g.txt"), other);
    assert_ne!(registry.lock_for("d/f.txt"), first);
    assert_eq!(registry.count(), 3);
}

#[test]
fn paths_are_the_same_where_the_standard_library_says_so() {
    let paths = [
        "", "/", ".", "./", "a", "a/", "./a", "a/.", "a/./b", "a//b", "a/b", "/a", "//a", "/./a",
        "..", "../a", "a/..", "/.", "./.",
    ];
    for x in paths {
        for y in paths {
            let ours = PathKey::of(x).same(&PathKey::of(y));
            let theirs = std::path::Path::new(x) == std::path::Path::new(y);
            assert_eq!(ours, theirs, "{x:?} {y:?}");
        }
    }
}

#[test]
fn parents_and_names_are_those_of_the_standard_library() {
    let pieces = ["", ".", "..", "a", "b.c", "ä"];
    let mut paths: Vec<String> = vec![];
    for x in pieces {
        paths.push(x.to_string());
        for y in pieces {
            paths.push(format!("{x}/{y}"));
            for z in pieces {
                paths.push(format!("{x}/{y}/{z}"));
                paths.push(format!("/{x}/{y}/{z}/"));
            }
        }
    }
    for path in paths {
        let theirs = std::path::Path::new(&path);
        assert_eq!(
            parent_of(&path),
            theirs.parent().map(|p| p.to_string_lossy().to_string()),
            "{path:?}"
        );
        assert_eq!(
            name_of(&path),
            theirs.file_name().map(|n| n.to_string_lossy().to_string()),
            "{path:?}"
        );
    }
    assert_eq!(name_of("/"), None);
    assert_eq!(name_of("a/.."), None);
    assert_eq!(parent_of("a").as_deref(), Some(""));
    assert_eq!(parent_of("/a").as_deref(), Some("/"));
}

#[test]
fn lock_keys() {
    // A file that exists goes by its canonical path.
    assert_eq!(lock_key("link", Some("/real/f".into()), None, Some("/w")), "/real/f");
    // A new file goes by its directory.
    assert_eq!(anchor("d/new").as_deref(), Some("d"));
    assert_eq!(anchor("new").as_deref(), Some("."));
    assert_eq!(anchor("/new").as_deref(), Some("/"));
    assert_eq!(anchor("/"), None);
    assert_eq!(anchor("d/.."), None);
    assert_eq!(
        lock_key("d/new", None, Some("/real/d".into()), Some("/w")),
        "/real/d/new"
    );
    // Where there is no directory either, the path is seen from the working directory.
    assert_eq!(lock_key("d/new", None, None, Some("/w")), "/w/d/new");
    assert_eq!(lock_key("..", None, Some("/real".into()), Some("/w")), "/w/..");
    assert_eq!(absolutize("/a", Some("/w")), "/a");
    assert_eq!(absolutize("a", None), "a");
}

#[test]
fn the_write_tool_is_described() {
    let tool = WriteTool.definition();
    assert_eq!(WriteTool.label(), "write");
    assert_eq!(tool.name, "write");
    assert_eq!(
        tool.description,
        "Write (or overwrite) a UTF-8 text file. Parent directories are created if missing."
    );
    assert_eq!(
        tool.parameters.compact(),
        r#"{"properties":{"content":{"description":"Full file contents","type":"string"},"path":{"description":"Path to the file (relative or absolute)","type":"string"}},"required":["path","content"],"type":"object"}"#
    );
}

#[test]
fn write_parameters_are_checked() {
    let ask = |text: &str| WriteTool.request(&Json::parse(text).unwrap());
    assert_eq!(
        ask(r#"{"path":"f.txt","content":"new"}"#),
        Ok(write_request("f.txt", "new"))
    );
    assert_eq!(ask("{}").unwrap_err().message, "missing `path`");
    assert_eq!(
        ask(r#"{"path":1,"content":"x"}"#).unwrap_err().message,
        "missing `path`"
    );
    assert_eq!(
        ask(r#"{"path":"f"}"#).unwrap_err().message,
        "missing `content`"
    );
    assert_eq!(ask("[]").unwrap_err().message, "missing `path`");
}

#[test]
fn parents_are_made_for_all_but_bare_names() {
    let parent = |path: &str| WriteTool.parent_to_make(&write_request(path, ""));
    assert_eq!(parent("d/f.txt").as_deref(), Some("d"));
    assert_eq!(parent("/f.txt").as_deref(), Some("/"));
    assert_eq!(parent("f.txt"), None);
    assert_eq!(parent("/"), None);
}

#[test]
fn what_was_written_is_reported() {
    let result = WriteTool
        .finish(&write_request("f.txt", "ä\nb\r\nc"), Ok(()))
        .unwrap();
    assert_eq!(
        result.content,
        vec![UserContentBlock::Text(TextContent {
            text: "Wrote 7 bytes (3 lines) to f.txt".into(),
        })]
    );
    assert_eq!(
        result.details.compact(),
        r#"{"bytes":7,"lines":3,"path":"f.txt"}"#
    );
    assert_eq!(result.terminate, None);
    let lines = |content: &str| {
        let result = WriteTool.finish(&write_request("f", content), Ok(())).unwrap();
        result.details.get("lines").cloned()
    };
    for content in ["", "\n", "a", "a\n", "a\n\n", "\n\na", "a\nb"] {
        assert_eq!(
            lines(content),
            Some(Json::number(content.lines().count() as u64)),
            "{content:?}"
        );
    }
    let error = WriteTool
        .finish(&write_request("f.txt", ""), Err("denied".into()))
        .unwrap_err();
    assert_eq!(error.message, "write f.txt: denied");
}
