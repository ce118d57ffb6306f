use pie::env::exec::{
    EndingExec, ExecOptions, ExecProgress, ExecStep, ExecutionErrorCode, ProcessEnd, RunningExec,
    StreamBuffer,
};
use pie::env::files::{
    create_action, file_info_from_meta, found, map_io_error, outcome_on, remove_action,
    CreateAction, DirEntry, DirListing, FileErrorCode, FileKind, FileMetadata, IoErrorKind,
    IoFailure, LineReader, RemoveAction,
};
use pie::env::native::{temp_dir_path, temp_file_path, NativeEnv};

fn env() -> NativeEnv {
    NativeEnv::new("/work".to_string())
}

fn failure(kind: IoErrorKind) -> IoFailure {
    IoFailure {
        kind,
        message: "why".into(),
    }
}

fn plain_file() -> FileMetadata {
    FileMetadata {
        is_symlink: false,
        is_dir: false,
        len: 3,
        modified_ms: Some(1_700_000_000_123),
    }
}

#[test]
fn paths_are_seen_from_the_directory() {
    assert_eq!(env().cwd(), "/work");
    assert_eq!(env().resolve("a/b"), "/work/a/b");
    assert_eq!(env().absolute_path("/etc/hosts"), "/etc/hosts");
    assert_eq!(env().resolve(""), "/work/");
    assert_eq!(NativeEnv::new("/".into()).resolve("a"), "/a");
    assert_eq!(NativeEnv::new("".into()).resolve("a"), "a");
    assert_eq!(env().join_path(&["a", "b", "c"]), "a/b/c");
    assert_eq!(env().join_path(&["a/", "b"]), "a/b");
    assert_eq!(env().join_path(&["a", "/b", "c"]), "/b/c");
    assert_eq!(env().join_path(&[]), "");
}

#[test]
fn paths_agree_with_the_standard_library() {
    for base in ["", "/", "a", "a/", "/a//", "a/.", ".."] {
        for path in ["", "b", "/b", "./b", "b/", "../b", "/"] {
            let ours = NativeEnv::new(base.into()).resolve(path);
            let theirs = std::path::Path::new(base).join(path);
            assert_eq!(ours, theirs.to_string_lossy(), "{base:?} {path:?}");
        }
    }
}

#[test]
fn temporary_names() {
    assert_eq!(temp_dir_path("/tmp", None, "u"), "/tmp/tmp--u");
    assert_eq!(temp_dir_path("/tmp", Some("pie"), "u"), "/tmp/pie-u");
    assert_eq!(temp_file_path("/tmp", None, "u", None), "/tmp/u");
    assert_eq!(
        temp_file_path("/tmp", Some("a"), "u", Some(".txt")),
        "/tmp/au.txt"
    );
    let one = env().create_temp_dir("/tmp", Some("pie"));
    let two = env().create_temp_dir("/tmp", Some("pie"));
    assert_ne!(one, two);
    let unique = one.strip_prefix("/tmp/pie-").unwrap();
    assert_eq!(unique.len(), 32);
    assert!(unique
        .chars()
        .all(|c| c.is_ascii_digit() || ('a'..='f').contains(&c)));
    assert_eq!(unique.chars().nth(12), Some('4'));
    assert!(['8', '9', 'a', 'b'].contains(&unique.chars().nth(16).unwrap()));
    let file = env().create_temp_file("/tmp", None, Some(".log"));
    assert_eq!(file.len(), "/tmp/".len() + 32 + ".log".len());
}

#[test]
fn failures_are_mapped() {
    let codes = [
        (IoErrorKind::NotFound, FileErrorCode::NotFound),
        (IoErrorKind::PermissionDenied, FileErrorCode::PermissionDenied),
        (IoErrorKind::InvalidInput, FileErrorCode::InvalidPath),
        (IoErrorKind::InvalidData, FileErrorCode::InvalidPath),
        (IoErrorKind::Other, FileErrorCode::Unknown),
    ];
    for (kind, code) in codes {
        let error = map_io_error(failure(kind), Some("p"));
        assert_eq!(error.code, code);
        assert_eq!(error.message, "why");
        assert_eq!(error.path.as_deref(), Some("p"));
    }
    assert_eq!(map_io_error(failure(IoErrorKind::Other), None).path, None);
    assert_eq!(outcome_on(Ok::<u8, IoFailure>(1), Some("p")), Ok(1));
    assert!(outcome_on(Err::<u8, IoFailure>(failure(IoErrorKind::Other)), None).is_err());
}

#[test]
fn file_infos() {
    let info = file_info_from_meta("n".into(), "/n".into(), plain_file());
    assert_eq!(info.kind, FileKind::File);
    assert_eq!(info.size, 3);
    assert_eq!(info.mtime_ms, 1_700_000_000_123);
    let link = FileMetadata {
        is_symlink: true,
        is_dir: true,
        modified_ms: None,
        ..plain_file()
    };
    let info = file_info_from_meta("n".into(), "/n".into(), link);
    assert_eq!(info.kind, FileKind::Symlink);
    assert_eq!(info.mtime_ms, 0);
    // The time is cut to 64 bits.
    let late = FileMetadata {
        is_dir: true,
        modified_ms: Some(u64::MAX as u128),
        ..plain_file()
    };
    let info = file_info_from_meta("n".into(), "/n".into(), late);
    assert_eq!(info.kind, FileKind::Directory);
    assert_eq!(info.mtime_ms, -1);
    let root = env().file_info("/", Ok(late)).unwrap();
    assert_eq!(root.name, "");
    let info = env().file_info("d/x.txt", Ok(plain_file())).unwrap();
    assert_eq!(info.name, "x.txt");
    assert_eq!(info.path, "/work/d/x.txt");
    assert_eq!(env().parent_to_make("d/x.txt").as_deref(), Some("/work/d"));
    assert_eq!(env().parent_to_make("/"), None);
    let missing = env().file_info("x", Err(failure(IoErrorKind::NotFound)));
    assert_eq!(missing.unwrap_err().path.as_deref(), Some("x"));
}

#[test]
fn listing_a_directory() {
    let mut listing = DirListing::new();
    let good = DirEntry {
        name: "a".into(),
        path: "/work/a".into(),
        metadata: Ok(plain_file()),
    };
    assert_eq!(listing.on_entry(Ok(Some(good)), "."), Ok(true));
    assert_eq!(listing.on_entry(Ok(None), "."), Ok(false));
    let bad = DirEntry {
        name: "b".into(),
        path: "/work/b".into(),
        metadata: Err(failure(IoErrorKind::PermissionDenied)),
    };
    let error = listing.on_entry(Ok(Some(bad)), ".").unwrap_err();
    assert_eq!(error.path.as_deref(), Some("/work/b"));
    let error = listing
        .on_entry(Err(failure(IoErrorKind::Other)), ".")
        .unwrap_err();
    assert_eq!(error.path.as_deref(), Some("."));
    assert_eq!(listing.entries.len(), 1);
    assert_eq!(listing.entries[0].name, "a");
}

#[test]
fn reading_the_first_lines() {
    let mut reader = LineReader::new(Some(2));
    let mut lines = vec!["a", "b", "c"].into_iter();
    while reader.wants_more() {
        let next = lines.next().map(|l| l.to_string());
        if !reader.on_line(Ok(next), "p").unwrap() {
            break;
        }
    }
    assert_eq!(reader.lines, vec!["a", "b"]);
    let mut all = LineReader::new(None);
    assert_eq!(all.cap, usize::MAX);
    assert_eq!(all.on_line(Ok(Some("a".into())), "p"), Ok(true));
    assert_eq!(all.on_line(Ok(None), "p"), Ok(false));
    let error = all
        .on_line(Err(failure(IoErrorKind::InvalidData)), "p")
        .unwrap_err();
    assert_eq!(error.code, FileErrorCode::InvalidPath);
    assert_eq!(all.lines, vec!["a"]);
    assert!(!LineReader::new(Some(0)).wants_more());
}

#[test]
fn existence_creation_and_removal() {
    assert_eq!(found(Ok(plain_file()), "p"), Ok(true));
    assert_eq!(found(Err(failure(IoErrorKind::NotFound)), "p"), Ok(false));
    assert!(found(Err(failure(IoErrorKind::PermissionDenied)), "p").is_err());
    assert_eq!(create_action(true), CreateAction::DirectoryAndParents);
    assert_eq!(create_action(false), CreateAction::Directory);
    let dir = FileMetadata {
        is_dir: true,
        ..plain_file()
    };
    assert_eq!(remove_action(Ok(dir), true, "p"), Ok(RemoveAction::Tree));
    assert_eq!(remove_action(Ok(dir), false, "p"), Ok(RemoveAction::Directory));
    assert_eq!(remove_action(Ok(plain_file()), true, "p"), Ok(RemoveAction::File));
    assert_eq!(
        remove_action(Err(failure(IoErrorKind::NotFound)), true, "p"),
        Ok(RemoveAction::Nothing)
    );
    assert!(remove_action(Err(failure(IoErrorKind::Other)), true, "p").is_err());
}

fn running(timeout_secs: Option<u64>) -> RunningExec {
    let options = ExecOptions {
        timeout_secs,
        ..ExecOptions::default()
    };
    env().exec("true", options).0.spawned(Ok(())).unwrap()
}

fn ending(progress: ExecProgress, timeout_secs: Option<u64>) -> EndingExec {
    match running(timeout_secs).progressed(progress) {
        ExecStep::Ending(end) => end,
        ExecStep::Running(_) => panic!("the command has come to an end"),
    }
}

fn ended(end: ProcessEnd) -> ExecProgress {
    ExecProgress {
        aborted: false,
        timed_out: false,
        ended: Some(end),
    }
}

#[test]
fn commands_run_in_a_shell() {
    let (starting, plan) = env().exec("echo hi", ExecOptions::default());
    assert_eq!(plan.program, "sh");
    assert_eq!(plan.args, vec!["-c", "echo hi"]);
    assert_eq!(plan.cwd, "/work");
    assert!(plan.env.is_empty());
    let error = starting.spawned(Err("no sh".into())).unwrap_err();
    assert_eq!(error.code, ExecutionErrorCode::SpawnFailed);
    assert_eq!(error.message, "no sh");
    let (_, plan) = env().exec(
        "true",
        ExecOptions {
            cwd: Some("/else".into()),
            env: Some(vec![("A".into(), "1".into())]),
            timeout_secs: Some(3),
        },
    );
    assert_eq!(plan.cwd, "/else");
    assert_eq!(plan.env, vec![("A".to_string(), "1".to_string())]);
    assert_eq!(plan.timeout_secs, Some(3));
}

#[test]
fn streams_keep_every_line_in_order() {
    let mut buffer = StreamBuffer::new();
    for line in ["a", "b", "c"] {
        buffer.on_line(line);
    }
    assert_eq!(buffer.text, "a\nb\nc\n");
    let mut noise = StreamBuffer::new();
    for _ in 0..4000 {
        noise.on_line("noise-noise-noise-noise-noise");
    }
    assert_eq!(noise.text.lines().count(), 4000);
}

#[test]
fn a_completed_command_gives_its_output() {
    let end = ending(ended(ProcessEnd::Exited { code: Some(0) }), None);
    assert!(!end.must_kill());
    let out = end
        .drained(Some("hello\n".into()), Some("world\n".into()))
        .unwrap();
    assert_eq!(out.exit_code, 0);
    assert_eq!(out.stdout, "hello\n");
    assert_eq!(out.stderr, "world\n");
    let killed = ending(ended(ProcessEnd::Exited { code: None }), None);
    let out = killed.drained(None, None).unwrap();
    assert_eq!(out.exit_code, -1);
    assert_eq!(out.stdout, "");
}

#[test]
fn interruptions_come_first() {
    let progress = |aborted: bool, timed_out: bool| ExecProgress {
        aborted,
        timed_out,
        ended: Some(ProcessEnd::Exited { code: Some(0) }),
    };
    let aborted = ending(progress(true, true), Some(30));
    assert!(aborted.must_kill());
    let error = aborted.drained(None, None).unwrap_err();
    assert_eq!(error.code, ExecutionErrorCode::Aborted);
    assert_eq!(error.message, "command aborted");
    let late = ending(progress(false, true), Some(1));
    assert!(late.must_kill());
    let error = late.drained(None, None).unwrap_err();
    assert_eq!(error.code, ExecutionErrorCode::Timeout);
    assert_eq!(error.message, "command timed out after 1s");
    let lost = ending(
        ended(ProcessEnd::WaitFailed {
            message: "gone".into(),
        }),
        None,
    );
    let error = lost.drained(None, None).unwrap_err();
    assert_eq!(error.code, ExecutionErrorCode::Unknown);
    assert_eq!(error.message, "gone");
}

#[test]
fn a_command_runs_on_until_something_happens() {
    let waiting = ExecProgress {
        aborted: false,
        timed_out: false,
        ended: None,
    };
    assert_eq!(
        running(Some(2)).progressed(waiting),
        ExecStep::Running(running(Some(2)))
    );
}
