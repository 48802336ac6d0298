use inf_server::checkpoint::io::{
    Completion, CompletionResult, CompletionToken, FileOpenMode, FileSyncMode, IoOp, TokenClass,
};
use inf_server::checkpoint::live::{
    LiveCheckpointPublishConfig, LiveCheckpointPublishError, LiveCheckpointPublishEvent,
    LiveCheckpointPublishPhase, LiveCheckpointPublisher, ManifestNames,
};

fn publisher() -> LiveCheckpointPublisher {
    let manifest = ManifestNames {
        temp_name: "MANIFEST.tmp".to_string(),
        final_name: "MANIFEST".to_string(),
    };
    LiveCheckpointPublisher::new(LiveCheckpointPublishConfig::new(40, 17).with_generation(3), manifest)
}

fn answer(op: &IoOp) -> CompletionResult {
    match op {
        IoOp::FileOpen { .. } => CompletionResult::FileOpened { fd: 77 },
        IoOp::FileWriteAt { buf, .. } => CompletionResult::FileWritten { buf: *buf },
        IoOp::FileClose { .. } => CompletionResult::FileClosed,
        _ => CompletionResult::FileDone,
    }
}

#[test]
fn an_image_is_published_before_its_manifest() {
    let mut p = publisher();
    assert!(p.is_idle());
    p.start("ckpt-000009.ick".to_string(), b"0123456789".to_vec(), Ok(b"manifest".to_vec()))
        .unwrap();
    let mut ops = Vec::new();
    let mut written = Vec::new();
    let mut events = Vec::new();
    for step in 0u32..64 {
        let buf = if p.wants_buffer() { Some(step) } else { None };
        assert_eq!(p.drive(4, buf, &mut ops), LiveCheckpointPublishEvent::Pending);
        let op = ops.last().expect("an operation");
        if let IoOp::FileWriteAt { data, .. } = op {
            written.extend_from_slice(data);
        }
        let completion = Completion { token: p.token(), result: answer(op) };
        let (event, release) = p.on_completion(completion);
        assert_eq!(release, buf);
        events.push(event.expect("no error"));
        if p.is_idle() {
            break;
        }
    }
    assert_eq!(events.last(), Some(&LiveCheckpointPublishEvent::Completed));
    assert_eq!(written, b"0123456789manifest");
    let renames: Vec<&str> = ops
        .iter()
        .filter_map(|op| match op {
            IoOp::FileRename { new_name, .. } => Some(new_name.as_str()),
            _ => None,
        })
        .collect();
    assert_eq!(renames, ["ckpt-000009.ick", "MANIFEST"]);
    assert!(matches!(
        &ops[0],
        IoOp::FileOpen { dir: 40, name, mode: FileOpenMode::ReadWriteCreateTruncate, .. }
            if name == "ckpt-000009.ick.tmp"
    ));
    assert!(matches!(
        ops.last(),
        Some(IoOp::FileSync { fd: 40, mode: FileSyncMode::Full, .. })
    ));
    // Every rename stands behind the sync and the close of its file.
    let kinds: Vec<&str> = ops
        .iter()
        .map(|op| match op {
            IoOp::FileOpen { .. } => "open",
            IoOp::FileWriteAt { .. } => "write",
            IoOp::FileSync { mode: FileSyncMode::DataOnly, .. } => "sync",
            IoOp::FileSync { .. } => "dirsync",
            IoOp::FileClose { .. } => "close",
            IoOp::FileRename { .. } => "rename",
            _ => "other",
        })
        .collect();
    assert_eq!(
        kinds,
        [
            "open", "write", "write", "write", "sync", "close", "rename", "dirsync", "open",
            "write", "write", "sync", "close", "rename", "dirsync"
        ]
    );
}

#[test]
fn a_write_waits_for_a_buffer_and_stray_completions_change_nothing() {
    let mut p = publisher();
    p.start("ckpt-000009.ick".to_string(), b"abc".to_vec(), Ok(vec![])).unwrap();
    let mut ops = Vec::new();
    p.drive(4, None, &mut ops);
    let opened = Completion { token: p.token(), result: CompletionResult::FileOpened { fd: 77 } };
    p.on_completion(opened).0.unwrap();
    assert!(p.wants_buffer());
    assert_eq!(p.drive(4, None, &mut ops), LiveCheckpointPublishEvent::Pending);
    assert_eq!(ops.len(), 1);
    p.drive(4, Some(5), &mut ops);
    assert_eq!(ops.len(), 2);

    let other = CompletionToken { class: TokenClass::File, slot: 17, generation: 4 };
    let stray = Completion { token: other, result: CompletionResult::Sent { buf: 9 } };
    let (outcome, release) = p.on_completion(stray);
    assert!(matches!(
        outcome,
        Err(LiveCheckpointPublishError::UnexpectedToken {
            phase: LiveCheckpointPublishPhase::WriteTemp,
            got,
            ..
        }) if got == other
    ));
    assert_eq!(release, Some(9));
    assert!(!p.is_idle());

    let failed =
        Completion { token: p.token(), result: CompletionResult::Error { errno: 28, buf: Some(5) } };
    let (outcome, release) = p.on_completion(failed);
    let error = outcome.unwrap_err();
    assert_eq!(error.message(), "write checkpoint temp fd 77 at offset 0 failed with errno 28");
    assert_eq!(release, Some(5));
    assert!(p.is_idle());
}

#[test]
fn a_manifest_that_cannot_be_encoded_starts_nothing() {
    let mut p = publisher();
    let error = p
        .start("ckpt-000009.ick".to_string(), vec![], Err("too large".to_string()))
        .unwrap_err();
    assert_eq!(error.message(), "checkpoint manifest encode failed: too large");
    assert!(p.is_idle());
    let mut ops = Vec::new();
    assert_eq!(p.drive(4, None, &mut ops), LiveCheckpointPublishEvent::Idle);
    assert!(ops.is_empty());
}

#[test]
fn a_refused_open_names_the_quoted_file() {
    let mut p = publisher();
    p.start("a\"b".to_string(), vec![], Ok(vec![])).unwrap();
    let mut ops = Vec::new();
    p.drive(4, None, &mut ops);
    let refused =
        Completion { token: p.token(), result: CompletionResult::Error { errno: 13, buf: None } };
    let error = p.on_completion(refused).0.unwrap_err();
    assert_eq!(
        error.message(),
        format!("open checkpoint temp file {:?} failed with errno 13", "a\"b.tmp")
    );
}
