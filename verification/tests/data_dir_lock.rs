use inf_server::data_dir_lock::{
    Acquire, DataDirLockError, LockEvent, LockStage, LockStep, LOCK_FILE,
};

fn perform(step: LockStep) -> Acquire {
    match step {
        LockStep::Perform(acquire) => acquire,
        other => panic!("no step left: {other:?}"),
    }
}

#[test]
fn the_lock_is_owned_after_all_three_steps() {
    let path = format!("/data/{LOCK_FILE}");
    let acquire = Acquire::begin(path.clone());
    assert_eq!(acquire.stage, LockStage::CreateDir);
    let acquire = perform(acquire.advance(LockEvent::Done));
    assert_eq!(acquire.stage, LockStage::OpenFile);
    let acquire = perform(acquire.advance(LockEvent::Done));
    assert_eq!(acquire.stage, LockStage::TryLock);
    match acquire.advance(LockEvent::Done) {
        LockStep::Owned(held) => assert_eq!(held.path(), "/data/LOCK"),
        other => panic!("not owned: {other:?}"),
    }
}

#[test]
fn contention_is_a_refusal_that_names_the_owner_rule() {
    let acquire = Acquire { path: "/data/LOCK".to_string(), stage: LockStage::TryLock };
    match acquire.advance(LockEvent::Contended) {
        LockStep::Refused(error) => {
            assert!(matches!(error, DataDirLockError::Held { .. }));
            assert!(error.message().starts_with("/data/LOCK: held by another process"));
        }
        other => panic!("not refused: {other:?}"),
    }
    let acquire = Acquire::begin("/data/LOCK".to_string());
    match acquire.advance(LockEvent::Failed("permission denied".to_string())) {
        LockStep::Refused(error) => {
            assert_eq!(error.message(), "/data/LOCK: permission denied");
        }
        other => panic!("not refused: {other:?}"),
    }
}
