use woah::sync::{
    analyze, start_update, step_update, Analysis, ErrorKind, GitAction, GitEvent, SyncOutcome,
    UpdateStage,
};

fn through_fetch() -> UpdateStage {
    let (stage, action) = start_update();
    assert_eq!(stage, UpdateStage::Opening);
    assert!(matches!(action, GitAction::OpenRepository));
    let (stage, action) = step_update(stage, GitEvent::Succeeded);
    assert_eq!(stage, UpdateStage::FindingRemote);
    assert!(matches!(action, GitAction::FindRemote { ref remote } if remote == "origin"));
    let (stage, action) = step_update(stage, GitEvent::Succeeded);
    assert_eq!(stage, UpdateStage::ResolvingBranch);
    assert!(matches!(
        action,
        GitAction::ResolveRemoteBranch { ref remote, ref branch }
            if remote == "origin" && branch == "main"
    ));
    let (stage, action) = step_update(stage, GitEvent::Succeeded);
    assert_eq!(stage, UpdateStage::Fetching);
    assert!(matches!(
        action,
        GitAction::Fetch { ref remote, ref branch } if remote == "origin" && branch == "main"
    ));
    let (stage, action) = step_update(stage, GitEvent::Succeeded);
    assert_eq!(stage, UpdateStage::Comparing);
    assert!(matches!(action, GitAction::CompareTips));
    stage
}

#[test]
fn analysis_table() {
    assert_eq!(analyze(true, true), Analysis::UpToDate);
    assert_eq!(analyze(true, false), Analysis::UpToDate);
    assert_eq!(analyze(false, true), Analysis::FastForward);
    assert_eq!(analyze(false, false), Analysis::Diverged);
}

#[test]
fn up_to_date_twice() {
    for _ in 0..2 {
        let stage = through_fetch();
        let (stage, action) = step_update(
            stage,
            GitEvent::Compared { fetched_in_local: true, local_in_fetched: true },
        );
        assert_eq!(stage, UpdateStage::Finished);
        assert!(matches!(action, GitAction::Finish(SyncOutcome::UpToDate)));
    }
}

#[test]
fn behind_is_fast_forwarded() {
    let stage = through_fetch();
    let (stage, action) = step_update(
        stage,
        GitEvent::Compared { fetched_in_local: false, local_in_fetched: true },
    );
    assert_eq!(stage, UpdateStage::Advancing);
    assert!(matches!(action, GitAction::FastForward { ref branch } if branch == "main"));
    let (stage, action) = step_update(stage, GitEvent::Succeeded);
    assert_eq!(stage, UpdateStage::Finished);
    assert!(matches!(action, GitAction::Finish(SyncOutcome::FastForwarded)));
}

#[test]
fn diverged_is_left_alone() {
    let stage = through_fetch();
    let (stage, action) = step_update(
        stage,
        GitEvent::Compared { fetched_in_local: false, local_in_fetched: false },
    );
    assert_eq!(stage, UpdateStage::Finished);
    assert!(matches!(action, GitAction::Finish(SyncOutcome::Diverged)));
}

fn fails_with(stage: UpdateStage, kind: ErrorKind) {
    let (next, action) = step_update(stage, GitEvent::Failed("boom".to_string()));
    assert_eq!(next, UpdateStage::Finished);
    match action {
        GitAction::Finish(SyncOutcome::Failed(e)) => {
            assert_eq!(e.kind, kind);
            assert_eq!(e.message, "boom");
        }
        other => panic!("unexpected action {:?}", other),
    }
}

#[test]
fn each_failure_has_its_kind() {
    fails_with(UpdateStage::Opening, ErrorKind::RepositoryNotFound);
    fails_with(UpdateStage::FindingRemote, ErrorKind::RemoteMissing);
    fails_with(UpdateStage::ResolvingBranch, ErrorKind::ReferenceResolution);
    fails_with(UpdateStage::Fetching, ErrorKind::NetworkOrTransport);
    fails_with(UpdateStage::Comparing, ErrorKind::ReferenceResolution);
    fails_with(UpdateStage::Advancing, ErrorKind::ReferenceResolution);
}
