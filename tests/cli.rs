use woah::batch::BatchUpdate;
use woah::cli::{install, install_outcome, report, update, DirEntry};
use woah::log::{error, info, log, success, warn, LogKind};
use woah::sync::{ErrorKind, SyncError, SyncOutcome};
use woah::url::from_url;

#[test]
fn log_line_layout() {
    assert_eq!(
        log(LogKind::Info, "ctx", "msg"),
        "\x1b[1;37;104m  inf  \x1b[0m\x1b[37;107m  ctx  \x1b[0m\x1b[37;104m   \x1b[0m msg"
    );
    assert_eq!(
        warn("c", "m"),
        "\x1b[1;37;103m  wrn  \x1b[0m\x1b[37;107m  c  \x1b[0m\x1b[37;103m   \x1b[0m m"
    );
    assert_eq!(
        error("c", "m"),
        "\x1b[1;37;101m  err  \x1b[0m\x1b[37;107m  c  \x1b[0m\x1b[37;101m   \x1b[0m m"
    );
    assert_eq!(
        success("c", "m"),
        "\x1b[1;37;102m  suc  \x1b[0m\x1b[37;107m  c  \x1b[0m\x1b[37;102m   \x1b[0m m"
    );
    assert_eq!(info("c", "m"), log(LogKind::Info, "c", "m"));
}

#[test]
fn install_plans_clone_into_repository_directory() {
    let repo = from_url("git@gitlab.com:team/proj.git").unwrap();
    let req = install(&repo);
    assert_eq!(req.url, "git@gitlab.com:team/proj.git");
    assert_eq!(req.directory, "proj");
    assert_eq!(req.notice, info("install", "installing template proj by team"));
}

#[test]
fn install_outcomes() {
    assert!(matches!(install_outcome(Ok(())), SyncOutcome::ClonedFresh));
    match install_outcome(Err("exists".to_string())) {
        SyncOutcome::Failed(e) => {
            assert_eq!(e.kind, ErrorKind::NetworkOrTransport);
            assert_eq!(e.message, "exists");
        }
        other => panic!("unexpected outcome {:?}", other),
    }
}

#[test]
fn report_lines() {
    assert_eq!(report("r", &SyncOutcome::UpToDate), Some(info("r", "up to date")));
    assert_eq!(report("r", &SyncOutcome::FastForwarded), Some(success("r", "updated")));
    assert_eq!(report("r", &SyncOutcome::ClonedFresh), Some(success("r", "installed")));
    let failed = SyncOutcome::Failed(SyncError {
        kind: ErrorKind::RemoteMissing,
        message: "no origin".to_string(),
    });
    assert_eq!(report("r", &failed), Some(error("r", "no origin")));
}

#[test]
fn divergence_is_silent() {
    assert_eq!(report("r", &SyncOutcome::Diverged), None);
}

fn entry(name: &str, is_dir: bool) -> DirEntry {
    DirEntry { name: name.to_string(), is_dir }
}

#[test]
fn update_named_target() {
    let name = "proj".to_string();
    let entries = vec![entry("other", true)];
    assert_eq!(update(Some(&name), &entries), vec!["proj".to_string()]);
}

#[test]
fn update_all_lists_directories_only() {
    let entries = vec![entry("a", true), entry("notes.txt", false), entry("b", true)];
    assert_eq!(update(None, &entries), vec!["a".to_string(), "b".to_string()]);
    assert!(update(None, &Vec::new()).is_empty());
}

#[test]
fn batch_targets_match_installs() {
    let installed: Vec<String> = ["https://h.io/u/alpha.git", "git@h.io:v/beta"]
        .iter()
        .map(|u| install(&from_url(u).unwrap()).directory)
        .collect();
    let entries: Vec<DirEntry> = installed.iter().map(|d| entry(d, true)).collect();
    assert_eq!(update(None, &entries), installed);
}

#[test]
fn batch_goes_on_after_failure() {
    let mut batch = BatchUpdate::new(vec!["a".to_string(), "b".to_string(), "c".to_string()]);
    let mut seen = Vec::new();
    let mut k = 0;
    while let Some(name) = batch.next_target() {
        seen.push(name.clone());
        let outcome = if k == 0 {
            SyncOutcome::Failed(SyncError {
                kind: ErrorKind::RepositoryNotFound,
                message: "gone".to_string(),
            })
        } else {
            SyncOutcome::UpToDate
        };
        batch.record(outcome);
        k += 1;
    }
    assert!(batch.is_done());
    assert_eq!(seen, vec!["a", "b", "c"]);
    let results = batch.results();
    assert_eq!(results.len(), 3);
    assert!(matches!(results[0].1, SyncOutcome::Failed(_)));
    assert!(matches!(results[2].1, SyncOutcome::UpToDate));
    assert_eq!(results[1].0, "b");
}
