use backend::engine::{Action, Phase, Replay};
use backend::error::ReplayError;

/// Drives a run, answering each action with `answer`, and records the
/// actions taken. Returns the final phase and the commits made, as
/// (message, date) pairs.
fn drive(
    replay: &mut Replay,
    log: &str,
    fail_at: Option<usize>,
) -> (Phase, Vec<(String, String)>, Vec<String>) {
    let mut commits = Vec::new();
    let mut trace = Vec::new();
    let mut n = 0usize;
    loop {
        let action = replay.next_action();
        let ok = fail_at != Some(n);
        let mut output = Vec::new();
        match action {
            Action::Finish | Action::Abort(_) => break,
            Action::PrepareStaging(d) => trace.push(format!("prepare {}", d)),
            Action::Clone(u, d) => trace.push(format!("clone {} {}", u, d)),
            Action::CheckSource(d) => trace.push(format!("check {}", d)),
            Action::CheckHistory(d) => trace.push(format!("head {}", d)),
            Action::QueryHistory(d) => {
                trace.push(format!("log {}", d));
                output = log.as_bytes().to_vec();
            }
            Action::InitDestination(d) => trace.push(format!("init {}", d)),
            Action::Configure(d, k, v) => trace.push(format!("config {} {} {}", d, k, v)),
            Action::Checkout(d, id) => trace.push(format!("checkout {} {}", d, id)),
            Action::CopyTree(f, t) => trace.push(format!("copy {} {}", f, t)),
            Action::Stage(d) => trace.push(format!("stage {}", d)),
            Action::Commit(d, m, t) => {
                trace.push(format!("commit {} {}", d, m));
                if ok {
                    commits.push((m, t));
                }
            }
        }
        replay.advance(ok, &output);
        n += 1;
        assert!(n < 1000);
    }
    (replay.phase(), commits, trace)
}

const THREE: &str = "c3;2023-01-03T10:00:00+00:00;fix bug\n\
c2;2023-01-02T10:00:00+00:00;add feature\n\
c1;2023-01-01T10:00:00+00:00;init";

#[test]
fn three_revisions_replay_in_order() {
    let mut r = Replay::new("/src/repo", "/tmp/stage", "/dst", "Test User", "user@example.com");
    let (phase, commits, trace) = drive(&mut r, THREE, None);
    assert_eq!(phase, Phase::Done);
    assert_eq!(commits.len(), 3);
    let messages: Vec<&str> = commits.iter().map(|c| c.0.as_str()).collect();
    assert_eq!(messages, vec!["init", "add feature", "fix bug"]);
    assert_eq!(commits[0].1, "2023-01-01T10:00:00+00:00");
    assert_eq!(commits[2].1, "2023-01-03T10:00:00+00:00");
    assert_eq!(r.commits_made(), 3);
    assert_eq!(
        &trace[..10],
        &[
            "check /src/repo",
            "head /src/repo",
            "log /src/repo",
            "init /dst",
            "config /dst user.name Test User",
            "config /dst user.email user@example.com",
            "checkout /src/repo c1",
            "copy /src/repo /dst",
            "stage /dst",
            "commit /dst init",
        ]
    );
}

#[test]
fn empty_history_finishes_without_commits() {
    let mut r = Replay::new("/src/repo", "/tmp/stage", "/dst", "n", "e");
    let (phase, commits, trace) = drive(&mut r, "", None);
    assert_eq!(phase, Phase::Done);
    assert!(commits.is_empty());
    assert_eq!(r.commits_made(), 0);
    assert_eq!(trace, vec!["check /src/repo", "head /src/repo", "log /src/repo"]);
    assert!(matches!(r.next_action(), Action::Finish));
}

#[test]
fn source_without_commits_finishes_without_error() {
    let mut r = Replay::new("/src/empty", "/tmp/stage", "/dst", "n", "e");
    // HEAD names no commit: the history check is answered with failure.
    let (phase, commits, trace) = drive(&mut r, "", Some(1));
    assert_eq!(phase, Phase::Done);
    assert!(commits.is_empty());
    assert_eq!(r.commits_made(), 0);
    assert_eq!(trace, vec!["check /src/empty", "head /src/empty"]);
    assert!(matches!(r.next_action(), Action::Finish));
}

#[test]
fn plain_directory_is_rejected_before_anything_else() {
    let mut r = Replay::new("/not/a/repo", "/tmp/stage", "/dst", "n", "e");
    let (phase, commits, trace) = drive(&mut r, THREE, Some(0));
    assert_eq!(phase, Phase::Failed(ReplayError::NotAVersionControlledRepository));
    assert!(commits.is_empty());
    assert_eq!(trace, vec!["check /not/a/repo"]);
    assert!(matches!(
        r.next_action(),
        Action::Abort(ReplayError::NotAVersionControlledRepository)
    ));
}

#[test]
fn failed_second_checkout_keeps_first_commit() {
    let mut r = Replay::new("/src/repo", "/tmp/stage", "/dst", "n", "e");
    // check, head, log, init, name, email, then four steps for revision
    // one; counting from zero, action 10 is the checkout of revision two.
    let (phase, commits, trace) = drive(&mut r, THREE, Some(10));
    assert_eq!(phase, Phase::Failed(ReplayError::CheckoutFailure));
    assert_eq!(commits.len(), 1);
    assert_eq!(commits[0].0, "init");
    assert_eq!(r.commits_made(), 1);
    assert_eq!(trace.last().unwrap(), "checkout /src/repo c2");
    r.advance(true, &Vec::new());
    assert_eq!(r.phase(), Phase::Failed(ReplayError::CheckoutFailure));
}

#[test]
fn failures_map_to_their_step() {
    let cases = [
        (3usize, ReplayError::ConfigurationFailure),
        (4, ReplayError::ConfigurationFailure),
        (5, ReplayError::ConfigurationFailure),
        (6, ReplayError::CheckoutFailure),
        (7, ReplayError::CopyFailure),
        (8, ReplayError::StageFailure),
        (9, ReplayError::CommitFailure),
        (2, ReplayError::HistoryQueryFailure),
    ];
    for (at, err) in cases {
        let mut r = Replay::new("/src/repo", "/tmp/stage", "/dst", "n", "e");
        let (phase, commits, _) = drive(&mut r, THREE, Some(at));
        assert_eq!(phase, Phase::Failed(err));
        assert!(commits.is_empty());
    }
}

#[test]
fn remote_source_is_cloned_into_staging() {
    let url = "https://example.com/some/repo.git";
    let mut r = Replay::new(url, "/tmp/stage", "/dst", "n", "e");
    let (phase, commits, trace) = drive(&mut r, THREE, None);
    assert_eq!(phase, Phase::Done);
    assert_eq!(commits.len(), 3);
    assert_eq!(
        &trace[..5],
        &[
            "prepare /tmp/stage",
            "clone https://example.com/some/repo.git /tmp/stage",
            "check /tmp/stage",
            "head /tmp/stage",
            "log /tmp/stage",
        ]
    );
}

#[test]
fn nonempty_staging_fails_before_clone() {
    let mut r = Replay::new("git@example.com:a/b.git", "/tmp/stage", "/dst", "n", "e");
    let (phase, _, trace) = drive(&mut r, THREE, Some(0));
    assert_eq!(phase, Phase::Failed(ReplayError::DestinationNotEmpty));
    assert_eq!(trace, vec!["prepare /tmp/stage"]);
}

#[test]
fn failed_clone_is_reported() {
    let mut r = Replay::new("http://example.com/r.git", "/tmp/stage", "/dst", "n", "e");
    let (phase, _, _) = drive(&mut r, THREE, Some(1));
    assert_eq!(phase, Phase::Failed(ReplayError::CloneFailure));
}

#[test]
fn undecodable_history_fails_the_query() {
    let mut r = Replay::new("/src/repo", "/tmp/stage", "/dst", "n", "e");
    r.advance(true, &Vec::new());
    r.advance(true, &Vec::new());
    assert_eq!(r.phase(), Phase::Enumerating);
    r.advance(true, &vec![b'a', b';', 0xff, b';', b'm']);
    assert_eq!(r.phase(), Phase::Failed(ReplayError::HistoryQueryFailure));
}

#[test]
fn rerun_doubles_the_history() {
    let mut destination: Vec<(String, String)> = Vec::new();
    for _ in 0..2 {
        let mut r = Replay::new("/src/repo", "/tmp/stage", "/dst", "n", "e");
        let (phase, commits, _) = drive(&mut r, THREE, None);
        assert_eq!(phase, Phase::Done);
        destination.extend(commits);
    }
    assert_eq!(destination.len(), 6);
    let messages: Vec<&str> = destination.iter().map(|c| c.0.as_str()).collect();
    assert_eq!(
        messages,
        vec!["init", "add feature", "fix bug", "init", "add feature", "fix bug"]
    );
}

#[test]
fn commit_carries_revision_time() {
    let mut r = Replay::new("/src/repo", "/tmp/stage", "/dst", "n", "e");
    for _ in 0..9 {
        r.advance(true, &"abc;2023-01-01T12:00:00;Initial commit".as_bytes().to_vec());
    }
    assert_eq!(r.phase(), Phase::Committing);
    match r.next_action() {
        Action::Commit(d, m, t) => {
            assert_eq!(d, "/dst");
            assert_eq!(m, "Initial commit");
            assert_eq!(t, "2023-01-01T12:00:00");
        }
        _ => panic!("expected a commit"),
    }
}

#[test]
fn error_description_names_the_step() {
    assert_eq!(ReplayError::CheckoutFailure.describe(), "failed to check out a revision");
    assert_eq!(ReplayError::DestinationNotEmpty.describe(), "staging directory is not empty");
}

#[test]
fn error_descriptions_are_distinct() {
    let all = [
        ReplayError::DestinationNotEmpty,
        ReplayError::CloneFailure,
        ReplayError::NotAVersionControlledRepository,
        ReplayError::HistoryQueryFailure,
        ReplayError::CheckoutFailure,
        ReplayError::CopyFailure,
        ReplayError::StageFailure,
        ReplayError::CommitFailure,
        ReplayError::ConfigurationFailure,
    ];
    for (i, a) in all.iter().enumerate() {
        assert!(!a.describe().is_empty());
        for b in &all[i + 1..] {
            assert_ne!(a.describe(), b.describe());
        }
    }
}
