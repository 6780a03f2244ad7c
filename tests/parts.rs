use backend::command::{
    add_all_command, checkout_command, clone_command, commit_command, config_command,
    head_command, init_command, log_command, ToolCommand,
};
use backend::history::parse_log;
use backend::source::is_remote;
use backend::sync::{copy_plan, CopyOp, SourceEntry};
use std::collections::BTreeMap;

fn args(c: &ToolCommand) -> Vec<&str> {
    c.args.iter().map(|s| s.as_str()).collect()
}

#[test]
fn builds_tool_invocations() {
    assert_eq!(args(&init_command("/r")), vec!["init", "/r"]);
    assert_eq!(
        args(&config_command("/r", "user.name", "Test User")),
        vec!["-C", "/r", "config", "user.name", "Test User"]
    );
    assert_eq!(args(&add_all_command("/r")), vec!["-C", "/r", "add", "."]);
    assert_eq!(
        args(&log_command("/r")),
        vec!["-C", "/r", "log", "--pretty=format:%H;%cI;%s"]
    );
    assert_eq!(args(&checkout_command("/r", "abc")), vec!["-C", "/r", "checkout", "abc"]);
    assert_eq!(args(&clone_command("https://h/x.git", "/s")), vec!["clone", "https://h/x.git", "/s"]);
    assert_eq!(
        args(&head_command("/r")),
        vec!["-C", "/r", "rev-parse", "--verify", "--quiet", "HEAD"]
    );
    assert!(init_command("/r").env.is_empty());
}

#[test]
fn commit_with_date_sets_both_times() {
    let c = commit_command("/r", "Initial commit", Some("2023-01-01T12:00:00"));
    assert_eq!(args(&c), vec!["-C", "/r", "commit", "-m", "Initial commit"]);
    assert_eq!(
        c.env,
        vec![
            ("GIT_COMMITTER_DATE".to_string(), "2023-01-01T12:00:00".to_string()),
            ("GIT_AUTHOR_DATE".to_string(), "2023-01-01T12:00:00".to_string()),
        ]
    );
    let plain = commit_command("/r", "m", None);
    assert!(plain.env.is_empty());
}

#[test]
fn parses_log_lines_newest_first() {
    let out = b"h2;2023-01-02T00:00:00+00:00;Second commit\nh1;2023-01-01T00:00:00+00:00;First commit\n";
    let revs = parse_log(&out.to_vec()).unwrap();
    assert_eq!(revs.len(), 2);
    assert_eq!(revs[0].id, "h2");
    assert_eq!(revs[0].message, "Second commit");
    assert_eq!(revs[0].timestamp, "2023-01-02T00:00:00+00:00");
    assert_eq!(revs[1].id, "h1");
    assert_eq!(revs[1].message, "First commit");
}

#[test]
fn message_keeps_separators() {
    let revs = parse_log(&b"h;t;a; b;c\r\n".to_vec()).unwrap();
    assert_eq!(revs.len(), 1);
    assert_eq!(revs[0].id, "h");
    assert_eq!(revs[0].timestamp, "t");
    assert_eq!(revs[0].message, "a; b;c");
}

#[test]
fn missing_fields_are_empty() {
    let revs = parse_log(&b"only\nh;t\n\nx;y;\xc3\xa9t\xc3\xa9".to_vec()).unwrap();
    assert_eq!(revs.len(), 4);
    assert_eq!((revs[0].id.as_str(), revs[0].timestamp.as_str(), revs[0].message.as_str()), ("only", "", ""));
    assert_eq!((revs[1].id.as_str(), revs[1].timestamp.as_str(), revs[1].message.as_str()), ("h", "t", ""));
    assert_eq!((revs[2].id.as_str(), revs[2].timestamp.as_str(), revs[2].message.as_str()), ("", "", ""));
    assert_eq!(revs[3].message, "été");
}

#[test]
fn empty_log_has_no_revisions() {
    assert!(parse_log(&Vec::new()).unwrap().is_empty());
}

#[test]
fn invalid_text_is_refused() {
    assert!(parse_log(&vec![b'h', b';', b't', b';', 0xc3]).is_none());
}

#[test]
fn recognizes_remote_locators() {
    assert!(is_remote("https://github.com/a/b.git"));
    assert!(is_remote("http://host/r"));
    assert!(is_remote("git@github.com:a/b.git"));
    assert!(!is_remote("/home/me/repo"));
    assert!(!is_remote("./http://x"));
    assert!(!is_remote("git"));
    assert!(!is_remote(""));
}

fn entry(path: &[&str], is_dir: bool) -> SourceEntry {
    SourceEntry { path: path.iter().map(|s| s.to_string()).collect(), is_dir }
}

/// Applies a plan to an in-memory destination, reading file contents from `src`.
fn apply(dest: &mut BTreeMap<Vec<String>, String>, src: &BTreeMap<Vec<String>, String>, plan: &[CopyOp]) {
    for op in plan {
        if let CopyOp::CopyFile(p) = op {
            dest.insert(p.clone(), src[p].clone());
        }
    }
}

fn key(p: &[&str]) -> Vec<String> {
    p.iter().map(|s| s.to_string()).collect()
}

#[test]
fn plan_skips_metadata_and_keeps_order() {
    let entries = vec![
        entry(&[".git"], true),
        entry(&[".git", "HEAD"], false),
        entry(&["src"], true),
        entry(&["src", "main.rs"], false),
        entry(&["README"], false),
    ];
    let plan = copy_plan(&entries);
    assert_eq!(plan.len(), 4);
    assert!(matches!(&plan[0], CopyOp::MakeDir(p) if p.is_empty()));
    assert!(matches!(&plan[1], CopyOp::MakeDir(p) if *p == key(&["src"])));
    assert!(matches!(&plan[2], CopyOp::CopyFile(p) if *p == key(&["src", "main.rs"])));
    assert!(matches!(&plan[3], CopyOp::CopyFile(p) if *p == key(&["README"])));
}

#[test]
fn copy_overlays_without_removing() {
    let mut dest = BTreeMap::new();
    dest.insert(key(&["old"]), "kept".to_string());
    dest.insert(key(&["f1"]), "stale".to_string());
    let mut src = BTreeMap::new();
    src.insert(key(&["f1"]), "A".to_string());
    src.insert(key(&["f2"]), "B".to_string());
    let plan = copy_plan(&vec![entry(&["f1"], false), entry(&["f2"], false)]);
    apply(&mut dest, &src, &plan);
    assert_eq!(dest[&key(&["f1"])], "A");
    assert_eq!(dest[&key(&["f2"])], "B");
    assert_eq!(dest[&key(&["old"])], "kept");
    assert_eq!(dest.len(), 3);
}

#[test]
fn three_revision_trees_accumulate() {
    let revisions = [
        vec![("a.txt", "one")],
        vec![("a.txt", "one"), ("b.txt", "two")],
        vec![("a.txt", "one"), ("b.txt", "two"), ("c.txt", "three")],
    ];
    let mut dest = BTreeMap::new();
    for files in &revisions {
        let src: BTreeMap<Vec<String>, String> =
            files.iter().map(|(p, c)| (key(&[p]), c.to_string())).collect();
        let entries: Vec<SourceEntry> = files.iter().map(|(p, _)| entry(&[p], false)).collect();
        apply(&mut dest, &src, &copy_plan(&entries));
    }
    assert_eq!(dest.len(), 3);
    assert_eq!(dest[&key(&["a.txt"])], "one");
    assert_eq!(dest[&key(&["b.txt"])], "two");
    assert_eq!(dest[&key(&["c.txt"])], "three");
}
