//! The invocations of the git command-line tool that a replay makes.
use vstd::prelude::*;

verus! {

/// One invocation of the tool: its arguments after the program name, and the
/// environment variables set for it.
pub struct ToolCommand {
    pub args: Vec<String>,
    pub env: Vec<(String, String)>,
}

/// A tool invocation as plain sequences of characters.
pub struct CommandView {
    pub args: Seq<Seq<char>>,
    pub env: Seq<(Seq<char>, Seq<char>)>,
}

impl View for ToolCommand {
    type V = CommandView;

    open spec fn view(&self) -> CommandView {
        CommandView {
            args: self.args@.map_values(|s: String| s@),
            env: self.env@.map_values(|p: (String, String)| (p.0@, p.1@)),
        }
    }
}

/// Arguments that make the tool run inside the repository at `path`.
pub open spec fn in_repo(path: Seq<char>) -> Seq<Seq<char>> {
    seq!["-C"@, path]
}

pub open spec fn init_args(path: Seq<char>) -> Seq<Seq<char>> {
    seq!["init"@, path]
}

pub open spec fn config_args(path: Seq<char>, key: Seq<char>, value: Seq<char>) -> Seq<Seq<char>> {
    in_repo(path) + seq!["config"@, key, value]
}

pub open spec fn add_all_args(path: Seq<char>) -> Seq<Seq<char>> {
    in_repo(path) + seq!["add"@, "."@]
}

pub open spec fn commit_args(path: Seq<char>, message: Seq<char>) -> Seq<Seq<char>> {
    in_repo(path) + seq!["commit"@, "-m"@, message]
}

/// The variables that fix both the authoring and the recording time of a commit.
pub open spec fn commit_env(date: Option<Seq<char>>) -> Seq<(Seq<char>, Seq<char>)> {
    match date {
        Some(d) => seq![("GIT_COMMITTER_DATE"@, d), ("GIT_AUTHOR_DATE"@, d)],
        None => seq![],
    }
}

/// The log format: hash, commit time, then the subject, which comes last so
/// that a separator inside it cannot shift the other fields.
pub open spec fn log_args(path: Seq<char>) -> Seq<Seq<char>> {
    in_repo(path) + seq!["log"@, "--pretty=format:%H;%cI;%s"@]
}

/// Succeeds exactly when HEAD names a commit, that is when the repository
/// has any history at all.
pub open spec fn head_args(path: Seq<char>) -> Seq<Seq<char>> {
    in_repo(path) + seq!["rev-parse"@, "--verify"@, "--quiet"@, "HEAD"@]
}

pub open spec fn checkout_args(path: Seq<char>, id: Seq<char>) -> Seq<Seq<char>> {
    in_repo(path) + seq!["checkout"@, id]
}

pub open spec fn clone_args(url: Seq<char>, path: Seq<char>) -> Seq<Seq<char>> {
    seq!["clone"@, url, path]
}

fn owned(s: &str) -> (r: String)
    ensures
        r@ == s@,
{
    s.to_owned()
}

fn in_repo_args(path: &str) -> (r: Vec<String>)
    ensures
        r@.map_values(|s: String| s@) == in_repo(path@),
{
    let r = vec![owned("-C"), owned(path)];
    assert(r@.map_values(|s: String| s@) =~= in_repo(path@));
    r
}

fn plain(args: Vec<String>) -> (r: ToolCommand)
    ensures
        r.args == args,
        r.env@ == Seq::<(String, String)>::empty(),
{
    ToolCommand { args, env: Vec::new() }
}

/// `git init <path>`.
pub fn init_command(path: &str) -> (r: ToolCommand)
    ensures
        r@.args == init_args(path@),
        r@.env.len() == 0,
{
    let r = plain(vec![owned("init"), owned(path)]);
    assert(r@.args =~= init_args(path@));
    r
}

/// `git -C <path> config <key> <value>`.
pub fn config_command(path: &str, key: &str, value: &str) -> (r: ToolCommand)
    ensures
        r@.args == config_args(path@, key@, value@),
        r@.env.len() == 0,
{
    let mut args = in_repo_args(path);
    args.push(owned("config"));
    args.push(owned(key));
    args.push(owned(value));
    let r = plain(args);
    assert(r@.args =~= config_args(path@, key@, value@));
    r
}

/// `git -C <path> add .`: stages everything in the working tree.
pub fn add_all_command(path: &str) -> (r: ToolCommand)
    ensures
        r@.args == add_all_args(path@),
        r@.env.len() == 0,
{
    let mut args = in_repo_args(path);
    args.push(owned("add"));
    args.push(owned("."));
    let r = plain(args);
    assert(r@.args =~= add_all_args(path@));
    r
}

/// `git -C <path> commit -m <message>`; a given date becomes both the
/// authoring and the recording time of the commit.
pub fn commit_command(path: &str, message: &str, date: Option<&str>) -> (r: ToolCommand)
    ensures
        r@.args == commit_args(path@, message@),
        r@.env == commit_env(
            match date {
                Some(d) => Some(d@),
                None => None,
            },
        ),
{
    let mut args = in_repo_args(path);
    args.push(owned("commit"));
    args.push(owned("-m"));
    args.push(owned(message));
    let mut env: Vec<(String, String)> = Vec::new();
    match date {
        Some(d) => {
            env.push((owned("GIT_COMMITTER_DATE"), owned(d)));
            env.push((owned("GIT_AUTHOR_DATE"), owned(d)));
        },
        None => {},
    }
    let r = ToolCommand { args, env };
    assert(r@.args =~= commit_args(path@, message@));
    assert(r@.env =~= commit_env(
        match date {
            Some(d) => Some(d@),
            None => None,
        },
    ));
    r
}

/// `git -C <path> log` in the format that the history parser reads.
pub fn log_command(path: &str) -> (r: ToolCommand)
    ensures
        r@.args == log_args(path@),
        r@.env.len() == 0,
{
    let mut args = in_repo_args(path);
    args.push(owned("log"));
    args.push(owned("--pretty=format:%H;%cI;%s"));
    let r = plain(args);
    assert(r@.args =~= log_args(path@));
    r
}

/// `git -C <path> rev-parse --verify --quiet HEAD`.
pub fn head_command(path: &str) -> (r: ToolCommand)
    ensures
        r@.args == head_args(path@),
        r@.env.len() == 0,
{
    let mut args = in_repo_args(path);
    args.push(owned("rev-parse"));
    args.push(owned("--verify"));
    args.push(owned("--quiet"));
    args.push(owned("HEAD"));
    let r = plain(args);
    assert(r@.args =~= head_args(path@));
    r
}

/// `git -C <path> checkout <id>`.
pub fn checkout_command(path: &str, id: &str) -> (r: ToolCommand)
    ensures
        r@.args == checkout_args(path@, id@),
        r@.env.len() == 0,
{
    let mut args = in_repo_args(path);
    args.push(owned("checkout"));
    args.push(owned(id));
    let r = plain(args);
    assert(r@.args =~= checkout_args(path@, id@));
    r
}

/// `git clone <url> <path>`.
pub fn clone_command(url: &str, path: &str) -> (r: ToolCommand)
    ensures
        r@.args == clone_args(url@, path@),
        r@.env.len() == 0,
{
    let r = plain(vec![owned("clone"), owned(url), owned(path)]);
    assert(r@.args =~= clone_args(url@, path@));
    r
}

} // verus!
