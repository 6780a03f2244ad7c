//! The replay engine: the decisions of a run, as a state machine.
//!
//! The caller asks for the next action, performs it, and reports whether it
//! succeeded (with the tool's output, where the action is the history query).
//! The engine never touches the filesystem itself.
use vstd::prelude::*;
use vstd::utf8::encode_utf8;
use crate::error::ReplayError;
use crate::history::{parse_log, parsed_log, Revision, RevisionView};
use crate::source::{is_remote, is_remote_locator};

verus! {

/// Where a run stands.
#[derive(Clone, Copy, Debug, PartialEq, Eq, Structural)]
pub enum Phase {
    /// A remote source: the staging directory must be empty (or absent).
    Preparing,
    /// A remote source: cloning into the staging directory.
    Cloning,
    /// The working copy must hold the version-control metadata directory.
    CheckingSource,
    /// Asking whether the working copy has any commit; one without any
    /// history finishes the run at once.
    CheckingHistory,
    /// Querying the working copy's history.
    Enumerating,
    /// Initializing the destination repository.
    Initializing,
    /// Setting the replay identity's name in the destination.
    ConfiguringName,
    /// Setting the replay identity's email in the destination.
    ConfiguringEmail,
    /// Checking out the current revision in the working copy.
    CheckingOut,
    /// Copying the working copy's tree into the destination.
    Copying,
    /// Staging everything in the destination.
    Staging,
    /// Committing the current revision in the destination.
    Committing,
    /// Every revision has been replayed.
    Done,
    /// The run stopped at a failure.
    Failed(ReplayError),
}

/// What the caller is to do next.
pub enum Action {
    /// Make sure the directory is absent or empty.
    PrepareStaging(String),
    /// Clone the remote (first) into the directory (second).
    Clone(String, String),
    /// Check that the working copy holds the metadata directory.
    CheckSource(String),
    /// Report whether the working copy has any commit (HEAD names one).
    CheckHistory(String),
    /// Run the history query in the working copy and report its output.
    QueryHistory(String),
    /// Initialize the destination repository.
    InitDestination(String),
    /// Set a configuration key (second) to a value (third) in a repository.
    Configure(String, String, String),
    /// Check out a revision id (second) in the working copy.
    Checkout(String, String),
    /// Copy the tree of the working copy (first) into the destination.
    CopyTree(String, String),
    /// Stage everything in the destination.
    Stage(String),
    /// Commit in the destination with a message (second) and a date (third)
    /// used as both authoring and recording time.
    Commit(String, String, String),
    /// The run is complete.
    Finish,
    /// The run failed.
    Abort(ReplayError),
}

pub enum ActionView {
    PrepareStaging(Seq<char>),
    Clone(Seq<char>, Seq<char>),
    CheckSource(Seq<char>),
    CheckHistory(Seq<char>),
    QueryHistory(Seq<char>),
    InitDestination(Seq<char>),
    Configure(Seq<char>, Seq<char>, Seq<char>),
    Checkout(Seq<char>, Seq<char>),
    CopyTree(Seq<char>, Seq<char>),
    Stage(Seq<char>),
    Commit(Seq<char>, Seq<char>, Seq<char>),
    Finish,
    Abort(ReplayError),
}

impl View for Action {
    type V = ActionView;

    open spec fn view(&self) -> ActionView {
        match self {
            Action::PrepareStaging(d) => ActionView::PrepareStaging(d@),
            Action::Clone(u, d) => ActionView::Clone(u@, d@),
            Action::CheckSource(d) => ActionView::CheckSource(d@),
            Action::CheckHistory(d) => ActionView::CheckHistory(d@),
            Action::QueryHistory(d) => ActionView::QueryHistory(d@),
            Action::InitDestination(d) => ActionView::InitDestination(d@),
            Action::Configure(d, k, v) => ActionView::Configure(d@, k@, v@),
            Action::Checkout(d, i) => ActionView::Checkout(d@, i@),
            Action::CopyTree(f, t) => ActionView::CopyTree(f@, t@),
            Action::Stage(d) => ActionView::Stage(d@),
            Action::Commit(d, m, t) => ActionView::Commit(d@, m@, t@),
            Action::Finish => ActionView::Finish,
            Action::Abort(e) => ActionView::Abort(*e),
        }
    }
}

/// One replay run: its fixed inputs, the frozen revision list (oldest
/// first), the index of the current revision, and the phase.
pub struct Replay {
    source: String,
    repo: String,
    dest: String,
    name: String,
    email: String,
    revisions: Vec<Revision>,
    index: usize,
    phase: Phase,
}

pub struct ReplayView {
    /// The source reference as given.
    pub source: Seq<char>,
    /// The working copy: the staging directory for a remote source, else the source.
    pub repo: Seq<char>,
    pub dest: Seq<char>,
    pub name: Seq<char>,
    pub email: Seq<char>,
    /// Oldest first; empty until the history is read.
    pub revisions: Seq<RevisionView>,
    pub index: nat,
    pub phase: Phase,
}

impl View for Replay {
    type V = ReplayView;

    closed spec fn view(&self) -> ReplayView {
        ReplayView {
            source: self.source@,
            repo: self.repo@,
            dest: self.dest@,
            name: self.name@,
            email: self.email@,
            revisions: self.revisions@.map_values(|r: Revision| r@),
            index: self.index as nat,
            phase: self.phase,
        }
    }
}

/// The phases that work on the current revision.
pub open spec fn per_revision(p: Phase) -> bool {
    p == Phase::CheckingOut || p == Phase::Copying || p == Phase::Staging || p == Phase::Committing
}

/// The run's invariant: a revision is current exactly while one is being
/// replayed, and none is read before the history is.
pub open spec fn well_formed(v: ReplayView) -> bool {
    &&& v.index <= v.revisions.len()
    &&& per_revision(v.phase) ==> v.index < v.revisions.len()
    &&& (v.phase == Phase::Initializing || v.phase == Phase::ConfiguringName || v.phase
        == Phase::ConfiguringEmail) ==> v.index == 0 && v.revisions.len() > 0
    &&& (v.phase == Phase::Preparing || v.phase == Phase::Cloning || v.phase
        == Phase::CheckingSource || v.phase == Phase::CheckingHistory || v.phase
        == Phase::Enumerating) ==> v.revisions.len() == 0
    &&& v.phase == Phase::Done ==> v.index == v.revisions.len()
}

/// The state in which a run starts.
pub open spec fn initial(
    source: Seq<char>,
    staging: Seq<char>,
    dest: Seq<char>,
    name: Seq<char>,
    email: Seq<char>,
) -> ReplayView {
    let remote = is_remote_locator(encode_utf8(source));
    ReplayView {
        source,
        repo: if remote { staging } else { source },
        dest,
        name,
        email,
        revisions: seq![],
        index: 0,
        phase: if remote { Phase::Preparing } else { Phase::CheckingSource },
    }
}

/// The action that a state asks for.
pub open spec fn action_of(v: ReplayView) -> ActionView {
    match v.phase {
        Phase::Preparing => ActionView::PrepareStaging(v.repo),
        Phase::Cloning => ActionView::Clone(v.source, v.repo),
        Phase::CheckingSource => ActionView::CheckSource(v.repo),
        Phase::CheckingHistory => ActionView::CheckHistory(v.repo),
        Phase::Enumerating => ActionView::QueryHistory(v.repo),
        Phase::Initializing => ActionView::InitDestination(v.dest),
        Phase::ConfiguringName => ActionView::Configure(v.dest, "user.name"@, v.name),
        Phase::ConfiguringEmail => ActionView::Configure(v.dest, "user.email"@, v.email),
        Phase::CheckingOut => ActionView::Checkout(v.repo, v.revisions[v.index as int].id),
        Phase::Copying => ActionView::CopyTree(v.repo, v.dest),
        Phase::Staging => ActionView::Stage(v.dest),
        Phase::Committing => ActionView::Commit(
            v.dest,
            v.revisions[v.index as int].message,
            v.revisions[v.index as int].timestamp,
        ),
        Phase::Done => ActionView::Finish,
        Phase::Failed(e) => ActionView::Abort(e),
    }
}

pub open spec fn with_phase(v: ReplayView, p: Phase) -> ReplayView {
    ReplayView { phase: p, ..v }
}

/// Moves to `next` when the action succeeded, else fails with `e`.
pub open spec fn on(v: ReplayView, ok: bool, next: Phase, e: ReplayError) -> ReplayView {
    if ok {
        with_phase(v, next)
    } else {
        with_phase(v, Phase::Failed(e))
    }
}

/// The state after the current action's outcome. `output` is read only
/// after the history query.
pub open spec fn step(v: ReplayView, ok: bool, output: Seq<u8>) -> ReplayView {
    match v.phase {
        Phase::Preparing => on(v, ok, Phase::Cloning, ReplayError::DestinationNotEmpty),
        Phase::Cloning => on(v, ok, Phase::CheckingSource, ReplayError::CloneFailure),
        Phase::CheckingSource => on(
            v,
            ok,
            Phase::CheckingHistory,
            ReplayError::NotAVersionControlledRepository,
        ),
        Phase::CheckingHistory => with_phase(
            v,
            if ok {
                Phase::Enumerating
            } else {
                Phase::Done
            },
        ),
        Phase::Enumerating => {
            if ok && parsed_log(output) is Some {
                let log = parsed_log(output)->0;
                if log.len() == 0 {
                    with_phase(v, Phase::Done)
                } else {
                    ReplayView {
                        revisions: log.reverse(),
                        index: 0,
                        phase: Phase::Initializing,
                        ..v
                    }
                }
            } else {
                with_phase(v, Phase::Failed(ReplayError::HistoryQueryFailure))
            }
        },
        Phase::Initializing => on(
            v,
            ok,
            Phase::ConfiguringName,
            ReplayError::ConfigurationFailure,
        ),
        Phase::ConfiguringName => on(
            v,
            ok,
            Phase::ConfiguringEmail,
            ReplayError::ConfigurationFailure,
        ),
        Phase::ConfiguringEmail => on(v, ok, Phase::CheckingOut, ReplayError::ConfigurationFailure),
        Phase::CheckingOut => on(v, ok, Phase::Copying, ReplayError::CheckoutFailure),
        Phase::Copying => on(v, ok, Phase::Staging, ReplayError::CopyFailure),
        Phase::Staging => on(v, ok, Phase::Committing, ReplayError::StageFailure),
        Phase::Committing => {
            if ok {
                let i = v.index + 1;
                ReplayView {
                    index: i,
                    phase: if i >= v.revisions.len() {
                        Phase::Done
                    } else {
                        Phase::CheckingOut
                    },
                    ..v
                }
            } else {
                with_phase(v, Phase::Failed(ReplayError::CommitFailure))
            }
        },
        Phase::Done => v,
        Phase::Failed(_) => v,
    }
}

/// The revisions whose destination commit has been made, oldest first.
pub open spec fn committed(v: ReplayView) -> Seq<RevisionView> {
    v.revisions.take(v.index as int)
}

fn reversed(list: Vec<Revision>) -> (r: Vec<Revision>)
    ensures
        r@.map_values(|x: Revision| x@) == list@.map_values(|x: Revision| x@).reverse(),
{
    let ghost full = list@;
    let mut rest = list;
    let mut r: Vec<Revision> = Vec::new();
    while rest.len() > 0
        invariant
            rest@.len() + r@.len() == full.len(),
            rest@ == full.take(rest@.len() as int),
            forall|j: int| 0 <= j < r@.len() ==> r@[j] == full[full.len() - 1 - j],
        decreases rest@.len(),
    {
        let x = rest.pop().unwrap();
        assert(rest@ =~= full.take(rest@.len() as int));
        r.push(x);
    }
    assert(r@.map_values(|x: Revision| x@) =~= full.map_values(|x: Revision| x@).reverse());
    r
}

impl Replay {
    /// The type's invariant.
    pub open spec fn wf(&self) -> bool {
        well_formed(self@)
    }

    /// A run of the source reference into `dest` under the identity
    /// `name`/`email`; a remote source is cloned into `staging`.
    pub fn new(source: &str, staging: &str, dest: &str, name: &str, email: &str) -> (r: Replay)
        ensures
            r.wf(),
            r@ == initial(source@, staging@, dest@, name@, email@),
    {
        let remote = is_remote(source);
        let repo = if remote { staging.to_owned() } else { source.to_owned() };
        let r = Replay {
            source: source.to_owned(),
            repo,
            dest: dest.to_owned(),
            name: name.to_owned(),
            email: email.to_owned(),
            revisions: Vec::new(),
            index: 0,
            phase: if remote { Phase::Preparing } else { Phase::CheckingSource },
        };
        assert(r@.revisions =~= seq![]);
        r
    }

    pub fn phase(&self) -> (r: Phase)
        ensures
            r == self@.phase,
    {
        self.phase
    }

    /// The number of destination commits made so far.
    pub fn commits_made(&self) -> (r: usize)
        requires
            self.wf(),
        ensures
            r == committed(self@).len(),
    {
        self.index
    }

    /// What the caller is to do next.
    pub fn next_action(&self) -> (r: Action)
        requires
            self.wf(),
        ensures
            r@ == action_of(self@),
    {
        match self.phase {
            Phase::Preparing => Action::PrepareStaging(self.repo.clone()),
            Phase::Cloning => Action::Clone(self.source.clone(), self.repo.clone()),
            Phase::CheckingSource => Action::CheckSource(self.repo.clone()),
            Phase::CheckingHistory => Action::CheckHistory(self.repo.clone()),
            Phase::Enumerating => Action::QueryHistory(self.repo.clone()),
            Phase::Initializing => Action::InitDestination(self.dest.clone()),
            Phase::ConfiguringName => Action::Configure(
                self.dest.clone(),
                "user.name".to_owned(),
                self.name.clone(),
            ),
            Phase::ConfiguringEmail => Action::Configure(
                self.dest.clone(),
                "user.email".to_owned(),
                self.email.clone(),
            ),
            Phase::CheckingOut => Action::Checkout(
                self.repo.clone(),
                self.revisions[self.index].id.clone(),
            ),
            Phase::Copying => Action::CopyTree(self.repo.clone(), self.dest.clone()),
            Phase::Staging => Action::Stage(self.dest.clone()),
            Phase::Committing => Action::Commit(
                self.dest.clone(),
                self.revisions[self.index].message.clone(),
                self.revisions[self.index].timestamp.clone(),
            ),
            Phase::Done => Action::Finish,
            Phase::Failed(e) => Action::Abort(e),
        }
    }

    fn succeed_or(&mut self, ok: bool, next: Phase, e: ReplayError)
        ensures
            final(self)@ == on(old(self)@, ok, next, e),
    {
        self.phase = if ok { next } else { Phase::Failed(e) };
    }

    /// Takes the outcome of the action last asked for: whether it succeeded
    /// and, after the history query, the tool's output.
    pub fn advance(&mut self, ok: bool, output: &Vec<u8>)
        requires
            old(self).wf(),
        ensures
            final(self).wf(),
            final(self)@ == step(old(self)@, ok, output@),
    {
        match self.phase {
            Phase::Preparing => self.succeed_or(ok, Phase::Cloning, ReplayError::DestinationNotEmpty),
            Phase::Cloning => self.succeed_or(ok, Phase::CheckingSource, ReplayError::CloneFailure),
            Phase::CheckingSource => self.succeed_or(
                ok,
                Phase::CheckingHistory,
                ReplayError::NotAVersionControlledRepository,
            ),
            Phase::CheckingHistory => {
                self.phase = if ok { Phase::Enumerating } else { Phase::Done };
            },
            Phase::Enumerating => {
                let parsed = if ok { parse_log(output) } else { None };
                match parsed {
                    Some(log) => {
                        if log.len() == 0 {
                            self.phase = Phase::Done;
                        } else {
                            self.revisions = reversed(log);
                            self.index = 0;
                            self.phase = Phase::Initializing;
                        }
                    },
                    None => {
                        self.phase = Phase::Failed(ReplayError::HistoryQueryFailure);
                    },
                }
            },
            Phase::Initializing => self.succeed_or(
                ok,
                Phase::ConfiguringName,
                ReplayError::ConfigurationFailure,
            ),
            Phase::ConfiguringName => self.succeed_or(
                ok,
                Phase::ConfiguringEmail,
                ReplayError::ConfigurationFailure,
            ),
            Phase::ConfiguringEmail => self.succeed_or(
                ok,
                Phase::CheckingOut,
                ReplayError::ConfigurationFailure,
            ),
            Phase::CheckingOut => self.succeed_or(ok, Phase::Copying, ReplayError::CheckoutFailure),
            Phase::Copying => self.succeed_or(ok, Phase::Staging, ReplayError::CopyFailure),
            Phase::Staging => self.succeed_or(ok, Phase::Committing, ReplayError::StageFailure),
            Phase::Committing => {
                if ok {
                    let n = self.revisions.len();
                    assert(self.index < n);
                    self.index = self.index + 1;
                    self.phase = if self.index >= n {
                        Phase::Done
                    } else {
                        Phase::CheckingOut
                    };
                } else {
                    self.phase = Phase::Failed(ReplayError::CommitFailure);
                }
            },
            Phase::Done => {},
            Phase::Failed(_) => {},
        }
        assert(self@ =~= step(old(self)@, ok, output@));
    }
}

/// `n` successful outcomes in a row, none of them carrying output.
pub open spec fn succeed(v: ReplayView, n: nat) -> ReplayView
    decreases n,
{
    if n == 0 {
        v
    } else {
        succeed(step(v, true, seq![]), (n - 1) as nat)
    }
}

/// The number of successful actions that a run takes after a history query
/// that listed `len` revisions: destination setup, then four per revision.
pub open spec fn replay_steps(len: nat) -> nat {
    if len == 0 {
        0
    } else {
        3 + 4 * len
    }
}

/// The state at the end of a run in which every action succeeds, from the
/// history query on.
pub open spec fn full_run(v: ReplayView, output: Seq<u8>) -> ReplayView {
    succeed(step(v, true, output), replay_steps(parsed_log(output)->0.len()))
}

/// Every outcome keeps the invariant, and the destination gains exactly one
/// commit, of the current revision, when and only when a commit succeeds.
pub proof fn lemma_one_commit_per_commit_step(v: ReplayView, ok: bool, output: Seq<u8>)
    requires
        well_formed(v),
    ensures
        well_formed(step(v, ok, output)),
        committed(step(v, ok, output)) == if v.phase == Phase::Committing && ok {
            committed(v).push(v.revisions[v.index as int])
        } else {
            committed(v)
        },
{
    let w = step(v, ok, output);
    if v.phase == Phase::Committing && ok {
        assert(committed(w) =~= committed(v).push(v.revisions[v.index as int]));
    } else if v.phase == Phase::Enumerating {
        assert(committed(w) =~= committed(v));
    }
}

/// From the checkout of revision `i`, `4 * j` successes replay `j` more
/// revisions.
proof fn lemma_replay_from(v: ReplayView, j: nat)
    requires
        well_formed(v),
        v.phase == Phase::CheckingOut,
        v.index + j <= v.revisions.len(),
    ensures
        succeed(v, 4 * j) == (ReplayView {
            index: v.index + j,
            phase: if v.index + j == v.revisions.len() {
                Phase::Done
            } else {
                Phase::CheckingOut
            },
            ..v
        }),
    decreases j,
{
    if j > 0 {
        let v1 = step(v, true, seq![]);
        let v2 = step(v1, true, seq![]);
        let v3 = step(v2, true, seq![]);
        let v4 = step(v3, true, seq![]);
        assert(succeed(v, 4 * j) == succeed(v1, (4 * j - 1) as nat));
        assert(succeed(v1, (4 * j - 1) as nat) == succeed(v2, (4 * j - 2) as nat));
        assert(succeed(v2, (4 * j - 2) as nat) == succeed(v3, (4 * j - 3) as nat));
        assert(succeed(v3, (4 * j - 3) as nat) == succeed(v4, (4 * j - 4) as nat));
        assert((4 * j - 4) as nat == 4 * ((j - 1) as nat)) by (nonlinear_arith)
            requires
                j > 0,
        ;
        if v.index + 1 == v.revisions.len() {
            assert(succeed(v4, 0) == v4);
        } else {
            lemma_replay_from(v4, (j - 1) as nat);
        }
    }
}

/// From a successful history query, the three setup steps lead to the
/// checkout of the oldest revision.
proof fn lemma_setup(v: ReplayView, output: Seq<u8>, k: nat)
    requires
        well_formed(v),
        v.phase == Phase::Enumerating,
        parsed_log(output) is Some,
        parsed_log(output)->0.len() > 0,
    ensures
        succeed(step(v, true, output), 3 + k) == succeed(
            ReplayView {
                revisions: parsed_log(output)->0.reverse(),
                index: 0,
                phase: Phase::CheckingOut,
                ..v
            },
            k,
        ),
{
    let w0 = step(v, true, output);
    let w1 = step(w0, true, seq![]);
    let w2 = step(w1, true, seq![]);
    let w3 = step(w2, true, seq![]);
    assert(succeed(w0, 3 + k) == succeed(w1, 2 + k));
    assert(succeed(w1, 2 + k) == succeed(w2, 1 + k));
    assert(succeed(w2, 1 + k) == succeed(w3, k));
}

/// A run in which every action succeeds makes one destination commit per
/// revision that the history query listed, from the oldest to the newest
/// (the reverse of the tool's order), so that the commit messages come in
/// that order too; then it finishes. An empty history finishes at once with
/// no commit.
pub proof fn lemma_full_replay(v: ReplayView, output: Seq<u8>)
    requires
        well_formed(v),
        v.phase == Phase::Enumerating,
        parsed_log(output) is Some,
    ensures
        ({
            let log = parsed_log(output)->0;
            let w = full_run(v, output);
            &&& w.phase == Phase::Done
            &&& committed(w) == log.reverse()
        }),
{
    let log = parsed_log(output)->0;
    let w = full_run(v, output);
    if log.len() == 0 {
        assert(committed(w) =~= log.reverse());
    } else {
        let c0 = ReplayView { revisions: log.reverse(), index: 0, phase: Phase::CheckingOut, ..v };
        lemma_setup(v, output, 4 * log.len());
        lemma_replay_from(c0, log.len());
        assert(committed(w) =~= log.reverse());
    }
}

/// A failure ends the run where it happens: when the checkout of the
/// revision after the `k` oldest fails, the destination keeps exactly the
/// commits of those `k`, the run stops with `CheckoutFailure`, and no later
/// outcome changes anything.
pub proof fn lemma_failed_checkout(
    v: ReplayView,
    output: Seq<u8>,
    k: nat,
    later_ok: bool,
    later_output: Seq<u8>,
)
    requires
        well_formed(v),
        v.phase == Phase::Enumerating,
        parsed_log(output) is Some,
        k < parsed_log(output)->0.len(),
    ensures
        ({
            let log = parsed_log(output)->0;
            let w = step(succeed(step(v, true, output), 3 + 4 * k), false, seq![]);
            &&& w.phase == Phase::Failed(ReplayError::CheckoutFailure)
            &&& committed(w) == log.reverse().take(k as int)
            &&& committed(w).len() == k
            &&& step(w, later_ok, later_output) == w
        }),
{
    let log = parsed_log(output)->0;
    let c0 = ReplayView { revisions: log.reverse(), index: 0, phase: Phase::CheckingOut, ..v };
    lemma_setup(v, output, 4 * k);
    lemma_replay_from(c0, k);
}

/// Replaying a history again into the same destination adds its commits
/// again: starting from any prior history, two complete runs leave it
/// followed by the replayed revisions twice over, nothing de-duplicated.
pub proof fn lemma_rerun_doubles(
    prior: Seq<RevisionView>,
    first: ReplayView,
    second: ReplayView,
    output: Seq<u8>,
)
    requires
        well_formed(first),
        well_formed(second),
        first.phase == Phase::Enumerating,
        second.phase == Phase::Enumerating,
        parsed_log(output) is Some,
    ensures
        ({
            let log = parsed_log(output)->0;
            let history = prior + committed(full_run(first, output)) + committed(
                full_run(second, output),
            );
            &&& history == prior + log.reverse() + log.reverse()
            &&& history.len() == prior.len() + 2 * log.len()
        }),
{
    lemma_full_replay(first, output);
    lemma_full_replay(second, output);
}

/// Each commit is made with the replayed revision's message and with its
/// recorded time, which `commit_command` applies as both the authoring and
/// the recording time.
pub proof fn lemma_commit_time(v: ReplayView)
    requires
        well_formed(v),
        v.phase == Phase::Committing,
    ensures
        ({
            let r = v.revisions[v.index as int];
            &&& action_of(v) == ActionView::Commit(v.dest, r.message, r.timestamp)
        }),
{
}

/// A local source is first checked for its metadata directory, before any
/// clone, copy or commit; when that check fails the run ends with
/// `NotAVersionControlledRepository` and the destination is untouched.
pub proof fn lemma_local_source_checked_first(
    source: Seq<char>,
    staging: Seq<char>,
    dest: Seq<char>,
    name: Seq<char>,
    email: Seq<char>,
)
    requires
        !is_remote_locator(encode_utf8(source)),
    ensures
        ({
            let v = initial(source, staging, dest, name, email);
            let w = step(v, false, seq![]);
            &&& action_of(v) == ActionView::CheckSource(source)
            &&& w.phase == Phase::Failed(ReplayError::NotAVersionControlledRepository)
            &&& committed(w).len() == 0
            &&& action_of(w) == ActionView::Abort(ReplayError::NotAVersionControlledRepository)
        }),
{
}

/// A source without any commit ends the run successfully, with no
/// destination commit and before the destination is touched.
pub proof fn lemma_no_history_finishes(v: ReplayView)
    requires
        well_formed(v),
        v.phase == Phase::CheckingHistory,
    ensures
        ({
            let w = step(v, false, seq![]);
            &&& w.phase == Phase::Done
            &&& committed(w).len() == 0
            &&& action_of(w) == ActionView::Finish
        }),
{
}

} // verus!
