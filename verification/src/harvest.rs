//! The orchestrator's decisions. The caller does the outside work of one
//! contest step by step (a request, a clone, a compiler run), reports how
//! each step ended, and is told here what the contest's stage is now and
//! what to do next. A failure ends the contest, never the run.

use crate::remap::{remapping_views, Remapping, RemappingView};
use crate::repo::RepoError;
use crate::source::SourceUnit;
use crate::text::{chars_of, push_all, string_of};
use vstd::prelude::*;

verus! {

/// How far the harvest of one contest has come.
#[derive(Clone, Copy, Debug, PartialEq, Eq, Structural)]
pub enum Stage {
    /// The contest was found in the listing.
    Discovered,
    /// The default branch of its repository is known.
    BranchResolved,
    /// Its sources are listed, or its repository is cloned.
    TreeOrCloneResolved,
    /// Its sources are at hand.
    SourceAcquired,
    /// The compiler has run.
    Compiled,
    /// The bytecode is out: the contest is done.
    Extracted,
    /// A step failed: the contest is given up.
    Skipped,
}

/// Why a step failed.
#[derive(Clone, Copy, Debug, PartialEq, Eq, Structural)]
pub enum Failure {
    /// The repository names no default branch.
    BranchNotFound,
    /// A request was not answered, or not with success.
    Transport,
    /// A private repository or resource refused the request or the clone.
    AccessDenied,
    /// A source could not be decoded.
    Decode,
    /// The compiler failed.
    Compile,
}

/// How a step ended.
#[derive(Clone, Copy, Debug, PartialEq, Eq, Structural)]
pub enum Outcome {
    Done,
    Failed(Failure),
}

/// What the caller does next.
#[derive(Clone, Copy, Debug, PartialEq, Eq, Structural)]
pub enum Action {
    /// Ask for the metadata of the repository.
    ResolveBranch,
    /// Ask for the file tree of the default branch.
    ListTree,
    /// Clone the repository, unless its directory is there.
    CloneRepository,
    /// Ask for the content of each source that was listed.
    FetchSources,
    /// Read the remapping file of the clone, if it has one.
    ReadRemappings,
    /// Compile each acquired source by itself.
    CompileEach,
    /// Compile the clone as a project.
    CompileProject,
    /// Take the bytecode out of what the compiler returned.
    ExtractBytecode,
    /// This contest is over: go on with the next one.
    NextContest,
}

/// How the sources of a contest are acquired.
#[derive(Clone, Copy, Debug, PartialEq, Eq, Structural)]
pub enum Strategy {
    /// File by file through the hosting API; each file is compiled alone.
    DirectFetch,
    /// The whole repository is cloned and compiled as a project.
    Clone,
}

/// What to do about the clone of a repository.
#[derive(Clone, Copy, Debug, PartialEq, Eq, Structural)]
pub enum ClonePlan {
    /// The directory is there: use what it holds, as it is.
    Reuse,
    /// The directory is not there: clone into it, submodules included.
    Fetch,
}

/// Is the contest over at this stage?
pub open spec fn is_terminal(stage: Stage) -> bool {
    stage == Stage::Extracted || stage == Stage::Skipped
}

/// The stage after a step that succeeded.
pub open spec fn successor(stage: Stage) -> Stage {
    match stage {
        Stage::Discovered => Stage::BranchResolved,
        Stage::BranchResolved => Stage::TreeOrCloneResolved,
        Stage::TreeOrCloneResolved => Stage::SourceAcquired,
        Stage::SourceAcquired => Stage::Compiled,
        Stage::Compiled => Stage::Extracted,
        Stage::Extracted => Stage::Extracted,
        Stage::Skipped => Stage::Skipped,
    }
}

/// The stage after a step: the successor where the step succeeded, `Skipped`
/// where it failed. A contest that is over stays as it is.
pub open spec fn next_stage(stage: Stage, outcome: Outcome) -> Stage {
    if is_terminal(stage) {
        stage
    } else {
        match outcome {
            Outcome::Done => successor(stage),
            Outcome::Failed(_) => Stage::Skipped,
        }
    }
}

/// The step that a stage asks for under a strategy.
pub open spec fn action_at(strategy: Strategy, stage: Stage) -> Action {
    match stage {
        Stage::Discovered => Action::ResolveBranch,
        Stage::BranchResolved => match strategy {
            Strategy::DirectFetch => Action::ListTree,
            Strategy::Clone => Action::CloneRepository,
        },
        Stage::TreeOrCloneResolved => match strategy {
            Strategy::DirectFetch => Action::FetchSources,
            Strategy::Clone => Action::ReadRemappings,
        },
        Stage::SourceAcquired => match strategy {
            Strategy::DirectFetch => Action::CompileEach,
            Strategy::Clone => Action::CompileProject,
        },
        Stage::Compiled => Action::ExtractBytecode,
        Stage::Extracted => Action::NextContest,
        Stage::Skipped => Action::NextContest,
    }
}

/// How many steps a stage is away from the start; the two stages at which a
/// contest is over are the farthest.
pub open spec fn rank(stage: Stage) -> nat {
    match stage {
        Stage::Discovered => 0,
        Stage::BranchResolved => 1,
        Stage::TreeOrCloneResolved => 2,
        Stage::SourceAcquired => 3,
        Stage::Compiled => 4,
        Stage::Extracted => 5,
        Stage::Skipped => 5,
    }
}

/// The stage that a contest reaches from `stage` through a sequence of
/// steps.
pub open spec fn stage_after(stage: Stage, outcomes: Seq<Outcome>) -> Stage
    decreases outcomes.len(),
{
    if outcomes.len() == 0 {
        stage
    } else {
        stage_after(next_stage(stage, outcomes[0]), outcomes.skip(1))
    }
}

/// A contest that is over stays over, whatever is reported of it, and the
/// caller is sent to the next contest.
pub proof fn lemma_terminal_stays(strategy: Strategy, stage: Stage, outcome: Outcome)
    requires
        is_terminal(stage),
    ensures
        next_stage(stage, outcome) == stage,
        action_at(strategy, next_stage(stage, outcome)) == Action::NextContest,
{
}

/// A failure at any stage gives the contest up and sends the caller to the
/// next contest: it never stops the run.
pub proof fn lemma_failure_skips(strategy: Strategy, stage: Stage, failure: Failure)
    requires
        !is_terminal(stage),
    ensures
        next_stage(stage, Outcome::Failed(failure)) == Stage::Skipped,
        action_at(strategy, next_stage(stage, Outcome::Failed(failure))) == Action::NextContest,
{
}

/// The caller is sent to the next contest exactly when the contest is over.
pub proof fn lemma_next_contest_when_over(strategy: Strategy, stage: Stage)
    ensures
        action_at(strategy, stage) == Action::NextContest <==> is_terminal(stage),
{
}

/// Every step of a contest that is not over leads farther from the start:
/// no stage is entered twice, so nothing is tried again.
pub proof fn lemma_step_advances(stage: Stage, outcome: Outcome)
    requires
        !is_terminal(stage),
    ensures
        rank(next_stage(stage, outcome)) > rank(stage),
{
}

/// After as many steps as a stage is short of the end, the contest is over.
pub proof fn lemma_contest_ends(stage: Stage, outcomes: Seq<Outcome>)
    requires
        outcomes.len() + rank(stage) >= 5,
    ensures
        is_terminal(stage_after(stage, outcomes)),
    decreases outcomes.len(),
{
    if outcomes.len() > 0 {
        lemma_contest_ends(next_stage(stage, outcomes[0]), outcomes.skip(1));
    }
}

/// A contest ends with its bytecode extracted only if none of its steps
/// failed.
pub proof fn lemma_extracted_without_failure(stage: Stage, outcomes: Seq<Outcome>)
    requires
        stage != Stage::Extracted,
        stage_after(stage, outcomes) == Stage::Extracted,
    ensures
        outcomes.len() + rank(stage) >= 5,
        forall|i: int| 0 <= i < 5 - rank(stage) ==> outcomes[i] == Outcome::Done,
    decreases outcomes.len(),
{
    if outcomes.len() > 0 {
        let next = next_stage(stage, outcomes[0]);
        if stage == Stage::Skipped {
            lemma_skipped_stays(outcomes);
        } else if next == Stage::Skipped {
            lemma_skipped_stays(outcomes.skip(1));
        } else if next != Stage::Extracted {
            lemma_extracted_without_failure(next, outcomes.skip(1));
            assert forall|i: int| 0 <= i < 5 - rank(stage) implies outcomes[i] == Outcome::Done by {
                if i > 0 {
                    assert(outcomes.skip(1)[i - 1] == outcomes[i]);
                }
            }
        }
    }
}

/// A contest that was given up stays given up.
pub proof fn lemma_skipped_stays(outcomes: Seq<Outcome>)
    ensures
        stage_after(Stage::Skipped, outcomes) == Stage::Skipped,
    decreases outcomes.len(),
{
    if outcomes.len() > 0 {
        lemma_skipped_stays(outcomes.skip(1));
    }
}

/// The step that a stage asks for under a strategy.
pub fn next_action(strategy: Strategy, stage: Stage) -> (action: Action)
    ensures
        action == action_at(strategy, stage),
{
    match stage {
        Stage::Discovered => Action::ResolveBranch,
        Stage::BranchResolved => match strategy {
            Strategy::DirectFetch => Action::ListTree,
            Strategy::Clone => Action::CloneRepository,
        },
        Stage::TreeOrCloneResolved => match strategy {
            Strategy::DirectFetch => Action::FetchSources,
            Strategy::Clone => Action::ReadRemappings,
        },
        Stage::SourceAcquired => match strategy {
            Strategy::DirectFetch => Action::CompileEach,
            Strategy::Clone => Action::CompileProject,
        },
        Stage::Compiled => Action::ExtractBytecode,
        Stage::Extracted => Action::NextContest,
        Stage::Skipped => Action::NextContest,
    }
}

/// The stage of a contest after a step that ended with `outcome`.
pub fn step(stage: Stage, outcome: Outcome) -> (next: Stage)
    ensures
        next == next_stage(stage, outcome),
{
    match stage {
        Stage::Extracted => Stage::Extracted,
        Stage::Skipped => Stage::Skipped,
        _ => match outcome {
            Outcome::Failed(_) => Stage::Skipped,
            Outcome::Done => match stage {
                Stage::Discovered => Stage::BranchResolved,
                Stage::BranchResolved => Stage::TreeOrCloneResolved,
                Stage::TreeOrCloneResolved => Stage::SourceAcquired,
                Stage::SourceAcquired => Stage::Compiled,
                _ => Stage::Extracted,
            },
        },
    }
}

/// The stage of a contest after a step that ended with `outcome`, and what
/// the caller does next under its strategy.
pub fn advance(strategy: Strategy, stage: Stage, outcome: Outcome) -> (next: (Stage, Action))
    ensures
        next.0 == next_stage(stage, outcome),
        next.1 == action_at(strategy, next.0),
{
    let reached = step(stage, outcome);
    (reached, next_action(strategy, reached))
}

/// How the resolution of a default branch ended.
pub fn branch_outcome(resolved: &Result<String, RepoError>) -> (outcome: Outcome)
    ensures
        outcome == match resolved {
            Ok(_) => Outcome::Done,
            Err(_) => Outcome::Failed(Failure::BranchNotFound),
        },
{
    match resolved {
        Ok(_) => Outcome::Done,
        Err(_) => Outcome::Failed(Failure::BranchNotFound),
    }
}

/// How the listing of a tree ended: an answer that is no tree counts as a
/// request that was not answered.
pub fn listing_outcome(listed: &Result<Vec<(String, String)>, RepoError>) -> (outcome: Outcome)
    ensures
        outcome == match listed {
            Ok(_) => Outcome::Done,
            Err(_) => Outcome::Failed(Failure::Transport),
        },
{
    match listed {
        Ok(_) => Outcome::Done,
        Err(_) => Outcome::Failed(Failure::Transport),
    }
}

/// The stage that a contest reaches from its discovery through the steps
/// reported.
pub fn follow(outcomes: &Vec<Outcome>) -> (stage: Stage)
    ensures
        stage == stage_after(Stage::Discovered, outcomes@),
{
    let mut stage = Stage::Discovered;
    let mut i: usize = 0;
    proof {
        assert(outcomes@.skip(0) =~= outcomes@);
    }
    while i < outcomes.len()
        invariant
            i <= outcomes.len(),
            stage_after(stage, outcomes@.skip(i as int)) == stage_after(
                Stage::Discovered,
                outcomes@,
            ),
        decreases outcomes.len() - i,
    {
        proof {
            assert(outcomes@.skip(i as int).skip(1) =~= outcomes@.skip(i + 1));
        }
        stage = step(stage, outcomes[i]);
        i += 1;
    }
    stage
}

/// How the acquisition of a contest's sources ended, given how many
/// sources were listed and how many of them could be decoded. A source that
/// cannot be decoded only leaves the compile set; the step fails where
/// sources were listed and none is left.
pub fn acquisition_outcome(listed: usize, acquired: usize) -> (outcome: Outcome)
    ensures
        outcome == if listed > 0 && acquired == 0 {
            Outcome::Failed(Failure::Decode)
        } else {
            Outcome::Done
        },
{
    if listed > 0 && acquired == 0 {
        Outcome::Failed(Failure::Decode)
    } else {
        Outcome::Done
    }
}

/// What to do about the clone of a repository: a directory that is there is
/// used as it is, and nothing is cloned again.
pub fn clone_plan(target_exists: bool) -> (plan: ClonePlan)
    ensures
        plan == if target_exists {
            ClonePlan::Reuse
        } else {
            ClonePlan::Fetch
        },
{
    if target_exists {
        ClonePlan::Reuse
    } else {
        ClonePlan::Fetch
    }
}

/// The directory below a clone that holds the sources to compile.
pub const SOURCE_DIR: &'static str = "src";

/// The file below a clone that holds its remappings.
pub const REMAPPING_FILE: &'static str = "remappings.txt";

/// A path below a directory.
pub open spec fn below(directory: Seq<char>, name: Seq<char>) -> Seq<char> {
    directory + seq!['/'] + name
}

/// A path below a directory.
pub fn path_below(directory: &str, name: &str) -> (path: String)
    ensures
        path@ == below(directory@, name@),
{
    let mut path = chars_of(directory);
    path.push('/');
    push_all(&mut path, &chars_of(name));
    string_of(&path)
}

/// Where a repository is cloned: below the working directory, under its own
/// name.
pub fn clone_target(workdir: &str, repo: &str) -> (target: String)
    ensures
        target@ == below(workdir@, repo@),
{
    path_below(workdir, repo)
}

/// The root of the sources of a clone.
pub fn compile_root(target: &str) -> (root: String)
    ensures
        root@ == below(target@, SOURCE_DIR@),
{
    path_below(target, SOURCE_DIR)
}

/// The remapping file of a clone.
pub fn remapping_file(target: &str) -> (file: String)
    ensures
        file@ == below(target@, REMAPPING_FILE@),
{
    path_below(target, REMAPPING_FILE)
}

/// What the compiler is asked to do.
#[derive(Debug)]
pub enum CompileRequest {
    /// One source under its file name, with the compiler's default settings.
    SingleFile { filename: String, source: String },
    /// The tree below `root`, with the remappings, through the compiler's
    /// intermediate representation where `via_ir` is set.
    Project { root: String, remappings: Vec<Remapping>, via_ir: bool },
}

/// The model of `CompileRequest`.
pub enum CompileRequestView {
    SingleFile { filename: Seq<char>, source: Seq<char> },
    Project { root: Seq<char>, remappings: Seq<RemappingView>, via_ir: bool },
}

impl View for CompileRequest {
    type V = CompileRequestView;

    open spec fn view(&self) -> CompileRequestView {
        match self {
            CompileRequest::SingleFile { filename, source } => CompileRequestView::SingleFile {
                filename: filename@,
                source: source@,
            },
            CompileRequest::Project { root, remappings, via_ir } => CompileRequestView::Project {
                root: root@,
                remappings: remapping_views(remappings@),
                via_ir: *via_ir,
            },
        }
    }
}

/// The request to compile one acquired source by itself.
pub fn single_file_request(unit: &SourceUnit) -> (request: CompileRequest)
    ensures
        request@ == (CompileRequestView::SingleFile {
            filename: unit@.filename,
            source: unit@.text,
        }),
{
    CompileRequest::SingleFile {
        filename: unit.filename().to_owned(),
        source: unit.text().to_owned(),
    }
}

/// The request to compile a clone as a project: its source directory, the
/// remappings, and the intermediate representation switched on.
pub fn project_request(target: &str, remappings: Vec<Remapping>) -> (request: CompileRequest)
    ensures
        request@ == (CompileRequestView::Project {
            root: below(target@, SOURCE_DIR@),
            remappings: remapping_views(remappings@),
            via_ir: true,
        }),
{
    CompileRequest::Project { root: compile_root(target), remappings, via_ir: true }
}

} // verus!
