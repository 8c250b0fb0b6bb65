use contest_harvest::harvest::{
    acquisition_outcome, advance, branch_outcome, clone_plan, clone_target, compile_root, follow,
    listing_outcome, next_action, path_below, project_request, remapping_file,
    single_file_request, step, Action, ClonePlan, CompileRequest, Failure, Outcome, Stage,
    Strategy,
};
use contest_harvest::remap::parse_remappings;
use contest_harvest::repo::RepoError;
use contest_harvest::source::unit_from_bytes;

const STRATEGIES: [Strategy; 2] = [Strategy::DirectFetch, Strategy::Clone];

const STAGES: [Stage; 7] = [
    Stage::Discovered,
    Stage::BranchResolved,
    Stage::TreeOrCloneResolved,
    Stage::SourceAcquired,
    Stage::Compiled,
    Stage::Extracted,
    Stage::Skipped,
];

const FAILURES: [Failure; 5] = [
    Failure::BranchNotFound,
    Failure::Transport,
    Failure::AccessDenied,
    Failure::Decode,
    Failure::Compile,
];

#[test]
fn success_leads_through_the_stages_in_order() {
    let direct = Strategy::DirectFetch;
    assert_eq!(
        advance(direct, Stage::Discovered, Outcome::Done),
        (Stage::BranchResolved, Action::ListTree)
    );
    assert_eq!(
        advance(direct, Stage::BranchResolved, Outcome::Done),
        (Stage::TreeOrCloneResolved, Action::FetchSources)
    );
    assert_eq!(
        advance(direct, Stage::TreeOrCloneResolved, Outcome::Done),
        (Stage::SourceAcquired, Action::CompileEach)
    );
    assert_eq!(
        advance(direct, Stage::SourceAcquired, Outcome::Done),
        (Stage::Compiled, Action::ExtractBytecode)
    );
    assert_eq!(
        advance(direct, Stage::Compiled, Outcome::Done),
        (Stage::Extracted, Action::NextContest)
    );
    let clone = Strategy::Clone;
    assert_eq!(
        advance(clone, Stage::Discovered, Outcome::Done),
        (Stage::BranchResolved, Action::CloneRepository)
    );
    assert_eq!(
        advance(clone, Stage::BranchResolved, Outcome::Done),
        (Stage::TreeOrCloneResolved, Action::ReadRemappings)
    );
    assert_eq!(
        advance(clone, Stage::TreeOrCloneResolved, Outcome::Done),
        (Stage::SourceAcquired, Action::CompileProject)
    );
    assert_eq!(
        advance(clone, Stage::SourceAcquired, Outcome::Done),
        (Stage::Compiled, Action::ExtractBytecode)
    );
    assert_eq!(
        advance(clone, Stage::Compiled, Outcome::Done),
        (Stage::Extracted, Action::NextContest)
    );
}

#[test]
fn any_failure_skips_the_contest_and_goes_on() {
    for strategy in STRATEGIES {
        for stage in &STAGES[..5] {
            for failure in FAILURES {
                assert_eq!(
                    advance(strategy, *stage, Outcome::Failed(failure)),
                    (Stage::Skipped, Action::NextContest)
                );
                assert_eq!(step(*stage, Outcome::Failed(failure)), Stage::Skipped);
            }
        }
    }
}

#[test]
fn a_contest_that_is_over_stays_over() {
    for strategy in STRATEGIES {
        for stage in [Stage::Extracted, Stage::Skipped] {
            assert_eq!(advance(strategy, stage, Outcome::Done), (stage, Action::NextContest));
            for failure in FAILURES {
                assert_eq!(
                    advance(strategy, stage, Outcome::Failed(failure)),
                    (stage, Action::NextContest)
                );
            }
        }
    }
}

#[test]
fn each_stage_asks_for_its_step() {
    let direct: Vec<Action> =
        STAGES.iter().map(|stage| next_action(Strategy::DirectFetch, *stage)).collect();
    assert_eq!(
        direct,
        vec![
            Action::ResolveBranch,
            Action::ListTree,
            Action::FetchSources,
            Action::CompileEach,
            Action::ExtractBytecode,
            Action::NextContest,
            Action::NextContest,
        ]
    );
    let clone: Vec<Action> =
        STAGES.iter().map(|stage| next_action(Strategy::Clone, *stage)).collect();
    assert_eq!(
        clone,
        vec![
            Action::ResolveBranch,
            Action::CloneRepository,
            Action::ReadRemappings,
            Action::CompileProject,
            Action::ExtractBytecode,
            Action::NextContest,
            Action::NextContest,
        ]
    );
}

#[test]
fn outcomes_are_read_off_the_results() {
    assert_eq!(branch_outcome(&Ok("main".to_string())), Outcome::Done);
    assert_eq!(
        branch_outcome(&Err(RepoError::BranchNotFound)),
        Outcome::Failed(Failure::BranchNotFound)
    );
    assert_eq!(listing_outcome(&Ok(Vec::new())), Outcome::Done);
    assert_eq!(
        listing_outcome(&Err(RepoError::MalformedTree)),
        Outcome::Failed(Failure::Transport)
    );
    assert_eq!(acquisition_outcome(0, 0), Outcome::Done);
    assert_eq!(acquisition_outcome(3, 3), Outcome::Done);
    assert_eq!(acquisition_outcome(3, 1), Outcome::Done);
    assert_eq!(acquisition_outcome(3, 0), Outcome::Failed(Failure::Decode));
}

#[test]
fn follow_runs_a_contest_through_its_steps() {
    assert_eq!(follow(&Vec::new()), Stage::Discovered);
    assert_eq!(follow(&vec![Outcome::Done; 2]), Stage::TreeOrCloneResolved);
    assert_eq!(follow(&vec![Outcome::Done; 5]), Stage::Extracted);
    assert_eq!(follow(&vec![Outcome::Done; 9]), Stage::Extracted);
    assert_eq!(
        follow(&vec![Outcome::Done, Outcome::Failed(Failure::Transport), Outcome::Done]),
        Stage::Skipped
    );
    assert_eq!(
        follow(&vec![
            Outcome::Done,
            Outcome::Done,
            Outcome::Done,
            Outcome::Done,
            Outcome::Failed(Failure::Compile),
            Outcome::Done,
        ]),
        Stage::Skipped
    );
    assert_eq!(follow(&vec![Outcome::Failed(Failure::BranchNotFound)]), Stage::Skipped);
}

#[test]
fn a_clone_that_is_there_is_used_again() {
    assert_eq!(clone_plan(true), ClonePlan::Reuse);
    assert_eq!(clone_plan(false), ClonePlan::Fetch);
}

#[test]
fn clone_paths_lie_below_the_working_directory() {
    assert_eq!(path_below("a", "b"), "a/b");
    assert_eq!(clone_target("/work", "2024-01-vault"), "/work/2024-01-vault");
    assert_eq!(compile_root("/work/2024-01-vault"), "/work/2024-01-vault/src");
    assert_eq!(remapping_file("/work/2024-01-vault"), "/work/2024-01-vault/remappings.txt");
    assert_eq!(clone_target("", "repo"), "/repo");
}

#[test]
fn a_single_file_request_carries_name_and_text() {
    let unit = unit_from_bytes("Token.sol", "raw", &b"contract Token {}".to_vec());
    match single_file_request(&unit) {
        CompileRequest::SingleFile { filename, source } => {
            assert_eq!(filename, "Token.sol");
            assert_eq!(source, "contract Token {}");
        }
        other => panic!("{:?}", other),
    }
}

#[test]
fn a_project_request_switches_the_intermediate_representation_on() {
    let remappings = parse_remappings("a/=lib/a/\nb/=lib/b/", "/work/repo/remappings.txt");
    match project_request("/work/repo", remappings) {
        CompileRequest::Project { root, remappings, via_ir } => {
            assert_eq!(root, "/work/repo/src");
            assert!(via_ir);
            let names: Vec<&str> = remappings.iter().map(|one| one.name.as_str()).collect();
            assert_eq!(names, vec!["a/", "b/"]);
            assert_eq!(remappings[0].path, "/work/repo/lib/a/");
        }
        other => panic!("{:?}", other),
    }
}
