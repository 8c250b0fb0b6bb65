use contest_harvest::artifact::{
    get_contracts_bytecodes, ArtifactMap, CompiledArtifact, ContractCode,
};
use contest_harvest::harvest::{
    acquisition_outcome, advance, branch_outcome, listing_outcome, single_file_request, Action,
    CompileRequest, Failure, Outcome, Stage, Strategy,
};
use contest_harvest::instant::Instant;
use contest_harvest::listing::get_eligible_contests;
use contest_harvest::repo::{
    get_contracts_urls, get_default_branch, metadata_url, repo_name, tree_url,
};
use contest_harvest::source::acquire_each;

const OWNER: &str = "code-423n4";

fn listing_page() -> String {
    let document = "{\"children\":[0,1,2,{\"children\":[0,1,2,{\"contests\":[\
        {\"contest_id\":9,\"repo\":\"https://github.com/code-423n4/2030-01-token\",\
        \"end_time\":\"2030-01-08T20:00:00Z\",\"code_access\":\"public\",\
        \"sponsor_data\":{\"name\":\"Token Inc\"}}]}]}]}";
    format!(
        "<html><body><script>self.__next_f.push([1,\"f:[\\\"$\\\",\\\"div\\\",null,{}]\\n\"])\
         </script></body></html>",
        document.replace('"', "\\\"")
    )
}

/// Stands for the compiler: one contract `Token` with concrete bytecode.
fn compile(request: &CompileRequest) -> Option<ArtifactMap> {
    match request {
        CompileRequest::SingleFile { filename, source } if source.contains("contract Token") => {
            let mut map = ArtifactMap::new();
            map.insert(
                filename,
                CompiledArtifact {
                    name: "Token".to_string(),
                    code: ContractCode::Linked(vec![0x60, 0x80, 0x60, 0x40]),
                },
            );
            Some(map)
        }
        _ => None,
    }
}

#[test]
fn one_public_contest_with_one_file_gives_the_bytecode_of_its_contract() {
    let direct = Strategy::DirectFetch;
    let now = Instant { secs: 1_800_000_000, nanos: 0 };
    let contests = get_eligible_contests(&listing_page(), now).unwrap();
    assert_eq!(contests.len(), 1);
    let mut stage = Stage::Discovered;

    let repo = repo_name(contests[0].repo.as_deref().unwrap());
    assert_eq!(repo, "2030-01-token");
    assert_eq!(metadata_url(OWNER, &repo), "https://api.github.com/repos/code-423n4/2030-01-token");
    let branch = get_default_branch(200, "{\"default_branch\":\"main\"}");
    let (next, action) = advance(direct, stage, branch_outcome(&branch));
    stage = next;
    assert_eq!((stage, action), (Stage::BranchResolved, Action::ListTree));
    let branch = branch.unwrap();
    assert_eq!(branch, "main");

    assert_eq!(
        tree_url(OWNER, &repo, &branch),
        "https://api.github.com/repos/code-423n4/2030-01-token/git/trees/main?recursive=1"
    );
    let tree = "{\"tree\":[{\"path\":\"src/Token.sol\",\"type\":\"blob\",\"url\":\"blob:1\"}]}";
    let sources = get_contracts_urls(tree);
    let (next, action) = advance(direct, stage, listing_outcome(&sources));
    stage = next;
    assert_eq!((stage, action), (Stage::TreeOrCloneResolved, Action::FetchSources));
    let sources = sources.unwrap();
    assert_eq!(sources, vec![("blob:1".to_string(), "Token.sol".to_string())]);

    // The base64 of "contract Token {}\n", wrapped.
    let blob = "{\"sha\":\"s\",\"size\":18,\"url\":\"blob:1\",\"encoding\":\"base64\",\
        \"content\":\"Y29udHJhY3Qg\\nVG9rZW4ge30K\\n\"}";
    let units = acquire_each(&vec![(sources[0].1.clone(), blob.to_string())]);
    assert_eq!(units.len(), 1);
    assert_eq!(units[0].text(), "contract Token {}\n");
    let (next, action) = advance(direct, stage, acquisition_outcome(sources.len(), units.len()));
    stage = next;
    assert_eq!((stage, action), (Stage::SourceAcquired, Action::CompileEach));

    let artifacts = compile(&single_file_request(&units[0])).unwrap();
    let (next, action) = advance(direct, stage, Outcome::Done);
    stage = next;
    assert_eq!((stage, action), (Stage::Compiled, Action::ExtractBytecode));

    let bytecodes = get_contracts_bytecodes(&artifacts, units[0].filename());
    assert_eq!(bytecodes, Some(vec![("Token".to_string(), "60806040".to_string())]));
    assert_eq!(advance(direct, stage, Outcome::Done), (Stage::Extracted, Action::NextContest));
}

#[test]
fn a_repository_without_default_branch_skips_the_contest() {
    let branch = get_default_branch(404, "{\"message\":\"Not Found\"}");
    assert_eq!(branch_outcome(&branch), Outcome::Failed(Failure::BranchNotFound));
    assert_eq!(
        advance(Strategy::DirectFetch, Stage::Discovered, branch_outcome(&branch)),
        (Stage::Skipped, Action::NextContest)
    );
}

#[test]
fn a_source_that_does_not_decode_leaves_the_compile_set() {
    let good = "{\"sha\":\"s\",\"size\":18,\"url\":\"u\",\"encoding\":\"base64\",\
        \"content\":\"Y29udHJhY3Qg\\nVG9rZW4ge30K\\n\"}";
    let bad = "{\"sha\":\"s\",\"size\":1,\"url\":\"u\",\"encoding\":\"base64\",\"content\":\"%\"}";
    let answers = vec![
        ("Bad.sol".to_string(), bad.to_string()),
        ("Token.sol".to_string(), good.to_string()),
        ("Worse.sol".to_string(), "{}".to_string()),
    ];
    let units = acquire_each(&answers);
    let names: Vec<&str> = units.iter().map(|unit| unit.filename()).collect();
    assert_eq!(names, vec!["Token.sol"]);
    assert_eq!(acquisition_outcome(answers.len(), units.len()), Outcome::Done);

    let none = acquire_each(&vec![("Bad.sol".to_string(), bad.to_string())]);
    assert!(none.is_empty());
    assert_eq!(
        advance(
            Strategy::DirectFetch,
            Stage::TreeOrCloneResolved,
            acquisition_outcome(1, none.len())
        ),
        (Stage::Skipped, Action::NextContest)
    );
    assert!(acquire_each(&Vec::new()).is_empty());
}
