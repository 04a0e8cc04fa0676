use git_clean::classify::{Action, Reason, ReviewRequestState, ReviewRequestSummary};
use git_clean::error::{flatten_errors, Error};
use git_clean::run::{
    branches_to_delete, evaluate_branch, is_default_branch, plan_run, sole_remote,
    BranchEvaluation, BranchOutcome, RunPlan,
};

fn closed(n: u64) -> ReviewRequestSummary {
    ReviewRequestSummary { number: n, state: ReviewRequestState::Closed }
}

fn open(n: u64) -> ReviewRequestSummary {
    ReviewRequestSummary { number: n, state: ReviewRequestState::Open }
}

fn eval(name: &str, resolved: Result<Vec<ReviewRequestSummary>, String>) -> BranchEvaluation {
    BranchEvaluation { branch_name: name.to_string(), resolved }
}

fn verdict_of(plan: &RunPlan, name: &str) -> Option<(Action, Reason)> {
    plan.outcomes.iter().find_map(|o| match o {
        BranchOutcome::Decided(v) if v.branch_name == name => Some((v.action, v.reason)),
        _ => None,
    })
}

fn scenario() -> Vec<BranchEvaluation> {
    vec![
        eval("main", Ok(vec![closed(1)])),
        eval("feature-a", Ok(vec![closed(2)])),
        eval("feature-b", Ok(vec![open(3), closed(4)])),
    ]
}

#[test]
fn three_branch_scenario() {
    let plan = plan_run(scenario(), &Some("main".to_string()), false);
    assert_eq!(plan.outcomes.len(), 3);
    assert_eq!(verdict_of(&plan, "main"), Some((Action::Retain, Reason::DefaultBranch)));
    assert_eq!(verdict_of(&plan, "feature-a"), Some((Action::Delete, Reason::AllClosed)));
    assert_eq!(verdict_of(&plan, "feature-b"), Some((Action::Retain, Reason::OpenRequest)));
    assert_eq!(plan.deletions, vec!["feature-a".to_string()]);
}

#[test]
fn orphan_branch_is_retained() {
    let plan = plan_run(vec![eval("orphan", Ok(vec![]))], &None, false);
    assert_eq!(verdict_of(&plan, "orphan"), Some((Action::Retain, Reason::NoRequests)));
    assert!(plan.deletions.is_empty());
}

#[test]
fn flaky_branch_failure_is_isolated() {
    let evals = vec![
        eval("done", Ok(vec![closed(1)])),
        eval("flaky", Err("network error".to_string())),
        eval("busy", Ok(vec![open(2)])),
    ];
    let plan = plan_run(evals, &Some("main".to_string()), false);
    assert_eq!(plan.outcomes.len(), 3);
    let failures: Vec<_> = plan
        .outcomes
        .iter()
        .filter_map(|o| match o {
            BranchOutcome::Failed(f) => Some((f.branch_name.clone(), f.error.clone())),
            _ => None,
        })
        .collect();
    assert_eq!(failures, vec![("flaky".to_string(), "network error".to_string())]);
    assert_eq!(verdict_of(&plan, "flaky"), None);
    assert_eq!(verdict_of(&plan, "done"), Some((Action::Delete, Reason::AllClosed)));
    assert_eq!(verdict_of(&plan, "busy"), Some((Action::Retain, Reason::OpenRequest)));
    assert_eq!(plan.deletions, vec!["done".to_string()]);
}

#[test]
fn dry_run_deletes_nothing_and_repeats() {
    let first = plan_run(scenario(), &Some("main".to_string()), true);
    let second = plan_run(scenario(), &Some("main".to_string()), true);
    assert!(first.deletions.is_empty());
    assert!(second.deletions.is_empty());
    for name in ["main", "feature-a", "feature-b"] {
        assert_eq!(verdict_of(&first, name), verdict_of(&second, name));
    }
    assert_eq!(verdict_of(&first, "feature-a"), Some((Action::Delete, Reason::AllClosed)));
    assert_eq!(branches_to_delete(&first.outcomes, false), vec!["feature-a".to_string()]);
}

#[test]
fn default_branch_without_known_default() {
    assert!(is_default_branch(&Some("main".to_string()), &"main".to_string()));
    assert!(!is_default_branch(&Some("main".to_string()), &"Main".to_string()));
    assert!(!is_default_branch(&None, &"main".to_string()));
    match evaluate_branch(eval("main", Ok(vec![closed(1)])), &None) {
        BranchOutcome::Decided(v) => assert_eq!(v.action, Action::Delete),
        other => panic!("unexpected {other:?}"),
    }
    match evaluate_branch(eval("main", Err("x".to_string())), &Some("main".to_string())) {
        BranchOutcome::Decided(v) => assert_eq!(v.reason, Reason::DefaultBranch),
        other => panic!("unexpected {other:?}"),
    }
}

#[test]
fn remote_count_must_be_one() {
    assert_eq!(sole_remote(&vec![]), Err(Error::WrongRemoteCount(0)));
    assert_eq!(
        sole_remote(&vec![Some("origin".to_string()), Some("upstream".to_string())]),
        Err(Error::WrongRemoteCount(2))
    );
    assert_eq!(sole_remote(&vec![None]), Err(Error::InexpressableRemote));
    assert_eq!(sole_remote(&vec![Some("origin".to_string())]), Ok("origin".to_string()));
}

#[test]
fn error_chain_flattening() {
    assert_eq!(flatten_errors(&vec![]), "");
    assert_eq!(flatten_errors(&vec!["open repo".to_string()]), "open repo");
    assert_eq!(
        flatten_errors(&vec!["search".to_string(), "http".to_string(), "timed out".to_string()]),
        "search: http: timed out"
    );
}

#[test]
fn error_messages() {
    assert_eq!(Error::WrongRemoteCount(0).message(), "wrong number of remotes: expected 1, have 0");
    assert_eq!(Error::WrongRemoteCount(2).message(), "wrong number of remotes: expected 1, have 2");
    assert_eq!(Error::WrongRemoteCount(105).message(), "wrong number of remotes: expected 1, have 105");
    assert_eq!(Error::InexpressableRemote.message(), "inexpressable remote: remote name was not utf-8");
    assert_eq!(Error::RemoteUrlNotUtf8.message(), "remote url not utf-8");
    assert_eq!(Error::RemoteUrlNotGithub.message(), "remote url not recognized as github");
    assert_eq!(Error::BranchNameNotUtf8.message(), "branch name not utf-8");
}
