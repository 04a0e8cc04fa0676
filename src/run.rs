//! The decisions of a cleaning run: which remote, which repository, the verdict
//! on each branch, and which branches to delete.
//!
//! The caller lists the remotes and branches, fetches each branch's review
//! requests (concurrently, with a [`crate::resolver::Resolver`] per branch), hands the
//! results in here, and deletes what the plan names.
use vstd::prelude::*;
use crate::classify::{classify, decide, Action, Reason, ReviewRequestSummary, Verdict};
use crate::error::Error;
use crate::remote::{is_remote_for, parse_git_url};

verus! {

/// The owner and name of the repository on the review service.
#[derive(Debug)]
pub struct RepositoryIdentity {
    pub owner: String,
    pub name: String,
}

/// The name of the one remote. `names` holds each remote's name, `None` where
/// it is not UTF-8.
pub fn sole_remote(names: &Vec<Option<String>>) -> (r: Result<String, Error>)
    ensures
        names@.len() != 1 ==> r == Err::<String, Error>(Error::WrongRemoteCount(names@.len() as usize)),
        names@.len() == 1 ==> match names@[0] {
            Some(n) => r == Ok::<String, Error>(n),
            None => r == Err::<String, Error>(Error::InexpressableRemote),
        },
{
    if names.len() != 1 {
        return Err(Error::WrongRemoteCount(names.len()));
    }
    match &names[0] {
        Some(n) => Ok(n.clone()),
        None => Err(Error::InexpressableRemote),
    }
}

/// The repository that the remote URL `url` names; `url` is `None` where it
/// is not UTF-8.
pub fn repository_identity(url: Option<&str>) -> (r: Result<RepositoryIdentity, Error>)
    ensures
        match url {
            None => r == Err::<RepositoryIdentity, Error>(Error::RemoteUrlNotUtf8),
            Some(u) => match r {
                Ok(id) => is_remote_for(u@, id.owner@, id.name@),
                Err(e) => e == Error::RemoteUrlNotGithub && forall|o: Seq<char>, p: Seq<char>|
                    !is_remote_for(u@, o, p),
            },
        },
{
    match url {
        None => Err(Error::RemoteUrlNotUtf8),
        Some(u) => match parse_git_url(u) {
            Some((owner, name)) => Ok(
                RepositoryIdentity { owner: owner.to_owned(), name: name.to_owned() },
            ),
            None => Err(Error::RemoteUrlNotGithub),
        },
    }
}

pub open spec fn is_default_of(default_branch: Option<String>, name: String) -> bool {
    match default_branch {
        Some(d) => d@ == name@,
        None => false,
    }
}

/// Whether `name` is the repository's default branch; with no known default
/// branch, no branch is.
pub fn is_default_branch(default_branch: &Option<String>, name: &String) -> (r: bool)
    ensures
        r == is_default_of(*default_branch, *name),
{
    match default_branch {
        Some(d) => *d == *name,
        None => false,
    }
}

/// A branch and what came of fetching its review requests.
#[derive(Debug)]
pub struct BranchEvaluation {
    pub branch_name: String,
    pub resolved: Result<Vec<ReviewRequestSummary>, String>,
}

/// A branch whose review requests could not be had.
#[derive(Debug)]
pub struct BranchFailure {
    pub branch_name: String,
    pub error: String,
}

/// The result of evaluating one branch.
#[derive(Debug)]
pub enum BranchOutcome {
    Decided(Verdict),
    Failed(BranchFailure),
}

pub open spec fn outcome_of(e: BranchEvaluation, default_branch: Option<String>) -> BranchOutcome {
    if is_default_of(default_branch, e.branch_name) {
        BranchOutcome::Decided(
            Verdict {
                branch_name: e.branch_name,
                action: Action::Retain,
                reason: Reason::DefaultBranch,
            },
        )
    } else {
        match e.resolved {
            Ok(requests) => BranchOutcome::Decided(
                Verdict {
                    branch_name: e.branch_name,
                    action: decide(requests@, false).0,
                    reason: decide(requests@, false).1,
                },
            ),
            Err(msg) => BranchOutcome::Failed(BranchFailure { branch_name: e.branch_name, error: msg }),
        }
    }
}

pub open spec fn is_deletion(o: BranchOutcome) -> bool {
    match o {
        BranchOutcome::Decided(v) => v.action == Action::Delete,
        BranchOutcome::Failed(_) => false,
    }
}

pub open spec fn outcome_name(o: BranchOutcome) -> String {
    match o {
        BranchOutcome::Decided(v) => v.branch_name,
        BranchOutcome::Failed(f) => f.branch_name,
    }
}

/// The names of the branches verdicted for deletion, in order.
pub open spec fn deletions_of(outcomes: Seq<BranchOutcome>) -> Seq<String>
    decreases outcomes.len(),
{
    if outcomes.len() == 0 {
        Seq::empty()
    } else {
        let rest = deletions_of(outcomes.drop_last());
        if is_deletion(outcomes.last()) {
            rest.push(outcome_name(outcomes.last()))
        } else {
            rest
        }
    }
}

/// The outcomes of a run and the branches it deletes.
pub open spec fn plan_of(
    evaluations: Seq<BranchEvaluation>,
    default_branch: Option<String>,
    dry_run: bool,
) -> (Seq<BranchOutcome>, Seq<String>) {
    let outcomes = outcomes_of(evaluations, default_branch);
    (outcomes, if dry_run {
        Seq::empty()
    } else {
        deletions_of(outcomes)
    })
}

pub open spec fn outcomes_of(evaluations: Seq<BranchEvaluation>, default_branch: Option<String>) -> Seq<
    BranchOutcome,
> {
    Seq::new(evaluations.len(), |i: int| outcome_of(evaluations[i], default_branch))
}

/// The verdict on one branch: the default branch is retained; a branch whose
/// review requests could not be had is a failure and gets no verdict; any other
/// branch is classified by its review requests.
pub fn evaluate_branch(evaluation: BranchEvaluation, default_branch: &Option<String>) -> (r:
    BranchOutcome)
    ensures
        r == outcome_of(evaluation, *default_branch),
{
    if is_default_branch(default_branch, &evaluation.branch_name) {
        return BranchOutcome::Decided(
            Verdict {
                branch_name: evaluation.branch_name,
                action: Action::Retain,
                reason: Reason::DefaultBranch,
            },
        );
    }
    match evaluation.resolved {
        Ok(requests) => BranchOutcome::Decided(classify(evaluation.branch_name, &requests, false)),
        Err(error) => BranchOutcome::Failed(
            BranchFailure { branch_name: evaluation.branch_name, error },
        ),
    }
}

/// The names of the branches to delete: none in a dry run, else every branch
/// verdicted for deletion.
pub fn branches_to_delete(outcomes: &Vec<BranchOutcome>, dry_run: bool) -> (r: Vec<String>)
    ensures
        r@ == if dry_run {
            Seq::<String>::empty()
        } else {
            deletions_of(outcomes@)
        },
{
    let mut out: Vec<String> = Vec::new();
    if dry_run {
        return out;
    }
    let mut i: usize = 0;
    while i < outcomes.len()
        invariant
            i <= outcomes@.len(),
            out@ == deletions_of(outcomes@.subrange(0, i as int)),
        decreases outcomes@.len() - i,
    {
        proof {
            assert(outcomes@.subrange(0, i + 1).drop_last() =~= outcomes@.subrange(0, i as int));
        }
        match &outcomes[i] {
            BranchOutcome::Decided(v) => {
                if v.action == Action::Delete {
                    out.push(v.branch_name.clone());
                }
            },
            BranchOutcome::Failed(_) => {},
        }
        i = i + 1;
    }
    proof {
        assert(outcomes@.subrange(0, outcomes@.len() as int) =~= outcomes@);
    }
    out
}

/// The verdicts of a run, and the branches it deletes.
#[derive(Debug)]
pub struct RunPlan {
    /// One outcome per branch, in the order the branches were given.
    pub outcomes: Vec<BranchOutcome>,
    pub deletions: Vec<String>,
}

/// Evaluates every branch, each on its own results alone, and names the
/// branches to delete. No branch's failure stops the others.
pub fn plan_run(evaluations: Vec<BranchEvaluation>, default_branch: &Option<String>, dry_run: bool) -> (r:
    RunPlan)
    ensures
        (r.outcomes@, r.deletions@) == plan_of(evaluations@, *default_branch, dry_run),
{
    let ghost all = evaluations@;
    let mut rest = evaluations;
    let mut outcomes: Vec<BranchOutcome> = Vec::new();
    while rest.len() > 0
        invariant
            outcomes@.len() + rest@.len() == all.len(),
            rest@ == all.subrange(outcomes@.len() as int, all.len() as int),
            outcomes@ == outcomes_of(all, *default_branch).subrange(0, outcomes@.len() as int),
        decreases rest@.len(),
    {
        let e = rest.remove(0);
        let o = evaluate_branch(e, default_branch);
        outcomes.push(o);
        proof {
            assert(rest@ =~= all.subrange(outcomes@.len() as int, all.len() as int));
            assert(outcomes@ =~= outcomes_of(all, *default_branch).subrange(
                0,
                outcomes@.len() as int,
            ));
        }
    }
    proof {
        assert(outcomes@ =~= outcomes_of(all, *default_branch));
    }
    let deletions = branches_to_delete(&outcomes, dry_run);
    RunPlan { outcomes, deletions }
}

/// A branch whose review requests could not be had changes no other branch's
/// outcome, and is itself never deleted.
pub proof fn lemma_failure_isolated(
    evaluations: Seq<BranchEvaluation>,
    default_branch: Option<String>,
    b: int,
    failed: BranchEvaluation,
)
    requires
        0 <= b < evaluations.len(),
        failed.resolved is Err,
    ensures
        outcomes_of(evaluations.update(b, failed), default_branch).len() == evaluations.len(),
        forall|i: int|
            0 <= i < evaluations.len() && i != b ==> #[trigger] outcomes_of(
                evaluations.update(b, failed),
                default_branch,
            )[i] == outcomes_of(evaluations, default_branch)[i],
        !is_deletion(outcomes_of(evaluations.update(b, failed), default_branch)[b]),
{
}

/// A dry run deletes nothing and reaches the same verdicts as a real run on
/// the same branches and review requests; so two dry runs against an unchanged
/// repository and service agree, and leave the repository as it was.
pub proof fn lemma_dry_run_idempotent(
    evaluations: Seq<BranchEvaluation>,
    default_branch: Option<String>,
)
    ensures
        plan_of(evaluations, default_branch, true).1.len() == 0,
        plan_of(evaluations, default_branch, true).0 == plan_of(
            evaluations,
            default_branch,
            false,
        ).0,
{
}

} // verus!
