//! The lifecycle of a branch, read from its review requests, and the verdict on it.
use vstd::prelude::*;

verus! {

/// The state of one review request.
#[derive(Clone, Copy, Debug, PartialEq, Eq, Structural)]
pub enum ReviewRequestState {
    Open,
    Closed,
}

/// One review request whose source is a given branch.
#[derive(Clone, Copy, Debug, PartialEq, Eq, Structural)]
pub struct ReviewRequestSummary {
    pub number: u64,
    pub state: ReviewRequestState,
}

/// What a branch's review requests say of it. A branch that was never pushed
/// and one that was pushed with no review request look the same here.
#[derive(Clone, Copy, Debug, PartialEq, Eq, Structural)]
pub enum BranchLifecycle {
    NoRequests,
    OpenRequestsExist,
    AllRequestsClosed,
}

#[derive(Clone, Copy, Debug, PartialEq, Eq, Structural)]
pub enum Action {
    Retain,
    Delete,
}

/// Why a verdict was reached.
#[derive(Clone, Copy, Debug, PartialEq, Eq, Structural)]
pub enum Reason {
    DefaultBranch,
    NoRequests,
    OpenRequest,
    AllClosed,
}

/// The decision on one branch.
#[derive(Debug)]
pub struct Verdict {
    pub branch_name: String,
    pub action: Action,
    pub reason: Reason,
}

/// `a` and `b` are the same character once ASCII capitals are lowered.
pub open spec fn same_char_ignoring_ascii_case(a: char, b: char) -> bool {
    a == b || ('A' <= a && a <= 'Z' && a as u32 + 32 == b as u32) || ('A' <= b && b <= 'Z'
        && b as u32 + 32 == a as u32)
}

/// `a` and `b` are the same string once ASCII capitals are lowered.
pub open spec fn eq_ignoring_ascii_case(a: Seq<char>, b: Seq<char>) -> bool {
    a.len() == b.len() && forall|i: int|
        0 <= i < a.len() ==> #[trigger] same_char_ignoring_ascii_case(a[i], b[i])
}

pub open spec fn closed_word() -> Seq<char> {
    seq!['c', 'l', 'o', 's', 'e', 'd']
}

/// The state that a state name reported by the review service stands for:
/// `closed` in any ASCII case is closed; anything else, or nothing, is open.
pub open spec fn state_of(name: Option<Seq<char>>) -> ReviewRequestState {
    match name {
        Some(n) => if eq_ignoring_ascii_case(n, closed_word()) {
            ReviewRequestState::Closed
        } else {
            ReviewRequestState::Open
        },
        None => ReviewRequestState::Open,
    }
}

pub open spec fn is_open(r: ReviewRequestSummary) -> bool {
    r.state == ReviewRequestState::Open
}

pub open spec fn any_open(requests: Seq<ReviewRequestSummary>) -> bool {
    exists|i: int| 0 <= i < requests.len() && #[trigger] is_open(requests[i])
}

pub open spec fn lifecycle_of(requests: Seq<ReviewRequestSummary>) -> BranchLifecycle {
    if requests.len() == 0 {
        BranchLifecycle::NoRequests
    } else if any_open(requests) {
        BranchLifecycle::OpenRequestsExist
    } else {
        BranchLifecycle::AllRequestsClosed
    }
}

/// The action and reason for a branch with these review requests.
pub open spec fn decide(requests: Seq<ReviewRequestSummary>, is_default_branch: bool) -> (
    Action,
    Reason,
) {
    if is_default_branch {
        (Action::Retain, Reason::DefaultBranch)
    } else {
        match lifecycle_of(requests) {
            BranchLifecycle::NoRequests => (Action::Retain, Reason::NoRequests),
            BranchLifecycle::OpenRequestsExist => (Action::Retain, Reason::OpenRequest),
            BranchLifecycle::AllRequestsClosed => (Action::Delete, Reason::AllClosed),
        }
    }
}

impl Reason {
    pub open spec fn text(self) -> Seq<char> {
        match self {
            Reason::DefaultBranch => "default branch"@,
            Reason::NoRequests => "no review requests; presumed local or not yet pushed"@,
            Reason::OpenRequest => "open review request exists"@,
            Reason::AllClosed => "all review requests closed"@,
        }
    }

    /// The reason in words.
    pub fn describe(&self) -> (r: String)
        ensures
            r@ == self.text(),
    {
        match self {
            Reason::DefaultBranch => String::from_str("default branch"),
            Reason::NoRequests => String::from_str(
                "no review requests; presumed local or not yet pushed",
            ),
            Reason::OpenRequest => String::from_str("open review request exists"),
            Reason::AllClosed => String::from_str("all review requests closed"),
        }
    }
}

fn same_char_ignoring_ascii_case_exec(a: char, b: char) -> (r: bool)
    ensures
        r == same_char_ignoring_ascii_case(a, b),
{
    a == b || ('A' <= a && a <= 'Z' && a as u32 + 32 == b as u32) || ('A' <= b && b <= 'Z'
        && b as u32 + 32 == a as u32)
}

/// Whether two strings are equal once ASCII capitals are lowered.
pub fn eq_ignore_ascii_case(a: &str, b: &str) -> (r: bool)
    ensures
        r == eq_ignoring_ascii_case(a@, b@),
{
    let n = a.unicode_len();
    if n != b.unicode_len() {
        return false;
    }
    let mut i: usize = 0;
    while i < n
        invariant
            n == a@.len() == b@.len(),
            i <= n,
            forall|t: int| 0 <= t < i ==> #[trigger] same_char_ignoring_ascii_case(a@[t], b@[t]),
        decreases n - i,
    {
        if !same_char_ignoring_ascii_case_exec(a.get_char(i), b.get_char(i)) {
            return false;
        }
        i = i + 1;
    }
    true
}

/// The state that a state name reported by the review service stands for.
pub fn state_from_name(name: Option<&str>) -> (r: ReviewRequestState)
    ensures
        r == state_of(
            match name {
                Some(n) => Some(n@),
                None => None,
            },
        ),
{
    proof {
        reveal_strlit("closed");
        assert("closed"@ =~= closed_word());
    }
    match name {
        Some(n) => if eq_ignore_ascii_case(n, "closed") {
            ReviewRequestState::Closed
        } else {
            ReviewRequestState::Open
        },
        None => ReviewRequestState::Open,
    }
}

/// Which of the lifecycle states these review requests put a branch in.
pub fn lifecycle(requests: &Vec<ReviewRequestSummary>) -> (r: BranchLifecycle)
    ensures
        r == lifecycle_of(requests@),
{
    if requests.len() == 0 {
        return BranchLifecycle::NoRequests;
    }
    let mut i: usize = 0;
    while i < requests.len()
        invariant
            i <= requests@.len(),
            forall|t: int| 0 <= t < i ==> !#[trigger] is_open(requests@[t]),
        decreases requests@.len() - i,
    {
        if requests[i].state == ReviewRequestState::Open {
            assert(is_open(requests@[i as int]));
            return BranchLifecycle::OpenRequestsExist;
        }
        i = i + 1;
    }
    BranchLifecycle::AllRequestsClosed
}

/// A branch is to be deleted when it has review requests and all of them are closed.
pub fn should_delete_branch(requests: &Vec<ReviewRequestSummary>) -> (r: bool)
    ensures
        r == (requests@.len() > 0 && forall|i: int|
            0 <= i < requests@.len() ==> (#[trigger] requests@[i]).state
                == ReviewRequestState::Closed),
{
    let l = lifecycle(requests);
    proof {
        lemma_classify_precedence(requests@);
    }
    match l {
        BranchLifecycle::AllRequestsClosed => true,
        _ => false,
    }
}

/// The verdict on the branch `branch_name`, which has the review requests
/// `requests`: the default branch is retained whatever its requests, then a
/// branch with no request, then one with an open request; a branch whose
/// requests are all closed is deleted.
pub fn classify(branch_name: String, requests: &Vec<ReviewRequestSummary>, is_default_branch: bool) -> (r: Verdict)
    ensures
        r.branch_name == branch_name,
        (r.action, r.reason) == decide(requests@, is_default_branch),
{
    if is_default_branch {
        return Verdict { branch_name, action: Action::Retain, reason: Reason::DefaultBranch };
    }
    match lifecycle(requests) {
        BranchLifecycle::NoRequests => Verdict {
            branch_name,
            action: Action::Retain,
            reason: Reason::NoRequests,
        },
        BranchLifecycle::OpenRequestsExist => Verdict {
            branch_name,
            action: Action::Retain,
            reason: Reason::OpenRequest,
        },
        BranchLifecycle::AllRequestsClosed => Verdict {
            branch_name,
            action: Action::Delete,
            reason: Reason::AllClosed,
        },
    }
}

/// Every classification is either to retain or to delete.
pub proof fn lemma_classify_total(requests: Seq<ReviewRequestSummary>, is_default_branch: bool)
    ensures
        decide(requests, is_default_branch).0 == Action::Retain || decide(
            requests,
            is_default_branch,
        ).0 == Action::Delete,
{
}

/// The default branch is always retained; a branch with no review request is
/// retained; any other branch is deleted exactly when all of its review
/// requests are closed.
pub proof fn lemma_classify_precedence(requests: Seq<ReviewRequestSummary>)
    ensures
        decide(requests, true).0 == Action::Retain,
        decide(Seq::empty(), false).0 == Action::Retain,
        decide(requests, false).0 == Action::Delete <==> (requests.len() > 0 && forall|i: int|
            0 <= i < requests.len() ==> (#[trigger] requests[i]).state
                == ReviewRequestState::Closed),
{
    if requests.len() > 0 && !any_open(requests) {
        assert forall|i: int| 0 <= i < requests.len() implies (#[trigger] requests[i]).state
            == ReviewRequestState::Closed by {
            if requests[i].state != ReviewRequestState::Closed {
                assert(is_open(requests[i]));
            }
        }
    }
    if any_open(requests) {
        let i = choose|i: int| 0 <= i < requests.len() && #[trigger] is_open(requests[i]);
        assert(requests[i].state != ReviewRequestState::Closed);
    }
}

/// One open review request added anywhere to a set that led to deletion turns
/// the verdict to retention; taking the only open request out of a non-empty
/// set whose other requests are all closed turns it to deletion.
pub proof fn lemma_classify_monotone(
    requests: Seq<ReviewRequestSummary>,
    at: int,
    open_request: ReviewRequestSummary,
)
    requires
        0 <= at <= requests.len(),
        open_request.state == ReviewRequestState::Open,
    ensures
        decide(requests, false).0 == Action::Delete ==> decide(
            requests.insert(at, open_request),
            false,
        ).0 == Action::Retain,
        (requests.len() > 0 && !any_open(requests)) ==> decide(
            requests.insert(at, open_request),
            false,
        ).0 == Action::Retain && decide(requests, false).0 == Action::Delete,
{
    assert(requests.insert(at, open_request)[at] == open_request);
    assert(is_open(requests.insert(at, open_request)[at]));
}

} // verus!
