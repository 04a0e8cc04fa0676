use git_clean::classify::{
    classify, eq_ignore_ascii_case, lifecycle, should_delete_branch, state_from_name, Action,
    BranchLifecycle, Reason, ReviewRequestState, ReviewRequestSummary,
};

fn req(number: u64, state: ReviewRequestState) -> ReviewRequestSummary {
    ReviewRequestSummary { number, state }
}

#[test]
fn state_names() {
    assert_eq!(state_from_name(Some("closed")), ReviewRequestState::Closed);
    assert_eq!(state_from_name(Some("CLOSED")), ReviewRequestState::Closed);
    assert_eq!(state_from_name(Some("Closed")), ReviewRequestState::Closed);
    assert_eq!(state_from_name(Some("open")), ReviewRequestState::Open);
    assert_eq!(state_from_name(Some("merged")), ReviewRequestState::Open);
    assert_eq!(state_from_name(Some("closed ")), ReviewRequestState::Open);
    assert_eq!(state_from_name(Some("")), ReviewRequestState::Open);
    assert_eq!(state_from_name(None), ReviewRequestState::Open);
}

#[test]
fn ascii_case_comparison() {
    assert!(eq_ignore_ascii_case("AbC_1", "aBc_1"));
    assert!(!eq_ignore_ascii_case("abc", "abd"));
    assert!(!eq_ignore_ascii_case("abc", "ab"));
    assert!(!eq_ignore_ascii_case("[", "{"));
    assert!(eq_ignore_ascii_case("", ""));
}

#[test]
fn default_branch_is_retained() {
    let all_closed = vec![req(1, ReviewRequestState::Closed)];
    let v = classify("main".to_string(), &all_closed, true);
    assert_eq!(v.branch_name, "main");
    assert_eq!(v.action, Action::Retain);
    assert_eq!(v.reason, Reason::DefaultBranch);
    assert_eq!(classify("main".to_string(), &vec![], true).action, Action::Retain);
}

#[test]
fn no_requests_is_retained() {
    let v = classify("orphan".to_string(), &vec![], false);
    assert_eq!(v.action, Action::Retain);
    assert_eq!(v.reason, Reason::NoRequests);
    assert_eq!(v.reason.describe(), "no review requests; presumed local or not yet pushed");
    assert!(!should_delete_branch(&vec![]));
    assert_eq!(lifecycle(&vec![]), BranchLifecycle::NoRequests);
}

#[test]
fn open_request_outweighs_closed() {
    let reqs = vec![req(1, ReviewRequestState::Closed), req(2, ReviewRequestState::Open), req(3, ReviewRequestState::Closed)];
    let v = classify("b".to_string(), &reqs, false);
    assert_eq!(v.action, Action::Retain);
    assert_eq!(v.reason, Reason::OpenRequest);
    assert_eq!(v.reason.describe(), "open review request exists");
    assert!(!should_delete_branch(&reqs));
    assert_eq!(lifecycle(&reqs), BranchLifecycle::OpenRequestsExist);
}

#[test]
fn all_closed_is_deleted() {
    let reqs = vec![req(1, ReviewRequestState::Closed), req(2, ReviewRequestState::Closed)];
    let v = classify("done".to_string(), &reqs, false);
    assert_eq!(v.action, Action::Delete);
    assert_eq!(v.reason, Reason::AllClosed);
    assert_eq!(v.reason.describe(), "all review requests closed");
    assert_eq!(Reason::DefaultBranch.describe(), "default branch");
    assert!(should_delete_branch(&reqs));
    assert_eq!(lifecycle(&reqs), BranchLifecycle::AllRequestsClosed);
}

#[test]
fn adding_open_request_flips_to_retain() {
    let mut reqs = vec![req(1, ReviewRequestState::Closed)];
    assert_eq!(classify("b".to_string(), &reqs, false).action, Action::Delete);
    reqs.insert(0, req(2, ReviewRequestState::Open));
    assert_eq!(classify("b".to_string(), &reqs, false).action, Action::Retain);
    reqs.remove(0);
    assert_eq!(classify("b".to_string(), &reqs, false).action, Action::Delete);
}
