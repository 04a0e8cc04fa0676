use git_clean::classify::{ReviewRequestState, ReviewRequestSummary};
use git_clean::resolver::{select_matching, PageEvent, RawReviewRequest, ResolveAction, Resolver, PAGE_SIZE};

fn raw(number: u64, state: Option<&str>, source: &str) -> RawReviewRequest {
    RawReviewRequest { number, state: state.map(|s| s.to_string()), source_branch: source.to_string() }
}

#[test]
fn selects_exact_branch_only() {
    let items = vec![
        raw(1, Some("closed"), "feature"),
        raw(2, Some("open"), "feature-b"),
        raw(3, None, "feature"),
        raw(4, Some("closed"), "Feature"),
    ];
    let found = select_matching(&items, &"feature".to_string());
    assert_eq!(
        found,
        vec![
            ReviewRequestSummary { number: 1, state: ReviewRequestState::Closed },
            ReviewRequestSummary { number: 3, state: ReviewRequestState::Open },
        ]
    );
}

#[test]
fn follows_pages_until_none_remain() {
    let (mut r, first) = Resolver::new("feature".to_string());
    assert!(matches!(first, ResolveAction::FetchPage { page: 1, per_page: 100 }));
    assert_eq!(PAGE_SIZE, 100);
    let next = r.step(PageEvent::Page { items: vec![raw(7, Some("closed"), "feature")], has_more: true });
    assert!(matches!(next, ResolveAction::FetchPage { page: 2, per_page: 100 }));
    let next = r.step(PageEvent::Page {
        items: vec![raw(8, Some("open"), "other"), raw(9, Some("CLOSED"), "feature")],
        has_more: false,
    });
    match next {
        ResolveAction::Finished(v) => assert_eq!(
            v,
            vec![
                ReviewRequestSummary { number: 7, state: ReviewRequestState::Closed },
                ReviewRequestSummary { number: 9, state: ReviewRequestState::Closed },
            ]
        ),
        other => panic!("unexpected {other:?}"),
    }
}

#[test]
fn failed_page_fails_resolution() {
    let (mut r, _) = Resolver::new("flaky".to_string());
    let _ = r.step(PageEvent::Page { items: vec![raw(1, Some("closed"), "flaky")], has_more: true });
    match r.step(PageEvent::Failed("network error".to_string())) {
        ResolveAction::Failed(msg) => assert_eq!(msg, "network error"),
        other => panic!("unexpected {other:?}"),
    }
}

#[test]
fn empty_single_page() {
    let (mut r, _) = Resolver::new("orphan".to_string());
    match r.step(PageEvent::Page { items: vec![], has_more: false }) {
        ResolveAction::Finished(v) => assert!(v.is_empty()),
        other => panic!("unexpected {other:?}"),
    }
}

#[test]
fn page_counter_limit_fails() {
    let mut r = Resolver { branch_name: "b".to_string(), collected: vec![], page: u32::MAX };
    assert!(matches!(
        r.step(PageEvent::Page { items: vec![raw(1, Some("closed"), "b")], has_more: true }),
        ResolveAction::Failed(_)
    ));
    assert_eq!(r.collected, vec![ReviewRequestSummary { number: 1, state: ReviewRequestState::Closed }]);
}
