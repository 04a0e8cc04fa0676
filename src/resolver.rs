//! Collecting the review requests of one branch, page by page.
//!
//! The review service is asked for one page at a time; the caller performs each
//! fetch that a [`Resolver`] asks for and hands back what came of it.
use vstd::prelude::*;
use crate::classify::{
    closed_word, decide, eq_ignoring_ascii_case, lemma_classify_precedence, state_from_name,
    state_of, Action, ReviewRequestState, ReviewRequestSummary,
};

verus! {

/// The most items the review service hands out in one page.
pub const PAGE_SIZE: u8 = 100;

/// A review request as the service reports it.
#[derive(Debug)]
pub struct RawReviewRequest {
    pub number: u64,
    /// The reported state, if any.
    pub state: Option<String>,
    /// The branch that the request would merge.
    pub source_branch: String,
}

pub open spec fn opt_text(s: Option<String>) -> Option<Seq<char>> {
    match s {
        Some(t) => Some(t@),
        None => None,
    }
}

pub open spec fn summary_of(r: RawReviewRequest) -> ReviewRequestSummary {
    ReviewRequestSummary { number: r.number, state: state_of(opt_text(r.state)) }
}

/// The summaries of those requests among `items`, in order, whose source is
/// exactly the branch `branch`.
pub open spec fn matching(items: Seq<RawReviewRequest>, branch: Seq<char>) -> Seq<
    ReviewRequestSummary,
>
    decreases items.len(),
{
    if items.len() == 0 {
        Seq::empty()
    } else {
        let rest = matching(items.drop_last(), branch);
        if items.last().source_branch@ == branch {
            rest.push(summary_of(items.last()))
        } else {
            rest
        }
    }
}

/// The summaries of the requests among `items` whose source is exactly `branch_name`.
pub fn select_matching(items: &Vec<RawReviewRequest>, branch_name: &String) -> (r: Vec<
    ReviewRequestSummary,
>)
    ensures
        r@ == matching(items@, branch_name@),
{
    let mut out: Vec<ReviewRequestSummary> = Vec::new();
    let mut i: usize = 0;
    while i < items.len()
        invariant
            i <= items@.len(),
            out@ == matching(items@.subrange(0, i as int), branch_name@),
        decreases items@.len() - i,
    {
        let item = &items[i];
        proof {
            assert(items@.subrange(0, i + 1).drop_last() =~= items@.subrange(0, i as int));
        }
        if item.source_branch == *branch_name {
            let state = match &item.state {
                Some(s) => state_from_name(Some(s.as_str())),
                None => state_from_name(None),
            };
            out.push(ReviewRequestSummary { number: item.number, state });
        }
        i = i + 1;
    }
    proof {
        assert(items@.subrange(0, items@.len() as int) =~= items@);
    }
    out
}

/// What came of fetching a page.
#[derive(Debug)]
pub enum PageEvent {
    Page { items: Vec<RawReviewRequest>, has_more: bool },
    Failed(String),
}

/// What a resolver asks its caller to do next.
#[derive(Debug)]
pub enum ResolveAction {
    /// Fetch page `page` (counted from 1) holding at most `per_page` items.
    FetchPage { page: u32, per_page: u8 },
    /// Every page was read: these are the branch's review requests.
    Finished(Vec<ReviewRequestSummary>),
    /// A page could not be had: the branch's requests stay unknown.
    Failed(String),
}

/// The review requests of one branch, as far as the pages read so far go.
#[derive(Debug)]
pub struct Resolver {
    pub branch_name: String,
    pub collected: Vec<ReviewRequestSummary>,
    /// The page that was asked for last.
    pub page: u32,
}

pub open spec fn is_fetch(a: ResolveAction, page: u32) -> bool {
    a == ResolveAction::FetchPage { page, per_page: PAGE_SIZE }
}

impl Resolver {
    /// A resolver for `branch_name`, and its first request: the first page.
    pub fn new(branch_name: String) -> (r: (Resolver, ResolveAction))
        ensures
            r.0.branch_name == branch_name,
            r.0.collected@ == Seq::<ReviewRequestSummary>::empty(),
            r.0.page == 1,
            is_fetch(r.1, 1),
    {
        (
            Resolver { branch_name, collected: Vec::new(), page: 1 },
            ResolveAction::FetchPage { page: 1, per_page: PAGE_SIZE },
        )
    }

    /// Takes in what came of the last fetch. A page adds its requests for this
    /// branch; the next page is asked for while the service reports more. A
    /// failed fetch fails the whole resolution.
    pub fn step(&mut self, event: PageEvent) -> (a: ResolveAction)
        ensures
            final(self).branch_name == old(self).branch_name,
            match event {
                PageEvent::Page { items, has_more } => {
                    &&& final(self).collected@ == old(self).collected@ + matching(
                        items@,
                        old(self).branch_name@,
                    )
                    &&& if !has_more {
                        &&& final(self).page == old(self).page
                        &&& match a {
                            ResolveAction::Finished(v) => v@ == final(self).collected@,
                            _ => false,
                        }
                    } else if old(self).page < u32::MAX {
                        final(self).page == old(self).page + 1 && is_fetch(a, final(self).page)
                    } else {
                        final(self).page == old(self).page && a is Failed
                    }
                },
                PageEvent::Failed(msg) => {
                    &&& final(self).collected@ == old(self).collected@
                    &&& final(self).page == old(self).page
                    &&& a == ResolveAction::Failed(msg)
                },
            },
    {
        match event {
            PageEvent::Page { items, has_more } => {
                let found = select_matching(&items, &self.branch_name);
                let mut i: usize = 0;
                while i < found.len()
                    invariant
                        i <= found@.len(),
                        self.branch_name == old(self).branch_name,
                        self.page == old(self).page,
                        self.collected@ == old(self).collected@ + found@.subrange(0, i as int),
                    decreases found@.len() - i,
                {
                    self.collected.push(found[i]);
                    i = i + 1;
                    proof {
                        assert(old(self).collected@ + found@.subrange(0, i as int)
                            =~= self.collected@);
                    }
                }
                proof {
                    assert(found@.subrange(0, found@.len() as int) =~= found@);
                }
                if !has_more {
                    let done = self.collected.clone();
                    proof {
                        assert(done@ =~= self.collected@);
                    }
                    ResolveAction::Finished(done)
                } else if self.page < u32::MAX {
                    self.page = self.page + 1;
                    ResolveAction::FetchPage { page: self.page, per_page: PAGE_SIZE }
                } else {
                    ResolveAction::Failed(String::from_str("more pages than can be asked for"))
                }
            },
            PageEvent::Failed(msg) => ResolveAction::Failed(msg),
        }
    }
}

pub open spec fn is_from(r: RawReviewRequest, branch: Seq<char>) -> bool {
    r.source_branch@ == branch
}

/// The reported state name is `closed`, in any ASCII case.
pub open spec fn named_closed(r: RawReviewRequest) -> bool {
    match r.state {
        Some(n) => eq_ignoring_ascii_case(n@, closed_word()),
        None => false,
    }
}

proof fn lemma_matching_members(items: Seq<RawReviewRequest>, branch: Seq<char>)
    ensures
        matching(items, branch).len() > 0 <==> exists|i: int|
            0 <= i < items.len() && #[trigger] is_from(items[i], branch),
        (forall|j: int|
            0 <= j < matching(items, branch).len() ==> (#[trigger] matching(items, branch)[j]).state
                == ReviewRequestState::Closed) <==> (forall|i: int|
            0 <= i < items.len() && #[trigger] is_from(items[i], branch) ==> named_closed(items[i])),
    decreases items.len(),
{
    if items.len() > 0 {
        let init = items.drop_last();
        lemma_matching_members(init, branch);
        let m = matching(items, branch);
        let mi = matching(init, branch);
        let n = items.len() - 1;
        assert forall|i: int| 0 <= i < init.len() implies init[i] == items[i] by {}
        if exists|i: int| 0 <= i < init.len() && #[trigger] is_from(init[i], branch) {
            let i = choose|i: int| 0 <= i < init.len() && #[trigger] is_from(init[i], branch);
            assert(is_from(items[i], branch));
        }
        if exists|i: int| 0 <= i < items.len() && #[trigger] is_from(items[i], branch) {
            let i = choose|i: int| 0 <= i < items.len() && #[trigger] is_from(items[i], branch);
            if i < n {
                assert(is_from(init[i], branch));
            }
        }
        if is_from(items[n], branch) {
            assert(m == mi.push(summary_of(items[n])));
            assert(m[mi.len() as int] == summary_of(items[n]));
            if forall|i: int|
                0 <= i < items.len() && #[trigger] is_from(items[i], branch) ==> named_closed(
                    items[i],
                ) {
                assert forall|i: int|
                    0 <= i < init.len() && #[trigger] is_from(init[i], branch) implies named_closed(
                    init[i],
                ) by {
                    assert(is_from(items[i], branch));
                }
                assert forall|j: int| 0 <= j < m.len() implies (#[trigger] m[j]).state
                    == ReviewRequestState::Closed by {
                    if j < mi.len() {
                        assert(m[j] == mi[j]);
                    } else {
                        assert(named_closed(items[n]));
                    }
                }
            }
            if forall|j: int| 0 <= j < m.len() ==> (#[trigger] m[j]).state
                == ReviewRequestState::Closed {
                assert forall|j: int| 0 <= j < mi.len() implies (#[trigger] mi[j]).state
                    == ReviewRequestState::Closed by {
                    assert(m[j] == mi[j]);
                }
                assert(m[mi.len() as int].state == ReviewRequestState::Closed);
                assert forall|i: int|
                    0 <= i < items.len() && #[trigger] is_from(items[i], branch) implies named_closed(
                    items[i],
                ) by {
                    if i < n {
                        assert(is_from(init[i], branch));
                    }
                }
            }
        } else {
            assert(m == mi);
            if forall|i: int|
                0 <= i < items.len() && #[trigger] is_from(items[i], branch) ==> named_closed(
                    items[i],
                ) {
                assert forall|i: int|
                    0 <= i < init.len() && #[trigger] is_from(init[i], branch) implies named_closed(
                    init[i],
                ) by {
                    assert(is_from(items[i], branch));
                }
            }
            if forall|i: int|
                0 <= i < init.len() && #[trigger] is_from(init[i], branch) ==> named_closed(
                    init[i],
                ) {
                assert forall|i: int|
                    0 <= i < items.len() && #[trigger] is_from(items[i], branch) implies named_closed(
                    items[i],
                ) by {
                    if i < n {
                        assert(is_from(init[i], branch));
                    }
                }
            }
        }
    }
}

/// A branch that is not the default is deleted exactly when the service
/// reported at least one review request from it, and every such request's
/// state is `closed` in some ASCII case.
pub proof fn lemma_delete_iff_all_named_closed(items: Seq<RawReviewRequest>, branch: Seq<char>)
    ensures
        decide(matching(items, branch), false).0 == Action::Delete <==> ((exists|i: int|
            0 <= i < items.len() && #[trigger] is_from(items[i], branch)) && forall|i: int|
            0 <= i < items.len() && #[trigger] is_from(items[i], branch) ==> named_closed(items[i])),
{
    lemma_matching_members(items, branch);
    lemma_classify_precedence(matching(items, branch));
}

} // verus!
