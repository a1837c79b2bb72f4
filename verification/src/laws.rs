//! What holds of every walk and of every reply.

use vstd::prelude::*;
use crate::aggregator::{
    calls, contribution, names_or_none, outcome_views, run, start, step, AggregatorView, Outcome,
    ProgressView,
};
use crate::error::AnyhowError;
use crate::handler::{occurs_at, occurs_in, passes, reply_for, selected, ReplyView};
use crate::roster::{AggregationRequest, PageResult, PageView};

verus! {

/// The outcomes of calls that all succeed, with `pages` as their answers.
pub open spec fn answers(pages: Seq<PageView>) -> Seq<Outcome> {
    Seq::new(pages.len(), |i: int| Ok(pages[i]))
}

/// What `pages` add to a roster when they answer the queries for the pages
/// `first`, `first + 1`, and so on.
pub open spec fn collected(first: nat, pages: Seq<PageView>) -> Seq<Seq<char>>
    decreases pages.len(),
{
    if pages.len() == 0 {
        Seq::empty()
    } else {
        contribution(first, pages[0]) + collected(first + 1, pages.drop_first())
    }
}

/// The regular supporters of `pages`, page after page.
pub open spec fn regulars(pages: Seq<PageView>) -> Seq<Seq<char>>
    decreases pages.len(),
{
    if pages.len() == 0 {
        Seq::empty()
    } else {
        pages[0].entries + regulars(pages.drop_first())
    }
}

/// Two outcomes that a walk cannot tell apart when they answer the query for
/// page `page`: the same failure, or answers that report the same page and
/// add the same names.
pub open spec fn alike(page: nat, one: Outcome, other: Outcome) -> bool {
    match (one, other) {
        (Err(e), Err(f)) => e == f,
        (Ok(p), Ok(q)) => p.current_page == q.current_page && contribution(page, p)
            == contribution(page, q),
        _ => false,
    }
}

/// A walk ends with the first answer that reports a page below the one asked
/// for, and not before. When the listing answers the next `n` queries with
/// pages that exist, empty or not, and the query after them with a page that
/// does not, the walk makes exactly `n + 1` calls and ends with what it had
/// gathered and what those `n` pages add, in order. The last answer adds
/// nothing.
pub proof fn lemma_walk_ends_one_past_the_data(at: AggregatorView, pages: Seq<PageView>, n: nat)
    requires
        pages.len() == n + 1,
        forall|i: int| 0 <= i < n ==> (#[trigger] pages[i]).current_page >= at.page + i,
        pages[n as int].current_page < at.page + n,
    ensures
        run(at, answers(pages)) == ProgressView::Done(
            Ok(at.gathered + collected(at.page, pages.take(n as int))),
        ),
        calls(at, answers(pages)) == n + 1,
        run(at, answers(pages).take(n as int)) is Fetch,
    decreases n,
{
    let outcomes = answers(pages);
    if n == 0 {
        assert(pages.take(0) =~= Seq::empty());
        assert(outcomes.take(0) =~= Seq::empty());
        assert(at.gathered + Seq::<Seq<char>>::empty() =~= at.gathered);
    } else {
        let next = AggregatorView {
            request: at.request,
            page: at.page + 1,
            gathered: at.gathered + contribution(at.page, pages[0]),
        };
        let later = pages.drop_first();
        assert(pages[0].current_page >= at.page + 0);
        assert(step(at, outcomes[0]) == ProgressView::Fetch(next));
        assert forall|i: int| 0 <= i < n - 1 implies (#[trigger] later[i]).current_page >= next.page
            + i by {
            assert(later[i] == pages[i + 1]);
        }
        lemma_walk_ends_one_past_the_data(next, later, (n - 1) as nat);
        assert(outcomes.drop_first() =~= answers(later));
        assert(outcomes.take(n as int).drop_first() =~= answers(later).take(n - 1));
        assert(outcomes.take(n as int)[0] == outcomes[0]);
        assert(pages.take(n as int).drop_first() =~= later.take(n - 1));
        assert(pages.take(n as int)[0] == pages[0]);
        assert(next.gathered + collected(next.page, later.take(n - 1)) =~= at.gathered + collected(
            at.page,
            pages.take(n as int),
        ));
    }
}

/// Once a walk is over it is over: whatever the listing would have answered
/// to further calls, none is made, and the end is the same.
pub proof fn lemma_nothing_after_the_end(
    at: AggregatorView,
    outcomes: Seq<Outcome>,
    further: Seq<Outcome>,
)
    requires
        run(at, outcomes) is Done,
    ensures
        run(at, outcomes + further) == run(at, outcomes),
        calls(at, outcomes + further) == calls(at, outcomes),
    decreases outcomes.len(),
{
    let longer = outcomes + further;
    assert(outcomes.len() > 0);
    assert(longer[0] == outcomes[0]);
    match step(at, outcomes[0]) {
        ProgressView::Fetch(next) => {
            assert(longer.drop_first() =~= outcomes.drop_first() + further);
            lemma_nothing_after_the_end(next, outcomes.drop_first(), further);
        },
        ProgressView::Done(_) => {},
    }
}

/// The order of a roster: the highlighted supporters of the first page, if
/// it has any, then the regular supporters of every page, page after page.
/// No page but the first adds highlighted supporters, and nothing is left
/// out because it occurs twice.
pub proof fn lemma_roster_order(pages: Seq<PageView>)
    requires
        pages.len() > 0,
    ensures
        collected(1, pages) == names_or_none(pages[0].top3) + regulars(pages),
{
    lemma_later_pages_add_regulars(2, pages.drop_first());
    assert(collected(1, pages) =~= names_or_none(pages[0].top3) + regulars(pages));
}

/// From the second page on, pages add their regular supporters and nothing else.
pub proof fn lemma_later_pages_add_regulars(first: nat, pages: Seq<PageView>)
    requires
        first > 1,
    ensures
        collected(first, pages) == regulars(pages),
    decreases pages.len(),
{
    if pages.len() > 0 {
        lemma_later_pages_add_regulars(first + 1, pages.drop_first());
    }
}

/// A walk sees of each outcome only whether it failed, the page it reports
/// and the names it adds: outcomes that are alike in these lead to the same
/// end after the same number of calls.
pub proof fn lemma_alike_outcomes_same_walk(
    at: AggregatorView,
    one: Seq<Outcome>,
    other: Seq<Outcome>,
)
    requires
        one.len() == other.len(),
        forall|i: int| 0 <= i < one.len() ==> alike(at.page + i as nat, one[i], other[i]),
    ensures
        run(at, one) == run(at, other),
        calls(at, one) == calls(at, other),
    decreases one.len(),
{
    if one.len() > 0 {
        assert(alike(at.page + 0 as nat, one[0], other[0]));
        assert(step(at, one[0]) == step(at, other[0]));
        match step(at, one[0]) {
            ProgressView::Fetch(next) => {
                let a = one.drop_first();
                let b = other.drop_first();
                assert forall|i: int| 0 <= i < a.len() implies alike(
                    next.page + i as nat,
                    a[i],
                    b[i],
                ) by {
                    assert(alike(at.page + (i + 1) as nat, one[i + 1], other[i + 1]));
                }
                lemma_alike_outcomes_same_walk(next, a, b);
            },
            ProgressView::Done(_) => {},
        }
    }
}

/// Highlighted supporters count on the first page only: whatever a later
/// page carries as its highlighted list, the roster is the same.
pub proof fn lemma_later_top3_ignored(
    request: AggregationRequest,
    pages: Seq<PageView>,
    k: int,
    top3: Option<Seq<Seq<char>>>,
)
    requires
        1 <= k < pages.len(),
    ensures
        run(
            start(request),
            answers(
                pages.update(
                    k,
                    PageView { current_page: pages[k].current_page, entries: pages[k].entries, top3 },
                ),
            ),
        ) == run(start(request), answers(pages)),
{
    let changed = pages.update(
        k,
        PageView { current_page: pages[k].current_page, entries: pages[k].entries, top3 },
    );
    lemma_alike_outcomes_same_walk(start(request), answers(changed), answers(pages));
}

/// A first page without a highlighted list is read as one whose highlighted
/// list is empty: the walk goes the same way, and the roster begins with the
/// regular supporters of that page.
pub proof fn lemma_absent_top3_is_empty(request: AggregationRequest, pages: Seq<PageView>)
    requires
        pages.len() > 0,
        pages[0].top3 is None,
    ensures
        run(
            start(request),
            answers(
                pages.update(
                    0,
                    PageView {
                        current_page: pages[0].current_page,
                        entries: pages[0].entries,
                        top3: Some(Seq::empty()),
                    },
                ),
            ),
        ) == run(start(request), answers(pages)),
        contribution(1, pages[0]) == pages[0].entries,
{
    let changed = pages.update(
        0,
        PageView {
            current_page: pages[0].current_page,
            entries: pages[0].entries,
            top3: Some(Seq::empty()),
        },
    );
    assert(contribution(1, pages[0]) =~= pages[0].entries);
    assert(contribution(1, changed[0]) =~= pages[0].entries);
    assert forall|i: int| 0 <= i < pages.len() implies alike(
        start(request).page + i as nat,
        answers(changed)[i],
        answers(pages)[i],
    ) by {}
    lemma_alike_outcomes_same_walk(start(request), answers(changed), answers(pages));
}

/// The first failure ends the walk, whatever its kind, and the walk ends
/// with that failure alone: when the calls before call `k` are answered with
/// pages that exist and call `k` fails, the walk makes `k + 1` calls, none
/// after the failure, and the reply to the request has status 500 and the
/// failure's description as its body, with no name of an earlier page in it.
pub proof fn lemma_failure_ends_walk(
    at: AggregatorView,
    outcomes: Seq<Outcome>,
    k: int,
    filter: Option<Seq<char>>,
)
    requires
        0 <= k < outcomes.len(),
        outcomes[k] is Err,
        forall|i: int|
            0 <= i < k ==> (#[trigger] outcomes[i]) is Ok && outcomes[i]->Ok_0.current_page
                >= at.page + i,
    ensures
        run(at, outcomes) == ProgressView::Done(Err(outcomes[k]->Err_0)),
        calls(at, outcomes) == k + 1,
        reply_for(run(at, outcomes)->Done_0, filter) == (ReplyView {
            status: 500,
            body: outcomes[k]->Err_0.message,
        }),
    decreases k,
{
    if k > 0 {
        assert(outcomes[0] is Ok && outcomes[0]->Ok_0.current_page >= at.page + 0);
        let next = step(at, outcomes[0])->Fetch_0;
        let later = outcomes.drop_first();
        assert forall|i: int| 0 <= i < k - 1 implies (#[trigger] later[i]) is Ok
            && later[i]->Ok_0.current_page >= next.page + i by {
            assert(later[i] == outcomes[i + 1]);
        }
        lemma_failure_ends_walk(next, later, k - 1, filter);
    }
}

/// A walk has no memory but its answers: two walks over the same roster
/// whose calls come to the same outcomes end alike, after the same number
/// of calls.
pub proof fn lemma_same_answers_same_roster(
    request: AggregationRequest,
    first: Seq<Result<PageResult, AnyhowError>>,
    second: Seq<Result<PageResult, AnyhowError>>,
)
    requires
        outcome_views(first) == outcome_views(second),
    ensures
        run(start(request), outcome_views(first)) == run(start(request), outcome_views(second)),
        calls(start(request), outcome_views(first)) == calls(
            start(request),
            outcome_views(second),
        ),
{
}

/// Every text holds the empty text, so an empty filter keeps every name.
pub proof fn lemma_empty_filter_keeps_all(names: Seq<Seq<char>>)
    ensures
        selected(names, Some(Seq::empty())) == names,
    decreases names.len(),
{
    reveal(Seq::filter);
    if names.len() > 0 {
        lemma_empty_filter_keeps_all(names.drop_last());
        let name = names.last();
        assert(name.subrange(0, 0) =~= Seq::<char>::empty());
        assert(occurs_at(Seq::empty(), name, 0));
        assert(passes(Seq::empty())(name));
        assert(names.drop_last().push(name) =~= names);
    }
}

/// A filter keeps the names that hold it and drops the others; the names it
/// keeps stand in the order in which the roster has them.
pub proof fn lemma_filter_keeps_matches_in_order(
    names: Seq<Seq<char>>,
    name: Seq<char>,
    filter: Seq<char>,
)
    ensures
        selected(names.push(name), Some(filter)) == if occurs_in(filter, name) {
            selected(names, Some(filter)).push(name)
        } else {
            selected(names, Some(filter))
        },
        selected(Seq::empty(), Some(filter)) == Seq::<Seq<char>>::empty(),
{
    reveal(Seq::filter);
    assert(names.push(name).drop_last() =~= names);
}

/// A filter that no name holds leaves nothing: the reply is a success with
/// an empty body.
pub proof fn lemma_unmatched_filter_gives_empty_reply(names: Seq<Seq<char>>, filter: Seq<char>)
    requires
        forall|i: int| 0 <= i < names.len() ==> !occurs_in(filter, #[trigger] names[i]),
    ensures
        selected(names, Some(filter)) == Seq::<Seq<char>>::empty(),
        reply_for(Ok(names), Some(filter)) == (ReplyView { status: 200, body: Seq::empty() }),
    decreases names.len(),
{
    reveal(Seq::filter);
    if names.len() > 0 {
        let shorter = names.drop_last();
        assert forall|i: int| 0 <= i < shorter.len() implies !occurs_in(
            filter,
            #[trigger] shorter[i],
        ) by {
            assert(shorter[i] == names[i]);
        }
        lemma_unmatched_filter_gives_empty_reply(shorter, filter);
        assert(!occurs_in(filter, names[names.len() - 1]));
    }
}

} // verus!
