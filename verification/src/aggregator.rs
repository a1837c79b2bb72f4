//! Walking the pages of a roster.
//!
//! The listing service has no "last page" flag. Each answer reports the
//! highest page that holds data, and the walk ends with the first answer
//! that reports a page below the one that was asked for. So the walk always
//! asks for one page past the last page with data; that extra call is how it
//! learns that it is done.
//!
//! Talking to the service is left to the caller. The [`Aggregator`] says
//! which page to ask for and takes the answer; [`step`] is the whole rule.

use vstd::prelude::*;
use crate::error::{AnyhowError, ErrorView};
use crate::roster::{
    lemma_usernames_concat, usernames, AggregationRequest, Entry, PageQuery, PageResult, PageView,
    PAGE_SIZE,
};

verus! {

/// What one call to the listing service came to.
pub type Outcome = Result<PageView, ErrorView>;

/// The outcome of a call, as mathematical values.
pub open spec fn outcome_view(outcome: Result<PageResult, AnyhowError>) -> Outcome {
    match outcome {
        Ok(page) => Ok(page@),
        Err(error) => Err(error@),
    }
}

/// A walk that has not ended: the roster asked for, the page to ask for
/// next, and the names gathered from the pages before it.
pub struct AggregatorView {
    pub request: AggregationRequest,
    pub page: nat,
    pub gathered: Seq<Seq<char>>,
}

/// Where a walk stands after an answer.
pub enum ProgressView {
    /// Another page has to be fetched.
    Fetch(AggregatorView),
    /// The walk is over: with the whole roster, or with the failure that ended it.
    Done(Result<Seq<Seq<char>>, ErrorView>),
}

/// A walk before its first call: page 1 is next and nothing is gathered.
pub open spec fn start(request: AggregationRequest) -> AggregatorView {
    AggregatorView { request, page: 1, gathered: Seq::empty() }
}

/// The names of an optional list, none where it is absent.
pub open spec fn names_or_none(list: Option<Seq<Seq<char>>>) -> Seq<Seq<char>> {
    match list {
        Some(names) => names,
        None => Seq::empty(),
    }
}

/// What the answer to the query for page `page` adds to the roster: the
/// highlighted supporters before the regular ones on page 1, the regular
/// ones alone on every later page.
pub open spec fn contribution(page: nat, answer: PageView) -> Seq<Seq<char>> {
    if page == 1 {
        names_or_none(answer.top3) + answer.entries
    } else {
        answer.entries
    }
}

/// The rule of the walk. A failure ends it, and nothing gathered so far is
/// kept. An answer that reports a page below the one asked for ends it with
/// what was gathered. Any other answer adds its contribution, even an empty
/// one, and the next page is asked for.
pub open spec fn step(at: AggregatorView, outcome: Outcome) -> ProgressView {
    match outcome {
        Err(error) => ProgressView::Done(Err(error)),
        Ok(answer) => if answer.current_page < at.page {
            ProgressView::Done(Ok(at.gathered))
        } else {
            ProgressView::Fetch(
                AggregatorView {
                    request: at.request,
                    page: at.page + 1,
                    gathered: at.gathered + contribution(at.page, answer),
                },
            )
        },
    }
}

/// Where a walk that stands at `at` has got to when the calls it makes come
/// to `outcomes`, one after the other. It takes no outcome once it is over,
/// and is still fetching if they run out before that.
pub open spec fn run(at: AggregatorView, outcomes: Seq<Outcome>) -> ProgressView
    decreases outcomes.len(),
{
    if outcomes.len() == 0 {
        ProgressView::Fetch(at)
    } else {
        match step(at, outcomes[0]) {
            ProgressView::Fetch(next) => run(next, outcomes.drop_first()),
            ProgressView::Done(result) => ProgressView::Done(result),
        }
    }
}

/// How many calls that walk makes: how many of `outcomes` it takes.
pub open spec fn calls(at: AggregatorView, outcomes: Seq<Outcome>) -> nat
    decreases outcomes.len(),
{
    if outcomes.len() == 0 {
        0
    } else {
        match step(at, outcomes[0]) {
            ProgressView::Fetch(next) => 1 + calls(next, outcomes.drop_first()),
            ProgressView::Done(_) => 1,
        }
    }
}

/// The outcomes of a script of calls, as mathematical values.
pub open spec fn outcome_views(script: Seq<Result<PageResult, AnyhowError>>) -> Seq<Outcome> {
    Seq::new(script.len(), |i: int| outcome_view(script[i]))
}

/// A walk in progress.
pub struct Aggregator {
    request: AggregationRequest,
    page: u32,
    gathered: Vec<Entry>,
}

impl View for Aggregator {
    type V = AggregatorView;

    closed spec fn view(&self) -> AggregatorView {
        AggregatorView {
            request: self.request,
            page: self.page as nat,
            gathered: usernames(self.gathered@),
        }
    }
}

/// Where a walk stands after an answer.
pub enum Progress {
    /// Another page has to be fetched: ask for `query()` of this state.
    Fetch(Aggregator),
    /// The walk is over.
    Done(Result<Vec<Entry>, AnyhowError>),
}

impl View for Progress {
    type V = ProgressView;

    open spec fn view(&self) -> ProgressView {
        match self {
            Progress::Fetch(next) => ProgressView::Fetch(next@),
            Progress::Done(Ok(roster)) => ProgressView::Done(Ok(usernames(roster@))),
            Progress::Done(Err(error)) => ProgressView::Done(Err(error@)),
        }
    }
}

impl Aggregator {
    /// Begins the walk over the roster that `request` names.
    pub fn new(request: AggregationRequest) -> (walk: Aggregator)
        ensures
            walk@ == start(request),
    {
        let walk = Aggregator { request, page: 1, gathered: Vec::new() };
        assert(walk@.gathered =~= Seq::empty());
        walk
    }

    /// The query to send next.
    pub fn query(&self) -> (query: PageQuery)
        ensures
            query.room_id == self@.request.room_id,
            query.owner_id == self@.request.owner_id,
            query.page == self@.page,
            query.page_size == PAGE_SIZE,
    {
        PageQuery {
            room_id: self.request.room_id,
            owner_id: self.request.owner_id,
            page: self.page,
            page_size: PAGE_SIZE,
        }
    }

    /// Takes the outcome of the query that `query()` gave and says how the
    /// walk goes on.
    pub fn advance(self, outcome: Result<PageResult, AnyhowError>) -> (progress: Progress)
        ensures
            progress@ == step(self@, outcome_view(outcome)),
    {
        let Aggregator { request, page, gathered } = self;
        match outcome {
            Err(error) => Progress::Done(Err(error)),
            Ok(answer) => {
                let PageResult { current_page, entries, top3 } = answer;
                if (current_page as i64) < (page as i64) {
                    return Progress::Done(Ok(gathered));
                }
                let mut gathered = gathered;
                let mut entries = entries;
                let ghost before = gathered@;
                let ghost leading: Seq<Entry> = Seq::empty();
                if page == 1 {
                    if let Some(top3) = top3 {
                        let mut top3 = top3;
                        proof {
                            leading = top3@;
                        }
                        gathered.append(&mut top3);
                    }
                }
                gathered.append(&mut entries);
                proof {
                    lemma_usernames_concat(before, leading);
                    lemma_usernames_concat(before + leading, answer.entries@);
                    assert(usernames(leading) =~= if page == 1 {
                        names_or_none(answer@.top3)
                    } else {
                        Seq::empty()
                    });
                    assert(usernames(gathered@) =~= usernames(before) + contribution(
                        page as nat,
                        answer@,
                    ));
                }
                Progress::Fetch(Aggregator { request, page: page + 1, gathered })
            },
        }
    }
}

/// Walks the roster that `request` names against a script in place of the
/// listing service: the first call comes to `script[0]`, the next to
/// `script[1]`, and so on. Gives where the walk stands at the end, and how
/// many calls it made.
pub fn collect_scripted(
    request: AggregationRequest,
    script: Vec<Result<PageResult, AnyhowError>>,
) -> (end: (Progress, usize))
    ensures
        end.0@ == run(start(request), outcome_views(script@)),
        end.1 == calls(start(request), outcome_views(script@)),
{
    let ghost all = outcome_views(script@);
    let mut walk = Aggregator::new(request);
    let mut made: usize = 0;
    let total = script.len();
    assert(all.skip(0) =~= all);
    for outcome in it: script
        invariant
            all == outcome_views(script@),
            it.seq() == script@,
            script@.len() == total,
            made == it.index(),
            run(start(request), all) == run(walk@, all.skip(made as int)),
            calls(start(request), all) == made + calls(walk@, all.skip(made as int)),
    {
        let ghost rest = all.skip(made as int);
        assert(rest[0] == outcome_view(outcome));
        assert(rest.drop_first() =~= all.skip(made as int + 1));
        made += 1;
        match walk.advance(outcome) {
            Progress::Fetch(next) => {
                walk = next;
            },
            Progress::Done(result) => {
                return (Progress::Done(result), made);
            },
        }
    }
    (Progress::Fetch(walk), made)
}

} // verus!
