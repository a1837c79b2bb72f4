//! Answering one request for the roster: choosing the names that match the
//! filter, and laying them out as the lines of the reply.

use vstd::prelude::*;
use crate::error::{AnyhowError, ErrorView};
use crate::roster::{usernames, Entry};

verus! {

/// The status of a reply that carries the roster.
pub const STATUS_OK: u16 = 200;

/// The status of a reply that carries a failure.
pub const STATUS_SERVER_ERROR: u16 = 500;

/// Whether `needle` stands in `text` at position `at`.
pub open spec fn occurs_at(needle: Seq<char>, text: Seq<char>, at: int) -> bool {
    &&& 0 <= at
    &&& at + needle.len() <= text.len()
    &&& text.subrange(at, at + needle.len()) == needle
}

/// Whether `needle` is a substring of `text`: the same characters, in one piece.
pub open spec fn occurs_in(needle: Seq<char>, text: Seq<char>) -> bool {
    exists|at: int| occurs_at(needle, text, at)
}

/// The test that a filter puts to a name.
pub open spec fn passes(filter: Seq<char>) -> spec_fn(Seq<char>) -> bool {
    |name: Seq<char>| occurs_in(filter, name)
}

/// The names of `names` that a request asks for: all of them where it has no
/// filter, else those that hold the filter as a substring. Their order is kept.
pub open spec fn selected(names: Seq<Seq<char>>, filter: Option<Seq<char>>) -> Seq<Seq<char>> {
    match filter {
        None => names,
        Some(needle) => names.filter(passes(needle)),
    }
}

/// `lines` with a line feed between each two of them, and none at the end.
pub open spec fn joined(lines: Seq<Seq<char>>) -> Seq<char>
    decreases lines.len(),
{
    if lines.len() == 0 {
        Seq::empty()
    } else if lines.len() == 1 {
        lines[0]
    } else {
        joined(lines.drop_last()) + seq!['\n'] + lines.last()
    }
}

/// The characters of each string of `lines`.
pub open spec fn texts(lines: Seq<String>) -> Seq<Seq<char>> {
    Seq::new(lines.len(), |i: int| lines[i]@)
}

/// The characters of an optional string.
pub open spec fn optional_text(text: Option<String>) -> Option<Seq<char>> {
    match text {
        Some(text) => Some(text@),
        None => None,
    }
}

/// `str::contains` of the standard library, with a string as the pattern:
/// whether the pattern matches a sub-slice of `text`. Both are valid UTF-8,
/// so a match of the bytes is a match of the characters.
#[verifier::external_body]
fn contains(text: &str, needle: &str) -> (found: bool)
    ensures
        found == occurs_in(needle@, text@),
{
    text.contains(needle)
}

/// The names of `roster` that the request asks for, in the roster's order.
pub fn select(roster: &Vec<Entry>, filter: &Option<String>) -> (names: Vec<String>)
    ensures
        texts(names@) == selected(usernames(roster@), optional_text(*filter)),
{
    let ghost all = usernames(roster@);
    let ghost wanted = optional_text(*filter);
    let mut names: Vec<String> = Vec::new();
    let mut i: usize = 0;
    assert(all.take(0) =~= Seq::empty());
    assert(texts(names@) =~= selected(all.take(0), wanted)) by {
        reveal(Seq::filter);
    }
    while i < roster.len()
        invariant
            i <= roster.len(),
            all == usernames(roster@),
            wanted == optional_text(*filter),
            texts(names@) == selected(all.take(i as int), wanted),
        decreases roster.len() - i,
    {
        let entry = &roster[i];
        let keep = match filter {
            None => true,
            Some(needle) => contains(entry.username.as_str(), needle.as_str()),
        };
        let ghost before = names@;
        if keep {
            names.push(entry.username.clone());
        }
        proof {
            let longer = all.take(i as int + 1);
            assert(longer.drop_last() =~= all.take(i as int));
            assert(longer.last() == entry@);
            match wanted {
                None => {
                    assert(texts(names@) =~= longer);
                },
                Some(needle) => {
                    reveal(Seq::filter);
                    assert(keep == passes(needle)(longer.last()));
                    if keep {
                        assert(texts(names@) =~= texts(before).push(entry@));
                    }
                },
            }
        }
        i += 1;
    }
    assert(all.take(i as int) =~= all);
    names
}

/// Lays `lines` out as one text, a line feed between each two of them.
pub fn join_lines(lines: &Vec<String>) -> (text: String)
    ensures
        text@ == joined(texts(lines@)),
{
    let ghost all = texts(lines@);
    let mut text = String::new();
    let mut i: usize = 0;
    assert(all.take(0) =~= Seq::empty());
    while i < lines.len()
        invariant
            i <= lines.len(),
            all == texts(lines@),
            text@ == joined(all.take(i as int)),
        decreases lines.len() - i,
    {
        let ghost before = text@;
        if i > 0 {
            proof {
                reveal_strlit("\n");
            }
            text.append("\n");
            assert(text@ =~= before + seq!['\n']);
        }
        text.append(lines[i].as_str());
        proof {
            let longer = all.take(i as int + 1);
            assert(longer.drop_last() =~= all.take(i as int));
            assert(longer.last() == lines[i as int]@);
            if i == 0 {
                assert(text@ =~= longer[0]);
            }
        }
        i += 1;
    }
    assert(all.take(i as int) =~= all);
    text
}

/// The body of a reply that carries `roster`: the names that the request
/// asks for, one to a line.
pub fn render(roster: &Vec<Entry>, filter: &Option<String>) -> (body: String)
    ensures
        body@ == joined(selected(usernames(roster@), optional_text(*filter))),
{
    let names = select(roster, filter);
    join_lines(&names)
}

/// The reply to one request: a status and a body of plain text.
#[derive(Debug)]
pub struct Reply {
    pub status: u16,
    pub body: String,
}

/// What a [`Reply`] holds, as mathematical values.
pub struct ReplyView {
    pub status: int,
    pub body: Seq<char>,
}

impl View for Reply {
    type V = ReplyView;

    open spec fn view(&self) -> ReplyView {
        ReplyView { status: self.status as int, body: self.body@ }
    }
}

/// The reply that is owed to a request with the given filter, once the
/// aggregation has ended with `result`. A roster goes out with status 200,
/// filtered and one name to a line. A failure of any kind goes out with
/// status 500 and its description as the body, and no name with it.
pub open spec fn reply_for(
    result: Result<Seq<Seq<char>>, ErrorView>,
    filter: Option<Seq<char>>,
) -> ReplyView {
    match result {
        Ok(names) => ReplyView { status: 200, body: joined(selected(names, filter)) },
        Err(error) => ReplyView { status: 500, body: error.message },
    }
}

/// How an aggregation ended, as mathematical values.
pub open spec fn result_view(result: Result<Vec<Entry>, AnyhowError>) -> Result<
    Seq<Seq<char>>,
    ErrorView,
> {
    match result {
        Ok(roster) => Ok(usernames(roster@)),
        Err(error) => Err(error@),
    }
}

/// Answers one request, given how the aggregation for it ended.
pub fn respond(result: Result<Vec<Entry>, AnyhowError>, filter: Option<String>) -> (reply: Reply)
    ensures
        reply@ == reply_for(result_view(result), optional_text(filter)),
{
    match result {
        Ok(roster) => Reply { status: STATUS_OK, body: render(&roster, &filter) },
        Err(error) => Reply { status: STATUS_SERVER_ERROR, body: error.describe() },
    }
}

} // verus!
