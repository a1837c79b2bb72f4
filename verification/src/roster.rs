//! The data exchanged with the listing service: supporters, pages of them,
//! and the query that asks for one page.

use vstd::prelude::*;

verus! {

/// How many supporters one page of the listing holds.
pub const PAGE_SIZE: u32 = 30;

/// One supporter of the room. Only the name matters to the roster.
#[derive(Debug)]
pub struct Entry {
    pub username: String,
}

impl View for Entry {
    type V = Seq<char>;

    open spec fn view(&self) -> Seq<char> {
        self.username@
    }
}

/// The names of `entries`, in the same order.
pub open spec fn usernames(entries: Seq<Entry>) -> Seq<Seq<char>> {
    Seq::new(entries.len(), |i: int| entries[i]@)
}

/// The names of an optional list; an absent list has no names.
pub open spec fn optional_usernames(entries: Option<Vec<Entry>>) -> Option<Seq<Seq<char>>> {
    match entries {
        Some(list) => Some(usernames(list@)),
        None => None,
    }
}

/// Taking names commutes with concatenation.
pub proof fn lemma_usernames_concat(front: Seq<Entry>, back: Seq<Entry>)
    ensures
        usernames(front + back) == usernames(front) + usernames(back),
{
    assert(usernames(front + back) =~= usernames(front) + usernames(back));
}

/// One page as the listing service answers it.
#[derive(Debug)]
pub struct PageResult {
    /// The highest page number that holds data at the moment.
    pub current_page: i32,
    /// The regular supporters on this page.
    pub entries: Vec<Entry>,
    /// The highlighted supporters; the service sends them with the first page.
    pub top3: Option<Vec<Entry>>,
}

/// What a [`PageResult`] holds, as mathematical values.
pub struct PageView {
    pub current_page: int,
    pub entries: Seq<Seq<char>>,
    pub top3: Option<Seq<Seq<char>>>,
}

impl View for PageResult {
    type V = PageView;

    open spec fn view(&self) -> PageView {
        PageView {
            current_page: self.current_page as int,
            entries: usernames(self.entries@),
            top3: optional_usernames(self.top3),
        }
    }
}

/// The roster to fetch: a room and the account that owns it.
#[derive(Clone, Copy, Debug, PartialEq, Eq, Structural)]
pub struct AggregationRequest {
    pub room_id: u32,
    pub owner_id: u32,
}

/// The query for one page of a roster. Pages are numbered from 1.
#[derive(Clone, Copy, Debug, PartialEq, Eq, Structural)]
pub struct PageQuery {
    pub room_id: u32,
    pub owner_id: u32,
    pub page: u32,
    pub page_size: u32,
}

impl Entry {
    /// The entry of the supporter called `username`.
    pub fn new(username: String) -> (entry: Entry)
        ensures
            entry@ == username@,
    {
        Entry { username }
    }
}

} // verus!
