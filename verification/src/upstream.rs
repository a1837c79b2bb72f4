//! How the listing service is addressed: where it lives, how a client has to
//! present itself, and the parameters that carry a page query.

use vstd::prelude::*;
use crate::roster::PageQuery;

verus! {

/// The address of the listing.
pub const ENDPOINT: &'static str =
    "https://api.live.bilibili.com/xlive/app-room/v2/guardTab/topList";

/// The client signature to send with every query. The service turns away
/// clients that do not identify themselves, or answers them inconsistently.
pub const USER_AGENT: &'static str =
    "Mozilla/5.0 (X11; Linux x86_64; rv:140.0) Gecko/20100101 Firefox/140.0";

/// The query parameters that stand for `query`, as names and values in the
/// order in which they are sent.
pub open spec fn parameters(query: PageQuery) -> Seq<(Seq<char>, int)> {
    seq![
        ("roomid"@, query.room_id as int),
        ("ruid"@, query.owner_id as int),
        ("page"@, query.page as int),
        ("page_size"@, query.page_size as int),
    ]
}

/// The names and values of a list of parameters, as mathematical values.
pub open spec fn parameter_views(pairs: Seq<(&'static str, u32)>) -> Seq<(Seq<char>, int)> {
    Seq::new(pairs.len(), |i: int| (pairs[i].0@, pairs[i].1 as int))
}

impl PageQuery {
    /// The query parameters to send for this query.
    pub fn pairs(&self) -> (pairs: Vec<(&'static str, u32)>)
        ensures
            parameter_views(pairs@) == parameters(*self),
    {
        let mut pairs: Vec<(&'static str, u32)> = Vec::new();
        pairs.push(("roomid", self.room_id));
        pairs.push(("ruid", self.owner_id));
        pairs.push(("page", self.page));
        pairs.push(("page_size", self.page_size));
        assert(parameter_views(pairs@) =~= parameters(*self));
        pairs
    }
}

} // verus!
