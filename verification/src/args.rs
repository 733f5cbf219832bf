//! The arguments of a tool call: a map from names to values, both strings.

use vstd::prelude::*;
use crate::json::{JsonMember, JsonMemberView, member_views};
use crate::textmap::TextMap;

verus! {

/// The arguments of a tool call.
pub type ToolArgs = TextMap<String>;

/// The views of a sequence of strings.
pub open spec fn texts(rows: Seq<String>) -> Seq<Seq<char>> {
    Seq::new(rows.len(), |i: int| rows[i]@)
}

/// The map that a list of members gives: each key with the text of its value,
/// a later member replacing an earlier one of the same key.
pub open spec fn args_of(members: Seq<JsonMemberView>) -> Map<Seq<char>, Seq<char>>
    decreases members.len(),
{
    if members.len() == 0 {
        Map::empty()
    } else {
        args_of(members.drop_last()).insert(members.last().key, members.last().body)
    }
}

/// The arguments that a list of JSON members gives: each key with the text of
/// its value.
pub fn args_from_members(members: &Vec<JsonMember>) -> (r: ToolArgs)
    ensures
        r@ == args_of(member_views(members@)),
{
    let mut r: ToolArgs = TextMap::new();
    let mut i: usize = 0;
    assert(member_views(members@).take(0) =~= Seq::<JsonMemberView>::empty());
    while i < members.len()
        invariant
            i <= members.len(),
            r@ == args_of(member_views(members@).take(i as int)),
        decreases members.len() - i,
    {
        let ghost next = member_views(members@).take(i + 1);
        assert(next.drop_last() =~= member_views(members@).take(i as int));
        assert(next.last() == members@[i as int]@);
        r.insert(members[i].key.clone(), members[i].body.clone());
        i += 1;
    }
    assert(member_views(members@).take(members.len() as int) =~= member_views(members@));
    r
}

} // verus!
