//! Locating the Bear note database: the well-known candidate locations and
//! the rule that picks the first existing one. The surrounding shell
//! expands `~` and probes the filesystem; the choice itself is made here
//! over plain values.

use vstd::prelude::*;

verus! {

/// The candidate the search settles on from position `i` on: the first
/// whose path exists.
pub open spec fn first_hit_from(ps: Seq<Seq<char>>, es: Seq<bool>, i: int) -> Option<Seq<char>>
    decreases ps.len() - i,
{
    if i < 0 || i >= ps.len() || i >= es.len() {
        None
    } else if es[i] {
        Some(ps[i])
    } else {
        first_hit_from(ps, es, i + 1)
    }
}

/// The first candidate path that exists, in the given order.
pub fn first_existing(paths: &Vec<String>, exists: &Vec<bool>) -> (r: Option<String>)
    requires
        paths@.len() == exists@.len(),
    ensures
        r matches Some(p) ==> first_hit_from(paths.deep_view(), exists@, 0) == Some(p@),
        r is None ==> first_hit_from(paths.deep_view(), exists@, 0) is None,
{
    let mut i: usize = 0;
    while i < paths.len()
        invariant
            0 <= i <= paths@.len(),
            paths@.len() == exists@.len(),
            first_hit_from(paths.deep_view(), exists@, 0) == first_hit_from(
                paths.deep_view(),
                exists@,
                i as int,
            ),
        decreases paths@.len() - i,
    {
        if exists[i] {
            return Some(paths[i].clone());
        }
        i = i + 1;
    }
    None
}

/// The well-known locations of the Bear note database, in search order.
pub fn bear_db_candidates() -> (c: Vec<String>)
    ensures
        c.deep_view() == seq![
            "~/Library/Group Containers/9K33E3U3T4.net.shinyfrog.bear/Application Data/database.sqlite"@,
            "~/Library/Group Containers/2ELUDT6HF6.com.shinyfrog.bear/Application Data/database.sqlite"@,
            "~/Library/Containers/net.shinyfrog.bear/Data/Documents/Application Data/database.sqlite"@,
        ],
{
    let mut c: Vec<String> = Vec::new();
    c.push(String::from_str(
        "~/Library/Group Containers/9K33E3U3T4.net.shinyfrog.bear/Application Data/database.sqlite",
    ));
    c.push(String::from_str(
        "~/Library/Group Containers/2ELUDT6HF6.com.shinyfrog.bear/Application Data/database.sqlite",
    ));
    c.push(String::from_str(
        "~/Library/Containers/net.shinyfrog.bear/Data/Documents/Application Data/database.sqlite",
    ));
    proof {
        assert(c.deep_view() =~= seq![
            "~/Library/Group Containers/9K33E3U3T4.net.shinyfrog.bear/Application Data/database.sqlite"@,
            "~/Library/Group Containers/2ELUDT6HF6.com.shinyfrog.bear/Application Data/database.sqlite"@,
            "~/Library/Containers/net.shinyfrog.bear/Data/Documents/Application Data/database.sqlite"@,
        ]);
    }
    c
}

} // verus!
